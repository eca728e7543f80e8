//! The DISCONNECT packet a broker sends before it closes the connection.

use vstd::prelude::*;

verus! {

/// The reasons MQTT 5 gives for a disconnect.
#[derive(Debug, Clone, Copy, PartialEq, Eq, Structural)]
pub enum ReasonCode {
    NormalDisconnection,
    DisconnectWithWillMessage,
    UnspecifiedError,
    MalformedPacket,
    ProtocolError,
    ImplementationSpecificError,
    NotAuthorized,
    ServerBusy,
    ServerShuttingDown,
    KeepAliveTimeout,
    SessionTakenOver,
    TopicFilterInvalid,
    TopicNameInvalid,
    ReceiveMaximumExceeded,
    TopicAliasInvalid,
    PacketTooLarge,
    MessageRateTooHigh,
    QuotaExceeded,
    AdministrativeAction,
    PayloadFormatInvalid,
    RetainNotSupported,
    QosNotSupported,
    UseAnotherServer,
    ServerMoved,
    SharedSubscriptionsNotSupported,
    ConnectionRateExceeded,
    MaximumConnectTime,
    SubscriptionIdentifiersNotSupported,
    WildcardSubscriptionsNotSupported,
}

/// A disconnect reason code that MQTT 5 does not define.
#[derive(Debug, Clone, Copy, PartialEq, Eq, Structural)]
pub struct UnknownReasonCode(pub u8);

/// The disconnect reason MQTT 5 assigns to `code`, if it assigns one.
pub open spec fn disconnect_reason(code: u8) -> Option<ReasonCode> {
    match code {
        0x00 => Some(ReasonCode::NormalDisconnection),
        0x04 => Some(ReasonCode::DisconnectWithWillMessage),
        0x80 => Some(ReasonCode::UnspecifiedError),
        0x81 => Some(ReasonCode::MalformedPacket),
        0x82 => Some(ReasonCode::ProtocolError),
        0x83 => Some(ReasonCode::ImplementationSpecificError),
        0x87 => Some(ReasonCode::NotAuthorized),
        0x89 => Some(ReasonCode::ServerBusy),
        0x8B => Some(ReasonCode::ServerShuttingDown),
        0x8D => Some(ReasonCode::KeepAliveTimeout),
        0x8E => Some(ReasonCode::SessionTakenOver),
        0x8F => Some(ReasonCode::TopicFilterInvalid),
        0x90 => Some(ReasonCode::TopicNameInvalid),
        0x93 => Some(ReasonCode::ReceiveMaximumExceeded),
        0x94 => Some(ReasonCode::TopicAliasInvalid),
        0x95 => Some(ReasonCode::PacketTooLarge),
        0x96 => Some(ReasonCode::MessageRateTooHigh),
        0x97 => Some(ReasonCode::QuotaExceeded),
        0x98 => Some(ReasonCode::AdministrativeAction),
        0x99 => Some(ReasonCode::PayloadFormatInvalid),
        0x9A => Some(ReasonCode::RetainNotSupported),
        0x9B => Some(ReasonCode::QosNotSupported),
        0x9C => Some(ReasonCode::UseAnotherServer),
        0x9D => Some(ReasonCode::ServerMoved),
        0x9E => Some(ReasonCode::SharedSubscriptionsNotSupported),
        0x9F => Some(ReasonCode::ConnectionRateExceeded),
        0xA0 => Some(ReasonCode::MaximumConnectTime),
        0xA1 => Some(ReasonCode::SubscriptionIdentifiersNotSupported),
        0xA2 => Some(ReasonCode::WildcardSubscriptionsNotSupported),
        _ => None,
    }
}

impl ReasonCode {
    /// Reads a disconnect reason code.
    pub fn try_from(value: u8) -> (result: Result<Self, UnknownReasonCode>)
        ensures
            match disconnect_reason(value) {
                Some(reason) => result == Ok::<Self, UnknownReasonCode>(reason),
                None => result == Err::<Self, UnknownReasonCode>(UnknownReasonCode(value)),
            },
    {
        match value {
            0x00 => Ok(ReasonCode::NormalDisconnection),
            0x04 => Ok(ReasonCode::DisconnectWithWillMessage),
            0x80 => Ok(ReasonCode::UnspecifiedError),
            0x81 => Ok(ReasonCode::MalformedPacket),
            0x82 => Ok(ReasonCode::ProtocolError),
            0x83 => Ok(ReasonCode::ImplementationSpecificError),
            0x87 => Ok(ReasonCode::NotAuthorized),
            0x89 => Ok(ReasonCode::ServerBusy),
            0x8B => Ok(ReasonCode::ServerShuttingDown),
            0x8D => Ok(ReasonCode::KeepAliveTimeout),
            0x8E => Ok(ReasonCode::SessionTakenOver),
            0x8F => Ok(ReasonCode::TopicFilterInvalid),
            0x90 => Ok(ReasonCode::TopicNameInvalid),
            0x93 => Ok(ReasonCode::ReceiveMaximumExceeded),
            0x94 => Ok(ReasonCode::TopicAliasInvalid),
            0x95 => Ok(ReasonCode::PacketTooLarge),
            0x96 => Ok(ReasonCode::MessageRateTooHigh),
            0x97 => Ok(ReasonCode::QuotaExceeded),
            0x98 => Ok(ReasonCode::AdministrativeAction),
            0x99 => Ok(ReasonCode::PayloadFormatInvalid),
            0x9A => Ok(ReasonCode::RetainNotSupported),
            0x9B => Ok(ReasonCode::QosNotSupported),
            0x9C => Ok(ReasonCode::UseAnotherServer),
            0x9D => Ok(ReasonCode::ServerMoved),
            0x9E => Ok(ReasonCode::SharedSubscriptionsNotSupported),
            0x9F => Ok(ReasonCode::ConnectionRateExceeded),
            0xA0 => Ok(ReasonCode::MaximumConnectTime),
            0xA1 => Ok(ReasonCode::SubscriptionIdentifiersNotSupported),
            0xA2 => Ok(ReasonCode::WildcardSubscriptionsNotSupported),
            unknown => Err(UnknownReasonCode(unknown)),
        }
    }
}

/// A DISCONNECT, of which only the reason code is read.
#[derive(Debug, Clone, Copy, PartialEq, Eq, Structural)]
pub struct Disconnect {
    pub reason_code: ReasonCode,
}

/// Why a DISCONNECT could not be read.
#[derive(Debug, Clone, Copy, PartialEq, Eq, Structural)]
pub enum DecodeDisconnectError {
    UnknownReasonCode(UnknownReasonCode),
}

impl Disconnect {
    pub const TYPE: u8 = 14;

    /// Reads the reason code, the first byte of the variable header. The flags are not used.
    pub fn try_decode(flags: u8, variable_header_and_payload: &[u8]) -> (result: Result<
        Self,
        DecodeDisconnectError,
    >)
        requires
            variable_header_and_payload@.len() >= 1,
        ensures
            match disconnect_reason(variable_header_and_payload@[0]) {
                Some(reason_code) => result == Ok::<Self, DecodeDisconnectError>(Disconnect { reason_code }),
                None => result == Err::<Self, DecodeDisconnectError>(
                    DecodeDisconnectError::UnknownReasonCode(
                        UnknownReasonCode(variable_header_and_payload@[0]),
                    ),
                ),
            },
    {
        match ReasonCode::try_from(variable_header_and_payload[0]) {
            Ok(reason_code) => Ok(Disconnect { reason_code }),
            Err(unknown) => Err(DecodeDisconnectError::UnknownReasonCode(unknown)),
        }
    }
}

} // verus!
