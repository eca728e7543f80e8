//! The CONNACK packet the broker answers a CONNECT with.

use vstd::prelude::*;

use super::variable_byte_integer::{self, decode_result};

verus! {

/// The reasons MQTT 5 gives for refusing a connection.
#[derive(Debug, Clone, Copy, PartialEq, Eq, Structural)]
pub enum ConnectErrorReasonCode {
    UnspecifiedError,
    MalformedPacket,
    ProtocolError,
    ImplementationSpecificError,
    UnsupportedProtocolVersion,
    ClientIdentifierNotValid,
    BadUserNameOrPassword,
    NotAuthorized,
    ServerUnavailable,
    ServerBusy,
    Banned,
    BadAuthenticationMethod,
    TopicNameInvalid,
    PacketTooLarge,
    QuotaExceeded,
    PayloadFormatInvalid,
    RetainNotSupported,
    QosNotSupported,
    UseAnotherServer,
    ServerMoved,
    ConnectionRateExceeded,
}

/// A connect reason code that MQTT 5 does not define.
#[derive(Debug, Clone, Copy, PartialEq, Eq, Structural)]
pub struct UnknownConnectErrorReasonCode(pub u8);

/// Whether the broker accepted the connection, and if not why.
#[derive(Debug, Clone, Copy, PartialEq, Eq, Structural)]
pub enum ConnectReasonCode {
    Success,
    ErrorCode(ConnectErrorReasonCode),
}

/// The refusal MQTT 5 assigns to `code`, if it assigns one.
pub open spec fn connect_error_reason(code: u8) -> Option<ConnectErrorReasonCode> {
    match code {
        0x80 => Some(ConnectErrorReasonCode::UnspecifiedError),
        0x81 => Some(ConnectErrorReasonCode::MalformedPacket),
        0x82 => Some(ConnectErrorReasonCode::ProtocolError),
        0x83 => Some(ConnectErrorReasonCode::ImplementationSpecificError),
        0x84 => Some(ConnectErrorReasonCode::UnsupportedProtocolVersion),
        0x85 => Some(ConnectErrorReasonCode::ClientIdentifierNotValid),
        0x86 => Some(ConnectErrorReasonCode::BadUserNameOrPassword),
        0x87 => Some(ConnectErrorReasonCode::NotAuthorized),
        0x88 => Some(ConnectErrorReasonCode::ServerUnavailable),
        0x89 => Some(ConnectErrorReasonCode::ServerBusy),
        0x8A => Some(ConnectErrorReasonCode::Banned),
        0x8C => Some(ConnectErrorReasonCode::BadAuthenticationMethod),
        0x90 => Some(ConnectErrorReasonCode::TopicNameInvalid),
        0x95 => Some(ConnectErrorReasonCode::PacketTooLarge),
        0x97 => Some(ConnectErrorReasonCode::QuotaExceeded),
        0x99 => Some(ConnectErrorReasonCode::PayloadFormatInvalid),
        0x9A => Some(ConnectErrorReasonCode::RetainNotSupported),
        0x9B => Some(ConnectErrorReasonCode::QosNotSupported),
        0x9C => Some(ConnectErrorReasonCode::UseAnotherServer),
        0x9D => Some(ConnectErrorReasonCode::ServerMoved),
        0x9F => Some(ConnectErrorReasonCode::ConnectionRateExceeded),
        _ => None,
    }
}

/// What [`ConnectReasonCode::try_from`] makes of `code`.
pub open spec fn connect_reason(code: u8) -> Result<ConnectReasonCode, UnknownConnectErrorReasonCode> {
    if code == 0 {
        Ok(ConnectReasonCode::Success)
    } else {
        match connect_error_reason(code) {
            Some(reason) => Ok(ConnectReasonCode::ErrorCode(reason)),
            None => Err(UnknownConnectErrorReasonCode(code)),
        }
    }
}

impl ConnectReasonCode {
    /// Reads a connect reason code. `0x00` is success; the refusals are those of MQTT 5, and any
    /// other byte is unknown.
    pub fn try_from(value: u8) -> (result: Result<Self, UnknownConnectErrorReasonCode>)
        ensures
            result == connect_reason(value),
    {
        match value {
            0x00 => Ok(ConnectReasonCode::Success),
            0x80 => Ok(ConnectReasonCode::ErrorCode(ConnectErrorReasonCode::UnspecifiedError)),
            0x81 => Ok(ConnectReasonCode::ErrorCode(ConnectErrorReasonCode::MalformedPacket)),
            0x82 => Ok(ConnectReasonCode::ErrorCode(ConnectErrorReasonCode::ProtocolError)),
            0x83 => Ok(
                ConnectReasonCode::ErrorCode(ConnectErrorReasonCode::ImplementationSpecificError),
            ),
            0x84 => Ok(
                ConnectReasonCode::ErrorCode(ConnectErrorReasonCode::UnsupportedProtocolVersion),
            ),
            0x85 => Ok(
                ConnectReasonCode::ErrorCode(ConnectErrorReasonCode::ClientIdentifierNotValid),
            ),
            0x86 => Ok(ConnectReasonCode::ErrorCode(ConnectErrorReasonCode::BadUserNameOrPassword)),
            0x87 => Ok(ConnectReasonCode::ErrorCode(ConnectErrorReasonCode::NotAuthorized)),
            0x88 => Ok(ConnectReasonCode::ErrorCode(ConnectErrorReasonCode::ServerUnavailable)),
            0x89 => Ok(ConnectReasonCode::ErrorCode(ConnectErrorReasonCode::ServerBusy)),
            0x8A => Ok(ConnectReasonCode::ErrorCode(ConnectErrorReasonCode::Banned)),
            0x8C => Ok(
                ConnectReasonCode::ErrorCode(ConnectErrorReasonCode::BadAuthenticationMethod),
            ),
            0x90 => Ok(ConnectReasonCode::ErrorCode(ConnectErrorReasonCode::TopicNameInvalid)),
            0x95 => Ok(ConnectReasonCode::ErrorCode(ConnectErrorReasonCode::PacketTooLarge)),
            0x97 => Ok(ConnectReasonCode::ErrorCode(ConnectErrorReasonCode::QuotaExceeded)),
            0x99 => Ok(ConnectReasonCode::ErrorCode(ConnectErrorReasonCode::PayloadFormatInvalid)),
            0x9A => Ok(ConnectReasonCode::ErrorCode(ConnectErrorReasonCode::RetainNotSupported)),
            0x9B => Ok(ConnectReasonCode::ErrorCode(ConnectErrorReasonCode::QosNotSupported)),
            0x9C => Ok(ConnectReasonCode::ErrorCode(ConnectErrorReasonCode::UseAnotherServer)),
            0x9D => Ok(ConnectReasonCode::ErrorCode(ConnectErrorReasonCode::ServerMoved)),
            0x9F => Ok(
                ConnectReasonCode::ErrorCode(ConnectErrorReasonCode::ConnectionRateExceeded),
            ),
            unknown => Err(UnknownConnectErrorReasonCode(unknown)),
        }
    }
}

/// The broker's answer to a CONNECT: whether it kept a session, and whether it accepted.
#[derive(Debug, Clone, Copy, PartialEq, Eq, Structural)]
pub struct ConnectAcknowledgement {
    pub is_session_present: bool,
    pub connect_reason_code: ConnectReasonCode,
}

/// Why a CONNACK could not be read.
#[derive(Debug, Clone, Copy, PartialEq, Eq, Structural)]
pub enum DecodeError {
    InvalidReasonCode(UnknownConnectErrorReasonCode),
    InvalidPropertiesLength(variable_byte_integer::DecodeError),
    InvalidPropertyStringLength { property_identifier: u8, error: variable_byte_integer::DecodeError },
    UnknownPropertyIdentifier(u8),
}

/// How many bytes the value of a property of fixed width takes, for the properties a CONNACK can
/// carry that have one.
pub open spec fn fixed_property_width(identifier: u8) -> Option<int> {
    match identifier {
        0x11 | 0x27 => Some(4),
        0x21 | 0x22 | 0x13 => Some(2),
        0x24 | 0x25 | 0x28 | 0x29 | 0x2A => Some(1),
        _ => None,
    }
}

/// Whether a CONNACK property is skipped by reading a length and stepping over that many bytes.
pub open spec fn is_length_property(identifier: u8) -> bool {
    identifier == 0x12 || identifier == 0x1F || identifier == 0x1A || identifier == 0x1C
        || identifier == 0x15 || identifier == 0x16
}

/// The user property, a pair of strings, each skipped by its length.
pub const USER_PROPERTY: u8 = 0x26;

/// Decoding never moves the offset backwards.
pub proof fn lemma_decode_advances(buffer: Seq<u8>, offset: int)
    ensures
        offset <= decode_result(buffer, offset).1 <= offset + 5,
{
    reveal_with_fuel(variable_byte_integer::decode_continuation, 5);
}

/// The two byte length, most significant first, in front of a string or binary property value
/// read at `offset`, and where the value starts. A buffer that ends before both bytes is reported
/// as the end of the buffer, or as its unexpected end when one byte is there.
pub open spec fn string_length_result(buffer: Seq<u8>, offset: int) -> (
    Result<usize, variable_byte_integer::DecodeError>,
    int,
) {
    if buffer.len() <= offset {
        (Err(variable_byte_integer::DecodeError::EndOfBuffer), offset)
    } else if buffer.len() <= offset + 1 {
        (Err(variable_byte_integer::DecodeError::UnexpectedEndOfBuffer), offset)
    } else {
        (Ok::<usize, variable_byte_integer::DecodeError>((buffer[offset] as int * 256 + buffer[offset + 1]) as usize), offset + 2)
    }
}

/// Steps over the properties from `offset` until `end`, as [`ConnectAcknowledgement::try_decode`]
/// does. `None` where the walk would read a property identifier past the buffer; otherwise whether
/// it got through. The value of a string or binary property is stepped over by its two byte
/// length.
pub open spec fn skip_properties(buffer: Seq<u8>, offset: int, end: int) -> Option<Result<(), DecodeError>>
    decreases (if offset < end { end - offset } else { 0 }),
{
    if offset >= end {
        Some(Ok(()))
    } else if offset >= buffer.len() || offset < 0 {
        None
    } else {
        let identifier = buffer[offset];
        let next = offset + 1;
        match fixed_property_width(identifier) {
            Some(width) => skip_properties(buffer, next + width, end),
            None => if is_length_property(identifier) {
                let (length, after) = string_length_result(buffer, next);
                match length {
                    Err(error) => Some(
                        Err(DecodeError::InvalidPropertyStringLength { property_identifier: identifier, error }),
                    ),
                    Ok(length) => skip_properties(buffer, after + length, end),
                }
            } else if identifier == USER_PROPERTY {
                let (first, after_first) = string_length_result(buffer, next);
                match first {
                    Err(error) => Some(
                        Err(DecodeError::InvalidPropertyStringLength { property_identifier: identifier, error }),
                    ),
                    Ok(first) => {
                        let (second, after_second) = string_length_result(buffer, after_first + first);
                        match second {
                            Err(error) => Some(
                                Err(
                                    DecodeError::InvalidPropertyStringLength {
                                        property_identifier: identifier,
                                        error,
                                    },
                                ),
                            ),
                            Ok(second) => skip_properties(buffer, after_second + second, end),
                        }
                    },
                }
            } else {
                Some(Err(DecodeError::UnknownPropertyIdentifier(identifier)))
            },
        }
    }
}

/// What [`ConnectAcknowledgement::try_decode`] makes of `buffer`: `None` where it would read
/// past the buffer.
pub open spec fn connect_acknowledgement_result(buffer: Seq<u8>) -> Option<
    Result<ConnectAcknowledgement, DecodeError>,
> {
    if buffer.len() < 2 {
        None
    } else {
        match connect_reason(buffer[1]) {
            Err(unknown) => Some(Err(DecodeError::InvalidReasonCode(unknown))),
            Ok(reason) => {
                let (properties, start) = decode_result(buffer, 2);
                match properties {
                    Err(error) => Some(Err(DecodeError::InvalidPropertiesLength(error))),
                    Ok(length) => match skip_properties(buffer, start, start + length) {
                        None => None,
                        Some(Err(error)) => Some(Err(error)),
                        Some(Ok(())) => Some(
                            Ok(
                                ConnectAcknowledgement {
                                    is_session_present: buffer[0] % 2 == 1,
                                    connect_reason_code: reason,
                                },
                            ),
                        ),
                    },
                }
            },
        }
    }
}

/// Whether `value` is what MQTT 5 (section 3.2.2.3) lets a CONNACK property with this identifier
/// carry: one byte for maximum quality of service, retain, wildcard, subscription identifier and
/// shared subscription available; two bytes for server keep alive, receive maximum and topic alias
/// maximum; four bytes for session expiry interval and maximum packet size; and for assigned
/// client identifier, authentication method and data, response information, server reference
/// and reason string a two byte length, most significant first, and that many bytes.
pub open spec fn is_mqtt5_property_value(identifier: u8, value: Seq<u8>) -> bool {
    if identifier == 0x24 || identifier == 0x25 || identifier == 0x28 || identifier == 0x29 || identifier
        == 0x2A {
        value.len() == 1
    } else if identifier == 0x13 || identifier == 0x21 || identifier == 0x22 {
        value.len() == 2
    } else if identifier == 0x11 || identifier == 0x27 {
        value.len() == 4
    } else if identifier == 0x12 || identifier == 0x15 || identifier == 0x16 || identifier == 0x1A
        || identifier == 0x1C || identifier == 0x1F {
        value.len() >= 2 && value[0] as int * 256 + value[1] == value.len() - 2
    } else {
        false
    }
}

/// A CONNACK that accepts the connection and carries one property, with any value MQTT 5 allows
/// that property, is read as the broker sent it: the property is stepped over whole, and the
/// CONNACK reads as success, with the session present flag of its first byte.
pub proof fn lemma_mqtt5_properties_are_stepped_over(flags: u8, identifier: u8, value: Seq<u8>)
    requires
        value.len() < 120,
        is_mqtt5_property_value(identifier, value),
    ensures
        connect_acknowledgement_result(seq![flags, 0u8, (1 + value.len()) as u8, identifier] + value)
            == Some(
            Ok::<ConnectAcknowledgement, DecodeError>(
                ConnectAcknowledgement {
                    is_session_present: flags % 2 == 1,
                    connect_reason_code: ConnectReasonCode::Success,
                },
            ),
        ),
{
    let buffer = seq![flags, 0u8, (1 + value.len()) as u8, identifier] + value;
    let end: int = 4 + value.len() as int;
    assert(buffer[0] == flags);
    assert(buffer[1] == 0u8);
    assert(buffer[2] == (1 + value.len()) as u8);
    assert(buffer[3] == identifier);
    assert(decode_result(buffer, 2) == (Ok::<usize, variable_byte_integer::DecodeError>((1 + value.len()) as usize), 3int));
    if is_length_property(identifier) {
        assert(buffer[4] == value[0]);
        assert(buffer[5] == value[1]);
        assert(string_length_result(buffer, 4) == (Ok::<usize, variable_byte_integer::DecodeError>((value.len() - 2) as usize), 6int));
        assert(skip_properties(buffer, end, end) == Some(Ok::<(), DecodeError>(())));
    } else {
        assert(fixed_property_width(identifier) == Some(value.len() as int));
        assert(skip_properties(buffer, end, end) == Some(Ok::<(), DecodeError>(())));
    }
    assert(skip_properties(buffer, 3, end) == Some(Ok::<(), DecodeError>(())));
}

/// Reads the two byte length of a property that is skipped by its length.
fn skipped_length(buffer: &[u8], offset: &mut usize, identifier: u8) -> (result: Result<usize, DecodeError>)
    ensures
        ({
            let (length, after) = string_length_result(buffer@, *old(offset) as int);
            &&& *final(offset) == after
            &&& match length {
                Ok(length) => result == Ok::<usize, DecodeError>(length),
                Err(error) => result == Err::<usize, DecodeError>(
                    DecodeError::InvalidPropertyStringLength { property_identifier: identifier, error },
                ),
            }
        }),
        result matches Ok(length) ==> length <= 65535,
        *old(offset) <= *final(offset) <= *old(offset) + 2,
{
    if *offset >= buffer.len() {
        return Err(
            DecodeError::InvalidPropertyStringLength {
                property_identifier: identifier,
                error: variable_byte_integer::DecodeError::EndOfBuffer,
            },
        );
    }
    if *offset + 1 >= buffer.len() {
        return Err(
            DecodeError::InvalidPropertyStringLength {
                property_identifier: identifier,
                error: variable_byte_integer::DecodeError::UnexpectedEndOfBuffer,
            },
        );
    }
    let length: usize = buffer[*offset] as usize * 256 + buffer[*offset + 1] as usize;
    *offset = *offset + 2;
    Ok(length)
}

impl ConnectAcknowledgement {
    pub const TYPE: u8 = 2;

    /// Reads the variable header of a CONNACK: the session present flag, the reason code, and
    /// the properties, which are stepped over without being kept. The flags are not used.
    pub fn try_decode(flags: u8, buffer: &[u8]) -> (result: Result<Self, DecodeError>)
        requires
            connect_acknowledgement_result(buffer@) is Some,
        ensures
            Some(result) == connect_acknowledgement_result(buffer@),
    {
        let first: u8 = buffer[0];
        let is_session_present = (first & 0b0000_0001) != 0;
        assert((first & 0b0000_0001 != 0) == (first % 2 == 1)) by (bit_vector);
        let connect_reason_code = match ConnectReasonCode::try_from(buffer[1]) {
            Ok(code) => code,
            Err(unknown) => return Err(DecodeError::InvalidReasonCode(unknown)),
        };
        let mut offset: usize = 2;
        let property_length = match variable_byte_integer::decode(buffer, &mut offset) {
            Ok(length) => length,
            Err(error) => return Err(DecodeError::InvalidPropertiesLength(error)),
        };
        assert(offset <= 7) by {
            reveal_with_fuel(variable_byte_integer::decode_continuation, 5);
        }
        let end = offset + property_length;
        while offset < end
            invariant
                end <= 7 + variable_byte_integer::MAX,
                offset <= end + 2 * variable_byte_integer::MAX + 16,
                skip_properties(buffer@, offset as int, end as int) == skip_properties(
                    buffer@,
                    decode_result(buffer@, 2).1,
                    decode_result(buffer@, 2).1 + property_length,
                ),
                decode_result(buffer@, 2).1 + property_length == end,
                skip_properties(buffer@, offset as int, end as int) is Some,
                buffer@.len() >= 2,
                connect_reason(buffer@[1]) == Ok::<ConnectReasonCode, UnknownConnectErrorReasonCode>(
                    connect_reason_code,
                ),
                decode_result(buffer@, 2).0 == Ok::<usize, variable_byte_integer::DecodeError>(
                    property_length,
                ),
                is_session_present == (buffer@[0] % 2 == 1),
            decreases (if offset < end { end - offset } else { 0 }),
        {
            let identifier: u8 = buffer[offset];
            offset = offset + 1;
            let bytes_read: usize = match identifier {
                0x11 => 4,
                0x21 => 2,
                0x24 => 1,
                0x25 => 1,
                0x27 => 4,
                0x12 => skipped_length(buffer, &mut offset, identifier)?,
                0x22 => 2,
                0x1F => skipped_length(buffer, &mut offset, identifier)?,
                0x26 => {
                    let first = skipped_length(buffer, &mut offset, identifier)?;
                    offset = offset + first;
                    let second = skipped_length(buffer, &mut offset, identifier)?;
                    offset = offset + second;
                    continue;
                },
                0x28 => 1,
                0x29 => 1,
                0x2A => 1,
                0x13 => 2,
                0x1A => skipped_length(buffer, &mut offset, identifier)?,
                0x1C => skipped_length(buffer, &mut offset, identifier)?,
                0x15 => skipped_length(buffer, &mut offset, identifier)?,
                0x16 => skipped_length(buffer, &mut offset, identifier)?,
                unknown => {
                    return Err(DecodeError::UnknownPropertyIdentifier(unknown));
                },
            };
            offset = offset + bytes_read;
        }
        Ok(ConnectAcknowledgement { is_session_present, connect_reason_code })
    }

    /// Whether [`ConnectAcknowledgement::try_decode`] can read `buffer` without running off it: see
    /// [`connect_acknowledgement_result`].
    pub fn is_readable(buffer: &[u8]) -> (readable: bool)
        ensures
            readable == (connect_acknowledgement_result(buffer@) is Some),
    {
        if buffer.len() < 2 {
            return false;
        }
        let connect_reason_code = match ConnectReasonCode::try_from(buffer[1]) {
            Ok(code) => code,
            Err(_) => return true,
        };
        let mut offset: usize = 2;
        let property_length = match variable_byte_integer::decode(buffer, &mut offset) {
            Ok(length) => length,
            Err(_) => return true,
        };
        assert(offset <= 7) by {
            reveal_with_fuel(variable_byte_integer::decode_continuation, 5);
        }
        let end = offset + property_length;
        while offset < end
            invariant
                end <= 7 + variable_byte_integer::MAX,
                offset <= end + 2 * variable_byte_integer::MAX + 16,
                skip_properties(buffer@, offset as int, end as int) == skip_properties(
                    buffer@,
                    decode_result(buffer@, 2).1,
                    decode_result(buffer@, 2).1 + property_length,
                ),
                decode_result(buffer@, 2).1 + property_length == end,
                buffer@.len() >= 2,
                connect_reason(buffer@[1]) == Ok::<ConnectReasonCode, UnknownConnectErrorReasonCode>(
                    connect_reason_code,
                ),
                decode_result(buffer@, 2).0 == Ok::<usize, variable_byte_integer::DecodeError>(
                    property_length,
                ),
            decreases (if offset < end { end - offset } else { 0 }),
        {
            if offset >= buffer.len() {
                return false;
            }
            let identifier: u8 = buffer[offset];
            offset = offset + 1;
            let bytes_read: usize = match identifier {
                0x11 => 4,
                0x21 => 2,
                0x24 => 1,
                0x25 => 1,
                0x27 => 4,
                0x12 => match skipped_length(buffer, &mut offset, identifier) {
                    Ok(length) => length,
                    Err(_) => return true,
                },
                0x22 => 2,
                0x1F => match skipped_length(buffer, &mut offset, identifier) {
                    Ok(length) => length,
                    Err(_) => return true,
                },
                0x26 => {
                    let first = match skipped_length(buffer, &mut offset, identifier) {
                    Ok(length) => length,
                    Err(_) => return true,
                };
                    offset = offset + first;
                    let second = match skipped_length(buffer, &mut offset, identifier) {
                    Ok(length) => length,
                    Err(_) => return true,
                };
                    offset = offset + second;
                    continue;
                },
                0x28 => 1,
                0x29 => 1,
                0x2A => 1,
                0x13 => 2,
                0x1A => match skipped_length(buffer, &mut offset, identifier) {
                    Ok(length) => length,
                    Err(_) => return true,
                },
                0x1C => match skipped_length(buffer, &mut offset, identifier) {
                    Ok(length) => length,
                    Err(_) => return true,
                },
                0x15 => match skipped_length(buffer, &mut offset, identifier) {
                    Ok(length) => length,
                    Err(_) => return true,
                },
                0x16 => match skipped_length(buffer, &mut offset, identifier) {
                    Ok(length) => length,
                    Err(_) => return true,
                },
                _ => {
                    return true;
                },
            };
            offset = offset + bytes_read;
        }
        true
    }

}

/// Why the short form of a CONNACK could not be read.
#[derive(Debug, Clone, Copy, PartialEq, Eq, Structural)]
pub enum ReadConnectAcknowledgementError {
    InvalidReasonCode(UnknownConnectErrorReasonCode),
}

impl ConnectAcknowledgement {
    /// Reads only the session present flag and the reason code, leaving the properties unread.
    pub fn read(buffer: &[u8]) -> (result: Result<Self, ReadConnectAcknowledgementError>)
        requires
            buffer@.len() >= 2,
        ensures
            match connect_reason(buffer@[1]) {
                Ok(reason) => result == Ok::<Self, ReadConnectAcknowledgementError>(
                    ConnectAcknowledgement {
                        is_session_present: buffer@[0] % 2 == 1,
                        connect_reason_code: reason,
                    },
                ),
                Err(unknown) => result == Err::<Self, ReadConnectAcknowledgementError>(
                    ReadConnectAcknowledgementError::InvalidReasonCode(unknown),
                ),
            },
    {
        let first: u8 = buffer[0];
        let is_session_present = (first & 0b0000_0001) != 0;
        assert((first & 0b0000_0001 != 0) == (first % 2 == 1)) by (bit_vector);
        match ConnectReasonCode::try_from(buffer[1]) {
            Ok(connect_reason_code) => Ok(ConnectAcknowledgement { is_session_present, connect_reason_code }),
            Err(unknown) => Err(ReadConnectAcknowledgementError::InvalidReasonCode(unknown)),
        }
    }
}

} // verus!
