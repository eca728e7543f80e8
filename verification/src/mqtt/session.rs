//! What the client decides about the packets the broker sends it: whether a connection was
//! accepted, and what to do with each packet that arrives while listening.

use vstd::prelude::*;
use super::subscribe::{Options, QualityOfService, RetainHandling, Subscription};
use vstd::string::StringSliceAdditionalSpecFns;

use super::connect_acknowledgement::{
    connect_acknowledgement_result, ConnectAcknowledgement, ConnectErrorReasonCode,
    ConnectReasonCode, DecodeError,
};
use super::disconnect::{disconnect_reason, DecodeDisconnectError, Disconnect};
use super::packet::{get_parts, parts_result, GetPartsError};
use super::ping::PingResponse;
use super::publish::{self, read_layout, Publish, ReadLayout};
use super::subscribe_acknowledgement::{reason_codes_start, SubscribeAcknowledgement, SubscribeAcknowledgementError};
use super::variable_byte_integer::decode_result;

verus! {

/// Why the broker's answer to a CONNECT does not open a session.
#[derive(Debug, Clone, Copy, PartialEq, Eq, Structural)]
pub enum ConnectResponseError {
    /// The answer could not be split into its parts.
    Parts(GetPartsError),
    /// The answer is not a CONNACK. Holds the packet type it has.
    InvalidResponsePacketType(u8),
    /// The CONNACK could not be read.
    DecodeAcknowledgement(DecodeError),
    /// The broker refused the connection.
    ErrorReasonCode(ConnectErrorReasonCode),
}

/// The answers [`check_connect_response`] can read without running off the buffer.
pub open spec fn connect_response_readable(received: Seq<u8>) -> bool {
    match parts_result(received) {
        Ok((packet_type, _, start, end)) => packet_type == ConnectAcknowledgement::TYPE
            ==> connect_acknowledgement_result(received.subrange(start, end)) is Some,
        Err(_) => true,
    }
}

/// What [`check_connect_response`] decides about `received`.
pub open spec fn connect_response(received: Seq<u8>) -> Result<(), ConnectResponseError> {
    match parts_result(received) {
        Err(error) => Err(ConnectResponseError::Parts(error)),
        Ok((packet_type, _, start, end)) => if packet_type != ConnectAcknowledgement::TYPE {
            Err(ConnectResponseError::InvalidResponsePacketType(packet_type))
        } else {
            match connect_acknowledgement_result(received.subrange(start, end)) {
                Some(Err(error)) => Err(ConnectResponseError::DecodeAcknowledgement(error)),
                Some(Ok(acknowledgement)) => match acknowledgement.connect_reason_code {
                    ConnectReasonCode::ErrorCode(code) => Err(ConnectResponseError::ErrorReasonCode(code)),
                    ConnectReasonCode::Success => Ok(()),
                },
                None => Ok(()),
            }
        },
    }
}

/// Decides whether the first packet the broker sent after a CONNECT opens the session: it has to
/// be a CONNACK that can be read and that carries success.
pub fn check_connect_response(received: &[u8]) -> (result: Result<(), ConnectResponseError>)
    requires
        connect_response_readable(received@),
    ensures
        result == connect_response(received@),
{
    let parts = match get_parts(received) {
        Ok(parts) => parts,
        Err(error) => return Err(ConnectResponseError::Parts(error)),
    };
    if parts.packet_type != ConnectAcknowledgement::TYPE {
        return Err(ConnectResponseError::InvalidResponsePacketType(parts.packet_type));
    }
    let acknowledgement = match ConnectAcknowledgement::try_decode(
        parts.flags,
        parts.variable_header_and_payload,
    ) {
        Ok(acknowledgement) => acknowledgement,
        Err(error) => return Err(ConnectResponseError::DecodeAcknowledgement(error)),
    };
    match acknowledgement.connect_reason_code {
        ConnectReasonCode::ErrorCode(code) => Err(ConnectResponseError::ErrorReasonCode(code)),
        ConnectReasonCode::Success => Ok(()),
    }
}

/// What to do with a packet that arrived while listening.
pub enum Incoming<'a> {
    /// The bytes are not a packet. Listening stops.
    Stop(GetPartsError),
    /// A message to hand on to the application.
    Publish(Publish<'a>),
    /// A PUBLISH that could not be read. It is dropped and listening goes on.
    UnreadablePublish(publish::ReadError),
    /// The broker acknowledged a subscription. `is_tracked` says whether its packet identifier is
    /// one of the subscriptions being waited for; one that is not is only logged.
    SubscribeAcknowledgement { packet_identifier: u16, is_tracked: bool },
    /// A SUBACK that could not be read. It is dropped and listening goes on.
    UnreadableSubscribeAcknowledgement(SubscribeAcknowledgementError),
    /// The answer to a keep alive ping.
    PingResponse(PingResponse),
    /// The broker is disconnecting. The reason is only logged; the connection is left open.
    Disconnect(Result<Disconnect, DecodeDisconnectError>),
    /// A packet type the client does not handle. It is logged and dropped.
    Unsupported(u8),
}

/// The packets [`classify_incoming`] can read without running off the buffer.
pub open spec fn incoming_readable(received: Seq<u8>) -> bool {
    match parts_result(received) {
        Ok((packet_type, flags, start, end)) => {
            let rest = received.subrange(start, end);
            &&& packet_type == Publish::TYPE ==> !(read_layout(flags, rest) is OutOfBounds)
            &&& packet_type == SubscribeAcknowledgement::TYPE ==> {
                &&& rest.len() >= 2
                &&& decode_result(rest, 2).0 is Ok ==> reason_codes_start(rest) <= rest.len()
            }
            &&& packet_type == Disconnect::TYPE ==> rest.len() >= 1
        },
        Err(_) => true,
    }
}

/// Whether [`classify_incoming`] can read `received` without running off it: see
/// [`incoming_readable`].
pub fn is_incoming_readable(received: &[u8]) -> (readable: bool)
    ensures
        readable == incoming_readable(received@),
{
    let parts = match get_parts(received) {
        Ok(parts) => parts,
        Err(_) => return true,
    };
    let rest = parts.variable_header_and_payload;
    if parts.packet_type == Publish::TYPE {
        publish::is_readable(parts.flags, rest)
    } else if parts.packet_type == SubscribeAcknowledgement::TYPE {
        if rest.len() < 2 {
            return false;
        }
        let mut offset: usize = 2;
        match super::variable_byte_integer::decode(rest, &mut offset) {
            Ok(length) => {
                proof {
                    super::connect_acknowledgement::lemma_decode_advances(rest@, 2);
                }
                length <= rest.len() && offset <= rest.len() - length
            },
            Err(_) => true,
        }
    } else if parts.packet_type == Disconnect::TYPE {
        rest.len() >= 1
    } else {
        true
    }
}

/// Whether [`check_connect_response`] can read `received` without running off it: see
/// [`connect_response_readable`].
pub fn is_connect_response_readable(received: &[u8]) -> (readable: bool)
    ensures
        readable == connect_response_readable(received@),
{
    match get_parts(received) {
        Ok(parts) => parts.packet_type != ConnectAcknowledgement::TYPE
            || ConnectAcknowledgement::is_readable(parts.variable_header_and_payload),
        Err(_) => true,
    }
}

/// Decides what to do with a packet received while listening. `tracked_subscriptions` is how
/// many subscription acknowledgements are being waited for, indexed by packet identifier.
pub fn classify_incoming(received: &[u8], tracked_subscriptions: usize) -> (incoming: Incoming<'_>)
    requires
        incoming_readable(received@),
    ensures
        match parts_result(received@) {
            Err(error) => incoming matches Incoming::Stop(found) && found == error,
            Ok((packet_type, flags, start, end)) => {
                let rest = received@.subrange(start, end);
                if packet_type == Publish::TYPE {
                    match read_layout(flags, rest) {
                        ReadLayout::Reads { topic_start, topic_end, payload_start, payload_end } => incoming matches Incoming::Publish(
                            publish,
                        ) && publish.topic_name.spec_bytes() == rest.subrange(topic_start, topic_end)
                            && publish.payload@ == rest.subrange(payload_start, payload_end),
                        _ => incoming is UnreadablePublish,
                    }
                } else if packet_type == SubscribeAcknowledgement::TYPE {
                    match decode_result(rest, 2).0 {
                        Ok(_) => incoming == Incoming::SubscribeAcknowledgement {
                            packet_identifier: (rest[0] as int * 256 + rest[1]) as u16,
                            is_tracked: rest[0] as int * 256 + rest[1] < tracked_subscriptions,
                        },
                        Err(error) => incoming == Incoming::UnreadableSubscribeAcknowledgement(
                            SubscribeAcknowledgementError::InvalidPropertiesLength(error),
                        ),
                    }
                } else if packet_type == PingResponse::TYPE {
                    incoming is PingResponse
                } else if packet_type == Disconnect::TYPE {
                    match disconnect_reason(rest[0]) {
                        Some(reason_code) => incoming == Incoming::Disconnect(
                            Ok(Disconnect { reason_code }),
                        ),
                        None => incoming is Disconnect && !(incoming->Disconnect_0 is Ok),
                    }
                } else {
                    incoming == Incoming::Unsupported(packet_type)
                }
            },
        },
{
    let parts = match get_parts(received) {
        Ok(parts) => parts,
        Err(error) => return Incoming::Stop(error),
    };
    let rest = parts.variable_header_and_payload;
    if parts.packet_type == Publish::TYPE {
        match Publish::read(parts.flags, rest) {
            Ok(publish) => Incoming::Publish(publish),
            Err(error) => Incoming::UnreadablePublish(error),
        }
    } else if parts.packet_type == SubscribeAcknowledgement::TYPE {
        match SubscribeAcknowledgement::read(rest) {
            Ok(acknowledgement) => Incoming::SubscribeAcknowledgement {
                packet_identifier: acknowledgement.packet_identifier,
                is_tracked: (acknowledgement.packet_identifier as usize) < tracked_subscriptions,
            },
            Err(error) => Incoming::UnreadableSubscribeAcknowledgement(error),
        }
    } else if parts.packet_type == PingResponse::TYPE {
        Incoming::PingResponse(PingResponse::decode(parts.flags, rest))
    } else if parts.packet_type == Disconnect::TYPE {
        Incoming::Disconnect(Disconnect::try_decode(parts.flags, rest))
    } else {
        Incoming::Unsupported(parts.packet_type)
    }
}

/// Which of the subscriptions sent out the broker acknowledged, indexed by packet identifier.
pub struct Acknowledgements {
    pub received: Vec<bool>,
}

impl Acknowledgements {
    /// `count` subscriptions, none acknowledged.
    pub fn new(count: usize) -> (acknowledgements: Self)
        ensures
            acknowledgements.received@ == Seq::new(count as nat, |i: int| false),
    {
        let mut received: Vec<bool> = Vec::new();
        let mut index: usize = 0;
        while index < count
            invariant
                index <= count,
                received@ == Seq::new(index as nat, |i: int| false),
            decreases count - index,
        {
            received.push(false);
            index = index + 1;
            assert(received@ =~= Seq::new(index as nat, |i: int| false));
        }
        Acknowledgements { received }
    }

    /// The broker acknowledged a subscription. A packet identifier outside the subscriptions is
    /// refused rather than trusted, so a broker cannot make the client index past them. One inside
    /// is accepted and logged; nothing is recorded for it.
    pub fn handle_subscribe_acknowledgement(&self, packet_identifier: u16) -> (accepted: bool)
        ensures
            accepted == (packet_identifier < self.received@.len()),
    {
        (packet_identifier as usize) < self.received.len()
    }

    /// Whether the subscription with this packet identifier was acknowledged, which is what
    /// waiting for it checks on every poll.
    pub fn is_acknowledged(&self, packet_identifier: u16) -> (acknowledged: bool)
        requires
            packet_identifier < self.received@.len(),
        ensures
            acknowledged == self.received@[packet_identifier as int],
    {
        self.received[packet_identifier as usize]
    }
}

/// The longest the client may stay silent before the broker considers it gone, in microseconds:
/// the keep alive interval it announced when connecting, 60 seconds.
pub const KEEP_ALIVE_MICROSECONDS: u64 = 60_000_000;

/// How long to wait for the answer to a ping, in microseconds.
pub const RESPONSE_TIMEOUT_MICROSECONDS: u64 = 60_000_000;

/// When the client last sent a packet, in microseconds since boot. A ping is due when the keep
/// alive interval passed since then without another packet.
#[derive(Debug, Clone, Copy, PartialEq, Eq, Structural)]
pub struct KeepAlive {
    pub last_send: u64,
}

impl KeepAlive {
    /// When the next ping is due unless another packet goes out first.
    pub fn deadline(&self) -> (deadline: u64)
        requires
            self.last_send + KEEP_ALIVE_MICROSECONDS <= u64::MAX,
        ensures
            deadline == self.last_send + KEEP_ALIVE_MICROSECONDS,
    {
        self.last_send + KEEP_ALIVE_MICROSECONDS
    }

    /// A packet or a ping went out at `at`: the interval starts again from there. It counts from
    /// when a packet was sent, not from when a ping was answered.
    pub fn on_sent(&mut self, at: u64)
        ensures
            final(self).last_send == at,
    {
        self.last_send = at;
    }
}

/// The subscriptions the controller makes: Home Assistant's commands for the controller and for
/// each fan, at most once delivery, with what the broker retained sent on subscribing.
pub fn command_subscriptions<'a>(controller: &'a str, fan_1: &'a str, fan_2: &'a str) -> (subscriptions: Vec<Subscription<'a>>)
    ensures
        subscriptions@.len() == 3,
        subscriptions@[0].topic_filter == controller,
        subscriptions@[1].topic_filter == fan_1,
        subscriptions@[2].topic_filter == fan_2,
        forall|i: int| 0 <= i < 3 ==> (#[trigger] subscriptions@[i]).options.0 == 0,
{
    let mut subscriptions: Vec<Subscription<'a>> = Vec::new();
    let options = || -> (options: Options)
        ensures
            options.0 == 0,
        {
            Options::new(
                QualityOfService::AtMostOnceDelivery,
                false,
                false,
                RetainHandling::SendAtSubscribe,
            )
        };
    subscriptions.push(Subscription { topic_filter: controller, options: options() });
    subscriptions.push(Subscription { topic_filter: fan_1, options: options() });
    subscriptions.push(Subscription { topic_filter: fan_2, options: options() });
    subscriptions
}

} // verus!
