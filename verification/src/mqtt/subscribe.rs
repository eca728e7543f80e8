//! The SUBSCRIBE packet that asks the broker for the topics the controller listens to.

use vstd::prelude::*;
use vstd::string::StringSliceAdditionalSpecFns;

use crate::bytes::{
    big_endian_pair, length_prefixed, lemma_overwritten_nothing, lemma_overwritten_twice, overwritten,
    write_byte, write_bytes, write_length_prefixed,
};
use super::packet::{lemma_written_packet_splits_back, parts_result, GetPartsError};
use super::variable_byte_integer::{
    self, encoded_length, encoded_size, encoding, VariableByteIntegerEncodeError, MAX,
};

verus! {

/// How hard the broker tries to deliver a message.
#[derive(Debug, Clone, Copy, PartialEq, Eq, Structural)]
pub enum QualityOfService {
    AtMostOnceDelivery,
    AtLeastOnceDelivery,
    ExactlyOnceDelivery,
}

impl QualityOfService {
    /// The level as MQTT writes it: 0, 1 or 2.
    pub open spec fn level(&self) -> u8 {
        match self {
            QualityOfService::AtMostOnceDelivery => 0,
            QualityOfService::AtLeastOnceDelivery => 1,
            QualityOfService::ExactlyOnceDelivery => 2,
        }
    }

    pub fn to_byte(&self) -> (byte: u8)
        ensures
            byte == self.level(),
    {
        match self {
            QualityOfService::AtMostOnceDelivery => 0,
            QualityOfService::AtLeastOnceDelivery => 1,
            QualityOfService::ExactlyOnceDelivery => 2,
        }
    }
}

/// Whether retained messages are sent when the subscription is established. It does not affect
/// retained messages sent later.
#[derive(Debug, Clone, Copy, PartialEq, Eq, Structural)]
pub enum RetainHandling {
    /// Send retained messages at the time of subscribe (0)
    SendAtSubscribe,
    /// Send retained messages only if the subscription does not currently exist (1)
    OnlyIfNotExists,
    /// Do not send retained messages (2)
    DoNotSend,
}

impl RetainHandling {
    pub open spec fn code(&self) -> u8 {
        match self {
            RetainHandling::SendAtSubscribe => 0,
            RetainHandling::OnlyIfNotExists => 1,
            RetainHandling::DoNotSend => 2,
        }
    }

    pub fn to_byte(&self) -> (byte: u8)
        ensures
            byte == self.code(),
    {
        match self {
            RetainHandling::SendAtSubscribe => 0,
            RetainHandling::OnlyIfNotExists => 1,
            RetainHandling::DoNotSend => 2,
        }
    }
}

/// The subscription options byte.
#[derive(Debug, Clone, Copy, PartialEq, Eq, Structural)]
pub struct Options(pub u8);

impl Options {
    /// Packs the options: the maximum quality of service in bits 0 and 1, no local in bit 2,
    /// retain as published in bit 3 and the retain handling in bits 4 and 5. Bits 6 and 7 are
    /// reserved and stay zero.
    pub fn new(
        maximum_quality_of_service: QualityOfService,
        is_no_local: bool,
        is_retain_as_published: bool,
        retain_handling: RetainHandling,
    ) -> (options: Self)
        ensures
            options.0 == maximum_quality_of_service.level() + 4 * (if is_no_local { 1int } else { 0 })
                + 8 * (if is_retain_as_published { 1int } else { 0 }) + 16 * retain_handling.code(),
    {
        let quality: u8 = maximum_quality_of_service.to_byte();
        let no_local: u8 = if is_no_local { 1 } else { 0 };
        let retain_as_published: u8 = if is_retain_as_published { 1 } else { 0 };
        let handling: u8 = retain_handling.to_byte();
        assert(quality <= 2 && no_local <= 1 && retain_as_published <= 1 && handling <= 2 ==> quality
            | no_local << 2 | retain_as_published << 3 | handling << 4 == quality + 4 * no_local + 8
            * retain_as_published + 16 * handling) by (bit_vector);
        Options(quality | no_local << 2 | retain_as_published << 3 | handling << 4)
    }
}

/// One topic filter and the options it is subscribed with.
pub struct Subscription<'a> {
    pub topic_filter: &'a str,
    pub options: Options,
}

impl<'a> Subscription<'a> {
    /// The topic filter and the options byte, without the length in front of the filter.
    pub fn length(&self) -> (length: usize)
        requires
            self.topic_filter.spec_bytes().len() < usize::MAX,
        ensures
            length == self.topic_filter.spec_bytes().len() + 1,
    {
        self.topic_filter.len() + 1
    }
}

/// What the subscriptions take in the payload: each filter behind its two byte length, and its
/// options byte.
pub open spec fn subscriptions_length(subscriptions: Seq<Subscription>) -> int
    decreases subscriptions.len(),
{
    if subscriptions.len() == 0 {
        0
    } else {
        subscriptions_length(subscriptions.drop_last()) + 3
            + subscriptions.last().topic_filter.spec_bytes().len()
    }
}

/// The payload: every subscription in order.
pub open spec fn subscriptions_bytes(subscriptions: Seq<Subscription>) -> Seq<u8>
    decreases subscriptions.len(),
{
    if subscriptions.len() == 0 {
        Seq::empty()
    } else {
        subscriptions_bytes(subscriptions.drop_last()) + length_prefixed(
            subscriptions.last().topic_filter.spec_bytes(),
        ) + seq![subscriptions.last().options.0]
    }
}

proof fn lemma_subscriptions_bytes_length(subscriptions: Seq<Subscription>)
    ensures
        subscriptions_bytes(subscriptions).len() == subscriptions_length(subscriptions),
        subscriptions_length(subscriptions) >= 0,
    decreases subscriptions.len(),
{
    if subscriptions.len() > 0 {
        lemma_subscriptions_bytes_length(subscriptions.drop_last());
    }
}

/// Why a SUBSCRIBE could not be written.
#[derive(Debug, PartialEq, Eq)]
pub enum EncodeError {
    /// The buffer does not hold enough room behind the offset for the packet.
    BufferTooSmall { required: usize, available: usize },
    /// The remaining length could not be written.
    RemainingLengthError(VariableByteIntegerEncodeError),
}

/// A request to subscribe to some topic filters.
pub struct Subscribe<'a> {
    pub subscriptions: &'a [Subscription<'a>],
    /// Identifies the request so its acknowledgement can be matched to it. MQTT does not allow 0.
    pub packet_identifier: u16,
}

impl<'a> Subscribe<'a> {
    pub const TYPE: u8 = 8;

    /// The remaining length: packet identifier, property length and the subscriptions.
    pub open spec fn remaining_length(&self) -> int {
        3 + subscriptions_length(self.subscriptions@)
    }

    /// The whole packet: the type with the reserved flag bit 1 set, the remaining length, the
    /// packet identifier, an empty property list and the subscriptions.
    pub open spec fn packet(&self) -> Seq<u8> {
        seq![0x82u8] + encoding(self.remaining_length() as nat) + big_endian_pair(
            self.packet_identifier as nat,
        ) + seq![0u8] + subscriptions_bytes(self.subscriptions@)
    }

    /// The room the whole packet takes: the first byte, the remaining length and what it
    /// announces.
    pub open spec fn required_length(&self) -> int {
        1 + encoded_length(self.remaining_length() as nat) + self.remaining_length()
    }

    /// Writes the packet at `offset` and advances the offset past it.
    ///
    /// Refuses with [`EncodeError::BufferTooSmall`], writing nothing, when the room behind the
    /// offset is less than the whole packet takes, and with
    /// [`VariableByteIntegerEncodeError::TooLarge`] when the remaining length cannot be announced,
    /// in which case the first byte has already been written.
    pub fn encode(&self, buffer: &mut [u8], offset: &mut usize) -> (result: Result<(), EncodeError>)
        requires
            *old(offset) <= old(buffer)@.len(),
            self.remaining_length() < usize::MAX - 8,
        ensures
            ({
                let available = old(buffer)@.len() - *old(offset);
                let remaining = self.remaining_length();
                if available < self.required_length() {
                    &&& result == Err::<(), EncodeError>(
                        EncodeError::BufferTooSmall {
                            required: self.required_length() as usize,
                            available: available as usize,
                        },
                    )
                    &&& *final(offset) == *old(offset)
                    &&& final(buffer)@ == old(buffer)@
                } else if remaining > MAX {
                    &&& result == Err::<(), EncodeError>(
                        EncodeError::RemainingLengthError(VariableByteIntegerEncodeError::TooLarge),
                    )
                    &&& *final(offset) == *old(offset) + 1
                    &&& final(buffer)@ == overwritten(old(buffer)@, *old(offset) as int, seq![0x82u8])
                } else {
                    &&& result is Ok
                    &&& *final(offset) == *old(offset) + self.packet().len()
                    &&& final(buffer)@ == overwritten(old(buffer)@, *old(offset) as int, self.packet())
                }
            }),
    {
        let payload_length = self.payload_length();
        let remaining_length = 3 + payload_length;
        let required_length = 1 + encoded_size(remaining_length) + remaining_length;
        if required_length > buffer.len() - *offset {
            return Err(
                EncodeError::BufferTooSmall {
                    required: required_length,
                    available: buffer.len() - *offset,
                },
            );
        }
        let ghost start = *offset as int;
        let ghost prior = buffer@;
        write_byte(buffer, offset, Self::TYPE << 4 | 0b0000_0010);
        assert(Self::TYPE << 4 | 0b0000_0010 == 0x82u8) by (bit_vector);
        match variable_byte_integer::encode(remaining_length, buffer, offset) {
            Ok(_) => {},
            Err(error) => {
                return Err(EncodeError::RemainingLengthError(error));
            },
        }
        proof {
            variable_byte_integer::lemma_encoding_length(remaining_length as nat);
            lemma_overwritten_twice(prior, start, seq![0x82u8], encoding(remaining_length as nat));
            lemma_subscriptions_bytes_length(self.subscriptions@);
        }
        let ghost header = seq![0x82u8] + encoding(remaining_length as nat);
        let identifier: [u8; 3] = [
            (self.packet_identifier / 256) as u8,
            (self.packet_identifier % 256) as u8,
            0,
        ];
        assert(identifier@ =~= big_endian_pair(self.packet_identifier as nat) + seq![0u8]);
        write_bytes(buffer, offset, identifier.as_slice());
        proof {
            lemma_overwritten_twice(prior, start, header, identifier@);
        }
        let ghost prefix = header + identifier@;
        let mut index: usize = 0;
        proof {
            lemma_prefix_lengths_bounded(self.subscriptions@);
            assert(self.subscriptions@.take(0) =~= Seq::<Subscription>::empty());
            lemma_overwritten_nothing(prior, start);
            assert(prefix + subscriptions_bytes(self.subscriptions@.take(0)) =~= prefix);
        }
        while index < self.subscriptions.len()
            invariant
                0 <= start,
                prior == old(buffer)@,
                buffer@.len() == prior.len(),
                index <= self.subscriptions@.len(),
                prefix.len() + subscriptions_length(self.subscriptions@) + start <= prior.len(),
                *offset == start + prefix.len() + subscriptions_length(self.subscriptions@.take(index as int)),
                buffer@ == overwritten(
                    prior,
                    start,
                    prefix + subscriptions_bytes(self.subscriptions@.take(index as int)),
                ),
                forall|k: int| 0 <= k <= self.subscriptions@.len() ==> #[trigger] subscriptions_length(self.subscriptions@.take(k))
                    <= subscriptions_length(self.subscriptions@),
            decreases self.subscriptions@.len() - index,
        {
            let subscription = &self.subscriptions[index];
            let ghost done = self.subscriptions@.take(index as int);
            let ghost next = self.subscriptions@.take(index + 1);
            proof {
                assert(next.drop_last() =~= done);
                assert(next.last() == *subscription);
                lemma_subscriptions_bytes_length(done);
                lemma_subscriptions_bytes_length(next);
            }
            let topic_filter = subscription.topic_filter.as_bytes();
            write_length_prefixed(buffer, offset, topic_filter);
            proof {
                lemma_overwritten_twice(
                    prior,
                    start,
                    prefix + subscriptions_bytes(done),
                    length_prefixed(topic_filter@),
                );
            }
            write_byte(buffer, offset, subscription.options.0);
            proof {
                lemma_overwritten_twice(
                    prior,
                    start,
                    prefix + subscriptions_bytes(done) + length_prefixed(topic_filter@),
                    seq![subscription.options.0],
                );
                assert(prefix + subscriptions_bytes(done) + length_prefixed(topic_filter@) + seq![
                    subscription.options.0,
                ] =~= prefix + subscriptions_bytes(next));
            }
            index = index + 1;
        }
        proof {
            assert(self.subscriptions@.take(index as int) =~= self.subscriptions@);
            assert(prefix + subscriptions_bytes(self.subscriptions@) =~= self.packet());
        }
        Ok(())
    }

    /// A SUBSCRIBE as [`Subscribe::encode`] writes it splits back, through
    /// [`get_parts`](super::packet::get_parts), into type 8, the reserved flags `0b0010`, and the
    /// packet identifier, the empty property list and the subscriptions.
    pub proof fn lemma_written_subscribe_splits_back(&self)
        requires
            self.remaining_length() <= MAX,
        ensures
            ({
                let packet = self.packet();
                let start = (1 + encoded_length(self.remaining_length() as nat)) as int;
                &&& parts_result(packet) == Ok::<(u8, u8, int, int), GetPartsError>(
                    (Self::TYPE, 2u8, start, packet.len() as int),
                )
                &&& packet.subrange(start, packet.len() as int) == big_endian_pair(
                    self.packet_identifier as nat,
                ) + seq![0u8] + subscriptions_bytes(self.subscriptions@)
            }),
    {
        let body = big_endian_pair(self.packet_identifier as nat) + seq![0u8] + subscriptions_bytes(
            self.subscriptions@,
        );
        lemma_subscriptions_bytes_length(self.subscriptions@);
        assert(self.packet() =~= seq![0x82u8] + encoding(body.len()) + body);
        lemma_written_packet_splits_back(0x82u8, body);
    }

    /// Whether the lengths of the subscriptions leave room for the arithmetic
    /// [`Subscribe::encode`] does on them.
    pub fn is_encodable(&self) -> (encodable: bool)
        ensures
            encodable == (self.remaining_length() < usize::MAX - 8),
    {
        proof {
            lemma_prefix_lengths_bounded(self.subscriptions@);
        }
        let mut length: usize = 0;
        let mut index: usize = 0;
        while index < self.subscriptions.len()
            invariant
                index <= self.subscriptions@.len(),
                length == subscriptions_length(self.subscriptions@.take(index as int)),
                length < usize::MAX - 11,
                forall|k: int| 0 <= k <= self.subscriptions@.len() ==> #[trigger] subscriptions_length(self.subscriptions@.take(k))
                    <= subscriptions_length(self.subscriptions@),
            decreases self.subscriptions@.len() - index,
        {
            proof {
                assert(self.subscriptions@.take(index + 1).drop_last() =~= self.subscriptions@.take(
                    index as int,
                ));
                assert(self.subscriptions@.take(index + 1).last() == self.subscriptions@[index as int]);
                assert(subscriptions_length(self.subscriptions@.take(index + 1)) <= subscriptions_length(
                    self.subscriptions@,
                ));
            }
            let topic_length = self.subscriptions[index].topic_filter.as_bytes().len();
            let room = usize::MAX - 11 - length;
            if topic_length >= room || 3 >= room - topic_length {
                return false;
            }
            length = length + 3 + topic_length;
            index = index + 1;
        }
        assert(self.subscriptions@.take(index as int) =~= self.subscriptions@);
        true
    }

    /// What the subscriptions take in the payload.
    fn payload_length(&self) -> (length: usize)
        requires
            self.remaining_length() < usize::MAX - 8,
        ensures
            length == subscriptions_length(self.subscriptions@),
    {
        let mut length: usize = 0;
        let mut index: usize = 0;
        proof {
            lemma_prefix_lengths_bounded(self.subscriptions@);
        }
        while index < self.subscriptions.len()
            invariant
                index <= self.subscriptions@.len(),
                length == subscriptions_length(self.subscriptions@.take(index as int)),
                subscriptions_length(self.subscriptions@) < usize::MAX - 8,
                forall|k: int| 0 <= k <= self.subscriptions@.len() ==> #[trigger] subscriptions_length(self.subscriptions@.take(k))
                    <= subscriptions_length(self.subscriptions@),
            decreases self.subscriptions@.len() - index,
        {
            proof {
                assert(self.subscriptions@.take(index + 1).drop_last() =~= self.subscriptions@.take(
                    index as int,
                ));
                assert(self.subscriptions@.take(index + 1).last() == self.subscriptions@[index as int]);
                assert(subscriptions_length(self.subscriptions@.take(index + 1)) <= subscriptions_length(
                    self.subscriptions@,
                ));
            }
            length = length + 2 + self.subscriptions[index].length();
            index = index + 1;
        }
        proof {
            assert(self.subscriptions@.take(index as int) =~= self.subscriptions@);
        }
        length
    }
}

/// The length of the first subscriptions never exceeds that of all of them.
proof fn lemma_prefix_lengths_bounded(subscriptions: Seq<Subscription>)
    ensures
        forall|k: int| 0 <= k <= subscriptions.len() ==> #[trigger] subscriptions_length(subscriptions.take(k))
            <= subscriptions_length(subscriptions),
    decreases subscriptions.len(),
{
    if subscriptions.len() > 0 {
        let shorter = subscriptions.drop_last();
        lemma_prefix_lengths_bounded(shorter);
        assert forall|k: int| 0 <= k <= subscriptions.len() implies #[trigger] subscriptions_length(
            subscriptions.take(k),
        ) <= subscriptions_length(subscriptions) by {
            if k < subscriptions.len() {
                assert(subscriptions.take(k) =~= shorter.take(k));
            } else {
                assert(subscriptions.take(k) =~= subscriptions);
            }
        }
    } else {
        assert forall|k: int| 0 <= k <= subscriptions.len() implies #[trigger] subscriptions_length(
            subscriptions.take(k),
        ) <= subscriptions_length(subscriptions) by {
            assert(subscriptions.take(k) =~= subscriptions);
        }
    }
}

} // verus!
