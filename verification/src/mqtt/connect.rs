//! The CONNECT packet that opens a session with the broker: MQTT 5, user name and password, a
//! clean start, and no properties.

use vstd::prelude::*;
use vstd::string::StringSliceAdditionalSpecFns;

use crate::bytes::{
    big_endian_pair, length_prefixed, lemma_overwritten_twice, overwritten, write_byte,
    write_bytes, write_length_prefixed,
};
use super::packet::{lemma_written_packet_splits_back, parts_result, GetPartsError};
use super::variable_byte_integer::{
    self, encoded_length, encoded_size, encoding, VariableByteIntegerEncodeError, MAX,
};

verus! {

/// What the client announces when it connects.
pub struct Connect<'a> {
    pub client_identifier: &'a str,
    pub username: &'a str,
    pub password: &'a [u8],
    pub keep_alive_seconds: u16,
}

/// Why a CONNECT packet could not be written.
#[derive(Debug, PartialEq, Eq)]
pub enum EncodeError {
    /// Client identifier, user name and password together are larger than a variable byte
    /// integer can announce. Writing reports this as
    /// [`EncodeError::WriteRemainingLengthError`] instead, so it is never returned.
    DataTooLarge,
    /// The buffer does not hold enough room behind the offset for the packet.
    BufferTooSmall { required: usize, available: usize },
    /// The remaining length could not be written.
    WriteRemainingLengthError(VariableByteIntegerEncodeError),
}

impl<'a> Connect<'a> {
    pub const TYPE: u8 = 1;

    /// The remaining length: the variable header and the three length prefixed fields.
    pub open spec fn remaining_length(&self) -> int {
        (17 + self.client_identifier.spec_bytes().len() + self.username.spec_bytes().len()
            + self.password@.len()) as int
    }

    /// Everything behind the remaining length: protocol name `MQTT`, version 5, the user name,
    /// password and clean start flags, the keep alive, an empty property list, and the client
    /// identifier, user name and password each behind its length.
    pub open spec fn body(&self) -> Seq<u8> {
        seq![0u8, 4u8, 77u8, 81u8, 84u8, 84u8, 5u8, 0b1100_0010u8]
            + big_endian_pair(self.keep_alive_seconds as nat) + seq![0u8]
            + length_prefixed(self.client_identifier.spec_bytes())
            + length_prefixed(self.username.spec_bytes()) + length_prefixed(self.password@)
    }

    /// The whole packet.
    pub open spec fn packet(&self) -> Seq<u8> {
        seq![16u8] + encoding(self.remaining_length() as nat) + self.body()
    }

    /// The room the whole packet takes: the first byte, the remaining length and what it
    /// announces.
    pub open spec fn required_length(&self) -> int {
        1 + encoded_length(self.remaining_length() as nat) + self.remaining_length()
    }

    /// A CONNECT as [`Connect::try_encode`] writes it splits back, through
    /// [`get_parts`](super::packet::get_parts), into type 1, no flags, and its body.
    pub proof fn lemma_written_connect_splits_back(&self)
        requires
            self.remaining_length() <= MAX,
        ensures
            ({
                let packet = self.packet();
                let start = (1 + encoded_length(self.remaining_length() as nat)) as int;
                &&& parts_result(packet) == Ok::<(u8, u8, int, int), GetPartsError>(
                    (Self::TYPE, 0u8, start, packet.len() as int),
                )
                &&& packet.subrange(start, packet.len() as int) == self.body()
            }),
    {
        assert(self.body().len() == self.remaining_length());
        lemma_written_packet_splits_back(16u8, self.body());
    }

    /// Whether the lengths of the fields leave room for the arithmetic [`Connect::try_encode`]
    /// does on them.
    pub fn is_encodable(&self) -> (encodable: bool)
        ensures
            encodable == (self.remaining_length() < usize::MAX - 8),
    {
        let fields = match self.client_identifier.as_bytes().len().checked_add(self.username.as_bytes().len()) {
            Some(sum) => match sum.checked_add(self.password.len()) {
                Some(sum) => sum,
                None => return false,
            },
            None => return false,
        };
        fields < usize::MAX - 25
    }

    /// Writes everything behind the remaining length.
    fn write_body(&self, buffer: &mut [u8], offset: &mut usize, client_identifier: &[u8], username: &[u8])
        requires
            client_identifier@ == self.client_identifier.spec_bytes(),
            username@ == self.username.spec_bytes(),
            *old(offset) + self.body().len() <= old(buffer)@.len(),
        ensures
            *final(offset) == *old(offset) + self.body().len(),
            final(buffer)@ == overwritten(old(buffer)@, *old(offset) as int, self.body()),
    {
        let ghost start = *offset as int;
        let ghost prior = buffer@;
        let fixed: [u8; 11] = [
            0x00,
            4,
            77,
            81,
            84,
            84,
            5,
            0b1100_0010,
            (self.keep_alive_seconds / 256) as u8,
            (self.keep_alive_seconds % 256) as u8,
            0,
        ];
        let ghost fixed_bytes = seq![0u8, 4u8, 77u8, 81u8, 84u8, 84u8, 5u8, 0b1100_0010u8]
            + big_endian_pair(self.keep_alive_seconds as nat) + seq![0u8];
        assert(fixed@ =~= fixed_bytes);
        write_bytes(buffer, offset, fixed.as_slice());
        write_length_prefixed(buffer, offset, client_identifier);
        proof {
            lemma_overwritten_twice(prior, start, fixed_bytes, length_prefixed(client_identifier@));
        }
        write_length_prefixed(buffer, offset, username);
        proof {
            lemma_overwritten_twice(
                prior,
                start,
                fixed_bytes + length_prefixed(client_identifier@),
                length_prefixed(username@),
            );
        }
        write_length_prefixed(buffer, offset, self.password);
        proof {
            lemma_overwritten_twice(
                prior,
                start,
                fixed_bytes + length_prefixed(client_identifier@) + length_prefixed(username@),
                length_prefixed(self.password@),
            );
            assert(fixed_bytes + length_prefixed(client_identifier@) + length_prefixed(username@)
                + length_prefixed(self.password@) =~= self.body());
        }
    }

    /// Writes the packet at `offset` and advances the offset past it.
    ///
    /// Refuses with [`EncodeError::BufferTooSmall`], writing nothing, when the room behind the
    /// offset is less than the whole packet takes, and with
    /// [`VariableByteIntegerEncodeError::TooLarge`] when the remaining length cannot be announced,
    /// in which case the first byte has already been written.
    pub fn encode(&self, buffer: &mut [u8], offset: &mut usize) -> (result: Result<(), EncodeError>)
        requires
            *old(offset) <= old(buffer)@.len(),
            self.remaining_length() < usize::MAX - 8,
        ensures
            ({
                let available = old(buffer)@.len() - *old(offset);
                let remaining = self.remaining_length();
                if available < self.required_length() {
                    &&& result == Err::<(), EncodeError>(
                        EncodeError::BufferTooSmall {
                            required: self.required_length() as usize,
                            available: available as usize,
                        },
                    )
                    &&& *final(offset) == *old(offset)
                    &&& final(buffer)@ == old(buffer)@
                } else if remaining > MAX {
                    &&& result == Err::<(), EncodeError>(
                        EncodeError::WriteRemainingLengthError(
                            VariableByteIntegerEncodeError::TooLarge,
                        ),
                    )
                    &&& *final(offset) == *old(offset) + 1
                    &&& final(buffer)@ == overwritten(old(buffer)@, *old(offset) as int, seq![16u8])
                } else {
                    &&& result is Ok
                    &&& *final(offset) == *old(offset) + self.packet().len()
                    &&& final(buffer)@ == overwritten(old(buffer)@, *old(offset) as int, self.packet())
                }
            }),
    {
        self.try_encode(buffer, offset)
    }

    /// Writes the packet at `offset` and advances the offset past it.
    ///
    /// Refuses with [`EncodeError::BufferTooSmall`], writing nothing, when the room behind the
    /// offset is less than the whole packet takes, and with
    /// [`VariableByteIntegerEncodeError::TooLarge`] when the remaining length cannot be announced,
    /// in which case the first byte has already been written.
    pub fn try_encode(&self, buffer: &mut [u8], offset: &mut usize) -> (result: Result<(), EncodeError>)
        requires
            *old(offset) <= old(buffer)@.len(),
            self.remaining_length() < usize::MAX - 8,
        ensures
            ({
                let available = old(buffer)@.len() - *old(offset);
                let remaining = self.remaining_length();
                if available < self.required_length() {
                    &&& result == Err::<(), EncodeError>(
                        EncodeError::BufferTooSmall {
                            required: self.required_length() as usize,
                            available: available as usize,
                        },
                    )
                    &&& *final(offset) == *old(offset)
                    &&& final(buffer)@ == old(buffer)@
                } else if remaining > MAX {
                    &&& result == Err::<(), EncodeError>(
                        EncodeError::WriteRemainingLengthError(
                            VariableByteIntegerEncodeError::TooLarge,
                        ),
                    )
                    &&& *final(offset) == *old(offset) + 1
                    &&& final(buffer)@ == overwritten(old(buffer)@, *old(offset) as int, seq![16u8])
                } else {
                    &&& result is Ok
                    &&& *final(offset) == *old(offset) + self.packet().len()
                    &&& final(buffer)@ == overwritten(old(buffer)@, *old(offset) as int, self.packet())
                }
            }),
    {
        let client_identifier = self.client_identifier.as_bytes();
        let username = self.username.as_bytes();
        let remaining_length = 11 + 2 + client_identifier.len() + 2 + username.len() + 2
            + self.password.len();
        let required_length = 1 + encoded_size(remaining_length) + remaining_length;
        if required_length > buffer.len() - *offset {
            return Err(
                EncodeError::BufferTooSmall {
                    required: required_length,
                    available: buffer.len() - *offset,
                },
            );
        }
        let ghost start = *offset as int;
        let ghost prior = buffer@;
        write_byte(buffer, offset, Self::TYPE << 4);
        assert(Self::TYPE << 4 == 16u8) by (bit_vector);
        match variable_byte_integer::encode(remaining_length, buffer, offset) {
            Ok(_) => {},
            Err(error) => {
                return Err(EncodeError::WriteRemainingLengthError(error));
            },
        }
        proof {
            variable_byte_integer::lemma_encoding_length(remaining_length as nat);
            lemma_overwritten_twice(prior, start, seq![16u8], encoding(remaining_length as nat));
        }
        let ghost header = seq![16u8] + encoding(remaining_length as nat);
        self.write_body(buffer, offset, client_identifier, username);
        proof {
            lemma_overwritten_twice(prior, start, header, self.body());
        }
        Ok(())
    }
}

} // verus!
