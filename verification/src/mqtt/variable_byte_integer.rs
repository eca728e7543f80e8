//! MQTT's variable byte integer: seven bits per byte, least significant group first, the high
//! bit of each byte saying whether another follows.

use vstd::prelude::*;

use crate::bytes::overwritten;

verus! {

/// Why a variable byte integer could not be written.
#[derive(Debug, PartialEq, Eq, Structural)]
pub enum VariableByteIntegerEncodeError {
    /// The integer is larger than [`MAX`].
    TooLarge,
    /// The buffer is too small to write the integer.
    EndOfBuffer,
}

/// Why a variable byte integer could not be read.
#[derive(Debug, Clone, Copy, PartialEq, Eq, Structural)]
pub enum DecodeError {
    /// A fifth byte followed four that each announced another.
    MalformedVariableByteIntegerError,
    /// The buffer holds no byte at the offset.
    EndOfBuffer,
    /// A byte announced another that the buffer does not hold.
    UnexpectedEndOfBuffer,
    /// More than four bytes were announced. The fifth byte is refused as malformed before this
    /// can be reported, so reading never returns it.
    InvalidLength,
}

/// The largest integer four bytes can carry.
pub const MAX: usize = 268_435_455;

/// How many bytes `value` takes.
pub open spec fn encoded_length(value: nat) -> nat {
    if value <= 127 {
        1
    } else if value <= 16_383 {
        2
    } else if value <= 2_097_151 {
        3
    } else {
        4
    }
}

/// How many bytes `value` takes when written.
pub fn encoded_size(value: usize) -> (size: usize)
    ensures
        size == encoded_length(value as nat),
{
    if value <= 127 {
        1
    } else if value <= 16_383 {
        2
    } else if value <= 2_097_151 {
        3
    } else {
        4
    }
}

/// The bytes that encode `value`.
pub open spec fn encoding(value: nat) -> Seq<u8>
    decreases value,
{
    if value < 128 {
        seq![value as u8]
    } else {
        seq![(value % 128 + 128) as u8] + encoding(value / 128)
    }
}

/// `128` to the power of `exponent`.
pub open spec fn group_weight(exponent: nat) -> nat
    decreases exponent,
{
    if exponent == 0 {
        1
    } else {
        128 * group_weight((exponent - 1) as nat)
    }
}

/// What [`encode`] returns for `value` when the buffer holds `available` bytes from the offset
/// on: the integer is refused when it is too large, and when the buffer is too small for it.
pub open spec fn encode_result(value: usize, available: int) -> Result<
    usize,
    VariableByteIntegerEncodeError,
> {
    if value > MAX {
        Err(VariableByteIntegerEncodeError::TooLarge)
    } else if available < encoded_length(value as nat) {
        Err(VariableByteIntegerEncodeError::EndOfBuffer)
    } else {
        Ok(encoded_length(value as nat) as usize)
    }
}

/// The rest of a decode once `read` bytes that each announced another have been taken and their
/// groups add up to `accumulated`. `position` is the index of the next byte. The result carries
/// the offset the decode leaves behind, which it advances past every byte it took, on failure too.
pub open spec fn decode_continuation(
    buffer: Seq<u8>,
    position: int,
    read: nat,
    accumulated: nat,
) -> (Result<usize, DecodeError>, int)
    decreases 4 - read,
{
    if buffer.len() <= position {
        (Err(DecodeError::UnexpectedEndOfBuffer), position)
    } else if read >= 4 {
        (Err(DecodeError::MalformedVariableByteIntegerError), position + 1)
    } else {
        let byte = buffer[position];
        let total = accumulated + (byte % 128) as nat * group_weight(read);
        if byte < 128 {
            (Ok(total as usize), position + 1)
        } else {
            decode_continuation(buffer, position + 1, read + 1, total)
        }
    }
}

/// What [`decode`] returns for `buffer` read from `offset`, and the offset it leaves behind.
pub open spec fn decode_result(buffer: Seq<u8>, offset: int) -> (Result<usize, DecodeError>, int) {
    if buffer.len() <= offset {
        (Err(DecodeError::EndOfBuffer), offset)
    } else if buffer[offset] < 128 {
        (Ok(buffer[offset] as usize), offset + 1)
    } else {
        decode_continuation(buffer, offset + 1, 1, (buffer[offset] % 128) as nat)
    }
}

pub proof fn lemma_encoding_length(value: nat)
    requires
        value <= MAX,
    ensures
        encoding(value).len() == encoded_length(value),
    decreases value,
{
    if value >= 128 {
        lemma_encoding_length(value / 128);
    }
}

/// Writes `value` at `offset` and advances the offset past it. Returns how many bytes it took.
///
/// A buffer too small for the integer is refused as
/// [`VariableByteIntegerEncodeError::EndOfBuffer`], and nothing is written.
pub fn encode(value: usize, buffer: &mut [u8], offset: &mut usize) -> (result: Result<
    usize,
    VariableByteIntegerEncodeError,
>)
    ensures
        result == encode_result(value, old(buffer)@.len() - *old(offset)),
        result is Err ==> *final(offset) == *old(offset) && final(buffer)@ == old(buffer)@,
        result is Ok ==> {
            &&& *final(offset) == *old(offset) + encoded_length(value as nat)
            &&& final(buffer)@ == overwritten(old(buffer)@, *old(offset) as int, encoding(value as nat))
        },
{
    let length: usize = if value <= 127 {
        1
    } else if value <= 16_383 {
        2
    } else if value <= 2_097_151 {
        3
    } else if value <= MAX {
        4
    } else {
        return Err(VariableByteIntegerEncodeError::TooLarge);
    };

    if *offset >= buffer.len() || buffer.len() - *offset < length {
        return Err(VariableByteIntegerEncodeError::EndOfBuffer);
    }

    proof {
        lemma_encoding_length(value as nat);
    }
    let ghost start = *offset;
    let ghost prior = buffer@;
    let ghost mut emitted: Seq<u8> = Seq::empty();
    let mut remaining: usize = value;
    loop
        invariant_except_break
            start == *old(offset),
            prior == old(buffer)@,
            value <= MAX,
            remaining <= value,
            length == encoded_length(value as nat),
            start + length <= buffer@.len(),
            buffer@.len() == prior.len(),
            *offset == start + emitted.len(),
            encoding(value as nat) == emitted + encoding(remaining as nat),
            buffer@ == overwritten(prior, start as int, emitted),
        ensures
            *offset == start + length,
            buffer@ == overwritten(prior, start as int, encoding(value as nat)),
        decreases remaining,
    {
        let group: u8 = (remaining % 128) as u8;
        let rest: usize = remaining / 128;
        let byte: u8 = if rest > 0 {
            assert(group | 0b1000_0000 == group + 128) by (bit_vector)
                requires
                    group < 128,
            ;
            group | 0b1000_0000
        } else {
            group
        };
        proof {
            if remaining >= 128 {
                assert(encoding(remaining as nat) == seq![byte] + encoding(rest as nat));
            } else {
                assert(encoding(remaining as nat) == seq![byte]);
            }
            lemma_encoding_length(value as nat);
            lemma_encoding_length(rest as nat);
        }
        buffer[*offset] = byte;
        *offset = *offset + 1;
        proof {
            let before = emitted;
            emitted = emitted.push(byte);
            assert(before + seq![byte] == emitted);
            if rest > 0 {
                assert(encoding(value as nat) == emitted + encoding(rest as nat));
            } else {
                assert(encoding(value as nat) == emitted);
            }
            assert(buffer@ =~= overwritten(prior, start as int, emitted));
        }
        if rest == 0 {
            break;
        }
        remaining = rest;
    }
    Ok(length)
}

proof fn lemma_group_weight_step(read: nat)
    ensures
        group_weight(read + 1) == 128 * group_weight(read),
        group_weight(read) >= 1,
    decreases read,
{
    if read > 0 {
        lemma_group_weight_step((read - 1) as nat);
    }
}

/// Reads the integer at `offset` and advances the offset past every byte it took, which it also
/// does when it fails part way through.
pub fn decode(buffer: &[u8], offset: &mut usize) -> (result: Result<usize, DecodeError>)
    ensures
        (result, *final(offset) as int) == decode_result(buffer@, *old(offset) as int),
        result matches Ok(value) ==> value <= MAX,
{
    if buffer.len() <= *offset {
        return Err(DecodeError::EndOfBuffer);
    }
    let first: u8 = buffer[*offset];
    *offset = *offset + 1;
    if first < 128 {
        return Ok(first as usize);
    }
    let mut accumulated: u64 = (first % 128) as u64;
    let mut read: u64 = 1;
    let mut weight: u64 = 128;
    proof {
        reveal_with_fuel(group_weight, 2);
    }
    loop
        invariant
            decode_result(buffer@, *old(offset) as int) == decode_continuation(
                buffer@,
                *offset as int,
                read as nat,
                accumulated as nat,
            ),
            1 <= read <= 4,
            weight == group_weight(read as nat),
            accumulated < weight,
            weight <= 268_435_456,
            *offset <= buffer@.len(),
        decreases 4 - read,
    {
        if buffer.len() <= *offset {
            return Err(DecodeError::UnexpectedEndOfBuffer);
        }
        if read >= 4 {
            *offset = *offset + 1;
            return Err(DecodeError::MalformedVariableByteIntegerError);
        }
        let byte: u8 = buffer[*offset];
        *offset = *offset + 1;
        let group: u64 = (byte % 128) as u64;
        proof {
            lemma_group_weight_step(read as nat);
            assert(accumulated + group * weight < 128 * weight) by (nonlinear_arith)
                requires
                    accumulated < weight,
                    group < 128,
            ;
            assert(read < 4 ==> weight <= 2_097_152) by {
                reveal_with_fuel(group_weight, 4);
            }
        }
        accumulated = accumulated + group * weight;
        if byte < 128 {
            return Ok(accumulated as usize);
        }
        read = read + 1;
        weight = weight * 128;
    }
}

proof fn lemma_encoding_splits(value: nat)
    ensures
        encoding(value).len() >= 1,
        value < 128 ==> encoding(value) == seq![value as u8],
        value >= 128 ==> encoding(value) == seq![(value % 128 + 128) as u8] + encoding(value / 128),
        value >= 128 ==> encoding(value).len() == 1 + encoding(value / 128).len(),
    decreases value,
{
    if value >= 128 {
        lemma_encoding_splits(value / 128);
    }
}

proof fn lemma_continuation_reads_encoding(
    buffer: Seq<u8>,
    position: int,
    read: nat,
    accumulated: nat,
    value: nat,
)
    requires
        read >= 1,
        read + encoding(value).len() <= 4,
        0 <= position,
        position + encoding(value).len() <= buffer.len(),
        buffer.subrange(position, position + encoding(value).len()) == encoding(value),
    ensures
        decode_continuation(buffer, position, read, accumulated) == (
            Ok::<usize, DecodeError>((accumulated + value * group_weight(read)) as usize),
            position + encoding(value).len(),
        ),
    decreases value,
{
    lemma_encoding_splits(value);
    lemma_group_weight_step(read);
    let byte = buffer[position];
    assert(byte == encoding(value)[0]);
    if value < 128 {
        assert(byte % 128 == value);
    } else {
        let rest = value / 128;
        lemma_encoding_splits(rest);
        assert(byte % 128 == value % 128);
        assert(buffer.subrange(position + 1, position + 1 + encoding(rest).len()) =~= encoding(
            rest,
        )) by {
            assert(encoding(value).subrange(1, encoding(value).len() as int) =~= encoding(rest));
        }
        lemma_continuation_reads_encoding(
            buffer,
            position + 1,
            read + 1,
            accumulated + (value % 128) * group_weight(read),
            rest,
        );
        let weight = group_weight(read);
        assert(accumulated + (value % 128) * weight + rest * (128 * weight) == accumulated + value
            * weight) by (nonlinear_arith)
            requires
                rest == value / 128,
        ;
    }
}

/// Decoding reads back what encoding wrote: wherever the bytes that encode `value` stand in a
/// buffer, decoding from there gives `value` and moves the offset just past those bytes.
pub proof fn lemma_decode_reads_back_encoding(buffer: Seq<u8>, offset: int, value: usize)
    requires
        value <= MAX,
        0 <= offset,
        offset + encoding(value as nat).len() <= buffer.len(),
        buffer.subrange(offset, offset + encoding(value as nat).len()) == encoding(value as nat),
    ensures
        decode_result(buffer, offset) == (
            Ok::<usize, DecodeError>(value),
            offset + encoded_length(value as nat),
        ),
{
    lemma_encoding_length(value as nat);
    lemma_encoding_splits(value as nat);
    let byte = buffer[offset];
    assert(byte == encoding(value as nat)[0]);
    if value >= 128 {
        let rest = (value / 128) as nat;
        lemma_encoding_splits(rest);
        assert(buffer.subrange(offset + 1, offset + 1 + encoding(rest).len()) =~= encoding(rest))
            by {
            assert(encoding(value as nat).subrange(1, encoding(value as nat).len() as int)
                =~= encoding(rest));
        }
        reveal_with_fuel(group_weight, 2);
        lemma_continuation_reads_encoding(buffer, offset + 1, 1, (value % 128) as nat, rest);
        assert(group_weight(1) == 128);
        assert((value % 128) as nat + rest * 128 == value);
    }
}

/// What [`encode`] writes, [`decode`] reads back: after a successful encode of `value` at
/// `offset`, decoding the buffer from `offset` gives `value` and ends where the encode ended.
pub proof fn lemma_decode_after_encode(
    before: Seq<u8>,
    after: Seq<u8>,
    offset: usize,
    end: usize,
    value: usize,
)
    requires
        encode_result(value, before.len() - offset) is Ok,
        end == offset + encoded_length(value as nat),
        after == overwritten(before, offset as int, encoding(value as nat)),
        offset <= before.len(),
    ensures
        decode_result(after, offset as int) == (Ok::<usize, DecodeError>(value), end as int),
{
    lemma_encoding_length(value as nat);
    assert(after.subrange(offset as int, offset + encoding(value as nat).len()) =~= encoding(
        value as nat,
    ));
    lemma_decode_reads_back_encoding(after, offset as int, value);
}

} // verus!
