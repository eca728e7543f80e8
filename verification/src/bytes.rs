//! Writing into byte buffers at a running offset, and the sequences such writes leave behind.

use vstd::prelude::*;

verus! {

/// `buffer` with `bytes` written over it from `start` on.
pub open spec fn overwritten(buffer: Seq<u8>, start: int, bytes: Seq<u8>) -> Seq<u8> {
    buffer.subrange(0, start) + bytes + buffer.subrange(start + bytes.len(), buffer.len() as int)
}

/// The two bytes of `value`, most significant first, each taken modulo 256.
pub open spec fn big_endian_pair(value: nat) -> Seq<u8> {
    seq![(value / 256 % 256) as u8, (value % 256) as u8]
}

/// `bytes` behind their length as two bytes, most significant first. A length that does not fit
/// in 16 bits is cut to its low 16 bits, as the packets that use this do.
pub open spec fn length_prefixed(bytes: Seq<u8>) -> Seq<u8> {
    big_endian_pair(bytes.len()) + bytes
}

/// Writing `first` and then `second` right behind it is writing the two together.
pub proof fn lemma_overwritten_twice(buffer: Seq<u8>, start: int, first: Seq<u8>, second: Seq<u8>)
    requires
        0 <= start,
        start + first.len() + second.len() <= buffer.len(),
    ensures
        overwritten(overwritten(buffer, start, first), start + first.len(), second)
            == overwritten(buffer, start, first + second),
{
    assert(overwritten(overwritten(buffer, start, first), start + first.len(), second)
        =~= overwritten(buffer, start, first + second));
}

/// Writing nothing leaves the buffer as it was.
pub proof fn lemma_overwritten_nothing(buffer: Seq<u8>, start: int)
    requires
        0 <= start <= buffer.len(),
    ensures
        overwritten(buffer, start, Seq::empty()) == buffer,
{
    assert(overwritten(buffer, start, Seq::empty()) =~= buffer);
}

/// Writes `byte` at `offset` and advances the offset past it.
pub fn write_byte(buffer: &mut [u8], offset: &mut usize, byte: u8)
    requires
        *old(offset) < old(buffer)@.len(),
    ensures
        *final(offset) == *old(offset) + 1,
        final(buffer)@ == overwritten(old(buffer)@, *old(offset) as int, seq![byte]),
{
    buffer[*offset] = byte;
    *offset = *offset + 1;
    assert(buffer@ =~= overwritten(old(buffer)@, *old(offset) as int, seq![byte]));
}

/// Writes `bytes` from `offset` on and advances the offset past them.
pub fn write_bytes(buffer: &mut [u8], offset: &mut usize, bytes: &[u8])
    requires
        *old(offset) + bytes@.len() <= old(buffer)@.len(),
    ensures
        *final(offset) == *old(offset) + bytes@.len(),
        final(buffer)@ == overwritten(old(buffer)@, *old(offset) as int, bytes@),
{
    let ghost start = *offset;
    let mut index: usize = 0;
    while index < bytes.len()
        invariant
            start == *old(offset),
            start + bytes@.len() <= buffer@.len(),
            buffer@.len() == old(buffer)@.len(),
            index <= bytes@.len(),
            *offset == start + index,
            buffer@ == overwritten(old(buffer)@, start as int, bytes@.subrange(0, index as int)),
        decreases bytes@.len() - index,
    {
        buffer[*offset] = bytes[index];
        *offset = *offset + 1;
        index = index + 1;
        assert(buffer@ =~= overwritten(
            old(buffer)@,
            start as int,
            bytes@.subrange(0, index as int),
        ));
    }
    assert(bytes@.subrange(0, index as int) =~= bytes@);
}

/// Writes the length of `bytes` as two bytes, most significant first and cut to 16 bits, and then
/// `bytes`, advancing the offset past all of it.
pub fn write_length_prefixed(buffer: &mut [u8], offset: &mut usize, bytes: &[u8])
    requires
        *old(offset) + 2 + bytes@.len() <= old(buffer)@.len(),
    ensures
        *final(offset) == *old(offset) + 2 + bytes@.len(),
        final(buffer)@ == overwritten(old(buffer)@, *old(offset) as int, length_prefixed(bytes@)),
{
    let ghost start = *offset as int;
    let ghost prior = buffer@;
    let length = bytes.len();
    write_byte(buffer, offset, (length / 256 % 256) as u8);
    write_byte(buffer, offset, (length % 256) as u8);
    proof {
        lemma_overwritten_twice(prior, start, seq![(length / 256 % 256) as u8], seq![(length % 256) as u8]);
        assert(seq![(length / 256 % 256) as u8] + seq![(length % 256) as u8] =~= big_endian_pair(length as nat));
    }
    let ghost middle = buffer@;
    write_bytes(buffer, offset, bytes);
    proof {
        lemma_overwritten_twice(prior, start, big_endian_pair(length as nat), bytes@);
    }
}

/// Whether the two runs of bytes are the same.
pub fn same_bytes(a: &[u8], b: &[u8]) -> (same: bool)
    ensures
        same == (a@ == b@),
{
    if a.len() != b.len() {
        return false;
    }
    let mut index: usize = 0;
    while index < a.len()
        invariant
            a@.len() == b@.len(),
            index <= a@.len(),
            forall|i: int| 0 <= i < index ==> a@[i] == b@[i],
        decreases a@.len() - index,
    {
        if a[index] != b[index] {
            return false;
        }
        index = index + 1;
    }
    assert(a@ =~= b@);
    true
}

} // verus!
