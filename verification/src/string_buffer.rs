//! A small fixed buffer holding a setting's decimal digits, used as a publish payload.

use vstd::prelude::*;

use crate::fan_client::Setting;
use crate::sensor::ascii_bytes;
use crate::text::{decimal, digit, lemma_decimal_u16, lemma_digit_ascii};

verus! {

/// Like a string of at most `N` bytes: the text is the end of the buffer, from `start_index`.
pub struct StringBuffer<const N: usize> {
    buffer: [u8; N],
    start_index: usize,
}

impl<const N: usize> StringBuffer<N> {
    #[verifier::type_invariant]
    spec fn starts_inside(self) -> bool {
        self.start_index <= N
    }

    /// The text the buffer holds.
    pub closed spec fn text(self) -> Seq<u8> {
        self.buffer@.subrange(self.start_index as int, N as int)
    }

    /// The text's bytes.
    pub fn as_bytes(&self) -> (bytes: &[u8])
        ensures
            bytes@ == self.text(),
    {
        proof {
            use_type_invariant(self);
        }
        vstd::slice::slice_subrange(self.buffer.as_slice(), self.start_index, N)
    }
}

/// Appending a character appends its byte.
proof fn lemma_ascii_push(text: Seq<char>, c: char)
    ensures
        ascii_bytes(text.push(c)) == ascii_bytes(text).push(c as u8),
{
    assert(ascii_bytes(text.push(c)) =~= ascii_bytes(text).push(c as u8));
}

impl StringBuffer<5> {
    /// A setting's decimal digits. The largest setting is five digits long, and so is every
    /// `u16`.
    pub fn from(setting: Setting) -> (text: Self)
        ensures
            text.text() == ascii_bytes(decimal(setting.0 as nat)),
    {
        let mut buffer: [u8; 5] = [0; 5];
        let mut index: usize = 4;
        let mut remainder: u16 = setting.0;
        proof {
            lemma_decimal_u16(setting.0 as nat);
            assert(buffer@.subrange(5, 5) =~= Seq::<u8>::empty());
            assert(ascii_bytes(decimal(setting.0 as nat)) =~= ascii_bytes(decimal(remainder as nat))
                + buffer@.subrange(5, 5));
        }
        loop
            invariant
                index <= 4,
                ascii_bytes(decimal(setting.0 as nat)) == ascii_bytes(decimal(remainder as nat))
                    + buffer@.subrange(index + 1, 5),
                decimal(setting.0 as nat).len() <= 5,
            decreases index,
        {
            let d = remainder % 10;
            buffer[index] = (d as u8) + 48;
            proof {
                lemma_digit_ascii(d as int);
                let rest: nat = (remainder / 10) as nat;
                if remainder >= 10 {
                    lemma_ascii_push(decimal(rest), digit(d as int));
                } else {
                    assert(ascii_bytes(decimal(remainder as nat)) =~= seq![digit(d as int) as u8]);
                }
                assert(buffer@.subrange(index as int, 5) =~= seq![((d as u8) + 48) as u8] + buffer@.subrange(
                    index + 1,
                    5,
                ));
            }
            remainder = remainder / 10;
            if remainder == 0 {
                proof {
                    assert(ascii_bytes(decimal(setting.0 as nat)) =~= buffer@.subrange(index as int, 5));
                }
                let text = StringBuffer { buffer, start_index: index };
                return text;
            }
            proof {
                assert(ascii_bytes(decimal(setting.0 as nat)) =~= ascii_bytes(decimal(remainder as nat))
                    + buffer@.subrange(index as int, 5));
                assert(decimal(remainder as nat).len() >= 1);
            }
            index = index - 1;
        }
    }
}

} // verus!
