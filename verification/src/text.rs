//! Text as the fans' values are written out: decimal and hexadecimal numbers, fixed strings and
//! lists joined by commas, appended character by character.

use vstd::prelude::*;
use vstd::string::StrSliceExecFns;

verus! {

/// Whether every character of `text` is ASCII, and so takes one byte.
pub open spec fn is_ascii_text(text: Seq<char>) -> bool {
    forall|i: int| 0 <= i < text.len() ==> (#[trigger] text[i] as u32) < 128
}

/// The character of decimal digit `d`.
pub open spec fn digit(d: int) -> char {
    (48 + d) as char
}

/// The decimal digits of `n`, most significant first, without leading zeroes.
pub open spec fn decimal(n: nat) -> Seq<char>
    decreases n,
{
    if n < 10 {
        seq![digit(n as int)]
    } else {
        decimal(n / 10).push(digit((n % 10) as int))
    }
}

/// `v` in decimal, with a minus sign in front when it is negative.
pub open spec fn signed_decimal(v: int) -> Seq<char> {
    if v < 0 {
        seq!['-'] + decimal((-v) as nat)
    } else {
        decimal(v as nat)
    }
}

/// A quantity in tenths written with one decimal place. The sign belongs to the whole quantity,
/// so a value between minus one and zero keeps it.
pub open spec fn tenths_text(tenths: int) -> Seq<char> {
    let magnitude: nat = if tenths < 0 { (-tenths) as nat } else { tenths as nat };
    let sign: Seq<char> = if tenths < 0 { seq!['-'] } else { Seq::empty() };
    sign + decimal(magnitude / 10) + seq!['.', digit((magnitude % 10) as int)]
}

/// The character of hexadecimal digit `d`, in upper case.
pub open spec fn hex_digit(d: int) -> char {
    if d < 10 {
        digit(d)
    } else {
        (55 + d) as char
    }
}

/// A 16 bit value as `0x` and four upper case hexadecimal digits.
pub open spec fn prefixed_hex(v: u16) -> Seq<char> {
    seq![
        '0',
        'x',
        hex_digit(v as int / 4096),
        hex_digit((v as int / 256) % 16),
        hex_digit((v as int / 16) % 16),
        hex_digit(v as int % 16),
    ]
}

/// The separator between the entries of a list.
pub open spec fn separator() -> Seq<char> {
    seq![',', ' ']
}

/// The entries of `parts`, in order, with a comma and a space between each two.
pub open spec fn joined(parts: Seq<Seq<char>>) -> Seq<char>
    decreases parts.len(),
{
    if parts.len() == 0 {
        Seq::empty()
    } else if parts.len() == 1 {
        parts[0]
    } else {
        joined(parts.drop_last()) + separator() + parts.last()
    }
}

/// What joining `parts` can take at most: each entry and a separator after it.
pub open spec fn joined_budget(parts: Seq<Seq<char>>) -> nat
    decreases parts.len(),
{
    if parts.len() == 0 {
        0
    } else {
        joined_budget(parts.drop_last()) + parts.last().len() + 2
    }
}

/// One more entry joins on after a separator.
pub proof fn lemma_joined_push(parts: Seq<Seq<char>>, part: Seq<char>)
    requires
        parts.len() > 0,
    ensures
        joined(parts.push(part)) == joined(parts) + separator() + part,
{
    assert(parts.push(part).drop_last() =~= parts);
}

/// A joined list is its budget less the separator after the last entry, and ASCII when its
/// entries are.
pub proof fn lemma_joined_length(parts: Seq<Seq<char>>)
    requires
        parts.len() > 0,
    ensures
        joined(parts).len() + 2 == joined_budget(parts),
    decreases parts.len(),
{
    if parts.len() > 1 {
        lemma_joined_length(parts.drop_last());
    } else {
        assert(joined_budget(parts.drop_last()) == 0);
    }
}

/// Joining ASCII entries gives ASCII text.
pub proof fn lemma_joined_ascii(parts: Seq<Seq<char>>)
    requires
        forall|i: int| 0 <= i < parts.len() ==> is_ascii_text(#[trigger] parts[i]),
    ensures
        is_ascii_text(joined(parts)),
    decreases parts.len(),
{
    if parts.len() > 1 {
        let rest = parts.drop_last();
        assert forall|i: int| 0 <= i < rest.len() implies is_ascii_text(#[trigger] rest[i]) by {
            assert(rest[i] == parts[i]);
        }
        lemma_joined_ascii(rest);
        let whole = joined(parts);
        let front = joined(rest) + separator();
        assert forall|i: int| 0 <= i < whole.len() implies (#[trigger] whole[i] as u32) < 128 by {
            if i < joined(rest).len() {
                assert(whole[i] == joined(rest)[i]);
            } else if i < front.len() {
            } else {
                assert(whole[i] == parts.last()[i - front.len()]);
            }
        }
    } else if parts.len() == 1 {
        assert(is_ascii_text(parts[0]));
    }
}

/// Digits are ASCII.
pub proof fn lemma_digit_ascii(d: int)
    requires
        0 <= d < 10,
    ensures
        digit(d) as u32 == 48 + d,
        (digit(d) as u32) < 128,
{
}

/// Ten to the power `k`.
pub open spec fn ten_to(k: nat) -> nat
    decreases k,
{
    if k == 0 {
        1
    } else {
        10 * ten_to((k - 1) as nat)
    }
}

/// The decimal digits of a number below `10^k` are at most `k`, and ASCII.
pub proof fn lemma_decimal_bounds(n: nat, k: nat)
    requires
        k >= 1,
        n < ten_to(k),
    ensures
        1 <= decimal(n).len() <= k,
        is_ascii_text(decimal(n)),
    decreases n,
{
    if n < 10 {
        lemma_digit_ascii(n as int);
    } else {
        let k1 = (k - 1) as nat;
        assert(k >= 2) by {
            if k == 1 {
                assert(ten_to(1) == 10) by {
                    reveal_with_fuel(ten_to, 2);
                }
            }
        }
        assert(n / 10 < ten_to(k1));
        lemma_decimal_bounds(n / 10, k1);
        lemma_digit_ascii((n % 10) as int);
        let whole = decimal(n);
        assert forall|i: int| 0 <= i < whole.len() implies (#[trigger] whole[i] as u32) < 128 by {
            if i < decimal(n / 10).len() {
                assert(whole[i] == decimal(n / 10)[i]);
            }
        }
    }
}

/// The decimal digits of a 16 bit value: at most five, and ASCII; at most four below ten
/// thousand.
pub proof fn lemma_decimal_u16(n: nat)
    requires
        n <= 65536,
    ensures
        1 <= decimal(n).len() <= 5,
        n < 10000 ==> decimal(n).len() <= 4,
        is_ascii_text(decimal(n)),
{
    assert(ten_to(5) == 100000 && ten_to(4) == 10000) by {
        reveal_with_fuel(ten_to, 6);
    }
    lemma_decimal_bounds(n, 5);
    if n < 10000 {
        lemma_decimal_bounds(n, 4);
    }
}

/// A signed 16 bit value in decimal: at most six characters, and ASCII.
pub proof fn lemma_signed_decimal_i16(v: int)
    requires
        -32768 <= v <= 32767,
    ensures
        signed_decimal(v).len() <= 6,
        is_ascii_text(signed_decimal(v)),
{
    if v < 0 {
        lemma_decimal_u16((-v) as nat);
        let whole = signed_decimal(v);
        assert forall|i: int| 0 <= i < whole.len() implies (#[trigger] whole[i] as u32) < 128 by {
            if i > 0 {
                assert(whole[i] == decimal((-v) as nat)[i - 1]);
            }
        }
    } else {
        lemma_decimal_u16(v as nat);
    }
}

/// A signed 16 bit quantity in tenths: at most seven characters, and ASCII.
pub proof fn lemma_tenths_text_i16(tenths: int)
    requires
        -32768 <= tenths <= 32767,
    ensures
        tenths_text(tenths).len() <= 7,
        is_ascii_text(tenths_text(tenths)),
{
    let magnitude: nat = if tenths < 0 { (-tenths) as nat } else { tenths as nat };
    lemma_decimal_u16(magnitude / 10);
    lemma_digit_ascii((magnitude % 10) as int);
    let sign: Seq<char> = if tenths < 0 { seq!['-'] } else { Seq::empty() };
    let whole = tenths_text(tenths);
    let front = sign + decimal(magnitude / 10);
    assert forall|i: int| 0 <= i < whole.len() implies (#[trigger] whole[i] as u32) < 128 by {
        if i < sign.len() {
        } else if i < front.len() {
            assert(whole[i] == decimal(magnitude / 10)[i - sign.len()]);
        } else if i == front.len() {
        } else {
            assert(whole[i] == digit((magnitude % 10) as int));
        }
    }
}

/// The hexadecimal form is six ASCII characters.
pub proof fn lemma_prefixed_hex(v: u16)
    ensures
        prefixed_hex(v).len() == 6,
        is_ascii_text(prefixed_hex(v)),
{
    let whole = prefixed_hex(v);
    assert forall|i: int| 0 <= i < whole.len() implies (#[trigger] whole[i] as u32) < 128 by {
        let d: int = if i == 2 {
            v as int / 4096
        } else if i == 3 {
            (v as int / 256) % 16
        } else if i == 4 {
            (v as int / 16) % 16
        } else {
            v as int % 16
        };
        if i >= 2 {
            assert(0 <= d < 16);
            assert(whole[i] == hex_digit(d));
        }
    }
}

/// Appends the characters of `text`.
pub fn push_str(out: &mut Vec<char>, text: &str)
    ensures
        final(out)@ == old(out)@ + text@,
{
    let length = text.unicode_len();
    let mut index: usize = 0;
    while index < length
        invariant
            length == text@.len(),
            index <= length,
            out@ == old(out)@ + text@.subrange(0, index as int),
        decreases length - index,
    {
        let c = text.get_char(index);
        out.push(c);
        index = index + 1;
        assert(out@ =~= old(out)@ + text@.subrange(0, index as int));
    }
    assert(text@.subrange(0, length as int) =~= text@);
}

/// The character of a decimal digit.
fn digit_char(d: u32) -> (c: char)
    requires
        d < 10,
    ensures
        c == digit(d as int),
{
    let byte: u8 = 48 + d as u8;
    byte as char
}

/// The character of a hexadecimal digit.
fn hex_digit_char(d: u16) -> (c: char)
    requires
        d < 16,
    ensures
        c == hex_digit(d as int),
{
    let byte: u8 = if d < 10 { 48 + d as u8 } else { 55 + d as u8 };
    byte as char
}

/// Appends `n` in decimal.
pub fn push_decimal(out: &mut Vec<char>, n: u32)
    ensures
        final(out)@ == old(out)@ + decimal(n as nat),
    decreases n,
{
    if n >= 10 {
        push_decimal(out, n / 10);
    }
    out.push(digit_char(n % 10));
}

/// Appends `v` in decimal, with its sign.
pub fn push_signed_decimal(out: &mut Vec<char>, v: i16)
    ensures
        final(out)@ == old(out)@ + signed_decimal(v as int),
{
    if v < 0 {
        out.push('-');
        let magnitude: i32 = 0 - (v as i32);
        push_decimal(out, magnitude as u32);
        assert(out@ =~= old(out)@ + signed_decimal(v as int));
    } else {
        push_decimal(out, v as u32);
    }
}

/// Appends a quantity in tenths with one decimal place.
pub fn push_tenths(out: &mut Vec<char>, tenths: i16)
    ensures
        final(out)@ == old(out)@ + tenths_text(tenths as int),
{
    let magnitude: u32 = if tenths < 0 { (0 - (tenths as i32)) as u32 } else { tenths as u32 };
    if tenths < 0 {
        out.push('-');
    }
    push_decimal(out, magnitude / 10);
    out.push('.');
    out.push(digit_char(magnitude % 10));
    assert(out@ =~= old(out)@ + tenths_text(tenths as int));
}

/// Appends `v` as `0x` and four upper case hexadecimal digits.
pub fn push_prefixed_hex(out: &mut Vec<char>, v: u16)
    ensures
        final(out)@ == old(out)@ + prefixed_hex(v),
{
    out.push('0');
    out.push('x');
    out.push(hex_digit_char(v / 4096));
    out.push(hex_digit_char((v / 256) % 16));
    out.push(hex_digit_char((v / 16) % 16));
    out.push(hex_digit_char(v % 16));
    assert(out@ =~= old(out)@ + prefixed_hex(v));
}

} // verus!
