//! What an ebm-papst RadiCal fan reports about itself: how fast it is actually turning, how warm
//! it is, what it is costing to run, and, from the sensor wired to it, the air it is moving.
//!
//! The fan keeps these in input registers. Their raw contents are not the quantities they
//! describe: a speed is relative to the maximum the fan is configured for, a temperature is
//! signed, a humidity is a fraction of `65536`. All register addresses and codings are from
//! MODBUS Parameter RadiCal im Spiralgehäuse V1.00, chapter 3.

pub mod power_and_air;
pub mod status;

use vstd::prelude::*;
use crate::set_point;
use crate::text::{
    push_decimal, push_signed_decimal,
    lemma_decimal_u16, lemma_signed_decimal_i16, lemma_tenths_text_i16, signed_decimal,
    decimal, push_tenths, tenths_text, is_ascii_text, joined, joined_budget, lemma_joined_ascii, lemma_joined_length,
    lemma_joined_push, lemma_prefixed_hex, prefixed_hex, push_prefixed_hex, push_str, separator,
};
use crate::trusted::{json_text_bytes, new_json_text, push_json_char, string_from_chars};

verus! {

/// The fan's configured maximum speed, which every speed it reports is relative to. A holding
/// register rather than an input register. See section 2.25
pub const MAXIMUM_SPEED_REGISTER: u16 = 0xD119;

/// Where the run of input registers holding the speed and the two temperatures starts, and how
/// many registers it spans. See section 3.1
pub const STATUS_START: u16 = 0xD010;
pub const STATUS_LENGTH: usize = 8;

/// Where the second run starts, what the fan costs to run (`D027`) through what it is moving
/// (`D033`), and how many registers it spans.
pub const POWER_AND_AIR_START: u16 = 0xD027;
pub const POWER_AND_AIR_LENGTH: usize = 13;

/// A table of flags as the manual prints them: a bit number and the manual's abbreviation.
pub open spec fn flag_views(flags: Seq<(u16, &str)>) -> Seq<(u16, Seq<char>)> {
    flags.map_values(|flag: (u16, &str)| (flag.0, flag.1@))
}

/// The names of the flags set in `value`, in table order, leaving out those reported elsewhere.
pub open spec fn shown_names(value: u16, flags: Seq<(u16, Seq<char>)>, reported_elsewhere: u16) -> Seq<
    Seq<char>,
>
    decreases flags.len(),
{
    if flags.len() == 0 {
        Seq::empty()
    } else {
        let rest = shown_names(value, flags.drop_last(), reported_elsewhere);
        let bit = flags.last().0;
        if value & (1u16 << bit) != 0 && reported_elsewhere & (1u16 << bit) == 0 {
            rest.push(flags.last().1)
        } else {
            rest
        }
    }
}

/// Every bit the table documents, together with those reported elsewhere.
pub open spec fn documented(flags: Seq<(u16, Seq<char>)>, reported_elsewhere: u16) -> u16
    decreases flags.len(),
{
    if flags.len() == 0 {
        reported_elsewhere
    } else {
        documented(flags.drop_last(), reported_elsewhere) | (1u16 << flags.last().0)
    }
}

/// A bit field as text: the names of the documented flags that are set, then any set bit the
/// table does not document as `0x` and four hexadecimal digits, separated by commas; `OK` when
/// there is nothing to show.
pub open spec fn flags_text(value: u16, flags: Seq<(u16, Seq<char>)>, reported_elsewhere: u16) -> Seq<
    char,
> {
    let names = shown_names(value, flags, reported_elsewhere);
    let undocumented = value & !documented(flags, reported_elsewhere);
    let parts = if undocumented != 0 {
        names.push(prefixed_hex(undocumented))
    } else {
        names
    };
    if parts.len() == 0 {
        seq!['O', 'K']
    } else {
        joined(parts)
    }
}

/// What a table of flags can take as text at most: each name and a separator after it.
pub open spec fn flags_budget(flags: Seq<(u16, Seq<char>)>) -> nat
    decreases flags.len(),
{
    if flags.len() == 0 {
        0
    } else {
        flags_budget(flags.drop_last()) + flags.last().1.len() + 2
    }
}

/// The names shown are ASCII when the table's are, and take no more than the table's budget.
proof fn lemma_shown_names(value: u16, flags: Seq<(u16, Seq<char>)>, reported_elsewhere: u16)
    requires
        forall|i: int| 0 <= i < flags.len() ==> is_ascii_text(#[trigger] flags[i].1),
    ensures
        joined_budget(shown_names(value, flags, reported_elsewhere)) <= flags_budget(flags),
        forall|i: int|
            0 <= i < shown_names(value, flags, reported_elsewhere).len() ==> is_ascii_text(
                #[trigger] shown_names(value, flags, reported_elsewhere)[i],
            ),
    decreases flags.len(),
{
    if flags.len() > 0 {
        let rest = flags.drop_last();
        assert forall|i: int| 0 <= i < rest.len() implies is_ascii_text(#[trigger] rest[i].1) by {
            assert(rest[i] == flags[i]);
        }
        lemma_shown_names(value, rest, reported_elsewhere);
        let before = shown_names(value, rest, reported_elsewhere);
        let names = shown_names(value, flags, reported_elsewhere);
        if names.len() > before.len() {
            assert(names.drop_last() =~= before);
            assert(is_ascii_text(flags[flags.len() - 1].1));
            assert forall|i: int| 0 <= i < names.len() implies is_ascii_text(#[trigger] names[i]) by {
                if i < before.len() {
                    assert(names[i] == before[i]);
                }
            }
        }
    }
}

/// A bit field as text is ASCII, and takes no more than the table's budget and a hexadecimal
/// value.
proof fn lemma_flags_text(value: u16, flags: Seq<(u16, Seq<char>)>, reported_elsewhere: u16)
    requires
        forall|i: int| 0 <= i < flags.len() ==> is_ascii_text(#[trigger] flags[i].1),
    ensures
        flags_text(value, flags, reported_elsewhere).len() <= flags_budget(flags) + 8,
        is_ascii_text(flags_text(value, flags, reported_elsewhere)),
{
    lemma_shown_names(value, flags, reported_elsewhere);
    let names = shown_names(value, flags, reported_elsewhere);
    let undocumented = value & !documented(flags, reported_elsewhere);
    let parts = if undocumented != 0 {
        names.push(prefixed_hex(undocumented))
    } else {
        names
    };
    if parts.len() > 0 {
        lemma_joined_length(parts);
        lemma_prefixed_hex(undocumented);
        if undocumented != 0 {
            assert(parts.drop_last() =~= names);
        }
        assert forall|i: int| 0 <= i < parts.len() implies is_ascii_text(#[trigger] parts[i]) by {
            if i < names.len() {
                assert(parts[i] == names[i]);
            }
        }
        lemma_joined_ascii(parts);
    } else {
        assert(is_ascii_text(seq!['O', 'K'])) by {
            assert(seq!['O', 'K'][0] == 'O');
            assert(seq!['O', 'K'][1] == 'K');
        }
    }
}

/// Whether every bit number of a table is one of the sixteen bits of a register.
pub open spec fn bits_in_register(flags: Seq<(u16, Seq<char>)>) -> bool {
    forall|i: int| 0 <= i < flags.len() ==> (#[trigger] flags[i]).0 < 16
}

/// Nothing is shown of a register with no bit set.
proof fn lemma_nothing_set_shows_nothing(flags: Seq<(u16, Seq<char>)>, reported_elsewhere: u16)
    requires
        bits_in_register(flags),
    ensures
        shown_names(0, flags, reported_elsewhere).len() == 0,
    decreases flags.len(),
{
    if flags.len() > 0 {
        let bit = flags.last().0;
        assert(flags[flags.len() - 1].0 < 16);
        assert((0u16 & (1u16 << bit)) == 0) by (bit_vector);
        let rest = flags.drop_last();
        assert forall|i: int| 0 <= i < rest.len() implies (#[trigger] rest[i]).0 < 16 by {
            assert(rest[i] == flags[i]);
        }
        lemma_nothing_set_shows_nothing(rest, reported_elsewhere);
    }
}

/// A register with no bit set reads as `OK`: a healthy fan is the common case and reads as such
/// rather than as an empty string.
pub proof fn lemma_healthy_reads_ok(flags: Seq<(u16, Seq<char>)>, reported_elsewhere: u16)
    requires
        bits_in_register(flags),
    ensures
        flags_text(0, flags, reported_elsewhere) == seq!['O', 'K'],
{
    lemma_nothing_set_shows_nothing(flags, reported_elsewhere);
    let documented_bits = documented(flags, reported_elsewhere);
    assert((0u16 & !documented_bits) == 0) by (bit_vector);
}

/// A set bit the table does not document is never swallowed: the text ends with it in
/// hexadecimal, so it does not read as `OK`.
pub proof fn lemma_undocumented_bit_is_shown(value: u16, flags: Seq<(u16, Seq<char>)>, reported_elsewhere: u16)
    requires
        value & !documented(flags, reported_elsewhere) != 0,
    ensures
        ({
            let text = flags_text(value, flags, reported_elsewhere);
            let hex = prefixed_hex(value & !documented(flags, reported_elsewhere));
            &&& text.len() >= 6
            &&& text.subrange(text.len() - 6, text.len() as int) == hex
            &&& text != seq!['O', 'K']
        }),
{
    let names = shown_names(value, flags, reported_elsewhere);
    let hex = prefixed_hex(value & !documented(flags, reported_elsewhere));
    lemma_prefixed_hex(value & !documented(flags, reported_elsewhere));
    let text = flags_text(value, flags, reported_elsewhere);
    if names.len() > 0 {
        lemma_joined_push(names, hex);
        assert(text.subrange(text.len() - 6, text.len() as int) =~= hex);
    } else {
        assert(names.push(hex).len() == 1);
        assert(text =~= hex);
        assert(text.subrange(0, 6) =~= hex);
    }
}

/// The bits reported elsewhere are documented.
proof fn lemma_reported_bits_are_documented(flags: Seq<(u16, Seq<char>)>, reported_elsewhere: u16)
    ensures
        reported_elsewhere & !documented(flags, reported_elsewhere) == 0,
    decreases flags.len(),
{
    if flags.len() > 0 {
        lemma_reported_bits_are_documented(flags.drop_last(), reported_elsewhere);
        let before = documented(flags.drop_last(), reported_elsewhere);
        let bit = flags.last().0;
        assert(reported_elsewhere & !before == 0 ==> reported_elsewhere & !(before | (1u16 << bit)) == 0)
            by (bit_vector);
    } else {
        assert(reported_elsewhere & !reported_elsewhere == 0) by (bit_vector);
    }
}

/// Setting a bit that is reported elsewhere shows no name either way.
proof fn lemma_reported_bit_changes_no_name(
    value: u16,
    flags: Seq<(u16, Seq<char>)>,
    reported_elsewhere: u16,
)
    requires
        bits_in_register(flags),
    ensures
        shown_names(value | reported_elsewhere, flags, reported_elsewhere) == shown_names(
            value,
            flags,
            reported_elsewhere,
        ),
    decreases flags.len(),
{
    if flags.len() > 0 {
        let rest = flags.drop_last();
        assert forall|i: int| 0 <= i < rest.len() implies (#[trigger] rest[i]).0 < 16 by {
            assert(rest[i] == flags[i]);
        }
        lemma_reported_bit_changes_no_name(value, rest, reported_elsewhere);
        let bit = flags.last().0;
        assert(flags[flags.len() - 1].0 < 16);
        assert(bit < 16 ==> ((((value | reported_elsewhere) & (1u16 << bit)) != 0 && (
        reported_elsewhere & (1u16 << bit)) == 0) == ((value & (1u16 << bit)) != 0 && (
        reported_elsewhere & (1u16 << bit)) == 0))) by (bit_vector);
    }
}

/// A bit reported as a value of its own changes nothing in the text, whether it is set or not:
/// the analog set point break, which is always set on this controller, stays out of the warning
/// string.
pub proof fn lemma_reported_elsewhere_is_left_out(
    value: u16,
    flags: Seq<(u16, Seq<char>)>,
    reported_elsewhere: u16,
)
    requires
        bits_in_register(flags),
    ensures
        flags_text(value | reported_elsewhere, flags, reported_elsewhere) == flags_text(
            value,
            flags,
            reported_elsewhere,
        ),
{
    lemma_reported_bit_changes_no_name(value, flags, reported_elsewhere);
    lemma_reported_bits_are_documented(flags, reported_elsewhere);
    let documented_bits = documented(flags, reported_elsewhere);
    assert(reported_elsewhere & !documented_bits == 0 ==> (value | reported_elsewhere)
        & !documented_bits == value & !documented_bits) by (bit_vector);
}

/// The warning register reads the same with or without the analog set point break, and is healthy
/// or not regardless of it.
pub proof fn lemma_analog_set_point_break_is_left_out(value: u16)
    ensures
        flags_text(value | ANALOG_SET_POINT_BREAK, flag_views(warning_flags()), ANALOG_SET_POINT_BREAK)
            == flags_text(value, flag_views(warning_flags()), ANALOG_SET_POINT_BREAK),
        ((value | ANALOG_SET_POINT_BREAK) & !ANALOG_SET_POINT_BREAK == 0) == (value
            & !ANALOG_SET_POINT_BREAK == 0),
{
    let warnings = flag_views(warning_flags());
    assert(bits_in_register(warnings)) by {
        assert forall|i: int| 0 <= i < warnings.len() implies (#[trigger] warnings[i]).0 < 16 by {
            assert(warnings[i] == (warning_flags()[i].0, warning_flags()[i].1@));
        }
    }
    lemma_reported_elsewhere_is_left_out(value, warnings, ANALOG_SET_POINT_BREAK);
    assert(((value | 0x0400u16) & !0x0400u16 == 0) == (value & !0x0400u16 == 0)) by (bit_vector);
}

/// A list of entries none of which is empty or `OK` does not join to `OK`.
proof fn lemma_joined_is_not_ok(parts: Seq<Seq<char>>)
    requires
        parts.len() > 0,
        forall|i: int| 0 <= i < parts.len() ==> (#[trigger] parts[i]).len() > 0 && parts[i] != seq!['O', 'K'],
    ensures
        joined(parts) != seq!['O', 'K'],
{
    if parts.len() > 1 {
        let rest = parts.drop_last();
        lemma_joined_length(rest);
        assert(rest[rest.len() - 1] == parts[rest.len() - 1]);
        assert(joined_budget(rest) >= rest.last().len() + 2);
        assert(joined(parts).len() >= 4);
    }
}

/// A set bit that is not reported elsewhere, with every set bit documented, shows a name.
proof fn lemma_set_bit_shows_a_name(value: u16, flags: Seq<(u16, Seq<char>)>, reported_elsewhere: u16)
    requires
        bits_in_register(flags),
        value & !documented(flags, reported_elsewhere) == 0,
        value & !reported_elsewhere != 0,
    ensures
        shown_names(value, flags, reported_elsewhere).len() > 0,
    decreases flags.len(),
{
    if flags.len() > 0 {
        let rest = flags.drop_last();
        let bit = flags.last().0;
        assert(flags[flags.len() - 1].0 < 16);
        assert forall|i: int| 0 <= i < rest.len() implies (#[trigger] rest[i]).0 < 16 by {
            assert(rest[i] == flags[i]);
        }
        if !(value & (1u16 << bit) != 0 && reported_elsewhere & (1u16 << bit) == 0) {
            lemma_reported_bits_are_documented(rest, reported_elsewhere);
            let before = documented(rest, reported_elsewhere);
            assert(bit < 16 && value & !(before | (1u16 << bit)) == 0 && reported_elsewhere & !before == 0
                && !(value & (1u16 << bit) != 0 && reported_elsewhere & (1u16 << bit) == 0)
                ==> value & !before == 0) by (bit_vector);
            lemma_set_bit_shows_a_name(value, rest, reported_elsewhere);
        }
    } else {
        assert(value & !reported_elsewhere != 0);
    }
}

/// A bit field reads as `OK` exactly when no bit is set but those reported elsewhere, provided no
/// name in the table is empty or `OK`.
proof fn lemma_ok_exactly_when_clear(value: u16, flags: Seq<(u16, Seq<char>)>, reported_elsewhere: u16)
    requires
        bits_in_register(flags),
        forall|i: int| 0 <= i < flags.len() ==> (#[trigger] flags[i]).1.len() > 0 && flags[i].1 != seq!['O', 'K'],
    ensures
        (flags_text(value, flags, reported_elsewhere) == seq!['O', 'K']) == (value & !reported_elsewhere == 0),
{
    let documented_bits = documented(flags, reported_elsewhere);
    if value & !reported_elsewhere == 0 {
        assert((value | reported_elsewhere) == reported_elsewhere && 0u16 | reported_elsewhere == reported_elsewhere)
            by (bit_vector)
            requires
                value & !reported_elsewhere == 0,
        ;
        lemma_reported_elsewhere_is_left_out(value, flags, reported_elsewhere);
        lemma_reported_elsewhere_is_left_out(0, flags, reported_elsewhere);
        lemma_healthy_reads_ok(flags, reported_elsewhere);
    } else if value & !documented_bits != 0 {
        lemma_undocumented_bit_is_shown(value, flags, reported_elsewhere);
    } else {
        lemma_set_bit_shows_a_name(value, flags, reported_elsewhere);
        let names = shown_names(value, flags, reported_elsewhere);
        lemma_shown_names_come_from(value, flags, reported_elsewhere);
        lemma_joined_is_not_ok(names);
    }
}

/// Every name shown is a name of the table.
proof fn lemma_shown_names_come_from(value: u16, flags: Seq<(u16, Seq<char>)>, reported_elsewhere: u16)
    requires
        forall|i: int| 0 <= i < flags.len() ==> (#[trigger] flags[i]).1.len() > 0 && flags[i].1 != seq!['O', 'K'],
    ensures
        forall|i: int| 0 <= i < shown_names(value, flags, reported_elsewhere).len() ==> (
            #[trigger] shown_names(value, flags, reported_elsewhere)[i]).len() > 0
            && shown_names(value, flags, reported_elsewhere)[i] != seq!['O', 'K'],
    decreases flags.len(),
{
    if flags.len() > 0 {
        let rest = flags.drop_last();
        assert forall|i: int| 0 <= i < rest.len() implies (#[trigger] rest[i]).1.len() > 0
            && rest[i].1 != seq!['O', 'K'] by {
            assert(rest[i] == flags[i]);
        }
        lemma_shown_names_come_from(value, rest, reported_elsewhere);
        let before = shown_names(value, rest, reported_elsewhere);
        let names = shown_names(value, flags, reported_elsewhere);
        assert(flags[flags.len() - 1] == flags.last());
        assert forall|i: int| 0 <= i < names.len() implies (#[trigger] names[i]).len() > 0
            && names[i] != seq!['O', 'K'] by {
            if i < before.len() {
                assert(names[i] == before[i]);
            }
        }
    }
}

/// The names of the two tables as text.
proof fn lemma_flag_names()
    ensures
        flag_views(motor_status_flags()) =~= seq![
            (12u16, "UzLow"@),
            (7u16, "BLK"@),
            (5u16, "TFM"@),
            (4u16, "FB"@),
            (3u16, "SKF"@),
        ],
        flag_views(warning_flags()) =~= seq![
            (12u16, "UzHigh"@),
            (10u16, "Kabelbruch"@),
            (9u16, "n_Low"@),
            (6u16, "UzLow"@),
            (5u16, "TEI_high"@),
            (4u16, "TM_high"@),
        ],
{
}

/// A table's names are none of them empty or `OK`, and its bits lie in the register.
proof fn lemma_table_names(flags: Seq<(u16, Seq<char>)>)
    requires
        flags =~= seq![
            (12u16, "UzLow"@),
            (7u16, "BLK"@),
            (5u16, "TFM"@),
            (4u16, "FB"@),
            (3u16, "SKF"@),
        ] || flags =~= seq![
            (12u16, "UzHigh"@),
            (10u16, "Kabelbruch"@),
            (9u16, "n_Low"@),
            (6u16, "UzLow"@),
            (5u16, "TEI_high"@),
            (4u16, "TM_high"@),
        ],
    ensures
        bits_in_register(flags),
        forall|i: int| 0 <= i < flags.len() ==> (#[trigger] flags[i]).1.len() > 0 && flags[i].1 != seq!['O', 'K'],
{
    reveal_strlit("UzLow");
    reveal_strlit("BLK");
    reveal_strlit("TFM");
    reveal_strlit("FB");
    reveal_strlit("SKF");
    reveal_strlit("UzHigh");
    reveal_strlit("Kabelbruch");
    reveal_strlit("n_Low");
    reveal_strlit("TEI_high");
    reveal_strlit("TM_high");
    assert forall|i: int| 0 <= i < flags.len() implies (#[trigger] flags[i]).1.len() > 0
        && flags[i].1 != seq!['O', 'K'] by {
        let name = flags[i].1;
        if name.len() == 2 {
            assert(name[0] != 'O' || name[1] != 'K');
            assert(seq!['O', 'K'][0] == 'O');
        }
    }
}

/// The motor status reads `OK` exactly when it is healthy, that is when no bit is set.
pub proof fn lemma_motor_status_reads_ok_when_healthy(status: MotorStatus)
    ensures
        (flags_text(status.0, flag_views(motor_status_flags()), 0) == seq!['O', 'K']) == (status.0 == 0),
{
    lemma_flag_names();
    lemma_table_names(flag_views(motor_status_flags()));
    lemma_ok_exactly_when_clear(status.0, flag_views(motor_status_flags()), 0);
    let value = status.0;
    assert((value & !0u16 == 0) == (value == 0)) by (bit_vector);
}

/// The warning register reads `OK` exactly when it is healthy, that is when no bit is set but the
/// analog set point break.
pub proof fn lemma_warning_reads_ok_when_healthy(warning: Warning)
    ensures
        (flags_text(warning.0, flag_views(warning_flags()), ANALOG_SET_POINT_BREAK) == seq!['O', 'K'])
            == (warning.0 & !ANALOG_SET_POINT_BREAK == 0),
{
    lemma_flag_names();
    lemma_table_names(flag_views(warning_flags()));
    lemma_ok_exactly_when_clear(warning.0, flag_views(warning_flags()), ANALOG_SET_POINT_BREAK);
}

/// Appends a bit field as text: see [`flags_text`].
fn write_flags(out: &mut Vec<char>, value: u16, flags: &[(u16, &str)], reported_elsewhere: u16)
    requires
        forall|i: int| 0 <= i < flags@.len() ==> #[trigger] flags@[i].0 < 16,
    ensures
        final(out)@ == old(out)@ + flags_text(value, flag_views(flags@), reported_elsewhere),
{
    let ghost views = flag_views(flags@);
    // Bits reported as their own value are still documented ones, so they must not fall through
    // to the undocumented ones below and be written as hexadecimal
    let mut documented_bits = reported_elsewhere;
    let mut written = false;
    let mut index: usize = 0;
    proof {
        reveal_strlit(", ");
        assert(views.subrange(0, 0) =~= Seq::<(u16, Seq<char>)>::empty());
    }
    while index < flags.len()
        invariant
            views == flag_views(flags@),
            forall|i: int| 0 <= i < flags@.len() ==> #[trigger] flags@[i].0 < 16,
            index <= flags@.len(),
            documented_bits == documented(views.subrange(0, index as int), reported_elsewhere),
            written == (shown_names(value, views.subrange(0, index as int), reported_elsewhere).len()
                > 0),
            out@ == old(out)@ + joined(
                shown_names(value, views.subrange(0, index as int), reported_elsewhere),
            ),
            ", "@ == separator(),
        decreases flags@.len() - index,
    {
        let (bit, name) = flags[index];
        let mask: u16 = 1u16 << bit;
        let ghost before = shown_names(value, views.subrange(0, index as int), reported_elsewhere);
        proof {
            assert(views.subrange(0, index + 1).drop_last() =~= views.subrange(0, index as int));
            assert(views.subrange(0, index + 1).last() == (bit, name@));
        }
        documented_bits = documented_bits | mask;
        if value & mask != 0 && reported_elsewhere & mask == 0 {
            if written {
                push_str(out, ", ");
                push_str(out, name);
                proof {
                    lemma_joined_push(before, name@);
                    assert(out@ =~= old(out)@ + joined(before.push(name@)));
                }
            } else {
                push_str(out, name);
                proof {
                    assert(before.push(name@).len() == 1);
                    assert(joined(before.push(name@)) == name@);
                    assert(out@ =~= old(out)@ + joined(before.push(name@)));
                }
            }
            written = true;
        }
        index = index + 1;
    }
    proof {
        assert(views.subrange(0, flags@.len() as int) =~= views);
    }
    let ghost names = shown_names(value, views, reported_elsewhere);
    let undocumented = value & !documented_bits;
    if undocumented != 0 {
        if written {
            push_str(out, ", ");
            push_prefixed_hex(out, undocumented);
            proof {
                lemma_joined_push(names, prefixed_hex(undocumented));
                assert(out@ =~= old(out)@ + joined(names.push(prefixed_hex(undocumented))));
            }
        } else {
            push_prefixed_hex(out, undocumented);
            proof {
                assert(names.push(prefixed_hex(undocumented)).len() == 1);
                assert(out@ =~= old(out)@ + joined(names.push(prefixed_hex(undocumented))));
            }
        }
        written = true;
    }
    if !written {
        push_str(out, "OK");
        proof {
            reveal_strlit("OK");
            assert(out@ =~= old(out)@ + flags_text(value, views, reported_elsewhere));
        }
    }
}

/// The flags of the motor status register, section 3.9, most significant bit first. `FB` is set
/// alongside whichever fault actually happened, so it is a summary rather than a fault of its own
pub open spec fn motor_status_flags() -> Seq<(u16, &'static str)> {
    seq![(12u16, "UzLow"), (7u16, "BLK"), (5u16, "TFM"), (4u16, "FB"), (3u16, "SKF")]
}

/// The flags of the warning register, section 3.10, most significant bit first.
pub open spec fn warning_flags() -> Seq<(u16, &'static str)> {
    seq![
        (12u16, "UzHigh"),
        (10u16, "Kabelbruch"),
        (9u16, "n_Low"),
        (6u16, "UzLow"),
        (5u16, "TEI_high"),
        (4u16, "TM_high"),
    ]
}

/// `D011`, section 3.9. A set bit is a fault present on the fan right now
#[derive(Debug, Clone, Copy, PartialEq, Eq, Structural)]
pub struct MotorStatus(pub u16);

impl MotorStatus {
    fn flags() -> (flags: [(u16, &'static str); 5])
        ensures
            flags@ == motor_status_flags(),
    {
        let flags = [(12u16, "UzLow"), (7u16, "BLK"), (5u16, "TFM"), (4u16, "FB"), (3u16, "SKF")];
        assert(flags@ =~= motor_status_flags());
        flags
    }

    /// Whether the fan is reporting no fault at all. Any bit set means something, including one
    /// the manual does not document
    pub fn is_healthy(&self) -> (healthy: bool)
        ensures
            healthy == (self.0 == 0),
    {
        self.0 == 0
    }

    /// The faults as the manual's abbreviations, most significant first, with any undocumented
    /// bits as hexadecimal; `OK` when there are none.
    pub fn to_string(&self) -> (text: String)
        ensures
            text@ == flags_text(self.0, flag_views(motor_status_flags()), 0),
    {
        let mut out: Vec<char> = Vec::new();
        let flags = Self::flags();
        write_flags(&mut out, self.0, &flags, 0);
        string_from_chars(out)
    }
}

/// Bit 10 of the warning register, `Kabelbruch am Analogeingang für den Sollwert`.
///
/// Reported on its own rather than among the others because it is structurally always set here:
/// the set point arrives over RS-485, so the analog input this watches is deliberately unwired.
pub const ANALOG_SET_POINT_BREAK: u16 = 0x0400;

/// `D012`, section 3.10. The same shape as [`MotorStatus`], one step before the matching fault
#[derive(Debug, Clone, Copy, PartialEq, Eq, Structural)]
pub struct Warning(pub u16);

impl Warning {
    fn flags() -> (flags: [(u16, &'static str); 6])
        ensures
            flags@ == warning_flags(),
    {
        let flags = [
            (12u16, "UzHigh"),
            (10u16, "Kabelbruch"),
            (9u16, "n_Low"),
            (6u16, "UzLow"),
            (5u16, "TEI_high"),
            (4u16, "TM_high"),
        ];
        assert(flags@ =~= warning_flags());
        flags
    }

    /// Whether the analog set point input reads as broken. Always true on this controller
    pub fn is_analog_set_point_broken(&self) -> (broken: bool)
        ensures
            broken == (self.0 & ANALOG_SET_POINT_BREAK != 0),
    {
        self.0 & ANALOG_SET_POINT_BREAK != 0
    }

    /// Whether the fan is reporting anything worth acting on. The analog set point break does not
    /// count: it is a property of how this controller is wired rather than of how the fan is doing
    pub fn is_healthy(&self) -> (healthy: bool)
        ensures
            healthy == (self.0 & !ANALOG_SET_POINT_BREAK == 0),
    {
        self.0 & !ANALOG_SET_POINT_BREAK == 0
    }

    /// The warnings as the manual's abbreviations, most significant first, leaving out the analog
    /// set point break, with any undocumented bits as hexadecimal; `OK` when there are none.
    pub fn to_string(&self) -> (text: String)
        ensures
            text@ == flags_text(self.0, flag_views(warning_flags()), ANALOG_SET_POINT_BREAK),
    {
        let mut out: Vec<char> = Vec::new();
        let flags = Self::flags();
        write_flags(&mut out, self.0, &flags, ANALOG_SET_POINT_BREAK);
        string_from_chars(out)
    }
}

/// A quantity the fan reports in tenths of its unit, carried as those tenths rather than as a
/// float: a tenth is exactly what the sensor resolves
#[derive(Debug, Clone, Copy, PartialEq, Eq, Structural, PartialOrd, Ord)]
pub struct Tenths(pub i16);

impl Tenths {
    /// The quantity with one decimal place, the sign in front of the whole of it.
    pub fn to_string(&self) -> (text: String)
        ensures
            text@ == tenths_text(self.0 as int),
    {
        let mut out: Vec<char> = Vec::new();
        push_tenths(&mut out, self.0);
        string_from_chars(out)
    }
}

/// One poll of a fan, decoded into the units the values actually describe
#[derive(Debug, Clone, Copy, PartialEq, Eq, Structural)]
pub struct Reading {
    /// Revolutions per minute, or `None` while the fan's configured maximum speed is not known
    pub speed: Option<u16>,
    /// What the fan says is currently wrong with it, if anything
    pub motor_status: MotorStatus,
    /// What the fan says is close to going wrong
    pub warning: Warning,
    /// Degrees celsius, and genuinely signed
    pub motor_temperature: i16,
    /// Degrees celsius, measured inside the electronics housing
    pub electronics_temperature: i16,
    /// Watts the fan is drawing right now
    pub power: u16,
    /// Degrees celsius of the air itself, to a tenth
    pub air_temperature: Tenths,
    /// Relative humidity of the air in percent, to a tenth
    pub air_humidity: Tenths,
    /// Cubic metres an hour the fan is moving
    pub volume_flow: u16,
}

/// A register read as the two's complement value it holds.
pub open spec fn signed(raw: u16) -> int {
    if raw < 0x8000 {
        raw as int
    } else {
        raw as int - 0x10000
    }
}

/// The speed the fan reports, a fraction of [`set_point::MAX`] that stands for its configured
/// maximum, in revolutions per minute; rounded down, and no more than a `u16` holds.
pub open spec fn speed_of(reported: u16, maximum: u16) -> u16 {
    let scaled = reported as int * maximum as int / set_point::MAX as int;
    if scaled > 0xFFFF {
        0xFFFF
    } else {
        scaled as u16
    }
}

/// Section 3.17.3: the humidity is the raw value over `65536`, here in tenths of a percent,
/// rounded down.
pub open spec fn humidity_of(raw: u16) -> i16 {
    (raw as int * 1000 / 65536) as i16
}

/// The register reinterpreted as a signed value.
fn to_signed(raw: u16) -> (value: i16)
    ensures
        value as int == signed(raw),
{
    let value = raw as i16;
    assert(value as int == signed(raw)) by (bit_vector)
        requires
            value == raw as i16,
    ;
    value
}

/// The speed in revolutions per minute: see [`speed_of`]. The multiplication comes before the
/// division so that the rounding happens once, and it is done in `u32` because the product does
/// not fit 16 bits; even the full `u16` range on both sides stays under `u32::MAX`.
pub fn speed(reported: u16, maximum: u16) -> (rpm: u16)
    ensures
        rpm == speed_of(reported, maximum),
{
    assert(reported as u32 * maximum as u32 <= 0xFFFF * 0xFFFF) by (nonlinear_arith);
    let scaled: u32 = reported as u32 * maximum as u32 / set_point::MAX as u32;
    // Saturating, because a fan configured with a maximum near the top of `u16` reports up to
    // 1.02 times it, which no longer fits
    if scaled > 0xFFFF {
        0xFFFF
    } else {
        scaled as u16
    }
}

/// The relative humidity in tenths of a percent: see [`humidity_of`]. The largest raw value gives
/// `999`, so the result always fits.
pub fn relative_humidity(raw: u16) -> (humidity: Tenths)
    ensures
        humidity.0 == humidity_of(raw),
        0 <= humidity.0 <= 999,
{
    let tenths: u32 = raw as u32 * 1000 / 65536;
    assert(tenths <= 999) by (nonlinear_arith)
        requires
            tenths == raw as u32 * 1000 / 65536,
            raw <= 0xFFFF,
    ;
    Tenths(tenths as i16)
}

/// The reading the two blocks of input registers describe.
pub open spec fn decoded(status: Seq<u16>, power_and_air_block: Seq<u16>, maximum_speed: Option<u16>) -> Reading {
    Reading {
        speed: match maximum_speed {
            Some(maximum) => Some(speed_of(status[status::ACTUAL_SPEED as int], maximum)),
            None => None,
        },
        motor_status: MotorStatus(status[status::MOTOR_STATUS as int]),
        warning: Warning(status[status::WARNING as int]),
        motor_temperature: signed(status[status::MOTOR_TEMPERATURE as int]) as i16,
        electronics_temperature: signed(status[status::ELECTRONICS_TEMPERATURE as int]) as i16,
        power: power_and_air_block[power_and_air::CURRENT_POWER as int],
        air_temperature: Tenths(signed(power_and_air_block[power_and_air::AIR_TEMPERATURE as int]) as i16),
        air_humidity: Tenths(humidity_of(power_and_air_block[power_and_air::AIR_HUMIDITY as int])),
        volume_flow: power_and_air_block[power_and_air::VOLUME_FLOW as int],
    }
}

/// Turns the two blocks of input registers into the quantities they describe.
///
/// `maximum_speed` is the contents of [`MAXIMUM_SPEED_REGISTER`], which only the speed needs and
/// which is read once rather than on every poll
pub fn decode(
    status: &[u16; STATUS_LENGTH],
    power_and_air_block: &[u16; POWER_AND_AIR_LENGTH],
    maximum_speed: Option<u16>,
) -> (reading: Reading)
    ensures
        reading == decoded(status@, power_and_air_block@, maximum_speed),
        reading.speed == (match maximum_speed {
            Some(maximum) => Some(speed_of(status@[status::ACTUAL_SPEED as int], maximum)),
            None => None,
        }),
        reading.motor_status == MotorStatus(status@[status::MOTOR_STATUS as int]),
        reading.warning == Warning(status@[status::WARNING as int]),
        reading.motor_temperature as int == signed(status@[status::MOTOR_TEMPERATURE as int]),
        reading.electronics_temperature as int == signed(
            status@[status::ELECTRONICS_TEMPERATURE as int],
        ),
        reading.power == power_and_air_block@[power_and_air::CURRENT_POWER as int],
        reading.air_temperature.0 as int == signed(
            power_and_air_block@[power_and_air::AIR_TEMPERATURE as int],
        ),
        reading.air_humidity.0 == humidity_of(
            power_and_air_block@[power_and_air::AIR_HUMIDITY as int],
        ),
        reading.volume_flow == power_and_air_block@[power_and_air::VOLUME_FLOW as int],
{
    let speed = match maximum_speed {
        Some(maximum) => Some(speed(status[status::ACTUAL_SPEED], maximum)),
        None => None,
    };
    Reading {
        speed,
        motor_status: MotorStatus(status[status::MOTOR_STATUS]),
        warning: Warning(status[status::WARNING]),
        motor_temperature: to_signed(status[status::MOTOR_TEMPERATURE]),
        electronics_temperature: to_signed(status[status::ELECTRONICS_TEMPERATURE]),
        power: power_and_air_block[power_and_air::CURRENT_POWER],
        air_temperature: Tenths(to_signed(power_and_air_block[power_and_air::AIR_TEMPERATURE])),
        air_humidity: relative_humidity(power_and_air_block[power_and_air::AIR_HUMIDITY]),
        volume_flow: power_and_air_block[power_and_air::VOLUME_FLOW],
    }
}

/// What a [`Settling`] watcher holds: the flow of the last successful reading, how many
/// consecutive readings have been within the tolerance of the one before, how many of those mean
/// the fan has arrived, how many readings have been taken, and how many may be taken before giving
/// up.
pub ghost struct SettlingView {
    pub previous: Option<u16>,
    pub steady: u8,
    pub required: u8,
    pub taken: u8,
    pub limit: u8,
}

/// `a + 1`, but no more than a `u8` holds.
pub open spec fn saturating_increment(a: u8) -> u8 {
    if a == 255 {
        255
    } else {
        (a + 1) as u8
    }
}

/// Whether two flows are close enough to count as the same.
pub open spec fn within_tolerance(flow: u16, previous: u16) -> bool {
    -(Settling::TOLERANCE as int) <= flow - previous <= Settling::TOLERANCE as int
}

impl SettlingView {
    /// A watcher that has seen nothing yet, for a cadence of `interval_milliseconds`.
    pub open spec fn initial(interval_milliseconds: u32) -> SettlingView {
        SettlingView {
            previous: None,
            steady: 0,
            required: spec_readings_in(Settling::STEADY_FOR_MILLISECONDS, interval_milliseconds),
            taken: 0,
            limit: spec_readings_in(Settling::GIVE_UP_AFTER_MILLISECONDS, interval_milliseconds),
        }
    }

    /// The watcher after one more reading: the flow it carried, or `None` when the poll failed.
    ///
    /// A failed poll says nothing about the flow, so it breaks the run of steady readings but
    /// keeps the last known flow to compare the next one against; it still counts as taken.
    pub open spec fn next(self, volume_flow: Option<u16>) -> SettlingView {
        let steady = match volume_flow {
            Some(flow) => match self.previous {
                Some(previous) => if within_tolerance(flow, previous) {
                    saturating_increment(self.steady)
                } else {
                    0
                },
                None => self.steady,
            },
            None => 0,
        };
        SettlingView {
            previous: match volume_flow {
                Some(flow) => Some(flow),
                None => self.previous,
            },
            steady,
            required: self.required,
            taken: saturating_increment(self.taken),
            limit: self.limit,
        }
    }

    /// What the watcher says after a reading brought it to this state.
    pub open spec fn progress(self) -> Progress {
        if self.steady >= self.required {
            Progress::Settled
        } else if self.taken >= self.limit {
            Progress::GaveUp
        } else {
            Progress::Moving
        }
    }

    /// The watcher after each of `flows` in turn.
    pub open spec fn after(self, flows: Seq<Option<u16>>) -> SettlingView
        decreases flows.len(),
    {
        if flows.len() == 0 {
            self
        } else {
            self.after(flows.drop_last()).next(flows.last())
        }
    }
}

/// How many readings at `interval_milliseconds` fit into `span_milliseconds`, never fewer than
/// one and never more than a `u8` holds. A zero interval counts as one millisecond.
pub open spec fn spec_readings_in(span_milliseconds: u32, interval_milliseconds: u32) -> u8 {
    let interval: int = if interval_milliseconds == 0 { 1 } else { interval_milliseconds as int };
    let count: int = span_milliseconds as int / interval;
    if count < 1 {
        1
    } else if count > 255 {
        255
    } else {
        count as u8
    }
}

/// How many readings at `interval_milliseconds` fit into `span_milliseconds`: see
/// [`spec_readings_in`].
pub fn readings_in(span_milliseconds: u32, interval_milliseconds: u32) -> (count: u8)
    ensures
        count == spec_readings_in(span_milliseconds, interval_milliseconds),
{
    let interval: u32 = if interval_milliseconds < 1 { 1 } else { interval_milliseconds };
    let count: u32 = span_milliseconds / interval;
    if count < 1 {
        1
    } else if count > 255 {
        255
    } else {
        count as u8
    }
}

/// What one reading says about whether the fan has arrived
#[derive(Debug, Clone, Copy, PartialEq, Eq, Structural)]
pub enum Progress {
    /// Still on its way. Keep reading quickly
    Moving,
    /// Arrived. The reading just taken is the one worth keeping
    Settled,
    /// It has been given long enough and the flow is still not holding still. Stop reading
    /// quickly anyway
    GaveUp,
}

/// Watching a fan arrive at a new speed.
///
/// The fans travel to a commanded speed rather than step to it, and how long that takes depends
/// on how far they are going. So the poll that follows a speed change reads quickly and watches
/// the flow until it stops moving. The flow is the signal because it is reported in whole m³/h,
/// so it is quieter than an rpm that wanders while the fan holds station.
#[derive(Debug, Clone, Copy)]
pub struct Settling {
    previous: Option<u16>,
    steady: u8,
    required: u8,
    taken: u8,
    limit: u8,
}

impl View for Settling {
    type V = SettlingView;

    closed spec fn view(&self) -> SettlingView {
        SettlingView {
            previous: self.previous,
            steady: self.steady,
            required: self.required,
            taken: self.taken,
            limit: self.limit,
        }
    }
}

impl Settling {
    /// How close two consecutive readings have to be to count as the same flow. Not equality: the
    /// flow wanders a whole unit while the fan is holding station
    pub const TOLERANCE: u16 = 1;

    /// How long the flow has to hold still before the fan counts as arrived. A duration rather
    /// than a number of readings, so that a shorter cadence samples more finely without making
    /// the test weaker
    pub const STEADY_FOR_MILLISECONDS: u32 = 15_000;

    /// How long to keep reading quickly before giving up and going back to the ordinary
    /// interval. A fan that has stopped answering fails every poll by timing out while holding
    /// the Modbus bus, so the fast cadence has to end whether or not anything ever settles
    pub const GIVE_UP_AFTER_MILLISECONDS: u32 = 120_000;

    /// Builds a watcher for the cadence it is going to be polled at. Both counts come from the
    /// durations above.
    pub fn at_interval(interval_milliseconds: u32) -> (settling: Self)
        ensures
            settling@ == SettlingView::initial(interval_milliseconds),
    {
        Self {
            previous: None,
            steady: 0,
            required: readings_in(Self::STEADY_FOR_MILLISECONDS, interval_milliseconds),
            taken: 0,
            limit: readings_in(Self::GIVE_UP_AFTER_MILLISECONDS, interval_milliseconds),
        }
    }

    /// How many readings this has taken, for reporting when it gives up
    pub fn readings_taken(&self) -> (taken: u8)
        ensures
            taken == self@.taken,
    {
        self.taken
    }

    /// How many consecutive steady readings mean the fan has arrived
    pub fn required(&self) -> (required: u8)
        ensures
            required == self@.required,
    {
        self.required
    }

    /// How many readings may be taken before giving up
    pub fn limit(&self) -> (limit: u8)
        ensures
            limit == self@.limit,
    {
        self.limit
    }

    /// Takes one reading's flow, or `None` when that poll failed, and says whether to keep going.
    pub fn observe(&mut self, volume_flow: Option<u16>) -> (progress: Progress)
        ensures
            final(self)@ == old(self)@.next(volume_flow),
            progress == final(self)@.progress(),
    {
        self.taken = if self.taken == 255 { 255 } else { self.taken + 1 };
        match volume_flow {
            Some(flow) => {
                match self.previous {
                    Some(previous) => {
                        let difference = if flow >= previous { flow - previous } else { previous - flow };
                        if difference <= Self::TOLERANCE {
                            self.steady = if self.steady == 255 { 255 } else { self.steady + 1 };
                        } else {
                            self.steady = 0;
                        }
                    },
                    // Nothing to compare the first reading against
                    None => {},
                }
                self.previous = Some(flow);
            },
            // The last known flow is kept to compare the next successful reading against, but
            // the run of steady ones is broken: what happened in between is unknown
            None => self.steady = 0,
        }
        if self.steady >= self.required {
            Progress::Settled
        } else if self.taken >= self.limit {
            Progress::GaveUp
        } else {
            Progress::Moving
        }
    }
}

/// Counts derived from the cadence are never zero: at least one steady reading is required, and
/// at least one reading is allowed.
pub proof fn lemma_counts_are_positive(interval_milliseconds: u32)
    ensures
        SettlingView::initial(interval_milliseconds).required >= 1,
        SettlingView::initial(interval_milliseconds).limit >= 1,
{
}

/// A failed poll never settles a watcher made for a cadence: it breaks the run of steady
/// readings, and at least one steady reading is always required.
pub proof fn lemma_failed_poll_never_settles(interval_milliseconds: u32, flows: Seq<Option<u16>>)
    ensures
        SettlingView::initial(interval_milliseconds).after(flows).next(None).progress()
            != Progress::Settled,
{
    lemma_required_is_kept(SettlingView::initial(interval_milliseconds), flows);
}

/// Readings never change how many steady ones are required, nor the cap.
pub proof fn lemma_required_is_kept(start: SettlingView, flows: Seq<Option<u16>>)
    ensures
        start.after(flows).required == start.required,
        start.after(flows).limit == start.limit,
    decreases flows.len(),
{
    if flows.len() > 0 {
        lemma_required_is_kept(start, flows.drop_last());
    }
}

/// Every reading counts as taken, successful or not, up to what a `u8` holds.
pub proof fn lemma_readings_are_counted(interval_milliseconds: u32, flows: Seq<Option<u16>>)
    ensures
        SettlingView::initial(interval_milliseconds).after(flows).taken == if flows.len() > 255 {
            255
        } else {
            flows.len()
        },
    decreases flows.len(),
{
    if flows.len() > 0 {
        lemma_readings_are_counted(interval_milliseconds, flows.drop_last());
    }
}

/// A fan that never holds still does not hold the fast cadence forever: from a fresh watcher,
/// the reading that reaches the cap, at the latest, says `Settled` or `GaveUp`, whatever the
/// flows were and whether or not the polls succeeded.
pub proof fn lemma_gives_up_by_the_cap(interval_milliseconds: u32, flows: Seq<Option<u16>>)
    requires
        flows.len() == SettlingView::initial(interval_milliseconds).limit,
    ensures
        SettlingView::initial(interval_milliseconds).after(flows).progress() != Progress::Moving,
{
    lemma_readings_are_counted(interval_milliseconds, flows);
    lemma_required_is_kept(SettlingView::initial(interval_milliseconds), flows);
}

/// The flow of the last successful reading among `flows`, if any succeeded.
pub open spec fn last_flow(flows: Seq<Option<u16>>) -> Option<u16>
    decreases flows.len(),
{
    if flows.len() == 0 {
        None
    } else {
        match flows.last() {
            Some(flow) => Some(flow),
            None => last_flow(flows.drop_last()),
        }
    }
}

/// How many readings at the end of `flows` are steady one after the other: a reading is steady
/// when it succeeded and is within the tolerance of the last successful reading before it.
pub open spec fn steady_run(flows: Seq<Option<u16>>) -> nat
    decreases flows.len(),
{
    if flows.len() == 0 {
        0
    } else {
        match (flows.last(), last_flow(flows.drop_last())) {
            (Some(flow), Some(previous)) => if within_tolerance(flow, previous) {
                steady_run(flows.drop_last()) + 1
            } else {
                0
            },
            _ => 0,
        }
    }
}

/// A count as a `u8` holds it when counting saturates.
pub open spec fn capped(count: nat) -> u8 {
    if count > 255 {
        255
    } else {
        count as u8
    }
}

/// The watcher after a run of readings: the last known flow, the steady run and the readings
/// taken, the two counts as far as a `u8` holds them.
proof fn lemma_state_after_a_run(interval_milliseconds: u32, flows: Seq<Option<u16>>)
    ensures
        SettlingView::initial(interval_milliseconds).after(flows).previous == last_flow(flows),
        SettlingView::initial(interval_milliseconds).after(flows).steady == capped(steady_run(flows)),
        SettlingView::initial(interval_milliseconds).after(flows).taken == capped(flows.len()),
    decreases flows.len(),
{
    if flows.len() > 0 {
        let before = flows.drop_last();
        lemma_state_after_a_run(interval_milliseconds, before);
        if flows.last() is Some && last_flow(before) is None {
            lemma_no_flow_no_run(before);
        }
    }
}

/// Without a successful reading there is no steady run.
proof fn lemma_no_flow_no_run(flows: Seq<Option<u16>>)
    requires
        last_flow(flows) is None,
    ensures
        steady_run(flows) == 0,
    decreases flows.len(),
{
}

/// What a watcher made for a cadence says after a whole run of readings: settled once the steady
/// run at the end reaches the required count, otherwise given up once the readings taken reach
/// the cap, and otherwise still moving. A failed reading, or the first successful one, ends the
/// steady run, so neither ever settles.
pub proof fn lemma_progress_after_a_run(interval_milliseconds: u32, flows: Seq<Option<u16>>)
    ensures
        SettlingView::initial(interval_milliseconds).after(flows).progress() == (if capped(steady_run(flows))
            >= spec_readings_in(Settling::STEADY_FOR_MILLISECONDS, interval_milliseconds) {
            Progress::Settled
        } else if capped(flows.len()) >= spec_readings_in(Settling::GIVE_UP_AFTER_MILLISECONDS, interval_milliseconds) {
            Progress::GaveUp
        } else {
            Progress::Moving
        }),
{
    lemma_state_after_a_run(interval_milliseconds, flows);
    lemma_required_is_kept(SettlingView::initial(interval_milliseconds), flows);
}

/// Two flows count as the same exactly when they lie within the tolerance of each other, whichever
/// of them came first.
pub proof fn lemma_steady_is_symmetric(flow: u16, previous: u16)
    ensures
        within_tolerance(flow, previous) == within_tolerance(previous, flow),
        within_tolerance(flow, previous) <==> (flow <= previous + Settling::TOLERANCE
            && previous <= flow + Settling::TOLERANCE),
{
}

/// A flow that is still moving never reads as settled: when every successful reading differs
/// from the last successful one before it by more than the tolerance, up or down, the watcher
/// says `Moving` or `GaveUp` after each of them, never `Settled`.
pub proof fn lemma_moving_flow_never_settles(interval_milliseconds: u32, flows: Seq<Option<u16>>)
    requires
        forall|j: int|
            #![trigger flows[j]]
            0 <= j < flows.len() ==> (flows[j] matches Some(flow) && last_flow(flows.take(j)) matches Some(
                previous,
            ) ==> flow > previous + Settling::TOLERANCE || previous > flow + Settling::TOLERANCE),
    ensures
        SettlingView::initial(interval_milliseconds).after(flows).progress() != Progress::Settled,
{
    lemma_progress_after_a_run(interval_milliseconds, flows);
    lemma_counts_are_positive(interval_milliseconds);
    if flows.len() > 0 {
        let last = flows.len() - 1;
        assert(flows.take(last) =~= flows.drop_last());
        assert(flows[last] == flows.last());
    }
    assert(steady_run(flows) == 0);
}

/// Enough for every field at its longest, including the minus signs and a `null` speed: see
/// [`lemma_json_fits`].
pub const JSON_CAPACITY: usize = 384;

/// The JSON object Home Assistant reads for one fan. An unknown speed is written as `null`.
pub open spec fn json_text(reading: Reading) -> Seq<char> {
    "{\"speed\":"@ + (match reading.speed {
        Some(speed) => decimal(speed as nat),
        None => "null"@,
    }) + ",\"motor_temperature\":"@ + signed_decimal(reading.motor_temperature as int)
        + ",\"electronics_temperature\":"@ + signed_decimal(
        reading.electronics_temperature as int,
    ) + ",\"power\":"@ + decimal(reading.power as nat) + ",\"motor_status\":\""@ + flags_text(
        reading.motor_status.0,
        flag_views(motor_status_flags()),
        0,
    ) + "\",\"warning\":\""@ + flags_text(
        reading.warning.0,
        flag_views(warning_flags()),
        ANALOG_SET_POINT_BREAK,
    ) + "\",\"analog_set_point\":\""@ + (if reading.warning.0 & ANALOG_SET_POINT_BREAK != 0 {
        "Kabelbruch"@
    } else {
        "OK"@
    }) + "\",\"air_temperature\":"@ + tenths_text(reading.air_temperature.0 as int)
        + ",\"air_humidity\":"@ + tenths_text(reading.air_humidity.0 as int) + ",\"volume_flow\":"@
        + decimal(reading.volume_flow as nat) + "}"@
}

/// The bytes of ASCII text, one for each character.
pub open spec fn ascii_bytes(text: Seq<char>) -> Seq<u8> {
    text.map_values(|c: char| c as u8)
}

/// Every literal of the JSON object and of the flag tables, with how long it is.
proof fn lemma_literals()
    ensures
        "{\"speed\":"@.len() == 9,
        "null"@.len() == 4,
        ",\"motor_temperature\":"@.len() == 21,
        ",\"electronics_temperature\":"@.len() == 27,
        ",\"power\":"@.len() == 9,
        ",\"motor_status\":\""@.len() == 17,
        "\",\"warning\":\""@.len() == 13,
        "\",\"analog_set_point\":\""@.len() == 22,
        "Kabelbruch"@.len() == 10,
        "OK"@.len() == 2,
        "\",\"air_temperature\":"@.len() == 20,
        ",\"air_humidity\":"@.len() == 16,
        ",\"volume_flow\":"@.len() == 15,
        "}"@.len() == 1,
        is_ascii_text("{\"speed\":"@),
        is_ascii_text("null"@),
        is_ascii_text(",\"motor_temperature\":"@),
        is_ascii_text(",\"electronics_temperature\":"@),
        is_ascii_text(",\"power\":"@),
        is_ascii_text(",\"motor_status\":\""@),
        is_ascii_text("\",\"warning\":\""@),
        is_ascii_text("\",\"analog_set_point\":\""@),
        is_ascii_text("Kabelbruch"@),
        is_ascii_text("OK"@),
        is_ascii_text("\",\"air_temperature\":"@),
        is_ascii_text(",\"air_humidity\":"@),
        is_ascii_text(",\"volume_flow\":"@),
        is_ascii_text("}"@),
{
    reveal_strlit("{\"speed\":");
    reveal_strlit("null");
    reveal_strlit(",\"motor_temperature\":");
    reveal_strlit(",\"electronics_temperature\":");
    reveal_strlit(",\"power\":");
    reveal_strlit(",\"motor_status\":\"");
    reveal_strlit("\",\"warning\":\"");
    reveal_strlit("\",\"analog_set_point\":\"");
    reveal_strlit("Kabelbruch");
    reveal_strlit("OK");
    reveal_strlit("\",\"air_temperature\":");
    reveal_strlit(",\"air_humidity\":");
    reveal_strlit(",\"volume_flow\":");
    reveal_strlit("}");
}

/// The flag tables as text: ASCII, and at most 34 characters for the motor status and 61 for the
/// warnings.
proof fn lemma_flag_tables(motor_status: u16, warning: u16)
    ensures
        flags_text(motor_status, flag_views(motor_status_flags()), 0).len() <= 34,
        is_ascii_text(flags_text(motor_status, flag_views(motor_status_flags()), 0)),
        flags_text(warning, flag_views(warning_flags()), ANALOG_SET_POINT_BREAK).len() <= 61,
        is_ascii_text(flags_text(warning, flag_views(warning_flags()), ANALOG_SET_POINT_BREAK)),
{
    reveal_strlit("UzLow");
    reveal_strlit("BLK");
    reveal_strlit("TFM");
    reveal_strlit("FB");
    reveal_strlit("SKF");
    reveal_strlit("UzHigh");
    reveal_strlit("Kabelbruch");
    reveal_strlit("n_Low");
    reveal_strlit("TEI_high");
    reveal_strlit("TM_high");
    let motor = flag_views(motor_status_flags());
    let warnings = flag_views(warning_flags());
    assert(motor =~= seq![
        (12u16, "UzLow"@),
        (7u16, "BLK"@),
        (5u16, "TFM"@),
        (4u16, "FB"@),
        (3u16, "SKF"@),
    ]);
    assert(warnings =~= seq![
        (12u16, "UzHigh"@),
        (10u16, "Kabelbruch"@),
        (9u16, "n_Low"@),
        (6u16, "UzLow"@),
        (5u16, "TEI_high"@),
        (4u16, "TM_high"@),
    ]);
    assert forall|i: int| 0 <= i < motor.len() implies is_ascii_text(#[trigger] motor[i].1) by {
        let name = motor[i].1;
        assert forall|j: int| 0 <= j < name.len() implies (#[trigger] name[j] as u32) < 128 by {}
    }
    assert forall|i: int| 0 <= i < warnings.len() implies is_ascii_text(#[trigger] warnings[i].1) by {
        let name = warnings[i].1;
        assert forall|j: int| 0 <= j < name.len() implies (#[trigger] name[j] as u32) < 128 by {}
    }
    assert(flags_budget(motor) == 26) by {
        reveal_with_fuel(flags_budget, 6);
    }
    assert(flags_budget(warnings) == 53) by {
        reveal_with_fuel(flags_budget, 7);
    }
    lemma_flags_text(motor_status, motor, 0);
    lemma_flags_text(warning, warnings, ANALOG_SET_POINT_BREAK);
}

/// Two ASCII texts one after the other are ASCII.
proof fn lemma_ascii_concat(front: Seq<char>, back: Seq<char>)
    requires
        is_ascii_text(front),
        is_ascii_text(back),
    ensures
        is_ascii_text(front + back),
{
    let whole = front + back;
    assert forall|i: int| 0 <= i < whole.len() implies (#[trigger] whole[i] as u32) < 128 by {
        if i < front.len() {
            assert(whole[i] == front[i]);
        } else {
            assert(whole[i] == back[i - front.len()]);
        }
    }
}

/// Whatever the reading, its JSON object is ASCII and fits [`JSON_CAPACITY`].
pub proof fn lemma_json_fits(reading: Reading)
    ensures
        json_text(reading).len() <= JSON_CAPACITY,
        is_ascii_text(json_text(reading)),
{
    lemma_literals();
    lemma_flag_tables(reading.motor_status.0, reading.warning.0);
    lemma_decimal_u16(reading.power as nat);
    lemma_decimal_u16(reading.volume_flow as nat);
    if let Some(speed) = reading.speed {
        lemma_decimal_u16(speed as nat);
    }
    lemma_signed_decimal_i16(reading.motor_temperature as int);
    lemma_signed_decimal_i16(reading.electronics_temperature as int);
    lemma_tenths_text_i16(reading.air_temperature.0 as int);
    lemma_tenths_text_i16(reading.air_humidity.0 as int);
    let speed = match reading.speed {
        Some(speed) => decimal(speed as nat),
        None => "null"@,
    };
    let motor_status = flags_text(reading.motor_status.0, flag_views(motor_status_flags()), 0);
    let warning = flags_text(
        reading.warning.0,
        flag_views(warning_flags()),
        ANALOG_SET_POINT_BREAK,
    );
    let analog = if reading.warning.0 & ANALOG_SET_POINT_BREAK != 0 {
        "Kabelbruch"@
    } else {
        "OK"@
    };
    let t = "{\"speed\":"@;
    lemma_ascii_concat(t, speed);
    let t = t + speed;
    lemma_ascii_concat(t, ",\"motor_temperature\":"@);
    let t = t + ",\"motor_temperature\":"@;
    lemma_ascii_concat(t, signed_decimal(reading.motor_temperature as int));
    let t = t + signed_decimal(reading.motor_temperature as int);
    lemma_ascii_concat(t, ",\"electronics_temperature\":"@);
    let t = t + ",\"electronics_temperature\":"@;
    lemma_ascii_concat(t, signed_decimal(reading.electronics_temperature as int));
    let t = t + signed_decimal(reading.electronics_temperature as int);
    lemma_ascii_concat(t, ",\"power\":"@);
    let t = t + ",\"power\":"@;
    lemma_ascii_concat(t, decimal(reading.power as nat));
    let t = t + decimal(reading.power as nat);
    lemma_ascii_concat(t, ",\"motor_status\":\""@);
    let t = t + ",\"motor_status\":\""@;
    lemma_ascii_concat(t, motor_status);
    let t = t + motor_status;
    lemma_ascii_concat(t, "\",\"warning\":\""@);
    let t = t + "\",\"warning\":\""@;
    lemma_ascii_concat(t, warning);
    let t = t + warning;
    lemma_ascii_concat(t, "\",\"analog_set_point\":\""@);
    let t = t + "\",\"analog_set_point\":\""@;
    lemma_ascii_concat(t, analog);
    let t = t + analog;
    lemma_ascii_concat(t, "\",\"air_temperature\":"@);
    let t = t + "\",\"air_temperature\":"@;
    lemma_ascii_concat(t, tenths_text(reading.air_temperature.0 as int));
    let t = t + tenths_text(reading.air_temperature.0 as int);
    lemma_ascii_concat(t, ",\"air_humidity\":"@);
    let t = t + ",\"air_humidity\":"@;
    lemma_ascii_concat(t, tenths_text(reading.air_humidity.0 as int));
    let t = t + tenths_text(reading.air_humidity.0 as int);
    lemma_ascii_concat(t, ",\"volume_flow\":"@);
    let t = t + ",\"volume_flow\":"@;
    lemma_ascii_concat(t, decimal(reading.volume_flow as nat));
    let t = t + decimal(reading.volume_flow as nat);
    lemma_ascii_concat(t, "}"@);
    let t = t + "}"@;
    assert(t == json_text(reading));
}

/// Moves ASCII text into the JSON buffer, one byte per character.
fn push_ascii(json: &mut heapless::String<JSON_CAPACITY>, text: &Vec<char>)
    requires
        json_text_bytes(*old(json)).len() + text@.len() <= JSON_CAPACITY,
        is_ascii_text(text@),
    ensures
        json_text_bytes(*final(json)) == json_text_bytes(*old(json)) + ascii_bytes(text@),
{
    let mut index: usize = 0;
    while index < text.len()
        invariant
            index <= text@.len(),
            json_text_bytes(*old(json)).len() + text@.len() <= JSON_CAPACITY,
            is_ascii_text(text@),
            json_text_bytes(*json) == json_text_bytes(*old(json)) + ascii_bytes(
                text@.subrange(0, index as int),
            ),
        decreases text@.len() - index,
    {
        let c = text[index];
        assert((text@[index as int] as u32) < 128);
        let pushed = push_json_char(json, c);
        assert(pushed);
        index = index + 1;
        assert(ascii_bytes(text@.subrange(0, index as int)) =~= ascii_bytes(
            text@.subrange(0, index - 1),
        ).push(c as u8));
    }
    assert(text@.subrange(0, text@.len() as int) =~= text@);
}

impl Reading {
    /// The payload Home Assistant reads, as one JSON object per fan so that every value arrives
    /// in a single publish: see [`json_text`]. It always fits, by [`lemma_json_fits`].
    pub fn to_json(&self) -> (json: heapless::String<JSON_CAPACITY>)
        ensures
            json_text_bytes(json) == ascii_bytes(json_text(*self)),
    {
        let mut out: Vec<char> = Vec::new();
        match self.speed {
            Some(speed) => {
                push_str(&mut out, "{\"speed\":");
                push_decimal(&mut out, speed as u32);
            },
            None => {
                push_str(&mut out, "{\"speed\":");
                push_str(&mut out, "null");
            },
        }
        push_str(&mut out, ",\"motor_temperature\":");
        push_signed_decimal(&mut out, self.motor_temperature);
        push_str(&mut out, ",\"electronics_temperature\":");
        push_signed_decimal(&mut out, self.electronics_temperature);
        push_str(&mut out, ",\"power\":");
        push_decimal(&mut out, self.power as u32);
        // The flag names are the manual's own abbreviations, which contain nothing JSON has to
        // escape
        push_str(&mut out, ",\"motor_status\":\"");
        let motor_flags = MotorStatus::flags();
        write_flags(&mut out, self.motor_status.0, &motor_flags, 0);
        push_str(&mut out, "\",\"warning\":\"");
        let warning_flags = Warning::flags();
        write_flags(&mut out, self.warning.0, &warning_flags, ANALOG_SET_POINT_BREAK);
        push_str(&mut out, "\",\"analog_set_point\":\"");
        if self.warning.is_analog_set_point_broken() {
            push_str(&mut out, "Kabelbruch");
        } else {
            push_str(&mut out, "OK");
        }
        push_str(&mut out, "\",\"air_temperature\":");
        push_tenths(&mut out, self.air_temperature.0);
        push_str(&mut out, ",\"air_humidity\":");
        push_tenths(&mut out, self.air_humidity.0);
        push_str(&mut out, ",\"volume_flow\":");
        push_decimal(&mut out, self.volume_flow as u32);
        push_str(&mut out, "}");
        proof {
            assert(out@ =~= json_text(*self));
            lemma_json_fits(*self);
        }
        let mut json = new_json_text();
        push_ascii(&mut json, &out);
        assert(json_text_bytes(json) =~= ascii_bytes(json_text(*self)));
        json
    }
}

} // verus!
