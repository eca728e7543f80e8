use fan_controller::bytes::{same_bytes, write_byte, write_bytes, write_length_prefixed};
use fan_controller::text::{
    push_decimal, push_prefixed_hex, push_signed_decimal, push_str, push_tenths,
};

fn text(push: impl Fn(&mut Vec<char>)) -> String {
    let mut out = Vec::new();
    push(&mut out);
    out.into_iter().collect()
}

#[test]
fn numbers_are_written_in_decimal() {
    assert_eq!(text(|out| push_decimal(out, 0)), "0");
    assert_eq!(text(|out| push_decimal(out, 1200)), "1200");
    assert_eq!(text(|out| push_decimal(out, u32::MAX)), "4294967295");
    assert_eq!(text(|out| push_signed_decimal(out, -32768)), "-32768");
    assert_eq!(text(|out| push_signed_decimal(out, 7)), "7");
}

#[test]
fn tenths_keep_their_sign_below_one() {
    assert_eq!(text(|out| push_tenths(out, 215)), "21.5");
    assert_eq!(text(|out| push_tenths(out, -5)), "-0.5");
    assert_eq!(text(|out| push_tenths(out, 0)), "0.0");
    assert_eq!(text(|out| push_tenths(out, -32768)), "-3276.8");
}

#[test]
fn hexadecimal_has_four_upper_case_digits() {
    assert_eq!(text(|out| push_prefixed_hex(out, 0x00AF)), "0x00AF");
    assert_eq!(text(|out| push_prefixed_hex(out, 0xFFFF)), "0xFFFF");
}

#[test]
fn strings_are_appended() {
    let mut out = vec!['a'];
    push_str(&mut out, "bc");
    assert_eq!(out, vec!['a', 'b', 'c']);
}

#[test]
fn bytes_are_written_at_the_offset() {
    let mut buffer = [0u8; 8];
    let mut offset = 1;
    write_byte(&mut buffer, &mut offset, 9);
    write_bytes(&mut buffer, &mut offset, &[1, 2]);
    write_length_prefixed(&mut buffer, &mut offset, b"ab");
    assert_eq!(offset, 8);
    assert_eq!(buffer, [0, 9, 1, 2, 0, 2, b'a', b'b']);
    assert!(same_bytes(b"ab", b"ab"));
    assert!(!same_bytes(b"ab", b"abc"));
    assert!(!same_bytes(b"ab", b"ac"));
}
