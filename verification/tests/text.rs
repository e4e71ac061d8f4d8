use rwatch::text::{chars_of, push_decimal, push_two_digits, trim};

#[test]
fn trims_unicode_white_space() {
    assert_eq!(trim("  0.52 0.58 0.59 1/467 1234\n"), "0.52 0.58 0.59 1/467 1234");
    assert_eq!(trim("\u{a0}x y\u{2003}"), "x y");
    assert_eq!(trim(" \t\n"), "");
    assert_eq!(trim(""), "");
}

#[test]
fn decimal_digits() {
    let mut s = String::from("n=");
    push_decimal(&mut s, 0);
    assert_eq!(s, "n=0");
    let mut s = String::new();
    push_decimal(&mut s, u64::MAX);
    assert_eq!(s, u64::MAX.to_string());
    assert_eq!(s.parse::<u64>().unwrap(), u64::MAX);
}

#[test]
fn two_digit_padding() {
    let mut s = String::new();
    push_two_digits(&mut s, 7);
    push_two_digits(&mut s, 42);
    push_two_digits(&mut s, 123);
    assert_eq!(s, "0742123");
}

#[test]
fn characters_in_order() {
    assert_eq!(chars_of("a\u{e9}\u{2588}"), vec!['a', '\u{e9}', '\u{2588}']);
}

use rwatch::text::is_space_char;

#[test]
fn white_space_is_unicode_white_space() {
    for code in 0u32..0x11_0000 {
        if let Some(c) = char::from_u32(code) {
            assert_eq!(is_space_char(c), c.is_whitespace(), "U+{code:04X}");
        }
    }
}

#[test]
fn trim_agrees_with_str_trim() {
    for s in ["", " ", "a", " a ", "\u{85}a b\u{2029}", "\r\n x\t", "\u{200b}x\u{200b}"] {
        assert_eq!(trim(s), s.trim());
    }
}

use rwatch::text::without_trailing_nul;

#[test]
fn trailing_nul_is_dropped_once() {
    assert_eq!(without_trailing_nul(b"Apple M1\0".to_vec()), b"Apple M1".to_vec());
    assert_eq!(without_trailing_nul(b"ab\0\0".to_vec()), b"ab\0".to_vec());
    assert_eq!(without_trailing_nul(b"ab".to_vec()), b"ab".to_vec());
    assert_eq!(without_trailing_nul(Vec::new()), Vec::<u8>::new());
}
