use mpt_core::numbers::{digit_of_char, parse_i32, parse_signed, parse_u32, parse_unsigned, parse_usize};
use mpt_core::text::{decimal_string, is_ws_char, same_text, string_of, trim_range, chars_of};

#[test]
fn integer_parsing_matches_std() {
    for s in ["0", "42", "+7", "-7", "", "+", "-", "4294967295", "4294967296", "12a", " 1", "007", "-2147483648", "2147483648"] {
        assert_eq!(parse_u32(s), s.parse::<u32>().ok(), "u32 {:?}", s);
        assert_eq!(parse_i32(s), s.parse::<i32>().ok(), "i32 {:?}", s);
        assert_eq!(parse_usize(s), s.parse::<usize>().ok(), "usize {:?}", s);
    }
    for s in ["ff", "FF", "+f", "g", "ffffffff", "100000000"] {
        assert_eq!(parse_unsigned(s, 16, u32::MAX as u64), u32::from_str_radix(s, 16).ok().map(|v| v as u64), "hex {:?}", s);
    }
    assert_eq!(parse_signed("-80", 16, i8::MAX as u64), Some(-128));
    assert_eq!(parse_signed("-81", 16, i8::MAX as u64), None);
    assert_eq!(digit_of_char('z', 36), Some(35));
    assert_eq!(digit_of_char('9', 8), None);
}

#[test]
fn decimals_read_back() {
    for n in [0u64, 9, 10, 12345, u32::MAX as u64, u64::MAX] {
        let s = decimal_string(n);
        assert_eq!(s, n.to_string());
        assert_eq!(parse_unsigned(&s, 10, u64::MAX), Some(n));
    }
}

#[test]
fn whitespace_and_trimming() {
    for c in ['\t', '\n', ' ', '\u{a0}', '\u{2003}', '\u{3000}', 'a', '\u{200b}'] {
        assert_eq!(is_ws_char(c), c.is_whitespace(), "{:?}", c);
    }
    let v = chars_of("\u{a0} ab c \t");
    let (a, b) = trim_range(&v, 0, v.len());
    assert_eq!(string_of(&v, a, b), "ab c");
    assert!(same_text("abc", "abc"));
    assert!(!same_text("abc", "abd"));
}

