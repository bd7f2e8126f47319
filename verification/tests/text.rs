use fints::text::{
    can_cut, cut_text, decimal_text, pad_left, pad_right, remove_white_space, same_text,
    signed_decimal_text, starts_with, text_before, trim, white_space,
};

#[test]
fn white_space_is_that_of_unicode() {
    for n in 0..=0x10FFFF_u32 {
        if let Some(c) = char::from_u32(n) {
            assert_eq!(white_space(c), c.is_whitespace(), "{:x}", n);
        }
    }
}

#[test]
fn trimming_agrees_with_str() {
    for s in ["", " ", "a", " a ", "\t\u{a0}a b\u{3000}\n", "\u{200b}x", "  \u{2003}"] {
        assert_eq!(trim(s), s.trim());
    }
    assert_eq!(trim(" \n x y \t"), trim("x y"));
}

#[test]
fn numerals_agree_with_display() {
    for n in [0_u128, 7, 10, 99, 100, 65535, u128::MAX] {
        assert_eq!(decimal_text(n), n.to_string());
    }
    for n in [0_i64, -1, 42, -42, i64::MIN, i64::MAX] {
        assert_eq!(signed_decimal_text(n), n.to_string());
    }
}

#[test]
fn padding_agrees_with_format() {
    for s in ["", "ab", "äöü", "abcdefgh", "—"] {
        assert_eq!(pad_right(s, 5), format!("{:<5}", s));
        assert_eq!(pad_left(s, 5), format!("{:>5}", s));
    }
}

#[test]
fn order_agrees_with_str() {
    let texts = ["", "a", "aa", "ab", "b", "A", "ä", "z", "\u{ffff}", "\u{10000}", "ab\u{0}"];
    for a in texts {
        for b in texts {
            assert_eq!(text_before(a, b), a < b, "{:?} {:?}", a, b);
            assert_eq!(same_text(a, b), a == b);
            assert_eq!(starts_with(a, b), a.starts_with(b));
        }
    }
}

#[test]
fn cutting_counts_bytes() {
    assert_eq!(cut_text("abcdef", 4), "abcd");
    assert_eq!(cut_text("abc", 4), "abc");
    assert!(can_cut("aäb", 3));
    assert_eq!(cut_text("aäb", 3), "aä");
    assert!(!can_cut("aäb", 2));
    assert!(can_cut("aä", 9));
}

#[test]
fn removing_white_space() {
    assert_eq!(remove_white_space(" a\u{a0}b\r\nc "), "abc");
    assert_eq!(remove_white_space("abc"), "abc");
}
