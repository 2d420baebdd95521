use anicli_es::text::{
    chars_of, decimal_string, parse_i32, replace_all, string_of, text_eq, trim,
};

#[test]
fn parse_i32_reads_plain_and_signed_numbers() {
    assert_eq!(parse_i32("42"), Some(42));
    assert_eq!(parse_i32("+7"), Some(7));
    assert_eq!(parse_i32("-15"), Some(-15));
    assert_eq!(parse_i32("007"), Some(7));
    assert_eq!(parse_i32("2147483647"), Some(i32::MAX));
    assert_eq!(parse_i32("-2147483648"), Some(i32::MIN));
}

#[test]
fn parse_i32_refuses_what_std_refuses() {
    for s in ["", "+", "-", "1a", " 1", "2147483648", "-2147483649", "99999999999999999999", "+-1", "٣"] {
        assert_eq!(parse_i32(s), None, "input {:?}", s);
        assert!(s.parse::<i32>().is_err());
    }
}

#[test]
fn parse_i32_agrees_with_std() {
    for s in ["0", "-0", "+0", "12", "-2147483648", "2147483647", "00012", "abc", "1_000"] {
        assert_eq!(parse_i32(s), s.parse::<i32>().ok(), "input {:?}", s);
    }
}

#[test]
fn decimal_string_writes_numbers() {
    assert_eq!(decimal_string(0), "0");
    assert_eq!(decimal_string(7), "7");
    assert_eq!(decimal_string(1234), "1234");
    assert_eq!(decimal_string(u64::MAX), u64::MAX.to_string());
}

#[test]
fn decimal_then_parse_gives_back_the_number() {
    for n in [0u64, 1, 9, 10, 99, 12345, 2147483647] {
        assert_eq!(parse_i32(decimal_string(n).as_str()), Some(n as i32));
    }
}

#[test]
fn replace_all_replaces_left_to_right() {
    assert_eq!(replace_all("Tom &amp; Jerry", "&amp;", "&"), "Tom & Jerry");
    assert_eq!(replace_all("aaa", "aa", "b"), "ba");
    assert_eq!(replace_all("It&#039;s", "&#039;", "'"), "It's");
    assert_eq!(replace_all("", "x", "y"), "");
    assert_eq!(replace_all("abcabc", "bc", ""), "aa");
}

#[test]
fn replace_all_without_occurrence_keeps_text() {
    assert_eq!(replace_all("One Piece", "&amp;", "&"), "One Piece");
}

#[test]
fn trim_removes_unicode_white_space() {
    assert_eq!(trim("  hola \n"), "hola");
    assert_eq!(trim("\u{3000}\tx y\u{a0}"), "x y");
    assert_eq!(trim("   "), "");
    assert_eq!(trim(""), "");
    assert_eq!(trim(" a\u{200b} "), "a\u{200b}");
    for s in ["  a b  ", "\n\n3\r\n", "\u{2028}z\u{85}", "x"] {
        assert_eq!(trim(s), s.trim());
    }
}

#[test]
fn trim_twice_is_trim_once() {
    for s in ["  a  ", "\t\u{3000} b\n", "c"] {
        let once = trim(s);
        assert_eq!(trim(once.as_str()), once);
    }
}

#[test]
fn text_eq_compares_characters() {
    assert!(text_eq("abc", "abc"));
    assert!(!text_eq("abc", "abd"));
    assert!(!text_eq("abc", "ab"));
    assert!(text_eq("", ""));
}

#[test]
fn chars_round_trip() {
    let cs = chars_of("añb");
    assert_eq!(cs, vec!['a', 'ñ', 'b']);
    assert_eq!(string_of(&cs), "añb");
}
