use maple_utils::text::{
    chars_of, eq_ignore_ascii_case, is_blank, is_whitespace, str_equal, trim_bounds, wide_null,
};

#[test]
fn whitespace_matches_std() {
    for code in 0u32..0x3100 {
        if let Some(c) = char::from_u32(code) {
            assert_eq!(is_whitespace(c), c.is_whitespace(), "code {:#x}", code);
        }
    }
    assert!(is_whitespace('\u{3000}'));
    assert!(!is_whitespace('a'));
}

#[test]
fn trim_bounds_match_str_trim() {
    for s in ["  ab c\t", "", "   ", "x", "\u{3000}이름\u{00a0}", "a  "] {
        let v = chars_of(s);
        let (a, b) = trim_bounds(&v);
        let trimmed: String = v[a..b].iter().collect();
        assert_eq!(trimmed, s.trim());
    }
}

#[test]
fn blank_titles() {
    assert!(is_blank(""));
    assert!(is_blank(" \t\n"));
    assert!(!is_blank(" a "));
}

#[test]
fn ascii_case_folding() {
    assert!(eq_ignore_ascii_case("Raid", "rAID"));
    assert!(eq_ignore_ascii_case("기본", "기본"));
    assert!(!eq_ignore_ascii_case("raid", "raids"));
    assert!(!eq_ignore_ascii_case("É", "é"));
    assert_eq!(eq_ignore_ascii_case("[x]", "{X}"), "[x]".eq_ignore_ascii_case("{X}"));
}

#[test]
fn string_equality() {
    assert!(str_equal("창", "창"));
    assert!(!str_equal("창", "창 "));
}

#[test]
fn wide_null_encodes_utf16() {
    assert_eq!(wide_null("STATIC"), vec![83, 84, 65, 84, 73, 67, 0]);
    assert_eq!(wide_null(""), vec![0]);
    assert_eq!(wide_null("😀가"), vec![0xD83D, 0xDE00, 0xAC00, 0]);
    let s = "키 입력 받을 창 선택 \u{10FFFF}";
    let mut expected: Vec<u16> = s.encode_utf16().collect();
    expected.push(0);
    assert_eq!(wide_null(s), expected);
}
