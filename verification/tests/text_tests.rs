use apk_tools::text::{
    chars_of, contains_vec, decimal_vec, ends_with_vec, eq_ignore_ascii_case_vec, is_ws_char,
    parse_u32_vec, replace_all_vec, split_vec, starts_with_vec, str_eq, string_of, trim_vec,
    words_vec, CharClass,
};

fn v(s: &str) -> Vec<char> {
    s.chars().collect()
}

fn s(v: &[char]) -> String {
    v.iter().collect()
}

#[test]
fn whitespace_matches_std_for_every_char() {
    for u in 0u32..=0x10ffff {
        if let Some(c) = char::from_u32(u) {
            assert_eq!(is_ws_char(c), c.is_whitespace(), "char {:x}", u);
        }
    }
}

#[test]
fn trim_matches_std() {
    for text in ["", "  a b  ", "\u{a0}x\u{3000}", "''name''", "\t\n", "abc"] {
        assert_eq!(s(&trim_vec(&v(text), CharClass::Whitespace)), text.trim());
        assert_eq!(s(&trim_vec(&v(text), CharClass::Exactly('\''))), text.trim_matches('\''));
    }
}

#[test]
fn trim_twice_is_trim_once() {
    let once = trim_vec(&v(" \u{2003} value \t"), CharClass::Whitespace);
    let twice = trim_vec(&once, CharClass::Whitespace);
    assert_eq!(once, twice);
    assert_eq!(s(&once), "value");
}

#[test]
fn split_matches_std() {
    for text in ["", "a", "a b", " a  b ", "k=v=w", "=", "x\ty"] {
        for sep in [' ', '=', '\t'] {
            let got: Vec<String> = split_vec(&v(text), CharClass::Exactly(sep)).iter().map(|p| s(p)).collect();
            let want: Vec<String> = text.split(sep).map(|p| p.to_string()).collect();
            assert_eq!(got, want, "{:?} by {:?}", text, sep);
        }
    }
}

#[test]
fn words_match_split_whitespace() {
    for text in ["", "  ", "u0_a123  4567 1 com.example", "a\u{a0}b\u{2028}c", " x "] {
        let got: Vec<String> = words_vec(&v(text)).iter().map(|p| s(p)).collect();
        let want: Vec<String> = text.split_whitespace().map(|p| p.to_string()).collect();
        assert_eq!(got, want);
    }
}

#[test]
fn prefix_suffix_infix() {
    assert!(starts_with_vec(&v("package: name"), &v("package:")));
    assert!(!starts_with_vec(&v("pack"), &v("package:")));
    assert!(ends_with_vec(&v("package:com.example.app"), &v("com.example.app")));
    assert!(!ends_with_vec(&v("app"), &v("com.example.app")));
    assert!(contains_vec(&v("12 1234 1234 I tag"), &v(" 1234 ")));
    assert!(!contains_vec(&v("12 12345 I tag"), &v(" 1234 ")));
    assert!(contains_vec(&v(""), &v("")));
}

#[test]
fn replace_matches_std() {
    for text in ["/cygdrive/c/Users/a", "/cygdrive/c/cygdrive/c", "/cygdrive/d/x", "", "/cygdrive/"] {
        let got = s(&replace_all_vec(&v(text), &v("/cygdrive/c"), &v("C:")));
        assert_eq!(got, text.replace("/cygdrive/c", "C:"));
    }
    assert_eq!(s(&replace_all_vec(&v("aaa"), &v("aa"), &v("b"))), "aaa".replace("aa", "b"));
}

#[test]
fn replace_without_match_keeps_text() {
    let text = v("/home/user/app.apk");
    assert_eq!(replace_all_vec(&text, &v("/cygdrive/c"), &v("C:")), text);
}

#[test]
fn ascii_case_insensitive_equality() {
    assert!(eq_ignore_ascii_case_vec(&v("Com.Example"), &v("com.example")));
    assert!(!eq_ignore_ascii_case_vec(&v("com.examplex"), &v("com.example")));
    assert!(!eq_ignore_ascii_case_vec(&v("É"), &v("é")));
    assert_eq!(eq_ignore_ascii_case_vec(&v("É"), &v("é")), "É".eq_ignore_ascii_case("é"));
}

#[test]
fn parse_u32_matches_std() {
    for text in [
        "", "+", "-", "-0", "0", "007", "+42", "++1", "4294967295", "4294967296", "99999999999",
        "12a", " 1", "1 ", "٣", "1234",
    ] {
        assert_eq!(parse_u32_vec(&v(text)), text.parse::<u32>().ok(), "{:?}", text);
    }
}

#[test]
fn decimal_matches_to_string_and_parses_back() {
    for n in [0u32, 7, 10, 1234, 65535, u32::MAX] {
        let d = decimal_vec(n);
        assert_eq!(s(&d), n.to_string());
        assert_eq!(parse_u32_vec(&d), Some(n));
    }
}

#[test]
fn string_round_trip_and_equality() {
    let text = "naïve \u{1f600} text";
    assert_eq!(string_of(&chars_of(text)), text);
    assert!(str_eq("abc", "abc"));
    assert!(!str_eq("abc", "abd"));
    assert!(!str_eq("abc", "ab"));
}
