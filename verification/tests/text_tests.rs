use steamtools::num::{decimal_of, decimal_of_i32, parse_i32, parse_u32};
use steamtools::text::{
    byte_slice_of, chars_of, join_chars, lines_of, replace_chars, string_of, trim_chars,
    utf8_len_of,
};

fn cs(s: &str) -> Vec<char> {
    s.chars().collect()
}

fn st(v: &[char]) -> String {
    v.iter().collect()
}

#[test]
fn trim_removes_unicode_whitespace() {
    assert_eq!(st(&trim_chars(&cs("\u{3000}\t ab c \u{A0}\n"))), "ab c");
    assert_eq!(st(&trim_chars(&cs("   "))), "");
}

#[test]
fn lines_split_like_str_lines() {
    let ls = lines_of(&cs("a\r\nb\n\nc\r"));
    let got: Vec<String> = ls.iter().map(|l| st(l)).collect();
    assert_eq!(got, vec!["a", "b", "", "c\r"]);
    assert!(lines_of(&cs("")).is_empty());
    assert_eq!(lines_of(&cs("x\n")).len(), 1);
}

#[test]
fn join_puts_separator_between() {
    let ls = vec![cs("a"), cs(""), cs("b")];
    assert_eq!(st(&join_chars(&ls, &cs("\n"))), "a\n\nb");
    assert_eq!(st(&join_chars(&Vec::new(), &cs("\n"))), "");
}

#[test]
fn replace_matches_str_replace() {
    for (s, p, r) in [("{appid}.zip", "{appid}", "440"), ("aaa", "aa", "b"), ("x{a}{a}y", "{a}", ""), ("none", "{appid}", "1")] {
        assert_eq!(st(&replace_chars(&cs(s), &cs(p), &cs(r))), s.replace(p, r));
    }
}

#[test]
fn utf8_length_counts_bytes() {
    for s in ["", "abc", "é", "日本", "😀x"] {
        assert_eq!(utf8_len_of(&cs(s)), s.len() as u128);
    }
}

#[test]
fn byte_slice_matches_str_slicing() {
    let s = "\"Ünïcode\"";
    let got = byte_slice_of(&cs(s), 1, (s.len() - 1) as u128).map(|v| st(&v));
    assert_eq!(got.as_deref(), Some(&s[1..s.len() - 1]));
    // inside a two-byte character
    assert!(byte_slice_of(&cs("Ü"), 1, 2).is_none());
    // start past end
    assert!(byte_slice_of(&cs("abc"), 2, 1).is_none());
    assert!(byte_slice_of(&cs("abc"), 0, 4).is_none());
}

#[test]
fn parse_u32_matches_str_parse() {
    for s in ["0", "007", "+5", "-1", "", "+", "4294967295", "4294967296", "12a", " 1", "99999999999999999999"] {
        assert_eq!(parse_u32(&cs(s)), s.parse::<u32>().ok(), "{s:?}");
    }
}

#[test]
fn parse_i32_matches_str_parse() {
    for s in ["0", "-0", "-2147483648", "-2147483649", "2147483647", "2147483648", "+12", "-", "+", "", "1-"] {
        assert_eq!(parse_i32(&cs(s)), s.parse::<i32>().ok(), "{s:?}");
    }
}

#[test]
fn decimal_matches_display() {
    for n in [0u64, 7, 10, 440, 4294967295] {
        assert_eq!(st(&decimal_of(n)), n.to_string());
    }
    for n in [0i32, -1, 730, i32::MIN, i32::MAX] {
        assert_eq!(st(&decimal_of_i32(n)), n.to_string());
    }
}

#[test]
fn decimal_then_parse_round_trips() {
    for n in [0u32, 9, 10, 440, u32::MAX] {
        assert_eq!(parse_u32(&decimal_of(n as u64)), Some(n));
    }
    for n in [i32::MIN, -5, 0, 12345, i32::MAX] {
        assert_eq!(parse_i32(&decimal_of_i32(n)), Some(n));
    }
}

#[test]
fn chars_and_strings_round_trip() {
    assert_eq!(string_of(&chars_of("Grüße 😀")), "Grüße 😀");
}
