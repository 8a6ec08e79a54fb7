use pixlab::text::{chars_of, lines_of, str_is_blank, trim_str, utf8_len_exceeds};

fn lines(s: &str) -> Vec<String> {
    lines_of(&chars_of(s)).into_iter().map(|l| l.into_iter().collect()).collect()
}

#[test]
fn trim_removes_unicode_whitespace_at_both_ends() {
    assert_eq!(trim_str("  \t a b \n"), "a b");
    assert_eq!(trim_str("\u{3000}x\u{a0}"), "x");
    assert_eq!(trim_str("   "), "");
    assert!(str_is_blank(" \r\n\t"));
    assert!(!str_is_blank(" x "));
}

#[test]
fn lines_split_like_str_lines() {
    for s in ["a\nb", "a\r\nb\r\n", "", "\n", "a\n\nb", "x\r", "\r\n\r\n", "one"] {
        let expected: Vec<String> = s.lines().map(|l| l.to_string()).collect();
        assert_eq!(lines(s), expected, "input {s:?}");
    }
}

#[test]
fn utf8_length_counts_bytes() {
    let s = chars_of("aé€😀");
    assert!(!utf8_len_exceeds(&s, 10));
    assert!(utf8_len_exceeds(&s, 9));
}

#[test]
fn whitespace_matches_std_trim_for_every_char_up_to_u3100() {
    for u in 0u32..0x3100 {
        if let Some(c) = char::from_u32(u) {
            let s = format!("{c}x{c}");
            assert_eq!(trim_str(&s), s.trim(), "char {u:#x}");
        }
    }
}
