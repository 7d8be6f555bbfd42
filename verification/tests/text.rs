use zed_reload::text::{
    chars_of, contains_chars, eq_ignore_ascii_case, find_chars, is_whitespace, joined, lines_of,
    push_decimal, push_hex, push_list, rfind_chars, same_text, starts_with, string_of, trimmed,
};

#[test]
fn whitespace_is_that_of_char() {
    for n in 0..=0x10FFFFu32 {
        if let Some(c) = char::from_u32(n) {
            assert_eq!(is_whitespace(c), c.is_whitespace(), "U+{n:04X}");
        }
    }
}

#[test]
fn characters_and_back() {
    for s in ["", "a", "häuser 🦀", "\u{0}\n"] {
        let chars = chars_of(s);
        assert_eq!(chars, s.chars().collect::<Vec<_>>());
        assert_eq!(string_of(&chars), s);
    }
}

#[test]
fn searching_agrees_with_str() {
    let hays = ["", "a", "abcabc", "aaaa", "xabcabcx"];
    let needles = ["", "a", "abc", "aa", "b", "abcabcabc"];
    for hay in hays {
        for needle in needles {
            let h = chars_of(hay);
            let n = chars_of(needle);
            assert_eq!(find_chars(&h, &n, 0), hay.find(needle), "{hay:?} {needle:?}");
            assert_eq!(rfind_chars(&h, &n), hay.rfind(needle), "{hay:?} {needle:?}");
            assert_eq!(contains_chars(&h, &n), hay.contains(needle));
            assert_eq!(starts_with(&h, &n), hay.starts_with(needle));
            assert_eq!(same_text(&h, &n), hay == needle);
        }
    }
    let hay = chars_of("abcabc");
    let needle = chars_of("abc");
    assert_eq!(find_chars(&hay, &needle, 1), Some(3));
    assert_eq!(find_chars(&hay, &needle, 4), None);
    assert_eq!(find_chars(&hay, &needle, usize::MAX), None);
}

#[test]
fn trimming_agrees_with_str() {
    for s in ["", "  ", " a ", "\t\r\n\u{3000}x y", "\u{FEFF}x"] {
        let chars = chars_of(s);
        assert_eq!(string_of(trimmed(&chars)), s.trim_start());
    }
}

#[test]
fn lines_agree_with_str() {
    for s in ["", "\n", "a", "a\n", "a\n\nb", "a\r\nb\r", "\r\n\r\n", "a\r\r\nb", "\ra\n\n"] {
        let chars = chars_of(s);
        assert_eq!(lines_of(&chars), s.lines().collect::<Vec<_>>(), "{s:?}");
    }
}

#[test]
fn joining_puts_the_separator_between() {
    assert_eq!(joined(&vec![], ", "), "");
    assert_eq!(joined(&vec!["a".into()], ", "), "a");
    assert_eq!(joined(&vec!["a".into(), "".into(), "b".into()], ", "), "a, , b");
}

#[test]
fn ascii_case_is_ignored() {
    let a = chars_of("C:\\ZED.exe");
    let b = chars_of("c:\\zed.EXE");
    assert!(eq_ignore_ascii_case(&a, &b));
    assert!(!eq_ignore_ascii_case(&a, &chars_of("c:\\zed.ex")));
    // Only ASCII letters are folded.
    assert!(!eq_ignore_ascii_case(&chars_of("Ä"), &chars_of("ä")));
    assert!(!eq_ignore_ascii_case(&chars_of("["), &chars_of("{")));
}

#[test]
fn numbers_are_written_as_format_does() {
    for n in [0u128, 7, 10, 99, 100, 65535, u64::MAX as u128, u128::MAX] {
        let mut s = String::from("n=");
        push_decimal(&mut s, n);
        assert_eq!(s, format!("n={n}"));
    }
    for n in [0u32, 9, 10, 0x80004005, u32::MAX] {
        let mut s = String::new();
        push_hex(&mut s, n, 8);
        assert_eq!(s, format!("{n:08x}"));
    }
    for list in [vec![], vec![1u16], vec![162, 160, 191]] {
        let mut s = String::new();
        push_list(&mut s, &list);
        assert_eq!(s, format!("{list:?}"));
    }
}
