use zed_reload::wide::{clipboard_get, from_wide, to_wide, to_wide_cut};

#[test]
fn encoding_agrees_with_str() {
    for s in ["", "zed", "häuser", "🦀 crab", "\u{FFFF}\u{10000}\u{10FFFF}"] {
        let mut expected: Vec<u16> = s.encode_utf16().collect();
        expected.push(0);
        assert_eq!(to_wide(s), expected);
        assert_eq!(from_wide(&expected), s);
    }
}

#[test]
fn decoding_agrees_with_string() {
    for units in [
        vec![],
        vec![0x61, 0x62],
        vec![0xD83E, 0xDD80],
        vec![0xD83E],
        vec![0xDD80, 0x61],
        vec![0xD83E, 0xD83E, 0xDD80],
        vec![0xD83E, 0x61],
        vec![0xDBFF, 0xDFFF],
    ] {
        assert_eq!(from_wide(&units), String::from_utf16_lossy(&units), "{units:?}");
    }
}

#[test]
fn text_ends_at_the_first_nul() {
    assert_eq!(from_wide(&[0x61, 0, 0x62]), "a");
    assert_eq!(from_wide(&[0, 0x62]), "");
}

#[test]
fn fields_are_cut_to_size() {
    assert_eq!(to_wide_cut("abc", 5), vec![0x61, 0x62, 0x63, 0]);
    assert_eq!(to_wide_cut("abc", 3), vec![0x61, 0x62, 0x63, 0]);
    assert_eq!(to_wide_cut("abc", 2), vec![0x61, 0x62, 0]);
    assert_eq!(to_wide_cut("abc", 0), vec![0]);
    // The cut goes through a pair.
    assert_eq!(to_wide_cut("🦀", 1), vec![0xD83E, 0]);
}

#[test]
fn a_written_text_is_read_back() {
    let message = "Zed wurde neu gestartet: 🦀";
    let mut units = to_wide(message);
    units.push(0x41);
    assert_eq!(from_wide(&units), message);
}

#[test]
fn the_clipboard_is_read_up_to_its_nul() {
    assert_eq!(clipboard_get(&to_wide("häuser")), "häuser");
    assert_eq!(clipboard_get(&[0x61, 0, 0x62]), "a");
    assert_eq!(clipboard_get(&[0x61, 0x62]), "ab");
    assert_eq!(clipboard_get(&to_wide("🦀")), "🦀");
    assert_eq!(clipboard_get(&[0xD83E, 0x61, 0]), "\u{FFFD}a");
}
