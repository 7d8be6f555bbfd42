use windows_sys::Win32::UI::Input::KeyboardAndMouse::{
    VK_BACK, VK_DELETE, VK_DOWN, VK_END, VK_ESCAPE, VK_F1, VK_F15, VK_F5, VK_HOME, VK_INSERT,
    VK_LCONTROL, VK_LEFT, VK_LMENU, VK_LSHIFT, VK_LWIN, VK_NEXT, VK_OEM_1, VK_OEM_2, VK_OEM_3,
    VK_OEM_4, VK_OEM_5, VK_OEM_6, VK_OEM_7, VK_OEM_COMMA, VK_OEM_MINUS, VK_OEM_PERIOD,
    VK_OEM_PLUS, VK_PRIOR, VK_RETURN, VK_RIGHT, VK_SPACE, VK_TAB, VK_UP,
};
use zed_reload::binding::{
    binding_to_vk, key_to_vk, lower_key_to_vk, lower_modifier_to_vk, parse_binding, send_combo,
    KeyEvent,
};

#[test]
fn parse_binding_basics() {
    assert_eq!(
        parse_binding("ctrl-shift-/").unwrap(),
        vec![VK_LCONTROL, VK_LSHIFT, VK_OEM_2]
    );
    assert_eq!(
        parse_binding("ctrl-shift-,").unwrap(),
        vec![VK_LCONTROL, VK_LSHIFT, VK_OEM_COMMA]
    );
    // Minus-key edge case.
    assert_eq!(
        parse_binding("ctrl-shift--").unwrap(),
        vec![VK_LCONTROL, VK_LSHIFT, VK_OEM_MINUS]
    );
    // Insert keys: helix `a`, vim `shift-a` (same code, different modifiers).
    assert_eq!(parse_binding("a").unwrap(), vec![b'A' as u16]);
    assert_eq!(parse_binding("shift-a").unwrap(), vec![VK_LSHIFT, b'A' as u16]);
    assert_eq!(parse_binding("bogus"), None);
}

#[test]
fn binding_to_vk_falls_back() {
    assert_eq!(binding_to_vk("bogus", "ctrl-shift-/").len(), 3);
    assert_eq!(binding_to_vk("ctrl-v", "ctrl-shift-/").len(), 2);
}

#[test]
fn a_binding_without_fallback_is_empty() {
    assert_eq!(binding_to_vk("bogus", "more bogus"), Vec::<u16>::new());
    assert_eq!(
        binding_to_vk("schrägstrich", "ctrl-shift-/"),
        vec![VK_LCONTROL, VK_LSHIFT, VK_OEM_2]
    );
}

#[test]
fn modifiers_alone_are_no_binding() {
    assert_eq!(parse_binding(""), None);
    assert_eq!(parse_binding("ctrl"), None);
    assert_eq!(parse_binding("ctrl-"), None);
    assert_eq!(parse_binding("ctrl-shift"), None);
    assert_eq!(parse_binding("-").unwrap(), vec![VK_OEM_MINUS]);
    assert_eq!(parse_binding("--"), None);
    assert_eq!(parse_binding("a-b"), None);
}

#[test]
fn every_modifier_name_is_known() {
    for name in ["ctrl", "control"] {
        assert_eq!(lower_modifier_to_vk(name), Some(VK_LCONTROL));
    }
    assert_eq!(lower_modifier_to_vk("shift"), Some(VK_LSHIFT));
    for name in ["alt", "option"] {
        assert_eq!(lower_modifier_to_vk(name), Some(VK_LMENU));
    }
    for name in ["meta", "cmd", "super"] {
        assert_eq!(lower_modifier_to_vk(name), Some(VK_LWIN));
    }
    assert_eq!(lower_modifier_to_vk("win"), None);
    assert_eq!(lower_modifier_to_vk("Ctrl"), None);
}

#[test]
fn case_does_not_matter() {
    assert_eq!(parse_binding("CTRL-Shift-R"), parse_binding("ctrl-shift-r"));
    assert_eq!(key_to_vk("F5"), Some(VK_F5));
    assert_eq!(key_to_vk("PageUp"), Some(VK_PRIOR));
    // The Kelvin sign is a capital k in lower case.
    assert_eq!(key_to_vk("\u{212A}"), Some(b'K' as u16));
    // A name that is given in lower case is taken as it is.
    assert_eq!(lower_key_to_vk("F5"), None);
}

#[test]
fn letters_digits_and_marks() {
    for c in 'a'..='z' {
        assert_eq!(key_to_vk(&c.to_string()), Some(c.to_ascii_uppercase() as u16));
    }
    for c in '0'..='9' {
        assert_eq!(key_to_vk(&c.to_string()), Some(c as u16));
    }
    for (mark, vk) in [
        ("/", VK_OEM_2),
        (";", VK_OEM_1),
        ("'", VK_OEM_7),
        ("[", VK_OEM_4),
        ("]", VK_OEM_6),
        ("\\", VK_OEM_5),
        (",", VK_OEM_COMMA),
        (".", VK_OEM_PERIOD),
        ("-", VK_OEM_MINUS),
        ("=", VK_OEM_PLUS),
        ("`", VK_OEM_3),
    ] {
        assert_eq!(key_to_vk(mark), Some(vk), "{mark}");
    }
    assert_eq!(key_to_vk("+"), None);
    assert_eq!(key_to_vk("ä"), None);
}

#[test]
fn named_keys() {
    for (name, vk) in [
        ("enter", VK_RETURN),
        ("return", VK_RETURN),
        ("escape", VK_ESCAPE),
        ("esc", VK_ESCAPE),
        ("tab", VK_TAB),
        ("space", VK_SPACE),
        ("backspace", VK_BACK),
        ("delete", VK_DELETE),
        ("del", VK_DELETE),
        ("insert", VK_INSERT),
        ("ins", VK_INSERT),
        ("home", VK_HOME),
        ("end", VK_END),
        ("pageup", VK_PRIOR),
        ("pgup", VK_PRIOR),
        ("pagedown", VK_NEXT),
        ("pgdn", VK_NEXT),
        ("up", VK_UP),
        ("down", VK_DOWN),
        ("left", VK_LEFT),
        ("right", VK_RIGHT),
    ] {
        assert_eq!(key_to_vk(name), Some(vk), "{name}");
    }
    assert_eq!(key_to_vk(""), None);
}

#[test]
fn function_keys_go_up_to_fifteen() {
    assert_eq!(key_to_vk("f1"), Some(VK_F1));
    assert_eq!(key_to_vk("f15"), Some(VK_F15));
    for n in 1..=15u16 {
        assert_eq!(key_to_vk(&format!("f{n}")), Some(111 + n));
    }
    for name in ["f0", "f16", "f65536", "f99999999999", "fx", "f-1", "f1x", "f+"] {
        assert_eq!(key_to_vk(name), None, "{name}");
    }
    // What a number may look like.
    assert_eq!(key_to_vk("f+5"), Some(VK_F5));
    assert_eq!(key_to_vk("f005"), Some(VK_F5));
    // A single `f` is the letter.
    assert_eq!(key_to_vk("f"), Some(b'F' as u16));
}

#[test]
fn a_modifier_in_front_adds_its_code_in_front() {
    for binding in ["a", "f5", "-", "shift-insert"] {
        let codes = parse_binding(binding).unwrap();
        let more = parse_binding(&format!("alt-{binding}")).unwrap();
        assert_eq!(more[0], VK_LMENU);
        assert_eq!(more[1..], codes[..]);
    }
}

#[test]
fn keys_go_down_in_order_and_up_in_reverse() {
    assert_eq!(send_combo(&vec![]), vec![]);
    assert_eq!(
        send_combo(&vec![VK_LCONTROL, VK_LSHIFT, VK_OEM_2]),
        vec![
            KeyEvent { vk: VK_LCONTROL, up: false },
            KeyEvent { vk: VK_LSHIFT, up: false },
            KeyEvent { vk: VK_OEM_2, up: false },
            KeyEvent { vk: VK_OEM_2, up: true },
            KeyEvent { vk: VK_LSHIFT, up: true },
            KeyEvent { vk: VK_LCONTROL, up: true },
        ]
    );
}
