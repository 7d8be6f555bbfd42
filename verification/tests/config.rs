use zed_reload::config::{
    config_dir, ctrl_enter_to_send, json_bool, keymap_bindings_for, load_config,
    mode_from_settings, paste_binding_for, read_config, toggle_binding_for, EditorMode,
};

#[test]
fn mode_from_settings_detects_helix_vim_normal() {
    assert_eq!(
        mode_from_settings("\"vim_mode\": false, \"helix_mode\": true"),
        EditorMode::Helix
    );
    // Both on: helix wins.
    assert_eq!(
        mode_from_settings("\"vim_mode\": true, \"helix_mode\": true"),
        EditorMode::Helix
    );
    assert_eq!(mode_from_settings("\"vim_mode\": true"), EditorMode::Vim);
    assert_eq!(mode_from_settings("\"vim_mode\": false"), EditorMode::Normal);
    assert_eq!(mode_from_settings("{}"), EditorMode::Normal);
}

#[test]
fn ctrl_enter_from_settings() {
    assert!(ctrl_enter_to_send("\"use_modifier_to_send\": true"));
    assert!(ctrl_enter_to_send("\"use_modifier_to_send\": true, \"x\": 1"));
    assert!(!ctrl_enter_to_send("\"use_modifier_to_send\": false"));
    assert!(!ctrl_enter_to_send("{}"));
}

/// A keymap as users write it: comments, empty bindings, a custom ToggleFocus
/// binding, and a binding without a context.
const USER_KEYMAP: &str = r#"// Zed keymap
[
  {
    "context": "Workspace",
    "bindings": {
      // "shift shift": "file_finder::Toggle"
    },
  },
  {
    "context": "Editor && vim_mode == insert",
    "bindings": {
      "j k": "vim::NormalBefore"
    },
  },
  {
    "context": "Workspace",
    "bindings": {
      "ctrl-shift-,": "agent::ToggleFocus"
    }
  },
  {
    "bindings": {
      "win-j": "workspace::ToggleHelixMode"
    }
  }
]"#;

#[test]
fn toggle_binding_from_user_style_keymap() {
    assert_eq!(toggle_binding_for(USER_KEYMAP), "ctrl-shift-,");
    assert_eq!(toggle_binding_for("[]"), "ctrl-shift-/");
}

#[test]
fn paste_binding_respects_normal_mode_contexts() {
    let keymap = r#"[
  { "context": "Editor", "bindings": { "ctrl-v": "editor::Paste" } },
  { "context": "vim_mode == normal", "bindings": { "shift-insert": "editor::Paste" } },
  { "context": "(vim_mode == helix_normal || vim_mode == helix_select) && !menu", "bindings": { "shift-r": "editor::Paste" } }
]"#;
    // Each mode prefers its own normal-mode context.
    assert_eq!(paste_binding_for(keymap, EditorMode::Helix).unwrap(), "shift-r");
    assert_eq!(paste_binding_for(keymap, EditorMode::Vim).unwrap(), "shift-insert");
    assert_eq!(paste_binding_for(keymap, EditorMode::Normal).unwrap(), "ctrl-v");
    // A plain-editor binding is the fallback for vim/helix.
    let plain = r#"[
  { "context": "Editor", "bindings": { "ctrl-alt-p": "editor::Paste" } }
]"#;
    assert_eq!(paste_binding_for(plain, EditorMode::Vim).unwrap(), "ctrl-alt-p");
    assert_eq!(paste_binding_for(plain, EditorMode::Helix).unwrap(), "ctrl-alt-p");
    // No override at all.
    assert_eq!(paste_binding_for("[]", EditorMode::Vim), None);
}

#[test]
fn default_paste_binding_per_mode() {
    assert_eq!(EditorMode::Normal.default_paste_binding(), "ctrl-v");
    assert_eq!(EditorMode::Vim.default_paste_binding(), "shift-insert");
    assert_eq!(EditorMode::Helix.default_paste_binding(), "shift-r");
}

#[test]
fn commented_entries_are_not_found() {
    let raw = "{\r\n  // \"vim_mode\": true,\r\n\t//\"helix_mode\": true\r\n  \"x\": 1 // \"vim_mode\": true\r\n}\r\n";
    let text = read_config(&Some(raw.into()));
    assert_eq!(text, "{\n  \"x\": 1 // \"vim_mode\": true\n}");
    // Only whole-line comments are dropped.
    assert_eq!(mode_from_settings(&text), EditorMode::Vim);
    assert_eq!(read_config(&None), "");
    assert_eq!(read_config(&Some("// all\n//comment".into())), "");
}

#[test]
fn values_follow_the_colon() {
    assert_eq!(json_bool("\"k\" : \n true,", "k"), Some(true));
    assert_eq!(json_bool("\"k\":false", "k"), Some(false));
    assert_eq!(json_bool("\"k\": trueish", "k"), Some(true));
    assert_eq!(json_bool("\"k\": 1", "k"), None);
    assert_eq!(json_bool("\"k\" true", "k"), None);
    assert_eq!(json_bool("\"kk\": true", "k"), None);
    // The first place decides.
    assert_eq!(json_bool("\"k\": 1, \"k\": true", "k"), None);
}

#[test]
fn bindings_come_with_their_context() {
    let keymap = r#"[
  { "context": "Editor", "bindings": { "a": "x::Y", "b": "x::Y" } },
  { "bindings": { "c": "x::Y" } },
  { "context": 5, "bindings": { "d": "x::Y" } }
]"#;
    assert_eq!(
        keymap_bindings_for(keymap, "x::Y"),
        vec![
            (Some("Editor".to_string()), "a".to_string()),
            (Some("Editor".to_string()), "b".to_string()),
            // The context of another object does not count.
            (None, "c".to_string()),
            (None, "d".to_string()),
        ]
    );
    assert_eq!(keymap_bindings_for(keymap, "x::Z"), vec![]);
    // Without a key in front there is no binding.
    assert_eq!(keymap_bindings_for("\"x::Y\"", "x::Y"), vec![]);
    assert_eq!(keymap_bindings_for(": \"x::Y\"", "x::Y"), vec![]);
    assert_eq!(keymap_bindings_for("\": \"x::Y\"", "x::Y"), vec![]);
    assert_eq!(keymap_bindings_for("\"k\": \"x::Y\"", "x::Y"), vec![(None, "k".to_string())]);
}

#[test]
fn later_bindings_win() {
    let keymap = r#""a": "agent::ToggleFocus", "b": "agent::ToggleFocus""#;
    assert_eq!(toggle_binding_for(keymap), "b");
    let keymap = r#"[
  { "context": "Editor", "bindings": { "f1": "editor::Paste", "f2": "editor::Paste" } },
  { "context": "vim_mode == insert", "bindings": { "f3": "editor::Paste" } }
]"#;
    assert_eq!(paste_binding_for(keymap, EditorMode::Vim).unwrap(), "f2");
    assert_eq!(paste_binding_for(keymap, EditorMode::Normal).unwrap(), "f2");
}

#[test]
fn the_directory_is_the_given_one_or_that_of_the_user() {
    let appdata = Some("C:\\Users\\me\\AppData\\Roaming".to_string());
    assert_eq!(config_dir(&Some("D:\\cfg".into()), &appdata), "D:\\cfg");
    assert_eq!(config_dir(&None, &appdata), "C:\\Users\\me\\AppData\\Roaming\\Zed");
    assert_eq!(config_dir(&None, &None), "");
}

#[test]
fn a_configuration_is_read_as_a_whole() {
    let settings = Some("\"helix_mode\": true,\n\"use_modifier_to_send\": true".to_string());
    let keymap = Some(
        "{ \"context\": \"helix_normal\", \"bindings\": { \"p\": \"editor::Paste\" } }".to_string(),
    );
    let config = load_config(&Some("D:\\cfg".into()), &None, &settings, &keymap);
    assert_eq!(config.dir, "D:\\cfg");
    assert_eq!(config.mode, EditorMode::Helix);
    assert!(config.ctrl_enter_to_send);
    assert_eq!(config.toggle_binding, "ctrl-shift-/");
    assert_eq!(config.paste_binding.unwrap(), "p");

    let config = load_config(&None, &None, &None, &None);
    assert_eq!(config.mode, EditorMode::Normal);
    assert!(!config.ctrl_enter_to_send);
    assert_eq!(config.toggle_binding, "ctrl-shift-/");
    assert_eq!(config.paste_binding, None);
}

#[test]
fn modes_have_names() {
    assert_eq!(EditorMode::Normal.name(), "normal");
    assert_eq!(EditorMode::Vim.name(), "vim");
    assert_eq!(EditorMode::Helix.name(), "helix");
}

#[test]
fn a_block_without_context_has_none() {
    let keymap = r#"[{"context":"Editor","bindings":{"a":"x::Y"}},{"bindings":{"b":"p::Q"}}]"#;
    assert_eq!(keymap_bindings_for(keymap, "p::Q"), vec![(None, "b".to_string())]);
    // So a plain binding behind a Vim block stays a plain one.
    let keymap = r#"[
  { "context": "vim_mode == insert", "bindings": { "a": "vim::B" } },
  { "bindings": { "f9": "editor::Paste" } }
]"#;
    for mode in [EditorMode::Normal, EditorMode::Vim, EditorMode::Helix] {
        assert_eq!(paste_binding_for(keymap, mode).unwrap(), "f9");
    }
}

#[test]
fn the_context_stands_anywhere_in_its_object() {
    let context = |keymap: &str| keymap_bindings_for(keymap, "x::Y")[0].0.clone();
    // Behind the bindings.
    assert_eq!(
        context(r#"[{"bindings":{"a":"x::Y"},"context":"Late"},{"context":"Other"}]"#),
        Some("Late".to_string())
    );
    // Brackets and braces in strings and comments do not count.
    assert_eq!(
        context("[{\"context\":\"E\", // don't } {\n\"bindings\":{\"ctrl-}\":\"a::B\",\"ctrl-\\\"{\":\"x::Y\"}}]"),
        Some("E".to_string())
    );
    assert_eq!(
        context(r#"[{"context":"E}","bindings":{"ctrl-[":"x::Y"}}]"#),
        Some("E}".to_string())
    );
    // A key of an inner object, and a value, are no context of the block.
    assert_eq!(
        context(r#"[{"use":{"context":"Inner"},"name":"context","bindings":{"a":["x::Y",{}]}}]"#),
        None
    );
    // A fragment without brackets is an object too.
    assert_eq!(context(r#""context": "F", "bindings": "a": "x::Y""#), Some("F".to_string()));
}

#[test]
fn brackets_in_comments_do_not_count() {
    let context = |keymap: &str| keymap_bindings_for(keymap, "x::Y")[0].0.clone();
    for keymap in [
        "{\"context\":\"A\",/*}*/\"bindings\":{\"k\":\"x::Y\"}}",
        "{\"context\":\"A\",/* \" * / } **/\"bindings\":{/*/ { /*/\"k\":\"x::Y\"}}",
        "{\"context\":\"A\",\"bindings\":{ // \"bindings\"\n\"k\":\"x::Y\"}}",
        "{\"context\":\"A\",\"bindings\":{ /* \"bindings\": { */\"k\":\"x::Y\"}}",
        "{\"context\":\"A\",\"bindings\" /* of A */ : // the keys\n{\"k\":\"x::Y\"}}",
    ] {
        assert_eq!(context(keymap), Some("A".to_string()), "{keymap}");
    }
}

#[test]
fn the_bindings_are_those_that_hold_the_action() {
    let context = |keymap: &str| keymap_bindings_for(keymap, "x::Y")[0].0.clone();
    for keymap in [
        // A value, and a key of an inner object that is closed.
        r#"{"context":"A","bindings":{"j":"bindings","k":"x::Y"}}"#,
        r#"{"context":"A","bindings":{"j":["z::Z",{"bindings":1}],"k":"x::Y"}}"#,
        r#"[{"context":"B","bindings":{}},{"context":"A","bindings":{"k":"x::Y"}}]"#,
    ] {
        assert_eq!(context(keymap), Some("A".to_string()), "{keymap}");
    }
    assert_eq!(context(r#"[{"context":"B","bindings":{}},{"k":"x::Y"}]"#), None);
}

#[test]
fn later_text_takes_no_binding_away() {
    let keymap = r#"[{"bindings":{"a":"x::Y"}}"#;
    let longer = r#"[{"bindings":{"a":"x::Y"}},{"bindings":{"b":"x::Y"}}]"#;
    assert_eq!(keymap_bindings_for(keymap, "x::Y")[0].1, "a");
    let keys: Vec<String> =
        keymap_bindings_for(longer, "x::Y").into_iter().map(|(_, keys)| keys).collect();
    assert_eq!(keys, vec!["a", "b"]);
}
