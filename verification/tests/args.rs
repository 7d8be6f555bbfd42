use windows_sys::Win32::UI::Input::KeyboardAndMouse::{
    VK_INSERT, VK_LCONTROL, VK_LSHIFT, VK_OEM_2,
};
use zed_reload::args::{plan_inject, startup_text, worker_keys, Args, Role};
use zed_reload::config::EditorMode;

#[test]
fn plan_inject_from_fixture_config() {
    let settings =
        "{ \"helix_mode\": true, \"agent\": { \"use_modifier_to_send\": true } }".to_string();
    let keymap = "[ { \"context\": \"Workspace\", \"bindings\": { \"ctrl-shift-,\": \"agent::ToggleFocus\" } } ]".to_string();
    let args = Args { config_dir: Some("zed-reload-plan-test".into()), ..Args::default() };
    let plan = plan_inject(&args, &None, &Some(settings), &Some(keymap));
    assert_eq!(plan.mode, EditorMode::Helix);
    assert!(plan.ctrl_enter);
    assert_eq!(plan.toggle_binding, "ctrl-shift-,");
    assert_eq!(plan.paste_binding, "shift-r");
}

#[test]
fn plan_inject_defaults_and_overrides() {
    // No config at all: everything falls back to Zed defaults.
    let args = Args { config_dir: Some("zed-reload-no-such-dir".into()), ..Args::default() };
    let plan = plan_inject(&args, &None, &None, &None);
    assert_eq!(plan.mode, EditorMode::Normal);
    assert!(!plan.ctrl_enter);
    assert_eq!(plan.toggle_binding, "ctrl-shift-/");
    assert_eq!(plan.paste_binding, "ctrl-v");

    // Overrides win over the (absent) config.
    let args = Args {
        mode: Some(EditorMode::Vim),
        toggle_keys: Some("ctrl-alt-/".into()),
        paste_keys: Some("shift-insert".into()),
        send_enter: true,
        ..Args::default()
    };
    let plan = plan_inject(&args, &None, &None, &None);
    assert_eq!(plan.mode, EditorMode::Vim);
    assert!(!plan.ctrl_enter);
    assert_eq!(plan.toggle_binding, "ctrl-alt-/");
    assert_eq!(plan.paste_binding, "shift-insert");
}

#[test]
fn worker_keys_paste_in_normal_mode() {
    // Vim: quick-paste is shift-insert, pressed in Normal mode.
    let args = Args { mode: Some(EditorMode::Vim), send_ctrl_enter: true, ..Args::default() };
    let keys = worker_keys(&args);
    assert!(keys.ctrl_enter);
    assert_eq!(keys.paste, vec![VK_LSHIFT, VK_INSERT]);

    // Helix: quick-paste is shift-r.
    let args = Args { mode: Some(EditorMode::Helix), ..Args::default() };
    assert_eq!(worker_keys(&args).paste, vec![VK_LSHIFT, b'R' as u16]);

    // Normal mode: ctrl-v.
    let args = Args::default();
    assert_eq!(worker_keys(&args).paste, vec![VK_LCONTROL, b'V' as u16]);
}

#[test]
fn flags_win_over_the_configuration() {
    let settings = Some("\"vim_mode\": true, \"use_modifier_to_send\": true".to_string());
    let keymap = Some(
        "[{ \"bindings\": { \"alt-a\": \"agent::ToggleFocus\", \"alt-p\": \"editor::Paste\" } }]"
            .to_string(),
    );
    let plan = plan_inject(&Args::default(), &None, &settings, &keymap);
    assert_eq!(plan.mode, EditorMode::Vim);
    assert!(plan.ctrl_enter);
    assert_eq!(plan.toggle_binding, "alt-a");
    assert_eq!(plan.paste_binding, "alt-p");

    let args = Args {
        mode: Some(EditorMode::Helix),
        toggle_keys: Some("f1".into()),
        paste_keys: Some("f2".into()),
        send_enter: true,
        ..Args::default()
    };
    let plan = plan_inject(&args, &None, &settings, &keymap);
    assert_eq!(plan.mode, EditorMode::Helix);
    assert!(!plan.ctrl_enter);
    assert_eq!(plan.toggle_binding, "f1");
    assert_eq!(plan.paste_binding, "f2");
}

#[test]
fn bindings_that_cannot_be_parsed_are_replaced() {
    let args = Args {
        mode: Some(EditorMode::Helix),
        toggle_keys: Some("j k".into()),
        paste_keys: Some("späti".into()),
        ..Args::default()
    };
    let keys = worker_keys(&args);
    assert_eq!(keys.toggle, vec![VK_LCONTROL, VK_LSHIFT, VK_OEM_2]);
    assert_eq!(keys.paste, vec![VK_LSHIFT, b'R' as u16]);
}

#[test]
fn enter_wins_over_ctrl_enter() {
    let both = Args { send_enter: true, send_ctrl_enter: true, ..Args::default() };
    assert_eq!(both.send_key(), Some(false));
    let ctrl = Args { send_ctrl_enter: true, ..Args::default() };
    assert_eq!(ctrl.send_key(), Some(true));
    assert_eq!(Args::default().send_key(), None);
}

#[test]
fn words_are_joined_to_the_message() {
    assert_eq!(Args::default().message(), "continue");
    let args = Args { message: vec!["go".into(), "on".into()], ..Args::default() };
    assert_eq!(args.message(), "go on");
}

#[test]
fn defaults_of_the_command_line() {
    let args = Args::default();
    assert_eq!(
        (args.wait, args.settle, args.grace, args.window_timeout, args.heads_up),
        (26, 10, 20, 16, 2)
    );
}

#[test]
fn a_check_comes_first() {
    let file = Some("out.txt".to_string());
    let args = Args { check: true, worker: true, dump_startup: file.clone(), ..Args::default() };
    assert_eq!(args.role(), Role::Check);
    let args = Args { worker: true, dump_startup: file.clone(), ..Args::default() };
    assert_eq!(args.role(), Role::Worker);
    let args = Args { dump_startup: file, ..Args::default() };
    assert_eq!(args.role(), Role::Dump);
    assert_eq!(Args::default().role(), Role::Launcher);
}

#[test]
fn a_start_is_reported() {
    assert_eq!(startup_text(10, "C:\\work"), "show=10 cwd=C:\\work");
}

#[test]
fn a_custom_paste_binding_wins_over_the_default_of_a_given_mode() {
    let keymap = Some(
        r#"[{"context":"vim_mode == normal","bindings":{"ctrl-p":"editor::Paste"}}]"#.to_string(),
    );
    let args = Args { mode: Some(EditorMode::Vim), ..Args::default() };
    let plan = plan_inject(&args, &None, &None, &keymap);
    assert_eq!(plan.mode, EditorMode::Vim);
    assert_eq!(plan.paste_binding, "ctrl-p");
    // It is not live in the other modes.
    let plan = plan_inject(&Args::default(), &None, &None, &keymap);
    assert_eq!(plan.paste_binding, "ctrl-v");
}
