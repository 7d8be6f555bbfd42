use zed_reload::args::Args;
use zed_reload::check::{run_check, Survey};
use zed_reload::process::ProcessInfo;
use zed_reload::window::DesktopWindow;

fn zed(pid: u32) -> ProcessInfo {
    ProcessInfo {
        pid,
        parent: 1,
        name: "zed.exe".into(),
        path: Some("C:\\Zed\\zed.exe".into()),
        started: None,
    }
}

fn survey(procs: Vec<ProcessInfo>) -> Survey {
    Survey {
        own_exe: Some("C:\\bin\\zed-reload.exe".into()),
        zed_exe: Some("C:\\Zed\\zed.exe".into()),
        procs,
        desktop: vec![DesktopWindow {
            hwnd: 1,
            pid: 20,
            visible: true,
            title: "work".into(),
            hung: true,
        }],
        pid: 30,
        appdata: Some("C:\\AppData".into()),
        settings: Some("\"helix_mode\": true, \"use_modifier_to_send\": true".into()),
        keymap: None,
        exe_dir: Some("C:\\bin".into()),
    }
}

#[test]
fn a_check_shows_what_would_be_used() {
    let (lines, code) = run_check(&Args::default(), &survey(vec![zed(20)]));
    assert_eq!(code, 0);
    assert_eq!(
        lines,
        vec![
            "zed-reload check",
            "  self       : C:\\bin\\zed-reload.exe",
            "  zed exe    : C:\\Zed\\zed.exe",
            "  zed running: C:\\Zed\\zed.exe",
            "  zed target : pid 20",
            "  zed windows: 1",
            "    pid=20 hung=true title='work'",
            "  config dir : C:\\AppData\\Zed",
            "  edit mode  : helix",
            "  send key   : ctrl+enter (effective)",
            "  toggle key : ctrl-shift-/ (Some([162, 160, 191])) (effective)",
            "  paste key  : shift-r (Some([160, 82])) (effective)",
            "  log file   : C:\\bin\\zed-reload.log",
        ]
    );
}

#[test]
fn a_check_shows_what_is_missing() {
    let args = Args { toggle_keys: Some("j k".into()), ..Args::default() };
    let mut survey = survey(vec![]);
    survey.own_exe = None;
    survey.zed_exe = None;
    let (lines, code) = run_check(&args, &survey);
    assert_eq!(code, 4);
    assert_eq!(
        lines[1..5],
        ["  self       : ", "  zed exe    : NOT FOUND", "  zed running: (none)", "  zed windows: 0"]
    );
    assert!(lines.contains(&"  toggle key : j k (None) (effective)".to_string()));
}

#[test]
fn a_check_shows_an_ambiguous_target() {
    let (lines, _) = run_check(&Args::default(), &survey(vec![zed(20), zed(21)]));
    assert_eq!(
        lines[3],
        "  zed running: AMBIGUOUS — no Zed ancestor and several Zed processes are running — \
         cannot tell which to restart (pass --zed-pid or --zed-path):\n  pid 20: C:\\Zed\\zed.exe\n  \
         pid 21: C:\\Zed\\zed.exe"
    );
    let args = Args { zed_path: Some("D:\\zed.exe".into()), ..Args::default() };
    let (lines, _) = run_check(&args, &survey(vec![zed(20), zed(21)]));
    assert_eq!(lines[3..5], ["  zed running: D:\\zed.exe", "  zed target : (stop nothing)"]);
}
