use zed_reload::process::ProcessInfo;
use zed_reload::window::{
    choose_window, enum_windows, title_filter, windows, windows_for, windows_since, DesktopWindow,
    Window,
};

#[test]
fn title_filter_prefers_explicit_window_title() {
    let project = Some("F:\\workspace\\zed-reload".into());
    let wt = Some("nightly".into());
    assert_eq!(title_filter(&project, &wt).unwrap(), "nightly");
}

#[test]
fn title_filter_derives_project_folder_name() {
    let project = Some("F:\\workspace\\zed-reload".into());
    assert_eq!(title_filter(&project, &None).unwrap(), "zed-reload");
}

#[test]
fn title_filter_requires_something_to_match() {
    assert_eq!(title_filter(&None, &None), None);
    // A root path has no folder name to match against.
    assert_eq!(title_filter(&Some("C:\\".into()), &None), None);
}

fn shown(hwnd: usize, pid: u32, title: &str) -> DesktopWindow {
    DesktopWindow { hwnd, pid, visible: true, title: title.into(), hung: false }
}

fn window(hwnd: usize, pid: u32, title: &str) -> Window {
    Window { hwnd, pid, title: title.into(), hung: false }
}

fn zed(pid: u32, path: Option<&str>, started: Option<u64>) -> ProcessInfo {
    ProcessInfo {
        pid,
        parent: 1,
        name: "Zed.exe".into(),
        path: path.map(|p| p.into()),
        started,
    }
}

#[test]
fn titled_windows_are_preferred() {
    let mut desktop = vec![shown(1, 10, ""), shown(2, 10, "a"), shown(3, 11, "b"), shown(4, 0, "c")];
    desktop.push(DesktopWindow { visible: false, ..shown(5, 10, "d") });
    assert_eq!(enum_windows(&desktop, &vec![10]), vec![window(2, 10, "a")]);
    assert_eq!(
        enum_windows(&desktop, &vec![11, 10]),
        vec![window(2, 10, "a"), window(3, 11, "b")]
    );
    assert_eq!(enum_windows(&desktop[..1].iter().map(|w| shown(w.hwnd, w.pid, &w.title)).collect(), &vec![10]), vec![window(1, 10, "")]);
    // The process 0 owns nothing.
    assert_eq!(enum_windows(&desktop, &vec![0]), vec![]);
    assert_eq!(enum_windows(&desktop, &vec![]), vec![]);
}

#[test]
fn windows_of_zed_processes() {
    let procs = vec![zed(10, Some("C:\\zed.exe"), Some(5)), zed(11, Some("D:\\zed.exe"), Some(6))];
    let desktop = vec![shown(1, 10, "a"), shown(2, 11, "b"), shown(3, 12, "c")];
    assert_eq!(windows(&procs, &desktop), vec![window(1, 10, "a"), window(2, 11, "b")]);
    assert_eq!(windows_for(&procs, &desktop, "d:\\ZED.exe"), vec![window(2, 11, "b")]);
    assert_eq!(windows(&vec![], &desktop), vec![]);
}

#[test]
fn survivors_are_left_out() {
    let procs = vec![
        zed(10, Some("C:\\zed.exe"), Some(99)),
        zed(11, Some("C:\\zed.exe"), Some(100)),
        zed(12, Some("C:\\zed.exe"), None),
        zed(13, None, Some(200)),
        zed(14, Some("D:\\zed.exe"), Some(200)),
    ];
    let desktop: Vec<DesktopWindow> =
        (10..15).map(|pid| shown(pid as usize, pid, "project")).collect();
    assert_eq!(
        windows_since(&procs, &desktop, "C:\\zed.exe", 100),
        vec![window(11, 11, "project")]
    );
}

#[test]
fn the_first_matching_title_is_chosen() {
    let all = vec![window(1, 10, "Other"), window(2, 10, "My PROJECT — Zed"), window(3, 10, "project")];
    assert_eq!(choose_window(&all, &Some("Project".into())), Some(window(2, 10, "My PROJECT — Zed")));
    assert_eq!(choose_window(&all, &None), Some(window(1, 10, "Other")));
    assert_eq!(choose_window(&all, &Some("missing".into())), None);
    assert_eq!(choose_window(&vec![], &None), None);
    // Not only ASCII letters are folded.
    let all = vec![window(1, 10, "ÜBUNG")];
    assert_eq!(choose_window(&all, &Some("übung".into())), Some(window(1, 10, "ÜBUNG")));
}
