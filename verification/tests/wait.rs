use zed_reload::action::Action;
use zed_reload::process::ProcessInfo;
use zed_reload::wait::{announce_wait, wait_for_window, Wait, WaitJob, WindowPoll};
use zed_reload::window::{DesktopWindow, Window};

fn job(filter: Option<&str>) -> WaitJob {
    WaitJob {
        filter: filter.map(|f| f.into()),
        timeout_secs: 16,
        exe: "C:\\zed.exe".into(),
        not_before: 100,
    }
}

fn poll(elapsed: u128, started: u64, title: &str) -> WindowPoll {
    WindowPoll {
        elapsed,
        procs: vec![ProcessInfo {
            pid: 10,
            parent: 1,
            name: "zed.exe".into(),
            path: Some("C:\\Zed.exe".into()),
            started: Some(started),
        }],
        desktop: vec![DesktopWindow {
            hwnd: 7,
            pid: 10,
            visible: true,
            title: title.into(),
            hung: true,
        }],
    }
}

#[test]
fn the_wait_is_announced() {
    assert_eq!(
        announce_wait(&job(Some("work"))),
        vec![Action::Info("waiting for window title containing 'work'".into())]
    );
    assert_eq!(announce_wait(&job(None)), vec![]);
}

#[test]
fn the_new_window_is_found() {
    let (next, steps) = wait_for_window(&job(Some("Work")), &poll(0, 100, "my WORK — Zed"));
    let window = Window { hwnd: 7, pid: 10, title: "my WORK — Zed".into(), hung: true };
    assert_eq!(next, Wait::Found(window));
    assert_eq!(steps, vec![]);
    let (next, _) = wait_for_window(&job(None), &poll(15_999_999_999, 100, ""));
    assert_eq!(next, Wait::Found(Window { hwnd: 7, pid: 10, title: "".into(), hung: true }));
}

#[test]
fn other_windows_are_not_taken() {
    // A survivor with the right title, and a new window with another one.
    for look in [poll(0, 99, "work"), poll(0, 100, "other")] {
        let (next, steps) = wait_for_window(&job(Some("work")), &look);
        assert_eq!(next, Wait::Again);
        assert_eq!(steps, vec![Action::Sleep(500)]);
    }
}

#[test]
fn the_wait_ends() {
    let (next, steps) = wait_for_window(&job(Some("work")), &poll(16_000_000_000, 100, "work"));
    assert_eq!(next, Wait::TimedOut);
    assert_eq!(
        steps,
        vec![Action::Error(
            "no Zed window matching 'work' within 16s — not injecting (strict: caller's session \
             only; retry with --window-title to override)"
                .into()
        )]
    );
    let (_, steps) = wait_for_window(&job(None), &poll(17_000_000_000, 100, "work"));
    assert_eq!(steps, vec![Action::Error("no Zed window within 16s".into())]);
}
