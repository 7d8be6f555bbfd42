use zed_reload::action::Action;
use zed_reload::process::ProcessInfo;
use zed_reload::stop::{stop, Stop, StopEvent};
use zed_reload::window::DesktopWindow;

fn process(pid: u32, name: &str) -> ProcessInfo {
    ProcessInfo { pid, parent: 1, name: name.into(), path: None, started: None }
}

fn shown(hwnd: usize, pid: u32, title: &str) -> DesktopWindow {
    DesktopWindow { hwnd, pid, visible: true, title: title.into(), hung: false }
}

fn survey(foreground: usize) -> StopEvent {
    StopEvent::Survey {
        procs: vec![process(10, "Zed.exe"), process(11, "zed.exe"), process(12, "code.exe")],
        desktop: vec![shown(1, 10, "a"), shown(2, 11, "b"), shown(3, 10, "c")],
        foreground,
    }
}

#[test]
fn only_windows_of_the_target_are_closed() {
    let (state, steps) = stop(42, Some(10), Stop::Begin, &survey(3));
    assert_eq!(state, Stop::Waiting { pid: 10, was_focused: true });
    assert_eq!(
        steps,
        vec![
            Action::Info("WM_CLOSE pid=10 title='a'".into()),
            Action::Close(1),
            Action::Info("WM_CLOSE pid=10 title='c'".into()),
            Action::Close(3),
            Action::Info("old session focused: true".into()),
        ]
    );
    let (state, _) = stop(42, Some(10), Stop::Begin, &survey(2));
    assert_eq!(state, Stop::Waiting { pid: 10, was_focused: false });
}

#[test]
fn a_target_without_windows_is_waited_for() {
    let event = StopEvent::Survey {
        procs: vec![process(10, "Zed.exe")],
        desktop: vec![shown(2, 11, "b")],
        foreground: 0,
    };
    let (state, steps) = stop(42, Some(10), Stop::Begin, &event);
    assert_eq!(state, Stop::Waiting { pid: 10, was_focused: false });
    assert_eq!(
        steps,
        vec![
            Action::Info("target has no visible window to close".into()),
            Action::Info("old session focused: false".into()),
        ]
    );
}

#[test]
fn what_is_no_running_zed_is_left_alone() {
    for target in [None, Some(12), Some(99)] {
        let (state, steps) = stop(42, target, Stop::Begin, &survey(1));
        assert_eq!(state, Stop::Done(false));
        assert_eq!(
            steps,
            vec![Action::Info("no live target Zed process — nothing to stop".into())]
        );
    }
}

#[test]
fn the_target_is_killed_when_its_time_is_over() {
    let waiting = Stop::Waiting { pid: 10, was_focused: true };
    let checking = Stop::Checking { pid: 10, was_focused: true };
    let (state, steps) = stop(42, Some(10), waiting, &StopEvent::Elapsed(41_999_999_999));
    assert_eq!(state, checking);
    assert_eq!(steps, vec![Action::Sleep(500)]);

    let (state, steps) =
        stop(42, Some(10), checking, &StopEvent::Processes(vec![process(10, "zed.exe")]));
    assert_eq!(state, waiting);
    assert_eq!(steps, vec![]);

    let (state, steps) = stop(42, Some(10), waiting, &StopEvent::Elapsed(42_000_000_000));
    assert_eq!(state, Stop::Done(true));
    assert_eq!(
        steps,
        vec![
            Action::Info("graceful close timed out after 42s — force killing pid 10".into()),
            Action::Kill(10),
            Action::Pause(2),
        ]
    );
    // The longest time does not overflow.
    let (state, _) = stop(u64::MAX, Some(10), waiting, &StopEvent::Elapsed(u64::MAX as u128));
    assert_eq!(state, checking);
    // No time at all is over at once.
    let (state, _) = stop(0, Some(10), waiting, &StopEvent::Elapsed(0));
    assert_eq!(state, Stop::Done(true));
}

#[test]
fn a_target_that_exits_is_not_killed() {
    let checking = Stop::Checking { pid: 10, was_focused: false };
    let (state, steps) =
        stop(42, Some(10), checking, &StopEvent::Processes(vec![process(10, "code.exe")]));
    assert_eq!(state, Stop::Done(false));
    assert_eq!(steps, vec![Action::Info("Zed exited gracefully".into())]);
}

#[test]
fn other_events_change_nothing() {
    let (state, steps) = stop(42, Some(10), Stop::Begin, &StopEvent::Elapsed(0));
    assert_eq!((state, steps), (Stop::Begin, vec![]));
    let (state, steps) = stop(42, Some(10), Stop::Done(true), &survey(1));
    assert_eq!((state, steps), (Stop::Done(true), vec![]));
}
