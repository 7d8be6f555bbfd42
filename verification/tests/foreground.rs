use windows_sys::Win32::UI::Input::KeyboardAndMouse::VK_F15;
use zed_reload::action::{Action, Step};
use zed_reload::foreground::{force_foreground, Foreground, Sight};

fn sight(in_front: bool) -> Sight {
    Sight { in_front, minimized: false, front_thread: 5, own_thread: 6 }
}

fn run(sights: Vec<Sight>) -> (Foreground, Vec<Step>) {
    let mut state = Foreground::Looking(0);
    let mut all = Vec::new();
    for sight in sights {
        let (next, steps) = force_foreground(7, state, &sight);
        state = next;
        all.extend(steps);
    }
    (state, all)
}

#[test]
fn a_window_in_front_is_left_there() {
    let (state, steps) = run(vec![sight(true)]);
    assert_eq!(state, Foreground::Done(true));
    assert_eq!(steps, vec![Action::Info("foreground=true after 0 attempt(s)".into())]);
}

#[test]
fn an_attempt_goes_through_its_ways() {
    let (state, steps) = run(vec![sight(false), sight(false), sight(false), sight(true)]);
    assert_eq!(state, Foreground::Done(true));
    assert_eq!(
        steps,
        vec![
            Action::SwitchTo(7),
            Action::Sleep(200),
            Action::RaiseAttached(7, 5),
            Action::Sleep(200),
            Action::Nudge(VK_F15),
            Action::SetForeground(7),
            Action::Sleep(250),
            Action::Info("foreground=true via F15+SetForegroundWindow (attempt 1)".into()),
        ]
    );
}

#[test]
fn each_way_reports_itself() {
    let (_, steps) = run(vec![sight(false), sight(true)]);
    assert_eq!(
        steps.last(),
        Some(&Action::Info("foreground=true via SwitchToThisWindow (attempt 1)".into()))
    );
    let (_, steps) = run(vec![sight(false), sight(false), sight(true)]);
    assert_eq!(
        steps.last(),
        Some(&Action::Info("foreground=true via AttachThreadInput (attempt 1)".into()))
    );
    let (_, steps) =
        run(vec![sight(false), sight(false), sight(false), sight(false), sight(true)]);
    assert_eq!(
        steps.last(),
        Some(&Action::Info("foreground=true after 1 attempt(s)".into()))
    );
}

#[test]
fn a_minimized_window_is_restored() {
    let look = Sight { in_front: false, minimized: true, front_thread: 5, own_thread: 6 };
    let (state, steps) = force_foreground(7, Foreground::Looking(3), &look);
    assert_eq!(state, Foreground::Switched(3));
    assert_eq!(steps, vec![Action::Restore(7), Action::SwitchTo(7), Action::Sleep(200)]);
}

#[test]
fn no_thread_is_attached_to_itself() {
    for front_thread in [0, 6] {
        let look = Sight { in_front: false, minimized: false, front_thread, own_thread: 6 };
        let (state, steps) = force_foreground(7, Foreground::Switched(0), &look);
        assert_eq!(state, Foreground::Raised(0));
        assert_eq!(steps, vec![Action::SetForeground(7), Action::Sleep(200)]);
    }
}

#[test]
fn fifteen_attempts_are_made() {
    let (state, _) = run((0..59).map(|_| sight(false)).collect());
    assert_eq!(state, Foreground::Nudged(14));
    let (state, steps) = run((0..60).map(|_| sight(false)).collect());
    assert_eq!(state, Foreground::Done(false));
    assert_eq!(
        steps.last(),
        Some(&Action::Info("foreground=false after 15 attempts".into()))
    );
    let (state, steps) = force_foreground(7, Foreground::Done(false), &sight(true));
    assert_eq!((state, steps), (Foreground::Done(false), vec![]));
}
