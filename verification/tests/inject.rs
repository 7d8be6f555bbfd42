use windows_sys::Win32::UI::Input::KeyboardAndMouse::{VK_F15, VK_LCONTROL, VK_RETURN};
use zed_reload::action::{Action, Step};
use zed_reload::args::InjectKeys;
use zed_reload::foreground::{Foreground, Sight};
use zed_reload::inject::{inject, send_combo_codes, Inject, InjectEvent, InjectJob};
use zed_reload::window::Window;

fn job(old_was_focused: bool) -> InjectJob {
    InjectJob {
        message: "weiter, bitte ä".into(),
        settle_secs: 10,
        heads_up_secs: 2,
        old_was_focused,
        keys: InjectKeys { ctrl_enter: true, toggle: vec![162, 160, 191], paste: vec![160, 82] },
    }
}

fn window() -> InjectEvent {
    InjectEvent::Window(Some(Window { hwnd: 7, pid: 10, title: "work".into(), hung: false }))
}

fn look(in_front: bool) -> InjectEvent {
    InjectEvent::Sight(Sight { in_front, minimized: false, front_thread: 5, own_thread: 6 })
}

/// The looks of all attempts to bring the window to the foreground.
fn no_focus() -> Vec<InjectEvent> {
    (0..60).map(|_| look(false)).collect()
}

fn run(job: &InjectJob, events: Vec<InjectEvent>) -> (Inject, Vec<Step>) {
    let mut state = Inject::Window;
    let mut all = Vec::new();
    for event in events {
        let (next, steps) = inject(job, state, event);
        state = next;
        all.extend(steps);
    }
    (state, all)
}

fn typing() -> Vec<Step> {
    vec![
        Action::Info("sending agent::ToggleFocus  ([162, 160, 191])".into()),
        Action::SendCombo(vec![162, 160, 191]),
        Action::Sleep(1600),
        Action::Info("sending editor::Paste  ([160, 82])".into()),
        Action::SendCombo(vec![160, 82]),
        Action::Sleep(900),
        Action::Info("sending ctrl+enter  (send)".into()),
        Action::SendCombo(vec![VK_LCONTROL, VK_RETURN]),
        Action::Info("injected 15 chars".into()),
    ]
}

#[test]
fn an_injection_from_start_to_end() {
    let (state, steps) = run(
        &job(false),
        vec![
            window(),
            InjectEvent::Minimized(false),
            InjectEvent::Notified(Ok(())),
            look(true),
            InjectEvent::Clipboard(Some("old".into())),
            InjectEvent::Placed(Ok(())),
        ],
    );
    assert_eq!(state, Inject::Done(true));
    let mut expected: Vec<Step> = vec![
        Action::Info("window found pid=10 title='work'; settling 10s".into()),
        Action::Minimize(7),
        Action::Info("window minimized (launch focus-safe)".into()),
        Action::Pause(10),
        Action::Notify(
            "zed-reload".into(),
            "About to type into Zed in 2s — stop typing!".into(),
        ),
        Action::Info("heads-up delay: 2s  (stop typing!)".into()),
        Action::Pause(2),
        Action::Info("--- focusing Zed (injecting) ---".into()),
        Action::Info("foreground=true after 0 attempt(s)".into()),
        Action::Sleep(700),
        Action::Info("send key: ctrl+enter".into()),
        Action::SetClipboard("weiter, bitte ä".into()),
    ];
    expected.extend(typing());
    expected.extend(vec![
        Action::Sleep(400),
        Action::SetClipboard("old".into()),
        Action::Minimize(7),
        Action::Info("window minimized (injection done)".into()),
    ]);
    assert_eq!(steps, expected);
}

#[test]
fn a_user_in_zed_keeps_the_window() {
    let (state, steps) = run(
        &job(true),
        vec![
            window(),
            InjectEvent::Notified(Ok(())),
            look(true),
            InjectEvent::Clipboard(None),
            InjectEvent::Placed(Ok(())),
        ],
    );
    assert_eq!(state, Inject::Done(true));
    assert_eq!(
        steps[1],
        Action::Info("old session was focused — leaving window normal".into())
    );
    assert!(!steps.contains(&Action::Minimize(7)));
    let n = steps.len();
    assert_eq!(steps[n - 9..], typing()[..]);
}

#[test]
fn a_minimized_window_is_left_so() {
    let (state, steps) = run(&job(false), vec![window(), InjectEvent::Minimized(true)]);
    assert_eq!(state, Inject::Notified { hwnd: 7 });
    assert_eq!(steps[1], Action::Info("window already minimized".into()));
    assert!(!steps.contains(&Action::Minimize(7)));
}

#[test]
fn no_window_no_injection() {
    assert_eq!(run(&job(false), vec![InjectEvent::Window(None)]), (Inject::Done(false), vec![]));
}

#[test]
fn nothing_is_typed_without_focus() {
    let mut events = vec![window(), InjectEvent::Notified(Ok(()))];
    events.extend(no_focus());
    events.push(InjectEvent::Clipboard(None));
    events.push(InjectEvent::Placed(Ok(())));
    let (state, steps) = run(&job(true), events);
    assert_eq!(state, Inject::Done(false));
    assert_eq!(
        steps[steps.len() - 2..],
        [
            Action::Info("foreground=false after 15 attempts".into()),
            Action::Error("could not focus Zed window (injection)".into()),
        ]
    );
    assert!(!steps.iter().any(|s| matches!(s, Action::SendCombo(_))));
    // The phantom key was pressed once in each attempt.
    assert_eq!(steps.iter().filter(|s| **s == Action::Nudge(VK_F15)).count(), 15);
}

#[test]
fn the_window_is_raised_before_the_message_is_placed() {
    let (state, steps) =
        run(&job(true), vec![window(), InjectEvent::Notified(Ok(())), look(false)]);
    assert_eq!(state, Inject::Focus { hwnd: 7, at: Foreground::Switched(0) });
    assert_eq!(steps[steps.len() - 2..], [Action::SwitchTo(7), Action::Sleep(200)]);
    let (state, steps) =
        run(&job(true), vec![window(), InjectEvent::Notified(Ok(())), look(false), look(true)]);
    assert_eq!(state, Inject::Clipboard { hwnd: 7 });
    assert_eq!(
        steps[steps.len() - 3],
        Action::Info("foreground=true via SwitchToThisWindow (attempt 1)".into())
    );
}

#[test]
fn the_focus_warns_where_the_notification_fails() {
    let failed = || InjectEvent::Notified(Err("no tray".into()));
    let (state, steps) = run(&job(true), vec![window(), failed()]);
    assert_eq!(state, Inject::HeadsUpFocus { hwnd: 7, at: Foreground::Looking(0) });
    assert_eq!(
        steps[steps.len() - 2..],
        [
            Action::Error("notification failed: no tray; falling back to focus heads-up".into()),
            Action::Info("--- fallback: heads-up focus ---".into()),
        ]
    );
    let (state, steps) = run(&job(true), vec![window(), failed(), look(true)]);
    assert_eq!(state, Inject::Focus { hwnd: 7, at: Foreground::Looking(0) });
    assert_eq!(
        steps[steps.len() - 5..],
        [
            Action::Info("foreground=true after 0 attempt(s)".into()),
            Action::Sleep(500),
            Action::Info("heads-up delay: 2s  (stop typing!)".into()),
            Action::Pause(2),
            Action::Info("--- focusing Zed (injecting) ---".into()),
        ]
    );
    let mut events = vec![window(), failed()];
    events.extend(no_focus());
    let (state, steps) = run(&job(true), events);
    assert_eq!(state, Inject::Done(false));
    assert_eq!(
        steps.last(),
        Some(&Action::Error("could not focus Zed window (heads-up)".into()))
    );
}

#[test]
fn ctrl_v_is_logged_by_its_name() {
    let mut job = job(true);
    job.keys.paste = vec![VK_LCONTROL, b'V' as u16];
    let placed = Inject::Placed { hwnd: 7, old: None };
    let (_, steps) = inject(&job, placed, InjectEvent::Placed(Ok(())));
    assert_eq!(steps[3], Action::Info("sending ctrl+v  (paste)".into()));
}

#[test]
fn a_clipboard_that_cannot_be_set_ends_the_injection() {
    let (state, steps) = inject(
        &job(false),
        Inject::Placed { hwnd: 7, old: Some("old".into()) },
        InjectEvent::Placed(Err("OpenClipboard failed".into())),
    );
    assert_eq!(state, Inject::Done(false));
    assert_eq!(
        steps,
        vec![
            Action::Error("clipboard: OpenClipboard failed".into()),
            Action::Sleep(400),
            Action::SetClipboard("old".into()),
            Action::Minimize(7),
            Action::Info("window minimized (injection done)".into()),
        ]
    );
}

#[test]
fn the_send_key_has_codes() {
    assert_eq!(send_combo_codes(true), vec![VK_LCONTROL, VK_RETURN]);
    assert_eq!(send_combo_codes(false), vec![VK_RETURN]);
}
