//! Injecting a message into the Agent Panel.
//!
//! 1. Wait for the Zed window; minimize it, unless the user was in Zed; settle.
//! 2. Warn the user by a notification, which never steals the focus.
//! 3. Give the user time to stop typing.
//! 4. Bring Zed to the foreground and inject: toggle the panel, paste, send.
//! 5. Restore the clipboard; minimize the window again, unless the user was in
//!    Zed.
use vstd::prelude::*;

use crate::action::{
    combos, effects, entries, errors, lemma_combos_add, lemma_effects_add, lemma_effects_push,
    lemma_entries_add, lemma_entries_push, lemma_errors_add, lemma_errors_push, no_steps, push_step,
    steps_view, Action, Step, StepView,
};
use crate::args::{InjectKeys, KeysView};
use crate::codes::{edit_codes, edit_keys, modifier_codes, modifier_keys};
use crate::foreground::{
    force_foreground, foreground_next, law_fifteen_attempts, law_nothing_is_done_once_in_front,
    lemma_raising, looks_left, Foreground, Sight,
};
use crate::text::{chars_of, decimal, list_text, owned, push_decimal, push_list, some_text};
use crate::window::{Window, WindowView};

verus! {

/// What to inject, and how.
#[derive(Debug, PartialEq, Eq)]
pub struct InjectJob {
    pub message: String,
    /// Seconds to wait after the window appears.
    pub settle_secs: u64,
    /// Seconds of warning.
    pub heads_up_secs: u64,
    /// The old session was in the foreground when it was stopped.
    pub old_was_focused: bool,
    pub keys: InjectKeys,
}

/// What to inject, and how, as contracts speak of it.
pub ghost struct InjectJobView {
    pub message: Seq<char>,
    pub settle_secs: u64,
    pub heads_up_secs: u64,
    pub old_was_focused: bool,
    pub keys: KeysView,
}

impl View for InjectJob {
    type V = InjectJobView;

    open spec fn view(&self) -> InjectJobView {
        InjectJobView {
            message: self.message@,
            settle_secs: self.settle_secs,
            heads_up_secs: self.heads_up_secs,
            old_was_focused: self.old_was_focused,
            keys: self.keys@,
        }
    }
}

/// How far an injection has come.
#[derive(Debug, PartialEq, Eq)]
pub enum Inject {
    /// Waits for the window of the new session.
    Window,
    /// Waits to hear whether the window is minimized.
    Minimized { hwnd: usize },
    /// Waits for the outcome of the notification.
    Notified { hwnd: usize },
    /// The window is being brought to the foreground, which is the warning where
    /// there is no notification.
    HeadsUpFocus { hwnd: usize, at: Foreground },
    /// The window is being brought to the foreground.
    Focus { hwnd: usize, at: Foreground },
    /// Waits for the text in the clipboard.
    Clipboard { hwnd: usize },
    /// The message was put into the clipboard; waits for the outcome.
    Placed { hwnd: usize, old: Option<String> },
    /// Over; says whether the message was sent.
    Done(bool),
}

/// How far an injection has come, as contracts speak of it.
pub ghost enum InjectView {
    Window,
    Minimized { hwnd: usize },
    Notified { hwnd: usize },
    HeadsUpFocus { hwnd: usize, at: Foreground },
    Focus { hwnd: usize, at: Foreground },
    Clipboard { hwnd: usize },
    Placed { hwnd: usize, old: Option<Seq<char>> },
    Done(bool),
}

impl View for Inject {
    type V = InjectView;

    open spec fn view(&self) -> InjectView {
        match self {
            Inject::Window => InjectView::Window,
            Inject::Minimized { hwnd } => InjectView::Minimized { hwnd: *hwnd },
            Inject::Notified { hwnd } => InjectView::Notified { hwnd: *hwnd },
            Inject::HeadsUpFocus { hwnd, at } => InjectView::HeadsUpFocus {
                hwnd: *hwnd,
                at: *at,
            },
            Inject::Focus { hwnd, at } => InjectView::Focus { hwnd: *hwnd, at: *at },
            Inject::Clipboard { hwnd } => InjectView::Clipboard { hwnd: *hwnd },
            Inject::Placed { hwnd, old } => InjectView::Placed {
                hwnd: *hwnd,
                old: some_text(*old),
            },
            Inject::Done(ok) => InjectView::Done(*ok),
        }
    }
}

/// What an injection learns.
#[derive(Debug, PartialEq, Eq)]
pub enum InjectEvent {
    /// The window of the new session, if it appeared.
    Window(Option<Window>),
    /// Whether the window is minimized.
    Minimized(bool),
    /// The outcome of the notification.
    Notified(Result<(), String>),
    /// A look at the foreground.
    Sight(Sight),
    /// The text in the clipboard, if there is one.
    Clipboard(Option<String>),
    /// The outcome of putting the message into the clipboard.
    Placed(Result<(), String>),
}

// ---------------------------------------------------------------------------
// texts
// ---------------------------------------------------------------------------

/// The entry for the window that was found.
pub open spec fn found_entry(w: WindowView, settle_secs: u64) -> Seq<char> {
    "window found pid="@ + decimal(w.pid as nat) + " title='"@ + w.title + "'; settling "@
        + decimal(settle_secs as nat) + "s"@
}

/// The text of the notification.
pub open spec fn notice_text(heads_up_secs: u64) -> Seq<char> {
    "About to type into Zed in "@ + decimal(heads_up_secs as nat) + "s — stop typing!"@
}

/// The name of the send key.
pub open spec fn send_key_name(ctrl_enter: bool) -> Seq<char> {
    if ctrl_enter {
        "ctrl+enter"@
    } else {
        "enter"@
    }
}

/// The name of the send key.
pub fn send_key_text(ctrl_enter: bool) -> (s: String)
    ensures
        s@ == send_key_name(ctrl_enter),
{
    if ctrl_enter {
        owned("ctrl+enter")
    } else {
        owned("enter")
    }
}

// ---------------------------------------------------------------------------
// transitions
// ---------------------------------------------------------------------------

/// Settle, then warn the user.
pub open spec fn settle_steps(job: InjectJobView) -> Seq<StepView> {
    seq![
        Action::Pause(job.settle_secs),
        Action::Notify("zed-reload"@, notice_text(job.heads_up_secs)),
    ]
}

/// Give the user time, then go for the focus.
pub open spec fn delay_steps(job: InjectJobView) -> Seq<StepView> {
    seq![
        Action::Info(
            "heads-up delay: "@ + decimal(job.heads_up_secs as nat) + "s  (stop typing!)"@,
        ),
        Action::Pause(job.heads_up_secs),
        Action::Info("--- focusing Zed (injecting) ---"@),
    ]
}

/// The codes of the send key.
pub open spec fn send_codes(ctrl_enter: bool) -> Seq<u16> {
    if ctrl_enter {
        seq![modifier_codes().control, edit_codes().enter]
    } else {
        seq![edit_codes().enter]
    }
}

/// The codes of ctrl+v.
pub open spec fn ctrl_v() -> Seq<u16> {
    seq![modifier_codes().control, 0x56]
}

/// The entry for the paste keys.
pub open spec fn paste_entry(keys: Seq<u16>) -> Seq<char> {
    if keys == ctrl_v() {
        "sending ctrl+v  (paste)"@
    } else {
        "sending editor::Paste  ("@ + list_text(keys) + ")"@
    }
}

/// Type: toggle the panel, paste, send.
pub open spec fn type_steps(job: InjectJobView) -> Seq<StepView> {
    seq![
        Action::Info("sending agent::ToggleFocus  ("@ + list_text(job.keys.toggle) + ")"@),
        Action::SendCombo(job.keys.toggle),
        Action::Sleep(1600),
        Action::Info(paste_entry(job.keys.paste)),
        Action::SendCombo(job.keys.paste),
        Action::Sleep(900),
        Action::Info("sending "@ + send_key_name(job.keys.ctrl_enter) + "  (send)"@),
        Action::SendCombo(send_codes(job.keys.ctrl_enter)),
        Action::Info("injected "@ + decimal(job.message.len()) + " chars"@),
    ]
}

/// Put the old text back into the clipboard.
pub open spec fn restore_steps(old: Option<Seq<char>>) -> Seq<StepView> {
    match old {
        Some(old) => seq![Action::Sleep(400), Action::SetClipboard(old)],
        None => Seq::empty(),
    }
}

/// Give the focus back.
pub open spec fn release_steps(job: InjectJobView, hwnd: usize) -> Seq<StepView> {
    if job.old_was_focused {
        Seq::empty()
    } else {
        seq![Action::Minimize(hwnd), Action::Info("window minimized (injection done)"@)]
    }
}

/// What follows when the window is there.
pub open spec fn window_found(job: InjectJobView, w: WindowView) -> (InjectView, Seq<StepView>) {
    let found: Seq<StepView> = seq![Action::Info(found_entry(w, job.settle_secs))];
    if job.old_was_focused {
        (
            InjectView::Notified { hwnd: w.hwnd },
            found.push(Action::Info("old session was focused — leaving window normal"@))
                + settle_steps(job),
        )
    } else {
        (InjectView::Minimized { hwnd: w.hwnd }, found)
    }
}

/// What follows on an event; one that the state does not wait for changes
/// nothing.
pub open spec fn inject_next(job: InjectJobView, state: InjectView, event: InjectEvent) -> (
    InjectView,
    Seq<StepView>,
) {
    match (state, event) {
        (InjectView::Window, InjectEvent::Window(None)) => (InjectView::Done(false), Seq::empty()),
        (InjectView::Window, InjectEvent::Window(Some(w))) => window_found(job, w@),
        (InjectView::Minimized { hwnd }, InjectEvent::Minimized(already)) => (
            InjectView::Notified { hwnd },
            (if already {
                seq![Action::Info("window already minimized"@)]
            } else {
                seq![
                    Action::Minimize(hwnd),
                    Action::Info("window minimized (launch focus-safe)"@),
                ]
            }) + settle_steps(job),
        ),
        (InjectView::Notified { hwnd }, InjectEvent::Notified(Ok(_))) => (
            InjectView::Focus { hwnd, at: Foreground::Looking(0) },
            delay_steps(job),
        ),
        (InjectView::Notified { hwnd }, InjectEvent::Notified(Err(e))) => (
            InjectView::HeadsUpFocus { hwnd, at: Foreground::Looking(0) },
            seq![
                Action::Error(
                    "notification failed: "@ + e@ + "; falling back to focus heads-up"@,
                ),
                Action::Info("--- fallback: heads-up focus ---"@),
            ],
        ),
        (InjectView::HeadsUpFocus { hwnd, at }, InjectEvent::Sight(sight)) => {
            let next = foreground_next(hwnd, at, sight);
            match next.0 {
                Foreground::Done(true) => (
                    InjectView::Focus { hwnd, at: Foreground::Looking(0) },
                    next.1.push(Action::Sleep(500)) + delay_steps(job),
                ),
                Foreground::Done(false) => (
                    InjectView::Done(false),
                    next.1.push(Action::Error("could not focus Zed window (heads-up)"@)),
                ),
                at => (InjectView::HeadsUpFocus { hwnd, at }, next.1),
            }
        },
        (InjectView::Focus { hwnd, at }, InjectEvent::Sight(sight)) => {
            let next = foreground_next(hwnd, at, sight);
            match next.0 {
                Foreground::Done(true) => (
                    InjectView::Clipboard { hwnd },
                    next.1.push(Action::Sleep(700)).push(
                        Action::Info("send key: "@ + send_key_name(job.keys.ctrl_enter)),
                    ),
                ),
                Foreground::Done(false) => (
                    InjectView::Done(false),
                    next.1.push(Action::Error("could not focus Zed window (injection)"@)),
                ),
                at => (InjectView::Focus { hwnd, at }, next.1),
            }
        },
        (InjectView::Clipboard { hwnd }, InjectEvent::Clipboard(old)) => (
            InjectView::Placed { hwnd, old: some_text(old) },
            seq![Action::SetClipboard(job.message)],
        ),
        (InjectView::Placed { hwnd, old }, InjectEvent::Placed(Ok(_))) => (
            InjectView::Done(true),
            type_steps(job) + restore_steps(old) + release_steps(job, hwnd),
        ),
        (InjectView::Placed { hwnd, old }, InjectEvent::Placed(Err(e))) => (
            InjectView::Done(false),
            seq![Action::Error("clipboard: "@ + e@)] + restore_steps(old) + release_steps(
                job,
                hwnd,
            ),
        ),
        _ => (state, Seq::empty()),
    }
}

fn push_settle(steps: &mut Vec<Step>, job: &InjectJob)
    ensures
        steps_view(final(steps)@) == steps_view(old(steps)@) + settle_steps(job@),
{
    push_step(steps, Action::Pause(job.settle_secs));
    let mut notice = owned("About to type into Zed in ");
    push_decimal(&mut notice, job.heads_up_secs as u128);
    notice.append("s — stop typing!");
    push_step(steps, Action::Notify(owned("zed-reload"), notice));
    assert(steps_view(steps@) == steps_view(old(steps)@) + settle_steps(job@));
}

fn push_delay(steps: &mut Vec<Step>, job: &InjectJob)
    ensures
        steps_view(final(steps)@) == steps_view(old(steps)@) + delay_steps(job@),
{
    let mut entry = owned("heads-up delay: ");
    push_decimal(&mut entry, job.heads_up_secs as u128);
    entry.append("s  (stop typing!)");
    push_step(steps, Action::Info(entry));
    push_step(steps, Action::Pause(job.heads_up_secs));
    push_step(steps, Action::Info(owned("--- focusing Zed (injecting) ---")));
    assert(steps_view(steps@) == steps_view(old(steps)@) + delay_steps(job@));
}

/// The codes of the send key.
pub fn send_combo_codes(ctrl_enter: bool) -> (codes: Vec<u16>)
    ensures
        codes@ == send_codes(ctrl_enter),
{
    let mut codes: Vec<u16> = Vec::new();
    if ctrl_enter {
        codes.push(modifier_keys().control);
    }
    codes.push(edit_keys().enter);
    assert(codes@ == send_codes(ctrl_enter));
    codes
}

fn make_paste_entry(keys: &Vec<u16>) -> (entry: String)
    ensures
        entry@ == paste_entry(keys@),
{
    if keys.len() == 2 && keys[0] == modifier_keys().control && keys[1] == 0x56 {
        assert(keys@ == ctrl_v());
        owned("sending ctrl+v  (paste)")
    } else {
        let mut entry = owned("sending editor::Paste  (");
        push_list(&mut entry, keys);
        entry.append(")");
        entry
    }
}

fn push_typing(steps: &mut Vec<Step>, job: &InjectJob)
    ensures
        steps_view(final(steps)@) == steps_view(old(steps)@) + type_steps(job@),
{
    let mut entry = owned("sending agent::ToggleFocus  (");
    push_list(&mut entry, &job.keys.toggle);
    entry.append(")");
    push_step(steps, Action::Info(entry));
    push_step(steps, Action::SendCombo(job.keys.toggle.clone()));
    push_step(steps, Action::Sleep(1600));
    push_step(steps, Action::Info(make_paste_entry(&job.keys.paste)));
    push_step(steps, Action::SendCombo(job.keys.paste.clone()));
    push_step(steps, Action::Sleep(900));
    let mut entry = owned("sending ");
    let name = send_key_text(job.keys.ctrl_enter);
    entry.append(name.as_str());
    entry.append("  (send)");
    push_step(steps, Action::Info(entry));
    push_step(steps, Action::SendCombo(send_combo_codes(job.keys.ctrl_enter)));
    let mut entry = owned("injected ");
    let chars = chars_of(job.message.as_str());
    push_decimal(&mut entry, chars.len() as u128);
    entry.append(" chars");
    push_step(steps, Action::Info(entry));
    assert(steps_view(steps@) == steps_view(old(steps)@) + type_steps(job@));
}

fn push_end(steps: &mut Vec<Step>, job: &InjectJob, hwnd: usize, old_text: Option<String>)
    ensures
        steps_view(final(steps)@) == steps_view(old(steps)@) + restore_steps(some_text(old_text))
            + release_steps(job@, hwnd),
{
    let ghost restored = restore_steps(some_text(old_text));
    if let Some(text) = old_text {
        push_step(steps, Action::Sleep(400));
        push_step(steps, Action::SetClipboard(text));
    }
    assert(steps_view(steps@) == steps_view(old(steps)@) + restored);
    if !job.old_was_focused {
        push_step(steps, Action::Minimize(hwnd));
        push_step(steps, Action::Info(owned("window minimized (injection done)")));
    }
    assert(steps_view(steps@) == steps_view(old(steps)@) + restored + release_steps(job@, hwnd));
}

/// Injects the message of `job` into the Agent Panel: one step.
pub fn inject(job: &InjectJob, state: Inject, event: InjectEvent) -> (r: (Inject, Vec<Step>))
    ensures
        (r.0@, steps_view(r.1@)) == inject_next(job@, state@, event),
{
    let mut steps = no_steps();
    let ghost none = Seq::<StepView>::empty();
    match (state, event) {
        (Inject::Window, InjectEvent::Window(window)) => match window {
            None => (Inject::Done(false), steps),
            Some(w) => {
                let mut entry = owned("window found pid=");
                push_decimal(&mut entry, w.pid as u128);
                entry.append(" title='");
                entry.append(w.title.as_str());
                entry.append("'; settling ");
                push_decimal(&mut entry, job.settle_secs as u128);
                entry.append("s");
                push_step(&mut steps, Action::Info(entry));
                if job.old_was_focused {
                    push_step(
                        &mut steps,
                        Action::Info(owned("old session was focused — leaving window normal")),
                    );
                    push_settle(&mut steps, job);
                    (Inject::Notified { hwnd: w.hwnd }, steps)
                } else {
                    (Inject::Minimized { hwnd: w.hwnd }, steps)
                }
            },
        },
        (Inject::Minimized { hwnd }, InjectEvent::Minimized(already)) => {
            if already {
                push_step(&mut steps, Action::Info(owned("window already minimized")));
            } else {
                push_step(&mut steps, Action::Minimize(hwnd));
                push_step(
                    &mut steps,
                    Action::Info(owned("window minimized (launch focus-safe)")),
                );
            }
            push_settle(&mut steps, job);
            (Inject::Notified { hwnd }, steps)
        },
        (Inject::Notified { hwnd }, InjectEvent::Notified(outcome)) => match outcome {
            Ok(_) => {
                push_delay(&mut steps, job);
                assert(none + delay_steps(job@) == delay_steps(job@));
                (Inject::Focus { hwnd, at: Foreground::Looking(0) }, steps)
            },
            Err(e) => {
                let mut entry = owned("notification failed: ");
                entry.append(e.as_str());
                entry.append("; falling back to focus heads-up");
                push_step(&mut steps, Action::Error(entry));
                push_step(&mut steps, Action::Info(owned("--- fallback: heads-up focus ---")));
                (Inject::HeadsUpFocus { hwnd, at: Foreground::Looking(0) }, steps)
            },
        },
        (Inject::HeadsUpFocus { hwnd, at }, InjectEvent::Sight(sight)) => {
            let (next, mut steps) = force_foreground(hwnd, at, &sight);
            match next {
                Foreground::Done(true) => {
                    push_step(&mut steps, Action::Sleep(500));
                    push_delay(&mut steps, job);
                    (Inject::Focus { hwnd, at: Foreground::Looking(0) }, steps)
                },
                Foreground::Done(false) => {
                    push_step(
                        &mut steps,
                        Action::Error(owned("could not focus Zed window (heads-up)")),
                    );
                    (Inject::Done(false), steps)
                },
                at => (Inject::HeadsUpFocus { hwnd, at }, steps),
            }
        },
        (Inject::Focus { hwnd, at }, InjectEvent::Sight(sight)) => {
            let (next, mut steps) = force_foreground(hwnd, at, &sight);
            match next {
                Foreground::Done(true) => {
                    push_step(&mut steps, Action::Sleep(700));
                    let mut entry = owned("send key: ");
                    let name = send_key_text(job.keys.ctrl_enter);
                    entry.append(name.as_str());
                    push_step(&mut steps, Action::Info(entry));
                    (Inject::Clipboard { hwnd }, steps)
                },
                Foreground::Done(false) => {
                    push_step(
                        &mut steps,
                        Action::Error(owned("could not focus Zed window (injection)")),
                    );
                    (Inject::Done(false), steps)
                },
                at => (Inject::Focus { hwnd, at }, steps),
            }
        },
        (Inject::Clipboard { hwnd }, InjectEvent::Clipboard(old)) => {
            push_step(&mut steps, Action::SetClipboard(job.message.clone()));
            (Inject::Placed { hwnd, old }, steps)
        },
        (Inject::Placed { hwnd, old }, InjectEvent::Placed(outcome)) => match outcome {
            Ok(_) => {
                push_typing(&mut steps, job);
                assert(none + type_steps(job@) == type_steps(job@));
                push_end(&mut steps, job, hwnd, old);
                (Inject::Done(true), steps)
            },
            Err(e) => {
                let mut entry = owned("clipboard: ");
                entry.append(e.as_str());
                push_step(&mut steps, Action::Error(entry));
                push_end(&mut steps, job, hwnd, old);
                (Inject::Done(false), steps)
            },
        },
        (state, _) => (state, steps),
    }
}

// ---------------------------------------------------------------------------
// laws
// ---------------------------------------------------------------------------

/// An injection from its beginning over all events: where it stands, and what
/// was done.
pub open spec fn inject_run(job: InjectJobView, events: Seq<InjectEvent>) -> (
    InjectView,
    Seq<StepView>,
)
    decreases events.len(),
{
    if events.len() == 0 {
        (InjectView::Window, Seq::empty())
    } else {
        let before = inject_run(job, events.drop_last());
        let next = inject_next(job, before.0, events.last());
        (next.0, before.1 + next.1)
    }
}

/// A look that shows the window in front.
pub open spec fn is_in_front(event: InjectEvent) -> bool {
    event matches InjectEvent::Sight(sight) && sight.in_front
}

/// Event number `k` was a look that showed the window in front while the
/// injection was bringing it there.
pub open spec fn focus_won(job: InjectJobView, events: Seq<InjectEvent>, k: int) -> bool {
    &&& 0 <= k < events.len()
    &&& inject_run(job, events.take(k)).0 is Focus
    &&& is_in_front(events[k])
}

/// The injection has got as far as the focus.
pub open spec fn has_focus(state: InjectView) -> bool {
    state is Clipboard || state is Placed || state == InjectView::Done(true)
}

/// An attempt to bring the window to the foreground is not over.
pub open spec fn is_live(state: InjectView) -> bool {
    match state {
        InjectView::HeadsUpFocus { hwnd, at } => !(at is Done),
        InjectView::Focus { hwnd, at } => !(at is Done),
        _ => true,
    }
}

proof fn lemma_live(job: InjectJobView, events: Seq<InjectEvent>)
    ensures
        is_live(inject_run(job, events).0),
    decreases events.len(),
{
    if events.len() > 0 {
        lemma_live(job, events.drop_last());
    }
}

proof fn lemma_focus_won(job: InjectJobView, events: Seq<InjectEvent>)
    requires
        has_focus(inject_run(job, events).0),
    ensures
        exists|k: int| focus_won(job, events, k),
    decreases events.len(),
{
    if events.len() > 0 {
        let head = events.drop_last();
        let last = events.len() - 1;
        assert(events.take(last) == head);
        if has_focus(inject_run(job, head).0) {
            lemma_focus_won(job, head);
            let k = choose|k: int| focus_won(job, head, k);
            assert(events.take(k) == head.take(k));
            assert(focus_won(job, events, k));
        } else {
            lemma_live(job, head);
            assert(focus_won(job, events, last));
        }
    }
}

proof fn lemma_no_typing_before_end(job: InjectJobView, events: Seq<InjectEvent>, i: int)
    requires
        0 <= i < inject_run(job, events).1.len(),
        inject_run(job, events).1[i] is SendCombo,
    ensures
        inject_run(job, events).0 == InjectView::Done(true),
    decreases events.len(),
{
    let head = events.drop_last();
    let before = inject_run(job, head);
    if i < before.1.len() {
        lemma_no_typing_before_end(job, head, i);
    } else {
        let steps = inject_next(job, before.0, events.last()).1;
        assert(steps[i - before.1.len()] is SendCombo);
        lemma_inject_steps(job, before.0, events.last(), i - before.1.len());
    }
}

/// Nothing is typed into the wrong window: keys are sent only in an injection
/// that goes through, after a look that showed the window in front while it was
/// being brought there.
pub proof fn law_no_typing_without_focus(job: InjectJobView, events: Seq<InjectEvent>, i: int)
    requires
        0 <= i < inject_run(job, events).1.len(),
        inject_run(job, events).1[i] is SendCombo,
    ensures
        inject_run(job, events).0 == InjectView::Done(true),
        exists|k: int| focus_won(job, events, k),
{
    lemma_no_typing_before_end(job, events, i);
    lemma_focus_won(job, events);
}

proof fn lemma_placed(job: InjectJobView, events: Seq<InjectEvent>)
    requires
        inject_run(job, events).0 is Placed,
    ensures
        inject_run(job, events).1.len() > 0,
        inject_run(job, events).1.last() == Action::<Seq<char>, Seq<u16>>::SetClipboard(
            job.message,
        ),
    decreases events.len(),
{
    if events.len() > 0 {
        let head = events.drop_last();
        let before = inject_run(job, head);
        if before.0 is Placed {
            lemma_placed(job, head);
            let next = inject_next(job, before.0, events.last());
            assert(before.1 + next.1 == before.1);
        }
    }
}

/// `steps` are those of an injection that went through: the message is put into
/// the clipboard, and then three key combinations are pressed, and no others:
/// that which toggles the panel, that which pastes, and that which sends. The
/// clipboard is left alone until they are.
pub open spec fn went_through(job: InjectJobView, steps: Seq<StepView>) -> bool {
    exists|k: int| #[trigger] sent_after(job, steps, k)
}

/// Step number `k` puts the message into the clipboard, and what follows toggles
/// the panel, pastes and sends, beginning at once.
pub open spec fn sent_after(job: InjectJobView, steps: Seq<StepView>, k: int) -> bool {
    &&& 0 <= k < steps.len()
    &&& steps[k] == Action::<Seq<char>, Seq<u16>>::SetClipboard(job.message)
    &&& combos(steps.take(k)) == Seq::<Seq<u16>>::empty()
    &&& combos(steps.skip(k + 1)) == seq![
        job.keys.toggle,
        job.keys.paste,
        if job.keys.ctrl_enter {
            seq![0xA2u16, 0x0Du16]
        } else {
            seq![0x0Du16]
        },
    ]
    &&& forall|j: int|
        k < j < steps.len() && #[trigger] steps[j] is SetClipboard ==> combos(steps.skip(j))
            == Seq::<Seq<u16>>::empty()
    &&& type_steps(job).is_prefix_of(steps.skip(k + 1))
}

/// A list without key combinations presses none.
pub(crate) proof fn lemma_no_combos(steps: Seq<StepView>)
    requires
        forall|i: int| 0 <= i < steps.len() ==> !(#[trigger] steps[i] is SendCombo),
    ensures
        combos(steps) == Seq::<Seq<u16>>::empty(),
    decreases steps.len(),
{
    if steps.len() > 0 {
        assert forall|i: int| 0 <= i < steps.drop_last().len() implies !(
        #[trigger] steps.drop_last()[i] is SendCombo) by {
            assert(steps.drop_last()[i] == steps[i]);
        }
        lemma_no_combos(steps.drop_last());
        assert(steps.last() == steps[steps.len() - 1]);
    }
}

/// The keys of the steps that type.
proof fn lemma_typed(job: InjectJobView)
    ensures
        combos(type_steps(job)) == seq![
            job.keys.toggle,
            job.keys.paste,
            send_codes(job.keys.ctrl_enter),
        ],
{
    reveal_with_fuel(combos, 10);
}

/// Steps that press no key, of which the last puts the message into the
/// clipboard, then those that type, then some that press no key, are those of
/// an injection that went through.
pub(crate) proof fn lemma_went_through(
    job: InjectJobView,
    before: Seq<StepView>,
    last: Seq<StepView>,
    all: Seq<StepView>,
)
    requires
        before.len() > 0,
        before.last() == Action::<Seq<char>, Seq<u16>>::SetClipboard(job.message),
        forall|i: int| 0 <= i < before.len() ==> !(#[trigger] before[i] is SendCombo),
        forall|i: int| 0 <= i < last.len() ==> !(#[trigger] last[i] is SendCombo),
        all == before + type_steps(job) + last,
    ensures
        went_through(job, all),
{
    let k = before.len() - 1;
    let typed = type_steps(job);
    lemma_no_combos(all.take(k));
    lemma_typed(job);
    lemma_no_combos(last);
    assert(all.skip(k + 1) == typed + last);
    lemma_combos_add(typed, last);
    assert(combos(typed) + Seq::<Seq<u16>>::empty() == combos(typed));
    assert forall|j: int| k < j < all.len() && #[trigger] all[j] is SetClipboard implies combos(
        all.skip(j),
    ) == Seq::<Seq<u16>>::empty() by {
        if j < before.len() + typed.len() {
            assert(all[j] == typed[j - before.len()]);
        }
        let rest = all.skip(j);
        assert forall|i: int| 0 <= i < rest.len() implies !(#[trigger] rest[i] is SendCombo) by {
            assert(rest[i] == last[j + i - before.len() - typed.len()]);
        }
        lemma_no_combos(rest);
    }
    assert((typed + last).subrange(0, typed.len() as int) == typed);
    assert(sent_after(job, all, k));
}

/// What ends an injection presses no key.
pub(crate) proof fn lemma_end_presses_nothing(job: InjectJobView, hwnd: usize, old: Option<
    Seq<char>,
>)
    ensures
        forall|i: int|
            0 <= i < (restore_steps(old) + release_steps(job, hwnd)).len() ==> !(
            #[trigger] (restore_steps(old) + release_steps(job, hwnd))[i] is SendCombo),
{
    assert(restore_steps(old).len() <= 2);
}

/// An injection that reports success put the message into the clipboard, and
/// right after that pressed the keys that toggle the panel, paste and send, and
/// no others.
pub proof fn law_success_means_sent(job: InjectJobView, events: Seq<InjectEvent>)
    requires
        inject_run(job, events).0 == InjectView::Done(true),
    ensures
        went_through(job, inject_run(job, events).1),
    decreases events.len(),
{
    let head = events.drop_last();
    let before = inject_run(job, head);
    let next = inject_next(job, before.0, events.last());
    let steps = inject_run(job, events).1;
    if before.0 == InjectView::Done(true) {
        law_success_means_sent(job, head);
        assert(steps == before.1);
    } else {
        lemma_placed(job, head);
        let hwnd = before.0->Placed_hwnd;
        let old = before.0->Placed_old;
        let last = restore_steps(old) + release_steps(job, hwnd);
        assert(steps == before.1 + type_steps(job) + last);
        assert forall|i: int| 0 <= i < before.1.len() implies !(
        #[trigger] before.1[i] is SendCombo) by {
            if before.1[i] is SendCombo {
                lemma_no_typing_before_end(job, head, i);
            }
        }
        lemma_end_presses_nothing(job, hwnd, old);
        lemma_went_through(job, before.1, last, steps);
    }
}

/// The text that was in the clipboard is put back at the end, whether or not
/// the message was sent; nothing is typed or put there afterwards.
pub proof fn law_clipboard_is_restored(
    job: InjectJobView,
    hwnd: usize,
    old: Seq<char>,
    outcome: Result<(), String>,
)
    ensures
        ({
            let next = inject_next(
                job,
                InjectView::Placed { hwnd, old: Some(old) },
                InjectEvent::Placed(outcome),
            );
            &&& next.0 == InjectView::Done(outcome is Ok)
            &&& exists|i: int|
                0 <= i < next.1.len() && #[trigger] next.1[i] == Action::<
                    Seq<char>,
                    Seq<u16>,
                >::SetClipboard(old) && forall|j: int|
                    i < j < next.1.len() ==> !(#[trigger] next.1[j] is SetClipboard)
                        && !(next.1[j] is SendCombo)
        }),
{
    let next = inject_next(
        job,
        InjectView::Placed { hwnd, old: Some(old) },
        InjectEvent::Placed(outcome),
    );
    let i: int = if outcome is Ok {
        type_steps(job).len() as int + 1
    } else {
        2
    };
    assert(next.1[i] == Action::<Seq<char>, Seq<u16>>::SetClipboard(old));
}

/// The focus is given back: unless the user was in Zed, the window is minimized
/// after the last key.
pub proof fn law_focus_is_given_back(
    job: InjectJobView,
    hwnd: usize,
    old: Option<Seq<char>>,
    outcome: Result<(), String>,
)
    requires
        !job.old_was_focused,
    ensures
        ({
            let steps = inject_next(
                job,
                InjectView::Placed { hwnd, old },
                InjectEvent::Placed(outcome),
            ).1;
            exists|i: int|
                0 <= i < steps.len() && #[trigger] steps[i] == Action::<
                    Seq<char>,
                    Seq<u16>,
                >::Minimize(hwnd) && forall|j: int|
                    i < j < steps.len() ==> !(#[trigger] steps[j] is SendCombo)
        }),
{
    let steps = inject_next(job, InjectView::Placed { hwnd, old }, InjectEvent::Placed(outcome)).1;
    assert(restore_steps(old).len() <= 2);
    assert(steps[steps.len() - 2] == Action::<Seq<char>, Seq<u16>>::Minimize(hwnd));
}

/// A user who was in Zed keeps the window: it is never minimized.
pub proof fn law_window_of_the_user_stays(job: InjectJobView, events: Seq<InjectEvent>, i: int)
    requires
        job.old_was_focused,
        0 <= i < inject_run(job, events).1.len(),
    ensures
        !(inject_run(job, events).1[i] is Minimize),
    decreases events.len(),
{
    let head = events.drop_last();
    let before = inject_run(job, head);
    lemma_never_minimized_state(job, head);
    if i < before.1.len() {
        law_window_of_the_user_stays(job, head, i);
    } else {
        let steps = inject_next(job, before.0, events.last()).1;
        let k = i - before.1.len();
        match (before.0, events.last()) {
            (InjectView::Placed { hwnd, old }, InjectEvent::Placed(_)) => {
                assert(restore_steps(old).len() <= 2);
            },
            (InjectView::HeadsUpFocus { hwnd, at }, InjectEvent::Sight(sight)) => {
                if k < foreground_next(hwnd, at, sight).1.len() {
                    lemma_raising(hwnd, at, sight, k);
                }
            },
            (InjectView::Focus { hwnd, at }, InjectEvent::Sight(sight)) => {
                if k < foreground_next(hwnd, at, sight).1.len() {
                    lemma_raising(hwnd, at, sight, k);
                }
            },
            _ => {},
        }
        assert(!(steps[k] is Minimize));
    }
}

proof fn lemma_never_minimized_state(job: InjectJobView, events: Seq<InjectEvent>)
    requires
        job.old_was_focused,
    ensures
        !(inject_run(job, events).0 is Minimized),
    decreases events.len(),
{
    if events.len() > 0 {
        lemma_never_minimized_state(job, events.drop_last());
    }
}

/// The user was notified, and then had the time of the warning.
pub open spec fn warned(job: InjectJobView, steps: Seq<StepView>) -> bool {
    exists|a: int, b: int|
        0 <= a < b < steps.len() && #[trigger] steps[a] is Notify && #[trigger] steps[b]
            == Action::<Seq<char>, Seq<u16>>::Pause(job.heads_up_secs)
}

/// The user was notified.
pub open spec fn notified(steps: Seq<StepView>) -> bool {
    exists|a: int| 0 <= a < steps.len() && #[trigger] steps[a] is Notify
}

proof fn lemma_notified(job: InjectJobView, events: Seq<InjectEvent>)
    ensures
        ({
            let run = inject_run(job, events);
            &&& run.0 is Notified || run.0 is HeadsUpFocus ==> notified(run.1)
            &&& run.0 is Focus || has_focus(run.0) ==> warned(job, run.1)
        }),
    decreases events.len(),
{
    if events.len() > 0 {
        let head = events.drop_last();
        let before = inject_run(job, head);
        let next = inject_next(job, before.0, events.last());
        let all = before.1 + next.1;
        lemma_notified(job, head);
        if before.0 is Focus || has_focus(before.0) {
            let (a, b) = choose|a: int, b: int|
                0 <= a < b < before.1.len() && #[trigger] before.1[a] is Notify
                    && #[trigger] before.1[b] == Action::<Seq<char>, Seq<u16>>::Pause(
                    job.heads_up_secs,
                );
            assert(all[a] is Notify);
            assert(all[b] == before.1[b]);
        } else if before.0 is Notified || before.0 is HeadsUpFocus {
            let a = choose|a: int| 0 <= a < before.1.len() && #[trigger] before.1[a] is Notify;
            assert(all[a] is Notify);
            assert(notified(all));
            if next.0 is Focus {
                let b = before.1.len() + next.1.len() - 2;
                assert(next.1[next.1.len() - 2] == Action::<Seq<char>, Seq<u16>>::Pause(
                    job.heads_up_secs,
                ));
                assert(all[b] == next.1[next.1.len() - 2]);
                assert(warned(job, all));
            }
        } else if next.0 is Notified {
            assert(next.1[next.1.len() - 1] is Notify);
            assert(all[all.len() - 1] is Notify);
            assert(notified(all));
        }
    }
}

/// The user is warned before anything is typed: every key comes after a
/// notification and the time of the warning.
pub proof fn law_user_is_warned_first(
    job: InjectJobView,
    events: Seq<InjectEvent>,
    last: InjectEvent,
    i: int,
)
    requires
        0 <= i < inject_next(job, inject_run(job, events).0, last).1.len(),
        inject_next(job, inject_run(job, events).0, last).1[i] is SendCombo,
    ensures
        warned(job, inject_run(job, events).1),
{
    let state = inject_run(job, events).0;
    lemma_notified(job, events);
    lemma_inject_steps(job, state, last, i);
}

/// An injection sends keys only in the step that ends it well, and never closes
/// a window or kills a process.
pub(crate) proof fn lemma_inject_steps(
    job: InjectJobView,
    state: InjectView,
    event: InjectEvent,
    i: int,
)
    requires
        0 <= i < inject_next(job, state, event).1.len(),
    ensures
        inject_next(job, state, event).1[i] is SendCombo ==> inject_next(job, state, event).0
            == InjectView::Done(true),
        !(inject_next(job, state, event).1[i] is Close),
        !(inject_next(job, state, event).1[i] is Kill),
{
    match (state, event) {
        (InjectView::Placed { hwnd, old }, InjectEvent::Placed(_)) => {
            assert(restore_steps(old).len() <= 2);
        },
        (InjectView::HeadsUpFocus { hwnd, at }, InjectEvent::Sight(sight)) => {
            if i < foreground_next(hwnd, at, sight).1.len() {
                lemma_raising(hwnd, at, sight, i);
            }
        },
        (InjectView::Focus { hwnd, at }, InjectEvent::Sight(sight)) => {
            if i < foreground_next(hwnd, at, sight).1.len() {
                lemma_raising(hwnd, at, sight, i);
            }
        },
        _ => {},
    }
}

/// Bringing the window to the foreground ends: each look either leads on or
/// leaves fewer of them.
pub proof fn law_focus_ends(job: InjectJobView, hwnd: usize, at: Foreground, sight: Sight)
    requires
        0 < looks_left(at),
    ensures
        inject_next(job, InjectView::Focus { hwnd, at }, InjectEvent::Sight(sight)).0
            matches InjectView::Focus { hwnd: _, at: next_at } ==> 0 < looks_left(next_at)
            < looks_left(at),
        inject_next(job, InjectView::HeadsUpFocus { hwnd, at }, InjectEvent::Sight(sight)).0
            matches InjectView::HeadsUpFocus { hwnd: _, at: next_at } ==> 0 < looks_left(next_at)
            < looks_left(at),
{
}

/// The step that types: the panel is toggled, and has 1.6 seconds to open; the
/// message is pasted, and has 0.9 seconds to arrive; it is sent. Then the old
/// text, where there is one, is put back after 0.4 seconds, and the window is
/// minimized unless the user was in Zed. Nothing else is done.
pub proof fn law_typing(job: InjectJobView, hwnd: usize, old: Option<Seq<char>>)
    ensures
        ({
            let next = inject_next(
                job,
                InjectView::Placed { hwnd, old },
                InjectEvent::Placed(Ok(())),
            );
            let send = if job.keys.ctrl_enter {
                seq![0xA2u16, 0x0Du16]
            } else {
                seq![0x0Du16]
            };
            let restored = match old {
                Some(text) => seq![
                    Action::<Seq<char>, Seq<u16>>::Sleep(400),
                    Action::SetClipboard(text),
                ],
                None => Seq::empty(),
            };
            let released = if job.old_was_focused {
                Seq::empty()
            } else {
                seq![Action::<Seq<char>, Seq<u16>>::Minimize(hwnd)]
            };
            &&& next.0 == InjectView::Done(true)
            &&& errors(next.1) == Seq::<Seq<char>>::empty()
            &&& effects(next.1) == seq![
                Action::<Seq<char>, Seq<u16>>::SendCombo(job.keys.toggle),
                Action::Sleep(1600),
                Action::SendCombo(job.keys.paste),
                Action::Sleep(900),
                Action::SendCombo(send),
            ] + restored + released
        }),
{
    broadcast use {lemma_effects_add, lemma_errors_add};

    reveal_with_fuel(effects, 10);
    reveal_with_fuel(errors, 10);
    lemma_end_effects(job, hwnd, old);
    let typed = type_steps(job);
    let none = Seq::<Seq<char>>::empty();
    assert(effects(typed) == seq![
        Action::<Seq<char>, Seq<u16>>::SendCombo(job.keys.toggle),
        Action::Sleep(1600),
        Action::SendCombo(job.keys.paste),
        Action::Sleep(900),
        Action::SendCombo(send_codes(job.keys.ctrl_enter)),
    ]);
    assert(errors(typed) == none);
    assert(none + none + none == none);
}

proof fn lemma_end_effects(job: InjectJobView, hwnd: usize, old: Option<Seq<char>>)
    ensures
        errors(restore_steps(old)) == Seq::<Seq<char>>::empty(),
        errors(release_steps(job, hwnd)) == Seq::<Seq<char>>::empty(),
        effects(restore_steps(old)) == (match old {
            Some(text) => seq![
                Action::<Seq<char>, Seq<u16>>::Sleep(400),
                Action::SetClipboard(text),
            ],
            None => Seq::empty(),
        }),
        effects(release_steps(job, hwnd)) == if job.old_was_focused {
            Seq::empty()
        } else {
            seq![Action::<Seq<char>, Seq<u16>>::Minimize(hwnd)]
        },
{
    reveal_with_fuel(effects, 3);
    reveal_with_fuel(errors, 3);
}

/// A message that cannot be put into the clipboard is not typed: the error is
/// logged, the old text is put back and the focus given back.
pub proof fn law_clipboard_failure(
    job: InjectJobView,
    hwnd: usize,
    old: Option<Seq<char>>,
    e: String,
)
    ensures
        ({
            let next = inject_next(
                job,
                InjectView::Placed { hwnd, old },
                InjectEvent::Placed(Err(e)),
            );
            let restored = match old {
                Some(text) => seq![
                    Action::<Seq<char>, Seq<u16>>::Sleep(400),
                    Action::SetClipboard(text),
                ],
                None => Seq::empty(),
            };
            let released = if job.old_was_focused {
                Seq::empty()
            } else {
                seq![Action::<Seq<char>, Seq<u16>>::Minimize(hwnd)]
            };
            &&& next.0 == InjectView::Done(false)
            &&& errors(next.1) == seq!["clipboard: "@ + e@]
            &&& effects(next.1) == restored + released
        }),
{
    broadcast use {lemma_effects_add, lemma_errors_add};

    reveal_with_fuel(effects, 2);
    reveal_with_fuel(errors, 2);
    lemma_end_effects(job, hwnd, old);
    let first: Seq<StepView> = seq![Action::Error("clipboard: "@ + e@)];
    assert(effects(first) == Seq::<StepView>::empty());
    assert(Seq::<StepView>::empty() + effects(restore_steps(old)) == effects(restore_steps(old)));
    assert(errors(first) == seq!["clipboard: "@ + e@]);
}

/// Once the window is in front the old text of the clipboard is remembered, and
/// the message put there.
pub proof fn law_message_is_placed(job: InjectJobView, hwnd: usize, old: Option<String>)
    ensures
        inject_next(job, InjectView::Clipboard { hwnd }, InjectEvent::Clipboard(old)) == (
            InjectView::Placed {
                hwnd,
                old: match old {
                    Some(text) => Some(text@),
                    None => None,
                },
            },
            seq![Action::<Seq<char>, Seq<u16>>::SetClipboard(job.message)],
        ),
{
}

/// Without a window there is no injection. A user who was in Zed keeps the window
/// as it is, and is warned once it has settled; else the window is looked at
/// first.
pub proof fn law_window_settles(job: InjectJobView, window: Option<Window>)
    ensures
        ({
            let next = inject_next(job, InjectView::Window, InjectEvent::Window(window));
            match window {
                None => next.0 == InjectView::Done(false) && next.1 == Seq::<StepView>::empty(),
                Some(w) => if job.old_was_focused {
                    &&& next.0 == (InjectView::Notified { hwnd: w.hwnd })
                    &&& effects(next.1) == seq![
                        Action::<Seq<char>, Seq<u16>>::Pause(job.settle_secs),
                        Action::Notify(
                            "zed-reload"@,
                            "About to type into Zed in "@ + decimal(job.heads_up_secs as nat)
                                + "s — stop typing!"@,
                        ),
                    ]
                } else {
                    &&& next.0 == (InjectView::Minimized { hwnd: w.hwnd })
                    &&& effects(next.1) == Seq::<StepView>::empty()
                },
            }
        }),
{
    broadcast use {lemma_effects_add, lemma_effects_push};

    reveal_with_fuel(effects, 3);
    let none = Seq::<StepView>::empty();
    assert(none + effects(settle_steps(job)) == effects(settle_steps(job)));
}

/// A window that is not minimized is; then it settles, and the user is warned.
pub proof fn law_window_is_minimized(job: InjectJobView, hwnd: usize, already: bool)
    ensures
        ({
            let next = inject_next(
                job,
                InjectView::Minimized { hwnd },
                InjectEvent::Minimized(already),
            );
            let minimized = if already {
                Seq::empty()
            } else {
                seq![Action::<Seq<char>, Seq<u16>>::Minimize(hwnd)]
            };
            &&& next.0 == (InjectView::Notified { hwnd })
            &&& effects(next.1) == minimized + seq![
                Action::<Seq<char>, Seq<u16>>::Pause(job.settle_secs),
                Action::Notify(
                    "zed-reload"@,
                    "About to type into Zed in "@ + decimal(job.heads_up_secs as nat)
                        + "s — stop typing!"@,
                ),
            ]
        }),
{
    broadcast use lemma_effects_add;

    reveal_with_fuel(effects, 3);
}

/// A user who was notified has the time of the warning, and then the window is
/// brought to the front. Where that failed the window is brought to the front as
/// the warning, and the error is logged.
pub proof fn law_warning(job: InjectJobView, hwnd: usize, outcome: Result<(), String>)
    ensures
        ({
            let next = inject_next(
                job,
                InjectView::Notified { hwnd },
                InjectEvent::Notified(outcome),
            );
            match outcome {
                Ok(_) => {
                    &&& next.0 == (InjectView::Focus { hwnd, at: Foreground::Looking(0) })
                    &&& effects(next.1) == seq![
                        Action::<Seq<char>, Seq<u16>>::Pause(job.heads_up_secs),
                    ]
                },
                Err(e) => {
                    &&& next.0 == (InjectView::HeadsUpFocus { hwnd, at: Foreground::Looking(0) })
                    &&& effects(next.1) == Seq::<StepView>::empty()
                    &&& errors(next.1) == seq![
                        "notification failed: "@ + e@ + "; falling back to focus heads-up"@,
                    ]
                },
            }
        }),
{
    reveal_with_fuel(effects, 4);
    reveal_with_fuel(errors, 4);
}

/// A look that shows the window in front leads on: from the warning to the time
/// that it gives and the second attempt, and from that to the clipboard. The last
/// look in vain ends the injection with an error, and any other goes on as
/// bringing a window to the front does.
pub proof fn law_focus_leads_on(job: InjectJobView, hwnd: usize, at: Foreground, sight: Sight)
    requires
        !(at is Done),
    ensures
        ({
            let warned = inject_next(
                job,
                InjectView::HeadsUpFocus { hwnd, at },
                InjectEvent::Sight(sight),
            );
            let focused = inject_next(
                job,
                InjectView::Focus { hwnd, at },
                InjectEvent::Sight(sight),
            );
            let raised = foreground_next(hwnd, at, sight);
            if sight.in_front {
                &&& warned.0 == (InjectView::Focus { hwnd, at: Foreground::Looking(0) })
                &&& effects(warned.1) == seq![
                    Action::<Seq<char>, Seq<u16>>::Sleep(500),
                    Action::Pause(job.heads_up_secs),
                ]
                &&& focused.0 == (InjectView::Clipboard { hwnd })
                &&& effects(focused.1) == seq![Action::<Seq<char>, Seq<u16>>::Sleep(700)]
            } else if at matches Foreground::Nudged(failed) && failed >= 14 {
                &&& warned.0 == InjectView::Done(false)
                &&& effects(warned.1) == Seq::<StepView>::empty()
                &&& errors(warned.1) == seq!["could not focus Zed window (heads-up)"@]
                &&& focused.0 == InjectView::Done(false)
                &&& effects(focused.1) == Seq::<StepView>::empty()
                &&& errors(focused.1) == seq!["could not focus Zed window (injection)"@]
            } else {
                &&& warned == (InjectView::HeadsUpFocus { hwnd, at: raised.0 }, raised.1)
                &&& focused == (InjectView::Focus { hwnd, at: raised.0 }, raised.1)
            }
        }),
{
    broadcast use {lemma_effects_add, lemma_effects_push, lemma_errors_push};

    reveal_with_fuel(effects, 4);
    reveal_with_fuel(errors, 2);
    let raised = foreground_next(hwnd, at, sight);
    if sight.in_front {
        law_nothing_is_done_once_in_front(hwnd, at, sight);
        let delay = delay_steps(job);
        assert(effects(delay) == seq![Action::<Seq<char>, Seq<u16>>::Pause(job.heads_up_secs)]);
        assert(effects(raised.1.push(Action::Sleep(500))) == seq![
            Action::<Seq<char>, Seq<u16>>::Sleep(500),
        ]);
    } else if let Foreground::Nudged(failed) = at {
        law_fifteen_attempts(hwnd, failed, sight);
        if failed >= 14 {
            assert(errors(raised.1) == Seq::<Seq<char>>::empty());
        }
    }
}

/// Once an injection is over nothing more is done.
pub proof fn law_injection_stays_over(job: InjectJobView, ok: bool, event: InjectEvent)
    ensures
        inject_next(job, InjectView::Done(ok), event) == (
            InjectView::Done(ok),
            Seq::<StepView>::empty(),
        ),
{
}

/// The window that was found, and what becomes of it, are logged.
pub proof fn law_window_is_logged(job: InjectJobView, w: Window, hwnd: usize, already: bool)
    ensures
        ({
            let found = "window found pid="@ + decimal(w.pid as nat) + " title='"@ + w.title@
                + "'; settling "@ + decimal(job.settle_secs as nat) + "s"@;
            let logged = entries(
                inject_next(job, InjectView::Window, InjectEvent::Window(Some(w))).1,
            );
            if job.old_was_focused {
                logged == seq![found, "old session was focused — leaving window normal"@]
            } else {
                logged == seq![found]
            }
        }),
        entries(
            inject_next(
                job,
                InjectView::Minimized { hwnd },
                InjectEvent::Minimized(already),
            ).1,
        ) == if already {
            seq!["window already minimized"@]
        } else {
            seq!["window minimized (launch focus-safe)"@]
        },
{
    broadcast use {lemma_entries_add, lemma_entries_push};

    reveal_with_fuel(entries, 3);
    let none = Seq::<Seq<char>>::empty();
    assert(entries(settle_steps(job)) == none);
    let a: Seq<StepView> = seq![Action::Info("window already minimized"@)];
    let b: Seq<StepView> = seq![
        Action::Minimize(hwnd),
        Action::Info("window minimized (launch focus-safe)"@),
    ];
    assert(entries(a) + none == seq!["window already minimized"@]);
    assert(entries(b) + none == seq!["window minimized (launch focus-safe)"@]);
    let first: Seq<StepView> = seq![Action::Info(found_entry(w@, job.settle_secs))];
    let both = first.push(Action::Info("old session was focused — leaving window normal"@));
    assert(entries(both) + none == entries(both));
}

/// The warning, the focus and the send key are logged.
pub proof fn law_warning_is_logged(job: InjectJobView, hwnd: usize, e: String)
    ensures
        entries(
            inject_next(job, InjectView::Notified { hwnd }, InjectEvent::Notified(Ok(()))).1,
        ) == seq![
            "heads-up delay: "@ + decimal(job.heads_up_secs as nat) + "s  (stop typing!)"@,
            "--- focusing Zed (injecting) ---"@,
        ],
        entries(
            inject_next(job, InjectView::Notified { hwnd }, InjectEvent::Notified(Err(e))).1,
        ) == seq!["--- fallback: heads-up focus ---"@],
{
    reveal_with_fuel(entries, 4);
}

/// Once the window is in front, what follows is logged behind what bringing it
/// there logs.
pub proof fn law_focus_is_logged(job: InjectJobView, hwnd: usize, at: Foreground, sight: Sight)
    requires
        !(at is Done),
        sight.in_front,
    ensures
        entries(
            inject_next(job, InjectView::HeadsUpFocus { hwnd, at }, InjectEvent::Sight(sight)).1,
        ) == entries(foreground_next(hwnd, at, sight).1) + seq![
            "heads-up delay: "@ + decimal(job.heads_up_secs as nat) + "s  (stop typing!)"@,
            "--- focusing Zed (injecting) ---"@,
        ],
        entries(
            inject_next(job, InjectView::Focus { hwnd, at }, InjectEvent::Sight(sight)).1,
        ) == entries(foreground_next(hwnd, at, sight).1).push(
            "send key: "@ + if job.keys.ctrl_enter {
                "ctrl+enter"@
            } else {
                "enter"@
            },
        ),
{
    broadcast use {lemma_entries_add, lemma_entries_push};

    reveal_with_fuel(entries, 4);
    let delay = delay_steps(job);
    assert(entries(delay) == seq![
        "heads-up delay: "@ + decimal(job.heads_up_secs as nat) + "s  (stop typing!)"@,
        "--- focusing Zed (injecting) ---"@,
    ]);
}

/// Every combination is logged before it is pressed, with its codes, and so is the
/// number of characters that were injected.
pub proof fn law_typing_is_logged(job: InjectJobView, hwnd: usize, old: Option<Seq<char>>)
    ensures
        entries(
            inject_next(
                job,
                InjectView::Placed { hwnd, old },
                InjectEvent::Placed(Ok(())),
            ).1,
        ) == seq![
            "sending agent::ToggleFocus  ("@ + list_text(job.keys.toggle) + ")"@,
            if job.keys.paste == seq![0xA2u16, 0x56u16] {
                "sending ctrl+v  (paste)"@
            } else {
                "sending editor::Paste  ("@ + list_text(job.keys.paste) + ")"@
            },
            "sending "@ + (if job.keys.ctrl_enter {
                "ctrl+enter"@
            } else {
                "enter"@
            }) + "  (send)"@,
            "injected "@ + decimal(job.message.len()) + " chars"@,
        ] + (if job.old_was_focused {
            Seq::empty()
        } else {
            seq!["window minimized (injection done)"@]
        }),
{
    broadcast use lemma_entries_add;

    reveal_with_fuel(entries, 10);
    let none = Seq::<Seq<char>>::empty();
    let typed = entries(type_steps(job));
    assert(typed == seq![
        "sending agent::ToggleFocus  ("@ + list_text(job.keys.toggle) + ")"@,
        paste_entry(job.keys.paste),
        "sending "@ + send_key_name(job.keys.ctrl_enter) + "  (send)"@,
        "injected "@ + decimal(job.message.len()) + " chars"@,
    ]);
    assert(entries(restore_steps(old)) == none);
    assert(typed + none == typed);
}

/// An event that an injection does not wait for changes nothing.
pub proof fn law_injection_waits_for_its_event(
    job: InjectJobView,
    state: InjectView,
    event: InjectEvent,
)
    requires
        state is Window ==> !(event is Window),
        state is Minimized ==> !(event is Minimized),
        state is Notified ==> !(event is Notified),
        state is HeadsUpFocus ==> !(event is Sight),
        state is Focus ==> !(event is Sight),
        state is Clipboard ==> !(event is Clipboard),
        state is Placed ==> !(event is Placed),
    ensures
        inject_next(job, state, event) == (state, Seq::<StepView>::empty()),
{
}

/// What an injection works on is what its job holds.
pub proof fn law_job_of_an_injection(job: InjectJob)
    ensures
        job@.message == job.message@,
        job@.settle_secs == job.settle_secs,
        job@.heads_up_secs == job.heads_up_secs,
        job@.old_was_focused == job.old_was_focused,
        job@.keys.ctrl_enter == job.keys.ctrl_enter,
        job@.keys.toggle == job.keys.toggle@,
        job@.keys.paste == job.keys.paste@,
{
}

} // verus!
