//! Stopping the target: a graceful close, then a kill.
use vstd::prelude::*;

use crate::action::{
    effects, entries, group_actions, no_steps, push_step, steps_view, Action, Step, StepView,
};
use crate::process::{is_zed_alive, law_zed_is_known_by_its_name, zed_alive, ProcessInfo};
use crate::text::{ascii_lower, decimal, owned, push_decimal};
use crate::window::{
    enum_windows, is_owned, law_enumeration, prefer_titled, visible_of, windows_of, DesktopWindow,
    Window, WindowView,
};

verus! {

/// How far a stop has come.
#[derive(Clone, Copy, Debug, PartialEq, Eq, Structural)]
pub enum Stop {
    /// Waits for a survey of the system.
    Begin,
    /// The windows were asked to close; waits for the time that has passed.
    Waiting { pid: u32, was_focused: bool },
    /// Waits for the running processes.
    Checking { pid: u32, was_focused: bool },
    /// Over; says whether the target was in the foreground when it began.
    Done(bool),
}

/// What a stop learns.
#[derive(Debug, PartialEq, Eq)]
pub enum StopEvent {
    /// The running processes, the windows of the desktop and the handle of the
    /// window in the foreground.
    Survey { procs: Vec<ProcessInfo>, desktop: Vec<DesktopWindow>, foreground: usize },
    /// Nanoseconds since the windows were asked to close.
    Elapsed(u128),
    /// The running processes.
    Processes(Vec<ProcessInfo>),
}

/// One of `windows` has the handle `hwnd`.
pub open spec fn has_handle(windows: Seq<WindowView>, hwnd: usize) -> bool {
    exists|i: int| 0 <= i < windows.len() && (#[trigger] windows[i]).hwnd == hwnd
}

/// The log entry for a window that is asked to close.
pub open spec fn close_entry(w: WindowView) -> Seq<char> {
    "WM_CLOSE pid="@ + decimal(w.pid as nat) + " title='"@ + w.title + "'"@
}

/// Every window is asked to close.
pub open spec fn close_all(windows: Seq<WindowView>) -> Seq<StepView>
    decreases windows.len(),
{
    if windows.len() == 0 {
        Seq::empty()
    } else {
        close_all(windows.drop_last()).push(Action::Info(close_entry(windows.last()))).push(
            Action::Close(windows.last().hwnd),
        )
    }
}

/// `true` or `false`.
pub open spec fn bool_text(b: bool) -> Seq<char> {
    if b {
        "true"@
    } else {
        "false"@
    }
}

/// The actions that begin a stop.
pub open spec fn close_steps(windows: Seq<WindowView>, was_focused: bool) -> Seq<StepView> {
    let note: Seq<StepView> = if windows.len() == 0 {
        seq![Action::Info("target has no visible window to close"@)]
    } else {
        Seq::empty()
    };
    (note + close_all(windows)).push(
        Action::Info("old session focused: "@ + bool_text(was_focused)),
    )
}

/// The entry that a close took too long.
pub open spec fn kill_entry(grace_secs: u64, pid: u32) -> Seq<char> {
    "graceful close timed out after "@ + decimal(grace_secs as nat) + "s — force killing pid "@
        + decimal(pid as nat)
}

/// The target's windows.
pub open spec fn target_windows(desktop: Seq<DesktopWindow>, pid: u32) -> Seq<WindowView> {
    prefer_titled(visible_of(desktop, seq![pid]))
}

/// What follows on an event; one that the state does not wait for changes
/// nothing.
///
/// * The target is closed only while it is a running Zed.
/// * It has `grace_secs` to exit, and is looked for every half second.
/// * Then it is killed.
pub open spec fn stop_next(
    grace_secs: u64,
    target: Option<u32>,
    state: Stop,
    event: StopEvent,
) -> (Stop, Seq<StepView>) {
    match (state, event) {
        (Stop::Begin, StopEvent::Survey { procs, desktop, foreground }) => match target {
            Some(pid) => if zed_alive(procs@, pid) {
                let windows = target_windows(desktop@, pid);
                let was_focused = has_handle(windows, foreground);
                (Stop::Waiting { pid, was_focused }, close_steps(windows, was_focused))
            } else {
                (Stop::Done(false), seq![Action::Info(nothing_to_stop())])
            },
            None => (Stop::Done(false), seq![Action::Info(nothing_to_stop())]),
        },
        (Stop::Waiting { pid, was_focused }, StopEvent::Elapsed(nanos)) => if nanos
            < grace_secs * 1_000_000_000 {
            (Stop::Checking { pid, was_focused }, seq![Action::Sleep(500)])
        } else {
            (
                Stop::Done(was_focused),
                seq![
                    Action::Info(kill_entry(grace_secs, pid)),
                    Action::Kill(pid),
                    Action::Pause(2),
                ],
            )
        },
        (Stop::Checking { pid, was_focused }, StopEvent::Processes(procs)) => if zed_alive(
            procs@,
            pid,
        ) {
            (Stop::Waiting { pid, was_focused }, Seq::empty())
        } else {
            (Stop::Done(was_focused), seq![Action::Info("Zed exited gracefully"@)])
        },
        _ => (state, Seq::empty()),
    }
}

/// The entry that there is nothing to stop.
pub open spec fn nothing_to_stop() -> Seq<char> {
    "no live target Zed process — nothing to stop"@
}

fn find_handle(windows: &Vec<Window>, hwnd: usize) -> (b: bool)
    ensures
        b == has_handle(windows_of(windows@), hwnd),
{
    let ghost views = windows_of(windows@);
    for i in 0..windows.len()
        invariant
            views == windows_of(windows@),
            forall|k: int| 0 <= k < i ==> (#[trigger] views[k]).hwnd != hwnd,
    {
        assert(views[i as int].hwnd == windows@[i as int].hwnd);
        if windows[i].hwnd == hwnd {
            return true;
        }
    }
    false
}

fn begin_steps(windows: &Vec<Window>, was_focused: bool) -> (steps: Vec<Step>)
    ensures
        steps_view(steps@) == close_steps(windows_of(windows@), was_focused),
{
    let mut steps = no_steps();
    let ghost views = windows_of(windows@);
    if windows.len() == 0 {
        push_step(&mut steps, Action::Info(owned("target has no visible window to close")));
    }
    let ghost note = steps_view(steps@);
    assert(note + Seq::<StepView>::empty() == note);
    for i in 0..windows.len()
        invariant
            views == windows_of(windows@),
            steps_view(steps@) == note + close_all(views.take(i as int)),
    {
        let w = &windows[i];
        let ghost head = views.take(i + 1);
        assert(head.drop_last() == views.take(i as int));
        assert(head.last() == w@);
        let mut entry = owned("WM_CLOSE pid=");
        push_decimal(&mut entry, w.pid as u128);
        entry.append(" title='");
        entry.append(w.title.as_str());
        entry.append("'");
        push_step(&mut steps, Action::Info(entry));
        push_step(&mut steps, Action::Close(w.hwnd));
        assert(steps_view(steps@) == note + close_all(head));
    }
    assert(views.take(windows@.len() as int) == views);
    let mut entry = owned("old session focused: ");
    if was_focused {
        entry.append("true");
    } else {
        entry.append("false");
    }
    push_step(&mut steps, Action::Info(entry));
    steps
}

/// Closes the target process gracefully, then kills it after `grace_secs` if it
/// is still running: one step.
///
/// Only the target is touched: other Zed processes, also those that run the
/// same executable, keep running. It has to be a Zed process still, in case its
/// PID was reused; `None` means that there is nothing to stop.
///
/// The end says whether one of the target's windows was in the foreground when
/// the stop began.
pub fn stop(grace_secs: u64, target: Option<u32>, state: Stop, event: &StopEvent) -> (r: (
    Stop,
    Vec<Step>,
))
    ensures
        (r.0, steps_view(r.1@)) == stop_next(grace_secs, target, state, *event),
{
    let mut steps = no_steps();
    match (state, event) {
        (Stop::Begin, StopEvent::Survey { procs, desktop, foreground }) => {
            if let Some(pid) = target {
                if is_zed_alive(procs, pid) {
                    let mut pids: Vec<u32> = Vec::new();
                    pids.push(pid);
                    assert(pids@ == seq![pid]);
                    let windows = enum_windows(desktop, &pids);
                    let was_focused = find_handle(&windows, *foreground);
                    let steps = begin_steps(&windows, was_focused);
                    return (Stop::Waiting { pid, was_focused }, steps);
                }
            }
            push_step(
                &mut steps,
                Action::Info(owned("no live target Zed process — nothing to stop")),
            );
            (Stop::Done(false), steps)
        },
        (Stop::Waiting { pid, was_focused }, StopEvent::Elapsed(nanos)) => {
            if *nanos < grace_secs as u128 * 1_000_000_000 {
                push_step(&mut steps, Action::Sleep(500));
                (Stop::Checking { pid, was_focused }, steps)
            } else {
                let mut entry = owned("graceful close timed out after ");
                push_decimal(&mut entry, grace_secs as u128);
                entry.append("s — force killing pid ");
                push_decimal(&mut entry, pid as u128);
                push_step(&mut steps, Action::Info(entry));
                push_step(&mut steps, Action::Kill(pid));
                push_step(&mut steps, Action::Pause(2));
                (Stop::Done(was_focused), steps)
            }
        },
        (Stop::Checking { pid, was_focused }, StopEvent::Processes(procs)) => {
            if is_zed_alive(procs, pid) {
                (Stop::Waiting { pid, was_focused }, steps)
            } else {
                push_step(&mut steps, Action::Info(owned("Zed exited gracefully")));
                (Stop::Done(was_focused), steps)
            }
        },
        _ => (state, steps),
    }
}

// ---------------------------------------------------------------------------
// laws
// ---------------------------------------------------------------------------

/// A stop from its beginning over all events: where it stands, and what was
/// done.
pub open spec fn stop_run(grace_secs: u64, target: Option<u32>, events: Seq<StopEvent>) -> (
    Stop,
    Seq<StepView>,
)
    decreases events.len(),
{
    if events.len() == 0 {
        (Stop::Begin, Seq::empty())
    } else {
        let before = stop_run(grace_secs, target, events.drop_last());
        let next = stop_next(grace_secs, target, before.0, events.last());
        (next.0, before.1 + next.1)
    }
}

/// The event shows `pid` as a running Zed with a visible window `hwnd`.
pub open spec fn shows_window(event: StopEvent, pid: u32, hwnd: usize) -> bool {
    event matches StopEvent::Survey { procs, desktop, foreground } && zed_alive(procs@, pid)
        && exists|w: WindowView| #[trigger] is_owned(desktop@, seq![pid], w) && w.hwnd == hwnd
}

/// The event says that the target's time is over.
pub open spec fn out_of_time(event: StopEvent, grace_secs: u64) -> bool {
    event matches StopEvent::Elapsed(nanos) && nanos >= grace_secs * 1_000_000_000
}

/// What a stop may do on the strength of what it has learned: it closes windows
/// of the target, and kills the target once its time is over.
pub open spec fn is_warranted(
    step: StepView,
    grace_secs: u64,
    target: Option<u32>,
    events: Seq<StopEvent>,
) -> bool {
    match step {
        Action::Close(hwnd) => target matches Some(pid) && exists|k: int|
            0 <= k < events.len() && shows_window(#[trigger] events[k], pid, hwnd),
        Action::Kill(killed) => target == Some(killed) && exists|k: int|
            0 <= k < events.len() && out_of_time(#[trigger] events[k], grace_secs),
        Action::Info(_) | Action::Sleep(_) | Action::Pause(_) => true,
        _ => false,
    }
}

proof fn lemma_close_all(windows: Seq<WindowView>, i: int)
    requires
        0 <= i < close_all(windows).len(),
    ensures
        match close_all(windows)[i] {
            Action::Close(hwnd) => has_handle(windows, hwnd),
            Action::Info(_) => true,
            _ => false,
        },
    decreases windows.len(),
{
    let head = windows.drop_last();
    if i < close_all(head).len() {
        lemma_close_all(head, i);
        if let Action::Close(hwnd) = close_all(head)[i] {
            let k = choose|k: int| 0 <= k < head.len() && (#[trigger] head[k]).hwnd == hwnd;
            assert(windows[k].hwnd == hwnd);
        }
    } else {
        assert(windows[windows.len() - 1].hwnd == windows.last().hwnd);
    }
}

pub(crate) proof fn lemma_step_warranted(
    grace_secs: u64,
    target: Option<u32>,
    state: Stop,
    events: Seq<StopEvent>,
    i: int,
)
    requires
        events.len() > 0,
        0 <= i < stop_next(grace_secs, target, state, events.last()).1.len(),
        state matches Stop::Waiting { pid, was_focused } ==> target == Some(pid),
        state matches Stop::Checking { pid, was_focused } ==> target == Some(pid),
    ensures
        is_warranted(
            stop_next(grace_secs, target, state, events.last()).1[i],
            grace_secs,
            target,
            events,
        ),
{
    let last = events[events.len() - 1];
    let steps = stop_next(grace_secs, target, state, last).1;
    match (state, last) {
        (Stop::Begin, StopEvent::Survey { procs, desktop, foreground }) => {
            if target is Some && zed_alive(procs@, target->0) {
                let pid = target->0;
                let windows = target_windows(desktop@, pid);
                let note: Seq<StepView> = if windows.len() == 0 {
                    seq![Action::Info("target has no visible window to close"@)]
                } else {
                    Seq::empty()
                };
                let k = i - note.len();
                if 0 <= k < close_all(windows).len() {
                    lemma_close_all(windows, k);
                    assert(steps[i] == close_all(windows)[k]);
                    if let Action::Close(hwnd) = steps[i] {
                        let j = choose|j: int|
                            0 <= j < windows.len() && (#[trigger] windows[j]).hwnd == hwnd;
                        law_enumeration(desktop@, seq![pid], windows[j]);
                        assert(windows.contains(windows[j]));
                        assert(is_owned(desktop@, seq![pid], windows[j]));
                        assert(shows_window(last, pid, hwnd));
                    }
                }
            }
        },
        (Stop::Waiting { pid, was_focused }, StopEvent::Elapsed(nanos)) => {
            if nanos >= grace_secs * 1_000_000_000 {
                assert(out_of_time(last, grace_secs));
            }
        },
        _ => {},
    }
}

proof fn lemma_stop_state(grace_secs: u64, target: Option<u32>, events: Seq<StopEvent>)
    ensures
        stop_run(grace_secs, target, events).0 matches Stop::Waiting { pid, was_focused }
            ==> target == Some(pid),
        stop_run(grace_secs, target, events).0 matches Stop::Checking { pid, was_focused }
            ==> target == Some(pid),
    decreases events.len(),
{
    if events.len() > 0 {
        lemma_stop_state(grace_secs, target, events.drop_last());
    }
}

/// Only the target is touched, and it has its time: a stop closes no window but
/// visible ones of the target, seen while the target was a running Zed; it kills
/// no process but the target, and that only once its time was over; and it does
/// nothing else to any window or process.
pub proof fn law_only_the_target_is_stopped(
    grace_secs: u64,
    target: Option<u32>,
    events: Seq<StopEvent>,
    i: int,
)
    requires
        0 <= i < stop_run(grace_secs, target, events).1.len(),
    ensures
        is_warranted(stop_run(grace_secs, target, events).1[i], grace_secs, target, events),
    decreases events.len(),
{
    let head = events.drop_last();
    let before = stop_run(grace_secs, target, head);
    lemma_stop_state(grace_secs, target, head);
    if i < before.1.len() {
        law_only_the_target_is_stopped(grace_secs, target, head, i);
        match before.1[i] {
            Action::Close(hwnd) => {
                let k = choose|k: int|
                    0 <= k < head.len() && shows_window(#[trigger] head[k], target->0, hwnd);
                assert(events[k] == head[k]);
            },
            Action::Kill(_) => {
                let k = choose|k: int|
                    0 <= k < head.len() && out_of_time(#[trigger] head[k], grace_secs);
                assert(events[k] == head[k]);
            },
            _ => {},
        }
    } else {
        lemma_step_warranted(grace_secs, target, before.0, events, i - before.1.len());
    }
}

/// A target that is no running Zed when the stop begins is left alone.
pub proof fn law_dead_target_is_left_alone(
    grace_secs: u64,
    target: Option<u32>,
    events: Seq<StopEvent>,
)
    requires
        events.len() > 0,
        events[0] matches StopEvent::Survey { procs, desktop, foreground } && !(target matches Some(
            pid,
        ) && zed_alive(procs@, pid)),
    ensures
        stop_run(grace_secs, target, events) == (
            Stop::Done(false),
            seq![Action::<Seq<char>, Seq<u16>>::Info(nothing_to_stop())],
        ),
    decreases events.len(),
{
    let head = events.drop_last();
    if events.len() > 1 {
        assert(head[0] == events[0]);
        law_dead_target_is_left_alone(grace_secs, target, head);
        assert(stop_run(grace_secs, target, head).1 + Seq::<StepView>::empty() == stop_run(
            grace_secs,
            target,
            head,
        ).1);
    } else {
        assert(stop_run(grace_secs, target, head).1 == Seq::<StepView>::empty());
        assert(Seq::<StepView>::empty() + seq![Action::Info(nothing_to_stop())] == seq![
            Action::<Seq<char>, Seq<u16>>::Info(nothing_to_stop()),
        ]);
    }
}

/// What a stop reports of the focus is what it saw before it closed anything.
pub proof fn law_focus_is_seen_first(
    grace_secs: u64,
    pid: u32,
    procs: Vec<ProcessInfo>,
    desktop: Vec<DesktopWindow>,
    foreground: usize,
    events: Seq<StopEvent>,
)
    requires
        events.len() > 0,
        events[0] == (StopEvent::Survey { procs, desktop, foreground }),
        zed_alive(procs@, pid),
    ensures
        match stop_run(grace_secs, Some(pid), events).0 {
            Stop::Begin => false,
            Stop::Waiting { pid: _, was_focused } => was_focused == has_handle(
                target_windows(desktop@, pid),
                foreground,
            ),
            Stop::Checking { pid: _, was_focused } => was_focused == has_handle(
                target_windows(desktop@, pid),
                foreground,
            ),
            Stop::Done(was_focused) => was_focused == has_handle(
                target_windows(desktop@, pid),
                foreground,
            ),
        },
    decreases events.len(),
{
    if events.len() > 1 {
        assert(events.drop_last()[0] == events[0]);
        law_focus_is_seen_first(
            grace_secs,
            pid,
            procs,
            desktop,
            foreground,
            events.drop_last(),
        );
    } else {
        assert(stop_run(grace_secs, Some(pid), events.drop_last()).0 == Stop::Begin);
    }
}

/// A target that exits in time is not killed: when it is gone at a look, the
/// stop is over without a kill.
pub proof fn law_exited_target_is_not_killed(
    grace_secs: u64,
    target: Option<u32>,
    state: Stop,
    procs: Vec<ProcessInfo>,
)
    requires
        state matches Stop::Checking { pid, was_focused } && !zed_alive(procs@, pid),
    ensures
        stop_next(grace_secs, target, state, StopEvent::Processes(procs)).0 is Done,
        forall|i: int|
            0 <= i < stop_next(grace_secs, target, state, StopEvent::Processes(procs)).1.len()
                ==> !((#[trigger] stop_next(
                grace_secs,
                target,
                state,
                StopEvent::Processes(procs),
            ).1[i]) is Kill),
{
}

/// Each window is asked to close exactly once, in order: two actions for each,
/// an entry and the request.
pub proof fn law_each_window_is_closed_once(windows: Seq<WindowView>, i: int)
    requires
        0 <= i < windows.len(),
    ensures
        close_all(windows).len() == 2 * windows.len(),
        close_all(windows)[2 * i] is Info,
        close_all(windows)[2 * i + 1] == Action::<Seq<char>, Seq<u16>>::Close(windows[i].hwnd),
    decreases windows.len(),
{
    let head = windows.drop_last();
    if head.len() == 0 {
        assert(close_all(head).len() == 0);
    } else if i < head.len() {
        law_each_window_is_closed_once(head, i);
        assert(head[i] == windows[i]);
    } else {
        law_each_window_is_closed_once(head, 0);
    }
}

/// Windows are asked to close at the beginning only.
pub proof fn law_nothing_is_closed_later(
    grace_secs: u64,
    target: Option<u32>,
    state: Stop,
    event: StopEvent,
    i: int,
)
    requires
        !(state is Begin),
    ensures
        !(stop_next(grace_secs, target, state, event).0 is Begin),
        0 <= i < stop_next(grace_secs, target, state, event).1.len() ==> !(stop_next(
            grace_secs,
            target,
            state,
            event,
        ).1[i] is Close),
{
}

/// A stop that waits and learns that the grace time is over kills the target and
/// is over; before that it only looks again after half a second.
pub proof fn law_grace_time(
    grace_secs: u64,
    target: Option<u32>,
    pid: u32,
    was_focused: bool,
    nanos: u128,
)
    ensures
        ({
            let next = stop_next(
                grace_secs,
                target,
                Stop::Waiting { pid, was_focused },
                StopEvent::Elapsed(nanos),
            );
            if nanos >= grace_secs * 1_000_000_000 {
                next.0 == Stop::Done(was_focused) && effects(next.1) == seq![
                    Action::<Seq<char>, Seq<u16>>::Kill(pid),
                    Action::Pause(2),
                ]
            } else {
                next.0 == (Stop::Checking { pid, was_focused }) && effects(next.1) == seq![
                    Action::<Seq<char>, Seq<u16>>::Sleep(500),
                ]
            }
        }),
{
    reveal_with_fuel(effects, 4);
}

/// A stop goes on waiting exactly as long as the target is a running Zed.
pub proof fn law_exit_is_noticed(
    grace_secs: u64,
    target: Option<u32>,
    pid: u32,
    was_focused: bool,
    procs: Vec<ProcessInfo>,
)
    ensures
        ({
            let next = stop_next(
                grace_secs,
                target,
                Stop::Checking { pid, was_focused },
                StopEvent::Processes(procs),
            );
            let running = exists|i: int|
                0 <= i < procs@.len() && (#[trigger] procs@[i]).pid == pid && ascii_lower(
                    procs@[i].name@,
                ) == "zed.exe"@;
            &&& effects(next.1) == Seq::<StepView>::empty()
            &&& next.0 == if running {
                Stop::Waiting { pid, was_focused }
            } else {
                Stop::Done(was_focused)
            }
        }),
{
    broadcast use group_actions;

    law_zed_is_known_by_its_name(procs@, pid);
}

proof fn lemma_close_effects(windows: Seq<WindowView>)
    ensures
        effects(close_all(windows)) == Seq::new(
            windows.len(),
            |i: int| Action::<Seq<char>, Seq<u16>>::Close(windows[i].hwnd),
        ),
    decreases windows.len(),
{
    broadcast use group_actions;

    let closed = Seq::new(
        windows.len(),
        |i: int| Action::<Seq<char>, Seq<u16>>::Close(windows[i].hwnd),
    );
    if windows.len() > 0 {
        lemma_close_effects(windows.drop_last());
        assert(closed.drop_last() == effects(close_all(windows.drop_last())));
        assert(effects(close_all(windows)) == closed);
    }
}

/// A running target is closed by each of its windows, in order, and nothing else
/// is done to it; the stop remembers whether one of them was in the foreground.
pub proof fn law_running_target_is_closed(
    grace_secs: u64,
    pid: u32,
    procs: Vec<ProcessInfo>,
    desktop: Vec<DesktopWindow>,
    foreground: usize,
)
    requires
        zed_alive(procs@, pid),
    ensures
        ({
            let next = stop_next(
                grace_secs,
                Some(pid),
                Stop::Begin,
                StopEvent::Survey { procs, desktop, foreground },
            );
            let windows = prefer_titled(visible_of(desktop@, seq![pid]));
            &&& effects(next.1) == Seq::new(
                windows.len(),
                |i: int| Action::<Seq<char>, Seq<u16>>::Close(windows[i].hwnd),
            )
            &&& next.0 matches Stop::Waiting { pid: waiting, was_focused } && waiting == pid && (
            was_focused <==> exists|i: int|
                0 <= i < windows.len() && (#[trigger] windows[i]).hwnd == foreground)
        }),
{
    broadcast use group_actions;

    let windows = prefer_titled(visible_of(desktop@, seq![pid]));
    let steps = close_steps(windows, has_handle(windows, foreground));
    lemma_close_effects(windows);
    assert(Seq::<StepView>::empty() + effects(close_all(windows)) == effects(close_all(windows)));
    assert(effects(steps) == effects(close_all(windows)));
}

/// Without a running target nothing is done.
pub proof fn law_no_target_no_effect(
    grace_secs: u64,
    target: Option<u32>,
    procs: Vec<ProcessInfo>,
    desktop: Vec<DesktopWindow>,
    foreground: usize,
)
    requires
        target matches Some(pid) ==> !zed_alive(procs@, pid),
    ensures
        ({
            let next = stop_next(
                grace_secs,
                target,
                Stop::Begin,
                StopEvent::Survey { procs, desktop, foreground },
            );
            next.0 == Stop::Done(false) && effects(next.1) == Seq::<StepView>::empty()
        }),
{
    broadcast use group_actions;

}

/// Each step of a stop is logged: which windows are asked to close, whether the
/// old session was in the foreground, that it exited, that it is killed, or that
/// there is nothing to stop.
pub proof fn law_stop_is_logged(
    grace_secs: u64,
    target: Option<u32>,
    pid: u32,
    was_focused: bool,
    procs: Vec<ProcessInfo>,
    nanos: u128,
)
    ensures
        entries(
            stop_next(
                grace_secs,
                target,
                Stop::Waiting { pid, was_focused },
                StopEvent::Elapsed(nanos),
            ).1,
        ) == if nanos >= grace_secs * 1_000_000_000 {
            seq![
                "graceful close timed out after "@ + decimal(grace_secs as nat)
                    + "s — force killing pid "@ + decimal(pid as nat),
            ]
        } else {
            Seq::empty()
        },
        entries(
            stop_next(
                grace_secs,
                target,
                Stop::Checking { pid, was_focused },
                StopEvent::Processes(procs),
            ).1,
        ) == if zed_alive(procs@, pid) {
            Seq::empty()
        } else {
            seq!["Zed exited gracefully"@]
        },
{
    reveal_with_fuel(entries, 4);
}

proof fn lemma_close_entries(windows: Seq<WindowView>)
    ensures
        entries(close_all(windows)) == Seq::new(
            windows.len(),
            |i: int|
                "WM_CLOSE pid="@ + decimal(windows[i].pid as nat) + " title='"@ + windows[i].title
                    + "'"@,
        ),
    decreases windows.len(),
{
    broadcast use group_actions;

    let logged = Seq::new(
        windows.len(),
        |i: int|
            "WM_CLOSE pid="@ + decimal(windows[i].pid as nat) + " title='"@ + windows[i].title
                + "'"@,
    );
    if windows.len() > 0 {
        lemma_close_entries(windows.drop_last());
        assert(logged.drop_last() == entries(close_all(windows.drop_last())));
        assert(entries(close_all(windows)) == logged);
    }
}

/// The beginning of a stop logs each window that is asked to close, or that there
/// is none, and whether one of them was in the foreground; without a running
/// target it logs that there is nothing to stop.
pub proof fn law_closing_is_logged(
    grace_secs: u64,
    target: Option<u32>,
    procs: Vec<ProcessInfo>,
    desktop: Vec<DesktopWindow>,
    foreground: usize,
)
    ensures
        ({
            let logged = entries(
                stop_next(
                    grace_secs,
                    target,
                    Stop::Begin,
                    StopEvent::Survey { procs, desktop, foreground },
                ).1,
            );
            match target {
                Some(pid) if zed_alive(procs@, pid) => {
                    let windows = prefer_titled(visible_of(desktop@, seq![pid]));
                    let was_focused = exists|i: int|
                        0 <= i < windows.len() && (#[trigger] windows[i]).hwnd == foreground;
                    logged == (if windows.len() == 0 {
                        seq!["target has no visible window to close"@]
                    } else {
                        Seq::new(
                            windows.len(),
                            |i: int|
                                "WM_CLOSE pid="@ + decimal(windows[i].pid as nat) + " title='"@
                                    + windows[i].title + "'"@,
                        )
                    }).push(
                        "old session focused: "@ + if was_focused {
                            "true"@
                        } else {
                            "false"@
                        },
                    )
                },
                _ => logged == seq!["no live target Zed process — nothing to stop"@],
            }
        }),
{
    broadcast use group_actions;

    reveal_with_fuel(entries, 2);
    if let Some(pid) = target {
        let windows = prefer_titled(visible_of(desktop@, seq![pid]));
        let none = Seq::<Seq<char>>::empty();
        lemma_close_entries(windows);
        assert(none + entries(close_all(windows)) == entries(close_all(windows)));
        let note: Seq<StepView> = seq![Action::Info("target has no visible window to close"@)];
        assert(entries(note) == seq!["target has no visible window to close"@]);
        if windows.len() == 0 {
            assert(close_all(windows) == Seq::<StepView>::empty());
            assert(entries(note) + none == entries(note));
        }
    }
}

/// An event that a stop does not wait for changes nothing.
pub proof fn law_stop_waits_for_its_event(
    grace_secs: u64,
    target: Option<u32>,
    state: Stop,
    event: StopEvent,
)
    requires
        state is Begin ==> !(event is Survey),
        state is Waiting ==> !(event is Elapsed),
        state is Checking ==> !(event is Processes),
    ensures
        stop_next(grace_secs, target, state, event) == (state, Seq::<StepView>::empty()),
{
}

} // verus!
