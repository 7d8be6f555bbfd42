//! Bringing a window to the foreground against Windows' foreground lock.
use vstd::prelude::*;

use crate::action::{effects, entries, no_steps, push_step, steps_view, Action, Step, StepView};
use crate::codes::{edit_codes, edit_keys};
use crate::text::{decimal, owned, push_decimal};

verus! {

/// How far the attempts have come. Each state waits for a look at the
/// foreground and holds how many attempts have failed before.
#[derive(Clone, Copy, Debug, PartialEq, Eq, Structural)]
pub enum Foreground {
    /// An attempt begins.
    Looking(u32),
    /// The attempt has switched to the window.
    Switched(u32),
    /// The attempt has raised the window.
    Raised(u32),
    /// The attempt has pressed a phantom key and set the window again.
    Nudged(u32),
    /// Over; says whether the window is in the foreground.
    Done(bool),
}

/// A look at the foreground.
#[derive(Debug, PartialEq, Eq)]
pub struct Sight {
    /// The window is in the foreground.
    pub in_front: bool,
    /// The window is minimized.
    pub minimized: bool,
    /// The thread of the window in the foreground; 0 if there is none.
    pub front_thread: u32,
    /// The thread of this process.
    pub own_thread: u32,
}

/// How many attempts are made.
pub const ATTEMPTS: u32 = 15;

/// The entry for an attempt that succeeded in this way, after `failed` others.
pub open spec fn success_entry(way: Seq<char>, failed: u32) -> Seq<char> {
    "foreground=true via "@ + way + " (attempt "@ + decimal((failed + 1) as nat) + ")"@
}

/// The actions that switch to the window.
pub open spec fn switch_steps(hwnd: usize, minimized: bool) -> Seq<StepView> {
    let restore: Seq<StepView> = if minimized {
        seq![Action::Restore(hwnd)]
    } else {
        Seq::empty()
    };
    restore.push(Action::SwitchTo(hwnd)).push(Action::Sleep(200))
}

/// The actions that raise the window: with the input of the foreground's thread
/// attached, where that is another one.
pub open spec fn raise_steps(hwnd: usize, sight: Sight) -> Seq<StepView> {
    if sight.front_thread != 0 && sight.front_thread != sight.own_thread {
        seq![Action::RaiseAttached(hwnd, sight.front_thread), Action::Sleep(200)]
    } else {
        seq![Action::SetForeground(hwnd), Action::Sleep(200)]
    }
}

/// What follows on a look at the foreground. An attempt switches to the window,
/// then raises it, then presses a phantom key, which satisfies the foreground
/// lock, and sets it again; it ends as soon as the window is in front.
pub open spec fn foreground_next(hwnd: usize, state: Foreground, sight: Sight) -> (
    Foreground,
    Seq<StepView>,
) {
    match state {
        Foreground::Looking(failed) => if sight.in_front {
            (
                Foreground::Done(true),
                seq![
                    Action::Info(
                        "foreground=true after "@ + decimal(failed as nat)
                            + " attempt(s)"@,
                    ),
                ],
            )
        } else {
            (Foreground::Switched(failed), switch_steps(hwnd, sight.minimized))
        },
        Foreground::Switched(failed) => if sight.in_front {
            (
                Foreground::Done(true),
                seq![Action::Info(success_entry("SwitchToThisWindow"@, failed))],
            )
        } else {
            (Foreground::Raised(failed), raise_steps(hwnd, sight))
        },
        Foreground::Raised(failed) => if sight.in_front {
            (
                Foreground::Done(true),
                seq![Action::Info(success_entry("AttachThreadInput"@, failed))],
            )
        } else {
            (
                Foreground::Nudged(failed),
                seq![
                    Action::Nudge(edit_codes().f15),
                    Action::SetForeground(hwnd),
                    Action::Sleep(250),
                ],
            )
        },
        Foreground::Nudged(failed) => if sight.in_front {
            (
                Foreground::Done(true),
                seq![Action::Info(success_entry("F15+SetForegroundWindow"@, failed))],
            )
        } else if failed + 1 < ATTEMPTS {
            (Foreground::Looking((failed + 1) as u32), Seq::empty())
        } else {
            (
                Foreground::Done(false),
                seq![
                    Action::Info("foreground=false after "@ + decimal(ATTEMPTS as nat)
                        + " attempts"@),
                ],
            )
        },
        Foreground::Done(_) => (state, Seq::empty()),
    }
}

fn push_success(steps: &mut Vec<Step>, way: &str, failed: u32)
    ensures
        steps_view(final(steps)@) == steps_view(old(steps)@).push(
            Action::Info(success_entry(way@, failed)),
        ),
{
    let mut entry = owned("foreground=true via ");
    entry.append(way);
    entry.append(" (attempt ");
    push_decimal(&mut entry, failed as u128 + 1);
    entry.append(")");
    push_step(steps, Action::Info(entry));
}

/// Brings `hwnd` to the foreground: one step. It starts with
/// `Foreground::Looking(0)`.
pub fn force_foreground(hwnd: usize, state: Foreground, sight: &Sight) -> (r: (
    Foreground,
    Vec<Step>,
))
    ensures
        (r.0, steps_view(r.1@)) == foreground_next(hwnd, state, *sight),
{
    let mut steps = no_steps();
    match state {
        Foreground::Looking(failed) => {
            if sight.in_front {
                let mut entry = owned("foreground=true after ");
                push_decimal(&mut entry, failed as u128);
                entry.append(" attempt(s)");
                push_step(&mut steps, Action::Info(entry));
                (Foreground::Done(true), steps)
            } else {
                if sight.minimized {
                    push_step(&mut steps, Action::Restore(hwnd));
                }
                push_step(&mut steps, Action::SwitchTo(hwnd));
                push_step(&mut steps, Action::Sleep(200));
                (Foreground::Switched(failed), steps)
            }
        },
        Foreground::Switched(failed) => {
            if sight.in_front {
                push_success(&mut steps, "SwitchToThisWindow", failed);
                (Foreground::Done(true), steps)
            } else {
                if sight.front_thread != 0 && sight.front_thread != sight.own_thread {
                    push_step(&mut steps, Action::RaiseAttached(hwnd, sight.front_thread));
                } else {
                    push_step(&mut steps, Action::SetForeground(hwnd));
                }
                push_step(&mut steps, Action::Sleep(200));
                (Foreground::Raised(failed), steps)
            }
        },
        Foreground::Raised(failed) => {
            if sight.in_front {
                push_success(&mut steps, "AttachThreadInput", failed);
                (Foreground::Done(true), steps)
            } else {
                push_step(&mut steps, Action::Nudge(edit_keys().f15));
                push_step(&mut steps, Action::SetForeground(hwnd));
                push_step(&mut steps, Action::Sleep(250));
                (Foreground::Nudged(failed), steps)
            }
        },
        Foreground::Nudged(failed) => {
            if sight.in_front {
                push_success(&mut steps, "F15+SetForegroundWindow", failed);
                (Foreground::Done(true), steps)
            } else if failed < ATTEMPTS - 1 {
                (Foreground::Looking(failed + 1), steps)
            } else {
                let mut entry = owned("foreground=false after ");
                push_decimal(&mut entry, ATTEMPTS as u128);
                entry.append(" attempts");
                push_step(&mut steps, Action::Info(entry));
                (Foreground::Done(false), steps)
            }
        },
        Foreground::Done(_) => (state, steps),
    }
}

// ---------------------------------------------------------------------------
// laws
// ---------------------------------------------------------------------------

/// The attempts from their beginning over all looks at the foreground: where
/// they stand, and what was done.
pub open spec fn foreground_run(hwnd: usize, sights: Seq<Sight>) -> (Foreground, Seq<StepView>)
    decreases sights.len(),
{
    if sights.len() == 0 {
        (Foreground::Looking(0), Seq::empty())
    } else {
        let before = foreground_run(hwnd, sights.drop_last());
        let next = foreground_next(hwnd, before.0, sights.last());
        (next.0, before.1 + next.1)
    }
}

/// The attempts end well exactly at the first look that shows the window in
/// front.
pub proof fn law_success_is_seen(hwnd: usize, sights: Seq<Sight>, last: Sight)
    requires
        !(foreground_run(hwnd, sights).0 is Done),
    ensures
        foreground_run(hwnd, sights.push(last)).0 == Foreground::Done(true) <==> last.in_front,
{
    assert(sights.push(last).drop_last() == sights);
}

/// How many looks are left at most.
pub open spec fn looks_left(state: Foreground) -> int {
    match state {
        Foreground::Looking(failed) => 4 * (ATTEMPTS - failed),
        Foreground::Switched(failed) => 4 * (ATTEMPTS - failed) - 1,
        Foreground::Raised(failed) => 4 * (ATTEMPTS - failed) - 2,
        Foreground::Nudged(failed) => 4 * (ATTEMPTS - failed) - 3,
        Foreground::Done(_) => 0,
    }
}

proof fn lemma_looks_left(hwnd: usize, sights: Seq<Sight>)
    ensures
        ({
            let state = foreground_run(hwnd, sights).0;
            state is Done || 0 < looks_left(state) <= 4 * ATTEMPTS - sights.len()
        }),
    decreases sights.len(),
{
    if sights.len() > 0 {
        lemma_looks_left(hwnd, sights.drop_last());
    }
}

/// The attempts end: after four looks for each of them at the latest.
pub proof fn law_attempts_end(hwnd: usize, sights: Seq<Sight>)
    requires
        sights.len() >= 4 * ATTEMPTS,
    ensures
        foreground_run(hwnd, sights).0 is Done,
{
    lemma_looks_left(hwnd, sights);
}

/// `step` is one of those that bring `hwnd` to the foreground.
pub open spec fn is_raising(hwnd: usize, step: StepView) -> bool {
    match step {
        Action::Restore(w) => w == hwnd,
        Action::SwitchTo(w) => w == hwnd,
        Action::SetForeground(w) => w == hwnd,
        Action::RaiseAttached(w, thread) => w == hwnd && thread != 0,
        Action::Nudge(key) => key == edit_codes().f15,
        Action::Info(_) | Action::Sleep(_) => true,
        _ => false,
    }
}

pub(crate) proof fn lemma_raising(hwnd: usize, state: Foreground, sight: Sight, i: int)
    requires
        0 <= i < foreground_next(hwnd, state, sight).1.len(),
    ensures
        is_raising(hwnd, foreground_next(hwnd, state, sight).1[i]),
{
}

/// No other window is touched, and no key is pressed but the phantom key.
pub proof fn law_only_the_window_is_raised(hwnd: usize, sights: Seq<Sight>, i: int)
    requires
        0 <= i < foreground_run(hwnd, sights).1.len(),
    ensures
        is_raising(hwnd, foreground_run(hwnd, sights).1[i]),
    decreases sights.len(),
{
    let head = sights.drop_last();
    let before = foreground_run(hwnd, head);
    if i < before.1.len() {
        law_only_the_window_is_raised(hwnd, head, i);
    } else {
        lemma_raising(hwnd, before.0, sights.last(), i - before.1.len());
    }
}

proof fn lemma_looks_made(hwnd: usize, sights: Seq<Sight>)
    ensures
        match foreground_run(hwnd, sights).0 {
            Foreground::Done(in_front) => in_front || sights.len() >= 4 * ATTEMPTS,
            state => looks_left(state) == 4 * ATTEMPTS - sights.len(),
        },
    decreases sights.len(),
{
    if sights.len() > 0 {
        lemma_looks_left(hwnd, sights.drop_last());
        lemma_looks_made(hwnd, sights.drop_last());
    }
}

/// Nothing is given up early: the attempts end badly only after all of them, with
/// four looks each.
pub proof fn law_failure_takes_all_attempts(hwnd: usize, sights: Seq<Sight>)
    requires
        foreground_run(hwnd, sights).0 == Foreground::Done(false),
    ensures
        sights.len() >= 4 * ATTEMPTS,
{
    lemma_looks_made(hwnd, sights);
}

/// An attempt ends as soon as a look shows the window in front, and does nothing
/// more then.
pub proof fn law_nothing_is_done_once_in_front(hwnd: usize, state: Foreground, sight: Sight)
    requires
        !(state is Done),
        sight.in_front,
    ensures
        foreground_next(hwnd, state, sight).0 == Foreground::Done(true),
        effects(foreground_next(hwnd, state, sight).1) == Seq::<StepView>::empty(),
{
    reveal_with_fuel(effects, 2);
}

/// An attempt first switches to the window, which is restored before that if it
/// is minimized; then raises it, through the thread in the foreground where
/// that is another one; then presses the phantom key and sets it again.
pub proof fn law_ways_of_an_attempt(hwnd: usize, failed: u32, sight: Sight)
    requires
        !sight.in_front,
    ensures
        ({
            let next = foreground_next(hwnd, Foreground::Looking(failed), sight);
            &&& next.0 == Foreground::Switched(failed)
            &&& sight.minimized ==> next.1 == seq![
                Action::<Seq<char>, Seq<u16>>::Restore(hwnd),
                Action::SwitchTo(hwnd),
                Action::Sleep(200),
            ]
            &&& !sight.minimized ==> next.1 == seq![
                Action::<Seq<char>, Seq<u16>>::SwitchTo(hwnd),
                Action::Sleep(200),
            ]
        }),
        ({
            let next = foreground_next(hwnd, Foreground::Switched(failed), sight);
            let other = sight.front_thread != 0 && sight.front_thread != sight.own_thread;
            &&& next.0 == Foreground::Raised(failed)
            &&& other ==> next.1 == seq![
                Action::<Seq<char>, Seq<u16>>::RaiseAttached(hwnd, sight.front_thread),
                Action::Sleep(200),
            ]
            &&& !other ==> next.1 == seq![
                Action::<Seq<char>, Seq<u16>>::SetForeground(hwnd),
                Action::Sleep(200),
            ]
        }),
        ({
            let next = foreground_next(hwnd, Foreground::Raised(failed), sight);
            &&& next.0 == Foreground::Nudged(failed)
            &&& next.1 == seq![
                Action::<Seq<char>, Seq<u16>>::Nudge(0x7E),
                Action::SetForeground(hwnd),
                Action::Sleep(250),
            ]
        }),
{
}

/// After an attempt in vain comes the next, which does nothing before it looks;
/// after fifteen of them there is no other.
pub proof fn law_fifteen_attempts(hwnd: usize, failed: u32, sight: Sight)
    requires
        !sight.in_front,
    ensures
        ({
            let next = foreground_next(hwnd, Foreground::Nudged(failed), sight);
            &&& effects(next.1) == Seq::<StepView>::empty()
            &&& failed < 14 ==> next.0 == Foreground::Looking((failed + 1) as u32)
            &&& failed >= 14 ==> next.0 == Foreground::Done(false)
        }),
{
    reveal_with_fuel(effects, 2);
}

/// What is over stays as it is.
pub proof fn law_end_stays(hwnd: usize, in_front: bool, sight: Sight)
    ensures
        foreground_next(hwnd, Foreground::Done(in_front), sight) == (
            Foreground::Done(in_front),
            Seq::<StepView>::empty(),
        ),
{
}

/// A success is logged with the way that it came by and the number of attempts;
/// the end of all attempts is logged, too.
pub proof fn law_attempts_are_logged(hwnd: usize, failed: u32, sight: Sight)
    ensures
        sight.in_front ==> entries(foreground_next(hwnd, Foreground::Looking(failed), sight).1)
            == seq!["foreground=true after "@ + decimal(failed as nat) + " attempt(s)"@],
        sight.in_front ==> entries(foreground_next(hwnd, Foreground::Switched(failed), sight).1)
            == seq![
            "foreground=true via "@ + "SwitchToThisWindow"@ + " (attempt "@ + decimal(
                (failed + 1) as nat,
            ) + ")"@,
        ],
        sight.in_front ==> entries(foreground_next(hwnd, Foreground::Raised(failed), sight).1)
            == seq![
            "foreground=true via "@ + "AttachThreadInput"@ + " (attempt "@ + decimal(
                (failed + 1) as nat,
            ) + ")"@,
        ],
        sight.in_front ==> entries(foreground_next(hwnd, Foreground::Nudged(failed), sight).1)
            == seq![
            "foreground=true via "@ + "F15+SetForegroundWindow"@ + " (attempt "@ + decimal(
                (failed + 1) as nat,
            ) + ")"@,
        ],
        !sight.in_front ==> entries(foreground_next(hwnd, Foreground::Nudged(failed), sight).1)
            == if failed >= 14 {
            seq!["foreground=false after "@ + decimal(15) + " attempts"@]
        } else {
            Seq::empty()
        },
{
    reveal_with_fuel(entries, 2);
}

} // verus!
