//! Putting a text into the clipboard.
use vstd::prelude::*;

use crate::action::{no_steps, push_step, steps_view, Action, Step, StepView};
use crate::text::owned;
use crate::wide::{decode, encode, law_wide_round_trip, no_nul, to_wide, until_nul};

verus! {

/// How far setting the clipboard has come. Each state waits to hear whether a
/// call succeeded.
#[derive(Debug, PartialEq, Eq)]
pub enum ClipboardSet {
    /// `OpenClipboard`, after this many failures.
    Open(u32),
    /// `EmptyClipboard`.
    Empty,
    /// `GlobalAlloc` for the text in UTF-16 with its NUL.
    Alloc,
    /// `GlobalLock`.
    Lock,
    /// `SetClipboardData`, once the text was copied and the memory unlocked.
    Store,
    /// Over, with the outcome.
    Done(Result<(), String>),
}

/// Which call of setting the clipboard is awaited, or how it ended.
pub ghost enum ClipboardView {
    Open(u32),
    Empty,
    Alloc,
    Lock,
    Store,
    Done(Result<(), Seq<char>>),
}

impl View for ClipboardSet {
    type V = ClipboardView;

    open spec fn view(&self) -> ClipboardView {
        match self {
            ClipboardSet::Open(n) => ClipboardView::Open(*n),
            ClipboardSet::Empty => ClipboardView::Empty,
            ClipboardSet::Alloc => ClipboardView::Alloc,
            ClipboardSet::Lock => ClipboardView::Lock,
            ClipboardSet::Store => ClipboardView::Store,
            ClipboardSet::Done(Ok(_)) => ClipboardView::Done(Ok(())),
            ClipboardSet::Done(Err(e)) => ClipboardView::Done(Err(e@)),
        }
    }
}

/// How often opening the clipboard is tried.
pub const OPEN_TRIES: u32 = 10;

/// The end after a failure while the clipboard is open: it is closed.
pub open spec fn failed_open(call: Seq<char>) -> (ClipboardView, Seq<StepView>) {
    (ClipboardView::Done(Err(call + " failed"@)), seq![Action::CloseClipboard])
}

/// What follows on the outcome of a call. Opening is tried again as long as
/// another process has the clipboard open; once open it is closed at the end,
/// whatever happens.
pub open spec fn clipboard_next(state: ClipboardView, ok: bool) -> (ClipboardView, Seq<StepView>) {
    match state {
        ClipboardView::Open(failures) => if ok {
            (ClipboardView::Empty, Seq::empty())
        } else if failures + 1 < OPEN_TRIES {
            (ClipboardView::Open((failures + 1) as u32), seq![Action::Sleep(100)])
        } else {
            (ClipboardView::Done(Err("OpenClipboard failed"@)), seq![Action::Sleep(100)])
        },
        ClipboardView::Empty => if ok {
            (ClipboardView::Alloc, Seq::empty())
        } else {
            failed_open("EmptyClipboard"@)
        },
        ClipboardView::Alloc => if ok {
            (ClipboardView::Lock, Seq::empty())
        } else {
            failed_open("GlobalAlloc"@)
        },
        ClipboardView::Lock => if ok {
            (ClipboardView::Store, Seq::empty())
        } else {
            failed_open("GlobalLock"@)
        },
        ClipboardView::Store => if ok {
            (ClipboardView::Done(Ok(())), seq![Action::CloseClipboard])
        } else {
            failed_open("SetClipboardData"@)
        },
        ClipboardView::Done(_) => (state, Seq::empty()),
    }
}

/// The memory that holds a text in the clipboard: UTF-16 with a NUL at the end.
pub open spec fn clipboard_memory(text: Seq<char>) -> Seq<u16> {
    encode(text).push(0)
}

/// What follows on a call that sets the clipboard.
#[derive(Debug, PartialEq, Eq)]
pub struct ClipboardStep {
    /// The call that is awaited next, or how it ended.
    pub next: ClipboardSet,
    pub steps: Vec<Step>,
    /// What the memory is to hold: on the way to `GlobalAlloc`, which makes room
    /// for it, and to `SetClipboardData`, before which it is copied; else empty.
    pub memory: Vec<u16>,
}

fn quiet(next: ClipboardSet) -> (r: ClipboardStep)
    ensures
        r.next == next,
        steps_view(r.steps@) == Seq::<StepView>::empty(),
        r.memory@ == Seq::<u16>::empty(),
{
    ClipboardStep { next, steps: no_steps(), memory: Vec::new() }
}

fn with_memory(next: ClipboardSet, text: &str) -> (r: ClipboardStep)
    ensures
        r.next == next,
        steps_view(r.steps@) == Seq::<StepView>::empty(),
        r.memory@ == clipboard_memory(text@),
{
    ClipboardStep { next, steps: no_steps(), memory: to_wide(text) }
}

fn end(outcome: Result<(), String>) -> (r: ClipboardStep)
    ensures
        r.next == ClipboardSet::Done(outcome),
        steps_view(r.steps@) == seq![Action::<Seq<char>, Seq<u16>>::CloseClipboard],
        r.memory@ == Seq::<u16>::empty(),
{
    let mut steps = no_steps();
    push_step(&mut steps, Action::CloseClipboard);
    ClipboardStep { next: ClipboardSet::Done(outcome), steps, memory: Vec::new() }
}

fn fail(call: &str) -> (r: ClipboardStep)
    ensures
        (r.next@, steps_view(r.steps@)) == failed_open(call@),
        r.memory@ == Seq::<u16>::empty(),
{
    let mut e = owned(call);
    e.append(" failed");
    end(Err(e))
}

/// Puts `text` into the clipboard: one step. It starts with
/// `ClipboardSet::Open(0)`.
pub fn clipboard_set(text: &str, state: ClipboardSet, ok: bool) -> (r: ClipboardStep)
    ensures
        (r.next@, steps_view(r.steps@)) == clipboard_next(state@, ok),
        r.memory@ == (if r.next@ is Alloc || r.next@ is Store {
            clipboard_memory(text@)
        } else {
            Seq::empty()
        }),
{
    match state {
        ClipboardSet::Open(failures) => {
            if ok {
                quiet(ClipboardSet::Empty)
            } else {
                let next = if failures < OPEN_TRIES - 1 {
                    ClipboardSet::Open(failures + 1)
                } else {
                    ClipboardSet::Done(Err(owned("OpenClipboard failed")))
                };
                let mut steps = no_steps();
                push_step(&mut steps, Action::Sleep(100));
                ClipboardStep { next, steps, memory: Vec::new() }
            }
        },
        ClipboardSet::Empty => if ok {
            with_memory(ClipboardSet::Alloc, text)
        } else {
            fail("EmptyClipboard")
        },
        ClipboardSet::Alloc => if ok {
            quiet(ClipboardSet::Lock)
        } else {
            fail("GlobalAlloc")
        },
        ClipboardSet::Lock => if ok {
            with_memory(ClipboardSet::Store, text)
        } else {
            fail("GlobalLock")
        },
        ClipboardSet::Store => if ok {
            end(Ok(()))
        } else {
            fail("SetClipboardData")
        },
        ClipboardSet::Done(outcome) => quiet(ClipboardSet::Done(outcome)),
    }
}

// ---------------------------------------------------------------------------
// laws
// ---------------------------------------------------------------------------

/// Setting the clipboard from its beginning over the outcomes of all calls:
/// where it stands, and what was done.
pub open spec fn clipboard_run(oks: Seq<bool>) -> (ClipboardView, Seq<StepView>)
    decreases oks.len(),
{
    if oks.len() == 0 {
        (ClipboardView::Open(0), Seq::empty())
    } else {
        let before = clipboard_run(oks.drop_last());
        let next = clipboard_next(before.0, oks.last());
        (next.0, before.1 + next.1)
    }
}

/// How often the clipboard is closed.
pub open spec fn closings(steps: Seq<StepView>) -> nat
    decreases steps.len(),
{
    if steps.len() == 0 {
        0
    } else {
        closings(steps.drop_last()) + if steps.last() is CloseClipboard {
            1nat
        } else {
            0nat
        }
    }
}

/// One of the tries to open the clipboard succeeded.
pub open spec fn was_opened(oks: Seq<bool>) -> bool {
    exists|k: int| 0 <= k < oks.len() && k < OPEN_TRIES && #[trigger] oks[k]
}

proof fn lemma_closings(a: Seq<StepView>, b: Seq<StepView>)
    requires
        b.len() <= 1,
    ensures
        closings(a + b) == closings(a) + closings(b),
{
    if b.len() == 0 {
        assert(a + b == a);
    } else {
        assert((a + b).drop_last() == a);
        assert(b.drop_last() == Seq::<StepView>::empty());
        assert(closings(b.drop_last()) == 0);
    }
}

proof fn lemma_clipboard_run(oks: Seq<bool>)
    ensures
        ({
            let run = clipboard_run(oks);
            match run.0 {
                ClipboardView::Open(failures) => failures == oks.len() && failures < OPEN_TRIES
                    && closings(run.1) == 0 && !was_opened(oks),
                ClipboardView::Done(outcome) => if was_opened(oks) {
                    closings(run.1) == 1
                } else {
                    closings(run.1) == 0 && oks.len() >= OPEN_TRIES
                },
                _ => closings(run.1) == 0 && was_opened(oks),
            }
        }),
    decreases oks.len(),
{
    if oks.len() > 0 {
        let head = oks.drop_last();
        let before = clipboard_run(head);
        let next = clipboard_next(before.0, oks.last());
        lemma_clipboard_run(head);
        lemma_closings(before.1, next.1);
        if next.1.len() == 1 {
            assert(next.1.drop_last() == Seq::<StepView>::empty());
            assert(closings(next.1.drop_last()) == 0);
        }
        assert(oks.last() == oks[oks.len() - 1]);
        if was_opened(head) {
            let k = choose|k: int| 0 <= k < head.len() && k < OPEN_TRIES && #[trigger] head[k];
            assert(oks[k]);
        } else {
            assert forall|k: int| 0 <= k < head.len() && k < OPEN_TRIES implies
                !#[trigger] oks[k] by {
                assert(oks[k] == head[k]);
            }
        }
    }
}

/// The clipboard does not stay open: once setting it is over, it was closed
/// exactly once if it was opened, and never if it was not.
pub proof fn law_opened_means_closed(oks: Seq<bool>)
    requires
        clipboard_run(oks).0 is Done,
    ensures
        closings(clipboard_run(oks).1) == if was_opened(oks) {
            1nat
        } else {
            0nat
        },
{
    lemma_clipboard_run(oks);
}

/// How many calls are left at most.
pub open spec fn calls_left(state: ClipboardView) -> int {
    match state {
        ClipboardView::Open(failures) => OPEN_TRIES - failures + 4,
        ClipboardView::Empty => 4,
        ClipboardView::Alloc => 3,
        ClipboardView::Lock => 2,
        ClipboardView::Store => 1,
        ClipboardView::Done(_) => 0,
    }
}

proof fn lemma_calls_left(oks: Seq<bool>)
    ensures
        clipboard_run(oks).0 is Done || 0 < calls_left(clipboard_run(oks).0) <= OPEN_TRIES + 4
            - oks.len(),
    decreases oks.len(),
{
    if oks.len() > 0 {
        lemma_calls_left(oks.drop_last());
        lemma_clipboard_run(oks.drop_last());
    }
}

/// Setting the clipboard ends after all tries to open it and four more calls at
/// the latest.
pub proof fn law_setting_ends(oks: Seq<bool>)
    requires
        oks.len() >= OPEN_TRIES + 4,
    ensures
        clipboard_run(oks).0 is Done,
{
    lemma_calls_left(oks);
}

/// The clipboard gives back the text that was put into it, whatever the memory
/// holds behind it: any text without a NUL character.
pub proof fn law_clipboard_round_trip(text: Seq<char>, tail: Seq<u16>)
    requires
        no_nul(text),
    ensures
        decode(until_nul(clipboard_memory(text) + tail)) == text,
{
    law_wide_round_trip(text, tail);
}

/// Opening the clipboard is tried ten times, a tenth of a second apart; then it
/// has failed.
pub proof fn law_ten_tries(failures: u32)
    ensures
        clipboard_next(ClipboardView::Open(failures), true) == (
            ClipboardView::Empty,
            Seq::<StepView>::empty(),
        ),
        failures < 9 ==> clipboard_next(ClipboardView::Open(failures), false) == (
            ClipboardView::Open((failures + 1) as u32),
            seq![Action::<Seq<char>, Seq<u16>>::Sleep(100)],
        ),
        failures >= 9 ==> clipboard_next(ClipboardView::Open(failures), false) == (
            ClipboardView::Done(Err("OpenClipboard failed"@)),
            seq![Action::<Seq<char>, Seq<u16>>::Sleep(100)],
        ),
{
}

/// Once open, the clipboard is emptied, room is made, locked and handed over, each
/// call after the one before has succeeded; nothing else is done until the
/// clipboard is closed.
pub proof fn law_calls_in_order()
    ensures
        clipboard_next(ClipboardView::Empty, true) == (
            ClipboardView::Alloc,
            Seq::<StepView>::empty(),
        ),
        clipboard_next(ClipboardView::Alloc, true) == (
            ClipboardView::Lock,
            Seq::<StepView>::empty(),
        ),
        clipboard_next(ClipboardView::Lock, true) == (
            ClipboardView::Store,
            Seq::<StepView>::empty(),
        ),
        clipboard_next(ClipboardView::Store, true) == (
            ClipboardView::Done(Ok(())),
            seq![Action::<Seq<char>, Seq<u16>>::CloseClipboard],
        ),
{
}

/// A call that fails while the clipboard is open ends in an error with the name
/// of that call, and the clipboard is closed.
pub proof fn law_failed_call_is_named(state: ClipboardView)
    requires
        !(state is Open),
        !(state is Done),
    ensures
        ({
            let next = clipboard_next(state, false);
            let name = match state {
                ClipboardView::Empty => "EmptyClipboard"@,
                ClipboardView::Alloc => "GlobalAlloc"@,
                ClipboardView::Lock => "GlobalLock"@,
                _ => "SetClipboardData"@,
            };
            &&& next.0 == ClipboardView::Done(Err(name + " failed"@))
            &&& next.1 == seq![Action::<Seq<char>, Seq<u16>>::CloseClipboard]
        }),
{
}

/// The text is set exactly if four calls in a row succeed once the clipboard is
/// open.
pub proof fn law_set_means_stored(tries: Seq<bool>, rest: Seq<bool>)
    requires
        tries.len() < 10,
        forall|i: int| 0 <= i < tries.len() ==> !#[trigger] tries[i],
        rest.len() == 4,
    ensures
        clipboard_run(tries.push(true) + rest).0 == ClipboardView::Done(Ok(())) <==> rest[0]
            && rest[1] && rest[2] && rest[3],
{
    lemma_tries(tries);
    let opened = tries.push(true);
    assert(opened.drop_last() == tries);
    let a = opened.push(rest[0]);
    let b = a.push(rest[1]);
    let c = b.push(rest[2]);
    let d = c.push(rest[3]);
    assert(a.drop_last() == opened);
    assert(b.drop_last() == a);
    assert(c.drop_last() == b);
    assert(d.drop_last() == c);
    assert(d == opened + rest);
    assert(clipboard_run(opened).0 is Empty);
    assert(clipboard_run(a).0 is Alloc <==> rest[0]);
    assert(clipboard_run(b).0 is Lock <==> rest[0] && rest[1]);
    assert(clipboard_run(c).0 is Store <==> rest[0] && rest[1] && rest[2]);
}

proof fn lemma_tries(tries: Seq<bool>)
    requires
        tries.len() < 10,
        forall|i: int| 0 <= i < tries.len() ==> !#[trigger] tries[i],
    ensures
        clipboard_run(tries).0 == ClipboardView::Open(tries.len() as u32),
    decreases tries.len(),
{
    if tries.len() > 0 {
        let head = tries.drop_last();
        assert(tries.last() == tries[tries.len() - 1]);
        assert forall|i: int| 0 <= i < head.len() implies !#[trigger] head[i] by {
            assert(head[i] == tries[i]);
        }
        lemma_tries(head);
    }
}

/// Once setting the clipboard is over nothing more is done.
pub proof fn law_setting_stays_over(outcome: Result<(), Seq<char>>, ok: bool)
    ensures
        clipboard_next(ClipboardView::Done(outcome), ok) == (
            ClipboardView::Done(outcome),
            Seq::<StepView>::empty(),
        ),
{
}

} // verus!
