//! Waiting for the window of the newly started Zed.
use vstd::prelude::*;

use crate::action::{effects, errors, no_steps, push_step, steps_view, Action, Step, StepView};
use crate::process::ProcessInfo;
use crate::text::{ascii_case, contains, decimal, owned, push_decimal, some_text, unicode_case};
use crate::window::{
    all_ascii, choose_window, chosen, is_of_new_session, law_choice_is_strict, law_no_survivors,
    new_windows, windows_since, DesktopWindow, Window, WindowView,
};

verus! {

/// What to wait for.
#[derive(Debug, PartialEq, Eq)]
pub struct WaitJob {
    /// The text that the window's title has to hold, if any.
    pub filter: Option<String>,
    /// Seconds to wait at most.
    pub timeout_secs: u64,
    /// The executable that was started.
    pub exe: String,
    /// The time just before the start, in ticks of 100 ns.
    pub not_before: u64,
}

/// What to wait for, as contracts speak of it.
pub ghost struct WaitJobView {
    pub filter: Option<Seq<char>>,
    pub timeout_secs: u64,
    pub exe: Seq<char>,
    pub not_before: u64,
}

impl View for WaitJob {
    type V = WaitJobView;

    open spec fn view(&self) -> WaitJobView {
        WaitJobView {
            filter: some_text(self.filter),
            timeout_secs: self.timeout_secs,
            exe: self.exe@,
            not_before: self.not_before,
        }
    }
}

/// A look at the system.
#[derive(Debug, PartialEq, Eq)]
pub struct WindowPoll {
    /// Nanoseconds since the wait began.
    pub elapsed: u128,
    pub procs: Vec<ProcessInfo>,
    pub desktop: Vec<DesktopWindow>,
}

/// What a look at the system leads to.
#[derive(Debug, PartialEq, Eq)]
pub enum Wait {
    /// The window is there.
    Found(Window),
    /// Look again.
    Again,
    /// It did not appear in time.
    TimedOut,
}

/// What a look at the system leads to, as contracts speak of it.
pub ghost enum WaitView {
    Found(WindowView),
    Again,
    TimedOut,
}

impl View for Wait {
    type V = WaitView;

    open spec fn view(&self) -> WaitView {
        match self {
            Wait::Found(w) => WaitView::Found(w@),
            Wait::Again => WaitView::Again,
            Wait::TimedOut => WaitView::TimedOut,
        }
    }
}

/// What is logged before the first look.
pub open spec fn wait_note(filter: Option<Seq<char>>) -> Seq<StepView> {
    match filter {
        Some(filter) => seq![
            Action::Info("waiting for window title containing '"@ + filter + "'"@),
        ],
        None => Seq::empty(),
    }
}

/// What is logged before the first look.
pub fn announce_wait(job: &WaitJob) -> (steps: Vec<Step>)
    ensures
        steps_view(steps@) == wait_note(job@.filter),
{
    let mut steps = no_steps();
    if let Some(filter) = &job.filter {
        let mut entry = owned("waiting for window title containing '");
        entry.append(filter.as_str());
        entry.append("'");
        push_step(&mut steps, Action::Info(entry));
    }
    steps
}

/// The error that no window appeared.
pub open spec fn timeout_entry(filter: Option<Seq<char>>, timeout_secs: u64) -> Seq<char> {
    match filter {
        Some(filter) => "no Zed window matching '"@ + filter + "' within "@ + decimal(
            timeout_secs as nat,
        )
            + "s — not injecting (strict: caller's session only; retry with --window-title to override)"@,
        None => "no Zed window within "@ + decimal(timeout_secs as nat) + "s"@,
    }
}

/// What follows on a look: the first window of a process that runs the
/// executable and was created since the start, and whose title holds the
/// filter.
pub open spec fn wait_next(
    job: WaitJobView,
    poll: WindowPoll,
    case: spec_fn(Seq<char>) -> Seq<char>,
) -> (WaitView, Seq<StepView>) {
    let windows = new_windows(poll.procs@, poll.desktop@, job.exe, job.not_before);
    if poll.elapsed >= job.timeout_secs * 1_000_000_000 {
        (
            WaitView::TimedOut,
            seq![Action::Error(timeout_entry(job.filter, job.timeout_secs))],
        )
    } else {
        match chosen(windows, job.filter, case) {
            Some(w) => (WaitView::Found(w), Seq::empty()),
            None => (WaitView::Again, seq![Action::Sleep(500)]),
        }
    }
}

/// Waits for a window of the newly started Zed: one look.
///
/// Only windows of processes that run the executable and were created since the
/// start qualify: a surviving process can hold a window with the same title,
/// and the injection must never land there. With several projects open, session
/// restore may bring another window to the front; without a window whose title
/// holds the filter there is none.
pub fn wait_for_window(job: &WaitJob, poll: &WindowPoll) -> (r: (Wait, Vec<Step>))
    ensures
        (r.0@, steps_view(r.1@)) == wait_next(job@, *poll, unicode_case()),
        all_ascii(
            new_windows(poll.procs@, poll.desktop@, job.exe@, job.not_before),
            some_text(job.filter),
        ) ==> (r.0@, steps_view(r.1@)) == wait_next(job@, *poll, ascii_case()),
{
    let mut steps = no_steps();
    if poll.elapsed >= job.timeout_secs as u128 * 1_000_000_000 {
        let mut entry: String;
        match &job.filter {
            Some(filter) => {
                entry = owned("no Zed window matching '");
                entry.append(filter.as_str());
                entry.append("' within ");
                push_decimal(&mut entry, job.timeout_secs as u128);
                entry.append(
                    "s — not injecting (strict: caller's session only; retry with --window-title to override)",
                );
            },
            None => {
                entry = owned("no Zed window within ");
                push_decimal(&mut entry, job.timeout_secs as u128);
                entry.append("s");
            },
        }
        push_step(&mut steps, Action::Error(entry));
        return (Wait::TimedOut, steps);
    }
    let windows = windows_since(&poll.procs, &poll.desktop, job.exe.as_str(), job.not_before);
    match choose_window(&windows, &job.filter) {
        Some(w) => (Wait::Found(w), steps),
        None => {
            push_step(&mut steps, Action::Sleep(500));
            (Wait::Again, steps)
        },
    }
}

// ---------------------------------------------------------------------------
// laws
// ---------------------------------------------------------------------------

/// Recovery is strict: the window that a wait finds belongs to the new session,
/// and its title holds the filter, if there is one. It is found in time.
pub proof fn law_found_window_is_the_callers(
    job: WaitJobView,
    poll: WindowPoll,
    case: spec_fn(Seq<char>) -> Seq<char>,
)
    ensures
        wait_next(job, poll, case).0 matches WaitView::Found(w) ==> {
            &&& is_of_new_session(poll.procs@, poll.desktop@, job.exe, job.not_before, w)
            &&& job.filter matches Some(filter) ==> contains(case(w.title), case(filter))
            &&& poll.elapsed < job.timeout_secs * 1_000_000_000
        },
{
    let windows = new_windows(poll.procs@, poll.desktop@, job.exe, job.not_before);
    law_choice_is_strict(windows, job.filter, case);
    if let WaitView::Found(w) = wait_next(job, poll, case).0 {
        law_no_survivors(poll.procs@, poll.desktop@, job.exe, job.not_before, w);
    }
}

/// A wait looks again only while no window of the new session has a title that
/// holds the filter.
pub proof fn law_wait_misses_nothing(
    job: WaitJobView,
    poll: WindowPoll,
    case: spec_fn(Seq<char>) -> Seq<char>,
    i: int,
)
    requires
        wait_next(job, poll, case).0 is Again,
        0 <= i < new_windows(poll.procs@, poll.desktop@, job.exe, job.not_before).len(),
    ensures
        job.filter matches Some(filter) && !contains(
            case(new_windows(poll.procs@, poll.desktop@, job.exe, job.not_before)[i].title),
            case(filter),
        ),
{
    law_choice_is_strict(
        new_windows(poll.procs@, poll.desktop@, job.exe, job.not_before),
        job.filter,
        case,
    );
}

/// A wait is over when its time is, with an error and nothing else done; before
/// that it takes the window that is chosen, or looks again half a second later.
pub proof fn law_wait_ends_in_time(
    job: WaitJobView,
    poll: WindowPoll,
    case: spec_fn(Seq<char>) -> Seq<char>,
)
    ensures
        ({
            let next = wait_next(job, poll, case);
            let windows = new_windows(poll.procs@, poll.desktop@, job.exe, job.not_before);
            if poll.elapsed >= job.timeout_secs * 1_000_000_000 {
                &&& next.0 is TimedOut
                &&& effects(next.1) == Seq::<StepView>::empty()
                &&& errors(next.1) == seq![timeout_entry(job.filter, job.timeout_secs)]
            } else {
                match next.0 {
                    WaitView::Found(w) => next.1 == Seq::<StepView>::empty() && exists|i: int|
                        0 <= i < windows.len() && #[trigger] windows[i] == w,
                    WaitView::Again => next.1 == seq![Action::<Seq<char>, Seq<u16>>::Sleep(500)],
                    WaitView::TimedOut => false,
                }
            }
        }),
{
    reveal_with_fuel(effects, 2);
    reveal_with_fuel(errors, 2);
    law_choice_is_strict(
        new_windows(poll.procs@, poll.desktop@, job.exe, job.not_before),
        job.filter,
        case,
    );
}

/// A window of the new session whose title holds the filter ends the wait, and
/// so does any window of the new session where there is no filter.
pub proof fn law_window_ends_the_wait(
    job: WaitJobView,
    poll: WindowPoll,
    case: spec_fn(Seq<char>) -> Seq<char>,
    i: int,
)
    requires
        poll.elapsed < job.timeout_secs * 1_000_000_000,
        0 <= i < new_windows(poll.procs@, poll.desktop@, job.exe, job.not_before).len(),
        job.filter matches Some(filter) ==> contains(
            case(new_windows(poll.procs@, poll.desktop@, job.exe, job.not_before)[i].title),
            case(filter),
        ),
    ensures
        wait_next(job, poll, case).0 is Found,
{
    law_choice_is_strict(
        new_windows(poll.procs@, poll.desktop@, job.exe, job.not_before),
        job.filter,
        case,
    );
}

/// The error of a wait in vain names the filter and the time.
pub proof fn law_error_names_the_filter(filter: Seq<char>, timeout_secs: u64)
    ensures
        timeout_entry(Some(filter), timeout_secs) == "no Zed window matching '"@ + filter
            + "' within "@ + decimal(timeout_secs as nat)
            + "s — not injecting (strict: caller's session only; retry with --window-title to override)"@,
        timeout_entry(None, timeout_secs) == "no Zed window within "@ + decimal(
            timeout_secs as nat,
        ) + "s"@,
{
}

/// A wait announces the text that it looks for, and does nothing else.
pub proof fn law_wait_is_announced(filter: Option<Seq<char>>)
    ensures
        effects(wait_note(filter)) == Seq::<StepView>::empty(),
        filter matches Some(text) ==> wait_note(filter) == seq![
            Action::<Seq<char>, Seq<u16>>::Info(
                "waiting for window title containing '"@ + text + "'"@,
            ),
        ],
        filter is None ==> wait_note(filter) == Seq::<StepView>::empty(),
{
    reveal_with_fuel(effects, 2);
}

/// What a wait works on is what its job holds, and its end is what it found.
pub proof fn law_job_of_a_wait(job: WaitJob, state: Wait)
    ensures
        job.filter matches Some(filter) ==> job@.filter == Some(filter@),
        job.filter is None ==> job@.filter is None,
        job@.timeout_secs == job.timeout_secs,
        job@.exe == job.exe@,
        job@.not_before == job.not_before,
        state matches Wait::Found(w) ==> state@ == WaitView::Found(w@),
        state is Again <==> state@ is Again,
        state is TimedOut <==> state@ is TimedOut,
{
}

} // verus!
