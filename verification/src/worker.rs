//! The worker: the detached process that outlives the old session.
//!
//! It stops the target, starts Zed again and injects the message.
use vstd::prelude::*;
use vstd::utf8::is_ascii_chars;

use crate::action::{
    effects, entries, errors, lemma_effects_add, lemma_effects_push, lemma_entries_push,
    lemma_errors_add, lemma_errors_push, no_steps, push_step, push_steps, steps_view, Action, Step,
    StepView,
};
use crate::args::{
    keys_of, message_of, send_key_of, value_or, worker_editor_mode, worker_keys, worker_mode,
    worker_paste, worker_paste_binding, worker_toggle, worker_toggle_binding, Args,
};
use crate::config::mode_name;
use crate::inject::{
    inject, inject_next, is_in_front, is_live, lemma_end_presses_nothing, lemma_inject_steps,
    lemma_went_through, release_steps, restore_steps, send_key_name, send_key_text, type_steps,
    went_through, window_found, Inject, InjectEvent, InjectJob, InjectJobView, InjectView,
};
use crate::start::{
    lemma_start_steps, start, start_next, Start, StartEvent, StartJob, StartJobView, StartView,
};
use crate::stop::{
    bool_text, lemma_step_warranted, out_of_time, shows_window, stop, stop_next, Stop, StopEvent,
};
use crate::text::{
    ascii_case, chars_of, contains, decimal, owned, push_decimal, some_text, unicode_case,
};
use crate::wait::{
    announce_wait, law_found_window_is_the_callers, law_wait_is_announced, wait_for_window,
    wait_next, wait_note, Wait, WaitJob, WaitJobView, WaitView, WindowPoll,
};
use crate::window::{all_ascii, filter_of, is_of_new_session, new_windows, title_filter, WindowView};

verus! {

// ---------------------------------------------------------------------------
// the message
// ---------------------------------------------------------------------------

/// The message as it was read, or the exit code, and what to do about its file.
/// `contents` is the outcome of reading the message file, where the command line
/// names one.
///
/// The file wins over the words of the command line, and is removed once it was
/// read. If it cannot be read there is no message.
pub open spec fn message_taken(args: Args, contents: Option<Result<String, String>>) -> (
    Result<Seq<char>, i32>,
    Seq<StepView>,
) {
    match (some_text(args.message_file), contents) {
        (Some(file), Some(Ok(text))) => (Ok(text@), seq![Action::RemoveFile(file)]),
        (Some(file), Some(Err(e))) => (
            Err(2),
            seq![Action::Error("reading message file '"@ + file + "': "@ + e@)],
        ),
        (Some(file), None) => (Err(2), Seq::empty()),
        (None, _) => (Ok(message_of(args)), Seq::empty()),
    }
}

/// What a message or an exit code says.
pub open spec fn taken_text(r: Result<String, i32>) -> Result<Seq<char>, i32> {
    match r {
        Ok(message) => Ok(message@),
        Err(code) => Err(code),
    }
}

/// Takes the message from its file, else from the command line. Without a
/// message the worker ends with the exit code.
pub fn take_message(args: &Args, contents: Option<Result<String, String>>) -> (r: (
    Result<String, i32>,
    Vec<Step>,
))
    ensures
        (taken_text(r.0), steps_view(r.1@)) == message_taken(*args, contents),
{
    let mut steps = no_steps();
    match &args.message_file {
        Some(file) => match contents {
            Some(Ok(text)) => {
                push_step(&mut steps, Action::RemoveFile(file.clone()));
                (Ok(text), steps)
            },
            Some(Err(e)) => {
                let mut entry = owned("reading message file '");
                entry.append(file.as_str());
                entry.append("': ");
                entry.append(e.as_str());
                push_step(&mut steps, Action::Error(entry));
                (Err(2), steps)
            },
            None => (Err(2), steps),
        },
        None => (Ok(args.message()), steps),
    }
}

// ---------------------------------------------------------------------------
// states and events
// ---------------------------------------------------------------------------

/// What a worker works on.
#[derive(Debug, PartialEq, Eq)]
pub struct WorkerJob {
    pub args: Args,
    pub message: String,
    /// The directory for temporary files.
    pub temp_dir: String,
    /// The PID of this process.
    pub pid: u32,
}

/// How far a worker has come.
#[derive(Debug, PartialEq, Eq)]
pub enum Worker {
    /// Waits for the executable that was found.
    Exe,
    /// The target is being stopped.
    Stop { exe: String, stop: Stop },
    /// Waits for the time.
    Clock { exe: String, was_focused: bool },
    /// Zed is being started.
    Start { exe: String, was_focused: bool, not_before: u64, start: Start },
    /// Waits for a look at the system, which may show the new window.
    Wait { exe: String, was_focused: bool, not_before: u64, lnk: Option<String> },
    /// The message is being injected.
    Inject { was_focused: bool, lnk: Option<String>, inject: Inject },
    /// Over, with the exit code.
    Done(i32),
}

/// What a worker learns.
#[derive(Debug, PartialEq, Eq)]
pub enum WorkerEvent {
    /// The executable to start, if one was found.
    Exe(Option<String>),
    /// What the stop learns.
    Stop(StopEvent),
    /// The time, in ticks of 100 ns.
    Time(u64),
    /// What the start learns.
    Start(StartEvent),
    /// A look at the system.
    Poll(WindowPoll),
    /// What the injection learns.
    Inject(InjectEvent),
}

/// How far a worker has come, as contracts speak of it.
pub ghost enum WorkerView {
    Exe,
    Stop { exe: Seq<char>, stop: Stop },
    Clock { exe: Seq<char>, was_focused: bool },
    Start { exe: Seq<char>, was_focused: bool, not_before: u64, start: StartView },
    Wait { exe: Seq<char>, was_focused: bool, not_before: u64, lnk: Option<Seq<char>> },
    Inject { was_focused: bool, lnk: Option<Seq<char>>, inject: InjectView },
    Done(i32),
}

impl View for Worker {
    type V = WorkerView;

    open spec fn view(&self) -> WorkerView {
        match self {
            Worker::Exe => WorkerView::Exe,
            Worker::Stop { exe, stop } => WorkerView::Stop { exe: exe@, stop: *stop },
            Worker::Clock { exe, was_focused } => WorkerView::Clock {
                exe: exe@,
                was_focused: *was_focused,
            },
            Worker::Start { exe, was_focused, not_before, start } => WorkerView::Start {
                exe: exe@,
                was_focused: *was_focused,
                not_before: *not_before,
                start: start@,
            },
            Worker::Wait { exe, was_focused, not_before, lnk } => WorkerView::Wait {
                exe: exe@,
                was_focused: *was_focused,
                not_before: *not_before,
                lnk: some_text(*lnk),
            },
            Worker::Inject { was_focused, lnk, inject } => WorkerView::Inject {
                was_focused: *was_focused,
                lnk: some_text(*lnk),
                inject: inject@,
            },
            Worker::Done(code) => WorkerView::Done(*code),
        }
    }
}

/// The state goes by the time since it was entered: the target's time to exit,
/// or the time to wait for the window.
pub open spec fn goes_by_time(state: WorkerView) -> bool {
    match state {
        WorkerView::Stop { exe, stop } => stop is Waiting || stop is Checking,
        WorkerView::Wait { exe, was_focused, not_before, lnk } => true,
        _ => false,
    }
}

impl Worker {
    /// Whether the state goes by the time since it was entered from one that
    /// does not.
    pub fn is_timed(&self) -> (b: bool)
        ensures
            b == goes_by_time(self@),
    {
        match self {
            Worker::Stop { exe: _, stop } => match stop {
                Stop::Waiting { pid: _, was_focused: _ } => true,
                Stop::Checking { pid: _, was_focused: _ } => true,
                _ => false,
            },
            Worker::Wait { exe: _, was_focused: _, not_before: _, lnk: _ } => true,
            _ => false,
        }
    }
}

// ---------------------------------------------------------------------------
// the jobs of the parts
// ---------------------------------------------------------------------------

/// The start that a worker makes.
pub open spec fn start_job(job: WorkerJob, exe: Seq<char>) -> StartJobView {
    StartJobView {
        exe,
        project: some_text(job.args.project),
        temp_dir: job.temp_dir@,
        pid: job.pid,
    }
}

/// The wait of a worker for the window of the calling project.
pub open spec fn wait_job(job: WorkerJob, exe: Seq<char>, not_before: u64) -> WaitJobView {
    WaitJobView {
        filter: filter_of(some_text(job.args.project), some_text(job.args.window_title)),
        timeout_secs: job.args.window_timeout,
        exe,
        not_before,
    }
}

/// The injection that a worker makes.
pub open spec fn inject_job(
    job: WorkerJob,
    was_focused: bool,
    case: spec_fn(Seq<char>) -> Seq<char>,
) -> InjectJobView {
    InjectJobView {
        message: job.message@,
        settle_secs: job.args.settle,
        heads_up_secs: job.args.heads_up,
        old_was_focused: was_focused,
        keys: keys_of(job.args, case),
    }
}

// ---------------------------------------------------------------------------
// transitions
// ---------------------------------------------------------------------------

/// The entry that a worker begins.
pub open spec fn begin_entry(job: WorkerJob) -> Seq<char> {
    "=== start: msgLen="@ + decimal(job.message@.len()) + " wait="@ + decimal(
        job.args.wait as nat,
    ) + "s settle="@ + decimal(job.args.settle as nat) + "s grace="@ + decimal(
        job.args.grace as nat,
    ) + "s heads-up="@ + decimal(job.args.heads_up as nat) + "s ==="@
}

/// The entry on the keys of a worker.
pub open spec fn keys_entry(args: Args) -> Seq<char> {
    "mode="@ + mode_name(worker_mode(args)) + " toggle="@ + worker_toggle(args) + " paste="@
        + worker_paste(args) + " send="@ + send_key_name(value_or(send_key_of(args), false))
}

/// The end of a worker: the shortcut is no longer needed, and the exit code
/// says whether the message was sent.
pub open spec fn finish(lnk: Option<Seq<char>>, ok: bool) -> (WorkerView, Seq<StepView>) {
    let entry = Action::Info("=== done: ok="@ + bool_text(ok) + " ==="@);
    (
        WorkerView::Done(
            if ok {
                0
            } else {
                3
            },
        ),
        match lnk {
            Some(lnk) => seq![Action::RemoveFile(lnk), entry],
            None => seq![entry],
        },
    )
}

/// Actions in front of those of a transition.
pub open spec fn after(steps: Seq<StepView>, next: (WorkerView, Seq<StepView>)) -> (
    WorkerView,
    Seq<StepView>,
) {
    (next.0, steps + next.1)
}

/// Where an injection leads.
pub open spec fn injected(
    was_focused: bool,
    lnk: Option<Seq<char>>,
    next: (InjectView, Seq<StepView>),
) -> (WorkerView, Seq<StepView>) {
    match next.0 {
        InjectView::Done(ok) => after(next.1, finish(lnk, ok)),
        inject => (WorkerView::Inject { was_focused, lnk, inject }, next.1),
    }
}

/// What follows on an event; one that the state does not wait for changes
/// nothing.
///
/// * Without an executable to start, nothing is stopped.
/// * The target is stopped, and the time is taken before Zed is started again:
///   what was created earlier is no part of the new session.
/// * The message goes to the window that the wait found, or nowhere.
pub open spec fn worker_next(
    job: WorkerJob,
    state: WorkerView,
    event: WorkerEvent,
    case: spec_fn(Seq<char>) -> Seq<char>,
) -> (WorkerView, Seq<StepView>) {
    let begin: Seq<StepView> = seq![
        Action::Info(begin_entry(job)),
        Action::Info(keys_entry(job.args)),
    ];
    match (state, event) {
        (WorkerView::Exe, WorkerEvent::Exe(Some(exe))) => (
            WorkerView::Stop { exe: exe@, stop: Stop::Begin },
            begin.push(Action::Pause(job.args.wait)),
        ),
        (WorkerView::Exe, WorkerEvent::Exe(None)) => (
            WorkerView::Done(2),
            begin.push(Action::Error("Zed.exe not found"@)),
        ),
        (WorkerView::Stop { exe, stop }, WorkerEvent::Stop(event)) => {
            let next = stop_next(job.args.grace, job.args.zed_pid, stop, event);
            match next.0 {
                Stop::Done(was_focused) => (WorkerView::Clock { exe, was_focused }, next.1),
                stop => (WorkerView::Stop { exe, stop }, next.1),
            }
        },
        (WorkerView::Clock { exe, was_focused }, WorkerEvent::Time(not_before)) => (
            WorkerView::Start { exe, was_focused, not_before, start: StartView::Begin },
            Seq::empty(),
        ),
        (
            WorkerView::Start { exe, was_focused, not_before, start },
            WorkerEvent::Start(event),
        ) => {
            let next = start_next(start_job(job, exe), start, event);
            match next.0 {
                StartView::Done(Ok(lnk)) => (
                    WorkerView::Wait { exe, was_focused, not_before, lnk },
                    next.1 + wait_note(wait_job(job, exe, not_before).filter),
                ),
                StartView::Done(Err(e)) => after(
                    next.1.push(Action::Error(e)),
                    finish(None, false),
                ),
                start => (WorkerView::Start { exe, was_focused, not_before, start }, next.1),
            }
        },
        (WorkerView::Wait { exe, was_focused, not_before, lnk }, WorkerEvent::Poll(poll)) => {
            let next = wait_next(wait_job(job, exe, not_before), poll, case);
            match next.0 {
                WaitView::Found(w) => after(
                    next.1,
                    injected(
                        was_focused,
                        lnk,
                        window_found(inject_job(job, was_focused, case), w),
                    ),
                ),
                WaitView::Again => (state, next.1),
                WaitView::TimedOut => after(next.1, finish(lnk, false)),
            }
        },
        (WorkerView::Inject { was_focused, lnk, inject }, WorkerEvent::Inject(event)) => injected(
            was_focused,
            lnk,
            inject_next(inject_job(job, was_focused, case), inject, event),
        ),
        _ => (state, Seq::empty()),
    }
}

fn push_begin(steps: &mut Vec<Step>, job: &WorkerJob)
    ensures
        steps_view(final(steps)@) == steps_view(old(steps)@).push(
            Action::Info(begin_entry(*job)),
        ).push(Action::Info(keys_entry(job.args))),
{
    let mut entry = owned("=== start: msgLen=");
    let chars = chars_of(job.message.as_str());
    push_decimal(&mut entry, chars.len() as u128);
    entry.append(" wait=");
    push_decimal(&mut entry, job.args.wait as u128);
    entry.append("s settle=");
    push_decimal(&mut entry, job.args.settle as u128);
    entry.append("s grace=");
    push_decimal(&mut entry, job.args.grace as u128);
    entry.append("s heads-up=");
    push_decimal(&mut entry, job.args.heads_up as u128);
    entry.append("s ===");
    push_step(steps, Action::Info(entry));
    let mode = worker_editor_mode(&job.args).name();
    let toggle = worker_toggle_binding(&job.args);
    let paste = worker_paste_binding(&job.args);
    let key = send_key_text(
        match job.args.send_key() {
            Some(key) => key,
            None => false,
        },
    );
    let mut entry = owned("mode=");
    entry.append(mode.as_str());
    entry.append(" toggle=");
    entry.append(toggle.as_str());
    entry.append(" paste=");
    entry.append(paste.as_str());
    entry.append(" send=");
    entry.append(key.as_str());
    push_step(steps, Action::Info(entry));
}

fn end(mut steps: Vec<Step>, lnk: Option<String>, ok: bool) -> (r: (Worker, Vec<Step>))
    ensures
        (r.0@, steps_view(r.1@)) == after(steps_view(steps@), finish(some_text(lnk), ok)),
{
    let ghost before = steps_view(steps@);
    let ghost last = finish(some_text(lnk), ok).1;
    if let Some(lnk) = lnk {
        push_step(&mut steps, Action::RemoveFile(lnk));
    }
    let mut entry = owned("=== done: ok=");
    if ok {
        entry.append("true");
    } else {
        entry.append("false");
    }
    entry.append(" ===");
    push_step(&mut steps, Action::Info(entry));
    assert(steps_view(steps@) == before + last);
    if ok {
        (Worker::Done(0), steps)
    } else {
        (Worker::Done(3), steps)
    }
}

fn make_inject_job(job: &WorkerJob, was_focused: bool) -> (r: InjectJob)
    ensures
        r@ == inject_job(*job, was_focused, unicode_case()),
        is_ascii_chars(worker_toggle(job.args)) && is_ascii_chars(worker_paste(job.args)) ==> r@
            == inject_job(*job, was_focused, ascii_case()),
{
    InjectJob {
        message: job.message.clone(),
        settle_secs: job.args.settle,
        heads_up_secs: job.args.heads_up,
        old_was_focused: was_focused,
        keys: worker_keys(&job.args),
    }
}

fn make_start_job(job: &WorkerJob, exe: &String) -> (r: StartJob)
    ensures
        r@ == start_job(*job, exe@),
{
    let project: Option<String> = match &job.args.project {
        Some(project) => Some(project.clone()),
        None => None,
    };
    StartJob { exe: exe.clone(), project, temp_dir: job.temp_dir.clone(), pid: job.pid }
}

fn make_wait_job(job: &WorkerJob, exe: &String, not_before: u64) -> (r: WaitJob)
    ensures
        r@ == wait_job(*job, exe@, not_before),
{
    WaitJob {
        filter: title_filter(&job.args.project, &job.args.window_title),
        timeout_secs: job.args.window_timeout,
        exe: exe.clone(),
        not_before,
    }
}

fn follow(
    was_focused: bool,
    lnk: Option<String>,
    next: Inject,
    steps: Vec<Step>,
) -> (r: (Worker, Vec<Step>))
    ensures
        (r.0@, steps_view(r.1@)) == injected(
            was_focused,
            some_text(lnk),
            (next@, steps_view(steps@)),
        ),
{
    match next {
        Inject::Done(ok) => end(steps, lnk, ok),
        inject => (Worker::Inject { was_focused, lnk, inject }, steps),
    }
}

/// The bindings of the command line are ASCII text, and so are the titles that
/// a look at the system is compared with.
pub open spec fn ascii_step(job: WorkerJob, state: WorkerView, event: WorkerEvent) -> bool {
    &&& is_ascii_chars(worker_toggle(job.args))
    &&& is_ascii_chars(worker_paste(job.args))
    &&& match (state, event) {
        (WorkerView::Wait { exe, was_focused, not_before, lnk }, WorkerEvent::Poll(poll)) => {
            all_ascii(
                new_windows(poll.procs@, poll.desktop@, exe, not_before),
                wait_job(job, exe, not_before).filter,
            )
        },
        _ => true,
    }
}

/// Restarts Zed and injects the message: one step. It starts with
/// `Worker::Exe`.
pub fn run_worker(job: &WorkerJob, state: Worker, event: WorkerEvent) -> (r: (Worker, Vec<Step>))
    ensures
        (r.0@, steps_view(r.1@)) == worker_next(*job, state@, event, unicode_case()),
        ascii_step(*job, state@, event) ==> (r.0@, steps_view(r.1@)) == worker_next(
            *job,
            state@,
            event,
            ascii_case(),
        ),
{
    let mut steps = no_steps();
    match (state, event) {
        (Worker::Exe, WorkerEvent::Exe(found)) => {
            push_begin(&mut steps, job);
            match found {
                Some(exe) => {
                    push_step(&mut steps, Action::Pause(job.args.wait));
                    (Worker::Stop { exe, stop: Stop::Begin }, steps)
                },
                None => {
                    push_step(&mut steps, Action::Error(owned("Zed.exe not found")));
                    (Worker::Done(2), steps)
                },
            }
        },
        (Worker::Stop { exe, stop: at }, WorkerEvent::Stop(event)) => {
            let (next, steps) = stop(job.args.grace, job.args.zed_pid, at, &event);
            match next {
                Stop::Done(was_focused) => (Worker::Clock { exe, was_focused }, steps),
                stop => (Worker::Stop { exe, stop }, steps),
            }
        },
        (Worker::Clock { exe, was_focused }, WorkerEvent::Time(not_before)) => (
            Worker::Start { exe, was_focused, not_before, start: Start::Begin },
            steps,
        ),
        (
            Worker::Start { exe, was_focused, not_before, start: at },
            WorkerEvent::Start(event),
        ) => {
            let start_job = make_start_job(job, &exe);
            let (next, mut steps) = start(&start_job, at, event);
            match next {
                Start::Done(Ok(lnk)) => {
                    let wait_job = make_wait_job(job, &exe, not_before);
                    push_steps(&mut steps, announce_wait(&wait_job));
                    (Worker::Wait { exe, was_focused, not_before, lnk }, steps)
                },
                Start::Done(Err(e)) => {
                    push_step(&mut steps, Action::Error(e));
                    end(steps, None, false)
                },
                start => (Worker::Start { exe, was_focused, not_before, start }, steps),
            }
        },
        (Worker::Wait { exe, was_focused, not_before, lnk }, WorkerEvent::Poll(poll)) => {
            let wait_job = make_wait_job(job, &exe, not_before);
            let (next, mut steps) = wait_for_window(&wait_job, &poll);
            match next {
                Wait::Found(w) => {
                    let inject_job = make_inject_job(job, was_focused);
                    let (next, more) = inject(
                        &inject_job,
                        Inject::Window,
                        InjectEvent::Window(Some(w)),
                    );
                    push_steps(&mut steps, more);
                    (Worker::Inject { was_focused, lnk, inject: next }, steps)
                },
                Wait::Again => (Worker::Wait { exe, was_focused, not_before, lnk }, steps),
                Wait::TimedOut => end(steps, lnk, false),
            }
        },
        (Worker::Inject { was_focused, lnk, inject: at }, WorkerEvent::Inject(event)) => {
            let inject_job = make_inject_job(job, was_focused);
            let (next, steps) = inject(&inject_job, at, event);
            follow(was_focused, lnk, next, steps)
        },
        (state, _) => (state, steps),
    }
}

// ---------------------------------------------------------------------------
// laws
// ---------------------------------------------------------------------------

/// The message survives the way to the worker: a worker that reads from its
/// message file what the launcher wrote there injects the launcher's message.
pub proof fn law_message_survives(launcher: Args, worker: Args, text: String)
    requires
        worker.message_file is Some,
        text@ == message_of(launcher),
    ensures
        message_taken(worker, Some(Ok(text))).0 == Ok::<Seq<char>, i32>(message_of(launcher)),
{
}

/// A worker from its beginning over all events: where it stands, and what was
/// done.
pub open spec fn worker_run(
    job: WorkerJob,
    events: Seq<WorkerEvent>,
    case: spec_fn(Seq<char>) -> Seq<char>,
) -> (WorkerView, Seq<StepView>)
    decreases events.len(),
{
    if events.len() == 0 {
        (WorkerView::Exe, Seq::empty())
    } else {
        let before = worker_run(job, events.drop_last(), case);
        let next = worker_next(job, before.0, events.last(), case);
        (next.0, before.1 + next.1)
    }
}

/// Without an executable to start, the old session is left alone.
pub proof fn law_no_executable_no_stop(
    job: WorkerJob,
    events: Seq<WorkerEvent>,
    case: spec_fn(Seq<char>) -> Seq<char>,
)
    requires
        events.len() > 0,
        events[0] == WorkerEvent::Exe(None),
    ensures
        worker_run(job, events, case).0 == WorkerView::Done(2),
        forall|i: int|
            0 <= i < worker_run(job, events, case).1.len() ==> (#[trigger] worker_run(
                job,
                events,
                case,
            ).1[i]) is Info || worker_run(job, events, case).1[i] is Error,
    decreases events.len(),
{
    let head = events.drop_last();
    if events.len() > 1 {
        assert(head[0] == events[0]);
        law_no_executable_no_stop(job, head, case);
    } else {
        assert(worker_run(job, head, case).0 == WorkerView::Exe);
        assert(worker_run(job, head, case).1.len() == 0);
    }
}

/// The window that an injection works on.
pub open spec fn inject_window(inject: InjectView) -> Option<usize> {
    match inject {
        InjectView::Minimized { hwnd } => Some(hwnd),
        InjectView::Notified { hwnd } => Some(hwnd),
        InjectView::HeadsUpFocus { hwnd, at } => Some(hwnd),
        InjectView::Focus { hwnd, at } => Some(hwnd),
        InjectView::Clipboard { hwnd } => Some(hwnd),
        InjectView::Placed { hwnd, old } => Some(hwnd),
        _ => None,
    }
}

/// Event number `k` was a look at the system that showed the window `hwnd` to a
/// worker that waited for it.
pub open spec fn found_at(
    job: WorkerJob,
    events: Seq<WorkerEvent>,
    case: spec_fn(Seq<char>) -> Seq<char>,
    k: int,
    hwnd: usize,
) -> bool {
    &&& 0 <= k < events.len()
    &&& match (worker_run(job, events.take(k), case).0, events[k]) {
        (WorkerView::Wait { exe, was_focused, not_before, lnk }, WorkerEvent::Poll(poll)) => {
            wait_next(wait_job(job, exe, not_before), poll, case).0 matches WaitView::Found(w)
                && w.hwnd == hwnd
        },
        _ => false,
    }
}

/// Event number `k` was a look that showed the window `hwnd` in front to a
/// worker that was bringing it there.
pub open spec fn focused_at(
    job: WorkerJob,
    events: Seq<WorkerEvent>,
    case: spec_fn(Seq<char>) -> Seq<char>,
    k: int,
    hwnd: usize,
) -> bool {
    &&& 0 <= k < events.len()
    &&& worker_run(job, events.take(k), case).0 matches WorkerView::Inject {
        was_focused,
        lnk,
        inject,
    } && (inject matches InjectView::Focus { hwnd: w, at } && w == hwnd)
    &&& events[k] matches WorkerEvent::Inject(event) && is_in_front(event)
}

/// The window was found, and a later look showed it in front.
pub open spec fn is_callers_window(
    job: WorkerJob,
    events: Seq<WorkerEvent>,
    case: spec_fn(Seq<char>) -> Seq<char>,
    hwnd: usize,
) -> bool {
    exists|k: int, m: int| #[trigger]
        found_at(job, events, case, k, hwnd) && #[trigger] focused_at(job, events, case, m, hwnd)
            && k < m
}

proof fn lemma_found_later(
    job: WorkerJob,
    events: Seq<WorkerEvent>,
    case: spec_fn(Seq<char>) -> Seq<char>,
    k: int,
    hwnd: usize,
)
    requires
        events.len() > 0,
        k < events.len() - 1,
    ensures
        found_at(job, events.drop_last(), case, k, hwnd) ==> found_at(job, events, case, k, hwnd),
        focused_at(job, events.drop_last(), case, k, hwnd) ==> focused_at(
            job,
            events,
            case,
            k,
            hwnd,
        ),
{
    if 0 <= k {
        assert(events.drop_last().take(k) == events.take(k));
    }
}

/// A look at the system showed the window.
pub open spec fn was_found(
    job: WorkerJob,
    events: Seq<WorkerEvent>,
    case: spec_fn(Seq<char>) -> Seq<char>,
    hwnd: usize,
) -> bool {
    exists|k: int| #[trigger] found_at(job, events, case, k, hwnd)
}

/// What is known of a worker that stands where `run` says.
spec fn known(
    job: WorkerJob,
    events: Seq<WorkerEvent>,
    case: spec_fn(Seq<char>) -> Seq<char>,
    run: (WorkerView, Seq<StepView>),
) -> bool {
    match run.0 {
        WorkerView::Inject { was_focused, lnk, inject } => {
            &&& is_live(inject)
            &&& inject_window(inject) matches Some(hwnd) && was_found(job, events, case, hwnd)
            &&& inject matches InjectView::Clipboard { hwnd } ==> is_callers_window(
                job,
                events,
                case,
                hwnd,
            )
            &&& inject matches InjectView::Placed { hwnd, old } ==> is_callers_window(
                job,
                events,
                case,
                hwnd,
            ) && run.1.len() > 0 && run.1.last() == Action::<Seq<char>, Seq<u16>>::SetClipboard(
                job.message@,
            )
        },
        WorkerView::Done(0) => {
            &&& exists|hwnd: usize| #[trigger] is_callers_window(job, events, case, hwnd)
            &&& exists|was_focused: bool| #[trigger]
                went_through(inject_job(job, was_focused, case), run.1)
        },
        _ => true,
    }
}

/// What is known of a worker in each of its states.
spec fn worker_knows(
    job: WorkerJob,
    events: Seq<WorkerEvent>,
    case: spec_fn(Seq<char>) -> Seq<char>,
) -> bool {
    known(job, events, case, worker_run(job, events, case))
}

proof fn lemma_callers_window(
    job: WorkerJob,
    events: Seq<WorkerEvent>,
    case: spec_fn(Seq<char>) -> Seq<char>,
    hwnd: usize,
)
    requires
        events.len() > 0,
        is_callers_window(job, events.drop_last(), case, hwnd),
    ensures
        is_callers_window(job, events, case, hwnd),
{
    let head = events.drop_last();
    let (k, m) = choose|k: int, m: int| #[trigger]
        found_at(job, head, case, k, hwnd) && #[trigger] focused_at(job, head, case, m, hwnd) && k
            < m;
    lemma_found_later(job, events, case, k, hwnd);
    lemma_found_later(job, events, case, m, hwnd);
}

proof fn lemma_sent(
    job: InjectJobView,
    before: Seq<StepView>,
    last: Seq<StepView>,
    all: Seq<StepView>,
)
    requires
        before.len() > 0,
        before.last() == Action::<Seq<char>, Seq<u16>>::SetClipboard(job.message),
        forall|i: int| 0 <= i < before.len() ==> !(#[trigger] before[i] is SendCombo),
        forall|i: int| 0 <= i < last.len() ==> !(#[trigger] last[i] is SendCombo),
        all == before + (type_steps(job) + last),
    ensures
        went_through(job, all),
{
    assert(all == before + type_steps(job) + last);
    lemma_went_through(job, before, last, all);
}

proof fn lemma_inject_step(
    job: WorkerJob,
    events: Seq<WorkerEvent>,
    case: spec_fn(Seq<char>) -> Seq<char>,
    was_focused: bool,
    lnk: Option<Seq<char>>,
    inject: InjectView,
    event: InjectEvent,
)
    requires
        events.len() > 0,
        worker_run(job, events.drop_last(), case).0 == (WorkerView::Inject {
            was_focused,
            lnk,
            inject,
        }),
        events.last() == WorkerEvent::Inject(event),
    ensures
        ({
            let next = injected(
                was_focused,
                lnk,
                inject_next(inject_job(job, was_focused, case), inject, event),
            );
            worker_run(job, events, case) == after(
                worker_run(job, events.drop_last(), case).1,
                next,
            )
        }),
{
}

proof fn lemma_window_known(
    job: WorkerJob,
    events: Seq<WorkerEvent>,
    case: spec_fn(Seq<char>) -> Seq<char>,
    was_focused: bool,
    lnk: Option<Seq<char>>,
    inject: InjectView,
    event: InjectEvent,
)
    requires
        events.len() > 0,
        worker_knows(job, events.drop_last(), case),
        worker_run(job, events.drop_last(), case).0 == (WorkerView::Inject {
            was_focused,
            lnk,
            inject,
        }),
        events.last() == WorkerEvent::Inject(event),
    ensures
        inject_window(inject) matches Some(hwnd) && was_found(job, events, case, hwnd),
        inject is Clipboard || inject is Placed || (inject is Focus && is_in_front(event))
            ==> is_callers_window(
            job,
            events,
            case,
            inject_window(inject)->0,
        ),
{
    let head = events.drop_last();
    let n = events.len() - 1;
    let hwnd = inject_window(inject)->0;
    let k = choose|k: int| #[trigger] found_at(job, head, case, k, hwnd);
    assert(events.take(n) == head);
    lemma_found_later(job, events, case, k, hwnd);
    assert(found_at(job, events, case, k, hwnd));
    if inject is Clipboard || inject is Placed {
        lemma_callers_window(job, events, case, hwnd);
    }
    if inject is Focus && is_in_front(event) {
        assert(focused_at(job, events, case, n, hwnd));
    }
}

/// How an injection that has a window may go on.
spec fn may_move(
    job: InjectJobView,
    inject: InjectView,
    event: InjectEvent,
    next: (InjectView, Seq<StepView>),
) -> bool {
    &&& next.0 is Done || inject_window(next.0) == inject_window(inject)
    &&& is_live(next.0)
    &&& next.0 is Clipboard ==> inject is Clipboard || inject is Focus && is_in_front(event)
    &&& next.0 is Placed ==> (inject == next.0 && next.1 == Seq::<StepView>::empty()) || (
    inject is Clipboard && next.1 == seq![
        Action::<Seq<char>, Seq<u16>>::SetClipboard(job.message),
    ])
    &&& next.0 == InjectView::Done(true) ==> inject is Placed && next.1 == type_steps(job)
        + restore_steps(inject->Placed_old) + release_steps(job, inject->Placed_hwnd)
}

proof fn lemma_may_move(job: InjectJobView, inject: InjectView, event: InjectEvent)
    requires
        inject_window(inject) is Some,
        is_live(inject),
    ensures
        may_move(job, inject, event, inject_next(job, inject, event)),
{
}

proof fn lemma_known_next(
    job: WorkerJob,
    events: Seq<WorkerEvent>,
    case: spec_fn(Seq<char>) -> Seq<char>,
    before: (WorkerView, Seq<StepView>),
    event: InjectEvent,
    next: (InjectView, Seq<StepView>),
    was_focused: bool,
    lnk: Option<Seq<char>>,
    inject: InjectView,
)
    requires
        before.0 == (WorkerView::Inject { was_focused, lnk, inject }),
        forall|i: int| 0 <= i < before.1.len() ==> !(#[trigger] before.1[i] is SendCombo),
        inject is Placed ==> before.1.len() > 0 && before.1.last() == Action::<
            Seq<char>,
            Seq<u16>,
        >::SetClipboard(job.message@),
        may_move(inject_job(job, was_focused, case), inject, event, next),
        inject_window(inject) matches Some(hwnd) && was_found(job, events, case, hwnd),
        inject is Clipboard || inject is Placed || (inject is Focus && is_in_front(event))
            ==> is_callers_window(
            job,
            events,
            case,
            inject_window(inject)->0,
        ),
    ensures
        known(
            job,
            events,
            case,
            after(before.1, injected(was_focused, lnk, next)),
        ),
{
    let run = after(before.1, injected(was_focused, lnk, next));
    let inner = inject_job(job, was_focused, case);
    let hwnd = inject_window(inject)->0;
    match next.0 {
        InjectView::Done(ok) => {
            if ok {
                let rest = restore_steps(inject->Placed_old) + release_steps(inner, hwnd) + finish(
                    lnk,
                    true,
                ).1;
                assert(run.1 == before.1 + (type_steps(inner) + rest));
                lemma_end_presses_nothing(inner, hwnd, inject->Placed_old);
                assert forall|i: int| 0 <= i < rest.len() implies !(
                #[trigger] rest[i] is SendCombo) by {
                    let ended = restore_steps(inject->Placed_old) + release_steps(inner, hwnd);
                    if i < ended.len() {
                        assert(rest[i] == ended[i]);
                    }
                }
                lemma_sent(inner, before.1, rest, run.1);
                assert(went_through(inject_job(job, was_focused, case), run.1));
                assert(is_callers_window(job, events, case, hwnd));
            }
        },
        InjectView::Placed { hwnd, old } => {
            assert(run.1 == before.1 + next.1);
            if next.1.len() == 0 {
                assert(run.1 == before.1);
            }
        },
        _ => {},
    }
}

proof fn lemma_knows_inject(
    job: WorkerJob,
    events: Seq<WorkerEvent>,
    case: spec_fn(Seq<char>) -> Seq<char>,
    was_focused: bool,
    lnk: Option<Seq<char>>,
    inject: InjectView,
    event: InjectEvent,
)
    requires
        events.len() > 0,
        worker_knows(job, events.drop_last(), case),
        worker_run(job, events.drop_last(), case).0 == (WorkerView::Inject {
            was_focused,
            lnk,
            inject,
        }),
        events.last() == WorkerEvent::Inject(event),
    ensures
        worker_knows(job, events, case),
{
    let before = worker_run(job, events.drop_last(), case);
    let inner = inject_job(job, was_focused, case);
    let next = inject_next(inner, inject, event);
    lemma_window_known(job, events, case, was_focused, lnk, inject, event);
    lemma_inject_step(job, events, case, was_focused, lnk, inject, event);
    lemma_may_move(inner, inject, event);
    assert forall|i: int| 0 <= i < before.1.len() implies !(
    #[trigger] before.1[i] is SendCombo) by {
        if before.1[i] is SendCombo {
            lemma_typing_ends(job, events.drop_last(), case, i);
        }
    }
    lemma_known_next(job, events, case, before, event, next, was_focused, lnk, inject);
}

proof fn lemma_knows_still(
    job: WorkerJob,
    events: Seq<WorkerEvent>,
    case: spec_fn(Seq<char>) -> Seq<char>,
)
    requires
        events.len() > 0,
        worker_knows(job, events.drop_last(), case),
        worker_run(job, events, case) == worker_run(job, events.drop_last(), case),
    ensures
        worker_knows(job, events, case),
{
    let head = events.drop_last();
    match worker_run(job, head, case).0 {
        WorkerView::Inject { was_focused, lnk, inject } => {
            let hwnd = inject_window(inject)->0;
            let k = choose|k: int| #[trigger] found_at(job, head, case, k, hwnd);
            lemma_found_later(job, events, case, k, hwnd);
            assert(was_found(job, events, case, hwnd));
            if inject is Clipboard || inject is Placed {
                lemma_callers_window(job, events, case, hwnd);
            }
        },
        WorkerView::Done(0) => {
            let hwnd = choose|hwnd: usize| #[trigger] is_callers_window(job, head, case, hwnd);
            lemma_callers_window(job, events, case, hwnd);
        },
        _ => {},
    }
}

proof fn lemma_knows_found(
    job: WorkerJob,
    events: Seq<WorkerEvent>,
    case: spec_fn(Seq<char>) -> Seq<char>,
)
    requires
        events.len() > 0,
        worker_run(job, events.drop_last(), case).0 is Wait,
    ensures
        worker_knows(job, events, case),
{
    let head = events.drop_last();
    let n = events.len() - 1;
    let run = worker_run(job, events, case);
    assert(events.take(n) == head);
    assert(events.last() == events[n]);
    match (worker_run(job, head, case).0, events[n]) {
        (WorkerView::Wait { exe, was_focused, not_before, lnk }, WorkerEvent::Poll(poll)) => {
            match wait_next(wait_job(job, exe, not_before), poll, case).0 {
                WaitView::Found(w) => {
                    let inject = window_found(inject_job(job, was_focused, case), w).0;
                    assert(found_at(job, events, case, n, w.hwnd));
                    assert(was_found(job, events, case, w.hwnd));
                    assert(inject_window(inject) == Some(w.hwnd));
                    assert(run.0 == (WorkerView::Inject { was_focused, lnk, inject }));
                    assert(!(inject is Clipboard) && !(inject is Placed));
                    assert(worker_knows(job, events, case));
                },
                WaitView::Again => {
                    assert(run.0 is Wait);
                },
                WaitView::TimedOut => {
                    assert(run.0 == WorkerView::Done(3));
                },
            }
        },
        _ => {
            assert(run.0 is Wait);
        },
    }
}

proof fn lemma_worker_knows(
    job: WorkerJob,
    events: Seq<WorkerEvent>,
    case: spec_fn(Seq<char>) -> Seq<char>,
)
    ensures
        worker_knows(job, events, case),
    decreases events.len(),
{
    if events.len() > 0 {
        let head = events.drop_last();
        let before = worker_run(job, head, case);
        lemma_worker_knows(job, head, case);
        match (before.0, events.last()) {
            (
                WorkerView::Inject { was_focused, lnk, inject },
                WorkerEvent::Inject(event),
            ) => {
                lemma_knows_inject(job, events, case, was_focused, lnk, inject, event);
            },
            (WorkerView::Inject { was_focused, lnk, inject }, _) => {
                assert(before.1 + Seq::<StepView>::empty() == before.1);
                lemma_knows_still(job, events, case);
            },
            (WorkerView::Done(_), _) => {
                assert(before.1 + Seq::<StepView>::empty() == before.1);
                lemma_knows_still(job, events, case);
            },
            (WorkerView::Wait { exe, was_focused, not_before, lnk }, _) => {
                lemma_knows_found(job, events, case);
            },
            _ => {},
        }
    }
}

/// The exit code 0 means that the message was sent: it was put into the
/// clipboard, and right after that the panel was toggled, the message pasted and
/// sent, and no other key was pressed, after a look that showed the window in
/// front that the worker had waited for.
pub proof fn law_exit_zero_means_sent(
    job: WorkerJob,
    events: Seq<WorkerEvent>,
    case: spec_fn(Seq<char>) -> Seq<char>,
)
    requires
        worker_run(job, events, case).0 == WorkerView::Done(0),
    ensures
        exists|was_focused: bool| #[trigger]
            went_through(
                inject_job(job, was_focused, case),
                worker_run(job, events, case).1,
            ),
        exists|hwnd: usize| #[trigger] is_callers_window(job, events, case, hwnd),
{
    lemma_worker_knows(job, events, case);
}

/// The window of an injection is the caller's: it was found by a look that
/// showed it as a window of the new session, whose title holds the filter.
pub proof fn law_window_is_the_callers(
    job: WorkerJob,
    events: Seq<WorkerEvent>,
    case: spec_fn(Seq<char>) -> Seq<char>,
    k: int,
    hwnd: usize,
)
    requires
        found_at(job, events, case, k, hwnd),
    ensures
        match (worker_run(job, events.take(k), case).0, events[k]) {
            (WorkerView::Wait { exe, was_focused, not_before, lnk }, WorkerEvent::Poll(poll)) => {
                exists|w: WindowView|
                    w.hwnd == hwnd && #[trigger] is_of_new_session(
                        poll.procs@,
                        poll.desktop@,
                        exe,
                        not_before,
                        w,
                    ) && (filter_of(some_text(job.args.project), some_text(job.args.window_title))
                        matches Some(filter) ==> contains(case(w.title), case(filter)))
            },
            _ => false,
        },
{
    if let WorkerView::Wait { exe, was_focused, not_before, lnk } = worker_run(
        job,
        events.take(k),
        case,
    ).0 {
        if let WorkerEvent::Poll(poll) = events[k] {
            law_found_window_is_the_callers(wait_job(job, exe, not_before), poll, case);
            let w = wait_next(wait_job(job, exe, not_before), poll, case).0->Found_0;
            assert(is_of_new_session(poll.procs@, poll.desktop@, exe, not_before, w));
        }
    }
}

/// What a worker may do to windows and processes on the strength of what it has
/// learned.
pub open spec fn worker_warranted(
    step: StepView,
    job: WorkerJob,
    events: Seq<WorkerEvent>,
) -> bool {
    match step {
        Action::Close(hwnd) => job.args.zed_pid matches Some(pid) && exists|k: int|
            0 <= k < events.len() && (#[trigger] events[k] matches WorkerEvent::Stop(event)
                && shows_window(event, pid, hwnd)),
        Action::Kill(killed) => job.args.zed_pid == Some(killed) && exists|k: int|
            0 <= k < events.len() && (#[trigger] events[k] matches WorkerEvent::Stop(event)
                && out_of_time(event, job.args.grace)),
        _ => true,
    }
}

proof fn lemma_stopping(
    job: WorkerJob,
    events: Seq<WorkerEvent>,
    case: spec_fn(Seq<char>) -> Seq<char>,
)
    ensures
        worker_run(job, events, case).0 matches WorkerView::Stop { exe, stop } ==> {
            &&& stop matches Stop::Waiting { pid, was_focused } ==> job.args.zed_pid == Some(pid)
            &&& stop matches Stop::Checking { pid, was_focused } ==> job.args.zed_pid == Some(pid)
        },
    decreases events.len(),
{
    if events.len() > 0 {
        lemma_stopping(job, events.drop_last(), case);
    }
}

proof fn lemma_worker_step(
    job: WorkerJob,
    state: WorkerView,
    event: WorkerEvent,
    case: spec_fn(Seq<char>) -> Seq<char>,
    i: int,
)
    requires
        0 <= i < worker_next(job, state, event, case).1.len(),
        !(state is Stop && event is Stop),
    ensures
        worker_next(job, state, event, case).1[i] is SendCombo ==> worker_next(
            job,
            state,
            event,
            case,
        ).0 == WorkerView::Done(0),
        !(worker_next(job, state, event, case).1[i] is Close),
        !(worker_next(job, state, event, case).1[i] is Kill),
{
    match (state, event) {
        (
            WorkerView::Start { exe, was_focused, not_before, start },
            WorkerEvent::Start(event),
        ) => {
            let next = start_next(start_job(job, exe), start, event);
            if i < next.1.len() {
                lemma_start_steps(start_job(job, exe), start, event, i);
            }
        },
        (WorkerView::Inject { was_focused, lnk, inject }, WorkerEvent::Inject(event)) => {
            let inner = inject_job(job, was_focused, case);
            if i < inject_next(inner, inject, event).1.len() {
                lemma_inject_steps(inner, inject, event, i);
            }
        },
        _ => {},
    }
}

proof fn lemma_worker_stop_step(
    job: WorkerJob,
    exe: Seq<char>,
    stop: Stop,
    event: StopEvent,
    case: spec_fn(Seq<char>) -> Seq<char>,
    i: int,
)
    requires
        0 <= i < stop_next(job.args.grace, job.args.zed_pid, stop, event).1.len(),
        stop matches Stop::Waiting { pid, was_focused } ==> job.args.zed_pid == Some(pid),
        stop matches Stop::Checking { pid, was_focused } ==> job.args.zed_pid == Some(pid),
    ensures
        ({
            let step = stop_next(job.args.grace, job.args.zed_pid, stop, event).1[i];
            match step {
                Action::Close(hwnd) => job.args.zed_pid matches Some(pid) && shows_window(
                    event,
                    pid,
                    hwnd,
                ),
                Action::Kill(killed) => job.args.zed_pid == Some(killed) && out_of_time(
                    event,
                    job.args.grace,
                ),
                Action::SendCombo(_) => false,
                _ => true,
            }
        }),
{
    let events = seq![event];
    assert(events.last() == event);
    lemma_step_warranted(job.args.grace, job.args.zed_pid, stop, events, i);
    assert forall|k: int| 0 <= k < events.len() implies #[trigger] events[k] == event by {
    }
}

/// Only the target is touched: a worker closes no window but visible ones of the
/// process that its command line names, seen while that was a running Zed; it
/// kills no other process, and that one only once its time was over.
pub proof fn law_worker_stops_only_the_target(
    job: WorkerJob,
    events: Seq<WorkerEvent>,
    case: spec_fn(Seq<char>) -> Seq<char>,
    i: int,
)
    requires
        0 <= i < worker_run(job, events, case).1.len(),
    ensures
        worker_warranted(worker_run(job, events, case).1[i], job, events),
    decreases events.len(),
{
    let head = events.drop_last();
    let last = events[events.len() - 1];
    let before = worker_run(job, head, case);
    let step = worker_run(job, events, case).1[i];
    lemma_stopping(job, head, case);
    if i < before.1.len() {
        law_worker_stops_only_the_target(job, head, case, i);
        assert(step == before.1[i]);
        match step {
            Action::Close(hwnd) => {
                let k = choose|k: int|
                    0 <= k < head.len() && (#[trigger] head[k] matches WorkerEvent::Stop(event)
                        && shows_window(event, job.args.zed_pid->0, hwnd));
                assert(events[k] == head[k]);
            },
            Action::Kill(_) => {
                let k = choose|k: int|
                    0 <= k < head.len() && (#[trigger] head[k] matches WorkerEvent::Stop(event)
                        && out_of_time(event, job.args.grace));
                assert(events[k] == head[k]);
            },
            _ => {},
        }
    } else {
        let j = i - before.1.len();
        match (before.0, last) {
            (WorkerView::Stop { exe, stop }, WorkerEvent::Stop(event)) => {
                lemma_worker_stop_step(job, exe, stop, event, case, j);
                assert(last == events[events.len() - 1]);
            },
            _ => {
                lemma_worker_step(job, before.0, last, case, j);
            },
        }
    }
}

proof fn lemma_typing_ends(
    job: WorkerJob,
    events: Seq<WorkerEvent>,
    case: spec_fn(Seq<char>) -> Seq<char>,
    i: int,
)
    requires
        0 <= i < worker_run(job, events, case).1.len(),
        worker_run(job, events, case).1[i] is SendCombo,
    ensures
        worker_run(job, events, case).0 == WorkerView::Done(0),
    decreases events.len(),
{
    let head = events.drop_last();
    let last = events[events.len() - 1];
    let before = worker_run(job, head, case);
    lemma_stopping(job, head, case);
    if i < before.1.len() {
        lemma_typing_ends(job, head, case, i);
    } else {
        let j = i - before.1.len();
        match (before.0, last) {
            (WorkerView::Stop { exe, stop }, WorkerEvent::Stop(event)) => {
                lemma_worker_stop_step(job, exe, stop, event, case, j);
            },
            _ => {
                lemma_worker_step(job, before.0, last, case, j);
            },
        }
    }
}

/// Nothing is typed but into the caller's window: keys are sent only by a worker
/// that ends with the exit code 0, and whose window was found, and then shown in
/// front by a look while it was being brought there. The phantom key that helps
/// to bring it there is no input.
pub proof fn law_worker_types_only_into_the_callers_window(
    job: WorkerJob,
    events: Seq<WorkerEvent>,
    case: spec_fn(Seq<char>) -> Seq<char>,
    i: int,
)
    requires
        0 <= i < worker_run(job, events, case).1.len(),
        worker_run(job, events, case).1[i] is SendCombo,
    ensures
        worker_run(job, events, case).0 == WorkerView::Done(0),
        exists|hwnd: usize| #[trigger] is_callers_window(job, events, case, hwnd),
{
    lemma_typing_ends(job, events, case, i);
    lemma_worker_knows(job, events, case);
}

/// The shortcut that a worker holds.
pub open spec fn held_shortcut(state: WorkerView) -> Option<Seq<char>> {
    match state {
        WorkerView::Wait { exe, was_focused, not_before, lnk } => lnk,
        WorkerView::Inject { was_focused, lnk, inject } => lnk,
        _ => None,
    }
}

proof fn lemma_shortcut_step(
    job: WorkerJob,
    state: WorkerView,
    event: WorkerEvent,
    case: spec_fn(Seq<char>) -> Seq<char>,
    lnk: Seq<char>,
)
    requires
        held_shortcut(state) == Some(lnk),
    ensures
        ({
            let next = worker_next(job, state, event, case);
            held_shortcut(next.0) == Some(lnk) || (next.0 is Done && exists|i: int|
                0 <= i < next.1.len() && #[trigger] next.1[i] == Action::<
                    Seq<char>,
                    Seq<u16>,
                >::RemoveFile(lnk))
        }),
{
    let next = worker_next(job, state, event, case);
    if next.0 is Done {
        assert(next.1[next.1.len() - 2] == Action::<Seq<char>, Seq<u16>>::RemoveFile(lnk));
    }
}

proof fn lemma_shortcut_kept(
    job: WorkerJob,
    events: Seq<WorkerEvent>,
    case: spec_fn(Seq<char>) -> Seq<char>,
    k: int,
    lnk: Seq<char>,
)
    requires
        0 <= k <= events.len(),
        held_shortcut(worker_run(job, events.take(k), case).0) == Some(lnk),
    ensures
        ({
            let run = worker_run(job, events, case);
            held_shortcut(run.0) == Some(lnk) || (run.0 is Done && run.1.contains(
                Action::<Seq<char>, Seq<u16>>::RemoveFile(lnk),
            ))
        }),
    decreases events.len(),
{
    let removal = Action::<Seq<char>, Seq<u16>>::RemoveFile(lnk);
    if k == events.len() {
        assert(events.take(k) == events);
    } else {
        let head = events.drop_last();
        let before = worker_run(job, head, case);
        let run = worker_run(job, events, case);
        assert(head.take(k) == events.take(k));
        lemma_shortcut_kept(job, head, case, k, lnk);
        if held_shortcut(before.0) == Some(lnk) {
            lemma_shortcut_step(job, before.0, events.last(), case, lnk);
            let next = worker_next(job, before.0, events.last(), case);
            if next.0 is Done {
                let i = choose|i: int| 0 <= i < next.1.len() && #[trigger] next.1[i] == removal;
                assert(run.1[before.1.len() + i] == removal);
            }
        } else {
            let i = choose|i: int| 0 <= i < before.1.len() && before.1[i] == removal;
            assert(run.1[i] == removal);
        }
    }
}

/// No shortcut is left behind: one that a start made is removed by the end.
pub proof fn law_shortcut_is_removed(
    job: WorkerJob,
    events: Seq<WorkerEvent>,
    case: spec_fn(Seq<char>) -> Seq<char>,
    k: int,
    lnk: Seq<char>,
)
    requires
        0 <= k <= events.len(),
        held_shortcut(worker_run(job, events.take(k), case).0) == Some(lnk),
        worker_run(job, events, case).0 is Done,
    ensures
        worker_run(job, events, case).1.contains(
            Action::<Seq<char>, Seq<u16>>::RemoveFile(lnk),
        ),
{
    lemma_shortcut_kept(job, events, case, k, lnk);
}

/// A worker ends with 0 if the message was sent, with 2 if there is nothing to
/// start, and with 3 in every other case.
pub proof fn law_worker_exit_codes(
    job: WorkerJob,
    events: Seq<WorkerEvent>,
    case: spec_fn(Seq<char>) -> Seq<char>,
    last: WorkerEvent,
)
    requires
        !(worker_run(job, events, case).0 is Done),
    ensures
        worker_run(job, events.push(last), case).0 matches WorkerView::Done(code) ==> {
            match (worker_run(job, events, case).0, last) {
                (WorkerView::Exe, WorkerEvent::Exe(None)) => code == 2,
                (
                    WorkerView::Inject { was_focused, lnk, inject },
                    WorkerEvent::Inject(event),
                ) => code == if inject_next(
                    inject_job(job, was_focused, case),
                    inject,
                    event,
                ).0 == InjectView::Done(true) {
                    0i32
                } else {
                    3i32
                },
                _ => code == 3,
            }
        },
{
    assert(events.push(last).drop_last() == events);
}

/// Event number `k` told a worker whose stop was over the time `time`.
pub open spec fn clocked_at(
    job: WorkerJob,
    events: Seq<WorkerEvent>,
    case: spec_fn(Seq<char>) -> Seq<char>,
    k: int,
    time: u64,
) -> bool {
    &&& 0 <= k < events.len()
    &&& worker_run(job, events.take(k), case).0 is Clock
    &&& events[k] == WorkerEvent::Time(time)
}

/// The time from which a worker counts processes as new.
pub open spec fn counts_from(state: WorkerView) -> Option<u64> {
    match state {
        WorkerView::Start { exe, was_focused, not_before, start } => Some(not_before),
        WorkerView::Wait { exe, was_focused, not_before, lnk } => Some(not_before),
        _ => None,
    }
}

/// The new session is told from the old one by a time that was taken after the
/// stop was over and before Zed was started again.
pub proof fn law_time_is_taken_between_stop_and_start(
    job: WorkerJob,
    events: Seq<WorkerEvent>,
    case: spec_fn(Seq<char>) -> Seq<char>,
    time: u64,
)
    requires
        counts_from(worker_run(job, events, case).0) == Some(time),
    ensures
        exists|k: int| #[trigger] clocked_at(job, events, case, k, time),
    decreases events.len(),
{
    if events.len() > 0 {
        let head = events.drop_last();
        let n = events.len() - 1;
        let before = worker_run(job, head, case);
        assert(events.take(n) == head);
        if before.0 is Clock {
            assert(clocked_at(job, events, case, n, time));
        } else {
            law_time_is_taken_between_stop_and_start(job, head, case, time);
            let k = choose|k: int| #[trigger] clocked_at(job, head, case, k, time);
            assert(events.take(k) == head.take(k));
            assert(clocked_at(job, events, case, k, time));
        }
    }
}

/// The message of a worker is the text of its message file, which is then
/// removed, else the words of its command line. A file that cannot be read ends
/// the worker, stays where it is, and is named in the log.
pub proof fn law_message_of_a_worker(args: Args, contents: Option<Result<String, String>>)
    ensures
        ({
            let taken = message_taken(args, contents);
            match (args.message_file, contents) {
                (None, _) => taken == (
                    Ok::<Seq<char>, i32>(message_of(args)),
                    Seq::<StepView>::empty(),
                ),
                (Some(file), Some(Ok(text))) => taken == (
                    Ok::<Seq<char>, i32>(text@),
                    seq![Action::<Seq<char>, Seq<u16>>::RemoveFile(file@)],
                ),
                (Some(file), Some(Err(e))) => {
                    &&& taken.0 == Err::<Seq<char>, i32>(2)
                    &&& effects(taken.1) == Seq::<StepView>::empty()
                    &&& errors(taken.1) == seq!["reading message file '"@ + file@ + "': "@ + e@]
                },
                (Some(file), None) => taken == (
                    Err::<Seq<char>, i32>(2),
                    Seq::<StepView>::empty(),
                ),
            }
        }),
{
    reveal_with_fuel(effects, 2);
    reveal_with_fuel(errors, 2);
}

/// A worker with an executable to start waits as long as it was told, and then
/// stops the old session; one without is over.
pub proof fn law_worker_waits_first(
    job: WorkerJob,
    exe: Option<String>,
    case: spec_fn(Seq<char>) -> Seq<char>,
)
    ensures
        ({
            let next = worker_next(job, WorkerView::Exe, WorkerEvent::Exe(exe), case);
            match exe {
                Some(exe) => {
                    &&& next.0 == (WorkerView::Stop { exe: exe@, stop: Stop::Begin })
                    &&& effects(next.1) == seq![
                        Action::<Seq<char>, Seq<u16>>::Pause(job.args.wait),
                    ]
                },
                None => {
                    &&& next.0 == WorkerView::Done(2)
                    &&& effects(next.1) == Seq::<StepView>::empty()
                    &&& errors(next.1) == seq!["Zed.exe not found"@]
                },
            }
        }),
{
    broadcast use {lemma_effects_push, lemma_errors_push};

    reveal_with_fuel(effects, 3);
    reveal_with_fuel(errors, 3);
}

/// A worker stops the process that its command line names, with the time that it
/// gives, and goes on once that is over; it remembers the executable and whether
/// the old session was in the foreground.
pub proof fn law_worker_stops_the_old_session(
    job: WorkerJob,
    exe: Seq<char>,
    stop: Stop,
    event: StopEvent,
    case: spec_fn(Seq<char>) -> Seq<char>,
)
    ensures
        ({
            let next = worker_next(
                job,
                WorkerView::Stop { exe, stop },
                WorkerEvent::Stop(event),
                case,
            );
            let stopped = stop_next(job.args.grace, job.args.zed_pid, stop, event);
            &&& next.1 == stopped.1
            &&& stopped.0 matches Stop::Done(was_focused) ==> next.0 == (WorkerView::Clock {
                exe,
                was_focused,
            })
            &&& !(stopped.0 is Done) ==> next.0 == (WorkerView::Stop { exe, stop: stopped.0 })
        }),
{
}

/// The time is taken and nothing else done; then Zed is started, the executable
/// that was found, with the project of the command line.
pub proof fn law_worker_starts_zed(
    job: WorkerJob,
    exe: Seq<char>,
    was_focused: bool,
    not_before: u64,
    start: StartView,
    event: StartEvent,
    case: spec_fn(Seq<char>) -> Seq<char>,
)
    ensures
        worker_next(
            job,
            WorkerView::Clock { exe, was_focused },
            WorkerEvent::Time(not_before),
            case,
        ) == (
            WorkerView::Start { exe, was_focused, not_before, start: StartView::Begin },
            Seq::<StepView>::empty(),
        ),
        ({
            let next = worker_next(
                job,
                WorkerView::Start { exe, was_focused, not_before, start },
                WorkerEvent::Start(event),
                case,
            );
            let started = start_next(
                StartJobView {
                    exe,
                    project: match job.args.project {
                        Some(project) => Some(project@),
                        None => None,
                    },
                    temp_dir: job.temp_dir@,
                    pid: job.pid,
                },
                start,
                event,
            );
            &&& effects(next.1) == effects(started.1)
            &&& match started.0 {
                StartView::Done(Ok(lnk)) => {
                    &&& next.0 == (WorkerView::Wait { exe, was_focused, not_before, lnk })
                    &&& next.1 == started.1 + wait_note(
                        filter_of(some_text(job.args.project), some_text(job.args.window_title)),
                    )
                },
                StartView::Done(Err(e)) => {
                    &&& next.0 == WorkerView::Done(3)
                    &&& errors(next.1) == errors(started.1).push(e)
                    &&& next.1 == started.1.push(Action::Error(e)) + finish(None, false).1
                },
                start => next == (
                    WorkerView::Start { exe, was_focused, not_before, start },
                    started.1,
                ),
            }
        }),
{
    broadcast use {lemma_effects_add, lemma_effects_push, lemma_errors_add, lemma_errors_push};

    reveal_with_fuel(effects, 3);
    reveal_with_fuel(errors, 3);
    let started = start_next(start_job(job, exe), start, event);
    let none = Seq::<StepView>::empty();
    let filter = wait_job(job, exe, not_before).filter;
    law_wait_is_announced(filter);
    assert(effects(started.1) + none == effects(started.1));
    assert(effects(finish(None, false).1) == none);
    assert(errors(finish(None, false).1) == Seq::<Seq<char>>::empty());
    if let StartView::Done(Err(e)) = started.0 {
        let logged = errors(started.1).push(e);
        assert(logged + Seq::<Seq<char>>::empty() == logged);
    }
}

/// A worker waits for a window of the executable that it has started, created
/// since, whose title holds the title of the command line or else the folder name
/// of the project. The window that is found is injected into; a wait in vain ends
/// the worker, and the shortcut is removed.
pub proof fn law_worker_waits_for_the_window(
    job: WorkerJob,
    exe: Seq<char>,
    was_focused: bool,
    not_before: u64,
    lnk: Option<Seq<char>>,
    poll: WindowPoll,
    case: spec_fn(Seq<char>) -> Seq<char>,
)
    ensures
        ({
            let next = worker_next(
                job,
                WorkerView::Wait { exe, was_focused, not_before, lnk },
                WorkerEvent::Poll(poll),
                case,
            );
            let waited = wait_next(
                WaitJobView {
                    filter: filter_of(
                        some_text(job.args.project),
                        some_text(job.args.window_title),
                    ),
                    timeout_secs: job.args.window_timeout,
                    exe,
                    not_before,
                },
                poll,
                case,
            );
            match waited.0 {
                WaitView::Again => next == (
                    WorkerView::Wait { exe, was_focused, not_before, lnk },
                    waited.1,
                ),
                WaitView::TimedOut => {
                    &&& next.0 == WorkerView::Done(3)
                    &&& effects(next.1) == effects(waited.1) + removal(lnk)
                    &&& errors(next.1) == errors(waited.1)
                    &&& next.1 == waited.1 + finish(lnk, false).1
                },
                WaitView::Found(w) => {
                    let found = window_found(
                        InjectJobView {
                            message: job.message@,
                            settle_secs: job.args.settle,
                            heads_up_secs: job.args.heads_up,
                            old_was_focused: was_focused,
                            keys: keys_of(job.args, case),
                        },
                        w,
                    );
                    &&& next.0 == (WorkerView::Inject { was_focused, lnk, inject: found.0 })
                    &&& next.1 == waited.1 + found.1
                },
            }
        }),
{
    broadcast use {lemma_effects_add, lemma_errors_add};

    lemma_finish(lnk, false);
    let waited = wait_next(wait_job(job, exe, not_before), poll, case);
    assert(errors(waited.1) + Seq::<Seq<char>>::empty() == errors(waited.1));
}

/// The removal of a shortcut, where there is one.
pub open spec fn removal(lnk: Option<Seq<char>>) -> Seq<StepView> {
    match lnk {
        Some(lnk) => seq![Action::RemoveFile(lnk)],
        None => Seq::empty(),
    }
}

proof fn lemma_finish(lnk: Option<Seq<char>>, ok: bool)
    ensures
        effects(finish(lnk, ok).1) == removal(lnk),
        errors(finish(lnk, ok).1) == Seq::<Seq<char>>::empty(),
{
    reveal_with_fuel(effects, 3);
    reveal_with_fuel(errors, 3);
}

/// A worker injects the message with the times of its command line and the keys
/// that it gives. Once that is over the shortcut is removed, and the exit code
/// says whether the message was sent.
pub proof fn law_worker_injects(
    job: WorkerJob,
    was_focused: bool,
    lnk: Option<Seq<char>>,
    inject: InjectView,
    event: InjectEvent,
    case: spec_fn(Seq<char>) -> Seq<char>,
)
    ensures
        ({
            let next = worker_next(
                job,
                WorkerView::Inject { was_focused, lnk, inject },
                WorkerEvent::Inject(event),
                case,
            );
            let went = inject_next(
                InjectJobView {
                    message: job.message@,
                    settle_secs: job.args.settle,
                    heads_up_secs: job.args.heads_up,
                    old_was_focused: was_focused,
                    keys: keys_of(job.args, case),
                },
                inject,
                event,
            );
            match went.0 {
                InjectView::Done(ok) => {
                    &&& next.0 == WorkerView::Done(
                        if ok {
                            0
                        } else {
                            3
                        },
                    )
                    &&& effects(next.1) == effects(went.1) + removal(lnk)
                    &&& errors(next.1) == errors(went.1)
                    &&& next.1 == went.1 + finish(lnk, ok).1
                },
                inject => next == (WorkerView::Inject { was_focused, lnk, inject }, went.1),
            }
        }),
{
    broadcast use {lemma_effects_add, lemma_errors_add};

    lemma_finish(lnk, true);
    lemma_finish(lnk, false);
    let went = inject_next(inject_job(job, was_focused, case), inject, event);
    assert(errors(went.1) + Seq::<Seq<char>>::empty() == errors(went.1));
}

/// Once a worker is over nothing more is done.
pub proof fn law_worker_stays_over(
    job: WorkerJob,
    code: i32,
    event: WorkerEvent,
    case: spec_fn(Seq<char>) -> Seq<char>,
)
    ensures
        worker_next(job, WorkerView::Done(code), event, case) == (
            WorkerView::Done(code),
            Seq::<StepView>::empty(),
        ),
{
}

/// Two states go by the time since they were entered: the target's time to exit,
/// and the wait for the window.
pub proof fn law_timed_states(state: WorkerView)
    ensures
        goes_by_time(state) <==> (state is Wait || (state matches WorkerView::Stop { exe, stop }
            && (stop is Waiting || stop is Checking))),
{
}

/// A worker logs what it works on: the length of the message and the times, then
/// the mode, the bindings and the send key.
pub proof fn law_worker_logs_its_job(
    job: WorkerJob,
    exe: Option<String>,
    case: spec_fn(Seq<char>) -> Seq<char>,
)
    ensures
        entries(worker_next(job, WorkerView::Exe, WorkerEvent::Exe(exe), case).1) == seq![
            "=== start: msgLen="@ + decimal(job.message@.len()) + " wait="@ + decimal(
                job.args.wait as nat,
            ) + "s settle="@ + decimal(job.args.settle as nat) + "s grace="@ + decimal(
                job.args.grace as nat,
            ) + "s heads-up="@ + decimal(job.args.heads_up as nat) + "s ==="@,
            "mode="@ + mode_name(worker_mode(job.args)) + " toggle="@ + worker_toggle(job.args)
                + " paste="@ + worker_paste(job.args) + " send="@ + if !job.args.send_enter
                && job.args.send_ctrl_enter {
                "ctrl+enter"@
            } else {
                "enter"@
            },
        ],
{
    broadcast use lemma_entries_push;

    reveal_with_fuel(entries, 3);
}

/// The end of a worker is logged with its outcome, as the last entry.
pub proof fn law_end_is_logged(lnk: Option<Seq<char>>, ok: bool)
    ensures
        entries(finish(lnk, ok).1) == seq![
            "=== done: ok="@ + (if ok {
                "true"@
            } else {
                "false"@
            }) + " ==="@,
        ],
        finish(lnk, ok).1.last() is Info,
{
    reveal_with_fuel(entries, 3);
}

/// An event that a worker does not wait for changes nothing.
pub proof fn law_worker_waits_for_its_event(
    job: WorkerJob,
    state: WorkerView,
    event: WorkerEvent,
    case: spec_fn(Seq<char>) -> Seq<char>,
)
    requires
        state is Exe ==> !(event is Exe),
        state is Stop ==> !(event is Stop),
        state is Clock ==> !(event is Time),
        state is Start ==> !(event is Start),
        state is Wait ==> !(event is Poll),
        state is Inject ==> !(event is Inject),
    ensures
        worker_next(job, state, event, case) == (state, Seq::<StepView>::empty()),
{
}

/// The end of a worker and of reading its message say what they hold.
pub proof fn law_ends_say(state: Worker, r: Result<String, i32>)
    ensures
        state matches Worker::Done(code) ==> state@ == WorkerView::Done(code),
        state@ matches WorkerView::Done(code) ==> state == Worker::Done(code),
        match r {
            Ok(message) => taken_text(r) == Ok::<Seq<char>, i32>(message@),
            Err(code) => taken_text(r) == Err::<Seq<char>, i32>(code),
        },
{
}

} // verus!
