//! The launcher: the process that the user invokes.
//!
//! It resolves everything while the old session still runs, hands it to a
//! detached worker, and returns.
use vstd::prelude::*;

use crate::action::{no_steps, push_step, steps_view, Action, Step, StepView};
use crate::args::{message_of, plan_inject, plan_of, Args, InjectPlan, PlanView};
use crate::codes::{creation_flags, creation_values};
use crate::command::{command_line, some_target, worker_arguments, worker_command};
use crate::config::{mode_name, text_or_empty, without_comments};
use crate::inject::{send_key_name, send_key_text};
use crate::log::log_path;
use crate::process::{resolution, resolve_target, ProcessInfo, Target, TargetView};
use crate::text::{decimal, owned, push_decimal, some_text};
use crate::winpath::{child, child_path};

verus! {

/// What a launch starts from.
#[derive(Debug, PartialEq, Eq)]
pub struct LaunchJob {
    pub args: Args,
    /// The directory for temporary files.
    pub temp_dir: String,
    /// The current directory, where it is known.
    pub cwd: Option<String>,
    /// The PID of this process.
    pub pid: u32,
    /// Milliseconds since the Unix epoch.
    pub millis: u128,
    /// The value of `%APPDATA%`.
    pub appdata: Option<String>,
    /// The contents of `settings.json`.
    pub settings: Option<String>,
    /// The contents of `keymap.json`.
    pub keymap: Option<String>,
    /// The directory of this executable, where it is known.
    pub exe_dir: Option<String>,
}

/// How far a launch has come.
#[derive(Debug, PartialEq, Eq)]
pub enum Launch {
    /// Waits for the running processes.
    Target,
    /// Waits for the outcome of writing the message file.
    Written { target: Option<Target> },
    /// Waits for the path of this executable.
    Exe { target: Option<Target> },
    /// Waits for the outcome of starting the worker.
    Spawned { target: Option<Target>, command: String, retried: bool },
    /// Over, with the exit code.
    Done(i32),
}

/// What a launch learns.
#[derive(Debug, PartialEq, Eq)]
pub enum LaunchEvent {
    /// The running processes.
    Processes(Vec<ProcessInfo>),
    /// The outcome of writing the message file.
    Written(Result<(), String>),
    /// The path of this executable.
    Exe(Result<String, String>),
    /// The PID of the worker, or why it could not be started.
    Spawned(Result<u32, String>),
}

/// How far a launch has come, as contracts speak of it.
pub ghost enum LaunchView {
    Target,
    Written { target: Option<TargetView> },
    Exe { target: Option<TargetView> },
    Spawned { target: Option<TargetView>, command: Seq<char>, retried: bool },
    Done(i32),
}

impl View for Launch {
    type V = LaunchView;

    open spec fn view(&self) -> LaunchView {
        match self {
            Launch::Target => LaunchView::Target,
            Launch::Written { target } => LaunchView::Written { target: some_target(*target) },
            Launch::Exe { target } => LaunchView::Exe { target: some_target(*target) },
            Launch::Spawned { target, command, retried } => LaunchView::Spawned {
                target: some_target(*target),
                command: command@,
                retried: *retried,
            },
            Launch::Done(code) => LaunchView::Done(*code),
        }
    }
}

// ---------------------------------------------------------------------------
// what is resolved
// ---------------------------------------------------------------------------

/// The path of the message file: unique to this process and time.
pub open spec fn message_path(job: LaunchJob) -> Seq<char> {
    child(
        job.temp_dir@,
        "zed-reload-"@ + decimal(job.pid as nat) + "-"@ + decimal(job.millis as nat) + ".msg"@,
    )
}

/// The project to reopen: the one given, else the current directory.
pub open spec fn launch_project(job: LaunchJob) -> Option<Seq<char>> {
    match some_text(job.args.project) {
        Some(project) => Some(project),
        None => some_text(job.cwd),
    }
}

/// The injection plan of a launch.
pub open spec fn launch_plan(job: LaunchJob) -> PlanView {
    plan_of(
        job.args,
        without_comments(text_or_empty(job.settings)),
        without_comments(text_or_empty(job.keymap)),
    )
}

/// The command line of the worker.
pub open spec fn launch_command(
    job: LaunchJob,
    exe: Seq<char>,
    target: Option<TargetView>,
) -> Seq<char> {
    command_line(
        exe,
        worker_arguments(
            job.args,
            message_path(job),
            launch_plan(job),
            launch_project(job),
            target,
        ),
    )
}

/// The worker is detached from the console, has no window and leads a process
/// group; it also leaves the parent's job, unless that forbids it.
pub open spec fn worker_flags(breakaway: bool) -> u32 {
    let flags = creation_values();
    if breakaway {
        flags.detached | flags.no_window | flags.new_group | flags.breakaway
    } else {
        flags.detached | flags.no_window | flags.new_group
    }
}

// ---------------------------------------------------------------------------
// what is reported
// ---------------------------------------------------------------------------

/// The line on the worker and its timing.
pub open spec fn worker_line(args: Args, pid: u32) -> Seq<char> {
    "zed-reload: detached worker pid="@ + decimal(pid as nat) + "  (wait="@ + decimal(
        args.wait as nat,
    ) + "s, settle="@ + decimal(args.settle as nat) + "s, heads-up="@ + decimal(
        args.heads_up as nat,
    ) + "s)"@
}

/// The lines on the plan.
pub open spec fn plan_lines(plan: PlanView) -> Seq<StepView> {
    seq![
        Action::Print("zed-reload: mode      -> "@ + mode_name(plan.mode)),
        Action::Print("zed-reload: send key  -> "@ + send_key_name(plan.ctrl_enter)),
        Action::Print("zed-reload: toggle    -> "@ + plan.toggle),
        Action::Print("zed-reload: paste     -> "@ + plan.paste),
    ]
}

/// The line on the project.
pub open spec fn project_line(project: Option<Seq<char>>) -> Seq<char> {
    match project {
        Some(project) => "zed-reload: project -> "@ + project,
        None => "zed-reload: project -> (session restore)"@,
    }
}

/// The lines on the target.
pub open spec fn target_lines(target: Option<TargetView>) -> Seq<StepView> {
    match target {
        Some(target) => seq![
            Action::Print("zed-reload: zed exe  -> "@ + target.exe),
            Action::Print(
                match target.pid {
                    Some(pid) => "zed-reload: target   -> pid "@ + decimal(pid as nat),
                    None => "zed-reload: target   -> (none — start only)"@,
                },
            ),
        ],
        None => seq![Action::Print("zed-reload: zed exe  -> (on-disk search)"@)],
    }
}

/// What is printed once the worker runs.
pub open spec fn launch_report(job: LaunchJob, target: Option<TargetView>, pid: u32) -> Seq<
    StepView,
> {
    let worker: Seq<StepView> = seq![Action::Print(worker_line(job.args, pid))];
    (worker + plan_lines(launch_plan(job))).push(Action::Print(project_line(launch_project(job))))
        + target_lines(target).push(
        Action::Print("zed-reload: log -> "@ + log_path(some_text(job.exe_dir))),
    )
}

// ---------------------------------------------------------------------------
// transitions
// ---------------------------------------------------------------------------

/// What follows on an event; one that the state does not wait for changes
/// nothing.
///
/// * The target is resolved first; if that fails nothing is written or started.
/// * The message goes to a file, so that no command line has to carry it.
/// * The worker is started; a job that forbids to be left is taken into account
///   by a second try.
pub open spec fn launch_next(job: LaunchJob, state: LaunchView, event: LaunchEvent) -> (
    LaunchView,
    Seq<StepView>,
) {
    match (state, event) {
        (LaunchView::Target, LaunchEvent::Processes(procs)) => match resolution(
            some_text(job.args.zed_path),
            job.args.zed_pid,
            procs@,
            job.pid,
        ) {
            Ok(target) => (
                LaunchView::Written { target },
                seq![Action::WriteFile(message_path(job), message_of(job.args))],
            ),
            Err(e) => (LaunchView::Done(2), seq![Action::Complain("zed-reload: "@ + e)]),
        },
        (LaunchView::Written { target }, LaunchEvent::Written(Ok(_))) => (
            LaunchView::Exe { target },
            Seq::empty(),
        ),
        (LaunchView::Written { target }, LaunchEvent::Written(Err(e))) => (
            LaunchView::Done(2),
            seq![
                Action::Complain("zed-reload: cannot write "@ + message_path(job) + ": "@ + e@),
            ],
        ),
        (LaunchView::Exe { target }, LaunchEvent::Exe(Ok(exe))) => {
            let command = launch_command(job, exe@, target);
            (
                LaunchView::Spawned { target, command, retried: false },
                seq![Action::Spawn(command, worker_flags(true))],
            )
        },
        (LaunchView::Exe { target }, LaunchEvent::Exe(Err(e))) => (
            LaunchView::Done(2),
            seq![Action::Complain("zed-reload: current_exe: "@ + e@)],
        ),
        (LaunchView::Spawned { target, command, retried }, LaunchEvent::Spawned(Ok(pid))) => (
            LaunchView::Done(0),
            launch_report(job, target, pid),
        ),
        (
            LaunchView::Spawned { target, command, retried },
            LaunchEvent::Spawned(Err(e)),
        ) => if retried {
            (
                LaunchView::Done(1),
                seq![Action::Complain("zed-reload: LAUNCH FAILED: "@ + e@)],
            )
        } else {
            (
                LaunchView::Spawned { target, command, retried: true },
                seq![Action::Spawn(command, worker_flags(false))],
            )
        },
        _ => (state, Seq::empty()),
    }
}

fn make_message_path(job: &LaunchJob) -> (path: String)
    ensures
        path@ == message_path(*job),
{
    let mut name = owned("zed-reload-");
    push_decimal(&mut name, job.pid as u128);
    name.append("-");
    push_decimal(&mut name, job.millis);
    name.append(".msg");
    child_path(job.temp_dir.as_str(), name.as_str())
}

fn choose_project(job: &LaunchJob) -> (project: Option<String>)
    ensures
        some_text(project) == launch_project(*job),
{
    match &job.args.project {
        Some(project) => Some(project.clone()),
        None => match &job.cwd {
            Some(cwd) => Some(cwd.clone()),
            None => None,
        },
    }
}

fn make_plan(job: &LaunchJob) -> (plan: InjectPlan)
    ensures
        plan@ == launch_plan(*job),
{
    plan_inject(&job.args, &job.appdata, &job.settings, &job.keymap)
}

fn make_flags(breakaway: bool) -> (flags: u32)
    ensures
        flags == worker_flags(breakaway),
{
    let flags = creation_flags();
    if breakaway {
        flags.detached | flags.no_window | flags.new_group | flags.breakaway
    } else {
        flags.detached | flags.no_window | flags.new_group
    }
}

fn print_with(steps: &mut Vec<Step>, label: &str, value: &str)
    ensures
        steps_view(final(steps)@) == steps_view(old(steps)@).push(Action::Print(label@ + value@)),
{
    let mut line = owned(label);
    line.append(value);
    push_step(steps, Action::Print(line));
}

fn push_plan_lines(steps: &mut Vec<Step>, plan: &InjectPlan)
    ensures
        steps_view(final(steps)@) == steps_view(old(steps)@) + plan_lines(plan@),
{
    let mode = plan.mode.name();
    let key = send_key_text(plan.ctrl_enter);
    print_with(steps, "zed-reload: mode      -> ", mode.as_str());
    print_with(steps, "zed-reload: send key  -> ", key.as_str());
    print_with(steps, "zed-reload: toggle    -> ", plan.toggle_binding.as_str());
    print_with(steps, "zed-reload: paste     -> ", plan.paste_binding.as_str());
    assert(steps_view(steps@) == steps_view(old(steps)@) + plan_lines(plan@));
}

fn push_target_lines(steps: &mut Vec<Step>, target: &Option<Target>)
    ensures
        steps_view(final(steps)@) == steps_view(old(steps)@) + target_lines(some_target(*target)),
{
    match target {
        Some(target) => {
            print_with(steps, "zed-reload: zed exe  -> ", target.exe.as_str());
            match target.pid {
                Some(pid) => {
                    let mut line = owned("zed-reload: target   -> pid ");
                    push_decimal(&mut line, pid as u128);
                    push_step(steps, Action::Print(line));
                },
                None => {
                    push_step(
                        steps,
                        Action::Print(owned("zed-reload: target   -> (none — start only)")),
                    );
                },
            }
        },
        None => {
            push_step(steps, Action::Print(owned("zed-reload: zed exe  -> (on-disk search)")));
        },
    }
    assert(steps_view(steps@) == steps_view(old(steps)@) + target_lines(some_target(*target)));
}

fn report(job: &LaunchJob, target: &Option<Target>, pid: u32) -> (steps: Vec<Step>)
    ensures
        steps_view(steps@) == launch_report(*job, some_target(*target), pid),
{
    let mut steps = no_steps();
    let mut line = owned("zed-reload: detached worker pid=");
    push_decimal(&mut line, pid as u128);
    line.append("  (wait=");
    push_decimal(&mut line, job.args.wait as u128);
    line.append("s, settle=");
    push_decimal(&mut line, job.args.settle as u128);
    line.append("s, heads-up=");
    push_decimal(&mut line, job.args.heads_up as u128);
    line.append("s)");
    push_step(&mut steps, Action::Print(line));
    let plan = make_plan(job);
    push_plan_lines(&mut steps, &plan);
    match choose_project(job) {
        Some(project) => {
            print_with(&mut steps, "zed-reload: project -> ", project.as_str());
        },
        None => {
            push_step(&mut steps, Action::Print(owned("zed-reload: project -> (session restore)")));
        },
    }
    push_target_lines(&mut steps, target);
    let log = crate::log::Log::new(&job.exe_dir, "launcher", job.pid);
    print_with(&mut steps, "zed-reload: log -> ", log.path().as_str());
    assert(steps_view(steps@) == launch_report(*job, some_target(*target), pid));
    steps
}

fn complain(label: &str, e: &str) -> (r: (Launch, Vec<Step>))
    ensures
        steps_view(r.1@) == seq![Action::<Seq<char>, Seq<u16>>::Complain(label@ + e@)],
        r.0@ == LaunchView::Done(2),
{
    let mut steps = no_steps();
    let mut line = owned(label);
    line.append(e);
    push_step(&mut steps, Action::Complain(line));
    (Launch::Done(2), steps)
}

/// Launches the worker: one step. It starts with `Launch::Target`.
pub fn run_launcher(job: &LaunchJob, state: Launch, event: LaunchEvent) -> (r: (
    Launch,
    Vec<Step>,
))
    ensures
        (r.0@, steps_view(r.1@)) == launch_next(*job, state@, event),
{
    let mut steps = no_steps();
    match (state, event) {
        (Launch::Target, LaunchEvent::Processes(procs)) => match resolve_target(
            &job.args.zed_path,
            job.args.zed_pid,
            &procs,
            job.pid,
        ) {
            Ok(target) => {
                push_step(
                    &mut steps,
                    Action::WriteFile(make_message_path(job), job.args.message()),
                );
                (Launch::Written { target }, steps)
            },
            Err(e) => complain("zed-reload: ", e.as_str()),
        },
        (Launch::Written { target }, LaunchEvent::Written(outcome)) => match outcome {
            Ok(_) => (Launch::Exe { target }, steps),
            Err(e) => {
                let mut label = owned("zed-reload: cannot write ");
                let path = make_message_path(job);
                label.append(path.as_str());
                label.append(": ");
                complain(label.as_str(), e.as_str())
            },
        },
        (Launch::Exe { target }, LaunchEvent::Exe(outcome)) => match outcome {
            Ok(exe) => {
                let path = make_message_path(job);
                let plan = make_plan(job);
                let project = choose_project(job);
                let command = worker_command(
                    exe.as_str(),
                    &job.args,
                    path.as_str(),
                    &plan,
                    &project,
                    &target,
                );
                push_step(&mut steps, Action::Spawn(command.clone(), make_flags(true)));
                (Launch::Spawned { target, command, retried: false }, steps)
            },
            Err(e) => complain("zed-reload: current_exe: ", e.as_str()),
        },
        (Launch::Spawned { target, command, retried }, LaunchEvent::Spawned(outcome)) => {
            match outcome {
                Ok(pid) => (Launch::Done(0), report(job, &target, pid)),
                Err(e) => {
                    if retried {
                        let mut line = owned("zed-reload: LAUNCH FAILED: ");
                        line.append(e.as_str());
                        push_step(&mut steps, Action::Complain(line));
                        (Launch::Done(1), steps)
                    } else {
                        push_step(&mut steps, Action::Spawn(command.clone(), make_flags(false)));
                        (Launch::Spawned { target, command, retried: true }, steps)
                    }
                },
            }
        },
        (state, _) => (state, steps),
    }
}

// ---------------------------------------------------------------------------
// laws
// ---------------------------------------------------------------------------

/// A launch from its beginning over all events: where it stands, and what was
/// done.
pub open spec fn launch_run(job: LaunchJob, events: Seq<LaunchEvent>) -> (LaunchView, Seq<StepView>)
    decreases events.len(),
{
    if events.len() == 0 {
        (LaunchView::Target, Seq::empty())
    } else {
        let before = launch_run(job, events.drop_last());
        let next = launch_next(job, before.0, events.last());
        (next.0, before.1 + next.1)
    }
}

/// `target` is what one of the events resolves to.
pub open spec fn resolved(
    job: LaunchJob,
    events: Seq<LaunchEvent>,
    target: Option<TargetView>,
) -> bool {
    exists|k: int|
        0 <= k < events.len() && (#[trigger] events[k] matches LaunchEvent::Processes(procs)
            && resolution(some_text(job.args.zed_path), job.args.zed_pid, procs@, job.pid) == Ok::<
            Option<TargetView>,
            Seq<char>,
        >(target))
}

/// `command` is the worker's command line for one of the events' executables
/// and targets.
pub open spec fn commanded(job: LaunchJob, events: Seq<LaunchEvent>, command: Seq<char>) -> bool {
    exists|k: int, target: Option<TargetView>|
        0 <= k < events.len() && #[trigger] resolved(job, events, target) && (
        #[trigger] events[k] matches LaunchEvent::Exe(Ok(exe)) && command == launch_command(
            job,
            exe@,
            target,
        ))
}

proof fn lemma_resolved(job: LaunchJob, events: Seq<LaunchEvent>, target: Option<TargetView>)
    requires
        events.len() > 0,
        resolved(job, events.drop_last(), target),
    ensures
        resolved(job, events, target),
{
    let head = events.drop_last();
    let k = choose|k: int|
        0 <= k < head.len() && (#[trigger] head[k] matches LaunchEvent::Processes(procs)
            && resolution(some_text(job.args.zed_path), job.args.zed_pid, procs@, job.pid) == Ok::<
            Option<TargetView>,
            Seq<char>,
        >(target));
    assert(events[k] == head[k]);
}

proof fn lemma_commanded(job: LaunchJob, events: Seq<LaunchEvent>, command: Seq<char>)
    requires
        events.len() > 0,
        commanded(job, events.drop_last(), command),
    ensures
        commanded(job, events, command),
{
    let head = events.drop_last();
    let (k, target) = choose|k: int, target: Option<TargetView>|
        0 <= k < head.len() && #[trigger] resolved(job, head, target) && (
        #[trigger] head[k] matches LaunchEvent::Exe(Ok(exe)) && command == launch_command(
            job,
            exe@,
            target,
        ));
    lemma_resolved(job, events, target);
    assert(events[k] == head[k]);
}

/// The steps begin with the message being written.
pub open spec fn message_first(job: LaunchJob, steps: Seq<StepView>) -> bool {
    steps.len() > 0 && steps[0] == Action::<Seq<char>, Seq<u16>>::WriteFile(
        message_path(job),
        message_of(job.args),
    )
}

proof fn lemma_launch_state(job: LaunchJob, events: Seq<LaunchEvent>)
    ensures
        ({
            let run = launch_run(job, events);
            match run.0 {
                LaunchView::Target => run.1.len() == 0,
                LaunchView::Written { target } => message_first(job, run.1) && resolved(
                    job,
                    events,
                    target,
                ),
                LaunchView::Exe { target } => message_first(job, run.1) && resolved(
                    job,
                    events,
                    target,
                ),
                LaunchView::Spawned { target, command, retried } => message_first(job, run.1)
                    && commanded(job, events, command),
                LaunchView::Done(_) => true,
            }
        }),
    decreases events.len(),
{
    if events.len() > 0 {
        let head = events.drop_last();
        let last = events[events.len() - 1];
        let before = launch_run(job, head);
        lemma_launch_state(job, head);
        match before.0 {
            LaunchView::Written { target } => {
                lemma_resolved(job, events, target);
            },
            LaunchView::Exe { target } => {
                lemma_resolved(job, events, target);
                if let LaunchEvent::Exe(Ok(exe)) = last {
                    assert(commanded(job, events, launch_command(job, exe@, target)));
                }
            },
            LaunchView::Spawned { target, command, retried } => {
                lemma_commanded(job, events, command);
            },
            _ => {},
        }
    }
}

/// The worker finds its message and everything that was resolved: whatever a
/// launch starts is the worker's command line for the target that was resolved,
/// and the message was written before.
pub proof fn law_launch_starts_the_worker(job: LaunchJob, events: Seq<LaunchEvent>, i: int)
    requires
        0 <= i < launch_run(job, events).1.len(),
    ensures
        launch_run(job, events).1[i] matches Action::Spawn(command, flags) ==> {
            &&& i > 0
            &&& message_first(job, launch_run(job, events).1)
            &&& commanded(job, events, command)
            &&& flags == worker_flags(true) || flags == worker_flags(false)
        },
    decreases events.len(),
{
    let head = events.drop_last();
    let before = launch_run(job, head);
    lemma_launch_state(job, head);
    lemma_launch_state(job, events);
    if i < before.1.len() {
        law_launch_starts_the_worker(job, head, i);
        if let Action::Spawn(command, flags) = before.1[i] {
            lemma_commanded(job, events, command);
        }
    }
}

/// A target that cannot be told apart starts nothing: the launch ends with a
/// complaint before anything is written.
pub proof fn law_refused_target_starts_nothing(job: LaunchJob, events: Seq<LaunchEvent>)
    requires
        events.len() > 0,
        events[0] matches LaunchEvent::Processes(procs) && resolution(
            some_text(job.args.zed_path),
            job.args.zed_pid,
            procs@,
            job.pid,
        ) is Err,
    ensures
        launch_run(job, events).0 == LaunchView::Done(2),
        launch_run(job, events).1.len() == 1,
        launch_run(job, events).1[0] is Complain,
    decreases events.len(),
{
    let head = events.drop_last();
    if events.len() > 1 {
        assert(head[0] == events[0]);
        law_refused_target_starts_nothing(job, head);
    } else {
        assert(launch_run(job, head).0 == LaunchView::Target);
        assert(launch_run(job, head).1.len() == 0);
    }
}

/// The exit code says whether the worker runs: 0 exactly where a start of it
/// went well.
pub proof fn law_launch_exit_code(job: LaunchJob, events: Seq<LaunchEvent>, last: LaunchEvent)
    requires
        !(launch_run(job, events).0 is Done),
    ensures
        launch_run(job, events.push(last)).0 == LaunchView::Done(0) <==> launch_run(job, events).0
            is Spawned && (last matches LaunchEvent::Spawned(Ok(_))),
{
    assert(events.push(last).drop_last() == events);
}

/// A worker that could not leave the parent's job is started once more without
/// that, by the same command line; a launch fails only when both tries did.
pub proof fn law_second_try(
    job: LaunchJob,
    target: Option<TargetView>,
    command: Seq<char>,
    e: String,
)
    ensures
        launch_next(
            job,
            LaunchView::Spawned { target, command, retried: false },
            LaunchEvent::Spawned(Err(e)),
        ) == (
            LaunchView::Spawned { target, command, retried: true },
            seq![Action::<Seq<char>, Seq<u16>>::Spawn(command, worker_flags(false))],
        ),
        launch_next(
            job,
            LaunchView::Spawned { target, command, retried: true },
            LaunchEvent::Spawned(Err(e)),
        ).0 == LaunchView::Done(1),
{
}

/// A target that was resolved leads to the message being written to a file of
/// this process and time; one that was refused ends the launch with a complaint.
pub proof fn law_message_is_written(job: LaunchJob, procs: Vec<ProcessInfo>)
    ensures
        ({
            let next = launch_next(job, LaunchView::Target, LaunchEvent::Processes(procs));
            match resolution(some_text(job.args.zed_path), job.args.zed_pid, procs@, job.pid) {
                Ok(target) => next.0 == (LaunchView::Written { target }) && next.1 == seq![
                    Action::<Seq<char>, Seq<u16>>::WriteFile(
                        child(
                            job.temp_dir@,
                            "zed-reload-"@ + decimal(job.pid as nat) + "-"@ + decimal(
                                job.millis as nat,
                            ) + ".msg"@,
                        ),
                        message_of(job.args),
                    ),
                ],
                Err(e) => next.0 == LaunchView::Done(2) && next.1 == seq![
                    Action::<Seq<char>, Seq<u16>>::Complain("zed-reload: "@ + e),
                ],
            }
        }),
{
}

/// Once the message is written the launch goes on with the same target; a
/// message that cannot be written ends it with a complaint that names the file
/// and the reason, and nothing is started.
pub proof fn law_written_message_leads_on(
    job: LaunchJob,
    target: Option<TargetView>,
    outcome: Result<(), String>,
)
    ensures
        ({
            let next = launch_next(
                job,
                LaunchView::Written { target },
                LaunchEvent::Written(outcome),
            );
            match outcome {
                Ok(_) => next == (LaunchView::Exe { target }, Seq::<StepView>::empty()),
                Err(e) => next == (
                    LaunchView::Done(2),
                    seq![
                        Action::<Seq<char>, Seq<u16>>::Complain(
                            "zed-reload: cannot write "@ + child(
                                job.temp_dir@,
                                "zed-reload-"@ + decimal(job.pid as nat) + "-"@ + decimal(
                                    job.millis as nat,
                                ) + ".msg"@,
                            ) + ": "@ + e@,
                        ),
                    ],
                ),
            }
        }),
{
}

/// The worker is this executable, detached, without a window, in a group of its
/// own and out of the parent's job; its command line hands over the message file,
/// the plan of the command line and the configuration, the project that was given
/// or else the current directory, and the target.
pub proof fn law_worker_is_started(
    job: LaunchJob,
    target: Option<TargetView>,
    outcome: Result<String, String>,
)
    ensures
        ({
            let next = launch_next(job, LaunchView::Exe { target }, LaunchEvent::Exe(outcome));
            match outcome {
                Ok(exe) => {
                    let command = command_line(
                        exe@,
                        worker_arguments(
                            job.args,
                            child(
                                job.temp_dir@,
                                "zed-reload-"@ + decimal(job.pid as nat) + "-"@ + decimal(
                                    job.millis as nat,
                                ) + ".msg"@,
                            ),
                            plan_of(
                                job.args,
                                without_comments(text_or_empty(job.settings)),
                                without_comments(text_or_empty(job.keymap)),
                            ),
                            match job.args.project {
                                Some(project) => Some(project@),
                                None => match job.cwd {
                                    Some(cwd) => Some(cwd@),
                                    None => None,
                                },
                            },
                            target,
                        ),
                    );
                    &&& next.0 == (LaunchView::Spawned { target, command, retried: false })
                    &&& next.1 == seq![
                        Action::<Seq<char>, Seq<u16>>::Spawn(command, 0x0900_0208),
                    ]
                },
                Err(e) => next.0 == LaunchView::Done(2) && next.1 == seq![
                    Action::<Seq<char>, Seq<u16>>::Complain("zed-reload: current_exe: "@ + e@),
                ],
            }
        }),
{
    law_worker_flags();
}

/// The flags of the worker: detached, without a window and leading a group; on the
/// first try also out of the parent's job.
pub proof fn law_worker_flags()
    ensures
        worker_flags(true) == 0x0900_0208,
        worker_flags(false) == 0x0800_0208,
{
    assert(0x8u32 | 0x800_0000u32 | 0x200u32 | 0x100_0000u32 == 0x0900_0208u32) by (bit_vector);
    assert(0x8u32 | 0x800_0000u32 | 0x200u32 == 0x0800_0208u32) by (bit_vector);
}

/// A worker that could not be started in either way ends the launch with a
/// complaint that gives the reason; one that runs ends it with a report.
pub proof fn law_end_of_a_launch(
    job: LaunchJob,
    target: Option<TargetView>,
    command: Seq<char>,
    retried: bool,
    outcome: Result<u32, String>,
)
    ensures
        ({
            let next = launch_next(
                job,
                LaunchView::Spawned { target, command, retried },
                LaunchEvent::Spawned(outcome),
            );
            match outcome {
                Ok(pid) => next == (LaunchView::Done(0), launch_report(job, target, pid)),
                Err(e) => if retried {
                    next == (
                        LaunchView::Done(1),
                        seq![
                            Action::<Seq<char>, Seq<u16>>::Complain(
                                "zed-reload: LAUNCH FAILED: "@ + e@,
                            ),
                        ],
                    )
                } else {
                    next == (
                        LaunchView::Spawned { target, command, retried: true },
                        seq![Action::<Seq<char>, Seq<u16>>::Spawn(command, 0x0800_0208)],
                    )
                },
            }
        }),
{
    law_worker_flags();
}

/// The report on a launch prints the worker with its times, the plan, the
/// project, the target and the log file, and does nothing else.
pub proof fn law_launch_report(job: LaunchJob, target: Option<TargetView>, pid: u32)
    ensures
        ({
            let plan = launch_plan(job);
            launch_report(job, target, pid) == seq![
                Action::<Seq<char>, Seq<u16>>::Print(
                    "zed-reload: detached worker pid="@ + decimal(pid as nat) + "  (wait="@
                        + decimal(job.args.wait as nat) + "s, settle="@ + decimal(
                        job.args.settle as nat,
                    ) + "s, heads-up="@ + decimal(job.args.heads_up as nat) + "s)"@,
                ),
                Action::Print("zed-reload: mode      -> "@ + mode_name(plan.mode)),
                Action::Print(
                    "zed-reload: send key  -> "@ + if plan.ctrl_enter {
                        "ctrl+enter"@
                    } else {
                        "enter"@
                    },
                ),
                Action::Print("zed-reload: toggle    -> "@ + plan.toggle),
                Action::Print("zed-reload: paste     -> "@ + plan.paste),
                Action::Print(
                    match launch_project(job) {
                        Some(project) => "zed-reload: project -> "@ + project,
                        None => "zed-reload: project -> (session restore)"@,
                    },
                ),
            ] + (match target {
                Some(target) => seq![
                    Action::<Seq<char>, Seq<u16>>::Print("zed-reload: zed exe  -> "@ + target.exe),
                    Action::Print(
                        match target.pid {
                            Some(pid) => "zed-reload: target   -> pid "@ + decimal(pid as nat),
                            None => "zed-reload: target   -> (none — start only)"@,
                        },
                    ),
                ],
                None => seq![
                    Action::<Seq<char>, Seq<u16>>::Print(
                        "zed-reload: zed exe  -> (on-disk search)"@,
                    ),
                ],
            }) + seq![
                Action::<Seq<char>, Seq<u16>>::Print(
                    "zed-reload: log -> "@ + log_path(some_text(job.exe_dir)),
                ),
            ]
        }),
{
}

/// An event that a launch does not wait for changes nothing.
pub proof fn law_launch_waits_for_its_event(job: LaunchJob, state: LaunchView, event: LaunchEvent)
    requires
        state is Target ==> !(event is Processes),
        state is Written ==> !(event is Written),
        state is Exe ==> !(event is Exe),
        state is Spawned ==> !(event is Spawned),
    ensures
        launch_next(job, state, event) == (state, Seq::<StepView>::empty()),
{
}

} // verus!
