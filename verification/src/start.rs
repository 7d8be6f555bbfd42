//! Starting Zed through `explorer.exe`, so that its parent is the desktop
//! shell.
//!
//! Explorer takes a single argument. A project is therefore carried in a
//! temporary shortcut, which holds the executable, its arguments and the
//! working directory.
use vstd::prelude::*;

use crate::action::{effects, entries, no_steps, push_step, steps_view, Action, Step, StepView};
use crate::codes::{creation_flags, creation_values};
use crate::command::{escape, escaped, lemma_read_quoted, read_argument, read_arguments};
use crate::text::{chars_of, decimal, owned, push_decimal, same_text, some_text, starts_with, texts};
use crate::winpath::{child, child_path};

verus! {

/// What to start.
#[derive(Debug, PartialEq, Eq)]
pub struct StartJob {
    /// The executable.
    pub exe: String,
    /// The project to open; without one Zed restores its last session.
    pub project: Option<String>,
    /// The directory for temporary files.
    pub temp_dir: String,
    /// The PID of this process.
    pub pid: u32,
}

/// What to start, as contracts speak of it.
pub ghost struct StartJobView {
    pub exe: Seq<char>,
    pub project: Option<Seq<char>>,
    pub temp_dir: Seq<char>,
    pub pid: u32,
}

impl View for StartJob {
    type V = StartJobView;

    open spec fn view(&self) -> StartJobView {
        StartJobView {
            exe: self.exe@,
            project: some_text(self.project),
            temp_dir: self.temp_dir@,
            pid: self.pid,
        }
    }
}

/// How far a start has come.
#[derive(Debug, PartialEq, Eq)]
pub enum Start {
    /// Waits for the names of the files in the temporary directory.
    Begin,
    /// Waits for the outcome of writing the shortcut.
    Shortcut,
    /// Waits for the outcome of starting explorer; holds the shortcut's path,
    /// if there is one.
    Spawned(Option<String>),
    /// Over: the shortcut to remove later, or what went wrong.
    Done(Result<Option<String>, String>),
}

/// What a start learns.
#[derive(Debug, PartialEq, Eq)]
pub enum StartEvent {
    /// The names of the files in the temporary directory; none where they
    /// cannot be read.
    Files(Vec<String>),
    /// The outcome of writing the shortcut.
    Shortcut(Result<(), String>),
    /// The outcome of starting explorer.
    Spawned(Result<u32, String>),
}

/// How far a start has come, as contracts speak of it.
pub ghost enum StartView {
    Begin,
    Shortcut,
    Spawned(Option<Seq<char>>),
    Done(Result<Option<Seq<char>>, Seq<char>>),
}

impl View for Start {
    type V = StartView;

    open spec fn view(&self) -> StartView {
        match self {
            Start::Begin => StartView::Begin,
            Start::Shortcut => StartView::Shortcut,
            Start::Spawned(lnk) => StartView::Spawned(some_text(*lnk)),
            Start::Done(Ok(lnk)) => StartView::Done(Ok(some_text(*lnk))),
            Start::Done(Err(e)) => StartView::Done(Err(e@)),
        }
    }
}

/// A file name as the shortcuts have it.
pub open spec fn is_shortcut_name(name: Seq<char>) -> bool {
    "zed-reload-"@.is_prefix_of(name) && ".lnk"@.is_suffix_of(name)
}

/// Whether a file in the temporary directory is a shortcut that a run has left
/// behind.
pub fn names_shortcut(name: &str) -> (b: bool)
    ensures
        b == is_shortcut_name(name@),
{
    let chars = chars_of(name);
    let head = chars_of("zed-reload-");
    let tail = chars_of(".lnk");
    if !starts_with(&chars, &head) || chars.len() < tail.len() {
        return false;
    }
    let from: usize = chars.len() - tail.len();
    let end = vstd::slice::slice_subrange(&chars, from, chars.len());
    same_text(end, &tail)
}

/// The file name of the shortcut of the process `pid`.
pub open spec fn shortcut_name(pid: u32) -> Seq<char> {
    "zed-reload-"@ + decimal(pid as nat) + ".lnk"@
}

/// The path of the shortcut.
pub open spec fn shortcut_path(job: StartJobView) -> Seq<char> {
    child(job.temp_dir, shortcut_name(job.pid))
}

fn make_shortcut_path(job: &StartJob) -> (path: String)
    ensures
        path@ == shortcut_path(job@),
{
    let mut name = owned("zed-reload-");
    push_decimal(&mut name, job.pid as u128);
    name.append(".lnk");
    child_path(job.temp_dir.as_str(), name.as_str())
}

/// `s` in double quotes.
pub open spec fn in_quotes(s: Seq<char>) -> Seq<char> {
    "\""@ + s + "\""@
}

/// The command line that has explorer open a file.
pub open spec fn explorer_line(path: Seq<char>) -> Seq<char> {
    "explorer.exe "@ + in_quotes(path)
}

fn make_explorer_line(path: &str) -> (line: String)
    ensures
        line@ == explorer_line(path@),
{
    let mut line = owned("explorer.exe ");
    let mut quoted = owned("\"");
    quoted.append(path);
    quoted.append("\"");
    line.append(quoted.as_str());
    line
}

/// Every left-over shortcut among these files is removed.
pub open spec fn cleanup(temp_dir: Seq<char>, files: Seq<Seq<char>>) -> Seq<StepView>
    decreases files.len(),
{
    if files.len() == 0 {
        Seq::empty()
    } else {
        let before = cleanup(temp_dir, files.drop_last());
        if is_shortcut_name(files.last()) {
            before.push(Action::RemoveFile(child(temp_dir, files.last())))
        } else {
            before
        }
    }
}

/// What follows on an event; one that the state does not wait for changes
/// nothing.
pub open spec fn start_next(job: StartJobView, state: StartView, event: StartEvent) -> (
    StartView,
    Seq<StepView>,
) {
    let flags = creation_values().new_group;
    match (state, event) {
        (StartView::Begin, StartEvent::Files(files)) => match job.project {
            Some(project) => (
                StartView::Shortcut,
                cleanup(job.temp_dir, texts(files@)).push(
                    Action::WriteShortcut(
                        job.exe,
                        in_quotes(escaped(project)),
                        project,
                        shortcut_path(job),
                    ),
                ),
            ),
            None => (
                StartView::Spawned(None),
                seq![
                    Action::Info(
                        "starting "@ + job.exe + " via explorer.exe (bare, session restore)"@,
                    ),
                    Action::Spawn(explorer_line(job.exe), flags),
                ],
            ),
        },
        (StartView::Shortcut, StartEvent::Shortcut(Ok(_))) => match job.project {
            Some(project) => (
                StartView::Spawned(Some(shortcut_path(job))),
                seq![
                    Action::Info(
                        "starting "@ + job.exe + " via explorer shortcut project='"@ + project
                            + "'"@,
                    ),
                    Action::Spawn(explorer_line(shortcut_path(job)), flags),
                ],
            ),
            None => (state, Seq::empty()),
        },
        (StartView::Shortcut, StartEvent::Shortcut(Err(e))) => (
            StartView::Done(Err(e@)),
            seq![Action::RemoveFile(shortcut_path(job))],
        ),
        (StartView::Spawned(lnk), StartEvent::Spawned(Ok(_))) => (
            StartView::Done(Ok(lnk)),
            Seq::empty(),
        ),
        (StartView::Spawned(_), StartEvent::Spawned(Err(e))) => (
            StartView::Done(Err(e@)),
            Seq::empty(),
        ),
        _ => (state, Seq::empty()),
    }
}

fn push_cleanup(steps: &mut Vec<Step>, temp_dir: &str, files: &Vec<String>)
    ensures
        steps_view(final(steps)@) == steps_view(old(steps)@) + cleanup(temp_dir@, texts(files@)),
{
    let ghost all = texts(files@);
    let ghost before = steps_view(steps@);
    assert(before + Seq::<StepView>::empty() == before);
    for i in 0..files.len()
        invariant
            all == texts(files@),
            before == steps_view(old(steps)@),
            steps_view(steps@) == before + cleanup(temp_dir@, all.take(i as int)),
    {
        let ghost head = all.take(i + 1);
        assert(head.drop_last() == all.take(i as int));
        assert(head.last() == files@[i as int]@);
        if names_shortcut(files[i].as_str()) {
            push_step(steps, Action::RemoveFile(child_path(temp_dir, files[i].as_str())));
        }
        assert(steps_view(steps@) == before + cleanup(temp_dir@, head));
    }
    assert(all.take(files@.len() as int) == all);
}

/// Starts Zed through `explorer.exe`: one step.
///
/// The end holds the path of the temporary shortcut, if one was used; it is to
/// be removed once the start has been confirmed.
pub fn start(job: &StartJob, state: Start, event: StartEvent) -> (r: (Start, Vec<Step>))
    ensures
        (r.0@, steps_view(r.1@)) == start_next(job@, state@, event),
{
    let mut steps = no_steps();
    let ghost none = Seq::<StepView>::empty();
    match (state, event) {
        (Start::Begin, StartEvent::Files(files)) => match &job.project {
            Some(project) => {
                push_cleanup(&mut steps, job.temp_dir.as_str(), &files);
                assert(none + cleanup(job.temp_dir@, texts(files@)) == cleanup(
                    job.temp_dir@,
                    texts(files@),
                ));
                let value = escape(project.as_str());
                let mut quoted = owned("\"");
                quoted.append(value.as_str());
                quoted.append("\"");
                push_step(
                    &mut steps,
                    Action::WriteShortcut(
                        job.exe.clone(),
                        quoted,
                        project.clone(),
                        make_shortcut_path(job),
                    ),
                );
                (Start::Shortcut, steps)
            },
            None => {
                let mut entry = owned("starting ");
                entry.append(job.exe.as_str());
                entry.append(" via explorer.exe (bare, session restore)");
                push_step(&mut steps, Action::Info(entry));
                push_step(
                    &mut steps,
                    Action::Spawn(
                        make_explorer_line(job.exe.as_str()),
                        creation_flags().new_group,
                    ),
                );
                (Start::Spawned(None), steps)
            },
        },
        (Start::Shortcut, StartEvent::Shortcut(Ok(_))) => match &job.project {
            Some(project) => {
                let mut entry = owned("starting ");
                entry.append(job.exe.as_str());
                entry.append(" via explorer shortcut project='");
                entry.append(project.as_str());
                entry.append("'");
                push_step(&mut steps, Action::Info(entry));
                let lnk = make_shortcut_path(job);
                push_step(
                    &mut steps,
                    Action::Spawn(make_explorer_line(lnk.as_str()), creation_flags().new_group),
                );
                (Start::Spawned(Some(lnk)), steps)
            },
            None => (Start::Shortcut, steps),
        },
        (Start::Shortcut, StartEvent::Shortcut(Err(e))) => {
            push_step(&mut steps, Action::RemoveFile(make_shortcut_path(job)));
            (Start::Done(Err(e)), steps)
        },
        (Start::Spawned(lnk), StartEvent::Spawned(Ok(_))) => (Start::Done(Ok(lnk)), steps),
        (Start::Spawned(_), StartEvent::Spawned(Err(e))) => (Start::Done(Err(e)), steps),
        (state, _) => (state, steps),
    }
}

// ---------------------------------------------------------------------------
// laws
// ---------------------------------------------------------------------------

/// Zed reads the project from the arguments of the shortcut as it was given.
pub proof fn law_shortcut_carries_the_project(project: Seq<char>)
    ensures
        read_arguments(in_quotes(escaped(project))) == seq![project],
{
    let s = in_quotes(escaped(project));
    let none = Seq::<char>::empty();
    reveal_strlit("\"");
    assert("\""@ == seq!['"']);
    lemma_read_quoted(project, none);
    assert(s[0] == '"');
    assert(s.skip(1) == escaped(project) + seq!['"'] + none);
    assert(read_argument(s, false) == (project, none));
    assert(read_arguments(none) == Seq::<Seq<char>>::empty());
    assert(seq![project] + read_arguments(none) == seq![project]);
}

/// A shortcut that a run leaves behind is found by the next one.
pub proof fn law_own_shortcut_is_recognised(pid: u32)
    ensures
        is_shortcut_name(shortcut_name(pid)),
{
    let name = shortcut_name(pid);
    let head = "zed-reload-"@;
    let tail = ".lnk"@;
    assert(name.take(head.len() as int) == head);
    assert(name.subrange(name.len() - tail.len(), name.len() as int) == tail);
}

/// Exactly the left-over shortcuts are removed: each of them, and no other file.
pub proof fn law_cleanup_removes_shortcuts_only(
    temp_dir: Seq<char>,
    files: Seq<Seq<char>>,
    step: StepView,
)
    ensures
        cleanup(temp_dir, files).contains(step) <==> exists|i: int|
            0 <= i < files.len() && is_shortcut_name(#[trigger] files[i]) && step == Action::<
                Seq<char>,
                Seq<u16>,
            >::RemoveFile(child(temp_dir, files[i])),
    decreases files.len(),
{
    let steps = cleanup(temp_dir, files);
    if files.len() > 0 {
        let head = files.drop_last();
        let before = cleanup(temp_dir, head);
        law_cleanup_removes_shortcuts_only(temp_dir, head, step);
        if steps.contains(step) {
            let k = choose|k: int| 0 <= k < steps.len() && steps[k] == step;
            if k < before.len() {
                assert(before[k] == step);
                assert(before.contains(step));
                let i = choose|i: int|
                    0 <= i < head.len() && is_shortcut_name(#[trigger] head[i]) && step == Action::<
                        Seq<char>,
                        Seq<u16>,
                    >::RemoveFile(child(temp_dir, head[i]));
                assert(files[i] == head[i]);
            } else {
                assert(is_shortcut_name(files[files.len() - 1]));
            }
        }
        if exists|i: int|
            0 <= i < files.len() && is_shortcut_name(#[trigger] files[i]) && step == Action::<
                Seq<char>,
                Seq<u16>,
            >::RemoveFile(child(temp_dir, files[i])) {
            let i = choose|i: int|
                0 <= i < files.len() && is_shortcut_name(#[trigger] files[i]) && step == Action::<
                    Seq<char>,
                    Seq<u16>,
                >::RemoveFile(child(temp_dir, files[i]));
            if i < head.len() {
                assert(head[i] == files[i]);
                assert(before.contains(step));
                let k = choose|k: int| 0 <= k < before.len() && before[k] == step;
                assert(steps[k] == step);
            } else {
                assert(steps[before.len() as int] == step);
            }
        }
    }
}

/// A start from its beginning over all events: where it stands, and what was
/// done.
pub open spec fn start_run(job: StartJobView, events: Seq<StartEvent>) -> (StartView, Seq<StepView>)
    decreases events.len(),
{
    if events.len() == 0 {
        (StartView::Begin, Seq::empty())
    } else {
        let before = start_run(job, events.drop_last());
        let next = start_next(job, before.0, events.last());
        (next.0, before.1 + next.1)
    }
}

/// What explorer is told to open: the shortcut, which carries the project; else
/// the executable.
pub open spec fn opened_path(job: StartJobView) -> Seq<char> {
    match job.project {
        Some(_) => shortcut_path(job),
        None => job.exe,
    }
}

proof fn lemma_start_run(job: StartJobView, events: Seq<StartEvent>)
    ensures
        ({
            let run = start_run(job, events);
            let spawn = Action::<Seq<char>, Seq<u16>>::Spawn(
                explorer_line(opened_path(job)),
                creation_values().new_group,
            );
            let lnk = match job.project {
                Some(_) => Some(shortcut_path(job)),
                None => None,
            };
            match run.0 {
                StartView::Begin => run.1.len() == 0,
                StartView::Shortcut => job.project is Some && !run.1.contains(spawn),
                StartView::Spawned(held) => held == lnk && run.1.len() > 0 && run.1.last() == spawn,
                StartView::Done(Ok(held)) => held == lnk && run.1.len() > 0 && run.1.last()
                    == spawn,
                StartView::Done(Err(_)) => true,
            }
        }),
    decreases events.len(),
{
    if events.len() > 0 {
        let head = events.drop_last();
        let before = start_run(job, head);
        let next = start_next(job, before.0, events.last());
        lemma_start_run(job, head);
        let all = before.1 + next.1;
        let spawn = Action::<Seq<char>, Seq<u16>>::Spawn(
            explorer_line(opened_path(job)),
            creation_values().new_group,
        );
        if next.1.len() == 0 {
            assert(all == before.1);
        }
        if next.0 is Shortcut && all.contains(spawn) {
            let k = choose|k: int| 0 <= k < all.len() && all[k] == spawn;
            if k < before.1.len() {
                assert(before.1[k] == spawn);
                assert(before.1.contains(spawn));
            } else if before.0 is Begin {
                let files = texts(events.last()->Files_0@);
                let i = k - before.1.len();
                let removals = cleanup(job.temp_dir, files);
                if i < removals.len() {
                    assert(removals[i] == spawn);
                    assert(removals.contains(spawn));
                    law_cleanup_removes_shortcuts_only(job.temp_dir, files, spawn);
                }
            }
        }
    }
}

/// A start that went well had explorer open the shortcut with the project, or
/// the executable itself where there is no project; the shortcut is handed on
/// to be removed.
pub proof fn law_start_opens_the_project(job: StartJobView, events: Seq<StartEvent>)
    requires
        start_run(job, events).0 matches StartView::Done(Ok(_)),
    ensures
        start_run(job, events).1.last() == Action::<Seq<char>, Seq<u16>>::Spawn(
            explorer_line(opened_path(job)),
            creation_values().new_group,
        ),
        start_run(job, events).0 == StartView::Done(
            Ok(
                match job.project {
                    Some(_) => Some(shortcut_path(job)),
                    None => None,
                },
            ),
        ),
{
    lemma_start_run(job, events);
}

/// A start removes and writes shortcuts, logs and spawns, and does nothing else.
pub(crate) proof fn lemma_start_steps(
    job: StartJobView,
    state: StartView,
    event: StartEvent,
    i: int,
)
    requires
        0 <= i < start_next(job, state, event).1.len(),
    ensures
        match start_next(job, state, event).1[i] {
            Action::RemoveFile(_) => true,
            Action::WriteShortcut(_, _, _, _) => true,
            Action::Info(_) => true,
            Action::Spawn(_, _) => true,
            _ => false,
        },
{
    if let StartView::Begin = state {
        if let StartEvent::Files(files) = event {
            let removals = cleanup(job.temp_dir, texts(files@));
            if job.project is Some && i < removals.len() {
                assert(removals.contains(removals[i]));
                law_cleanup_removes_shortcuts_only(job.temp_dir, texts(files@), removals[i]);
            }
        }
    }
}

/// A start with a project writes one shortcut, to the path that its process has
/// for it, after the left-over ones were removed. The shortcut has the
/// executable for its target and the project for its working directory, and
/// its arguments are the project alone.
pub proof fn law_project_goes_into_the_shortcut(
    job: StartJobView,
    project: Seq<char>,
    files: Vec<String>,
)
    requires
        job.project == Some(project),
    ensures
        ({
            let next = start_next(job, StartView::Begin, StartEvent::Files(files));
            &&& next.0 is Shortcut
            &&& next.1.drop_last() == cleanup(job.temp_dir, texts(files@))
            &&& next.1.last() matches Action::WriteShortcut(target, arguments, dir, path)
                && target == job.exe && read_arguments(arguments) == seq![project] && dir
                == project && path == child(
                job.temp_dir,
                "zed-reload-"@ + decimal(job.pid as nat) + ".lnk"@,
            )
        }),
{
    law_shortcut_carries_the_project(project);
    let next = start_next(job, StartView::Begin, StartEvent::Files(files));
    assert(next.1.drop_last() == cleanup(job.temp_dir, texts(files@)));
}

/// A start without a project has explorer open the executable, at once and with
/// nothing else done; there is no shortcut to remove later.
pub proof fn law_bare_start_opens_the_executable(job: StartJobView, files: Vec<String>)
    requires
        job.project is None,
    ensures
        ({
            let next = start_next(job, StartView::Begin, StartEvent::Files(files));
            &&& next.0 == StartView::Spawned(None)
            &&& effects(next.1) == seq![
                Action::<Seq<char>, Seq<u16>>::Spawn(
                    "explorer.exe "@ + "\""@ + job.exe + "\""@,
                    0x0200,
                ),
            ]
        }),
{
    reveal_with_fuel(effects, 3);
    assert("explorer.exe "@ + ("\""@ + job.exe + "\""@) == "explorer.exe "@ + "\""@ + job.exe
        + "\""@);
}

/// Once the shortcut is written explorer opens it, and it is held for removal;
/// one that could not be written is removed at once, and the start fails with
/// that error.
pub proof fn law_shortcut_is_opened_or_removed(
    job: StartJobView,
    project: Seq<char>,
    outcome: Result<(), String>,
)
    requires
        job.project == Some(project),
    ensures
        ({
            let next = start_next(job, StartView::Shortcut, StartEvent::Shortcut(outcome));
            let path = child(job.temp_dir, "zed-reload-"@ + decimal(job.pid as nat) + ".lnk"@);
            match outcome {
                Ok(_) => next.0 == StartView::Spawned(Some(path)) && effects(next.1) == seq![
                    Action::<Seq<char>, Seq<u16>>::Spawn(
                        "explorer.exe "@ + "\""@ + path + "\""@,
                        0x0200,
                    ),
                ],
                Err(e) => next.0 == StartView::Done(Err(e@)) && effects(next.1) == seq![
                    Action::<Seq<char>, Seq<u16>>::RemoveFile(path),
                ],
            }
        }),
{
    reveal_with_fuel(effects, 3);
    let path = child(job.temp_dir, "zed-reload-"@ + decimal(job.pid as nat) + ".lnk"@);
    assert("explorer.exe "@ + ("\""@ + path + "\""@) == "explorer.exe "@ + "\""@ + path + "\""@);
}

/// A start ends as explorer's does: well with the shortcut that it holds, or
/// with explorer's error. Nothing more is done.
pub proof fn law_start_ends_as_explorer_does(
    job: StartJobView,
    held: Option<Seq<char>>,
    outcome: Result<u32, String>,
)
    ensures
        start_next(job, StartView::Spawned(held), StartEvent::Spawned(outcome)) == (
            match outcome {
                Ok(_) => StartView::Done(Ok(held)),
                Err(e) => StartView::Done(Err(e@)),
            },
            Seq::<StepView>::empty(),
        ),
{
}

/// A left-over shortcut is any file whose name begins and ends as those of the
/// shortcuts do, whatever stands between.
pub proof fn law_shortcut_names(name: Seq<char>)
    ensures
        is_shortcut_name(name) <==> exists|middle: Seq<char>|
            name == #[trigger] ("zed-reload-"@ + middle + ".lnk"@),
{
    let head = "zed-reload-"@;
    let tail = ".lnk"@;
    reveal_strlit("zed-reload-");
    reveal_strlit(".lnk");
    if is_shortcut_name(name) {
        assert(name.take(11) == head);
        assert(name.skip(name.len() - 4) == tail);
        if name.len() < 15 {
            assert(tail[0] == name[name.len() - 4]);
            assert(tail[1] == name[name.len() - 3]);
            assert(tail[2] == name[name.len() - 2]);
            assert(tail[3] == name[name.len() - 1]);
            assert forall|i: int| 0 <= i < 11 implies #[trigger] head[i] == name[i] by {
                assert(name.take(11)[i] == name[i]);
            }
            assert(head[name.len() - 4] == '.');
            assert(false);
        }
        let middle = name.subrange(11, name.len() - 4);
        assert(name == head + middle + tail);
    }
    if exists|middle: Seq<char>| name == #[trigger] (head + middle + tail) {
        let middle = choose|middle: Seq<char>| name == #[trigger] (head + middle + tail);
        assert(name.take(11) == head);
        assert(name.skip(name.len() - 4) == tail);
    }
}

/// A start logs what is started and how: the executable alone, or with the
/// project that the shortcut carries.
pub proof fn law_start_is_logged(job: StartJobView, files: Vec<String>)
    ensures
        job.project is None ==> entries(
            start_next(job, StartView::Begin, StartEvent::Files(files)).1,
        ) == seq!["starting "@ + job.exe + " via explorer.exe (bare, session restore)"@],
        job.project matches Some(project) ==> entries(
            start_next(job, StartView::Shortcut, StartEvent::Shortcut(Ok(()))).1,
        ) == seq!["starting "@ + job.exe + " via explorer shortcut project='"@ + project + "'"@],
{
    reveal_with_fuel(entries, 3);
}

/// An event that a start does not wait for changes nothing.
pub proof fn law_start_waits_for_its_event(job: StartJobView, state: StartView, event: StartEvent)
    requires
        state is Begin ==> !(event is Files),
        state is Shortcut ==> !(event is Shortcut),
        state is Spawned ==> !(event is Spawned),
    ensures
        start_next(job, state, event) == (state, Seq::<StepView>::empty()),
{
}

/// What a start works on is what its job holds, and its end is what its state
/// holds.
pub proof fn law_job_of_a_start(job: StartJob, state: Start)
    ensures
        job@.exe == job.exe@,
        job.project matches Some(project) ==> job@.project == Some(project@),
        job.project is None ==> job@.project is None,
        job@.temp_dir == job.temp_dir@,
        job@.pid == job.pid,
        state matches Start::Done(Ok(Some(lnk))) ==> state@ == StartView::Done(Ok(Some(lnk@))),
        state matches Start::Done(Ok(None)) ==> state@ == StartView::Done(Ok(None)),
        state matches Start::Done(Err(e)) ==> state@ == StartView::Done(Err(e@)),
{
}

} // verus!
