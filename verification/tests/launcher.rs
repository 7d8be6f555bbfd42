use windows_sys::Win32::System::Threading::{
    CREATE_BREAKAWAY_FROM_JOB, CREATE_NEW_PROCESS_GROUP, CREATE_NO_WINDOW, DETACHED_PROCESS,
};
use zed_reload::action::{Action, Step};
use zed_reload::args::{Args, InjectPlan};
use zed_reload::command::{escape, worker_command};
use zed_reload::config::EditorMode;
use zed_reload::launcher::{run_launcher, Launch, LaunchEvent, LaunchJob};
use zed_reload::process::{ProcessInfo, Target};

fn job(args: Args) -> LaunchJob {
    LaunchJob {
        args,
        temp_dir: "C:\\temp".into(),
        cwd: Some("D:\\work".into()),
        pid: 30,
        millis: 1700000000123,
        appdata: None,
        settings: Some("\"vim_mode\": true".into()),
        keymap: None,
        exe_dir: Some("C:\\bin".into()),
    }
}

fn zed(pid: u32) -> ProcessInfo {
    ProcessInfo {
        pid,
        parent: 1,
        name: "zed.exe".into(),
        path: Some("C:\\Zed\\zed.exe".into()),
        started: None,
    }
}

fn run(job: &LaunchJob, events: Vec<LaunchEvent>) -> (Launch, Vec<Step>) {
    let mut state = Launch::Target;
    let mut all = Vec::new();
    for event in events {
        let (next, steps) = run_launcher(job, state, event);
        state = next;
        all.extend(steps);
    }
    (state, all)
}

const COMMAND: &str = "\"C:\\bin\\zed-reload.exe\" --worker \
    --message-file \"C:\\temp\\zed-reload-30-1700000000123.msg\" \
    --wait 26 --settle 10 --grace 20 --window-timeout 16 --heads-up 2 \
    --mode vim --toggle-keys \"ctrl-shift-/\" --paste-keys \"shift-insert\" --send-enter \
    --project \"D:\\work\" --zed-path \"C:\\Zed\\zed.exe\" --zed-pid 20";

const FLAGS: u32 = DETACHED_PROCESS | CREATE_NO_WINDOW | CREATE_NEW_PROCESS_GROUP;

#[test]
fn a_launch_from_start_to_end() {
    let job = job(Args { message: vec!["go".into(), "on".into()], ..Args::default() });
    let (state, steps) = run(
        &job,
        vec![
            LaunchEvent::Processes(vec![zed(20)]),
            LaunchEvent::Written(Ok(())),
            LaunchEvent::Exe(Ok("C:\\bin\\zed-reload.exe".into())),
            LaunchEvent::Spawned(Ok(99)),
        ],
    );
    assert_eq!(state, Launch::Done(0));
    assert_eq!(
        steps,
        vec![
            Action::WriteFile("C:\\temp\\zed-reload-30-1700000000123.msg".into(), "go on".into()),
            Action::Spawn(COMMAND.into(), FLAGS | CREATE_BREAKAWAY_FROM_JOB),
            Action::Print(
                "zed-reload: detached worker pid=99  (wait=26s, settle=10s, heads-up=2s)".into()
            ),
            Action::Print("zed-reload: mode      -> vim".into()),
            Action::Print("zed-reload: send key  -> enter".into()),
            Action::Print("zed-reload: toggle    -> ctrl-shift-/".into()),
            Action::Print("zed-reload: paste     -> shift-insert".into()),
            Action::Print("zed-reload: project -> D:\\work".into()),
            Action::Print("zed-reload: zed exe  -> C:\\Zed\\zed.exe".into()),
            Action::Print("zed-reload: target   -> pid 20".into()),
            Action::Print("zed-reload: log -> C:\\bin\\zed-reload.log".into()),
        ]
    );
}

#[test]
fn a_job_that_forbids_breakaway_is_taken_into_account() {
    let job = job(Args::default());
    let events = || {
        vec![
            LaunchEvent::Processes(vec![zed(20)]),
            LaunchEvent::Written(Ok(())),
            LaunchEvent::Exe(Ok("C:\\bin\\zed-reload.exe".into())),
            LaunchEvent::Spawned(Err("CreateProcessW failed, GLE=5".into())),
        ]
    };
    let (state, steps) = run(&job, events());
    assert!(matches!(state, Launch::Spawned { retried: true, .. }));
    assert_eq!(steps.last(), Some(&Action::Spawn(COMMAND.into(), FLAGS)));

    let mut all = events();
    all.push(LaunchEvent::Spawned(Err("CreateProcessW failed, GLE=6".into())));
    let (state, steps) = run(&job, all);
    assert_eq!(state, Launch::Done(1));
    assert_eq!(
        steps.last(),
        Some(&Action::Complain("zed-reload: LAUNCH FAILED: CreateProcessW failed, GLE=6".into()))
    );
}

#[test]
fn failures_before_the_start_are_complained_about() {
    let (state, steps) =
        run(&job(Args { zed_pid: Some(9), ..Args::default() }), vec![LaunchEvent::Processes(vec![])]);
    assert_eq!(state, Launch::Done(2));
    assert_eq!(
        steps,
        vec![Action::Complain("zed-reload: cannot query exe path of pid 9".into())]
    );

    let (state, steps) = run(
        &job(Args::default()),
        vec![LaunchEvent::Processes(vec![]), LaunchEvent::Written(Err("disk full".into()))],
    );
    assert_eq!(state, Launch::Done(2));
    assert_eq!(
        steps.last(),
        Some(&Action::Complain(
            "zed-reload: cannot write C:\\temp\\zed-reload-30-1700000000123.msg: disk full".into()
        ))
    );

    let (state, steps) = run(
        &job(Args::default()),
        vec![
            LaunchEvent::Processes(vec![]),
            LaunchEvent::Written(Ok(())),
            LaunchEvent::Exe(Err("gone".into())),
        ],
    );
    assert_eq!(state, Launch::Done(2));
    assert_eq!(
        steps.last(),
        Some(&Action::Complain("zed-reload: current_exe: gone".into()))
    );
}

#[test]
fn a_report_without_target_or_project() {
    let mut job = job(Args::default());
    job.cwd = None;
    job.exe_dir = None;
    let spawned = |target| Launch::Spawned { target, command: "".into(), retried: true };
    let (_, steps) = run_launcher(&job, spawned(None), LaunchEvent::Spawned(Ok(1)));
    assert_eq!(
        steps[5..],
        [
            Action::Print("zed-reload: project -> (session restore)".into()),
            Action::Print("zed-reload: zed exe  -> (on-disk search)".into()),
            Action::Print("zed-reload: log -> .\\zed-reload.log".into()),
        ]
    );
    let target = Some(Target { exe: "x.exe".into(), pid: None });
    let (_, steps) = run_launcher(&job, spawned(target), LaunchEvent::Spawned(Ok(1)));
    assert_eq!(
        steps[6..8],
        [
            Action::Print("zed-reload: zed exe  -> x.exe".into()),
            Action::Print("zed-reload: target   -> (none — start only)".into()),
        ]
    );
}

#[test]
fn events_out_of_turn_change_nothing() {
    let (state, steps) =
        run(&job(Args::default()), vec![LaunchEvent::Spawned(Ok(1)), LaunchEvent::Written(Ok(()))]);
    assert_eq!((state, steps), (Launch::Target, vec![]));
}

#[test]
fn the_command_line_of_the_worker() {
    let args = Args {
        wait: 1,
        settle: 2,
        grace: 3,
        window_timeout: 4,
        heads_up: 5,
        window_title: Some("my title".into()),
        zed_path: Some("D:\\zed.exe".into()),
        ..Args::default()
    };
    let plan = InjectPlan {
        mode: EditorMode::Helix,
        ctrl_enter: true,
        toggle_binding: "f1".into(),
        paste_binding: "f2".into(),
    };
    let front = "\"z.exe\" --worker --message-file \"m.msg\" --wait 1 --settle 2 --grace 3 \
                 --window-timeout 4 --heads-up 5 --mode helix --toggle-keys \"f1\" \
                 --paste-keys \"f2\" --send-ctrl-enter";
    // An executable that was given is handed over, also when nothing runs.
    assert_eq!(
        worker_command("z.exe", &args, "m.msg", &plan, &None, &None),
        format!("{front} --window-title \"my title\" --zed-path \"D:\\zed.exe\"")
    );
    let target = Some(Target { exe: "C:\\zed.exe".into(), pid: None });
    assert_eq!(
        worker_command("z.exe", &args, "m.msg", &plan, &Some("P".into()), &target),
        format!("{front} --project \"P\" --window-title \"my title\" --zed-path \"C:\\zed.exe\"")
    );
}

#[test]
fn values_are_escaped_for_windows() {
    let plan = || InjectPlan {
        mode: EditorMode::Normal,
        ctrl_enter: false,
        toggle_binding: "ctrl-\\".into(),
        paste_binding: "f2".into(),
    };
    let line = |project: &str| {
        worker_command("z.exe", &Args::default(), "m", &plan(), &Some(project.into()), &None)
    };
    assert!(line("x").contains(" --toggle-keys \"ctrl-\\\\\" --paste-keys \"f2\" "));
    assert!(line("C:\\").ends_with(" --project \"C:\\\\\""));
    assert!(line("C:\\a b\\c").ends_with(" --project \"C:\\a b\\c\""));
    assert_eq!(escape("a\"b"), "a\\\"b");
    assert_eq!(escape("a\\\"b\\c\\\\"), "a\\\\\\\"b\\c\\\\\\\\");
    assert_eq!(escape(""), "");
}
