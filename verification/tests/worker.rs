use windows_sys::Win32::System::Threading::CREATE_NEW_PROCESS_GROUP;
use windows_sys::Win32::UI::Input::KeyboardAndMouse::{
    VK_LCONTROL, VK_LSHIFT, VK_OEM_2, VK_RETURN,
};
use zed_reload::action::{Action, Step};
use zed_reload::args::Args;
use zed_reload::foreground::Sight;
use zed_reload::inject::{Inject, InjectEvent};
use zed_reload::process::ProcessInfo;
use zed_reload::start::{Start, StartEvent};
use zed_reload::stop::{Stop, StopEvent};
use zed_reload::wait::WindowPoll;
use zed_reload::window::DesktopWindow;
use zed_reload::worker::{run_worker, take_message, Worker, WorkerEvent, WorkerJob};

fn job() -> WorkerJob {
    WorkerJob {
        args: Args {
            project: Some("D:\\work".into()),
            zed_pid: Some(20),
            ..Args::default()
        },
        message: "go on".into(),
        temp_dir: "C:\\temp".into(),
        pid: 40,
    }
}

fn zed(pid: u32, started: u64) -> ProcessInfo {
    ProcessInfo {
        pid,
        parent: 1,
        name: "zed.exe".into(),
        path: Some("C:\\zed.exe".into()),
        started: Some(started),
    }
}

fn shown(hwnd: usize, pid: u32, title: &str) -> DesktopWindow {
    DesktopWindow { hwnd, pid, visible: true, title: title.into(), hung: false }
}

fn run(job: &WorkerJob, events: Vec<WorkerEvent>) -> (Worker, Vec<Step>) {
    let mut state = Worker::Exe;
    let mut all = Vec::new();
    for event in events {
        let (next, steps) = run_worker(job, state, event);
        state = next;
        all.extend(steps);
    }
    (state, all)
}

fn sight(in_front: bool) -> Sight {
    Sight { in_front, minimized: false, front_thread: 5, own_thread: 6 }
}

/// The events up to the wait for the window.
fn restart() -> Vec<WorkerEvent> {
    vec![
        WorkerEvent::Exe(Some("C:\\zed.exe".into())),
        WorkerEvent::Stop(StopEvent::Survey {
            procs: vec![zed(20, 5), zed(21, 6)],
            desktop: vec![shown(1, 20, "work"), shown(2, 21, "work")],
            foreground: 1,
        }),
        WorkerEvent::Stop(StopEvent::Elapsed(0)),
        WorkerEvent::Stop(StopEvent::Processes(vec![zed(21, 6)])),
        WorkerEvent::Time(100),
        WorkerEvent::Start(StartEvent::Files(vec![])),
        WorkerEvent::Start(StartEvent::Shortcut(Ok(()))),
        WorkerEvent::Start(StartEvent::Spawned(Ok(50))),
    ]
}

/// A survivor with the right title, and the new window behind it.
fn look() -> WorkerEvent {
    WorkerEvent::Poll(WindowPoll {
        elapsed: 500_000_000,
        procs: vec![zed(21, 6), zed(60, 101)],
        desktop: vec![shown(2, 21, "work"), shown(7, 60, "work — Zed")],
    })
}

const LNK: &str = "C:\\temp\\zed-reload-40.lnk";

#[test]
fn a_restart_from_start_to_end() {
    let mut events = restart();
    events.push(look());
    events.push(WorkerEvent::Inject(InjectEvent::Notified(Ok(()))));
    events.push(WorkerEvent::Inject(InjectEvent::Sight(sight(true))));
    events.push(WorkerEvent::Inject(InjectEvent::Clipboard(None)));
    events.push(WorkerEvent::Inject(InjectEvent::Placed(Ok(()))));
    let (state, steps) = run(&job(), events);
    assert_eq!(state, Worker::Done(0));
    let expected: Vec<Step> = vec![
        Action::Info("=== start: msgLen=5 wait=26s settle=10s grace=20s heads-up=2s ===".into()),
        Action::Info("mode=normal toggle=ctrl-shift-/ paste=ctrl-v send=enter".into()),
        Action::Pause(26),
        Action::Info("WM_CLOSE pid=20 title='work'".into()),
        Action::Close(1),
        Action::Info("old session focused: true".into()),
        Action::Sleep(500),
        Action::Info("Zed exited gracefully".into()),
        Action::WriteShortcut(
            "C:\\zed.exe".into(),
            "\"D:\\work\"".into(),
            "D:\\work".into(),
            LNK.into(),
        ),
        Action::Info("starting C:\\zed.exe via explorer shortcut project='D:\\work'".into()),
        Action::Spawn(format!("explorer.exe \"{LNK}\""), CREATE_NEW_PROCESS_GROUP),
        Action::Info("waiting for window title containing 'work'".into()),
        Action::Info("window found pid=60 title='work — Zed'; settling 10s".into()),
        Action::Info("old session was focused — leaving window normal".into()),
        Action::Pause(10),
        Action::Notify(
            "zed-reload".into(),
            "About to type into Zed in 2s — stop typing!".into(),
        ),
        Action::Info("heads-up delay: 2s  (stop typing!)".into()),
        Action::Pause(2),
        Action::Info("--- focusing Zed (injecting) ---".into()),
        Action::Info("foreground=true after 0 attempt(s)".into()),
        Action::Sleep(700),
        Action::Info("send key: enter".into()),
        Action::SetClipboard("go on".into()),
        Action::Info("sending agent::ToggleFocus  ([162, 160, 191])".into()),
        Action::SendCombo(vec![VK_LCONTROL, VK_LSHIFT, VK_OEM_2]),
        Action::Sleep(1600),
        Action::Info("sending ctrl+v  (paste)".into()),
        Action::SendCombo(vec![VK_LCONTROL, b'V' as u16]),
        Action::Sleep(900),
        Action::Info("sending enter  (send)".into()),
        Action::SendCombo(vec![VK_RETURN]),
        Action::Info("injected 5 chars".into()),
        Action::RemoveFile(LNK.into()),
        Action::Info("=== done: ok=true ===".into()),
    ];
    assert_eq!(steps, expected);
}

#[test]
fn each_part_leads_to_the_next() {
    let job = job();
    let mut events = restart();
    events.truncate(1);
    assert_eq!(
        run(&job, events).0,
        Worker::Stop { exe: "C:\\zed.exe".into(), stop: Stop::Begin }
    );
    let mut events = restart();
    events.truncate(4);
    assert_eq!(
        run(&job, events).0,
        Worker::Clock { exe: "C:\\zed.exe".into(), was_focused: true }
    );
    let mut events = restart();
    events.truncate(5);
    assert_eq!(
        run(&job, events).0,
        Worker::Start {
            exe: "C:\\zed.exe".into(),
            was_focused: true,
            not_before: 100,
            start: Start::Begin,
        }
    );
    assert_eq!(
        run(&job, restart()).0,
        Worker::Wait {
            exe: "C:\\zed.exe".into(),
            was_focused: true,
            not_before: 100,
            lnk: Some(LNK.into()),
        }
    );
    let mut events = restart();
    events.push(look());
    assert_eq!(
        run(&job, events).0,
        Worker::Inject {
            was_focused: true,
            lnk: Some(LNK.into()),
            inject: Inject::Notified { hwnd: 7 },
        }
    );
}

#[test]
fn without_an_executable_nothing_is_stopped() {
    let mut events = restart();
    events[0] = WorkerEvent::Exe(None);
    let (state, steps) = run(&job(), events);
    assert_eq!(state, Worker::Done(2));
    assert_eq!(steps.len(), 3);
    assert_eq!(steps[2], Action::Error("Zed.exe not found".into()));
}

#[test]
fn no_window_no_message() {
    let mut events = restart();
    events.push(WorkerEvent::Poll(WindowPoll {
        elapsed: 16_000_000_000,
        procs: vec![],
        desktop: vec![],
    }));
    let (state, steps) = run(&job(), events);
    assert_eq!(state, Worker::Done(3));
    assert_eq!(
        steps[steps.len() - 2..],
        [Action::RemoveFile(LNK.into()), Action::Info("=== done: ok=false ===".into())]
    );
    assert!(!steps.iter().any(|s| matches!(s, Action::SendCombo(_))));
}

#[test]
fn the_worker_looks_again() {
    let mut events = restart();
    events.push(WorkerEvent::Poll(WindowPoll {
        elapsed: 0,
        procs: vec![zed(21, 6)],
        desktop: vec![shown(2, 21, "work")],
    }));
    let (state, steps) = run(&job(), events);
    assert!(matches!(state, Worker::Wait { .. }));
    assert_eq!(steps.last(), Some(&Action::Sleep(500)));
}

#[test]
fn a_start_that_fails_ends_the_worker() {
    let mut events = restart();
    events.truncate(6);
    events.push(WorkerEvent::Start(StartEvent::Shortcut(Err("no COM".into()))));
    let (state, steps) = run(&job(), events);
    assert_eq!(state, Worker::Done(3));
    assert_eq!(
        steps[steps.len() - 3..],
        [
            Action::RemoveFile(LNK.into()),
            Action::Error("no COM".into()),
            Action::Info("=== done: ok=false ===".into()),
        ]
    );
}

#[test]
fn without_focus_the_worker_fails() {
    let mut events = restart();
    events.push(look());
    events.push(WorkerEvent::Inject(InjectEvent::Notified(Ok(()))));
    for _ in 0..60 {
        events.push(WorkerEvent::Inject(InjectEvent::Sight(sight(false))));
    }
    let (state, steps) = run(&job(), events);
    assert_eq!(state, Worker::Done(3));
    assert!(!steps.iter().any(|s| matches!(s, Action::SendCombo(_))));
    assert!(steps.contains(&Action::RemoveFile(LNK.into())));
}

#[test]
fn events_out_of_turn_are_ignored() {
    let (state, steps) = run(&job(), vec![look(), WorkerEvent::Time(5)]);
    assert_eq!((state, steps), (Worker::Exe, vec![]));
    let (state, steps) = run_worker(&job(), Worker::Done(3), look());
    assert_eq!((state, steps), (Worker::Done(3), vec![]));
}

#[test]
fn the_message_comes_from_its_file() {
    let args = Args { message_file: Some("m.msg".into()), ..Args::default() };
    let (message, steps) = take_message(&args, Some(Ok("hello\nworld".into())));
    assert_eq!(message.unwrap(), "hello\nworld");
    assert_eq!(steps, vec![Action::RemoveFile("m.msg".into())]);

    let (message, steps) = take_message(&args, Some(Err("not found".into())));
    assert_eq!(message, Err(2));
    assert_eq!(
        steps,
        vec![Action::Error("reading message file 'm.msg': not found".into())]
    );

    let args = Args { message: vec!["a".into(), "b".into()], ..Args::default() };
    let (message, steps) = take_message(&args, None);
    assert_eq!(message.unwrap(), "a b");
    assert_eq!(steps, vec![]);
}

#[test]
fn the_clock_runs_while_something_is_waited_for() {
    let stop = |stop| Worker::Stop { exe: "z".into(), stop };
    assert!(!stop(Stop::Begin).is_timed());
    assert!(stop(Stop::Waiting { pid: 1, was_focused: false }).is_timed());
    assert!(stop(Stop::Checking { pid: 1, was_focused: false }).is_timed());
    assert!(run(&job(), restart()).0.is_timed());
    assert!(!Worker::Exe.is_timed());
    assert!(!Worker::Done(0).is_timed());
}
