use windows_sys::Win32::System::Threading::CREATE_NEW_PROCESS_GROUP;
use zed_reload::action::Action;
use zed_reload::start::{names_shortcut, start, Start, StartEvent, StartJob};

fn job(project: Option<&str>) -> StartJob {
    StartJob {
        exe: "C:\\zed.exe".into(),
        project: project.map(|p| p.into()),
        temp_dir: "C:\\temp".into(),
        pid: 77,
    }
}

#[test]
fn a_project_is_carried_in_a_shortcut() {
    let job = job(Some("D:\\my work"));
    let files = vec![
        "zed-reload-1.lnk".to_string(),
        "zed-reload-1-2.msg".to_string(),
        "other.lnk".to_string(),
        "zed-reload-delivery-test.lnk".to_string(),
    ];
    let (state, steps) = start(&job, Start::Begin, StartEvent::Files(files));
    assert_eq!(state, Start::Shortcut);
    assert_eq!(
        steps,
        vec![
            Action::RemoveFile("C:\\temp\\zed-reload-1.lnk".into()),
            Action::RemoveFile("C:\\temp\\zed-reload-delivery-test.lnk".into()),
            Action::WriteShortcut(
                "C:\\zed.exe".into(),
                "\"D:\\my work\"".into(),
                "D:\\my work".into(),
                "C:\\temp\\zed-reload-77.lnk".into(),
            ),
        ]
    );

    let (state, steps) = start(&job, state, StartEvent::Shortcut(Ok(())));
    let lnk = Some("C:\\temp\\zed-reload-77.lnk".to_string());
    assert_eq!(state, Start::Spawned(lnk.clone()));
    assert_eq!(
        steps,
        vec![
            Action::Info("starting C:\\zed.exe via explorer shortcut project='D:\\my work'".into()),
            Action::Spawn(
                "explorer.exe \"C:\\temp\\zed-reload-77.lnk\"".into(),
                CREATE_NEW_PROCESS_GROUP,
            ),
        ]
    );

    let (state, steps) = start(&job, state, StartEvent::Spawned(Ok(5)));
    assert_eq!(state, Start::Done(Ok(lnk)));
    assert_eq!(steps, vec![]);
}

#[test]
fn without_a_project_the_executable_is_opened() {
    let job = job(None);
    let (state, steps) = start(&job, Start::Begin, StartEvent::Files(vec!["zed-reload-1.lnk".into()]));
    assert_eq!(state, Start::Spawned(None));
    assert_eq!(
        steps,
        vec![
            Action::Info("starting C:\\zed.exe via explorer.exe (bare, session restore)".into()),
            Action::Spawn("explorer.exe \"C:\\zed.exe\"".into(), CREATE_NEW_PROCESS_GROUP),
        ]
    );
    let (state, _) = start(&job, state, StartEvent::Spawned(Ok(5)));
    assert_eq!(state, Start::Done(Ok(None)));
}

#[test]
fn failures_end_the_start() {
    let job = job(Some("D:\\work"));
    let (state, steps) = start(&job, Start::Shortcut, StartEvent::Shortcut(Err("no COM".into())));
    assert_eq!(state, Start::Done(Err("no COM".into())));
    assert_eq!(steps, vec![Action::RemoveFile("C:\\temp\\zed-reload-77.lnk".into())]);

    let (state, steps) =
        start(&job, Start::Spawned(Some("x.lnk".into())), StartEvent::Spawned(Err("GLE=2".into())));
    assert_eq!(state, Start::Done(Err("GLE=2".into())));
    assert_eq!(steps, vec![]);
}

#[test]
fn other_events_do_not_move_a_start() {
    let (state, steps) = start(&job(None), Start::Begin, StartEvent::Spawned(Ok(1)));
    assert_eq!((state, steps), (Start::Begin, vec![]));
}

#[test]
fn shortcuts_are_told_by_their_names() {
    assert!(names_shortcut("zed-reload-77.lnk"));
    assert!(names_shortcut("zed-reload-.lnk"));
    assert!(!names_shortcut("zed-reload-77.msg"));
    assert!(!names_shortcut("my-zed-reload-77.lnk"));
    assert!(!names_shortcut("zed-reload"));
    assert!(!names_shortcut(".lnk"));
    assert!(!names_shortcut("ZED-RELOAD-1.LNK"));
}

#[test]
fn a_root_is_carried_in_a_shortcut_too() {
    let (_, steps) = start(&job(Some("C:\\")), Start::Begin, StartEvent::Files(vec![]));
    assert_eq!(
        steps,
        vec![Action::WriteShortcut(
            "C:\\zed.exe".into(),
            "\"C:\\\\\"".into(),
            "C:\\".into(),
            "C:\\temp\\zed-reload-77.lnk".into(),
        )]
    );
}
