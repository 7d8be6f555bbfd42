use zed_reload::process::{
    exe_path, find_pids, is_zed_alive, parent_pid, pids_for, resolve_target, start_time,
    zed_ancestor, ProcessInfo, Target,
};

fn process(pid: u32, parent: u32, name: &str, path: Option<&str>) -> ProcessInfo {
    ProcessInfo {
        pid,
        parent,
        name: name.into(),
        path: path.map(|p| p.into()),
        started: Some(pid as u64 * 10),
    }
}

const RELEASE: &str = "C:\\Programs\\Zed\\Zed.exe";
const PREVIEW: &str = "C:\\Programs\\Zed Preview\\Zed.exe";

/// Two Zeds: the second one is the ancestor of process 30.
fn two_zeds() -> Vec<ProcessInfo> {
    vec![
        process(1, 0, "explorer.exe", Some("C:\\Windows\\explorer.exe")),
        process(10, 1, "Zed.exe", Some(RELEASE)),
        process(20, 1, "zed.exe", Some(PREVIEW)),
        process(21, 20, "pwsh.exe", Some("C:\\pwsh.exe")),
        process(30, 21, "zed-reload.exe", Some("C:\\bin\\zed-reload.exe")),
        process(40, 1, "zed-reload.exe", Some("C:\\bin\\zed-reload.exe")),
    ]
}

#[test]
fn lookups_read_the_snapshot() {
    let procs = two_zeds();
    assert_eq!(find_pids(&procs, "ZED.EXE"), vec![10, 20]);
    assert_eq!(find_pids(&procs, "code.exe"), Vec::<u32>::new());
    assert_eq!(parent_pid(&procs, 21), Some(20));
    assert_eq!(parent_pid(&procs, 99), None);
    assert_eq!(exe_path(&procs, 10).unwrap(), RELEASE);
    assert_eq!(exe_path(&procs, 99), None);
    assert_eq!(start_time(&procs, 20), Some(200));
    assert_eq!(start_time(&procs, 99), None);
    assert!(is_zed_alive(&procs, 10));
    assert!(!is_zed_alive(&procs, 1));
    assert!(!is_zed_alive(&procs, 99));
}

#[test]
fn an_executable_is_matched_whatever_the_case() {
    let mut procs = two_zeds();
    procs.push(process(50, 1, "zed.exe", None));
    procs.push(process(51, 1, "ZED.exe", Some("c:\\programs\\zed\\zed.EXE")));
    assert_eq!(pids_for(&procs, RELEASE), vec![10, 51]);
    assert_eq!(pids_for(&procs, "C:\\dev\\zed.exe"), Vec::<u32>::new());
}

#[test]
fn the_closest_zed_ancestor_is_found() {
    let procs = two_zeds();
    assert_eq!(zed_ancestor(&procs, 30), Some((20, PREVIEW.into())));
    assert_eq!(zed_ancestor(&procs, 40), None);
    assert_eq!(zed_ancestor(&procs, 99), None);
    // A Zed is not its own ancestor.
    assert_eq!(zed_ancestor(&procs, 20), None);
}

#[test]
fn parent_loops_end() {
    let procs = vec![
        process(5, 6, "a.exe", Some("C:\\a.exe")),
        process(6, 5, "b.exe", None),
        process(7, 7, "c.exe", Some("C:\\zed.exe")),
    ];
    assert_eq!(zed_ancestor(&procs, 5), None);
    assert_eq!(zed_ancestor(&procs, 7), None);
}

#[test]
fn thirty_two_generations_are_searched() {
    let chain = |n: u32| {
        let mut procs: Vec<ProcessInfo> =
            (1..=n).map(|i| process(i, i + 1, "sh.exe", Some("C:\\sh.exe"))).collect();
        procs.push(process(n + 1, 0, "zed.exe", Some(RELEASE)));
        procs
    };
    assert_eq!(zed_ancestor(&chain(32), 1), Some((33, RELEASE.into())));
    assert_eq!(zed_ancestor(&chain(33), 1), None);
}

#[test]
fn a_given_pid_is_the_target() {
    let procs = two_zeds();
    assert_eq!(
        resolve_target(&None, Some(10), &procs, 30),
        Ok(Some(Target { exe: RELEASE.into(), pid: Some(10) }))
    );
    // With a path given as well, nothing is asked of the process.
    assert_eq!(
        resolve_target(&Some("D:\\zed.exe".into()), Some(99), &procs, 30),
        Ok(Some(Target { exe: "D:\\zed.exe".into(), pid: Some(99) }))
    );
    assert_eq!(
        resolve_target(&None, Some(99), &procs, 30),
        Err("cannot query exe path of pid 99".into())
    );
    assert_eq!(
        resolve_target(&None, Some(1), &procs, 30),
        Err("pid 1 is not a Zed process (C:\\Windows\\explorer.exe)".into())
    );
}

#[test]
fn the_ancestor_is_the_target() {
    let procs = two_zeds();
    assert_eq!(
        resolve_target(&None, None, &procs, 30),
        Ok(Some(Target { exe: PREVIEW.into(), pid: Some(20) }))
    );
    assert_eq!(
        resolve_target(&Some("D:\\zed.exe".into()), None, &procs, 30),
        Ok(Some(Target { exe: "D:\\zed.exe".into(), pid: Some(20) }))
    );
}

#[test]
fn several_zeds_are_ambiguous() {
    let procs = two_zeds();
    assert_eq!(
        resolve_target(&None, None, &procs, 40),
        Err(format!(
            "no Zed ancestor and several Zed processes are running — cannot tell which to \
             restart (pass --zed-pid or --zed-path):\n  pid 10: {RELEASE}\n  pid 20: {PREVIEW}"
        ))
    );
    // The start is not ambiguous then, and nothing is stopped.
    assert_eq!(
        resolve_target(&Some("D:\\zed.exe".into()), None, &procs, 40),
        Ok(Some(Target { exe: "D:\\zed.exe".into(), pid: None }))
    );
}

#[test]
fn the_only_zed_is_the_target() {
    let procs = vec![
        process(10, 1, "Zed.exe", Some(RELEASE)),
        process(11, 1, "zed.exe", None),
    ];
    assert_eq!(
        resolve_target(&None, None, &procs, 40),
        Ok(Some(Target { exe: RELEASE.into(), pid: Some(10) }))
    );
    assert_eq!(resolve_target(&None, None, &vec![], 40), Ok(None));
}
