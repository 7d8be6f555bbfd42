use zed_reload::calls::{
    filetime_ticks, last_error, notify_balloon, spawn, write_shortcut, NotifyCall,
    Shortcut, ShortcutCall,
};
use zed_reload::wide::to_wide;

fn shortcut() -> Shortcut {
    Shortcut {
        exe: "C:\\zed.exe".into(),
        args: "\"D:\\work\"".into(),
        workdir: "D:\\work".into(),
        path: "C:\\temp\\zed-reload-1.lnk".into(),
    }
}

#[test]
fn a_shortcut_is_written_call_by_call() {
    let job = shortcut();
    let mut call = ShortcutCall::CoInitializeEx;
    let mut seen = Vec::new();
    loop {
        let step = write_shortcut(&job, call, 0);
        match step.next.unwrap() {
            Some(next) => {
                assert!(!step.uninitialize && !step.release_link && !step.release_file);
                seen.push((next, step.argument));
                call = next;
            }
            None => {
                assert!(step.uninitialize && step.release_link && step.release_file);
                break;
            }
        }
    }
    assert_eq!(
        seen,
        vec![
            (ShortcutCall::CoCreateInstance, vec![]),
            (ShortcutCall::SetPath, to_wide("C:\\zed.exe")),
            (ShortcutCall::SetArguments, to_wide("\"D:\\work\"")),
            (ShortcutCall::SetWorkingDirectory, to_wide("D:\\work")),
            (ShortcutCall::QueryInterface, vec![]),
            (ShortcutCall::Save, to_wide("C:\\temp\\zed-reload-1.lnk")),
        ]
    );
}

#[test]
fn each_failed_call_is_reported() {
    for (call, text) in [
        (ShortcutCall::CoInitializeEx, "CoInitializeEx failed, HRESULT=0x80004005"),
        (
            ShortcutCall::CoCreateInstance,
            "CoCreateInstance(ShellLink) failed, HRESULT=0x80004005",
        ),
        (ShortcutCall::SetPath, "IShellLink::SetPath failed, HRESULT=0x80004005"),
        (ShortcutCall::SetArguments, "IShellLink::SetArguments failed, HRESULT=0x80004005"),
        (
            ShortcutCall::SetWorkingDirectory,
            "IShellLink::SetWorkingDirectory failed, HRESULT=0x80004005",
        ),
        (
            ShortcutCall::QueryInterface,
            "QueryInterface(IPersistFile) failed, HRESULT=0x80004005",
        ),
        (ShortcutCall::Save, "IPersistFile::Save failed, HRESULT=0x80004005"),
    ] {
        let step = write_shortcut(&shortcut(), call, 0x80004005u32 as i32);
        assert_eq!(step.next, Err(text.to_string()));
        assert_eq!(step.argument, Vec::<u16>::new());
        assert_eq!(step.uninitialize, call != ShortcutCall::CoInitializeEx);
        assert_eq!(step.release_file, call == ShortcutCall::Save);
        assert!(!step.release_link);
    }
}

#[test]
fn com_may_be_initialized_before() {
    let step = write_shortcut(&shortcut(), ShortcutCall::CoInitializeEx, 1);
    assert_eq!(step.next, Ok(Some(ShortcutCall::CoCreateInstance)));
    let step = write_shortcut(&shortcut(), ShortcutCall::SetPath, 1);
    assert_eq!(step.next, Err("IShellLink::SetPath failed, HRESULT=0x00000001".into()));
}

#[test]
fn a_notification_is_shown_call_by_call() {
    let notify = |call, ok| notify_balloon("a", "bc", call, ok, 5);
    let step = notify(NotifyCall::RegisterClass, true);
    assert_eq!(step.next, Ok(Some(NotifyCall::CreateWindow)));
    assert_eq!((step.title, step.info), (vec![], vec![]));
    let step = notify(NotifyCall::CreateWindow, true);
    assert_eq!(step.next, Ok(Some(NotifyCall::NotifyIcon)));
    assert_eq!((step.title, step.info), (vec![0x61, 0], vec![0x62, 0x63, 0]));
    let step = notify(NotifyCall::NotifyIcon, true);
    assert_eq!(step.next, Ok(None));
    assert_eq!((step.title, step.info), (vec![], vec![]));
    for (call, text) in [
        (NotifyCall::RegisterClass, "RegisterClassExW failed, GLE=5"),
        (NotifyCall::CreateWindow, "CreateWindowExW failed, GLE=5"),
        (NotifyCall::NotifyIcon, "Shell_NotifyIconW failed, GLE=5"),
    ] {
        let step = notify(call, false);
        assert_eq!(step.next, Err(text.to_string()));
        assert_eq!((step.title, step.info), (vec![], vec![]));
    }
}

#[test]
fn the_fields_of_a_notification_have_their_sizes() {
    let long = "x".repeat(300);
    let step = notify_balloon(&long, &long, NotifyCall::CreateWindow, true, 0);
    let (title, info) = (step.title, step.info);
    assert_eq!((title.len(), info.len()), (64, 256));
    assert_eq!((title[62], title[63], info[254], info[255]), (0x78, 0, 0x78, 0));
}

#[test]
fn a_process_has_started_or_not() {
    assert_eq!(spawn(true, 12, 5), Ok(12));
    assert_eq!(spawn(false, 12, 5), Err("CreateProcessW failed, GLE=5".into()));
    assert_eq!(last_error("Call", u32::MAX), "Call failed, GLE=4294967295");
}

#[test]
fn file_times_are_made_of_two_halves() {
    assert_eq!(filetime_ticks(0, 7), 7);
    assert_eq!(filetime_ticks(1, 2), 0x1_0000_0002);
    assert_eq!(filetime_ticks(u32::MAX, u32::MAX), u64::MAX);
}
