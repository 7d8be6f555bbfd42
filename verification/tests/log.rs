use zed_reload::log::{LocalTime, Log};

fn time() -> LocalTime {
    LocalTime { year: 2024, month: 5, day: 1, hour: 9, minute: 7, second: 3 }
}

#[test]
fn times_are_padded() {
    assert_eq!(time().text(), "2024-05-01 09:07:03");
    let t = LocalTime { year: 12345, month: 12, day: 31, hour: 23, minute: 59, second: 100 };
    assert_eq!(t.text(), "12345-12-31 23:59:100");
    let t = LocalTime { year: 7, month: 0, day: 0, hour: 0, minute: 0, second: 0 };
    assert_eq!(t.text(), "0007-00-00 00:00:00");
}

#[test]
fn entries_name_time_tag_level_and_process() {
    let log = Log::new(&Some("C:\\bin".into()), "restart", 42);
    assert_eq!(log.path(), "C:\\bin\\zed-reload.log");
    assert_eq!(
        log.info(&time(), "hello"),
        "[2024-05-01 09:07:03] [restart] [INFO] [pid 42] hello"
    );
    assert_eq!(
        log.error(&time(), "oops"),
        "[2024-05-01 09:07:03] [restart] [ERROR] [pid 42] oops"
    );
}

#[test]
fn the_log_falls_back_to_the_current_directory() {
    assert_eq!(Log::new(&None, "worker", 1).path(), ".\\zed-reload.log");
}
