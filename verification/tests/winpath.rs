use zed_reload::winpath::{child_path, path_file_name};

fn name(path: &str) -> Option<String> {
    path_file_name(path)
}

#[test]
fn the_last_component_is_the_name() {
    assert_eq!(name("F:\\workspace\\zed-reload").unwrap(), "zed-reload");
    assert_eq!(name("F:/workspace/zed-reload/").unwrap(), "zed-reload");
    assert_eq!(name("zed.exe").unwrap(), "zed.exe");
    assert_eq!(name("C:zed.exe").unwrap(), "zed.exe");
    assert_eq!(name("a\\.").unwrap(), "a");
    assert_eq!(name("a\\.\\\\").unwrap(), "a");
    assert_eq!(name("\\\\server\\share\\dir").unwrap(), "dir");
    assert_eq!(name("\\\\?\\C:\\dir\\zed.exe").unwrap(), "zed.exe");
}

#[test]
fn roots_and_parents_have_no_name() {
    for path in ["", "C:", "C:\\", "\\", "/", "..", "a\\..", "\\\\server\\share", "\\\\server\\share\\"] {
        assert_eq!(name(path), None, "{path}");
    }
    assert_eq!(name("."), None);
}

#[test]
fn a_child_goes_behind_a_separator() {
    assert_eq!(child_path("C:\\temp", "a.lnk"), "C:\\temp\\a.lnk");
    assert_eq!(child_path("C:\\temp\\", "a.lnk"), "C:\\temp\\a.lnk");
    assert_eq!(child_path("C:/temp/", "a.lnk"), "C:/temp/a.lnk");
    assert_eq!(child_path("", "a.lnk"), "a.lnk");
    // A drive without a root is relative.
    assert_eq!(child_path("C:", "a.lnk"), "C:a.lnk");
    assert_eq!(child_path(".", "zed-reload.log"), ".\\zed-reload.log");
}
