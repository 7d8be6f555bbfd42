use zed_reload::exe::{exe_candidates, find_exe};

#[test]
fn places_are_searched_in_order() {
    let places = exe_candidates(
        &Some("D:\\dev\\zed.exe".into()),
        &Some("C:\\Users\\me\\AppData\\Local".into()),
        &Some("C:\\bin;;D:\\tools\\".into()),
    );
    assert_eq!(
        places,
        vec![
            "D:\\dev\\zed.exe",
            "C:\\Users\\me\\AppData\\Local\\Programs\\Zed Nightly\\Zed.exe",
            "C:\\Users\\me\\AppData\\Local\\Programs\\Zed Preview\\Zed.exe",
            "C:\\Users\\me\\AppData\\Local\\Programs\\Zed\\Zed.exe",
            "C:\\bin\\Zed.exe",
            "C:\\bin\\zed.exe",
            "D:\\tools\\Zed.exe",
            "D:\\tools\\zed.exe",
        ]
    );
    assert_eq!(exe_candidates(&None, &None, &None), Vec::<String>::new());
    assert_eq!(exe_candidates(&None, &None, &Some("".into())), Vec::<String>::new());
    assert_eq!(exe_candidates(&None, &None, &Some(";".into())), Vec::<String>::new());
}

#[test]
fn the_first_that_exists_is_found() {
    let places: Vec<String> = vec!["a".into(), "b".into(), "c".into()];
    assert_eq!(find_exe(&places, &vec![false, true, true]), Some("b".into()));
    assert_eq!(find_exe(&places, &vec![true, false, true]), Some("a".into()));
    assert_eq!(find_exe(&places, &vec![false, false, false]), None);
    assert_eq!(find_exe(&vec![], &vec![]), None);
}
