use zed_reload::action::{Action, Step};
use zed_reload::clipboard::{clipboard_set, ClipboardSet};
use zed_reload::wide::{clipboard_get, to_wide};

fn run(oks: Vec<bool>) -> (ClipboardSet, Vec<Step>) {
    let mut state = ClipboardSet::Open(0);
    let mut all = Vec::new();
    for ok in oks {
        let step = clipboard_set("text", state, ok);
        state = step.next;
        all.extend(step.steps);
    }
    (state, all)
}

#[test]
fn the_clipboard_is_set_and_closed() {
    assert_eq!(
        run(vec![true; 5]),
        (ClipboardSet::Done(Ok(())), vec![Action::CloseClipboard])
    );
    assert_eq!(
        run(vec![false, false, true, true, true, true, true]),
        (
            ClipboardSet::Done(Ok(())),
            vec![Action::Sleep(100), Action::Sleep(100), Action::CloseClipboard]
        )
    );
}

#[test]
fn ten_tries_are_made_to_open_it() {
    let (state, _) = run(vec![false; 9]);
    assert_eq!(state, ClipboardSet::Open(9));
    let (state, steps) = run(vec![false; 10]);
    assert_eq!(state, ClipboardSet::Done(Err("OpenClipboard failed".into())));
    assert_eq!(steps.len(), 10);
    assert!(!steps.contains(&Action::CloseClipboard));
}

#[test]
fn each_failure_closes_it() {
    for (n, e) in [
        (1, "EmptyClipboard failed"),
        (2, "GlobalAlloc failed"),
        (3, "GlobalLock failed"),
        (4, "SetClipboardData failed"),
    ] {
        let mut oks = vec![true; n];
        oks.push(false);
        assert_eq!(
            run(oks),
            (ClipboardSet::Done(Err(e.into())), vec![Action::CloseClipboard])
        );
    }
}

#[test]
fn nothing_follows_the_end() {
    let (state, steps) = run(vec![true; 9]);
    assert_eq!((state, steps), (ClipboardSet::Done(Ok(())), vec![Action::CloseClipboard]));
}

#[test]
fn the_text_goes_into_the_memory() {
    let text = "alt: 🦀";
    let wide = to_wide(text);
    let step = clipboard_set(text, ClipboardSet::Empty, true);
    assert_eq!((step.next, step.memory), (ClipboardSet::Alloc, wide.clone()));
    let step = clipboard_set(text, ClipboardSet::Alloc, true);
    assert_eq!((step.next, step.memory), (ClipboardSet::Lock, vec![]));
    let step = clipboard_set(text, ClipboardSet::Lock, true);
    assert_eq!((step.next, &step.memory), (ClipboardSet::Store, &wide));
    assert_eq!(clipboard_get(&step.memory), text);
    for state in [ClipboardSet::Open(0), ClipboardSet::Store] {
        assert_eq!(clipboard_set(text, state, true).memory, Vec::<u16>::new());
    }
    assert_eq!(clipboard_set(text, ClipboardSet::Lock, false).memory, Vec::<u16>::new());
}
