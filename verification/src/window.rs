//! Top-level windows: which belong to Zed, and which one a run is meant for.
use vstd::prelude::*;
use vstd::utf8::is_ascii_chars;

use crate::process::{
    find_pids, lemma_running_exe, path_of, pids_for, pids_named, running_exe, same_ignoring_case,
    start_time, started_at, zed_exe, ProcessInfo,
};
use crate::text::{
    ascii_case, ascii_lower, chars_of, contains, contains_chars, lemma_filter_subset, lowercase,
    some_text, texts, unicode_case,
};
use crate::winpath::{file_name, path_file_name};

verus! {

/// A top-level window of the desktop.
#[derive(Debug, PartialEq, Eq)]
pub struct DesktopWindow {
    /// The window's handle.
    pub hwnd: usize,
    pub pid: u32,
    pub visible: bool,
    pub title: String,
    /// The window does not respond.
    pub hung: bool,
}

/// A visible window of a process of interest.
#[derive(Debug, PartialEq, Eq)]
pub struct Window {
    /// The window's handle.
    pub hwnd: usize,
    pub pid: u32,
    pub title: String,
    /// The window does not respond.
    pub hung: bool,
}

/// What a window says.
pub ghost struct WindowView {
    pub hwnd: usize,
    pub pid: u32,
    pub title: Seq<char>,
    pub hung: bool,
}

impl View for Window {
    type V = WindowView;

    open spec fn view(&self) -> WindowView {
        WindowView { hwnd: self.hwnd, pid: self.pid, title: self.title@, hung: self.hung }
    }
}

/// What a list of windows says.
pub open spec fn windows_of(v: Seq<Window>) -> Seq<WindowView> {
    Seq::new(v.len(), |i: int| v[i]@)
}

// ---------------------------------------------------------------------------
// enumeration
// ---------------------------------------------------------------------------

/// The visible windows of `desktop` that belong to one of `pids`.
pub open spec fn visible_of(desktop: Seq<DesktopWindow>, pids: Seq<u32>) -> Seq<WindowView>
    decreases desktop.len(),
{
    if desktop.len() == 0 {
        Seq::empty()
    } else {
        let before = visible_of(desktop.drop_last(), pids);
        let w = desktop.last();
        if w.pid != 0 && pids.contains(w.pid) && w.visible {
            before.push(WindowView { hwnd: w.hwnd, pid: w.pid, title: w.title@, hung: w.hung })
        } else {
            before
        }
    }
}

/// Windows with a title.
pub open spec fn has_title() -> spec_fn(WindowView) -> bool {
    |w: WindowView| w.title.len() > 0
}

/// The windows with a title, or all of them where none has one.
pub open spec fn prefer_titled(windows: Seq<WindowView>) -> Seq<WindowView> {
    if windows.filter(has_title()).len() > 0 {
        windows.filter(has_title())
    } else {
        windows
    }
}

fn holds(pids: &Vec<u32>, pid: u32) -> (b: bool)
    ensures
        b == pids@.contains(pid),
{
    for i in 0..pids.len()
        invariant
            forall|k: int| 0 <= k < i ==> pids@[k] != pid,
    {
        if pids[i] == pid {
            return true;
        }
    }
    false
}

/// The visible top-level windows of `desktop` that belong to any of `pids`.
/// Where some of them have a title, those without one are left out.
pub fn enum_windows(desktop: &Vec<DesktopWindow>, pids: &Vec<u32>) -> (windows: Vec<Window>)
    ensures
        windows_of(windows@) == prefer_titled(visible_of(desktop@, pids@)),
{
    let mut all: Vec<Window> = Vec::new();
    let mut titled: Vec<Window> = Vec::new();
    let ghost none = Seq::<WindowView>::empty();
    proof {
        reveal(Seq::filter);
        assert(windows_of(all@) == none);
        assert(none.filter(has_title()) == none);
    }
    for i in 0..desktop.len()
        invariant
            windows_of(all@) == visible_of(desktop@.take(i as int), pids@),
            windows_of(titled@) == windows_of(all@).filter(has_title()),
    {
        assert(desktop@.take(i + 1).drop_last() == desktop@.take(i as int));
        let w = &desktop[i];
        if w.pid != 0 && holds(pids, w.pid) && w.visible {
            let ghost view = WindowView {
                hwnd: w.hwnd,
                pid: w.pid,
                title: w.title@,
                hung: w.hung,
            };
            let ghost all_before = all@;
            let ghost titled_before = titled@;
            all.push(Window { hwnd: w.hwnd, pid: w.pid, title: w.title.clone(), hung: w.hung });
            assert(windows_of(all@) == windows_of(all_before).push(view));
            assert(windows_of(all@).drop_last() == windows_of(all_before));
            reveal(Seq::filter);
            if !w.title.as_str().is_empty() {
                titled.push(
                    Window { hwnd: w.hwnd, pid: w.pid, title: w.title.clone(), hung: w.hung },
                );
                assert(windows_of(titled@) == windows_of(titled_before).push(view));
            }
        }
    }
    assert(desktop@.take(desktop@.len() as int) == desktop@);
    assert(windows_of(titled@).len() == titled@.len());
    if titled.len() > 0 {
        titled
    } else {
        all
    }
}

/// The visible top-level windows of all Zed processes.
pub fn windows(procs: &Vec<ProcessInfo>, desktop: &Vec<DesktopWindow>) -> (r: Vec<Window>)
    ensures
        windows_of(r@) == prefer_titled(visible_of(desktop@, pids_named(procs@, zed_exe()))),
{
    let pids = find_pids(procs, "zed.exe");
    enum_windows(desktop, &pids)
}

/// The windows of the Zed processes that run `exe`.
pub open spec fn windows_running(
    procs: Seq<ProcessInfo>,
    desktop: Seq<DesktopWindow>,
    exe: Seq<char>,
) -> Seq<WindowView> {
    prefer_titled(visible_of(desktop, running_exe(procs, pids_named(procs, zed_exe()), exe)))
}

/// The visible top-level windows of the Zed processes that run `exe`.
pub fn windows_for(procs: &Vec<ProcessInfo>, desktop: &Vec<DesktopWindow>, exe: &str) -> (r: Vec<
    Window,
>)
    ensures
        windows_of(r@) == windows_running(procs@, desktop@, exe@),
{
    let pids = pids_for(procs, exe);
    enum_windows(desktop, &pids)
}

// ---------------------------------------------------------------------------
// the window of a run
// ---------------------------------------------------------------------------

/// The text that the window's title has to hold: the one asked for, else the
/// project's folder name. `None` means any window.
pub open spec fn filter_of(
    project: Option<Seq<char>>,
    window_title: Option<Seq<char>>,
) -> Option<Seq<char>> {
    match window_title {
        Some(title) => Some(title),
        None => match project {
            Some(project) => file_name(project),
            None => None,
        },
    }
}

/// Substring to match window titles against: an explicit `window_title` wins;
/// otherwise the project's folder name, because Zed titles windows with it.
/// `None` means any visible window.
pub fn title_filter(project: &Option<String>, window_title: &Option<String>) -> (filter: Option<
    String,
>)
    ensures
        some_text(filter) == filter_of(some_text(*project), some_text(*window_title)),
{
    match window_title {
        Some(title) => Some(title.clone()),
        None => match project {
            Some(project) => path_file_name(project.as_str()),
            None => None,
        },
    }
}

/// The process of the window was created at `not_before` or later.
pub open spec fn is_new(procs: Seq<ProcessInfo>, not_before: u64) -> spec_fn(WindowView) -> bool {
    |w: WindowView|
        match started_at(procs, w.pid) {
            Some(time) => time >= not_before,
            None => false,
        }
}

/// The windows of Zed processes that run `exe` and were created at `not_before`
/// or later.
pub open spec fn new_windows(
    procs: Seq<ProcessInfo>,
    desktop: Seq<DesktopWindow>,
    exe: Seq<char>,
    not_before: u64,
) -> Seq<WindowView> {
    windows_running(procs, desktop, exe).filter(is_new(procs, not_before))
}

/// The windows of the newly started Zed: those of processes that run `exe` and
/// were created at `not_before` or later.
pub fn windows_since(
    procs: &Vec<ProcessInfo>,
    desktop: &Vec<DesktopWindow>,
    exe: &str,
    not_before: u64,
) -> (r: Vec<Window>)
    ensures
        windows_of(r@) == new_windows(procs@, desktop@, exe@, not_before),
{
    let all = windows_for(procs, desktop, exe);
    let mut out: Vec<Window> = Vec::new();
    let ghost views = windows_of(all@);
    proof {
        reveal(Seq::filter);
        assert(windows_of(out@) == views.take(0).filter(is_new(procs@, not_before)));
    }
    for i in 0..all.len()
        invariant
            views == windows_of(all@),
            windows_of(out@) == views.take(i as int).filter(is_new(procs@, not_before)),
    {
        assert(views.take(i + 1).drop_last() == views.take(i as int));
        let w = &all[i];
        assert(views.take(i + 1).last() == w@);
        let ghost before = out@;
        reveal(Seq::filter);
        if let Some(time) = start_time(procs, w.pid) {
            if time >= not_before {
                out.push(Window { hwnd: w.hwnd, pid: w.pid, title: w.title.clone(), hung: w.hung });
                assert(windows_of(out@) == windows_of(before).push(w@));
            }
        }
    }
    assert(views.take(all@.len() as int) == views);
    out
}

/// The first of `titles` that holds `filter`; any title does where there is no
/// filter.
pub open spec fn first_match(titles: Seq<Seq<char>>, filter: Option<Seq<char>>) -> Option<int>
    decreases titles.len(),
{
    if titles.len() == 0 {
        None
    } else if filter is None || contains(titles[0], filter->0) {
        Some(0)
    } else {
        match first_match(titles.skip(1), filter) {
            Some(i) => Some(i + 1),
            None => None,
        }
    }
}

/// The first of `titles` that holds `filter`, both in lower case.
pub fn match_lower(titles: &Vec<String>, filter: &Option<String>) -> (r: Option<usize>)
    ensures
        match r {
            Some(i) => i < titles@.len() && first_match(texts(titles@), some_text(*filter)) == Some(
                i as int,
            ),
            None => first_match(texts(titles@), some_text(*filter)) is None,
        },
{
    let ghost all = texts(titles@);
    assert(all.skip(0) == all);
    for i in 0..titles.len()
        invariant
            all == texts(titles@),
            first_match(all, some_text(*filter)) == (match first_match(
                all.skip(i as int),
                some_text(*filter),
            ) {
                Some(k) => Some(k + i),
                None => None,
            }),
    {
        let title = chars_of(titles[i].as_str());
        assert(all.skip(i as int)[0] == title@);
        assert(all.skip(i as int).skip(1) == all.skip(i + 1));
        match filter {
            Some(filter) => {
                let mark = chars_of(filter.as_str());
                if contains_chars(&title, &mark) {
                    return Some(i);
                }
            },
            None => {
                return Some(i);
            },
        }
    }
    None
}

/// A list of titles under a mapping of letter case.
pub open spec fn cased_titles(
    windows: Seq<WindowView>,
    case: spec_fn(Seq<char>) -> Seq<char>,
) -> Seq<Seq<char>> {
    Seq::new(windows.len(), |i: int| case(windows[i].title))
}

/// An optional text under a mapping of letter case.
pub open spec fn cased(
    s: Option<Seq<char>>,
    case: spec_fn(Seq<char>) -> Seq<char>,
) -> Option<Seq<char>> {
    match s {
        Some(s) => Some(case(s)),
        None => None,
    }
}

/// The first window whose title holds the filter, whatever the case.
pub open spec fn chosen(
    windows: Seq<WindowView>,
    filter: Option<Seq<char>>,
    case: spec_fn(Seq<char>) -> Seq<char>,
) -> Option<WindowView> {
    match first_match(cased_titles(windows, case), cased(filter, case)) {
        Some(i) => Some(windows[i]),
        None => None,
    }
}

/// The filter and all titles are ASCII text.
pub open spec fn all_ascii(windows: Seq<WindowView>, filter: Option<Seq<char>>) -> bool {
    &&& filter matches Some(filter) ==> is_ascii_chars(filter)
    &&& forall|i: int| 0 <= i < windows.len() ==> is_ascii_chars((#[trigger] windows[i]).title)
}

/// What an optional window says.
pub open spec fn some_window(w: Option<Window>) -> Option<WindowView> {
    match w {
        Some(w) => Some(w@),
        None => None,
    }
}

/// The first of `windows` whose title holds `filter`, whatever the case.
pub fn choose_window(windows: &Vec<Window>, filter: &Option<String>) -> (r: Option<Window>)
    ensures
        some_window(r) == chosen(
            windows_of(windows@),
            some_text(*filter),
            unicode_case(),
        ),
        all_ascii(windows_of(windows@), some_text(*filter)) ==> some_window(r) == chosen(
            windows_of(windows@),
            some_text(*filter),
            ascii_case(),
        ),
{
    let ghost views = windows_of(windows@);
    let ghost ascii = all_ascii(views, some_text(*filter));
    let lower_filter: Option<String> = match filter {
        Some(filter) => Some(filter.to_lowercase()),
        None => None,
    };
    let mut titles: Vec<String> = Vec::new();
    for i in 0..windows.len()
        invariant
            views == windows_of(windows@),
            ascii == all_ascii(views, some_text(*filter)),
            titles@.len() == i,
            forall|k: int| 0 <= k < i ==> (#[trigger] titles@[k])@ == lowercase(views[k].title),
            forall|k: int|
                0 <= k < i && ascii ==> (#[trigger] titles@[k])@ == ascii_lower(views[k].title),
    {
        assert(views[i as int].title == windows@[i as int].title@);
        titles.push(windows[i].title.to_lowercase());
    }
    assert(texts(titles@) == cased_titles(views, unicode_case()));
    assert(ascii ==> texts(titles@) == cased_titles(views, ascii_case()));
    match match_lower(&titles, &lower_filter) {
        Some(i) => {
            let w = &windows[i];
            Some(Window { hwnd: w.hwnd, pid: w.pid, title: w.title.clone(), hung: w.hung })
        },
        None => None,
    }
}

// ---------------------------------------------------------------------------
// laws
// ---------------------------------------------------------------------------

/// What a window of the desktop says.
pub open spec fn desktop_view(w: DesktopWindow) -> WindowView {
    WindowView { hwnd: w.hwnd, pid: w.pid, title: w.title@, hung: w.hung }
}

/// `w` is a visible window of `desktop` that belongs to one of `pids`.
pub open spec fn is_owned(desktop: Seq<DesktopWindow>, pids: Seq<u32>, w: WindowView) -> bool {
    exists|i: int|
        0 <= i < desktop.len() && desktop_view(#[trigger] desktop[i]) == w && desktop[i].visible
            && w.pid != 0 && pids.contains(w.pid)
}

proof fn lemma_visible(desktop: Seq<DesktopWindow>, pids: Seq<u32>)
    ensures
        forall|w: WindowView| #[trigger]
            visible_of(desktop, pids).contains(w) <==> is_owned(desktop, pids, w),
    decreases desktop.len(),
{
    let all = visible_of(desktop, pids);
    if desktop.len() > 0 {
        let head = desktop.drop_last();
        let before = visible_of(head, pids);
        let last = desktop.last();
        lemma_visible(head, pids);
        assert forall|w: WindowView| #[trigger] all.contains(w) implies is_owned(
            desktop,
            pids,
            w,
        ) by {
            if before.contains(w) {
                let i = choose|i: int|
                    0 <= i < head.len() && desktop_view(#[trigger] head[i]) == w && head[i].visible
                        && w.pid != 0 && pids.contains(w.pid);
                assert(desktop[i] == head[i]);
            } else {
                let k = choose|k: int| 0 <= k < all.len() && all[k] == w;
                assert(all != before);
                assert(k == before.len()) by {
                    if k < before.len() {
                        assert(before[k] == w);
                    }
                }
                assert(desktop_view(desktop[desktop.len() - 1]) == w);
            }
        }
        assert forall|w: WindowView| is_owned(desktop, pids, w) implies #[trigger] all.contains(
            w,
        ) by {
            let i = choose|i: int|
                0 <= i < desktop.len() && desktop_view(#[trigger] desktop[i]) == w
                    && desktop[i].visible && w.pid != 0 && pids.contains(w.pid);
            if i < head.len() {
                assert(head[i] == desktop[i]);
                assert(before.contains(w));
                let k = choose|k: int| 0 <= k < before.len() && before[k] == w;
                assert(all[k] == w);
            } else {
                assert(all[before.len() as int] == w);
            }
        }
    } else {
        assert forall|w: WindowView| #[trigger] all.contains(w) <==> is_owned(desktop, pids, w) by {
        }
    }
}

/// An enumeration holds visible windows of the processes asked for, and no
/// others. Where one of these has a title, it holds exactly those with a title;
/// else it holds all of them.
pub proof fn law_enumeration(desktop: Seq<DesktopWindow>, pids: Seq<u32>, w: WindowView)
    ensures
        ({
            let titled = exists|v: WindowView|
                #[trigger] is_owned(desktop, pids, v) && v.title.len() > 0;
            prefer_titled(visible_of(desktop, pids)).contains(w) <==> is_owned(desktop, pids, w)
                && (titled ==> w.title.len() > 0)
        }),
{
    let all = visible_of(desktop, pids);
    let some = all.filter(has_title());
    lemma_visible(desktop, pids);
    lemma_filter_subset(all, has_title());
    if some.len() > 0 {
        let v = some[0];
        assert(some.contains(v));
        assert(all.contains(v));
        assert(is_owned(desktop, pids, v));
    } else {
        assert forall|v: WindowView| #[trigger] is_owned(desktop, pids, v) implies v.title.len()
            == 0 by {
            assert(all.contains(v));
            if v.title.len() > 0 {
                assert(some.contains(v));
            }
        }
    }
}

proof fn lemma_first_match(titles: Seq<Seq<char>>, filter: Option<Seq<char>>)
    ensures
        match first_match(titles, filter) {
            Some(i) => {
                &&& 0 <= i < titles.len()
                &&& filter matches Some(filter) ==> contains(titles[i], filter)
                &&& forall|k: int|
                    0 <= k < i ==> filter is Some && !contains(#[trigger] titles[k], filter->0)
            },
            None => forall|k: int|
                0 <= k < titles.len() ==> filter is Some && !contains(
                    #[trigger] titles[k],
                    filter->0,
                ),
        },
    decreases titles.len(),
{
    if titles.len() > 0 && !(filter is None || contains(titles[0], filter->0)) {
        let rest = titles.skip(1);
        lemma_first_match(rest, filter);
        assert forall|k: int| 0 < k < titles.len() implies #[trigger] titles[k] == rest[k - 1] by {
        }
    }
}

/// The choice is strict: the window chosen is one of those given, and its title
/// holds the filter, if there is one. There is none exactly when no title holds
/// the filter.
pub proof fn law_choice_is_strict(
    windows: Seq<WindowView>,
    filter: Option<Seq<char>>,
    case: spec_fn(Seq<char>) -> Seq<char>,
)
    ensures
        match chosen(windows, filter, case) {
            Some(w) => {
                &&& windows.contains(w)
                &&& filter matches Some(filter) ==> contains(case(w.title), case(filter))
            },
            None => forall|i: int|
                0 <= i < windows.len() ==> filter is Some && !contains(
                    case((#[trigger] windows[i]).title),
                    case(filter->0),
                ),
        },
{
    let titles = cased_titles(windows, case);
    lemma_first_match(titles, cased(filter, case));
    if chosen(windows, filter, case) is None {
        assert forall|i: int| 0 <= i < windows.len() implies filter is Some && !contains(
            case((#[trigger] windows[i]).title),
            case(filter->0),
        ) by {
            assert(titles[i] == case(windows[i].title));
        }
    }
}

/// `w` is a visible window of a Zed process that runs `exe` and was created at
/// `not_before` or later.
pub open spec fn is_of_new_session(
    procs: Seq<ProcessInfo>,
    desktop: Seq<DesktopWindow>,
    exe: Seq<char>,
    not_before: u64,
    w: WindowView,
) -> bool {
    &&& is_owned(desktop, pids_named(procs, zed_exe()), w)
    &&& path_of(procs, w.pid) matches Some(path) && same_ignoring_case(path, exe)
    &&& started_at(procs, w.pid) matches Some(time) && time >= not_before
}

/// A survivor of the old session is never taken for the new one: the windows of
/// the new session belong to processes that run the executable and were created
/// since the start.
pub proof fn law_no_survivors(
    procs: Seq<ProcessInfo>,
    desktop: Seq<DesktopWindow>,
    exe: Seq<char>,
    not_before: u64,
    w: WindowView,
)
    requires
        new_windows(procs, desktop, exe, not_before).contains(w),
    ensures
        is_of_new_session(procs, desktop, exe, not_before, w),
{
    let zeds = pids_named(procs, zed_exe());
    let pids = running_exe(procs, zeds, exe);
    let all = windows_running(procs, desktop, exe);
    lemma_filter_subset(all, is_new(procs, not_before));
    assert(all.contains(w));
    law_enumeration(desktop, pids, w);
    lemma_running_exe(procs, zeds, exe, w.pid);
    let i = choose|i: int|
        0 <= i < desktop.len() && desktop_view(#[trigger] desktop[i]) == w && desktop[i].visible
            && w.pid != 0 && pids.contains(w.pid);
    assert(zeds.contains(w.pid));
    assert(desktop_view(desktop[i]) == w);
}

/// The windows of a desktop are looked at in order: those of its first part come
/// first. A window counts if it is visible and belongs to one of the processes.
pub proof fn law_windows_in_order(
    a: Seq<DesktopWindow>,
    b: Seq<DesktopWindow>,
    w: DesktopWindow,
    pids: Seq<u32>,
)
    ensures
        visible_of(a + b, pids) == visible_of(a, pids) + visible_of(b, pids),
        visible_of(seq![w], pids) == if w.visible && w.pid != 0 && pids.contains(w.pid) {
            seq![WindowView { hwnd: w.hwnd, pid: w.pid, title: w.title@, hung: w.hung }]
        } else {
            Seq::empty()
        },
    decreases b.len(),
{
    assert(seq![w].drop_last() == Seq::<DesktopWindow>::empty());
    assert(visible_of(Seq::empty(), pids) == Seq::<WindowView>::empty());
    if b.len() == 0 {
        assert(a + b == a);
    } else {
        law_windows_in_order(a, b.drop_last(), w, pids);
        assert((a + b).drop_last() == a + b.drop_last());
        assert((a + b).last() == b.last());
        assert(visible_of(a + b, pids) == visible_of(a, pids) + visible_of(b, pids));
    }
}

/// Windows without a title count only as long as there is none with a title; the
/// order stays.
pub proof fn law_titled_windows_win(windows: Seq<WindowView>, w: WindowView)
    ensures
        ({
            let titled = exists|i: int|
                0 <= i < windows.len() && (#[trigger] windows[i]).title.len() > 0;
            let with = prefer_titled(windows.push(w));
            &&& !titled ==> prefer_titled(windows) == windows
            &&& titled && w.title.len() > 0 ==> with == prefer_titled(windows).push(w)
            &&& titled && w.title.len() == 0 ==> with == prefer_titled(windows)
            &&& !titled && w.title.len() > 0 ==> with == seq![w]
            &&& !titled && w.title.len() == 0 ==> with == windows.push(w)
        }),
{
    reveal(Seq::filter);
    let some = windows.filter(has_title());
    lemma_filter_subset(windows, has_title());
    assert(windows.push(w).drop_last() == windows);
    if some.len() > 0 {
        assert(some.contains(some[0]));
        let i = choose|i: int| 0 <= i < windows.len() && windows[i] == some[0];
        assert(has_title()(some[0]));
        assert(windows[i].title.len() > 0);
    } else {
        assert forall|i: int| 0 <= i < windows.len() implies (#[trigger] windows[i]).title.len()
            == 0 by {
            assert(windows.contains(windows[i]));
            if windows[i].title.len() > 0 {
                assert(some.contains(windows[i]));
            }
        }
        assert(some == Seq::<WindowView>::empty());
    }
}

/// The window chosen is the first whose title holds the filter; without a filter
/// it is the first of all.
pub proof fn law_choice_is_the_first(
    windows: Seq<WindowView>,
    filter: Option<Seq<char>>,
    case: spec_fn(Seq<char>) -> Seq<char>,
    i: int,
)
    requires
        0 <= i < windows.len(),
        match filter {
            Some(text) => contains(case(windows[i].title), case(text)) && forall|k: int|
                0 <= k < i ==> !contains(case((#[trigger] windows[k]).title), case(text)),
            None => i == 0,
        },
    ensures
        chosen(windows, filter, case) == Some(windows[i]),
{
    let titles = cased_titles(windows, case);
    lemma_first_match(titles, cased(filter, case));
    assert(titles[i] == case(windows[i].title));
    if let Some(k) = first_match(titles, cased(filter, case)) {
        assert(titles[k] == case(windows[k].title));
    }
}

/// The windows of the new session are all there: those of processes that run the
/// executable and were created since the start, but for windows without a title
/// where a process of that executable has one with a title.
pub proof fn law_new_session_is_complete(
    procs: Seq<ProcessInfo>,
    desktop: Seq<DesktopWindow>,
    exe: Seq<char>,
    not_before: u64,
    w: WindowView,
)
    ensures
        ({
            let titled = exists|v: WindowView|
                #[trigger] is_owned(
                    desktop,
                    running_exe(procs, pids_named(procs, "zed.exe"@), exe),
                    v,
                ) && v.title.len() > 0;
            new_windows(procs, desktop, exe, not_before).contains(w) <==> {
                &&& is_owned(desktop, pids_named(procs, "zed.exe"@), w)
                &&& path_of(procs, w.pid) matches Some(path) && ascii_lower(path) == ascii_lower(
                    exe,
                )
                &&& started_at(procs, w.pid) matches Some(time) && time >= not_before
                &&& titled ==> w.title.len() > 0
            }
        }),
{
    let zeds = pids_named(procs, zed_exe());
    let pids = running_exe(procs, zeds, exe);
    let all = windows_running(procs, desktop, exe);
    lemma_filter_subset(all, is_new(procs, not_before));
    law_enumeration(desktop, pids, w);
    lemma_running_exe(procs, zeds, exe, w.pid);
    if is_owned(desktop, zeds, w) {
        let i = choose|i: int|
            0 <= i < desktop.len() && desktop_view(#[trigger] desktop[i]) == w && desktop[i].visible
                && w.pid != 0 && zeds.contains(w.pid);
        if pids.contains(w.pid) {
            assert(desktop_view(desktop[i]) == w);
            assert(is_owned(desktop, pids, w));
        }
    }
    if is_owned(desktop, pids, w) {
        let i = choose|i: int|
            0 <= i < desktop.len() && desktop_view(#[trigger] desktop[i]) == w && desktop[i].visible
                && w.pid != 0 && pids.contains(w.pid);
        assert(desktop_view(desktop[i]) == w);
        assert(is_owned(desktop, zeds, w));
    }
    assert(is_new(procs, not_before)(w) <==> (started_at(procs, w.pid) matches Some(time) && time
        >= not_before));
}

/// A title that was asked for is what is looked for; else it is the folder name
/// of the project, and without a project any window does.
pub proof fn law_filter(project: Option<Seq<char>>, title: Seq<char>)
    ensures
        filter_of(project, Some(title)) == Some(title),
        project matches Some(path) ==> filter_of(project, None) == file_name(path),
        project is None ==> filter_of(project, None) is None,
{
}

/// The windows of the new session stand in the order of the enumeration, and each
/// of them is kept or left out by the creation time of its process alone.
pub proof fn law_new_windows_in_order(
    procs: Seq<ProcessInfo>,
    desktop: Seq<DesktopWindow>,
    exe: Seq<char>,
    not_before: u64,
)
    ensures
        new_windows(procs, desktop, exe, not_before) == prefer_titled(
            visible_of(desktop, running_exe(procs, pids_named(procs, "zed.exe"@), exe)),
        ).filter(
            |w: WindowView| started_at(procs, w.pid) matches Some(time) && time >= not_before,
        ),
{
    let keep = |w: WindowView| started_at(procs, w.pid) matches Some(time) && time >= not_before;
    assert(keep =~= is_new(procs, not_before));
}

/// A list of windows says what each of them is, in order, and so does one window
/// that may be missing.
pub proof fn law_windows_say(v: Seq<Window>, i: int)
    requires
        0 <= i < v.len(),
    ensures
        windows_of(v).len() == v.len(),
        windows_of(v)[i] == (WindowView {
            hwnd: v[i].hwnd,
            pid: v[i].pid,
            title: v[i].title@,
            hung: v[i].hung,
        }),
        some_window(Some(v[i])) == Some(windows_of(v)[i]),
        some_window(None) is None,
{
}

} // verus!
