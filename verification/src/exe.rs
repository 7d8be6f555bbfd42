//! Finding Zed's executable on disk.
use vstd::prelude::*;
use vstd::slice::slice_subrange;

use crate::text::{
    chars_of, find, find_chars, join, lemma_find, lemma_join_front, occurs_at, some_text, string_of,
    texts,
};
use crate::winpath::{child, child_path};

verus! {

/// The parts of `s` between the marks `sep`.
pub open spec fn split(s: Seq<char>, sep: char) -> Seq<Seq<char>>
    decreases s.len(),
{
    match find(s, seq![sep], 0) {
        Some(i) => if 0 <= i < s.len() {
            seq![s.take(i)] + split(s.skip(i + 1), sep)
        } else {
            seq![s]
        },
        None => seq![s],
    }
}

/// The two spellings of the executable in a directory; none for an empty
/// directory name.
pub open spec fn exes_in(dir: Seq<char>) -> Seq<Seq<char>> {
    if dir.len() == 0 {
        Seq::empty()
    } else {
        seq![child(dir, "Zed.exe"@), child(dir, "zed.exe"@)]
    }
}

/// The executables in the directories from the first on.
pub open spec fn exes_in_all(dirs: Seq<Seq<char>>) -> Seq<Seq<char>>
    decreases dirs.len(),
{
    if dirs.len() == 0 {
        Seq::empty()
    } else {
        exes_in(dirs[0]) + exes_in_all(dirs.skip(1))
    }
}

/// The executables of the user's own installations.
pub open spec fn local_exes(local: Seq<char>) -> Seq<Seq<char>> {
    seq![
        child(local, "Programs\\Zed Nightly\\Zed.exe"@),
        child(local, "Programs\\Zed Preview\\Zed.exe"@),
        child(local, "Programs\\Zed\\Zed.exe"@),
    ]
}

/// Where Zed's executable is searched, in order: the path given; the Nightly,
/// Preview and Release installation in the user's local data; every directory
/// of the search path.
pub open spec fn search_order(
    given: Option<Seq<char>>,
    local: Option<Seq<char>>,
    search_path: Option<Seq<char>>,
) -> Seq<Seq<char>> {
    (match given {
        Some(given) => seq![given],
        None => Seq::empty(),
    }) + (match local {
        Some(local) => local_exes(local),
        None => Seq::empty(),
    }) + (match search_path {
        Some(search_path) => exes_in_all(split(search_path, ';')),
        None => Seq::empty(),
    })
}

fn push_text(out: &mut Vec<String>, s: String)
    ensures
        texts(final(out)@) == texts(old(out)@).push(s@),
{
    out.push(s);
    assert(texts(out@) == texts(old(out)@).push(s@));
}

fn push_dirs(out: &mut Vec<String>, search_path: &str)
    ensures
        texts(final(out)@) == texts(old(out)@) + exes_in_all(split(search_path@, ';')),
{
    let chars = chars_of(search_path);
    let sep: [char; 1] = [';'];
    let len: usize = chars.len();
    let mut from: usize = 0;
    assert(search_path@.skip(0) == search_path@);
    loop
        invariant
            chars@ == search_path@,
            len == chars@.len(),
            sep@ == seq![';'],
            from <= len,
            texts(out@) + exes_in_all(split(search_path@.skip(from as int), ';')) == texts(
                old(out)@,
            ) + exes_in_all(split(search_path@, ';')),
        decreases len - from,
    {
        let rest = slice_subrange(&chars, from, len);
        let ghost text = search_path@.skip(from as int);
        assert(rest@ == text);
        let end = find_chars(rest, &sep, 0);
        let dir = match end {
            Some(i) => slice_subrange(rest, 0, i),
            None => rest,
        };
        let ghost parts = split(text, ';');
        let ghost before = texts(out@);
        assert(parts[0] == dir@);
        if dir.len() > 0 {
            let dir = string_of(dir);
            push_text(out, child_path(dir.as_str(), "Zed.exe"));
            push_text(out, child_path(dir.as_str(), "zed.exe"));
        }
        assert(texts(out@) == before + exes_in(parts[0]));
        assert(before + (exes_in(parts[0]) + exes_in_all(parts.skip(1))) == texts(out@)
            + exes_in_all(parts.skip(1)));
        match end {
            Some(i) => {
                assert(text.skip(i + 1) == search_path@.skip(from + i + 1));
                assert(parts.skip(1) == split(text.skip(i + 1), ';'));
                from = from + i + 1;
            },
            None => {
                assert(parts.skip(1) == Seq::<Seq<char>>::empty());
                assert(texts(out@) + Seq::<Seq<char>>::empty() == texts(out@));
                return;
            },
        }
    }
}

/// The places where Zed's executable is searched, in order: `override_path`;
/// the installations in `local_app_data`, which is the value of
/// `%LOCALAPPDATA%`; every directory of `search_path`, the value of `%PATH%`.
pub fn exe_candidates(
    override_path: &Option<String>,
    local_app_data: &Option<String>,
    search_path: &Option<String>,
) -> (r: Vec<String>)
    ensures
        texts(r@) == search_order(
            some_text(*override_path),
            some_text(*local_app_data),
            some_text(*search_path),
        ),
{
    let mut out: Vec<String> = Vec::new();
    let ghost none = Seq::<Seq<char>>::empty();
    assert(texts(out@) == none);
    if let Some(path) = override_path {
        push_text(&mut out, path.clone());
    }
    let ghost first = texts(out@);
    assert(first + none == first);
    if let Some(local) = local_app_data {
        push_text(&mut out, child_path(local.as_str(), "Programs\\Zed Nightly\\Zed.exe"));
        push_text(&mut out, child_path(local.as_str(), "Programs\\Zed Preview\\Zed.exe"));
        push_text(&mut out, child_path(local.as_str(), "Programs\\Zed\\Zed.exe"));
        assert(texts(out@) == first + local_exes(local@));
    }
    let ghost second = texts(out@);
    assert(second + none == second);
    if let Some(path) = search_path {
        push_dirs(&mut out, path.as_str());
    }
    out
}

/// The first candidate that exists; `exists_at` says it of each.
pub open spec fn first_existing(candidates: Seq<Seq<char>>, exists_at: Seq<bool>) -> Option<
    Seq<char>,
>
    decreases candidates.len(),
{
    if candidates.len() == 0 || exists_at.len() == 0 {
        None
    } else if exists_at[0] {
        Some(candidates[0])
    } else {
        first_existing(candidates.skip(1), exists_at.skip(1))
    }
}

/// Locates Zed's executable: the first of the candidates that exists, where
/// `exists_at` says of each candidate, in their order, whether it does.
pub fn find_exe(candidates: &Vec<String>, exists_at: &Vec<bool>) -> (exe: Option<String>)
    ensures
        some_text(exe) == first_existing(texts(candidates@), exists_at@),
{
    let ghost all = texts(candidates@);
    let mut i: usize = 0;
    assert(all.skip(0) == all);
    assert(exists_at@.skip(0) == exists_at@);
    while i < candidates.len() && i < exists_at.len()
        invariant
            all == texts(candidates@),
            i <= candidates@.len(),
            i <= exists_at@.len(),
            first_existing(all, exists_at@) == first_existing(
                all.skip(i as int),
                exists_at@.skip(i as int),
            ),
        decreases candidates@.len() - i,
    {
        assert(all.skip(i as int)[0] == candidates@[i as int]@);
        if exists_at[i] {
            return Some(candidates[i].clone());
        }
        assert(all.skip(i as int).skip(1) == all.skip(i + 1));
        assert(exists_at@.skip(i as int).skip(1) == exists_at@.skip(i + 1));
        i += 1;
    }
    None
}

// ---------------------------------------------------------------------------
// laws
// ---------------------------------------------------------------------------

/// The first place that exists wins: what is found exists, and nothing in front
/// of it does; nothing is found only where none of the places exists.
pub proof fn law_first_existing_wins(candidates: Seq<Seq<char>>, exists_at: Seq<bool>)
    requires
        candidates.len() == exists_at.len(),
    ensures
        match first_existing(candidates, exists_at) {
            Some(exe) => exists|i: int|
                0 <= i < candidates.len() && #[trigger] exists_at[i] && candidates[i] == exe
                    && forall|k: int| 0 <= k < i ==> !#[trigger] exists_at[k],
            None => forall|k: int| 0 <= k < exists_at.len() ==> !#[trigger] exists_at[k],
        },
    decreases candidates.len(),
{
    if candidates.len() > 0 && !exists_at[0] {
        let places = candidates.skip(1);
        let marks = exists_at.skip(1);
        law_first_existing_wins(places, marks);
        match first_existing(places, marks) {
            Some(exe) => {
                let i = choose|i: int|
                    0 <= i < places.len() && #[trigger] marks[i] && places[i] == exe && forall|
                        k: int,
                    |
                        0 <= k < i ==> !#[trigger] marks[k];
                assert(exists_at[i + 1]);
                assert forall|k: int| 0 <= k < i + 1 implies !#[trigger] exists_at[k] by {
                    if k > 0 {
                        assert(exists_at[k] == marks[k - 1]);
                    }
                }
            },
            None => {
                assert forall|k: int| 0 <= k < exists_at.len() implies !#[trigger] exists_at[k] by {
                    if k > 0 {
                        assert(exists_at[k] == marks[k - 1]);
                    }
                }
            },
        }
    } else if candidates.len() > 0 {
        assert(exists_at[0]);
    }
}

/// The path given is tried before any other, and is what is found if it exists.
pub proof fn law_given_path_wins(
    given: Seq<char>,
    local: Option<Seq<char>>,
    search_path: Option<Seq<char>>,
    exists_at: Seq<bool>,
)
    requires
        exists_at.len() > 0,
        exists_at[0],
    ensures
        first_existing(search_order(Some(given), local, search_path), exists_at) == Some(given),
{
}

/// The parts of a search path are what stands between the semicolons: joined by
/// them they give it back, and none of them holds one.
pub proof fn law_split(s: Seq<char>, sep: char)
    ensures
        join(split(s, sep), seq![sep]) == s,
        split(s, sep).len() > 0,
        forall|i: int, k: int|
            0 <= i < split(s, sep).len() && 0 <= k < split(s, sep)[i].len()
                ==> #[trigger] split(s, sep)[i][k] != sep,
    decreases s.len(),
{
    let parts = split(s, sep);
    lemma_find(s, seq![sep], 0);
    match find(s, seq![sep], 0) {
        Some(n) => {
            let rest = s.skip(n + 1);
            let others = split(rest, sep);
            law_split(rest, sep);
            assert(parts == seq![s.take(n)] + others);
            assert(parts.skip(1) == others);
            lemma_join_front(parts, seq![sep]);
            assert(s.subrange(n, n + 1) == seq![sep]);
            assert(s.subrange(n, n + 1)[0] == s[n]);
            assert(s == s.take(n) + seq![sep] + rest);
            assert forall|i: int, k: int|
                0 <= i < parts.len() && 0 <= k < parts[i].len() implies #[trigger] parts[i][k]
                != sep by {
                if i == 0 {
                    lemma_mark_at(s, sep, k);
                } else {
                    assert(parts[i] == others[i - 1]);
                }
            }
        },
        None => {
            assert forall|i: int, k: int|
                0 <= i < parts.len() && 0 <= k < parts[i].len() implies #[trigger] parts[i][k]
                != sep by {
                lemma_mark_at(s, sep, k);
            }
        },
    }
}

proof fn lemma_mark_at(s: Seq<char>, mark: char, k: int)
    requires
        0 <= k < s.len(),
    ensures
        occurs_at(s, seq![mark], k) <==> s[k] == mark,
{
    assert(s.subrange(k, k + 1)[0] == s[k]);
    assert(s[k] == mark ==> s.subrange(k, k + 1) == seq![mark]);
}

/// Each directory is searched for both spellings, in order, but for those with an
/// empty name.
pub proof fn law_directories(a: Seq<Seq<char>>, b: Seq<Seq<char>>, dir: Seq<char>)
    ensures
        exes_in_all(a + b) == exes_in_all(a) + exes_in_all(b),
        exes_in_all(seq![dir]) == if dir.len() == 0 {
            Seq::empty()
        } else {
            seq![child(dir, "Zed.exe"@), child(dir, "zed.exe"@)]
        },
    decreases a.len(),
{
    assert(seq![dir].skip(1) == Seq::<Seq<char>>::empty());
    assert(exes_in_all(Seq::empty()) == Seq::<Seq<char>>::empty());
    assert(exes_in(dir) + Seq::<Seq<char>>::empty() == exes_in(dir));
    if a.len() == 0 {
        assert(a + b == b);
        assert(exes_in_all(a) + exes_in_all(b) == exes_in_all(b));
    } else {
        law_directories(a.skip(1), b, dir);
        assert((a + b).skip(1) == a.skip(1) + b);
        assert((a + b)[0] == a[0]);
        assert(exes_in_all(a + b) == exes_in_all(a) + exes_in_all(b));
    }
}

/// The path given comes first, then the Nightly, the Preview and the Release in
/// the user's own data, then the directories of the search path. What is not set
/// is left out.
pub proof fn law_search_order(
    given: Seq<char>,
    local: Seq<char>,
    search_path: Seq<char>,
    l: Option<Seq<char>>,
    p: Option<Seq<char>>,
)
    ensures
        search_order(Some(given), l, p) == seq![given] + search_order(None, l, p),
        search_order(None, Some(local), p) == seq![
            child(local, "Programs\\Zed Nightly\\Zed.exe"@),
            child(local, "Programs\\Zed Preview\\Zed.exe"@),
            child(local, "Programs\\Zed\\Zed.exe"@),
        ] + search_order(None, None, p),
        search_order(None, None, Some(search_path)) == exes_in_all(split(search_path, ';')),
        search_order(None, None, None) == Seq::<Seq<char>>::empty(),
{
    assert(search_order(Some(given), l, p) == seq![given] + search_order(None, l, p));
    assert(search_order(None, Some(local), p) == local_exes(local) + search_order(None, None, p));
    assert(search_order(None, None, Some(search_path)) == exes_in_all(split(search_path, ';')));
}

} // verus!
