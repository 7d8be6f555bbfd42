//! Windows paths as text: prefixes, file names, and the path of a child.
//!
//! The rules are those of `std::path` on Windows. They are written out here so
//! that they hold on whatever system the library runs on.
use vstd::prelude::*;
use vstd::slice::slice_subrange;

use crate::text::{chars_of, some_text, string_of};

verus! {

/// Both slashes separate the components of a path.
pub open spec fn is_separator(c: char) -> bool {
    c == '\\' || c == '/'
}

/// In a verbatim path only the backslash separates components.
pub open spec fn separates(c: char, verbatim: bool) -> bool {
    if verbatim {
        c == '\\'
    } else {
        is_separator(c)
    }
}

fn check_separates(c: char, verbatim: bool) -> (b: bool)
    ensures
        b == separates(c, verbatim),
{
    c == '\\' || (!verbatim && c == '/')
}

/// Where the component that starts at `from` ends.
pub open spec fn component_end(path: Seq<char>, from: int, verbatim: bool) -> int
    decreases path.len() - from,
{
    if from < 0 || from >= path.len() || separates(path[from], verbatim) {
        from
    } else {
        component_end(path, from + 1, verbatim)
    }
}

fn find_component_end(path: &[char], from: usize, verbatim: bool) -> (end: usize)
    requires
        from <= path@.len(),
    ensures
        end == component_end(path@, from as int, verbatim),
        from <= end <= path@.len(),
{
    let len: usize = path.len();
    let mut i: usize = from;
    while i < len && !check_separates(path[i], verbatim)
        invariant
            from <= i <= len == path@.len(),
            component_end(path@, from as int, verbatim) == component_end(
                path@,
                i as int,
                verbatim,
            ),
        decreases len - i,
    {
        i += 1;
    }
    i
}

/// A drive letter and a colon stand at `at`.
pub open spec fn drive_at(path: Seq<char>, at: int) -> bool {
    &&& 0 <= at <= path.len() - 2
    &&& 'a' <= path[at] <= 'z' || 'A' <= path[at] <= 'Z'
    &&& path[at + 1] == ':'
}

fn is_drive_at(path: &[char], at: usize) -> (b: bool)
    ensures
        b == drive_at(path@, at as int),
{
    let len: usize = path.len();
    len >= 2 && at <= len - 2 && (('a' <= path[at] && path[at] <= 'z') || ('A' <= path[at]
        && path[at] <= 'Z')) && path[at + 1] == ':'
}

/// A path that begins with `\\?\`.
pub open spec fn is_verbatim(path: Seq<char>) -> bool {
    path.len() >= 4 && path[0] == '\\' && path[1] == '\\' && path[2] == '?' && path[3] == '\\'
}

fn check_verbatim(path: &[char]) -> (b: bool)
    ensures
        b == is_verbatim(path@),
{
    path.len() >= 4 && path[0] == '\\' && path[1] == '\\' && path[2] == '?' && path[3] == '\\'
}

/// The length of a path's prefix: `C:`, `\\server\share`, `\\.\device`,
/// `\\?\C:`, `\\?\UNC\server\share` or `\\?\name`; 0 without a prefix.
pub open spec fn prefix_len(path: Seq<char>) -> int {
    if is_verbatim(path) {
        if path.len() >= 8 && path[4] == 'U' && path[5] == 'N' && path[6] == 'C' && is_separator(
            path[7],
        ) {
            let server = component_end(path, 8, true);
            let share = component_end(path, server + 1, true);
            if server < path.len() && share > server + 1 {
                share
            } else {
                server
            }
        } else if drive_at(path, 4) && (path.len() == 6 || is_separator(path[6])) {
            6
        } else {
            component_end(path, 4, true)
        }
    } else if path.len() >= 2 && is_separator(path[0]) && is_separator(path[1]) {
        if path.len() >= 4 && path[2] == '.' && is_separator(path[3]) {
            component_end(path, 4, false)
        } else {
            let server = component_end(path, 2, false);
            let share = component_end(path, server + 1, false);
            if server > 2 && server < path.len() && share > server + 1 {
                share
            } else {
                0
            }
        }
    } else if drive_at(path, 0) {
        2
    } else {
        0
    }
}

fn find_prefix_len(path: &[char]) -> (n: usize)
    ensures
        n == prefix_len(path@),
        n <= path@.len(),
{
    let len: usize = path.len();
    if check_verbatim(path) {
        if len >= 8 && path[4] == 'U' && path[5] == 'N' && path[6] == 'C' && check_separates(
            path[7],
            false,
        ) {
            let server = find_component_end(path, 8, true);
            if server < len {
                let share = find_component_end(path, server + 1, true);
                if share > server + 1 {
                    return share;
                }
            }
            server
        } else if is_drive_at(path, 4) && (len == 6 || check_separates(path[6], false)) {
            6
        } else {
            find_component_end(path, 4, true)
        }
    } else if len >= 2 && check_separates(path[0], false) && check_separates(path[1], false) {
        if len >= 4 && path[2] == '.' && check_separates(path[3], false) {
            find_component_end(path, 4, false)
        } else {
            let server = find_component_end(path, 2, false);
            if server > 2 && server < len {
                let share = find_component_end(path, server + 1, false);
                if share > server + 1 {
                    return share;
                }
            }
            0
        }
    } else if is_drive_at(path, 0) {
        2
    } else {
        0
    }
}

/// Where the components behind the prefix and the root begin.
pub open spec fn body_start(path: Seq<char>) -> int {
    let n = prefix_len(path);
    if n < path.len() && is_separator(path[n]) {
        n + 1
    } else {
        n
    }
}

fn find_body_start(path: &[char]) -> (n: usize)
    ensures
        n == body_start(path@),
        n <= path@.len(),
{
    let n = find_prefix_len(path);
    if n < path.len() && check_separates(path[n], false) {
        n + 1
    } else {
        n
    }
}

// ---------------------------------------------------------------------------
// file name
// ---------------------------------------------------------------------------

/// Where the last component of `body` begins.
pub open spec fn last_start(body: Seq<char>, verbatim: bool) -> int
    decreases body.len(),
{
    if body.len() == 0 || separates(body.last(), verbatim) {
        body.len() as int
    } else {
        last_start(body.drop_last(), verbatim)
    }
}

/// The last component of `body` that counts, if it is a name. Empty components
/// do not count, nor does `.` in a path that is not verbatim.
pub open spec fn last_name(body: Seq<char>, verbatim: bool) -> Option<Seq<char>>
    decreases body.len(),
{
    let start = last_start(body, verbatim);
    let name = body.skip(start);
    if name.len() == 0 || (!verbatim && name == seq!['.']) {
        if 0 < start <= body.len() {
            last_name(body.take(start - 1), verbatim)
        } else {
            None
        }
    } else if name == seq!['.'] || name == seq!['.', '.'] {
        None
    } else {
        Some(name)
    }
}

/// The file name of a path: its last component, unless that is `..`, or the
/// path has none behind its prefix and root.
pub open spec fn file_name(path: Seq<char>) -> Option<Seq<char>> {
    last_name(path.skip(body_start(path)), is_verbatim(path))
}

fn find_last_start(body: &[char], end: usize, verbatim: bool) -> (start: usize)
    requires
        end <= body@.len(),
    ensures
        start == last_start(body@.take(end as int), verbatim),
        start <= end,
{
    let mut i: usize = end;
    while i > 0 && !check_separates(body[i - 1], verbatim)
        invariant
            i <= end <= body@.len(),
            last_start(body@.take(end as int), verbatim) == last_start(
                body@.take(i as int),
                verbatim,
            ),
        decreases i,
    {
        assert(body@.take(i as int).drop_last() == body@.take(i - 1));
        i -= 1;
    }
    i
}

/// The file name of `path`.
pub fn path_file_name(path: &str) -> (name: Option<String>)
    ensures
        some_text(name) == file_name(path@),
{
    let chars = chars_of(path);
    let verbatim = check_verbatim(&chars);
    let from = find_body_start(&chars);
    let body = slice_subrange(&chars, from, chars.len());
    let mut end: usize = body.len();
    assert(body@ == path@.skip(body_start(path@)));
    assert(body@.take(end as int) == body@);
    loop
        invariant
            end <= body@.len(),
            file_name(path@) == last_name(body@.take(end as int), verbatim),
        decreases end,
    {
        let start = find_last_start(body, end, verbatim);
        let name = slice_subrange(body, start, end);
        let ghost head = body@.take(end as int);
        assert(name@ == head.skip(start as int));
        let dot = name.len() == 1 && name[0] == '.';
        assert(dot ==> name@ == seq!['.']);
        if name.len() == 0 || (!verbatim && dot) {
            if start == 0 {
                return None;
            }
            end = start - 1;
            assert(head.take(start - 1) == body@.take(end as int));
        } else {
            let dots = name.len() == 2 && name[0] == '.' && name[1] == '.';
            assert(dots ==> name@ == seq!['.', '.']);
            if dot || dots {
                return None;
            }
            return Some(string_of(name));
        }
    }
}

// ---------------------------------------------------------------------------
// child
// ---------------------------------------------------------------------------

/// The components of `body`, a verbatim path's rest from `from` on, each with a
/// backslash behind it; empty ones are dropped.
pub open spec fn verbatim_components(body: Seq<char>, from: int) -> Seq<char>
    decreases body.len() + 1 - from,
{
    let end = component_end(body, from, true);
    if from < 0 || from >= body.len() {
        Seq::empty()
    } else if from < end <= body.len() {
        body.subrange(from, end).push('\\') + verbatim_components(body, end + 1)
    } else {
        verbatim_components(body, from + 1)
    }
}

/// The path of `name` in the directory `dir`, where `name` is a plain relative
/// path, such as `Zed.exe`.
pub open spec fn child(dir: Seq<char>, name: Seq<char>) -> Seq<char> {
    if is_verbatim(dir) {
        dir.take(prefix_len(dir)).push('\\') + verbatim_components(
            dir.skip(body_start(dir)),
            0,
        ) + name
    } else if dir.len() == 0 || is_separator(dir.last()) || (dir.len() == 2 && drive_at(dir, 0)) {
        dir + name
    } else {
        dir.push('\\') + name
    }
}

fn push_chars(out: &mut String, chars: &[char])
    ensures
        final(out)@ == old(out)@ + chars@,
{
    let s = string_of(chars);
    out.append(s.as_str());
}

/// The path of the plain relative path `name` in the directory `dir`.
pub fn child_path(dir: &str, name: &str) -> (path: String)
    ensures
        path@ == child(dir@, name@),
{
    let chars = chars_of(dir);
    let len: usize = chars.len();
    let mut out = String::new();
    if check_verbatim(&chars) {
        let prefix = find_prefix_len(&chars);
        let from = find_body_start(&chars);
        push_chars(&mut out, slice_subrange(&chars, 0, prefix));
        out.push('\\');
        let body = slice_subrange(&chars, from, len);
        let ghost head = out@;
        assert(head == dir@.take(prefix_len(dir@)).push('\\'));
        assert(body@ == dir@.skip(body_start(dir@)));
        let body_len: usize = body.len();
        let mut i: usize = 0;
        while i < body_len
            invariant
                i <= body_len + 1,
                body_len == body@.len() <= len == chars@.len(),
                head + verbatim_components(body@, 0) == out@ + verbatim_components(
                    body@,
                    i as int,
                ),
            decreases body_len + 1 - i,
        {
            let end = find_component_end(body, i, true);
            if end == i {
                i += 1;
            } else {
                let ghost before = out@;
                push_chars(&mut out, slice_subrange(body, i, end));
                out.push('\\');
                assert(out@ == before + body@.subrange(i as int, end as int).push('\\'));
                assert(before + (body@.subrange(i as int, end as int).push('\\')
                    + verbatim_components(body@, end + 1)) == out@ + verbatim_components(
                    body@,
                    end + 1,
                ));
                if end < body_len {
                    i = end + 1;
                } else {
                    i = body_len;
                }
            }
        }
        assert(out@ == head + verbatim_components(body@, 0));
    } else {
        out.append(dir);
        if !(len == 0 || check_separates(chars[len - 1], false) || (len == 2 && is_drive_at(
            &chars,
            0,
        ))) {
            out.push('\\');
        }
    }
    out.append(name);
    out
}

// ---------------------------------------------------------------------------
// laws
// ---------------------------------------------------------------------------

/// A component ends at the first separator, or with the path. In a verbatim path
/// only the backslash is one.
pub proof fn law_component_end(path: Seq<char>, from: int, end: int, verbatim: bool)
    requires
        0 <= from <= end <= path.len(),
        forall|i: int|
            from <= i < end ==> #[trigger] path[i] != '\\' && (verbatim || path[i] != '/'),
        end == path.len() || path[end] == '\\' || (!verbatim && path[end] == '/'),
    ensures
        component_end(path, from, verbatim) == end,
    decreases end - from,
{
    if from < end {
        assert(!separates(path[from], verbatim));
        law_component_end(path, from + 1, end, verbatim);
    }
}

/// `s` holds neither slash.
pub open spec fn is_plain(s: Seq<char>) -> bool {
    forall|i: int| 0 <= i < s.len() ==> #[trigger] s[i] != '\\' && s[i] != '/'
}

/// `s` is empty or begins with a separator.
pub open spec fn is_rest(s: Seq<char>) -> bool {
    s.len() == 0 || s[0] == '\\' || s[0] == '/'
}

/// A drive letter and a colon are a prefix of two characters. A path that begins
/// neither so nor with two separators has no prefix.
pub proof fn law_drive_prefix(path: Seq<char>)
    ensures
        path.len() >= 2 && ('a' <= path[0] <= 'z' || 'A' <= path[0] <= 'Z') && path[1] == ':'
            ==> prefix_len(path) == 2,
        !(path.len() >= 2 && ('a' <= path[0] <= 'z' || 'A' <= path[0] <= 'Z') && path[1] == ':') && (
        path.len() < 2 || (path[0] != '\\' && path[0] != '/')
            || (path[1] != '\\' && path[1] != '/')) ==> prefix_len(path) == 0,
{
}

/// Both slashes are separators, and nothing else is.
pub proof fn law_separators(c: char)
    ensures
        is_separator(c) <==> c == '\\' || c == '/',
{
}

/// A server and a share behind two separators are a prefix.
pub proof fn law_share_prefix(
    x: char,
    y: char,
    server: Seq<char>,
    z: char,
    share: Seq<char>,
    rest: Seq<char>,
)
    requires
        is_separator(x) && is_separator(y) && is_separator(z),
        server.len() > 0,
        share.len() > 0,
        is_plain(server),
        is_plain(share),
        server != seq!['.'],
        server != seq!['?'],
        is_rest(rest),
    ensures
        prefix_len(seq![x, y] + server + seq![z] + share + rest) == 3 + server.len()
            + share.len(),
{
    let path = seq![x, y] + server + seq![z] + share + rest;
    let s = 2 + server.len() as int;
    let e = s + 1 + share.len();
    assert(path[s] == z);
    assert forall|i: int| 2 <= i < s implies #[trigger] path[i] != '\\' && path[i] != '/' by {
        assert(path[i] == server[i - 2]);
    }
    assert forall|i: int| s + 1 <= i < e implies #[trigger] path[i] != '\\' && path[i] != '/' by {
        assert(path[i] == share[i - s - 1]);
    }
    if rest.len() > 0 {
        assert(path[e] == rest[0]);
    }
    law_component_end(path, 2, s, false);
    law_component_end(path, s + 1, e, false);
    assert(path[2] == server[0]);
    if server.len() == 1 {
        assert(server == seq![server[0]]);
    } else {
        assert(path[3] == server[1]);
    }
}

/// A device behind `\\.\`, or the same with slashes, is a prefix.
pub proof fn law_device_prefix(x: char, y: char, z: char, device: Seq<char>, rest: Seq<char>)
    requires
        is_separator(x) && is_separator(y) && is_separator(z),
        is_plain(device),
        is_rest(rest),
    ensures
        prefix_len(seq![x, y, '.', z] + device + rest) == 4 + device.len(),
{
    let path = seq![x, y, '.', z] + device + rest;
    let e = 4 + device.len() as int;
    assert forall|i: int| 4 <= i < e implies #[trigger] path[i] != '\\' && path[i] != '/' by {
        assert(path[i] == device[i - 4]);
    }
    if rest.len() > 0 {
        assert(path[e] == rest[0]);
    }
    law_component_end(path, 4, e, false);
}

/// `s` holds no backslash.
pub open spec fn is_verbatim_name(s: Seq<char>) -> bool {
    forall|i: int| 0 <= i < s.len() ==> #[trigger] s[i] != '\\'
}

/// Behind the mark of a verbatim path a drive, a share and any other name are
/// prefixes.
pub proof fn law_verbatim_prefix(
    drive: char,
    server: Seq<char>,
    share: Seq<char>,
    name: Seq<char>,
    rest: Seq<char>,
)
    requires
        'a' <= drive <= 'z' || 'A' <= drive <= 'Z',
        is_verbatim_name(server),
        is_verbatim_name(share),
        share.len() > 0,
        is_verbatim_name(name),
        name.len() > 0,
        name[0] != 'U',
        name.len() < 2 || name[1] != ':',
        rest.len() > 0 ==> rest[0] == '\\',
    ensures
        prefix_len(seq!['\\', '\\', '?', '\\'] + seq![drive, ':'] + rest) == 6,
        prefix_len(
            seq!['\\', '\\', '?', '\\', 'U', 'N', 'C', '\\'] + server + seq!['\\'] + share + rest,
        ) == 9 + server.len() + share.len(),
        prefix_len(seq!['\\', '\\', '?', '\\'] + name + rest) == 4 + name.len(),
{
    let a = seq!['\\', '\\', '?', '\\'] + seq![drive, ':'] + rest;
    assert(a[4] == drive && a[5] == ':');
    if rest.len() > 0 {
        assert(a[6] == rest[0]);
    }
    let b = seq!['\\', '\\', '?', '\\', 'U', 'N', 'C', '\\'] + server + seq!['\\'] + share + rest;
    let s = 8 + server.len() as int;
    let e = s + 1 + share.len();
    assert(b[s] == '\\');
    assert forall|i: int| 8 <= i < s implies #[trigger] b[i] != '\\' by {
        assert(b[i] == server[i - 8]);
    }
    assert forall|i: int| s + 1 <= i < e implies #[trigger] b[i] != '\\' by {
        assert(b[i] == share[i - s - 1]);
    }
    if rest.len() > 0 {
        assert(b[e] == rest[0]);
    }
    law_component_end(b, 8, s, true);
    law_component_end(b, s + 1, e, true);
    let c = seq!['\\', '\\', '?', '\\'] + name + rest;
    let n = 4 + name.len() as int;
    assert forall|i: int| 4 <= i < n implies #[trigger] c[i] != '\\' by {
        assert(c[i] == name[i - 4]);
    }
    if rest.len() > 0 {
        assert(c[n] == rest[0]);
    }
    assert(c[4] == name[0]);
    if name.len() >= 2 {
        assert(c[5] == name[1]);
    }
    law_component_end(c, 4, n, true);
}

proof fn lemma_last_start(body: Seq<char>, front: Seq<char>, name: Seq<char>, verbatim: bool)
    requires
        body == front + name,
        front.len() > 0 ==> separates(front.last(), verbatim),
        forall|i: int| 0 <= i < name.len() ==> !separates(#[trigger] name[i], verbatim),
    ensures
        last_start(body, verbatim) == front.len(),
    decreases name.len(),
{
    if name.len() == 0 {
        assert(body == front);
    } else {
        assert(body.last() == name[name.len() - 1]);
        assert(body.drop_last() == front + name.drop_last());
        assert forall|i: int| 0 <= i < name.drop_last().len() implies !separates(
            #[trigger] name.drop_last()[i],
            verbatim,
        ) by {
            assert(name.drop_last()[i] == name[i]);
        }
        lemma_last_start(body.drop_last(), front, name.drop_last(), verbatim);
    }
}

/// The file name of a path is what stands behind its last separator, prefix and
/// root aside, unless that is `.` or `..`.
pub proof fn law_file_name(front: Seq<char>, name: Seq<char>)
    requires
        name.len() > 0,
        name != seq!['.'],
        name != seq!['.', '.'],
        is_plain(name),
        body_start(front + name) <= front.len(),
        body_start(front + name) == front.len() || front.last() == '\\' || (front.last() == '/'
            && !is_verbatim(front + name)),
    ensures
        file_name(front + name) == Some(name),
{
    let path = front + name;
    let n = body_start(path);
    let verbatim = is_verbatim(path);
    let head = front.skip(n);
    lemma_body_start(path);
    assert(path.skip(n) == head + name);
    if head.len() > 0 {
        assert(head.last() == front.last());
    }
    lemma_last_start(head + name, head, name, verbatim);
    assert((head + name).skip(head.len() as int) == name);
}

proof fn lemma_component_end(path: Seq<char>, from: int, verbatim: bool)
    requires
        0 <= from <= path.len(),
    ensures
        from <= component_end(path, from, verbatim) <= path.len(),
    decreases path.len() - from,
{
    if from < path.len() && !separates(path[from], verbatim) {
        lemma_component_end(path, from + 1, verbatim);
    }
}

proof fn lemma_body_start(path: Seq<char>)
    ensures
        0 <= body_start(path) <= path.len(),
{
    if path.len() >= 4 {
        lemma_component_end(path, 4, true);
        lemma_component_end(path, 4, false);
    }
    if path.len() >= 8 {
        lemma_component_end(path, 8, true);
        let server = component_end(path, 8, true);
        if server < path.len() {
            lemma_component_end(path, server + 1, true);
        }
    }
    if path.len() >= 2 {
        lemma_component_end(path, 2, false);
        let server = component_end(path, 2, false);
        if server < path.len() {
            lemma_component_end(path, server + 1, false);
        }
    }
}

/// A separator at the end of a path, and a component `.`, do not change its file
/// name: of a path that is neither verbatim nor a share.
pub proof fn law_trailing_separator(path: Seq<char>, c: char)
    requires
        path.len() > 0,
        c == '\\' || c == '/',
        path[0] != '\\' && path[0] != '/',
    ensures
        file_name(path.push(c)) == file_name(path),
        file_name(path.push(c).push('.')) == file_name(path),
{
    let n = prefix_len(path);
    let longer = path.push(c);
    let dotted = longer.push('.');
    assert(prefix_len(longer) == n);
    assert(prefix_len(dotted) == n);
    if n == path.len() {
        assert(body_start(longer) == n + 1);
        assert(longer.skip(n + 1) == Seq::<char>::empty());
        assert(path.skip(n) == Seq::<char>::empty());
        assert(dotted.skip(n + 1) == seq!['.']);
        let none = Seq::<char>::empty();
        assert(none + seq!['.'] == seq!['.']);
        lemma_last_start(seq!['.'], none, seq!['.'], false);
        assert(seq!['.'].skip(0) == seq!['.']);
    } else {
        let from = body_start(path);
        let body = path.skip(from);
        assert(body_start(longer) == from);
        assert(longer.skip(from) == body.push(c));
        assert(last_start(body.push(c), false) == body.len() + 1);
        assert(body.push(c).skip(body.len() as int + 1) == Seq::<char>::empty());
        assert(body.push(c).take(body.len() as int) == body);
        assert(last_name(body.push(c), false) == last_name(body, false));
        assert(dotted.skip(from) == body.push(c) + seq!['.']);
        lemma_last_start(body.push(c) + seq!['.'], body.push(c), seq!['.'], false);
        assert((body.push(c) + seq!['.']).skip(body.len() as int + 1) == seq!['.']);
        assert((body.push(c) + seq!['.']).take(body.len() as int) == body);
    }
}

/// A path that ends in `..` has no file name.
pub proof fn law_parent_has_no_name(front: Seq<char>)
    requires
        front.len() > 0,
        front.last() == '\\',
        body_start(front + seq!['.', '.']) <= front.len(),
    ensures
        file_name(front + seq!['.', '.']) is None,
{
    let name = seq!['.', '.'];
    let path = front + name;
    let n = body_start(path);
    let verbatim = is_verbatim(path);
    let head = front.skip(n);
    lemma_body_start(path);
    assert(path.skip(n) == head + name);
    if head.len() > 0 {
        assert(head.last() == front.last());
    }
    lemma_last_start(head + name, head, name, verbatim);
    assert((head + name).skip(head.len() as int) == name);
}

/// A path that is nothing but a prefix and a root has no file name.
pub proof fn law_root_has_no_name(path: Seq<char>)
    requires
        body_start(path) == path.len(),
    ensures
        file_name(path) is None,
{
    assert(path.skip(path.len() as int) == Seq::<char>::empty());
}

/// The path of a child is the directory and the name, with a backslash between
/// them unless the directory ends in a separator, is a drive alone, or is empty:
/// of a directory that is not verbatim.
pub proof fn law_child(dir: Seq<char>, name: Seq<char>)
    requires
        !is_verbatim(dir),
    ensures
        dir.len() == 0 ==> child(dir, name) == name,
        dir.len() > 0 && (dir.last() == '\\' || dir.last() == '/') ==> child(dir, name) == dir
            + name,
        dir.len() == 2 && dir[1] == ':' && ('a' <= dir[0] <= 'z' || 'A' <= dir[0] <= 'Z') ==> child(
            dir,
            name,
        ) == dir + name,
        dir.len() > 0 && dir.last() != '\\' && dir.last() != '/' && !(dir.len() == 2 && dir[1] == ':'
            && ('a' <= dir[0] <= 'z' || 'A' <= dir[0] <= 'Z')) ==> child(dir, name) == dir
            + seq!['\\'] + name,
{
    assert(Seq::<char>::empty() + name == name);
    assert(dir.push('\\') + name == dir + seq!['\\'] + name);
}

/// A child has the name that it was given: in a directory that is neither
/// verbatim nor a share.
pub proof fn law_child_has_its_name(dir: Seq<char>, name: Seq<char>)
    requires
        name.len() > 0,
        name != seq!['.'],
        name != seq!['.', '.'],
        is_plain(name),
        forall|i: int| 0 <= i < name.len() ==> #[trigger] name[i] != ':',
        dir.len() > 1 ==> !(is_separator(dir[0]) && is_separator(dir[1])),
    ensures
        file_name(child(dir, name)) == Some(name),
{
    let path = child(dir, name);
    let front = path.take(path.len() - name.len());
    assert(path == front + name);
    assert(name[0] != ':' && name[0] != '\\' && name[0] != '/');
    if name.len() > 1 {
        assert(name[1] != ':');
    }
    if dir.len() > 0 {
        assert(path[0] == dir[0]);
    }
    if dir.len() > 1 {
        assert(path[1] == dir[1]);
    }
    assert(!is_verbatim(path));
    assert(prefix_len(path) <= 2);
    if front.len() > 0 && body_start(path) < front.len() {
        assert(is_separator(front.last()));
    }
    law_file_name(front, name);
}

proof fn lemma_component_shift(body: Seq<char>, n: int, from: int)
    requires
        0 <= n <= from <= body.len(),
    ensures
        component_end(body.skip(n), from - n, true) == component_end(body, from, true) - n,
    decreases body.len() - from,
{
    if from < body.len() {
        assert(body.skip(n)[from - n] == body[from]);
        if !separates(body[from], true) {
            lemma_component_shift(body, n, from + 1);
        }
    }
}

proof fn lemma_components_shift(body: Seq<char>, n: int, from: int)
    requires
        0 <= n <= from,
        n <= body.len(),
    ensures
        verbatim_components(body.skip(n), from - n) == verbatim_components(body, from),
    decreases body.len() + 1 - from,
{
    if from < body.len() {
        let rest = body.skip(n);
        let end = component_end(body, from, true);
        lemma_component_shift(body, n, from);
        lemma_component_end(body, from, true);
        if from < end {
            lemma_components_shift(body, n, end + 1);
            assert(rest.subrange(from - n, end - n) == body.subrange(from, end));
        } else {
            lemma_components_shift(body, n, from + 1);
        }
    }
}

/// A verbatim directory is put together from its components, each with one
/// backslash behind it; backslashes that follow another are dropped.
pub proof fn law_verbatim_components(name: Seq<char>, rest: Seq<char>)
    requires
        name.len() > 0,
        is_verbatim_name(name),
    ensures
        verbatim_components(Seq::empty(), 0) == Seq::<char>::empty(),
        verbatim_components(seq!['\\'] + rest, 0) == verbatim_components(rest, 0),
        verbatim_components(name, 0) == name + seq!['\\'],
        verbatim_components(name + seq!['\\'] + rest, 0) == name + seq!['\\']
            + verbatim_components(rest, 0),
{
    let a = seq!['\\'] + rest;
    assert(a.skip(1) == rest);
    assert(a[0] == '\\');
    assert(component_end(a, 0, true) == 0);
    lemma_components_shift(a, 1, 1);
    let n = name.len() as int;
    law_component_end(name, 0, n, true);
    assert(name.subrange(0, n) == name);
    assert(verbatim_components(name, n + 1) == Seq::<char>::empty());
    assert(name.push('\\') + Seq::<char>::empty() == name + seq!['\\']);
    let b = name + seq!['\\'] + rest;
    assert forall|i: int| 0 <= i < n implies #[trigger] b[i] != '\\' by {
        assert(b[i] == name[i]);
    }
    assert(b[n] == '\\');
    law_component_end(b, 0, n, true);
    assert(b.subrange(0, n) == name);
    assert(b.skip(n + 1) == rest);
    lemma_components_shift(b, n + 1, n + 1);
    assert(name.push('\\') == name + seq!['\\']);
}

/// The path of a child of a verbatim directory is the prefix, a backslash, the
/// components of the directory and the name.
pub proof fn law_verbatim_child(dir: Seq<char>, name: Seq<char>)
    requires
        is_verbatim(dir),
    ensures
        child(dir, name) == dir.take(prefix_len(dir)) + seq!['\\'] + verbatim_components(
            dir.skip(body_start(dir)),
            0,
        ) + name,
{
    assert(dir.take(prefix_len(dir)).push('\\') == dir.take(prefix_len(dir)) + seq!['\\']);
}

/// The components begin behind the prefix, and behind one separator that follows
/// it.
pub proof fn law_body_start(path: Seq<char>)
    ensures
        prefix_len(path) < path.len() && (path[prefix_len(path)] == '\\' || path[prefix_len(path)]
            == '/') ==> body_start(path) == prefix_len(path) + 1,
        prefix_len(path) == path.len() ==> body_start(path) == prefix_len(path),
        prefix_len(path) < path.len() && path[prefix_len(path)] != '\\' && path[prefix_len(path)]
            != '/' ==> body_start(path) == prefix_len(path),
        file_name(path) == last_name(path.skip(body_start(path)), is_verbatim(path)),
        is_verbatim(path) <==> seq!['\\', '\\', '?', '\\'].is_prefix_of(path),
{
    if path.len() >= 4 {
        let head = path.subrange(0, 4);
        assert(head[0] == path[0] && head[1] == path[1] && head[2] == path[2] && head[3]
            == path[3]);
        if is_verbatim(path) {
            assert(head == seq!['\\', '\\', '?', '\\']);
        }
    }
}

/// The last component counts if it is a name. An empty one is passed over, and so
/// is `.` where the path is not verbatim; `..`, and `.` in a verbatim path, is no
/// name.
pub proof fn law_last_name(front: Seq<char>, name: Seq<char>, verbatim: bool)
    requires
        front.len() > 0 ==> front.last() == '\\' || (front.last() == '/' && !verbatim),
        forall|i: int|
            0 <= i < name.len() ==> #[trigger] name[i] != '\\' && (verbatim || name[i] != '/'),
    ensures
        ({
            let found = last_name(front + name, verbatim);
            if name.len() == 0 || (name == seq!['.'] && !verbatim) {
                &&& front.len() == 0 ==> found is None
                &&& front.len() > 0 ==> found == last_name(front.drop_last(), verbatim)
            } else if name == seq!['.'] || name == seq!['.', '.'] {
                found is None
            } else {
                found == Some(name)
            }
        }),
{
    let body = front + name;
    let n = front.len() as int;
    lemma_last_start(body, front, name, verbatim);
    assert(body.skip(n) == name);
    if n > 0 {
        assert(body.take(n - 1) == front.drop_last());
    }
}

/// Two separators without a server and a share behind them are no prefix.
pub proof fn law_no_share(x: char, y: char, server: Seq<char>, rest: Seq<char>)
    requires
        is_separator(x) && is_separator(y),
        is_plain(server),
        server != seq!['.'],
        server != seq!['?'],
        rest.len() > 0 ==> (rest[0] == '\\' || rest[0] == '/') && is_rest(rest.skip(1)),
    ensures
        prefix_len(seq![x, y] + server + rest) == 0,
{
    let path = seq![x, y] + server + rest;
    let s = 2 + server.len() as int;
    assert forall|i: int| 2 <= i < s implies #[trigger] path[i] != '\\' && path[i] != '/' by {
        assert(path[i] == server[i - 2]);
    }
    if rest.len() > 0 {
        assert(path[s] == rest[0]);
        if rest.len() > 1 {
            assert(path[s + 1] == rest.skip(1)[0]);
        }
    }
    law_component_end(path, 2, s, false);
    if s < path.len() {
        law_component_end(path, s + 1, s + 1, false);
    }
    if server.len() == 0 {
        if path.len() >= 3 {
            assert(path[2] == rest[0]);
        }
    } else {
        assert(path[2] == server[0]);
        if server.len() == 1 {
            assert(server == seq![server[0]]);
        } else {
            assert(path[3] == server[1]);
        }
    }
}

/// Any other name behind the mark of a verbatim path is the prefix, and a server
/// without a share is.
pub proof fn law_other_verbatim_prefix(name: Seq<char>, server: Seq<char>, rest: Seq<char>)
    requires
        is_verbatim_name(name),
        is_verbatim_name(server),
        rest.len() > 0 ==> rest[0] == '\\',
        rest.len() > 1 ==> rest[1] == '\\',
        ({
            let path = seq!['\\', '\\', '?', '\\'] + name + rest;
            &&& !(path.len() >= 8 && path[4] == 'U' && path[5] == 'N' && path[6] == 'C' && (path[7]
                == '\\' || path[7] == '/'))
            &&& !(path.len() >= 6 && path[5] == ':' && ('a' <= path[4] <= 'z' || 'A' <= path[4]
                <= 'Z') && (path.len() == 6 || path[6] == '\\' || path[6] == '/'))
        }),
    ensures
        prefix_len(seq!['\\', '\\', '?', '\\'] + name + rest) == 4 + name.len(),
        prefix_len(seq!['\\', '\\', '?', '\\', 'U', 'N', 'C', '\\'] + server + rest) == 8
            + server.len(),
{
    let c = seq!['\\', '\\', '?', '\\'] + name + rest;
    let n = 4 + name.len() as int;
    assert forall|i: int| 4 <= i < n implies #[trigger] c[i] != '\\' by {
        assert(c[i] == name[i - 4]);
    }
    if rest.len() > 0 {
        assert(c[n] == rest[0]);
    }
    law_component_end(c, 4, n, true);
    let b = seq!['\\', '\\', '?', '\\', 'U', 'N', 'C', '\\'] + server + rest;
    let s = 8 + server.len() as int;
    assert forall|i: int| 8 <= i < s implies #[trigger] b[i] != '\\' by {
        assert(b[i] == server[i - 8]);
    }
    if rest.len() > 0 {
        assert(b[s] == rest[0]);
        if rest.len() > 1 {
            assert(b[s + 1] == rest[1]);
        }
        law_component_end(b, s + 1, s + 1, true);
    }
    law_component_end(b, 8, s, true);
}

} // verus!
