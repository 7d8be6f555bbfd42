//! Text as a sequence of characters: searching, trimming, splitting, joining
//! and formatting.
//!
//! Executable code works on `[char]` slices, so that a position is the same
//! number in the code and in the contracts.
use vstd::prelude::*;
use vstd::slice::slice_subrange;
use vstd::utf8::is_ascii_chars;

verus! {

// ---------------------------------------------------------------------------
// strings and characters
// ---------------------------------------------------------------------------

/// `String::push`: appends one character at the end.
pub assume_specification[ String::push ](s: &mut String, ch: char)
    ensures
        final(s)@ == old(s)@.push(ch),
;

/// The text of an optional string.
pub open spec fn some_text(s: Option<String>) -> Option<Seq<char>> {
    match s {
        Some(s) => Some(s@),
        None => None,
    }
}

/// The characters of `s`.
pub fn chars_of(s: &str) -> (chars: Vec<char>)
    ensures
        chars@ == s@,
{
    let mut out: Vec<char> = Vec::new();
    for c in it: s.chars()
        invariant
            out@ == it.seq().take(it.index() as int),
            it.seq() == s@,
    {
        out.push(c);
    }
    out
}

/// The string made of `chars`.
pub fn string_of(chars: &[char]) -> (s: String)
    ensures
        s@ == chars@,
{
    let mut out = String::new();
    for i in 0..chars.len()
        invariant
            out@ == chars@.take(i as int),
    {
        out.push(chars[i]);
    }
    out
}

/// An owned copy of `s`.
pub fn owned(s: &str) -> (r: String)
    ensures
        r@ == s@,
{
    s.to_owned()
}

/// `char::from_u32`: the character with this number, if there is one. The
/// numbers of characters go up to `0x10FFFF` and leave out the surrogates.
pub assume_specification[ char::from_u32 ](i: u32) -> (r: Option<char>)
    ensures
        r == (if i < 0xD800 || 0xE000 <= i <= 0x10FFFF {
            Some(i as char)
        } else {
            None
        }),
;

// ---------------------------------------------------------------------------
// searching
// ---------------------------------------------------------------------------

/// `needle` stands in `hay` at position `i`.
pub open spec fn occurs_at(hay: Seq<char>, needle: Seq<char>, i: int) -> bool {
    &&& 0 <= i <= hay.len() - needle.len()
    &&& hay.subrange(i, i + needle.len()) == needle
}

/// `needle` stands somewhere in `hay`.
pub open spec fn contains(hay: Seq<char>, needle: Seq<char>) -> bool {
    exists|i: int| occurs_at(hay, needle, i)
}

/// The first position at or after `from` where `needle` stands in `hay`.
pub open spec fn find(hay: Seq<char>, needle: Seq<char>, from: int) -> Option<int>
    decreases hay.len() + 1 - from,
{
    if from < 0 || from > hay.len() - needle.len() {
        None
    } else if occurs_at(hay, needle, from) {
        Some(from)
    } else {
        find(hay, needle, from + 1)
    }
}

/// The last position where `needle` stands in `hay`.
pub open spec fn rfind(hay: Seq<char>, needle: Seq<char>) -> Option<int>
    decreases hay.len(),
{
    if hay.len() < needle.len() {
        None
    } else if occurs_at(hay, needle, hay.len() - needle.len()) {
        Some(hay.len() - needle.len())
    } else if hay.len() == 0 {
        None
    } else {
        rfind(hay.drop_last(), needle)
    }
}

/// `find` returns the least position at or after `from` where `needle` stands.
pub proof fn lemma_find(hay: Seq<char>, needle: Seq<char>, from: int)
    requires
        0 <= from,
    ensures
        match find(hay, needle, from) {
            Some(i) => from <= i && occurs_at(hay, needle, i) && forall|j: int|
                from <= j < i ==> !occurs_at(hay, needle, j),
            None => forall|j: int| from <= j ==> !occurs_at(hay, needle, j),
        },
    decreases hay.len() + 1 - from,
{
    if from <= hay.len() - needle.len() && !occurs_at(hay, needle, from) {
        lemma_find(hay, needle, from + 1);
    }
}

/// `rfind` returns the greatest position where `needle` stands.
pub proof fn lemma_rfind(hay: Seq<char>, needle: Seq<char>)
    ensures
        match rfind(hay, needle) {
            Some(i) => occurs_at(hay, needle, i) && forall|j: int|
                i < j ==> !occurs_at(hay, needle, j),
            None => forall|j: int| !occurs_at(hay, needle, j),
        },
    decreases hay.len(),
{
    if hay.len() >= needle.len() && hay.len() > 0 && !occurs_at(
        hay,
        needle,
        hay.len() - needle.len(),
    ) {
        let rest = hay.drop_last();
        lemma_rfind(rest, needle);
        assert forall|j: int| occurs_at(hay, needle, j) == occurs_at(rest, needle, j) by {
            if 0 <= j <= rest.len() - needle.len() {
                assert(rest.subrange(j, j + needle.len()) == hay.subrange(j, j + needle.len()));
            }
        }
    }
}

/// A position as a mathematical integer.
pub open spec fn index_of(r: Option<usize>) -> Option<int> {
    match r {
        Some(i) => Some(i as int),
        None => None,
    }
}

fn stands_at(hay: &[char], needle: &[char], at: usize) -> (b: bool)
    requires
        at <= hay@.len() - needle@.len(),
    ensures
        b == occurs_at(hay@, needle@, at as int),
{
    let len: usize = hay.len();
    for k in 0..needle.len()
        invariant
            len == hay@.len(),
            at <= hay@.len() - needle@.len(),
            hay@.subrange(at as int, at + k) == needle@.take(k as int),
    {
        if hay[at + k] != needle[k] {
            assert(hay@.subrange(at as int, at + needle@.len())[k as int] != needle@[k as int]);
            return false;
        }
        assert(hay@.subrange(at as int, at + k + 1) == needle@.take(k + 1));
    }
    assert(needle@.take(needle@.len() as int) == needle@);
    true
}

/// Position of the first `needle` in `hay` at or after `from`.
pub fn find_chars(hay: &[char], needle: &[char], from: usize) -> (r: Option<usize>)
    ensures
        index_of(r) == find(hay@, needle@, from as int),
        r matches Some(i) ==> from <= i <= hay@.len() - needle@.len(),
{
    if needle.len() > hay.len() {
        return None;
    }
    let last: usize = hay.len() - needle.len();
    if from > last {
        return None;
    }
    let mut i: usize = from;
    while i < last
        invariant
            from <= i <= last,
            last == hay@.len() - needle@.len(),
            find(hay@, needle@, from as int) == find(hay@, needle@, i as int),
        decreases last - i,
    {
        if stands_at(hay, needle, i) {
            return Some(i);
        }
        i += 1;
    }
    if stands_at(hay, needle, last) {
        Some(last)
    } else {
        assert(find(hay@, needle@, last + 1) is None);
        None
    }
}

/// Position of the last `needle` in `hay`.
pub fn rfind_chars(hay: &[char], needle: &[char]) -> (r: Option<usize>)
    ensures
        index_of(r) == rfind(hay@, needle@),
        r matches Some(i) ==> i <= hay@.len() - needle@.len(),
{
    if needle.len() > hay.len() {
        return None;
    }
    let mut i: usize = hay.len() - needle.len();
    assert(hay@.take(hay@.len() as int) == hay@);
    loop
        invariant
            i <= hay@.len() - needle@.len(),
            rfind(hay@, needle@) == rfind(hay@.take(i + needle@.len()), needle@),
        decreases i,
    {
        let ghost head = hay@.take(i + needle@.len());
        assert(head.subrange(i as int, i + needle@.len()) == hay@.subrange(
            i as int,
            i + needle@.len(),
        ));
        if stands_at(hay, needle, i) {
            return Some(i);
        }
        if i == 0 {
            assert(needle@.len() == 0 ==> hay@.subrange(0, 0) == needle@);
            assert(needle@.len() > 0 ==> rfind(head.drop_last(), needle@) is None);
            return None;
        }
        i -= 1;
        assert(head.drop_last() == hay@.take(i + needle@.len()));
    }
}

/// Whether `needle` stands somewhere in `hay`.
pub fn contains_chars(hay: &[char], needle: &[char]) -> (b: bool)
    ensures
        b == contains(hay@, needle@),
{
    proof {
        lemma_find(hay@, needle@, 0);
    }
    find_chars(hay, needle, 0).is_some()
}

/// Whether `s` begins with `prefix`.
pub fn starts_with(s: &[char], prefix: &[char]) -> (b: bool)
    ensures
        b == prefix@.is_prefix_of(s@),
{
    if prefix.len() > s.len() {
        return false;
    }
    stands_at(s, prefix, 0)
}

/// Whether two texts are equal.
pub fn same_text(a: &[char], b: &[char]) -> (r: bool)
    ensures
        r == (a@ == b@),
{
    if a.len() != b.len() {
        return false;
    }
    assert(a@.subrange(0, a@.len() as int) == a@);
    stands_at(a, b, 0)
}

// ---------------------------------------------------------------------------
// white space, lines
// ---------------------------------------------------------------------------

/// The Unicode property `White_Space`.
pub open spec fn is_space(c: char) -> bool {
    ||| 0x09 <= c as u32 <= 0x0D
    ||| c as u32 == 0x20
    ||| c as u32 == 0x85
    ||| c as u32 == 0xA0
    ||| c as u32 == 0x1680
    ||| 0x2000 <= c as u32 <= 0x200A
    ||| c as u32 == 0x2028
    ||| c as u32 == 0x2029
    ||| c as u32 == 0x202F
    ||| c as u32 == 0x205F
    ||| c as u32 == 0x3000
}

/// Whether `c` is white space.
pub fn is_whitespace(c: char) -> (b: bool)
    ensures
        b == is_space(c),
{
    let n: u32 = c as u32;
    (0x09 <= n && n <= 0x0D) || n == 0x20 || n == 0x85 || n == 0xA0 || n == 0x1680 || (0x2000 <= n
        && n <= 0x200A) || n == 0x2028 || n == 0x2029 || n == 0x202F || n == 0x205F || n == 0x3000
}

/// `s` without the white space in front.
pub open spec fn trim_start(s: Seq<char>) -> Seq<char>
    decreases s.len(),
{
    if s.len() > 0 && is_space(s[0]) {
        trim_start(s.skip(1))
    } else {
        s
    }
}

/// The part of `s` behind its leading white space.
pub fn trimmed(s: &[char]) -> (r: &[char])
    ensures
        r@ == trim_start(s@),
{
    let len: usize = s.len();
    let mut i: usize = 0;
    assert(s@.skip(0) == s@);
    while i < len && is_whitespace(s[i])
        invariant
            i <= len == s@.len(),
            trim_start(s@) == trim_start(s@.skip(i as int)),
        decreases len - i,
    {
        assert(s@.skip(i as int).skip(1) == s@.skip(i + 1));
        i += 1;
    }
    slice_subrange(s, i, len)
}

/// A line's text without the carriage return that ends it.
pub open spec fn strip_return(line: Seq<char>) -> Seq<char> {
    if line.len() > 0 && line.last() == '\r' {
        line.drop_last()
    } else {
        line
    }
}

/// The lines of `s`: each ends at `\n` or `\r\n`, which is not part of it; a
/// line end at the very end of `s` starts no further line.
pub open spec fn lines(s: Seq<char>) -> Seq<Seq<char>>
    decreases s.len(),
{
    if s.len() == 0 {
        Seq::empty()
    } else {
        match find(s, seq!['\n'], 0) {
            Some(i) => if 0 <= i < s.len() {
                seq![strip_return(s.take(i))] + lines(s.skip(i + 1))
            } else {
                seq![s]
            },
            None => seq![s],
        }
    }
}

/// The texts of a list of strings.
pub open spec fn texts(v: Seq<String>) -> Seq<Seq<char>> {
    Seq::new(v.len(), |i: int| v[i]@)
}

/// The lines of `s`.
pub fn lines_of(s: &[char]) -> (r: Vec<String>)
    ensures
        texts(r@) == lines(s@),
{
    let mut out: Vec<String> = Vec::new();
    let newline: [char; 1] = ['\n'];
    let len: usize = s.len();
    let mut from: usize = 0;
    assert(s@.skip(0) == s@);
    while from < len
        invariant
            from <= len == s@.len(),
            newline@ == seq!['\n'],
            lines(s@) == texts(out@) + lines(s@.skip(from as int)),
        decreases len - from,
    {
        let rest = slice_subrange(s, from, len);
        assert(rest@ == s@.skip(from as int));
        proof {
            lemma_find(rest@, newline@, 0);
        }
        let ghost before = out@;
        match find_chars(rest, &newline, 0) {
            Some(i) => {
                let line = slice_subrange(rest, 0, i);
                let end: usize = if i > 0 && line[i - 1] == '\r' {
                    i - 1
                } else {
                    i
                };
                out.push(string_of(slice_subrange(line, 0, end)));
                assert(out@.last()@ == strip_return(rest@.take(i as int)));
                assert(texts(out@) == texts(before) + seq![strip_return(rest@.take(i as int))]);
                assert(rest@.skip(i + 1) == s@.skip(from + i + 1));
                from = from + i + 1;
            },
            None => {
                out.push(string_of(rest));
                assert(texts(out@) == texts(before) + seq![rest@]);
                from = len;
                assert(s@.skip(len as int) == Seq::<char>::empty());
            },
        }
    }
    assert(s@.skip(len as int) == Seq::<char>::empty());
    out
}

/// `parts` one behind the other, with `sep` between neighbours.
pub open spec fn join(parts: Seq<Seq<char>>, sep: Seq<char>) -> Seq<char>
    decreases parts.len(),
{
    if parts.len() == 0 {
        Seq::empty()
    } else if parts.len() == 1 {
        parts[0]
    } else {
        join(parts.drop_last(), sep) + sep + parts.last()
    }
}

/// The strings of `parts` joined by `sep`.
pub fn joined(parts: &Vec<String>, sep: &str) -> (r: String)
    ensures
        r@ == join(texts(parts@), sep@),
{
    let mut out = String::new();
    for i in 0..parts.len()
        invariant
            out@ == join(texts(parts@).take(i as int), sep@),
    {
        let ghost all = texts(parts@);
        if i > 0 {
            out.append(sep);
        }
        out.append(parts[i].as_str());
        assert(all.take(i + 1).drop_last() == all.take(i as int));
    }
    assert(texts(parts@).take(parts@.len() as int) == texts(parts@));
    out
}

/// A filter keeps exactly the elements that it is to keep.
pub proof fn lemma_filter_subset<A>(all: Seq<A>, keep: spec_fn(A) -> bool)
    ensures
        forall|w: A| #[trigger]
            all.filter(keep).contains(w) <==> all.contains(w) && keep(w),
    decreases all.len(),
{
    reveal(Seq::filter);
    let kept = all.filter(keep);
    if all.len() > 0 {
        let head = all.drop_last();
        let before = head.filter(keep);
        lemma_filter_subset(head, keep);
        assert forall|w: A| #[trigger] kept.contains(w) <==> all.contains(w) && keep(w) by {
            if kept.contains(w) {
                let k = choose|k: int| 0 <= k < kept.len() && kept[k] == w;
                if k < before.len() {
                    assert(before[k] == w);
                    assert(before.contains(w));
                    let i = choose|i: int| 0 <= i < head.len() && head[i] == w;
                    assert(all[i] == w);
                } else {
                    assert(all[all.len() - 1] == w);
                }
            }
            if all.contains(w) && keep(w) {
                let i = choose|i: int| 0 <= i < all.len() && all[i] == w;
                if i < head.len() {
                    assert(head[i] == w);
                    assert(before.contains(w));
                    let k = choose|k: int| 0 <= k < before.len() && before[k] == w;
                    assert(kept[k] == w);
                } else {
                    assert(kept[before.len() as int] == w);
                }
            }
        }
    }
}

pub(crate) proof fn lemma_join_front(parts: Seq<Seq<char>>, sep: Seq<char>)
    requires
        parts.len() > 1,
    ensures
        join(parts, sep) == parts[0] + sep + join(parts.skip(1), sep),
    decreases parts.len(),
{
    let head = parts.drop_last();
    let rest = parts.skip(1);
    assert(rest.last() == parts.last());
    if parts.len() == 2 {
        assert(join(head, sep) == parts[0]);
        assert(join(rest, sep) == parts[1]);
    } else {
        lemma_join_front(head, sep);
        assert(head.skip(1) == rest.drop_last());
        assert(join(parts, sep) == parts[0] + sep + join(rest, sep));
    }
}

/// `s` holds no line end.
pub open spec fn is_one_line(s: Seq<char>) -> bool {
    forall|i: int| 0 <= i < s.len() ==> #[trigger] s[i] != '\n'
}

proof fn lemma_newline_at(s: Seq<char>, i: int)
    requires
        0 <= i < s.len(),
    ensures
        occurs_at(s, seq!['\n'], i) <==> s[i] == '\n',
{
    assert(s.subrange(i, i + 1)[0] == s[i]);
    assert(s[i] == '\n' ==> s.subrange(i, i + 1) == seq!['\n']);
}

/// No line holds a line end.
pub proof fn lemma_lines_are_lines(s: Seq<char>)
    ensures
        forall|k: int| 0 <= k < lines(s).len() ==> is_one_line(#[trigger] lines(s)[k]),
    decreases s.len(),
{
    if s.len() > 0 {
        let all = lines(s);
        lemma_find(s, seq!['\n'], 0);
        match find(s, seq!['\n'], 0) {
            Some(i) => {
                let rest = s.skip(i + 1);
                lemma_lines_are_lines(rest);
                let first = strip_return(s.take(i));
                assert forall|j: int| 0 <= j < first.len() implies #[trigger] first[j] != '\n' by {
                    lemma_newline_at(s, j);
                }
                assert forall|k: int| 0 <= k < all.len() implies is_one_line(#[trigger] all[k]) by {
                    if k > 0 {
                        assert(all[k] == lines(rest)[k - 1]);
                    }
                }
            },
            None => {
                assert forall|j: int| 0 <= j < s.len() implies #[trigger] s[j] != '\n' by {
                    lemma_newline_at(s, j);
                }
            },
        }
    }
}

proof fn lemma_find_newline(text: Seq<char>, from: int, n: int)
    requires
        0 <= from <= n < text.len(),
        text[n] == '\n',
        forall|j: int| from <= j < n ==> #[trigger] text[j] != '\n',
    ensures
        find(text, seq!['\n'], from) == Some(n),
    decreases n - from,
{
    lemma_newline_at(text, from);
    if from < n {
        lemma_find_newline(text, from + 1, n);
    }
}

proof fn lemma_first_line(line: Seq<char>, rest: Seq<char>)
    requires
        is_one_line(line),
    ensures
        lines(line + seq!['\n'] + rest) == seq![strip_return(line)] + lines(rest),
{
    let text = line + seq!['\n'] + rest;
    let n = line.len() as int;
    assert forall|j: int| 0 <= j < n implies #[trigger] text[j] != '\n' by {
        assert(text[j] == line[j]);
    }
    lemma_find_newline(text, 0, n);
    assert(text.take(n) == line);
    assert(text.skip(n + 1) == rest);
}

proof fn lemma_only_line(line: Seq<char>)
    requires
        is_one_line(line),
    ensures
        lines(line).len() <= 1,
        lines(line).len() == 1 ==> lines(line)[0] == line,
{
    lemma_find(line, seq!['\n'], 0);
    if let Some(i) = find(line, seq!['\n'], 0) {
        lemma_newline_at(line, i);
    }
}

/// The lines of lines joined by line ends are these lines, but that a carriage
/// return at the end of one goes with its line end, and an empty last line is
/// none.
pub proof fn lemma_lines_of_join(parts: Seq<Seq<char>>)
    requires
        forall|k: int| 0 <= k < parts.len() ==> is_one_line(#[trigger] parts[k]),
    ensures
        ({
            let all = lines(join(parts, "\n"@));
            &&& all.len() <= parts.len()
            &&& forall|k: int|
                0 <= k < all.len() ==> #[trigger] all[k] == parts[k] || all[k] == strip_return(
                    parts[k],
                )
        }),
    decreases parts.len(),
{
    let sep = "\n"@;
    assert(sep == seq!['\n']) by {
        reveal_strlit("\n");
    }
    if parts.len() == 1 {
        lemma_only_line(parts[0]);
    } else if parts.len() > 1 {
        let rest = parts.skip(1);
        let tail = lines(join(rest, sep));
        let all = lines(join(parts, sep));
        assert forall|k: int| 0 <= k < rest.len() implies is_one_line(#[trigger] rest[k]) by {
            assert(rest[k] == parts[k + 1]);
        }
        lemma_lines_of_join(rest);
        lemma_join_front(parts, sep);
        lemma_first_line(parts[0], join(rest, sep));
        assert(all == seq![strip_return(parts[0])] + tail);
        assert forall|k: int| 0 <= k < all.len() implies #[trigger] all[k] == parts[k] || all[k]
            == strip_return(parts[k]) by {
            if k > 0 {
                assert(all[k] == tail[k - 1]);
                assert(rest[k - 1] == parts[k]);
            }
        }
    }
}

// ---------------------------------------------------------------------------
// letter case
// ---------------------------------------------------------------------------

/// `c` with an ASCII capital letter made small.
pub open spec fn lower_char(c: char) -> char {
    if 'A' <= c <= 'Z' {
        (c as u32 + 32) as char
    } else {
        c
    }
}

/// `s` with its ASCII capital letters made small.
pub open spec fn ascii_lower(s: Seq<char>) -> Seq<char> {
    Seq::new(s.len(), |i: int| lower_char(s[i]))
}

/// What `str::to_lowercase` makes of a text.
pub uninterp spec fn lowercase(s: Seq<char>) -> Seq<char>;

/// `str::to_lowercase`: the Unicode lower-case mapping, which is a function of
/// the text alone. Of ASCII text it changes the capital letters only, as
/// `to_ascii_lowercase` does. What it makes of other characters is not stated.
pub assume_specification[ str::to_lowercase ](s: &str) -> (r: String)
    ensures
        r@ == lowercase(s@),
        is_ascii_chars(s@) ==> r@ == ascii_lower(s@),
;

/// The Unicode lower-case mapping.
pub open spec fn unicode_case() -> spec_fn(Seq<char>) -> Seq<char> {
    |s: Seq<char>| lowercase(s)
}

/// The lower-case mapping of ASCII letters alone.
pub open spec fn ascii_case() -> spec_fn(Seq<char>) -> Seq<char> {
    |s: Seq<char>| ascii_lower(s)
}

fn lowered(c: char) -> (r: char)
    ensures
        r == lower_char(c),
{
    if 'A' <= c && c <= 'Z' {
        (c as u8 + 32) as char
    } else {
        c
    }
}

/// Whether two texts are equal up to the case of ASCII letters.
pub fn eq_ignore_ascii_case(a: &[char], b: &[char]) -> (r: bool)
    ensures
        r == (ascii_lower(a@) == ascii_lower(b@)),
{
    if a.len() != b.len() {
        assert(ascii_lower(a@).len() != ascii_lower(b@).len());
        return false;
    }
    for i in 0..a.len()
        invariant
            a@.len() == b@.len(),
            ascii_lower(a@).take(i as int) == ascii_lower(b@).take(i as int),
    {
        if lowered(a[i]) != lowered(b[i]) {
            assert(ascii_lower(a@)[i as int] != ascii_lower(b@)[i as int]);
            return false;
        }
        assert(ascii_lower(a@).take(i + 1) == ascii_lower(b@).take(i + 1));
    }
    assert(ascii_lower(a@).take(a@.len() as int) == ascii_lower(a@));
    assert(ascii_lower(b@).take(b@.len() as int) == ascii_lower(b@));
    true
}

// ---------------------------------------------------------------------------
// numbers
// ---------------------------------------------------------------------------

/// The decimal digits of `n`, without leading zeros.
pub open spec fn decimal(n: nat) -> Seq<char>
    decreases n,
{
    if n < 10 {
        seq![(48 + n) as char]
    } else {
        decimal(n / 10).push((48 + n % 10) as char)
    }
}

/// Appends the decimal digits of `n`.
pub fn push_decimal(out: &mut String, n: u128)
    ensures
        final(out)@ == old(out)@ + decimal(n as nat),
    decreases n,
{
    if n >= 10 {
        push_decimal(out, n / 10);
    }
    let digit: u8 = (n % 10) as u8;
    out.push((48u8 + digit) as char);
}

/// The `width` lowest hexadecimal digits of `n`.
pub open spec fn hex(n: nat, width: nat) -> Seq<char>
    decreases width,
{
    if width == 0 {
        Seq::empty()
    } else {
        let d = n % 16;
        hex(n / 16, (width - 1) as nat).push((if d < 10 { 48 + d } else { 87 + d }) as char)
    }
}

/// Appends the `width` lowest hexadecimal digits of `n`.
pub fn push_hex(out: &mut String, n: u32, width: u32)
    ensures
        final(out)@ == old(out)@ + hex(n as nat, width as nat),
    decreases width,
{
    if width > 0 {
        push_hex(out, n / 16, width - 1);
        let d: u8 = (n % 16) as u8;
        let code: u8 = if d < 10 {
            48u8 + d
        } else {
            87u8 + d
        };
        out.push(code as char);
    }
}

/// A list of numbers in brackets, such as `[162, 160, 191]`.
pub open spec fn list_text(codes: Seq<u16>) -> Seq<char> {
    "["@ + join(Seq::new(codes.len(), |i: int| decimal(codes[i] as nat)), ", "@) + "]"@
}

/// Appends a list of numbers in brackets.
pub fn push_list(out: &mut String, codes: &Vec<u16>)
    ensures
        final(out)@ == old(out)@ + list_text(codes@),
{
    let ghost all = Seq::new(codes@.len(), |i: int| decimal(codes@[i] as nat));
    let mut parts: Vec<String> = Vec::new();
    for i in 0..codes.len()
        invariant
            all == Seq::new(codes@.len(), |i: int| decimal(codes@[i] as nat)),
            texts(parts@) == all.take(i as int),
    {
        let mut part = String::new();
        push_decimal(&mut part, codes[i] as u128);
        let ghost before = parts@;
        assert(part@ == all[i as int]);
        parts.push(part);
        assert(texts(parts@) == texts(before).push(all[i as int]));
        assert(texts(parts@) == all.take(i + 1));
    }
    assert(all.take(all.len() as int) == all);
    let inner = joined(&parts, ", ");
    out.append("[");
    out.append(inner.as_str());
    out.append("]");
    assert(out@ == old(out)@ + list_text(codes@));
}

// ---------------------------------------------------------------------------
// laws
// ---------------------------------------------------------------------------

/// A text stands in another exactly where that can be written as some text, the
/// first one, and some more.
pub proof fn law_contains_is_between(hay: Seq<char>, needle: Seq<char>)
    ensures
        contains(hay, needle) <==> exists|a: Seq<char>, b: Seq<char>|
            hay == #[trigger] (a + needle + b),
{
    if contains(hay, needle) {
        let i = choose|i: int| occurs_at(hay, needle, i);
        let a = hay.take(i);
        let b = hay.skip(i + needle.len());
        assert(hay == a + needle + b) by {
            assert(hay.subrange(i, i + needle.len()) == needle);
            assert forall|k: int| 0 <= k < hay.len() implies hay[k] == #[trigger] (a + needle
                + b)[k] by {
                if i <= k < i + needle.len() {
                    assert(hay.subrange(i, i + needle.len())[k - i] == hay[k]);
                }
            }
        }
    }
    if exists|a: Seq<char>, b: Seq<char>| hay == #[trigger] (a + needle + b) {
        let (a, b) = choose|a: Seq<char>, b: Seq<char>| hay == #[trigger] (a + needle + b);
        law_contained_between(a, needle, b);
    }
}

/// A text stands in any text that it was put into.
pub proof fn law_contained_between(a: Seq<char>, needle: Seq<char>, b: Seq<char>)
    ensures
        contains(a + needle + b, needle),
{
    let hay = a + needle + b;
    let i = a.len() as int;
    assert(hay.subrange(i, i + needle.len()) == needle);
    assert(occurs_at(hay, needle, i));
}

/// Nothing joined is nothing, one part joined is that part, and each further
/// part comes behind one separator.
pub proof fn law_join(parts: Seq<Seq<char>>, part: Seq<char>, sep: Seq<char>)
    ensures
        join(Seq::empty(), sep) == Seq::<char>::empty(),
        join(seq![part], sep) == part,
        parts.len() > 0 ==> join(parts.push(part), sep) == join(parts, sep) + sep + part,
{
    assert(parts.push(part).drop_last() == parts);
}

/// Each part stands in what is joined.
pub proof fn law_join_holds_its_parts(parts: Seq<Seq<char>>, sep: Seq<char>, i: int)
    requires
        0 <= i < parts.len(),
    ensures
        contains(join(parts, sep), parts[i]),
    decreases parts.len(),
{
    let none = Seq::<char>::empty();
    if parts.len() == 1 {
        law_contained_between(none, parts[0], none);
        assert(none + parts[0] + none == parts[0]);
    } else {
        let head = parts.drop_last();
        if i < head.len() {
            law_join_holds_its_parts(head, sep, i);
            assert(head[i] == parts[i]);
            law_contains_is_between(join(head, sep), parts[i]);
            let (a, b) = choose|a: Seq<char>, b: Seq<char>|
                join(head, sep) == #[trigger] (a + parts[i] + b);
            law_contained_between(a, parts[i], b + sep + parts.last());
            assert(join(parts, sep) == a + parts[i] + (b + sep + parts.last()));
        } else {
            law_contained_between(join(head, sep) + sep, parts.last(), none);
            assert(join(parts, sep) == join(head, sep) + sep + parts.last() + none);
        }
    }
}

/// White space is the tab, the four characters behind it, the space, the two
/// line ends that Unicode adds and the spaces of every width.
pub proof fn law_white_space(c: char)
    ensures
        is_space(c) <==> seq![
            '\t',
            '\n',
            '\u{b}',
            '\u{c}',
            '\r',
            ' ',
            '\u{85}',
            '\u{a0}',
            '\u{1680}',
            '\u{2000}',
            '\u{2001}',
            '\u{2002}',
            '\u{2003}',
            '\u{2004}',
            '\u{2005}',
            '\u{2006}',
            '\u{2007}',
            '\u{2008}',
            '\u{2009}',
            '\u{200a}',
            '\u{2028}',
            '\u{2029}',
            '\u{202f}',
            '\u{205f}',
            '\u{3000}',
        ].contains(c),
{
    let all = seq![
        '\t',
        '\n',
        '\u{b}',
        '\u{c}',
        '\r',
        ' ',
        '\u{85}',
        '\u{a0}',
        '\u{1680}',
        '\u{2000}',
        '\u{2001}',
        '\u{2002}',
        '\u{2003}',
        '\u{2004}',
        '\u{2005}',
        '\u{2006}',
        '\u{2007}',
        '\u{2008}',
        '\u{2009}',
        '\u{200a}',
        '\u{2028}',
        '\u{2029}',
        '\u{202f}',
        '\u{205f}',
        '\u{3000}',
    ];
    if is_space(c) {
        let n = c as u32;
        let i: int = if n <= 0x0D {
            n - 9
        } else if n == 0x20 {
            5
        } else if n == 0x85 {
            6
        } else if n == 0xA0 {
            7
        } else if n == 0x1680 {
            8
        } else if n <= 0x200A {
            9 + (n - 0x2000)
        } else if n == 0x2028 {
            20
        } else if n == 0x2029 {
            21
        } else if n == 0x202F {
            22
        } else if n == 0x205F {
            23
        } else {
            24
        };
        assert(all[i] as u32 == n);
        assert(all[i] == c);
    }
}

/// What is cut off in front is white space, and all of it: the rest begins with
/// something else.
pub proof fn law_trim_start(s: Seq<char>)
    ensures
        trim_start(s).is_suffix_of(s),
        forall|i: int|
            0 <= i < s.len() - trim_start(s).len() ==> is_space(#[trigger] s[i]),
        trim_start(s).len() > 0 ==> !is_space(trim_start(s)[0]),
    decreases s.len(),
{
    if s.len() > 0 && is_space(s[0]) {
        let rest = s.skip(1);
        let cut = trim_start(rest);
        law_trim_start(rest);
        assert(cut == rest.subrange(rest.len() - cut.len(), rest.len() as int));
        assert(cut == s.subrange(s.len() - cut.len(), s.len() as int));
        assert forall|i: int| 0 <= i < s.len() - cut.len() implies is_space(#[trigger] s[i]) by {
            if i > 0 {
                assert(rest[i - 1] == s[i]);
            }
        }
    } else {
        assert(s == s.subrange(0, s.len() as int));
    }
}

/// A text without a line end is one line, unless it is empty. A line end
/// finishes a line, with a carriage return in front of it, and what follows is
/// split in the same way.
pub proof fn law_lines(line: Seq<char>, rest: Seq<char>)
    requires
        forall|i: int| 0 <= i < line.len() ==> #[trigger] line[i] != '\n',
    ensures
        lines(Seq::empty()) == Seq::<Seq<char>>::empty(),
        line.len() > 0 ==> lines(line) == seq![line],
        lines(line + seq!['\n'] + rest) == seq![
            if line.len() > 0 && line.last() == '\r' {
                line.drop_last()
            } else {
                line
            },
        ] + lines(rest),
{
    lemma_only_line(line);
    lemma_find(line, seq!['\n'], 0);
    if let Some(i) = find(line, seq!['\n'], 0) {
        lemma_newline_at(line, i);
    }
    lemma_first_line(line, rest);
}

/// Making ASCII letters small moves each capital letter by 32 and leaves every
/// other character as it is.
pub proof fn law_ascii_lower(s: Seq<char>, i: int)
    requires
        0 <= i < s.len(),
    ensures
        ascii_lower(s).len() == s.len(),
        65 <= s[i] as u32 <= 90 ==> ascii_lower(s)[i] as u32 == s[i] as u32 + 32,
        !(65 <= s[i] as u32 <= 90) ==> ascii_lower(s)[i] == s[i],
{
}

/// The number that decimal digits stand for.
pub open spec fn digits_value(digits: Seq<char>) -> int
    decreases digits.len(),
{
    if digits.len() == 0 {
        0
    } else {
        digits_value(digits.drop_last()) * 10 + (digits.last() as u32 - 48)
    }
}

/// The digits of a number stand for it, and do not begin with a zero but for the
/// zero itself.
pub proof fn law_decimal(n: nat)
    ensures
        digits_value(decimal(n)) == n,
        decimal(n).len() > 0,
        forall|i: int| 0 <= i < decimal(n).len() ==> '0' <= #[trigger] decimal(n)[i] <= '9',
        n > 0 ==> decimal(n)[0] != '0',
        n == 0 ==> decimal(n) == seq!['0'],
    decreases n,
{
    let all = decimal(n);
    if n < 10 {
        assert(all.drop_last() == Seq::<char>::empty());
        assert(digits_value(Seq::empty()) == 0);
        assert(all[0] as u32 == 48 + n);
    } else {
        let head = decimal(n / 10);
        law_decimal(n / 10);
        assert(all.drop_last() == head);
        assert(all.last() as u32 == 48 + n % 10);
        assert(all[0] == head[0]);
        assert forall|i: int| 0 <= i < all.len() implies '0' <= #[trigger] all[i] <= '9' by {
            if i < head.len() {
                assert(all[i] == head[i]);
            }
        }
    }
}

/// A hexadecimal number has as many digits as asked for; each digit stands for a
/// remainder by sixteen.
pub proof fn law_hex(n: nat, width: nat, digit: nat)
    requires
        digit < 16,
    ensures
        hex(n, width).len() == width,
        hex(16 * n + digit, width + 1) == hex(n, width).push("0123456789abcdef"@[digit as int]),
    decreases width,
{
    reveal_strlit("0123456789abcdef");
    let m = 16 * n + digit;
    assert(m % 16 == digit && m / 16 == n);
    if width > 0 {
        law_hex(n / 16, (width - 1) as nat, 0);
    }
    assert(hex(m, width + 1) == hex(n, width).push(
        (if digit < 10 { 48 + digit } else { 87 + digit }) as char,
    ));
}

/// A list of numbers stands in brackets, with a comma and a space between
/// neighbours.
pub proof fn law_list_text(codes: Seq<u16>, code: u16)
    ensures
        list_text(Seq::empty()) == "[]"@,
        list_text(seq![code]) == "["@ + decimal(code as nat) + "]"@,
        codes.len() > 0 ==> list_text(codes.push(code)) == list_text(codes).drop_last() + ", "@
            + decimal(code as nat) + "]"@,
{
    reveal_strlit("[");
    reveal_strlit("]");
    reveal_strlit("[]");
    let parts = |codes: Seq<u16>| Seq::new(codes.len(), |i: int| decimal(codes[i] as nat));
    assert(parts(Seq::empty()) == Seq::<Seq<char>>::empty());
    assert(list_text(Seq::empty()) == "[]"@);
    assert(parts(seq![code]) == seq![decimal(code as nat)]);
    law_join(parts(codes), decimal(code as nat), ", "@);
    assert(parts(codes.push(code)) == parts(codes).push(decimal(code as nat)));
    assert(list_text(codes).drop_last() == "["@ + join(parts(codes), ", "@));
    if codes.len() > 0 {
        assert(list_text(codes.push(code)) == list_text(codes).drop_last() + ", "@ + decimal(
            code as nat,
        ) + "]"@);
    }
}

/// An optional string says what it holds, and a list of strings what each of them
/// holds.
pub proof fn law_texts(s: String, v: Seq<String>, i: int)
    requires
        0 <= i < v.len(),
    ensures
        some_text(Some(s)) == Some(s@),
        some_text(None) is None,
        texts(v).len() == v.len(),
        texts(v)[i] == v[i]@,
{
}

} // verus!
