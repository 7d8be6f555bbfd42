//! Where a position of a JSONC text stands: in which objects and lists, and
//! whether in a string or a comment.
use vstd::prelude::*;
use vstd::slice::slice_subrange;

use crate::text::{find, find_chars, is_space, is_whitespace, lemma_find, occurs_at, starts_with};

verus! {

/// What kind of text a position stands in.
#[derive(Clone, Copy, Debug, PartialEq, Eq, Structural)]
pub enum Place {
    /// Outside strings and comments.
    Code,
    /// Behind a slash that may begin a comment.
    Slash,
    /// In a string.
    Text,
    /// In a string, behind a backslash.
    Escaped,
    /// In a comment that ends with its line.
    Comment,
    /// In a comment that ends at `*/`.
    Block,
    /// In such a comment, behind a star.
    Star,
}

/// Where a position stands: the kind of text, and the positions of the brackets
/// that are open there, from the outermost to the innermost.
pub ghost struct Nesting {
    pub place: Place,
    pub open: Seq<int>,
}

/// Where the position behind a character outside strings and comments stands.
pub open spec fn step_in_code(n: Nesting, c: char, at: int) -> Nesting {
    if c == '"' {
        Nesting { place: Place::Text, open: n.open }
    } else if c == '/' {
        Nesting {
            place: if n.place == Place::Slash {
                Place::Comment
            } else {
                Place::Slash
            },
            open: n.open,
        }
    } else if c == '*' && n.place == Place::Slash {
        Nesting { place: Place::Block, open: n.open }
    } else if c == '{' || c == '[' {
        Nesting { place: Place::Code, open: n.open.push(at) }
    } else if (c == '}' || c == ']') && n.open.len() > 0 {
        Nesting { place: Place::Code, open: n.open.drop_last() }
    } else {
        Nesting { place: Place::Code, open: n.open }
    }
}

/// Where the position behind the character `c`, which is at `at`, stands. A
/// string ends at its quote, or with its line if it has none; a comment goes from
/// `//` to the end of the line, or from `/*` to `*/`.
pub open spec fn step(n: Nesting, c: char, at: int) -> Nesting {
    match n.place {
        Place::Code | Place::Slash => step_in_code(n, c, at),
        Place::Text => Nesting {
            place: if c == '\\' {
                Place::Escaped
            } else if c == '"' || c == '\n' {
                Place::Code
            } else {
                Place::Text
            },
            open: n.open,
        },
        Place::Escaped => Nesting { place: Place::Text, open: n.open },
        Place::Comment => Nesting {
            place: if c == '\n' {
                Place::Code
            } else {
                Place::Comment
            },
            open: n.open,
        },
        Place::Block | Place::Star => Nesting {
            place: if c == '*' {
                Place::Star
            } else if c == '/' && n.place == Place::Star {
                Place::Code
            } else {
                Place::Block
            },
            open: n.open,
        },
    }
}

/// Where the end of `s` stands.
pub open spec fn nesting(s: Seq<char>) -> Nesting
    decreases s.len(),
{
    if s.len() == 0 {
        Nesting { place: Place::Code, open: Seq::empty() }
    } else {
        step(nesting(s.drop_last()), s.last(), s.len() - 1)
    }
}

/// Positions as mathematical integers.
pub open spec fn positions(v: Seq<usize>) -> Seq<int> {
    Seq::new(v.len(), |i: int| v[i] as int)
}

/// Goes through a text and keeps track of where it stands.
#[derive(Debug, PartialEq, Eq)]
pub struct Scanner {
    pub place: Place,
    pub open: Vec<usize>,
}

impl View for Scanner {
    type V = Nesting;

    open spec fn view(&self) -> Nesting {
        Nesting { place: self.place, open: positions(self.open@) }
    }
}

impl Scanner {
    /// At the beginning of a text.
    pub fn new() -> (s: Scanner)
        ensures
            s@ == nesting(Seq::empty()),
    {
        let s = Scanner { place: Place::Code, open: Vec::new() };
        assert(positions(s.open@) == Seq::<int>::empty());
        s
    }

    fn advance_in_code(&mut self, c: char, at: usize)
        ensures
            final(self)@ == step_in_code(old(self)@, c, at as int),
    {
        if c == '"' {
            self.place = Place::Text;
        } else if c == '/' {
            self.place = if self.place == Place::Slash {
                Place::Comment
            } else {
                Place::Slash
            };
        } else if c == '*' && self.place == Place::Slash {
            self.place = Place::Block;
        } else {
            self.place = Place::Code;
            if c == '{' || c == '[' {
                self.open.push(at);
            } else if (c == '}' || c == ']') && self.open.len() > 0 {
                self.open.pop();
            }
        }
        assert(self@.open == step_in_code(old(self)@, c, at as int).open);
    }

    /// Goes on over the character `c`, which is at `at`.
    pub fn advance(&mut self, c: char, at: usize)
        ensures
            final(self)@ == step(old(self)@, c, at as int),
    {
        match self.place {
            Place::Code | Place::Slash => self.advance_in_code(c, at),
            Place::Text => {
                self.place = if c == '\\' {
                    Place::Escaped
                } else if c == '"' || c == '\n' {
                    Place::Code
                } else {
                    Place::Text
                };
            },
            Place::Escaped => {
                self.place = Place::Text;
            },
            Place::Comment => {
                if c == '\n' {
                    self.place = Place::Code;
                }
            },
            Place::Block | Place::Star => {
                self.place = if c == '*' {
                    Place::Star
                } else if c == '/' && self.place == Place::Star {
                    Place::Code
                } else {
                    Place::Block
                };
            },
        }
    }
}

/// Where the first `end` characters of `s` lead to.
pub(crate) fn scan(s: &[char], end: usize) -> (r: Scanner)
    requires
        end <= s@.len(),
    ensures
        r@ == nesting(s@.take(end as int)),
{
    let mut r = Scanner::new();
    assert(s@.take(0) == Seq::<char>::empty());
    for i in 0..end
        invariant
            end <= s@.len(),
            r@ == nesting(s@.take(i as int)),
    {
        assert(s@.take(i + 1).drop_last() == s@.take(i as int));
        r.advance(s[i], i);
    }
    r
}

/// `s` without the white space and the comments in front.
pub open spec fn skip_blanks(s: Seq<char>) -> Seq<char>
    decreases s.len(),
{
    if s.len() > 0 && is_space(s[0]) {
        skip_blanks(s.skip(1))
    } else if seq!['/', '/'].is_prefix_of(s) {
        match find(s, seq!['\n'], 2) {
            Some(i) => if 2 <= i < s.len() {
                skip_blanks(s.skip(i + 1))
            } else {
                Seq::empty()
            },
            None => Seq::empty(),
        }
    } else if seq!['/', '*'].is_prefix_of(s) {
        match find(s, seq!['*', '/'], 2) {
            Some(i) => if 2 <= i <= s.len() - 2 {
                skip_blanks(s.skip(i + 2))
            } else {
                Seq::empty()
            },
            None => Seq::empty(),
        }
    } else {
        s
    }
}

/// The part of `s` behind the white space and the comments in front.
pub fn behind_blanks(s: &[char]) -> (r: &[char])
    ensures
        r@ == skip_blanks(s@),
{
    let line_mark: [char; 2] = ['/', '/'];
    let block_mark: [char; 2] = ['/', '*'];
    let block_end: [char; 2] = ['*', '/'];
    let newline: [char; 1] = ['\n'];
    let len: usize = s.len();
    let mut i: usize = 0;
    assert(s@.skip(0) == s@);
    loop
        invariant
            i <= len == s@.len(),
            line_mark@ == seq!['/', '/'],
            block_mark@ == seq!['/', '*'],
            block_end@ == seq!['*', '/'],
            newline@ == seq!['\n'],
            skip_blanks(s@) == skip_blanks(s@.skip(i as int)),
        decreases len - i,
    {
        let rest = slice_subrange(s, i, len);
        let ghost text = s@.skip(i as int);
        assert(rest@ == text);
        if i < len && is_whitespace(s[i]) {
            assert(text[0] == s@[i as int]);
            assert(text.skip(1) == s@.skip(i + 1));
            i += 1;
        } else if starts_with(rest, &line_mark) {
            match find_chars(rest, &newline, 2) {
                Some(k) => {
                    assert(text.skip(k + 1) == s@.skip(i + k + 1));
                    i = i + k + 1;
                },
                None => {
                    let none = slice_subrange(s, len, len);
                    assert(none@ == Seq::<char>::empty());
                    return none;
                },
            }
        } else if starts_with(rest, &block_mark) {
            match find_chars(rest, &block_end, 2) {
                Some(k) => {
                    assert(text.skip(k + 2) == s@.skip(i + k + 2));
                    i = i + k + 2;
                },
                None => {
                    let none = slice_subrange(s, len, len);
                    assert(none@ == Seq::<char>::empty());
                    return none;
                },
            }
        } else {
            return rest;
        }
    }
}

/// Whether the list of positions `a` is the beginning of `b`.
pub fn begins_positions(a: &Vec<usize>, b: &Vec<usize>) -> (r: bool)
    ensures
        r == positions(a@).is_prefix_of(positions(b@)),
{
    if a.len() > b.len() {
        return false;
    }
    for i in 0..a.len()
        invariant
            a@.len() <= b@.len(),
            forall|k: int| 0 <= k < i ==> a@[k] == b@[k],
    {
        if a[i] != b[i] {
            assert(positions(a@)[i as int] != positions(b@)[i as int]);
            assert(positions(b@).subrange(0, a@.len() as int)[i as int] == positions(b@)[i as int]);
            return false;
        }
    }
    assert(positions(a@) == positions(b@).subrange(0, a@.len() as int));
    true
}

/// Whether two lists of positions are equal.
pub fn same_positions(a: &Vec<usize>, b: &Vec<usize>) -> (r: bool)
    ensures
        r == (positions(a@) == positions(b@)),
{
    if a.len() != b.len() {
        assert(positions(a@).len() != positions(b@).len());
        return false;
    }
    for i in 0..a.len()
        invariant
            a@.len() == b@.len(),
            forall|k: int| 0 <= k < i ==> a@[k] == b@[k],
    {
        if a[i] != b[i] {
            assert(positions(a@)[i as int] != positions(b@)[i as int]);
            return false;
        }
    }
    assert(positions(a@) == positions(b@));
    true
}

// ---------------------------------------------------------------------------
// laws
// ---------------------------------------------------------------------------

/// The brackets that are open at the end of a text stand in it.
pub proof fn law_open_brackets_stand_before(s: Seq<char>, i: int)
    requires
        0 <= i < nesting(s).open.len(),
    ensures
        0 <= nesting(s).open[i] < s.len(),
    decreases s.len(),
{
    let head = s.drop_last();
    if i < nesting(head).open.len() {
        law_open_brackets_stand_before(head, i);
    }
}

proof fn lemma_nesting_push(s: Seq<char>, c: char)
    ensures
        nesting(s.push(c)) == step(nesting(s), c, s.len() as int),
{
    assert(s.push(c).drop_last() == s);
}

/// Outside strings and comments an opening bracket is open behind its place, a
/// closing one closes the innermost that is open, and the characters that begin
/// no string or comment change nothing.
pub proof fn law_brackets(s: Seq<char>, c: char)
    requires
        nesting(s).place == Place::Code,
    ensures
        c == '{' || c == '[' ==> nesting(s.push(c)) == (Nesting {
            place: Place::Code,
            open: nesting(s).open.push(s.len() as int),
        }),
        (c == '}' || c == ']') && nesting(s).open.len() > 0 ==> nesting(s.push(c)) == (Nesting {
            place: Place::Code,
            open: nesting(s).open.drop_last(),
        }),
        c != '{' && c != '[' && c != '}' && c != ']' && c != '"' && c != '/' ==> nesting(s.push(c))
            == nesting(s),
        nesting(Seq::empty()) == (Nesting { place: Place::Code, open: Seq::empty() }),
{
    lemma_nesting_push(s, c);
}

proof fn lemma_in_text(s: Seq<char>, inner: Seq<char>)
    requires
        nesting(s).place == Place::Code,
        forall|i: int|
            0 <= i < inner.len() ==> #[trigger] inner[i] != '"' && inner[i] != '\\' && inner[i]
                != '\n',
    ensures
        nesting(s.push('"') + inner) == (Nesting { place: Place::Text, open: nesting(s).open }),
    decreases inner.len(),
{
    if inner.len() == 0 {
        lemma_nesting_push(s, '"');
        assert(s.push('"') + inner == s.push('"'));
    } else {
        let head = inner.drop_last();
        assert(inner.last() == inner[inner.len() - 1]);
        lemma_in_text(s, head);
        lemma_nesting_push(s.push('"') + head, inner.last());
        assert((s.push('"') + head).push(inner.last()) == s.push('"') + inner);
    }
}

/// A string is passed over: whatever brackets and slashes it holds, what is open
/// behind it is what was open in front of it.
pub proof fn law_string_is_passed_over(s: Seq<char>, inner: Seq<char>)
    requires
        nesting(s).place == Place::Code,
        forall|i: int|
            0 <= i < inner.len() ==> #[trigger] inner[i] != '"' && inner[i] != '\\' && inner[i]
                != '\n',
    ensures
        nesting((s.push('"') + inner).push('"')) == nesting(s),
        nesting((s.push('"') + inner).push('\n')) == nesting(s),
{
    lemma_in_text(s, inner);
    lemma_nesting_push(s.push('"') + inner, '"');
    lemma_nesting_push(s.push('"') + inner, '\n');
}

/// In a string a backslash takes the next character with it, whatever that is.
pub proof fn law_backslash_takes_one(s: Seq<char>, c: char)
    requires
        nesting(s).place == Place::Text,
    ensures
        nesting(s.push('\\').push(c)) == nesting(s),
{
    lemma_nesting_push(s, '\\');
    lemma_nesting_push(s.push('\\'), c);
}

proof fn lemma_in_comment(s: Seq<char>, inner: Seq<char>)
    requires
        nesting(s).place == Place::Code,
        forall|i: int| 0 <= i < inner.len() ==> #[trigger] inner[i] != '\n',
    ensures
        nesting(s.push('/').push('/') + inner) == (Nesting {
            place: Place::Comment,
            open: nesting(s).open,
        }),
    decreases inner.len(),
{
    let begun = s.push('/').push('/');
    if inner.len() == 0 {
        lemma_nesting_push(s, '/');
        lemma_nesting_push(s.push('/'), '/');
        assert(begun + inner == begun);
    } else {
        let head = inner.drop_last();
        assert(inner.last() == inner[inner.len() - 1]);
        lemma_in_comment(s, head);
        lemma_nesting_push(begun + head, inner.last());
        assert((begun + head).push(inner.last()) == begun + inner);
    }
}

/// A comment of one line is passed over, whatever it holds.
pub proof fn law_line_comment_is_passed_over(s: Seq<char>, inner: Seq<char>)
    requires
        nesting(s).place == Place::Code,
        forall|i: int| 0 <= i < inner.len() ==> #[trigger] inner[i] != '\n',
    ensures
        nesting((s.push('/').push('/') + inner).push('\n')) == nesting(s),
{
    lemma_in_comment(s, inner);
    lemma_nesting_push(s.push('/').push('/') + inner, '\n');
}

proof fn lemma_in_block(s: Seq<char>, inner: Seq<char>)
    requires
        nesting(s).place == Place::Code,
        forall|i: int|
            0 <= i < inner.len() - 1 ==> !(#[trigger] inner[i] == '*' && inner[i + 1] == '/'),
    ensures
        nesting(s.push('/').push('*') + inner) == (Nesting {
            place: if inner.len() > 0 && inner.last() == '*' {
                Place::Star
            } else {
                Place::Block
            },
            open: nesting(s).open,
        }),
    decreases inner.len(),
{
    let begun = s.push('/').push('*');
    if inner.len() == 0 {
        lemma_nesting_push(s, '/');
        lemma_nesting_push(s.push('/'), '*');
        assert(begun + inner == begun);
    } else {
        let head = inner.drop_last();
        assert forall|i: int| 0 <= i < head.len() - 1 implies !(#[trigger] head[i] == '*' && head[i
            + 1] == '/') by {
            assert(inner[i] == head[i]);
        }
        if head.len() > 0 {
            assert(head.last() == inner[inner.len() - 2]);
        }
        lemma_in_block(s, head);
        lemma_nesting_push(begun + head, inner.last());
        assert((begun + head).push(inner.last()) == begun + inner);
    }
}

/// A comment of several lines is passed over, whatever it holds.
pub proof fn law_block_comment_is_passed_over(s: Seq<char>, inner: Seq<char>)
    requires
        nesting(s).place == Place::Code,
        forall|i: int|
            0 <= i < inner.len() - 1 ==> !(#[trigger] inner[i] == '*' && inner[i + 1] == '/'),
    ensures
        nesting((s.push('/').push('*') + inner).push('*').push('/')) == nesting(s),
{
    let begun = s.push('/').push('*') + inner;
    lemma_in_block(s, inner);
    lemma_nesting_push(begun, '*');
    lemma_nesting_push(begun.push('*'), '/');
}

/// A slash that begins no comment changes nothing: what follows it counts as if
/// the slash were another character.
pub proof fn law_lone_slash(s: Seq<char>, c: char)
    requires
        nesting(s).place == Place::Code,
        c != '/',
        c != '*',
    ensures
        nesting(s.push('/').push(c)) == nesting(s.push(' ').push(c)),
{
    lemma_nesting_push(s, '/');
    lemma_nesting_push(s, ' ');
    lemma_nesting_push(s.push('/'), c);
    lemma_nesting_push(s.push(' '), c);
}

/// White space in front is passed over.
pub proof fn law_blank_is_skipped(c: char, rest: Seq<char>)
    requires
        is_space(c),
    ensures
        skip_blanks(seq![c] + rest) == skip_blanks(rest),
{
    assert((seq![c] + rest).skip(1) == rest);
}

/// A text that begins with neither white space nor a comment is left as it is.
pub proof fn law_other_text_is_not_skipped(s: Seq<char>)
    requires
        s.len() > 0 ==> !is_space(s[0]),
        s.len() > 1 && s[0] == '/' ==> s[1] != '/' && s[1] != '*',
    ensures
        skip_blanks(s) == s,
{
    if s.len() >= 2 {
        assert(s.subrange(0, 2)[0] == s[0]);
        assert(s.subrange(0, 2)[1] == s[1]);
    }
}

proof fn lemma_first_at(s: Seq<char>, needle: Seq<char>, from: int, at: int)
    requires
        0 <= from <= at,
        occurs_at(s, needle, at),
        forall|j: int| from <= j < at ==> !occurs_at(s, needle, j),
    ensures
        find(s, needle, from) == Some(at),
{
    lemma_find(s, needle, from);
}

/// A comment of one line in front is skipped with its line end.
pub proof fn law_line_comment_is_skipped(inner: Seq<char>, rest: Seq<char>)
    requires
        forall|i: int| 0 <= i < inner.len() ==> #[trigger] inner[i] != '\n',
    ensures
        skip_blanks(seq!['/', '/'] + inner + seq!['\n'] + rest) == skip_blanks(rest),
{
    let s = seq!['/', '/'] + inner + seq!['\n'] + rest;
    let at = 2 + inner.len() as int;
    assert(s.subrange(0, 2) == seq!['/', '/']);
    assert(s.subrange(at, at + 1) == seq!['\n']);
    assert forall|j: int| 2 <= j < at implies !occurs_at(s, seq!['\n'], j) by {
        assert(s[j] == inner[j - 2]);
        assert(s.subrange(j, j + 1)[0] == s[j]);
    }
    lemma_first_at(s, seq!['\n'], 2, at);
    assert(s.skip(at + 1) == rest);
}

/// A comment of several lines in front is skipped with its end.
pub proof fn law_block_comment_is_skipped(inner: Seq<char>, rest: Seq<char>)
    requires
        forall|i: int|
            0 <= i < inner.len() - 1 ==> !(#[trigger] inner[i] == '*' && inner[i + 1] == '/'),
    ensures
        skip_blanks(seq!['/', '*'] + inner + seq!['*', '/'] + rest) == skip_blanks(rest),
{
    let s = seq!['/', '*'] + inner + seq!['*', '/'] + rest;
    let mark = seq!['*', '/'];
    let at = 2 + inner.len() as int;
    assert(s.subrange(0, 2) == seq!['/', '*']);
    assert(s.subrange(0, 2)[1] != seq!['/', '/'][1]);
    assert(s.subrange(at, at + 2) == mark);
    assert forall|j: int| 2 <= j < at implies !occurs_at(s, mark, j) by {
        let here = s.subrange(j, j + 2);
        assert(here[0] == s[j] && here[1] == s[j + 1]);
        assert(s[j] == inner[j - 2]);
        assert(mark[0] == '*' && mark[1] == '/');
        if j + 1 < at {
            assert(s[j + 1] == inner[j - 1]);
        } else {
            assert(s[j + 1] == '*');
        }
    }
    lemma_first_at(s, mark, 2, at);
    assert(s.skip(at + 2) == rest);
}

/// What a character does where it stands: a quote begins a string, a slash may begin
/// a comment, a backslash takes one character with it, and so on; brackets count
/// in code alone, and one that closes nothing changes nothing.
pub proof fn law_places(s: Seq<char>, c: char)
    ensures
        ({
            let n = nesting(s);
            let next = nesting(s.push(c));
            &&& !(n.place == Place::Code || n.place == Place::Slash) ==> next.open == n.open
            &&& n.place == Place::Code ==> (c == '"' <==> next.place == Place::Text)
            &&& n.place == Place::Code ==> (c == '/' <==> next.place == Place::Slash)
            &&& n.place == Place::Code && c != '"' && c != '/' ==> next.place == Place::Code
            &&& n.place == Place::Code && (c == '}' || c == ']') && n.open.len() == 0 ==> next == n
            &&& n.place == Place::Code && (c == '"' || c == '/') ==> next.open == n.open
            &&& n.place == Place::Slash && c == '/' ==> next == (Nesting {
                place: Place::Comment,
                open: n.open,
            })
            &&& n.place == Place::Slash && c == '*' ==> next == (Nesting {
                place: Place::Block,
                open: n.open,
            })
            &&& n.place == Place::Slash && c == '"' ==> next == (Nesting {
                place: Place::Text,
                open: n.open,
            })
            &&& n.place == Place::Text ==> next.place == if c == '\\' {
                Place::Escaped
            } else if c == '"' || c == '\n' {
                Place::Code
            } else {
                Place::Text
            }
            &&& n.place == Place::Escaped ==> next.place == Place::Text
            &&& n.place == Place::Comment ==> next.place == if c == '\n' {
                Place::Code
            } else {
                Place::Comment
            }
            &&& n.place == Place::Block ==> next.place == if c == '*' {
                Place::Star
            } else {
                Place::Block
            }
            &&& n.place == Place::Star ==> next.place == if c == '/' {
                Place::Code
            } else if c == '*' {
                Place::Star
            } else {
                Place::Block
            }
        }),
{
    lemma_nesting_push(s, c);
}

} // verus!
