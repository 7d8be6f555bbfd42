//! The user's Zed configuration, read from the text of `settings.json` and
//! `keymap.json`.
use vstd::prelude::*;
use vstd::slice::slice_subrange;

use crate::nesting::{
    begins_positions, behind_blanks, law_open_brackets_stand_before, nesting, positions,
    same_positions, scan, skip_blanks, Nesting, Place, Scanner,
};
use crate::text::{
    chars_of, contains, contains_chars, find, find_chars, index_of, is_one_line, is_space, join,
    joined, law_contained_between, law_contains_is_between, law_lines, law_trim_start,
    lemma_filter_subset, lemma_find, lemma_join_front, lemma_lines_are_lines, lemma_lines_of_join,
    lemma_rfind, lines, lines_of, occurs_at, owned, rfind, rfind_chars, some_text, starts_with,
    string_of, texts, trim_start, trimmed,
};
use crate::winpath::{child, child_path};

verus! {

// ---------------------------------------------------------------------------
// editor mode
// ---------------------------------------------------------------------------

/// The editor's modal mode. It decides which paste key works in Normal mode.
#[derive(Clone, Copy, Debug, PartialEq, Eq, Structural)]
pub enum EditorMode {
    Normal,
    Vim,
    Helix,
}

/// The name of a mode on the command line.
pub open spec fn mode_name(mode: EditorMode) -> Seq<char> {
    match mode {
        EditorMode::Normal => "normal"@,
        EditorMode::Vim => "vim"@,
        EditorMode::Helix => "helix"@,
    }
}

/// The paste key that works in a mode's Normal mode without switching to
/// insert.
pub open spec fn mode_paste(mode: EditorMode) -> Seq<char> {
    match mode {
        EditorMode::Normal => "ctrl-v"@,
        EditorMode::Vim => "shift-insert"@,
        EditorMode::Helix => "shift-r"@,
    }
}

impl EditorMode {
    /// The name of the mode, as the command line writes it.
    pub fn name(self) -> (s: String)
        ensures
            s@ == mode_name(self),
    {
        match self {
            EditorMode::Normal => owned("normal"),
            EditorMode::Vim => owned("vim"),
            EditorMode::Helix => owned("helix"),
        }
    }

    /// The paste key that works in Normal mode without switching to insert:
    ///
    /// * Normal: `ctrl-v`, the editor default on Windows.
    /// * Vim: `shift-insert`, an editor default that Vim does not shadow.
    /// * Helix: `shift-r`.
    pub fn default_paste_binding(self) -> (s: String)
        ensures
            s@ == mode_paste(self),
    {
        match self {
            EditorMode::Normal => owned("ctrl-v"),
            EditorMode::Vim => owned("shift-insert"),
            EditorMode::Helix => owned("shift-r"),
        }
    }
}

// ---------------------------------------------------------------------------
// files
// ---------------------------------------------------------------------------

/// The directory that Zed reads its configuration from: the one given, else
/// `Zed` in the user's application data.
pub open spec fn config_dir_of(
    given: Option<Seq<char>>,
    appdata: Option<Seq<char>>,
) -> Seq<char> {
    match given {
        Some(dir) => dir,
        None => match appdata {
            Some(appdata) => child(appdata, "Zed"@),
            None => Seq::empty(),
        },
    }
}

/// The configuration directory: `override_dir`, else `%APPDATA%\Zed`, where
/// `appdata` is the value of `%APPDATA%`; empty where that is not set.
pub fn config_dir(override_dir: &Option<String>, appdata: &Option<String>) -> (dir: String)
    ensures
        dir@ == config_dir_of(some_text(*override_dir), some_text(*appdata)),
{
    match override_dir {
        Some(dir) => dir.clone(),
        None => match appdata {
            Some(appdata) => child_path(appdata.as_str(), "Zed"),
            None => String::new(),
        },
    }
}

/// A line that holds nothing but a `//` comment.
pub open spec fn is_comment(line: Seq<char>) -> bool {
    "//"@.is_prefix_of(trim_start(line))
}

/// The lines that are no comment.
pub open spec fn code_line() -> spec_fn(Seq<char>) -> bool {
    |line: Seq<char>| !is_comment(line)
}

/// `raw` without its whole-line comments.
pub open spec fn without_comments(raw: Seq<char>) -> Seq<char> {
    join(lines(raw).filter(code_line()), "\n"@)
}

/// The text of an optional string, empty if there is none.
pub open spec fn text_or_empty(s: Option<String>) -> Seq<char> {
    match s {
        Some(s) => s@,
        None => Seq::empty(),
    }
}

/// The contents of a configuration file without its whole-line comments, so
/// that commented-out entries are never found. A missing file reads as empty.
pub fn read_config(raw: &Option<String>) -> (text: String)
    ensures
        text@ == without_comments(text_or_empty(*raw)),
{
    let chars: Vec<char> = match raw {
        Some(s) => chars_of(s.as_str()),
        None => Vec::new(),
    };
    let all = lines_of(&chars);
    let slashes = chars_of("//");
    let mut kept: Vec<String> = Vec::new();
    for i in 0..all.len()
        invariant
            slashes@ == "//"@,
            texts(kept@) == texts(all@).take(i as int).filter(code_line()),
    {
        let line = chars_of(all[i].as_str());
        let ghost head = texts(all@).take(i + 1);
        assert(head.drop_last() == texts(all@).take(i as int));
        assert(head.last() == line@);
        let ghost before = kept@;
        reveal(Seq::filter);
        if !starts_with(trimmed(&line), &slashes) {
            kept.push(all[i].clone());
            assert(texts(kept@) == texts(before).push(line@));
        }
    }
    assert(texts(all@).take(all@.len() as int) == texts(all@));
    joined(&kept, "\n")
}

// ---------------------------------------------------------------------------
// settings.json
// ---------------------------------------------------------------------------

/// `s` in double quotes.
pub open spec fn quoted(s: Seq<char>) -> Seq<char> {
    seq!['"'] + s + seq!['"']
}

fn quote(s: &str) -> (r: Vec<char>)
    ensures
        r@ == quoted(s@),
{
    let mut r: Vec<char> = Vec::new();
    r.push('"');
    let mut inner = chars_of(s);
    r.append(&mut inner);
    r.push('"');
    r
}

/// What stands behind `mark`, when `s` begins with it.
pub open spec fn behind(s: Seq<char>, mark: char) -> Option<Seq<char>> {
    if s.len() > 0 && s[0] == mark {
        Some(s.skip(1))
    } else {
        None
    }
}

/// What stands behind a colon, white space around it aside, when `s` begins
/// with one.
pub open spec fn behind_colon(s: Seq<char>) -> Option<Seq<char>> {
    match behind(trim_start(s), ':') {
        Some(rest) => Some(trim_start(rest)),
        None => None,
    }
}

/// The text of an optional slice.
pub open spec fn some_slice(s: Option<&[char]>) -> Option<Seq<char>> {
    match s {
        Some(s) => Some(s@),
        None => None,
    }
}

fn skip_mark(s: &[char], mark: char) -> (r: Option<&[char]>)
    ensures
        some_slice(r) == behind(s@, mark),
{
    if s.len() > 0 && s[0] == mark {
        let rest = slice_subrange(s, 1, s.len());
        assert(rest@ == s@.skip(1));
        Some(rest)
    } else {
        None
    }
}

fn skip_colon(s: &[char]) -> (r: Option<&[char]>)
    ensures
        some_slice(r) == behind_colon(s@),
{
    match skip_mark(trimmed(s), ':') {
        Some(rest) => Some(trimmed(rest)),
        None => None,
    }
}

/// The value of a boolean setting (`"key": true`), taken from the first place
/// where the quoted key stands.
pub open spec fn setting(text: Seq<char>, key: Seq<char>) -> Option<bool> {
    match find(text, quoted(key), 0) {
        Some(pos) => match behind_colon(text.skip(pos + quoted(key).len())) {
            Some(value) => if "true"@.is_prefix_of(value) {
                Some(true)
            } else if "false"@.is_prefix_of(value) {
                Some(false)
            } else {
                None
            },
            None => None,
        },
        None => None,
    }
}

/// Value of a boolean setting (`"key": true`): the token must directly follow
/// the colon, so a trailing comma never matters.
pub fn json_bool(text: &str, key: &str) -> (value: Option<bool>)
    ensures
        value == setting(text@, key@),
{
    let chars = chars_of(text);
    let needle = quote(key);
    let len: usize = chars.len();
    let pos = match find_chars(&chars, &needle, 0) {
        Some(pos) => pos,
        None => {
            return None;
        },
    };
    let rest = slice_subrange(&chars, pos + needle.len(), len);
    assert(rest@ == text@.skip(pos + quoted(key@).len()));
    let value = match skip_colon(rest) {
        Some(value) => value,
        None => {
            return None;
        },
    };
    let yes = chars_of("true");
    let no = chars_of("false");
    if starts_with(value, &yes) {
        Some(true)
    } else if starts_with(value, &no) {
        Some(false)
    } else {
        None
    }
}

/// The mode that settings text asks for: `helix_mode` wins over `vim_mode`.
pub open spec fn mode_of(settings: Seq<char>) -> EditorMode {
    if setting(settings, "helix_mode"@) == Some(true) {
        EditorMode::Helix
    } else if setting(settings, "vim_mode"@) == Some(true) {
        EditorMode::Vim
    } else {
        EditorMode::Normal
    }
}

/// Detects the modal mode from settings text.
pub fn mode_from_settings(settings: &str) -> (mode: EditorMode)
    ensures
        mode == mode_of(settings@),
{
    if let Some(true) = json_bool(settings, "helix_mode") {
        EditorMode::Helix
    } else if let Some(true) = json_bool(settings, "vim_mode") {
        EditorMode::Vim
    } else {
        EditorMode::Normal
    }
}

/// Settings text asks to send with Ctrl+Enter.
pub open spec fn sends_with_ctrl(settings: Seq<char>) -> bool {
    setting(settings, "use_modifier_to_send"@) == Some(true)
}

/// `agent.use_modifier_to_send` from settings text.
pub fn ctrl_enter_to_send(settings: &str) -> (b: bool)
    ensures
        b == sends_with_ctrl(settings@),
{
    if let Some(true) = json_bool(settings, "use_modifier_to_send") {
        true
    } else {
        false
    }
}

// ---------------------------------------------------------------------------
// keymap.json
// ---------------------------------------------------------------------------

/// A key binding of the keymap: the context it is live in, if one is written,
/// and the keys.
pub ghost struct Entry {
    pub context: Option<Seq<char>>,
    pub keys: Seq<char>,
}

/// The last quoted string in front of the last colon of `before`.
pub open spec fn key_before(before: Seq<char>) -> Option<Seq<char>> {
    match rfind(before, ":"@) {
        Some(colon) => match rfind(before.take(colon), "\""@) {
            Some(close) => match rfind(before.take(close), "\""@) {
                Some(open) => Some(before.subrange(open + 1, close)),
                None => None,
            },
            None => None,
        },
        None => None,
    }
}

/// The quoted key `"context"`, followed by a colon, stands in `text` at `p`,
/// right in the object whose open brackets are `open`.
pub open spec fn is_context_key(text: Seq<char>, open: Seq<int>, p: int) -> bool {
    &&& occurs_at(text, "\"context\""@, p)
    &&& nesting(text.take(p)) == (Nesting { place: Place::Code, open })
    &&& behind_colon(text.skip(p + "\"context\""@.len())) is Some
}

/// The last context key of that object in front of `end`.
pub open spec fn last_context_key(text: Seq<char>, open: Seq<int>, end: int) -> Option<int>
    decreases end,
{
    if end <= 0 {
        None
    } else if is_context_key(text, open, end - 1) {
        Some(end - 1)
    } else {
        last_context_key(text, open, end - 1)
    }
}

/// The quoted string behind the context key at `p`.
pub open spec fn context_value(text: Seq<char>, p: int) -> Option<Seq<char>> {
    match behind_colon(text.skip(p + "\"context\""@.len())) {
        Some(value) => match behind(value, '"') {
            Some(inner) => match find(inner, "\""@, 0) {
                Some(end) => Some(inner.take(end)),
                None => None,
            },
            None => None,
        },
        None => None,
    }
}

/// The quoted key `"bindings"` stands in `keymap` at `p`, in front of `pos`, with
/// a colon behind it, in an object that is still open at `pos`.
pub open spec fn is_bindings_key(keymap: Seq<char>, pos: int, p: int) -> bool {
    &&& occurs_at(keymap.take(pos), "\"bindings\""@, p)
    &&& nesting(keymap.take(p)).place == Place::Code
    &&& nesting(keymap.take(p)).open.is_prefix_of(nesting(keymap.take(pos)).open)
    &&& behind(skip_blanks(keymap.skip(p + "\"bindings\""@.len())), ':') is Some
}

/// The last such key in front of `end`.
pub open spec fn last_bindings_key(keymap: Seq<char>, pos: int, end: int) -> Option<int>
    decreases end,
{
    if end <= 0 {
        None
    } else if is_bindings_key(keymap, pos, end - 1) {
        Some(end - 1)
    } else {
        last_bindings_key(keymap, pos, end - 1)
    }
}

/// The brackets that are open at the `"bindings"` key whose object the position
/// `pos` stands in: those of the object that this key belongs to.
pub open spec fn object_of_bindings(keymap: Seq<char>, pos: int) -> Option<Seq<int>> {
    match last_bindings_key(keymap, pos, pos) {
        Some(bindings) => Some(nesting(keymap.take(bindings)).open),
        None => None,
    }
}

/// The context of the bindings object that the position `pos` stands in: that of
/// the context key in the same object as the `"bindings"` key. An object without
/// a context key gives none.
pub open spec fn context_at(keymap: Seq<char>, pos: int) -> Option<Seq<char>> {
    match object_of_bindings(keymap, pos) {
        Some(open) => match last_context_key(keymap, open, keymap.len() as int) {
            Some(p) => context_value(keymap, p),
            None => None,
        },
        None => None,
    }
}

/// The binding whose action stands at `pos`.
pub open spec fn entry_at(keymap: Seq<char>, pos: int) -> Seq<Entry> {
    match key_before(keymap.take(pos)) {
        Some(keys) => seq![Entry { context: context_at(keymap, pos), keys }],
        None => Seq::empty(),
    }
}

/// The bindings of `action` that stand in `keymap` from position `from` on, in
/// the order of the file.
pub open spec fn bindings_from(keymap: Seq<char>, action: Seq<char>, from: int) -> Seq<Entry>
    decreases keymap.len() - from,
{
    match find(keymap, quoted(action), from) {
        Some(pos) => if from <= pos <= keymap.len() - quoted(action).len() {
            entry_at(keymap, pos) + bindings_from(
                keymap,
                action,
                pos + quoted(action).len(),
            )
        } else {
            Seq::empty()
        },
        None => Seq::empty(),
    }
}

/// What a pair of context and keys says.
pub open spec fn entry_of(pair: (Option<String>, String)) -> Entry {
    Entry { context: some_text(pair.0), keys: pair.1@ }
}

/// What a list of such pairs says.
pub open spec fn entries_of(pairs: Seq<(Option<String>, String)>) -> Seq<Entry> {
    Seq::new(pairs.len(), |i: int| entry_of(pairs[i]))
}

fn find_key(before: &[char]) -> (keys: Option<String>)
    ensures
        some_text(keys) == key_before(before@),
{
    let colon_mark = chars_of(":");
    let quote_mark = chars_of("\"");
    proof {
        reveal_strlit("\"");
    }
    let colon = match rfind_chars(before, &colon_mark) {
        Some(i) => i,
        None => {
            return None;
        },
    };
    let head = slice_subrange(before, 0, colon);
    let close = match rfind_chars(head, &quote_mark) {
        Some(i) => i,
        None => {
            return None;
        },
    };
    let head = slice_subrange(before, 0, close);
    let open = match rfind_chars(head, &quote_mark) {
        Some(i) => i,
        None => {
            return None;
        },
    };
    Some(string_of(slice_subrange(before, open + 1, close)))
}

fn read_context(rest: &[char]) -> (context: Option<String>)
    ensures
        some_text(context) == (match behind_colon(rest@) {
            Some(value) => match behind(value, '"') {
                Some(inner) => match find(inner, "\""@, 0) {
                    Some(end) => Some(inner.take(end)),
                    None => None,
                },
                None => None,
            },
            None => None,
        }),
{
    let quote_mark = chars_of("\"");
    let value = match skip_colon(rest) {
        Some(value) => value,
        None => {
            return None;
        },
    };
    let inner = match skip_mark(value, '"') {
        Some(inner) => inner,
        None => {
            return None;
        },
    };
    match find_chars(inner, &quote_mark, 0) {
        Some(end) => Some(string_of(slice_subrange(inner, 0, end))),
        None => None,
    }
}

fn find_context_key(text: &[char], open: &Vec<usize>) -> (key: Option<usize>)
    ensures
        index_of(key) == last_context_key(text@, positions(open@), text@.len() as int),
        key matches Some(p) ==> p + "\"context\""@.len() <= text@.len(),
{
    let mark = chars_of("\"context\"");
    let len: usize = text.len();
    let mut scanner = Scanner::new();
    let mut key: Option<usize> = None;
    assert(text@.take(0) == Seq::<char>::empty());
    for i in 0..len
        invariant
            len == text@.len(),
            mark@ == "\"context\""@,
            scanner@ == nesting(text@.take(i as int)),
            index_of(key) == last_context_key(text@, positions(open@), i as int),
            key matches Some(p) ==> p + mark@.len() <= len,
    {
        let rest = slice_subrange(text, i, len);
        assert(rest@ == text@.skip(i as int));
        let found = starts_with(rest, &mark);
        proof {
            lemma_starts_at(text@, mark@, i as int);
        }
        if found && scanner.place == Place::Code && same_positions(&scanner.open, open) {
            let behind_key = slice_subrange(rest, mark.len(), rest.len());
            assert(behind_key@ == text@.skip(i + mark@.len()));
            if skip_colon(behind_key).is_some() {
                key = Some(i);
            }
        }
        assert(text@.take(i + 1).drop_last() == text@.take(i as int));
        scanner.advance(text[i], i);
    }
    key
}

fn find_object(keymap: &[char], pos: usize) -> (object: Option<Vec<usize>>)
    requires
        pos <= keymap@.len(),
    ensures
        match object {
            Some(open) => object_of_bindings(keymap@, pos as int) == Some(positions(open@)),
            None => object_of_bindings(keymap@, pos as int) is None,
        },
{
    let mark = chars_of("\"bindings\"");
    let len: usize = keymap.len();
    let before = slice_subrange(keymap, 0, pos);
    assert(before@ == keymap@.take(pos as int));
    let mut open = scan(keymap, pos).open;
    let ghost all = nesting(keymap@.take(pos as int)).open;
    let mut scanner = Scanner::new();
    let mut depth: Option<usize> = None;
    assert(keymap@.take(0) == Seq::<char>::empty());
    for i in 0..pos
        invariant
            pos <= len == keymap@.len(),
            before@ == keymap@.take(pos as int),
            mark@ == "\"bindings\""@,
            all == nesting(keymap@.take(pos as int)).open,
            positions(open@) == all,
            scanner@ == nesting(keymap@.take(i as int)),
            match depth {
                Some(n) => n <= all.len() && (last_bindings_key(keymap@, pos as int, i as int)
                    matches Some(p) && nesting(keymap@.take(p)).open == all.take(n as int)),
                None => last_bindings_key(keymap@, pos as int, i as int) is None,
            },
    {
        let rest = slice_subrange(before, i, pos);
        let found = starts_with(rest, &mark);
        assert(rest@ == before@.skip(i as int));
        proof {
            lemma_starts_at(before@, mark@, i as int);
        }
        if found && scanner.place == Place::Code && begins_positions(&scanner.open, &open) {
            let behind_key = slice_subrange(keymap, i + mark.len(), len);
            assert(behind_key@ == keymap@.skip(i + mark@.len()));
            if skip_mark(behind_blanks(behind_key), ':').is_some() {
                depth = Some(scanner.open.len());
                assert(positions(scanner.open@) == all.take(scanner.open@.len() as int));
            }
        }
        assert(keymap@.take(i + 1).drop_last() == keymap@.take(i as int));
        scanner.advance(keymap[i], i);
    }
    match depth {
        Some(n) => {
            open.truncate(n);
            assert(positions(open@) == all.take(n as int));
            Some(open)
        },
        None => None,
    }
}

proof fn lemma_starts_at(text: Seq<char>, mark: Seq<char>, i: int)
    requires
        0 <= i <= text.len(),
    ensures
        mark.is_prefix_of(text.skip(i)) == occurs_at(text, mark, i),
{
    let rest = text.skip(i);
    if mark.len() <= rest.len() {
        assert(rest.subrange(0, mark.len() as int) == text.subrange(i, i + mark.len()));
    }
}

fn find_context(keymap: &[char], pos: usize) -> (context: Option<String>)
    requires
        pos <= keymap@.len(),
    ensures
        some_text(context) == context_at(keymap@, pos as int),
{
    let open = match find_object(keymap, pos) {
        Some(open) => open,
        None => {
            return None;
        },
    };
    match find_context_key(keymap, &open) {
        Some(p) => {
            let mark = chars_of("\"context\"");
            let len: usize = keymap.len();
            let rest = slice_subrange(keymap, p + mark.len(), len);
            assert(rest@ == keymap@.skip(p + mark@.len()));
            read_context(rest)
        },
        None => None,
    }
}

/// Every pair of context and keys in the keymap whose binding value is
/// `action`. The keys are the last quoted string before the `:` preceding the
/// action; the context is the `"context": "..."` of the enclosing bindings
/// object, if it has one.
pub fn keymap_bindings_for(keymap: &str, action: &str) -> (r: Vec<(Option<String>, String)>)
    ensures
        entries_of(r@) == bindings_from(keymap@, action@, 0),
{
    let chars = chars_of(keymap);
    let needle = quote(action);
    let len: usize = chars.len();
    let mut out: Vec<(Option<String>, String)> = Vec::new();
    let mut from: usize = 0;
    loop
        invariant
            chars@ == keymap@,
            len == keymap@.len(),
            needle@ == quoted(action@),
            from <= len,
            bindings_from(keymap@, action@, 0) == entries_of(out@) + bindings_from(
                keymap@,
                action@,
                from as int,
            ),
        decreases len - from,
    {
        match find_chars(&chars, &needle, from) {
            Some(pos) => {
                let before = slice_subrange(&chars, 0, pos);
                let ghost done = entries_of(out@);
                assert(before@ == keymap@.take(pos as int));
                if let Some(keys) = find_key(before) {
                    let context = find_context(&chars, pos);
                    out.push((context, keys));
                    assert(entries_of(out@) == done + entry_at(keymap@, pos as int));
                } else {
                    assert(entries_of(out@) == done + entry_at(keymap@, pos as int));
                }
                from = pos + needle.len();
            },
            None => {
                assert(entries_of(out@) == bindings_from(keymap@, action@, 0));
                return out;
            },
        }
    }
}

/// The keys bound to `agent::ToggleFocus`: the last binding in the file, else
/// the Zed default.
pub open spec fn toggle_of(keymap: Seq<char>) -> Seq<char> {
    let entries = bindings_from(keymap, "agent::ToggleFocus"@, 0);
    if entries.len() > 0 {
        entries.last().keys
    } else {
        "ctrl-shift-/"@
    }
}

/// Custom `agent::ToggleFocus` binding from the keymap, else the Zed default
/// `ctrl-shift-/`. Later entries in the file win.
pub fn toggle_binding_for(keymap: &str) -> (keys: String)
    ensures
        keys@ == toggle_of(keymap@),
{
    let entries = keymap_bindings_for(keymap, "agent::ToggleFocus");
    if entries.len() > 0 {
        let i: usize = entries.len() - 1;
        assert(entry_of(entries@[i as int]) == entries_of(entries@).last());
        entries[i].1.clone()
    } else {
        owned("ctrl-shift-/")
    }
}

/// A context, empty where none is written.
pub open spec fn context_text(context: Option<Seq<char>>) -> Seq<char> {
    match context {
        Some(context) => context,
        None => Seq::empty(),
    }
}

/// A binding in this context is live in the Normal mode of `mode`.
pub open spec fn live_in(context: Seq<char>, mode: EditorMode) -> bool {
    match mode {
        EditorMode::Normal => !contains(context, "vim_mode"@),
        EditorMode::Vim => contains(context, "vim_mode == normal"@),
        EditorMode::Helix => contains(context, "helix_normal"@) || contains(
            context,
            "helix_select"@,
        ),
    }
}

/// The keys of the last entry whose context is live in the Normal mode of
/// `mode`.
pub open spec fn last_live(entries: Seq<Entry>, mode: EditorMode) -> Option<Seq<char>>
    decreases entries.len(),
{
    if entries.len() == 0 {
        None
    } else if live_in(context_text(entries.last().context), mode) {
        Some(entries.last().keys)
    } else {
        last_live(entries.drop_last(), mode)
    }
}

/// The keys bound to `editor::Paste` where the injection pastes: the last
/// binding live in the mode's Normal mode, else the last one of the plain
/// editor.
pub open spec fn paste_of(keymap: Seq<char>, mode: EditorMode) -> Option<Seq<char>> {
    let entries = bindings_from(keymap, "editor::Paste"@, 0);
    match last_live(entries, mode) {
        Some(keys) => Some(keys),
        None => last_live(entries, EditorMode::Normal),
    }
}

fn is_live_in(context: &Option<String>, mode: EditorMode) -> (b: bool)
    ensures
        b == live_in(context_text(some_text(*context)), mode),
{
    let chars: Vec<char> = match context {
        Some(context) => chars_of(context.as_str()),
        None => Vec::new(),
    };
    assert(chars@ == context_text(some_text(*context)));
    match mode {
        EditorMode::Normal => {
            let mark = chars_of("vim_mode");
            !contains_chars(&chars, &mark)
        },
        EditorMode::Vim => {
            let mark = chars_of("vim_mode == normal");
            contains_chars(&chars, &mark)
        },
        EditorMode::Helix => {
            let normal = chars_of("helix_normal");
            let select = chars_of("helix_select");
            contains_chars(&chars, &normal) || contains_chars(&chars, &select)
        },
    }
}

fn find_last_live(entries: &Vec<(Option<String>, String)>, mode: EditorMode) -> (keys: Option<
    String,
>)
    ensures
        some_text(keys) == last_live(entries_of(entries@), mode),
{
    let mut i: usize = entries.len();
    assert(entries_of(entries@).take(i as int) == entries_of(entries@));
    while i > 0
        invariant
            i <= entries@.len(),
            last_live(entries_of(entries@), mode) == last_live(
                entries_of(entries@).take(i as int),
                mode,
            ),
        decreases i,
    {
        let ghost head = entries_of(entries@).take(i as int);
        i -= 1;
        assert(head.last() == entry_of(entries@[i as int]));
        assert(head.drop_last() == entries_of(entries@).take(i as int));
        if is_live_in(&entries[i].0, mode) {
            return Some(entries[i].1.clone());
        }
    }
    None
}

/// Custom `editor::Paste` binding from the keymap, if any.
///
/// The binding that matters is the one live in Normal mode: for Vim a
/// `vim_mode == normal` context, for Helix a `helix_normal` or `helix_select`
/// context. A plain-editor binding (no vim context) is the fallback. `None`
/// means that the mode's default holds.
pub fn paste_binding_for(keymap: &str, mode: EditorMode) -> (keys: Option<String>)
    ensures
        some_text(keys) == paste_of(keymap@, mode),
{
    let entries = keymap_bindings_for(keymap, "editor::Paste");
    match find_last_live(&entries, mode) {
        Some(keys) => Some(keys),
        None => find_last_live(&entries, EditorMode::Normal),
    }
}

// ---------------------------------------------------------------------------
// all of it
// ---------------------------------------------------------------------------

/// What is known of the user's Zed configuration.
#[derive(Debug, PartialEq, Eq)]
pub struct UserConfig {
    /// The configuration directory that was read.
    pub dir: String,
    /// The modal mode.
    pub mode: EditorMode,
    /// Send with Ctrl+Enter instead of Enter.
    pub ctrl_enter_to_send: bool,
    /// The keys bound to `agent::ToggleFocus`.
    pub toggle_binding: String,
    /// The keys bound to `editor::Paste`, if the keymap binds them.
    pub paste_binding: Option<String>,
}

/// Reads the user's Zed configuration from the contents of `settings.json` and
/// `keymap.json`; a missing file gives the Zed defaults.
pub fn load_config(
    override_dir: &Option<String>,
    appdata: &Option<String>,
    settings: &Option<String>,
    keymap: &Option<String>,
) -> (config: UserConfig)
    ensures
        config.dir@ == config_dir_of(some_text(*override_dir), some_text(*appdata)),
        config.mode == mode_of(without_comments(text_or_empty(*settings))),
        config.ctrl_enter_to_send == sends_with_ctrl(without_comments(text_or_empty(*settings))),
        config.toggle_binding@ == toggle_of(without_comments(text_or_empty(*keymap))),
        some_text(config.paste_binding) == paste_of(
            without_comments(text_or_empty(*keymap)),
            config.mode,
        ),
{
    let dir = config_dir(override_dir, appdata);
    let settings = read_config(settings);
    let keymap = read_config(keymap);
    let mode = mode_from_settings(settings.as_str());
    UserConfig {
        dir,
        mode,
        ctrl_enter_to_send: ctrl_enter_to_send(settings.as_str()),
        toggle_binding: toggle_binding_for(keymap.as_str()),
        paste_binding: paste_binding_for(keymap.as_str(), mode),
    }
}

// ---------------------------------------------------------------------------
// laws
// ---------------------------------------------------------------------------

proof fn lemma_comment_of_stripped(line: Seq<char>)
    requires
        line.len() > 0,
        is_comment(line.drop_last()),
    ensures
        is_comment(line),
    decreases line.len(),
{
    reveal_strlit("//");
    let rest = line.drop_last();
    let slashes = "//"@;
    if rest.len() > 0 && is_space(rest[0]) {
        assert(line.skip(1).drop_last() == rest.skip(1));
        lemma_comment_of_stripped(line.skip(1));
    } else {
        assert(trim_start(rest) == rest);
        assert(rest.take(2) == slashes);
        assert(line[0] == rest[0]);
        assert(trim_start(line) == line);
        assert(line.take(2) == slashes);
    }
}

/// Commented-out entries are never found: no line of a configuration that was
/// read is a comment.
pub proof fn law_no_comment_is_read(raw: Seq<char>, i: int)
    requires
        0 <= i < lines(without_comments(raw)).len(),
    ensures
        !is_comment(lines(without_comments(raw))[i]),
{
    let all = lines(raw);
    let kept = all.filter(code_line());
    lemma_lines_are_lines(raw);
    lemma_filter_subset(all, code_line());
    assert forall|k: int| 0 <= k < kept.len() implies is_one_line(#[trigger] kept[k])
        && !is_comment(kept[k]) by {
        assert(kept.contains(kept[k]));
        let j = choose|j: int| 0 <= j < all.len() && all[j] == kept[k];
        assert(code_line()(kept[k]));
        assert(is_one_line(all[j]));
    }
    lemma_lines_of_join(kept);
    let line = lines(without_comments(raw))[i];
    if line != kept[i] && is_comment(line) {
        lemma_comment_of_stripped(kept[i]);
    }
}

/// A missing configuration gives the Zed defaults.
pub proof fn law_missing_files_give_defaults(mode: EditorMode)
    ensures
        ({
            let none = without_comments(text_or_empty(None));
            &&& mode_of(none) == EditorMode::Normal
            &&& !sends_with_ctrl(none)
            &&& toggle_of(none) == "ctrl-shift-/"@
            &&& paste_of(none, mode) is None
        }),
{
    reveal(Seq::filter);
    let none = Seq::<char>::empty();
    assert(lines(none).filter(code_line()) == Seq::<Seq<char>>::empty());
    assert(without_comments(none) == none);
    assert(find(none, quoted("helix_mode"@), 0) is None);
    assert(find(none, quoted("vim_mode"@), 0) is None);
    assert(find(none, quoted("use_modifier_to_send"@), 0) is None);
    assert(bindings_from(none, "agent::ToggleFocus"@, 0).len() == 0);
    assert(bindings_from(none, "editor::Paste"@, 0).len() == 0);
}

/// Helix wins where both modes are asked for.
pub proof fn law_helix_wins(settings: Seq<char>)
    requires
        setting(settings, "helix_mode"@) == Some(true),
    ensures
        mode_of(settings) == EditorMode::Helix,
{
}

proof fn lemma_last_live(entries: Seq<Entry>, mode: EditorMode)
    ensures
        match last_live(entries, mode) {
            Some(keys) => exists|i: int|
                0 <= i < entries.len() && (#[trigger] entries[i]).keys == keys && live_in(
                    context_text(entries[i].context),
                    mode,
                ) && forall|k: int|
                    i < k < entries.len() ==> !live_in(
                        context_text((#[trigger] entries[k]).context),
                        mode,
                    ),
            None => forall|k: int|
                0 <= k < entries.len() ==> !live_in(
                    context_text((#[trigger] entries[k]).context),
                    mode,
                ),
        },
    decreases entries.len(),
{
    if entries.len() > 0 {
        let n = entries.len() - 1;
        if live_in(context_text(entries.last().context), mode) {
            assert(entries[n].keys == entries.last().keys);
        } else {
            let head = entries.drop_last();
            lemma_last_live(head, mode);
            match last_live(head, mode) {
                Some(keys) => {
                    let i = choose|i: int|
                        0 <= i < head.len() && (#[trigger] head[i]).keys == keys && live_in(
                            context_text(head[i].context),
                            mode,
                        ) && forall|k: int|
                            i < k < head.len() ==> !live_in(
                                context_text((#[trigger] head[k]).context),
                                mode,
                            );
                    assert(entries[i].keys == keys);
                    assert forall|k: int| i < k < entries.len() implies !live_in(
                        context_text((#[trigger] entries[k]).context),
                        mode,
                    ) by {
                        if k < n {
                            assert(entries[k] == head[k]);
                        }
                    }
                },
                None => {
                    assert forall|k: int| 0 <= k < entries.len() implies !live_in(
                        context_text((#[trigger] entries[k]).context),
                        mode,
                    ) by {
                        if k < n {
                            assert(entries[k] == head[k]);
                        }
                    }
                },
            }
        }
    }
}

/// The paste keys are those of a binding that is live where the injection
/// pastes, and of the last such binding in the file; a binding of the plain
/// editor counts only where there is none for the mode.
pub proof fn law_last_live_binding_pastes(keymap: Seq<char>, mode: EditorMode)
    ensures
        ({
            let entries = bindings_from(keymap, "editor::Paste"@, 0);
            let with_mode = exists|i: int|
                0 <= i < entries.len() && live_in(
                    context_text((#[trigger] entries[i]).context),
                    mode,
                );
            let at = if with_mode {
                mode
            } else {
                EditorMode::Normal
            };
            match paste_of(keymap, mode) {
                Some(keys) => exists|i: int|
                    0 <= i < entries.len() && (#[trigger] entries[i]).keys == keys && live_in(
                        context_text(entries[i].context),
                        at,
                    ) && forall|k: int|
                        i < k < entries.len() ==> !live_in(
                            context_text((#[trigger] entries[k]).context),
                            at,
                        ),
                None => forall|k: int|
                    0 <= k < entries.len() ==> !live_in(
                        context_text((#[trigger] entries[k]).context),
                        at,
                    ),
            }
        }),
{
    let entries = bindings_from(keymap, "editor::Paste"@, 0);
    lemma_last_live(entries, mode);
    lemma_last_live(entries, EditorMode::Normal);
}

proof fn lemma_last_context_key(text: Seq<char>, open: Seq<int>, end: int)
    ensures
        match last_context_key(text, open, end) {
            Some(p) => 0 <= p < end && is_context_key(text, open, p) && forall|k: int|
                p < k < end ==> !is_context_key(text, open, k),
            None => forall|k: int| 0 <= k < end ==> !is_context_key(text, open, k),
        },
    decreases end,
{
    if end > 0 && !is_context_key(text, open, end - 1) {
        lemma_last_context_key(text, open, end - 1);
    }
}

/// A binding has the context of its own object and of no other: the context comes
/// from a key in the object of the `"bindings"` that it stands in, and there is
/// none where that object has no such key.
pub proof fn law_context_is_of_the_same_object(keymap: Seq<char>, pos: int)
    ensures
        match context_at(keymap, pos) {
            Some(context) => object_of_bindings(keymap, pos) matches Some(open) && exists|p: int|
                #[trigger] is_context_key(keymap, open, p) && context_value(keymap, p) == Some(
                    context,
                ),
            None => true,
        },
        object_of_bindings(keymap, pos) matches Some(open) && (forall|p: int|
            !#[trigger] is_context_key(keymap, open, p)) ==> context_at(keymap, pos) is None,
{
    if let Some(open) = object_of_bindings(keymap, pos) {
        lemma_last_context_key(keymap, open, keymap.len() as int);
    }
}

/// A context stands behind the bracket that opens its object, so nothing in front
/// of that bracket gives a binding its context.
pub proof fn law_context_stands_in_its_object(keymap: Seq<char>, pos: int)
    ensures
        context_at(keymap, pos) is Some ==> (object_of_bindings(keymap, pos) matches Some(open) && (
        open.len() > 0 ==> contains(keymap.skip(open.last()), "\"context\""@))),
{
    if let Some(open) = object_of_bindings(keymap, pos) {
        lemma_last_context_key(keymap, open, keymap.len() as int);
        if let Some(p) = last_context_key(keymap, open, keymap.len() as int) {
            if open.len() > 0 {
                let mark = "\"context\""@;
                let o = open.last();
                law_open_brackets_stand_before(keymap.take(p), open.len() - 1);
                let rest = keymap.skip(o);
                assert(rest.subrange(p - o, p - o + mark.len()) == keymap.subrange(
                    p,
                    p + mark.len(),
                ));
                assert(occurs_at(rest, mark, p - o));
            }
        }
    }
}

proof fn lemma_find_in_longer(hay: Seq<char>, more: Seq<char>, needle: Seq<char>, from: int)
    requires
        0 <= from,
        find(hay, needle, from) is Some,
    ensures
        find(hay + more, needle, from) == find(hay, needle, from),
    decreases hay.len() + 1 - from,
{
    let longer = hay + more;
    assert(longer.subrange(from, from + needle.len()) == hay.subrange(
        from,
        from + needle.len(),
    ));
    if !occurs_at(hay, needle, from) {
        lemma_find_in_longer(hay, more, needle, from + 1);
    }
}

proof fn lemma_bindings_stay(
    keymap: Seq<char>,
    more: Seq<char>,
    action: Seq<char>,
    from: int,
    i: int,
)
    requires
        0 <= from,
        0 <= i < bindings_from(keymap, action, from).len(),
    ensures
        i < bindings_from(keymap + more, action, from).len(),
        bindings_from(keymap + more, action, from)[i].keys == bindings_from(
            keymap,
            action,
            from,
        )[i].keys,
    decreases keymap.len() - from,
{
    let longer = keymap + more;
    let needle = quoted(action);
    let pos = find(keymap, needle, from)->0;
    lemma_find(keymap, needle, from);
    lemma_find_in_longer(keymap, more, needle, from);
    assert(longer.take(pos) == keymap.take(pos));
    let first = entry_at(keymap, pos);
    let longer_rest = bindings_from(longer, action, pos + needle.len());
    assert(entry_at(longer, pos).len() == first.len());
    assert(bindings_from(longer, action, from) == entry_at(longer, pos) + longer_rest);
    if i >= first.len() {
        lemma_bindings_stay(keymap, more, action, pos + needle.len(), i - first.len());
    }
}

/// Later text of a keymap takes no earlier binding away: its keys stay where they
/// are in the list.
pub proof fn law_later_text_keeps_bindings(
    keymap: Seq<char>,
    more: Seq<char>,
    action: Seq<char>,
    i: int,
)
    requires
        0 <= i < bindings_from(keymap, action, 0).len(),
    ensures
        i < bindings_from(keymap + more, action, 0).len(),
        bindings_from(keymap + more, action, 0)[i].keys == bindings_from(
            keymap,
            action,
            0,
        )[i].keys,
{
    lemma_bindings_stay(keymap, more, action, 0, i);
}

/// The context holds the text somewhere: it can be written as some text, this
/// one, and some more.
pub open spec fn context_holds(context: Option<Seq<char>>, text: Seq<char>) -> bool {
    exists|a: Seq<char>, b: Seq<char>| context == Some(#[trigger] (a + text + b))
}

proof fn lemma_context_holds(context: Option<Seq<char>>, text: Seq<char>)
    requires
        text.len() > 0,
    ensures
        context_holds(context, text) == contains(context_text(context), text),
{
    law_contains_is_between(context_text(context), text);
    match context {
        Some(held) => {
            if contains(held, text) {
                let (a, b) = choose|a: Seq<char>, b: Seq<char>| held == #[trigger] (a + text + b);
                assert(context == Some(a + text + b));
            }
            if context_holds(context, text) {
                let (a, b) = choose|a: Seq<char>, b: Seq<char>|
                    context == Some(#[trigger] (a + text + b));
                assert(held == a + text + b);
            }
        },
        None => {
            if contains(Seq::empty(), text) {
                let i = choose|i: int| occurs_at(Seq::empty(), text, i);
                assert(false);
            }
        },
    }
}

proof fn lemma_live(context: Option<Seq<char>>, mode: EditorMode)
    ensures
        live_in(context_text(context), mode) == match mode {
            EditorMode::Normal => !context_holds(context, "vim_mode"@),
            EditorMode::Vim => context_holds(context, "vim_mode == normal"@),
            EditorMode::Helix => context_holds(context, "helix_normal"@) || context_holds(
                context,
                "helix_select"@,
            ),
        },
{
    reveal_strlit("vim_mode");
    reveal_strlit("vim_mode == normal");
    reveal_strlit("helix_normal");
    reveal_strlit("helix_select");
    lemma_context_holds(context, "vim_mode"@);
    lemma_context_holds(context, "vim_mode == normal"@);
    lemma_context_holds(context, "helix_normal"@);
    lemma_context_holds(context, "helix_select"@);
}

/// In Vim mode a context that holds `vim_mode == normal` is live, whatever stands
/// around that text, and one that does not hold it is not.
pub proof fn law_live_in_vim(a: Seq<char>, b: Seq<char>, context: Seq<char>)
    ensures
        live_in(a + "vim_mode == normal"@ + b, EditorMode::Vim),
        live_in(context, EditorMode::Vim) ==> exists|x: Seq<char>, y: Seq<char>|
            context == #[trigger] (x + "vim_mode == normal"@ + y),
{
    law_contained_between(a, "vim_mode == normal"@, b);
    law_contains_is_between(context, "vim_mode == normal"@);
}

/// In Helix mode a context that holds `helix_normal` or `helix_select` is live,
/// whatever stands around that text, and one that holds neither is not.
pub proof fn law_live_in_helix(a: Seq<char>, b: Seq<char>, context: Seq<char>)
    ensures
        live_in(a + "helix_normal"@ + b, EditorMode::Helix),
        live_in(a + "helix_select"@ + b, EditorMode::Helix),
        live_in(context, EditorMode::Helix) ==> (exists|x: Seq<char>, y: Seq<char>|
            context == #[trigger] (x + "helix_normal"@ + y)) || (exists|x: Seq<char>, y: Seq<char>|
            context == #[trigger] (x + "helix_select"@ + y)),
{
    law_contained_between(a, "helix_normal"@, b);
    law_contained_between(a, "helix_select"@, b);
    law_contains_is_between(context, "helix_normal"@);
    law_contains_is_between(context, "helix_select"@);
}

/// Without a modal mode a context that holds `vim_mode` is not live, whatever
/// stands around that text, and one that does not hold it is.
pub proof fn law_live_in_normal(a: Seq<char>, b: Seq<char>, context: Seq<char>)
    ensures
        !live_in(a + "vim_mode"@ + b, EditorMode::Normal),
        !live_in(context, EditorMode::Normal) ==> exists|x: Seq<char>, y: Seq<char>|
            context == #[trigger] (x + "vim_mode"@ + y),
{
    law_contained_between(a, "vim_mode"@, b);
    law_contains_is_between(context, "vim_mode"@);
}

/// In Vim mode the paste keys are those of the last paste binding whose context
/// holds `vim_mode == normal`.
pub proof fn law_paste_in_vim(keymap: Seq<char>, i: int)
    requires
        ({
            let entries = bindings_from(keymap, "editor::Paste"@, 0);
            &&& 0 <= i < entries.len()
            &&& context_holds(entries[i].context, "vim_mode == normal"@)
            &&& forall|k: int|
                i < k < entries.len() ==> !context_holds(
                    (#[trigger] entries[k]).context,
                    "vim_mode == normal"@,
                )
        }),
    ensures
        paste_of(keymap, EditorMode::Vim) == Some(
            bindings_from(keymap, "editor::Paste"@, 0)[i].keys,
        ),
{
    let entries = bindings_from(keymap, "editor::Paste"@, 0);
    lemma_last_live_at(entries, EditorMode::Vim, i);
}

/// In Helix mode the paste keys are those of the last paste binding whose context
/// holds `helix_normal` or `helix_select`.
pub proof fn law_paste_in_helix(keymap: Seq<char>, i: int)
    requires
        ({
            let entries = bindings_from(keymap, "editor::Paste"@, 0);
            &&& 0 <= i < entries.len()
            &&& context_holds(entries[i].context, "helix_normal"@) || context_holds(
                entries[i].context,
                "helix_select"@,
            )
            &&& forall|k: int|
                i < k < entries.len() ==> !context_holds(
                    (#[trigger] entries[k]).context,
                    "helix_normal"@,
                ) && !context_holds(entries[k].context, "helix_select"@)
        }),
    ensures
        paste_of(keymap, EditorMode::Helix) == Some(
            bindings_from(keymap, "editor::Paste"@, 0)[i].keys,
        ),
{
    let entries = bindings_from(keymap, "editor::Paste"@, 0);
    lemma_last_live_at(entries, EditorMode::Helix, i);
}

/// No binding of the keymap is meant for the Normal mode of `mode`.
pub open spec fn none_for_mode(entries: Seq<Entry>, mode: EditorMode) -> bool {
    forall|k: int|
        0 <= k < entries.len() ==> match mode {
            EditorMode::Normal => true,
            EditorMode::Vim => !context_holds(
                (#[trigger] entries[k]).context,
                "vim_mode == normal"@,
            ),
            EditorMode::Helix => !context_holds(entries[k].context, "helix_normal"@)
                && !context_holds(entries[k].context, "helix_select"@),
        }
}

/// Where no paste binding is meant for the mode, the paste keys are those of the
/// last one whose context does not hold `vim_mode`, as they are without a modal
/// mode.
pub proof fn law_paste_of_the_plain_editor(keymap: Seq<char>, mode: EditorMode, i: int)
    requires
        ({
            let entries = bindings_from(keymap, "editor::Paste"@, 0);
            &&& none_for_mode(entries, mode)
            &&& 0 <= i < entries.len()
            &&& !context_holds(entries[i].context, "vim_mode"@)
            &&& forall|k: int|
                i < k < entries.len() ==> context_holds(
                    (#[trigger] entries[k]).context,
                    "vim_mode"@,
                )
        }),
    ensures
        paste_of(keymap, mode) == Some(bindings_from(keymap, "editor::Paste"@, 0)[i].keys),
{
    let entries = bindings_from(keymap, "editor::Paste"@, 0);
    lemma_last_live_at(entries, EditorMode::Normal, i);
    if mode != EditorMode::Normal {
        lemma_none_for_mode(entries, mode);
    }
}

/// Where no paste binding is meant for the mode, and the context of each holds
/// `vim_mode`, the keymap gives no paste keys.
pub proof fn law_no_paste_binding(keymap: Seq<char>, mode: EditorMode)
    requires
        ({
            let entries = bindings_from(keymap, "editor::Paste"@, 0);
            &&& none_for_mode(entries, mode)
            &&& forall|k: int|
                0 <= k < entries.len() ==> context_holds(
                    (#[trigger] entries[k]).context,
                    "vim_mode"@,
                )
        }),
    ensures
        paste_of(keymap, mode) is None,
{
    let entries = bindings_from(keymap, "editor::Paste"@, 0);
    lemma_last_live(entries, EditorMode::Normal);
    if let Some(keys) = last_live(entries, EditorMode::Normal) {
        let k = choose|k: int|
            0 <= k < entries.len() && (#[trigger] entries[k]).keys == keys && live_in(
                context_text(entries[k].context),
                EditorMode::Normal,
            );
        lemma_live(entries[k].context, EditorMode::Normal);
    }
    if mode != EditorMode::Normal {
        lemma_none_for_mode(entries, mode);
    }
}

proof fn lemma_none_for_mode(entries: Seq<Entry>, mode: EditorMode)
    requires
        none_for_mode(entries, mode),
        mode != EditorMode::Normal,
    ensures
        last_live(entries, mode) is None,
{
    lemma_last_live(entries, mode);
    if let Some(keys) = last_live(entries, mode) {
        let k = choose|k: int|
            0 <= k < entries.len() && (#[trigger] entries[k]).keys == keys && live_in(
                context_text(entries[k].context),
                mode,
            );
        lemma_live(entries[k].context, mode);
    }
}

proof fn lemma_last_live_at(entries: Seq<Entry>, mode: EditorMode, i: int)
    requires
        0 <= i < entries.len(),
        match mode {
            EditorMode::Normal => !context_holds(entries[i].context, "vim_mode"@),
            EditorMode::Vim => context_holds(entries[i].context, "vim_mode == normal"@),
            EditorMode::Helix => context_holds(entries[i].context, "helix_normal"@)
                || context_holds(entries[i].context, "helix_select"@),
        },
        forall|k: int|
            i < k < entries.len() ==> match mode {
                EditorMode::Normal => context_holds((#[trigger] entries[k]).context, "vim_mode"@),
                EditorMode::Vim => !context_holds(entries[k].context, "vim_mode == normal"@),
                EditorMode::Helix => !context_holds(entries[k].context, "helix_normal"@)
                    && !context_holds(entries[k].context, "helix_select"@),
            },
    ensures
        last_live(entries, mode) == Some(entries[i].keys),
    decreases entries.len(),
{
    let n = entries.len() - 1;
    lemma_live(entries[n].context, mode);
    if i < n {
        let head = entries.drop_last();
        assert(entries.last() == entries[n]);
        assert(head[i] == entries[i]);
        assert forall|k: int| i < k < head.len() implies match mode {
            EditorMode::Normal => context_holds((#[trigger] head[k]).context, "vim_mode"@),
            EditorMode::Vim => !context_holds(head[k].context, "vim_mode == normal"@),
            EditorMode::Helix => !context_holds(head[k].context, "helix_normal"@)
                && !context_holds(head[k].context, "helix_select"@),
        } by {
            assert(head[k] == entries[k]);
        }
        lemma_last_live_at(head, mode, i);
    }
}

/// The toggle keys are those of the last toggle binding in the file; a keymap
/// without one leaves Zed's own.
pub proof fn law_last_toggle_wins(keymap: Seq<char>)
    ensures
        ({
            let entries = bindings_from(keymap, "agent::ToggleFocus"@, 0);
            &&& entries.len() > 0 ==> toggle_of(keymap) == entries[entries.len() - 1].keys
            &&& entries.len() == 0 ==> toggle_of(keymap) == "ctrl-shift-/"@
        }),
{
}

/// The bindings of an action are found where its quoted name stands, from the
/// front of the file to the end: the next one at or behind `from` comes first.
pub proof fn law_bindings_in_order(keymap: Seq<char>, action: Seq<char>, from: int, pos: int)
    requires
        0 <= from <= pos,
        occurs_at(keymap, seq!['"'] + action + seq!['"'], pos),
        forall|j: int|
            from <= j < pos ==> !occurs_at(keymap, seq!['"'] + action + seq!['"'], j),
    ensures
        bindings_from(keymap, action, from) == (match key_before(keymap.take(pos)) {
            Some(keys) => seq![Entry { context: context_at(keymap, pos), keys }],
            None => Seq::empty(),
        }) + bindings_from(keymap, action, pos + action.len() + 2),
{
    lemma_find(keymap, quoted(action), from);
    assert(quoted(action) == seq!['"'] + action + seq!['"']);
}

/// Where the quoted name of an action does not stand any more, there is no further
/// binding of it.
pub proof fn law_no_bindings(keymap: Seq<char>, action: Seq<char>, from: int)
    requires
        0 <= from,
        forall|j: int| from <= j ==> !occurs_at(keymap, seq!['"'] + action + seq!['"'], j),
    ensures
        bindings_from(keymap, action, from) == Seq::<Entry>::empty(),
{
    lemma_find(keymap, quoted(action), from);
}

/// `s` does not hold the character `c`.
pub open spec fn is_free_of(s: Seq<char>, c: char) -> bool {
    forall|i: int| 0 <= i < s.len() ==> #[trigger] s[i] != c
}

proof fn lemma_last_char(a: Seq<char>, c: char, b: Seq<char>)
    requires
        is_free_of(b, c),
    ensures
        rfind(a.push(c) + b, seq![c]) == Some(a.len() as int),
{
    let s = a.push(c) + b;
    let n = a.len() as int;
    lemma_rfind(s, seq![c]);
    assert(s.subrange(n, n + 1) == seq![c]);
    assert(occurs_at(s, seq![c], n));
    if let Some(i) = rfind(s, seq![c]) {
        assert(s.subrange(i, i + 1)[0] == s[i]);
        if i > n {
            assert(s[i] == b[i - n - 1]);
        }
    }
}

/// The keys of a binding are the quoted string in front of the colon that stands
/// before the action, whatever is in front of that and between.
pub proof fn law_keys_stand_before_the_colon(
    a: Seq<char>,
    keys: Seq<char>,
    b: Seq<char>,
    c: Seq<char>,
)
    requires
        is_free_of(keys, '"'),
        is_free_of(b, '"'),
        is_free_of(c, ':'),
    ensures
        key_before((((a.push('"') + keys).push('"')) + b).push(':') + c) == Some(keys),
{
    reveal_strlit(":");
    reveal_strlit("\"");
    assert(":"@ == seq![':']);
    assert("\""@ == seq!['"']);
    let inner = a.push('"') + keys;
    let head = inner.push('"') + b;
    let s = head.push(':') + c;
    lemma_last_char(head, ':', c);
    assert(s.take(head.len() as int) == head);
    lemma_last_char(inner, '"', b);
    assert(s.take(inner.len() as int) == inner);
    lemma_last_char(a, '"', keys);
    assert(s.subrange(a.len() as int + 1, inner.len() as int) == keys);
}

/// All of `s` is white space.
pub open spec fn is_blank(s: Seq<char>) -> bool {
    forall|i: int| 0 <= i < s.len() ==> is_space(#[trigger] s[i])
}

proof fn lemma_trim(pad: Seq<char>, s: Seq<char>)
    requires
        is_blank(pad),
        s.len() > 0 ==> !is_space(s[0]),
    ensures
        trim_start(pad + s) == s,
    decreases pad.len(),
{
    if pad.len() == 0 {
        assert(pad + s == s);
    } else {
        let rest = pad.skip(1);
        assert((pad + s).skip(1) == rest + s);
        assert forall|i: int| 0 <= i < rest.len() implies is_space(#[trigger] rest[i]) by {
            assert(rest[i] == pad[i + 1]);
        }
        assert((pad + s)[0] == pad[0]);
        lemma_trim(rest, s);
    }
}

proof fn lemma_colon(pad: Seq<char>, gap: Seq<char>, value: Seq<char>)
    requires
        is_blank(pad),
        is_blank(gap),
        value.len() > 0 ==> !is_space(value[0]),
    ensures
        behind_colon(pad + seq![':'] + gap + value) == Some(value),
{
    let s = pad + seq![':'] + gap + value;
    let rest = seq![':'] + gap + value;
    assert(s == pad + rest);
    assert(rest[0] == ':');
    lemma_trim(pad, rest);
    assert(rest.skip(1) == gap + value);
    lemma_trim(gap, value);
}

proof fn lemma_no_colon(pad: Seq<char>, s: Seq<char>)
    requires
        is_blank(pad),
        s.len() > 0 ==> !is_space(s[0]) && s[0] != ':',
    ensures
        behind_colon(pad + s) is None,
{
    lemma_trim(pad, s);
}

/// A setting is read from the first place where its quoted key stands: it is the
/// `true` or `false` behind the colon, white space aside, whatever follows. Any
/// other value is none.
pub proof fn law_setting(
    before: Seq<char>,
    key: Seq<char>,
    pad: Seq<char>,
    gap: Seq<char>,
    value: Seq<char>,
)
    requires
        is_blank(pad),
        is_blank(gap),
        value.len() > 0 ==> !is_space(value[0]),
        forall|j: int|
            0 <= j < before.len() ==> !occurs_at(
                before + (seq!['"'] + key + seq!['"']) + (pad + seq![':'] + gap + value),
                seq!['"'] + key + seq!['"'],
                j,
            ),
    ensures
        ({
            let text = before + (seq!['"'] + key + seq!['"']) + (pad + seq![':'] + gap + value);
            &&& "true"@.is_prefix_of(value) ==> setting(text, key) == Some(true)
            &&& "false"@.is_prefix_of(value) ==> setting(text, key) == Some(false)
            &&& !"true"@.is_prefix_of(value) && !"false"@.is_prefix_of(value) ==> setting(
                text,
                key,
            ) is None
        }),
{
    let name = seq!['"'] + key + seq!['"'];
    let rest = pad + seq![':'] + gap + value;
    let text = before + name + rest;
    lemma_key_at(before, name, rest);
    lemma_colon(pad, gap, value);
    reveal_strlit("true");
    reveal_strlit("false");
    if "true"@.is_prefix_of(value) && "false"@.is_prefix_of(value) {
        assert(value.subrange(0, 4)[0] == value[0]);
        assert(value.subrange(0, 5)[0] == value[0]);
        assert("true"@[0] != "false"@[0]);
    }
}

proof fn lemma_key_at(before: Seq<char>, name: Seq<char>, rest: Seq<char>)
    requires
        forall|j: int| 0 <= j < before.len() ==> !occurs_at(before + name + rest, name, j),
    ensures
        find(before + name + rest, name, 0) == Some(before.len() as int),
        (before + name + rest).skip(before.len() as int + name.len()) == rest,
{
    let text = before + name + rest;
    let n = before.len() as int;
    assert(text.subrange(n, n + name.len()) == name);
    assert(occurs_at(text, name, n));
    lemma_find(text, name, 0);
    assert(text.skip(n + name.len()) == rest);
}

/// A quoted key with no colon behind it sets nothing, and neither does a key
/// that does not stand in the text.
pub proof fn law_no_setting(before: Seq<char>, key: Seq<char>, pad: Seq<char>, rest: Seq<char>)
    requires
        is_blank(pad),
        rest.len() > 0 ==> !is_space(rest[0]) && rest[0] != ':',
        forall|j: int|
            0 <= j < before.len() ==> !occurs_at(
                before + (seq!['"'] + key + seq!['"']) + (pad + rest),
                seq!['"'] + key + seq!['"'],
                j,
            ),
    ensures
        setting(before + (seq!['"'] + key + seq!['"']) + (pad + rest), key) is None,
        forall|text: Seq<char>|
            !contains(text, seq!['"'] + key + seq!['"']) ==> (#[trigger] setting(
                text,
                key,
            )) is None,
{
    let name = seq!['"'] + key + seq!['"'];
    lemma_key_at(before, name, pad + rest);
    lemma_no_colon(pad, rest);
    assert forall|text: Seq<char>| !contains(text, name) implies (#[trigger] setting(
        text,
        key,
    )) is None by {
        lemma_find(text, name, 0);
    }
}

/// The modal mode is Helix where `helix_mode` is true, else Vim where `vim_mode`
/// is; the send key takes a modifier exactly where `use_modifier_to_send` is
/// true.
pub proof fn law_modes(settings: Seq<char>)
    ensures
        setting(settings, "helix_mode"@) == Some(true) <==> mode_of(settings) == EditorMode::Helix,
        setting(settings, "helix_mode"@) != Some(true) && setting(settings, "vim_mode"@) == Some(
            true,
        ) <==> mode_of(settings) == EditorMode::Vim,
        sends_with_ctrl(settings) <==> setting(settings, "use_modifier_to_send"@) == Some(true),
{
}

/// The names of the modes and the keys that paste in them.
pub proof fn law_mode_names()
    ensures
        mode_name(EditorMode::Normal) == "normal"@,
        mode_name(EditorMode::Vim) == "vim"@,
        mode_name(EditorMode::Helix) == "helix"@,
        mode_paste(EditorMode::Normal) == "ctrl-v"@,
        mode_paste(EditorMode::Vim) == "shift-insert"@,
        mode_paste(EditorMode::Helix) == "shift-r"@,
{
}

/// The directory that was given is the one that is read; else it is `Zed` in the
/// application data, and without those there is none.
pub proof fn law_config_dir(given: Seq<char>, appdata: Option<Seq<char>>)
    ensures
        config_dir_of(Some(given), appdata) == given,
        appdata matches Some(data) ==> config_dir_of(None, appdata) == child(data, "Zed"@),
        appdata is None ==> config_dir_of(None, appdata) == Seq::<char>::empty(),
{
}

/// A line is a comment exactly if it is white space, two slashes, and whatever
/// follows.
pub proof fn law_comment_lines(line: Seq<char>)
    ensures
        is_comment(line) <==> exists|pad: Seq<char>, rest: Seq<char>|
            is_blank(pad) && line == #[trigger] (pad + "//"@ + rest),
{
    reveal_strlit("//");
    let mark = "//"@;
    if is_comment(line) {
        law_trim_start(line);
        let cut = trim_start(line);
        let n = line.len() - cut.len();
        let pad = line.take(n);
        let rest = cut.skip(2);
        assert(cut.subrange(0, 2) == mark);
        assert(line.subrange(n, line.len() as int) == cut);
        assert(line == pad + cut);
        assert(cut == mark + rest);
        assert(line == pad + mark + rest);
        assert(is_blank(pad));
    }
    if exists|pad: Seq<char>, rest: Seq<char>|
        is_blank(pad) && line == #[trigger] (pad + mark + rest) {
        let (pad, rest) = choose|pad: Seq<char>, rest: Seq<char>|
            is_blank(pad) && line == #[trigger] (pad + mark + rest);
        assert(line == pad + (mark + rest));
        assert((mark + rest)[0] == '/');
        lemma_trim(pad, mark + rest);
        assert((mark + rest).subrange(0, 2) == mark);
    }
}

/// A configuration is read line by line: a comment is left out, and any other
/// line stays in front of what is read of the rest. A carriage return at the end
/// of a line goes with its line end.
pub proof fn law_lines_are_kept(line: Seq<char>, rest: Seq<char>)
    requires
        is_free_of(line, '\n'),
    ensures
        ({
            let code = if line.len() > 0 && line.last() == '\r' {
                line.drop_last()
            } else {
                line
            };
            let read = without_comments(line + seq!['\n'] + rest);
            &&& is_comment(code) ==> read == without_comments(rest)
            &&& !is_comment(code) && (exists|i: int|
                0 <= i < lines(rest).len() && !is_comment(#[trigger] lines(rest)[i])) ==> read
                == code + seq!['\n'] + without_comments(rest)
            &&& !is_comment(code) && (forall|i: int|
                0 <= i < lines(rest).len() ==> is_comment(#[trigger] lines(rest)[i])) ==> read
                == code
        }),
        without_comments(Seq::empty()) == Seq::<char>::empty(),
        line.len() > 0 && !is_comment(line) ==> without_comments(line) == line,
        is_comment(line) ==> without_comments(line) == Seq::<char>::empty(),
{
    reveal(Seq::filter);
    reveal_strlit("\n");
    assert("\n"@ == seq!['\n']);
    let keep = code_line();
    let more = lines(rest);
    let kept = more.filter(keep);
    let code = if line.len() > 0 && line.last() == '\r' {
        line.drop_last()
    } else {
        line
    };
    law_lines(line, rest);
    assert(lines(line + seq!['\n'] + rest) == seq![code] + more);
    Seq::filter_distributes_over_add(seq![code], more, keep);
    assert(seq![code].drop_last() == Seq::<Seq<char>>::empty());
    assert(seq![line].drop_last() == Seq::<Seq<char>>::empty());
    assert(Seq::<Seq<char>>::empty().filter(keep) == Seq::<Seq<char>>::empty());
    assert(lines(Seq::<char>::empty()).filter(keep) == Seq::<Seq<char>>::empty());
    let all = (seq![code] + more).filter(keep);
    lemma_filter_subset(more, keep);
    if is_comment(code) {
        assert(seq![code].filter(keep) == Seq::<Seq<char>>::empty());
        assert(all == kept);
    } else {
        assert(seq![code].filter(keep) == seq![code]);
        assert(all == seq![code] + kept);
        if exists|i: int| 0 <= i < more.len() && !is_comment(#[trigger] more[i]) {
            let i = choose|i: int| 0 <= i < more.len() && !is_comment(#[trigger] more[i]);
            assert(more.contains(more[i]) && keep(more[i]));
            assert(kept.contains(more[i]));
            lemma_join_front(all, "\n"@);
            assert(all.skip(1) == kept);
        } else {
            if kept.len() > 0 {
                assert(kept.contains(kept[0]));
                let i = choose|i: int| 0 <= i < more.len() && more[i] == kept[0];
                assert(keep(kept[0]));
                assert(is_comment(more[i]));
            }
            assert(all == seq![code]);
        }
    }
    reveal_strlit("//");
    if line.len() == 0 {
        assert(!is_comment(line));
    } else {
        assert(lines(line) == seq![line]);
    }
}

/// The context of an object is the quoted string behind its context key.
pub proof fn law_context_value(
    before: Seq<char>,
    pad: Seq<char>,
    gap: Seq<char>,
    context: Seq<char>,
    rest: Seq<char>,
)
    requires
        is_blank(pad),
        is_blank(gap),
        is_free_of(context, '"'),
    ensures
        context_value(
            before + "\"context\""@ + (pad + seq![':'] + gap + (seq!['"'] + context + seq!['"']
                + rest)),
            before.len() as int,
        ) == Some(context),
{
    let mark = "\"context\""@;
    let value = seq!['"'] + context + seq!['"'] + rest;
    let tail = pad + seq![':'] + gap + value;
    let text = before + mark + tail;
    reveal_strlit("\"");
    assert("\""@ == seq!['"']);
    assert(text.skip(before.len() as int + mark.len()) == tail);
    lemma_colon(pad, gap, value);
    let inner = value.skip(1);
    let n = context.len() as int;
    assert(inner.subrange(n, n + 1) == seq!['"']);
    assert forall|j: int| 0 <= j < n implies !occurs_at(inner, seq!['"'], j) by {
        assert(inner.subrange(j, j + 1)[0] == inner[j]);
        assert(inner[j] == context[j]);
    }
    assert(occurs_at(inner, seq!['"'], n));
    lemma_find(inner, seq!['"'], 0);
    assert(inner.take(n) == context);
}

/// A binding has the context that the last context key in the object of its
/// `"bindings"` gives.
pub proof fn law_context_of_the_object(keymap: Seq<char>, pos: int, p: int)
    requires
        object_of_bindings(keymap, pos) matches Some(open) && is_context_key(keymap, open, p)
            && forall|k: int| p < k < keymap.len() ==> !#[trigger] is_context_key(keymap, open, k),
    ensures
        context_at(keymap, pos) == context_value(keymap, p),
{
    let open = object_of_bindings(keymap, pos)->0;
    lemma_last_context_key(keymap, open, keymap.len() as int);
    reveal_strlit("\"context\"");
    assert(p < keymap.len());
}

/// A context key is the quoted word, outside strings and comments and right in
/// the object, with a colon behind it, white space aside. Nothing but the quoted
/// words are keys.
pub proof fn law_context_keys(
    before: Seq<char>,
    pad: Seq<char>,
    rest: Seq<char>,
    open: Seq<int>,
)
    requires
        is_blank(pad),
        rest.len() > 0 ==> !is_space(rest[0]),
    ensures
        is_context_key(before + "\"context\""@ + (pad + rest), open, before.len() as int) <==> (
        nesting(before) == (Nesting { place: Place::Code, open }) && rest.len() > 0 && rest[0]
            == ':'),
        forall|text: Seq<char>, p: int| #[trigger]
            is_context_key(text, open, p) ==> occurs_at(text, "\"context\""@, p),
        forall|text: Seq<char>, pos: int, p: int| #[trigger]
            is_bindings_key(text, pos, p) ==> occurs_at(text.take(pos), "\"bindings\""@, p),
{
    let mark = "\"context\""@;
    let text = before + mark + (pad + rest);
    let n = before.len() as int;
    assert(text.take(n) == before);
    assert(text.subrange(n, n + mark.len()) == mark);
    assert(text.skip(n + mark.len()) == pad + rest);
    lemma_trim(pad, rest);
}

proof fn lemma_last_bindings_key(keymap: Seq<char>, pos: int, end: int)
    ensures
        match last_bindings_key(keymap, pos, end) {
            Some(p) => 0 <= p < end && is_bindings_key(keymap, pos, p) && forall|k: int|
                p < k < end ==> !is_bindings_key(keymap, pos, k),
            None => forall|k: int| 0 <= k < end ==> !is_bindings_key(keymap, pos, k),
        },
    decreases end,
{
    if end > 0 && !is_bindings_key(keymap, pos, end - 1) {
        lemma_last_bindings_key(keymap, pos, end - 1);
    }
}

/// A binding belongs to the last `"bindings"` key in front of it whose object is
/// still open; where there is none it has no object and no context.
pub proof fn law_object_of_a_binding(keymap: Seq<char>, pos: int, p: int)
    requires
        0 <= p < pos,
        is_bindings_key(keymap, pos, p),
        forall|k: int| p < k < pos ==> !#[trigger] is_bindings_key(keymap, pos, k),
    ensures
        object_of_bindings(keymap, pos) == Some(nesting(keymap.take(p)).open),
{
    lemma_last_bindings_key(keymap, pos, pos);
}

/// Without a `"bindings"` key in front of it a binding has no context.
pub proof fn law_no_object_no_context(keymap: Seq<char>, pos: int)
    requires
        forall|k: int| 0 <= k < pos ==> !#[trigger] is_bindings_key(keymap, pos, k),
    ensures
        object_of_bindings(keymap, pos) is None,
        context_at(keymap, pos) is None,
{
    lemma_last_bindings_key(keymap, pos, pos);
}

/// A `"bindings"` key counts for what follows it exactly if it stands outside
/// strings and comments, the brackets around it are still open, and a colon
/// follows it, white space and comments aside.
pub proof fn law_bindings_keys(before: Seq<char>, inside: Seq<char>, rest: Seq<char>)
    ensures
        ({
            let keymap = before + "\"bindings\""@ + inside + rest;
            let pos = before.len() + "\"bindings\""@.len() + inside.len();
            let open = nesting(before).open;
            let now = nesting(before + "\"bindings\""@ + inside).open;
            is_bindings_key(keymap, pos as int, before.len() as int) <==> {
                &&& nesting(before).place == Place::Code
                &&& open.len() <= now.len() && now.take(open.len() as int) == open
                &&& skip_blanks(inside + rest).len() > 0 && skip_blanks(inside + rest)[0] == ':'
            }
        }),
{
    let mark = "\"bindings\""@;
    let keymap = before + mark + inside + rest;
    let n = before.len() as int;
    let pos = n + mark.len() + inside.len();
    assert(keymap.take(n) == before);
    assert(keymap.take(pos) == before + mark + inside);
    assert(keymap.take(pos).subrange(n, n + mark.len()) == mark);
    assert(keymap.skip(n + mark.len()) == inside + rest);
}

/// Keys are found only as a quoted string in front of the last colon.
pub proof fn law_keys_are_quoted(s: Seq<char>)
    ensures
        key_before(s) matches Some(keys) ==> is_free_of(keys, '"') && exists|
            a: Seq<char>,
            b: Seq<char>,
            c: Seq<char>,
        | #[trigger]
            ((((a.push('"') + keys).push('"')) + b).push(':') + c) == s && is_free_of(b, '"')
                && is_free_of(c, ':'),
{
    reveal_strlit(":");
    reveal_strlit("\"");
    assert(":"@ == seq![':']);
    assert("\""@ == seq!['"']);
    if let Some(keys) = key_before(s) {
        lemma_rfind(s, seq![':']);
        let colon = rfind(s, seq![':'])->0;
        let head = s.take(colon);
        lemma_rfind(head, seq!['"']);
        let close = rfind(head, seq!['"'])->0;
        let inner = s.take(close);
        lemma_rfind(inner, seq!['"']);
        let open = rfind(inner, seq!['"'])->0;
        assert(s.subrange(colon, colon + 1)[0] == s[colon]);
        assert(head.subrange(close, close + 1)[0] == head[close]);
        assert(inner.subrange(open, open + 1)[0] == inner[open]);
        let a = s.take(open);
        let b = s.subrange(close + 1, colon);
        let c = s.skip(colon + 1);
        assert(keys == s.subrange(open + 1, close));
        assert forall|i: int| 0 <= i < keys.len() implies #[trigger] keys[i] != '"' by {
            lemma_char_at(inner, '"', open + 1 + i);
            assert(inner[open + 1 + i] == keys[i]);
        }
        assert forall|i: int| 0 <= i < b.len() implies #[trigger] b[i] != '"' by {
            lemma_char_at(head, '"', close + 1 + i);
            assert(head[close + 1 + i] == b[i]);
        }
        assert forall|i: int| 0 <= i < c.len() implies #[trigger] c[i] != ':' by {
            lemma_char_at(s, ':', colon + 1 + i);
            assert(s[colon + 1 + i] == c[i]);
        }
        assert(((((a.push('"') + keys).push('"')) + b).push(':') + c) == s);
    }
}

proof fn lemma_char_at(s: Seq<char>, c: char, i: int)
    requires
        0 <= i < s.len(),
    ensures
        occurs_at(s, seq![c], i) <==> s[i] == c,
{
    assert(s.subrange(i, i + 1)[0] == s[i]);
    assert(s[i] == c ==> s.subrange(i, i + 1) == seq![c]);
}

/// A context is found only as a quoted string behind a colon that follows the key.
pub proof fn law_context_is_quoted(before: Seq<char>, rest: Seq<char>)
    ensures
        context_value(before + "\"context\""@ + rest, before.len() as int) matches Some(context)
            ==> is_free_of(context, '"') && exists|
            pad: Seq<char>,
            gap: Seq<char>,
            tail: Seq<char>,
        |
            is_blank(pad) && is_blank(gap) && #[trigger] (pad + seq![':'] + gap + (seq!['"']
                + context + seq!['"'] + tail)) == rest,
{
    let mark = "\"context\""@;
    let text = before + mark + rest;
    reveal_strlit("\"");
    assert("\""@ == seq!['"']);
    assert(text.skip(before.len() as int + mark.len()) == rest);
    if let Some(context) = context_value(text, before.len() as int) {
        let (pad, gap) = lemma_colon_stands(rest);
        let value = behind_colon(rest)->0;
        let tail = lemma_quoted_stands(value, context);
        assert(value == seq!['"'] + context + seq!['"'] + tail);
        assert(pad + seq![':'] + gap + (seq!['"'] + context + seq!['"'] + tail) == rest);
    }
}

proof fn lemma_trimmed_stands(s: Seq<char>) -> (pad: Seq<char>)
    ensures
        is_blank(pad),
        s == pad + trim_start(s),
{
    law_trim_start(s);
    let cut = trim_start(s);
    let n = s.len() - cut.len();
    let pad = s.take(n);
    assert(s.subrange(n, s.len() as int) == cut);
    assert forall|i: int| 0 <= i < pad.len() implies is_space(#[trigger] pad[i]) by {
        assert(pad[i] == s[i]);
    }
    assert(s == pad + cut);
    pad
}

proof fn lemma_colon_stands(s: Seq<char>) -> (r: (Seq<char>, Seq<char>))
    requires
        behind_colon(s) is Some,
    ensures
        is_blank(r.0),
        is_blank(r.1),
        s == r.0 + seq![':'] + r.1 + behind_colon(s)->0,
{
    let pad = lemma_trimmed_stands(s);
    let colon = trim_start(s);
    let rest = colon.skip(1);
    let gap = lemma_trimmed_stands(rest);
    assert(colon == seq![':'] + rest);
    assert(s == pad + seq![':'] + gap + behind_colon(s)->0);
    (pad, gap)
}

proof fn lemma_quoted_stands(value: Seq<char>, context: Seq<char>) -> (tail: Seq<char>)
    requires
        value.len() > 0,
        value[0] == '"',
        find(value.skip(1), seq!['"'], 0) matches Some(end) && context == value.skip(1).take(end),
    ensures
        is_free_of(context, '"'),
        value == seq!['"'] + context + seq!['"'] + tail,
{
    let inner = value.skip(1);
    lemma_find(inner, seq!['"'], 0);
    let end = find(inner, seq!['"'], 0)->0;
    let tail = inner.skip(end + 1);
    assert forall|i: int| 0 <= i < context.len() implies #[trigger] context[i] != '"' by {
        lemma_char_at(inner, '"', i);
        assert(inner[i] == context[i]);
    }
    lemma_char_at(inner, '"', end);
    assert(inner == context + seq!['"'] + tail);
    assert(value == seq!['"'] + inner);
    assert(value == seq!['"'] + context + seq!['"'] + tail);
    tail
}

/// What is read of a file is its text, and nothing where it is missing; a binding
/// found is the context and the keys that it holds.
pub proof fn law_texts_of_files(s: String, pairs: Seq<(Option<String>, String)>, i: int)
    requires
        0 <= i < pairs.len(),
    ensures
        text_or_empty(Some(s)) == s@,
        text_or_empty(None) == Seq::<char>::empty(),
        entries_of(pairs).len() == pairs.len(),
        entries_of(pairs)[i].keys == pairs[i].1@,
        pairs[i].0 matches Some(context) ==> entries_of(pairs)[i].context == Some(context@),
        pairs[i].0 is None ==> entries_of(pairs)[i].context is None,
{
}

} // verus!
