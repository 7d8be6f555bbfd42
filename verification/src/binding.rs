//! Key bindings: from a text such as `ctrl-shift-/` to virtual-key codes, and
//! from those to key events.
use vstd::prelude::*;
use vstd::slice::slice_subrange;
use vstd::utf8::is_ascii_chars;

use crate::codes::{
    cursor_codes, cursor_keys, edit_codes, edit_keys, modifier_codes, modifier_keys,
    punctuation_codes, punctuation_keys,
};
use crate::text::{
    ascii_case, ascii_lower, chars_of, decimal, digits_value, find, find_chars, law_decimal,
    lemma_find, lower_char, lowercase, occurs_at, same_text, string_of, unicode_case,
};

verus! {

// ---------------------------------------------------------------------------
// one key
// ---------------------------------------------------------------------------

/// The code of the key that writes the small letter, digit or mark `c`.
pub open spec fn char_code(c: char) -> Option<u16> {
    if 'a' <= c <= 'z' {
        Some((c as u32 - 32) as u16)
    } else if '0' <= c <= '9' {
        Some(c as u16)
    } else {
        let keys = punctuation_codes();
        match c {
            '/' => Some(keys.slash),
            ';' => Some(keys.semicolon),
            '\'' => Some(keys.quote),
            '[' => Some(keys.open_bracket),
            ']' => Some(keys.close_bracket),
            '\\' => Some(keys.backslash),
            ',' => Some(keys.comma),
            '.' => Some(keys.period),
            '-' => Some(keys.minus),
            '=' => Some(keys.equals),
            '`' => Some(keys.backtick),
            _ => None,
        }
    }
}

fn char_to_vk(c: char) -> (vk: Option<u16>)
    ensures
        vk == char_code(c),
{
    if 'a' <= c && c <= 'z' {
        Some((c as u8 - 32) as u16)
    } else if '0' <= c && c <= '9' {
        Some(c as u8 as u16)
    } else {
        let keys = punctuation_keys();
        match c {
            '/' => Some(keys.slash),
            ';' => Some(keys.semicolon),
            '\'' => Some(keys.quote),
            '[' => Some(keys.open_bracket),
            ']' => Some(keys.close_bracket),
            '\\' => Some(keys.backslash),
            ',' => Some(keys.comma),
            '.' => Some(keys.period),
            '-' => Some(keys.minus),
            '=' => Some(keys.equals),
            '`' => Some(keys.backtick),
            _ => None,
        }
    }
}

/// Every character of `s` is a decimal digit.
pub open spec fn all_digits(s: Seq<char>) -> bool {
    forall|i: int| 0 <= i < s.len() ==> '0' <= #[trigger] s[i] <= '9'
}

/// The number that the digits of `s` write.
pub open spec fn value_of(s: Seq<char>) -> nat
    decreases s.len(),
{
    if s.len() == 0 {
        0
    } else {
        (value_of(s.drop_last()) * 10 + (s.last() as u32 - 48)) as nat
    }
}

/// `s` without the `+` in front of it, if there is one.
pub open spec fn without_plus(s: Seq<char>) -> Seq<char> {
    if s.len() > 0 && s[0] == '+' {
        s.skip(1)
    } else {
        s
    }
}

/// The 16-bit number that `s` writes: digits, with an optional `+` in front.
pub open spec fn number(s: Seq<char>) -> Option<u16> {
    let digits = without_plus(s);
    if digits.len() > 0 && all_digits(digits) && value_of(digits) <= u16::MAX {
        Some(value_of(digits) as u16)
    } else {
        None
    }
}

fn parse_number(s: &[char]) -> (n: Option<u16>)
    ensures
        n == number(s@),
{
    let digits = if s.len() > 0 && s[0] == '+' {
        slice_subrange(s, 1, s.len())
    } else {
        s
    };
    assert(digits@ == without_plus(s@));
    let mut value: u32 = 0;
    for i in 0..digits.len()
        invariant
            digits@ == without_plus(s@),
            all_digits(digits@.take(i as int)),
            value <= 0x10000,
            value < 0x10000 ==> value == value_of(digits@.take(i as int)),
            value == 0x10000 ==> value_of(digits@.take(i as int)) >= 0x10000,
    {
        let c = digits[i];
        let ghost head = digits@.take(i + 1);
        assert(head.drop_last() == digits@.take(i as int));
        if c < '0' || c > '9' {
            assert(!all_digits(digits@));
            return None;
        }
        assert forall|k: int| 0 <= k < head.len() implies '0' <= #[trigger] head[k] <= '9' by {
            if k < i {
                assert(head[k] == digits@.take(i as int)[k]);
            }
        }
        let next: u32 = value * 10 + (c as u32 - 48);
        value = if next < 0x10000 {
            next
        } else {
            0x10000
        };
    }
    assert(digits@.take(digits@.len() as int) == digits@);
    if digits.len() == 0 || value == 0x10000 {
        None
    } else {
        Some(value as u16)
    }
}

/// The code of the function key with this number: `f1` to `f15` are known.
pub open spec fn function_code(n: Option<u16>) -> Option<u16> {
    match n {
        Some(n) => if 1 <= n <= 15 {
            Some((112 + n - 1) as u16)
        } else {
            None
        },
        None => None,
    }
}

/// The code of the key with this lower-case name of more than one character.
pub open spec fn named_code(name: Seq<char>) -> Option<u16> {
    let edit = edit_codes();
    let cursor = cursor_codes();
    if name == "enter"@ || name == "return"@ {
        Some(edit.enter)
    } else if name == "escape"@ || name == "esc"@ {
        Some(edit.escape)
    } else if name == "tab"@ {
        Some(edit.tab)
    } else if name == "space"@ {
        Some(edit.space)
    } else if name == "backspace"@ {
        Some(edit.backspace)
    } else if name == "delete"@ || name == "del"@ {
        Some(edit.delete)
    } else if name == "insert"@ || name == "ins"@ {
        Some(edit.insert)
    } else if name == "home"@ {
        Some(cursor.home)
    } else if name == "end"@ {
        Some(cursor.end)
    } else if name == "pageup"@ || name == "pgup"@ {
        Some(cursor.page_up)
    } else if name == "pagedown"@ || name == "pgdn"@ {
        Some(cursor.page_down)
    } else if name == "up"@ {
        Some(cursor.up)
    } else if name == "down"@ {
        Some(cursor.down)
    } else if name == "left"@ {
        Some(cursor.left)
    } else if name == "right"@ {
        Some(cursor.right)
    } else if name.len() > 0 && name[0] == 'f' {
        function_code(number(name.skip(1)))
    } else {
        None
    }
}

fn is(name: &[char], literal: &str) -> (b: bool)
    ensures
        b == (name@ == literal@),
{
    let chars = chars_of(literal);
    same_text(name, &chars)
}

fn named_to_vk(name: &[char]) -> (vk: Option<u16>)
    ensures
        vk == named_code(name@),
{
    let edit = edit_keys();
    let cursor = cursor_keys();
    if is(name, "enter") || is(name, "return") {
        Some(edit.enter)
    } else if is(name, "escape") || is(name, "esc") {
        Some(edit.escape)
    } else if is(name, "tab") {
        Some(edit.tab)
    } else if is(name, "space") {
        Some(edit.space)
    } else if is(name, "backspace") {
        Some(edit.backspace)
    } else if is(name, "delete") || is(name, "del") {
        Some(edit.delete)
    } else if is(name, "insert") || is(name, "ins") {
        Some(edit.insert)
    } else if is(name, "home") {
        Some(cursor.home)
    } else if is(name, "end") {
        Some(cursor.end)
    } else if is(name, "pageup") || is(name, "pgup") {
        Some(cursor.page_up)
    } else if is(name, "pagedown") || is(name, "pgdn") {
        Some(cursor.page_down)
    } else if is(name, "up") {
        Some(cursor.up)
    } else if is(name, "down") {
        Some(cursor.down)
    } else if is(name, "left") {
        Some(cursor.left)
    } else if is(name, "right") {
        Some(cursor.right)
    } else if name.len() > 0 && name[0] == 'f' {
        let digits = slice_subrange(name, 1, name.len());
        assert(digits@ == name@.skip(1));
        match parse_number(digits) {
            Some(n) => if 1 <= n && n <= 15 {
                Some(112 + n - 1)
            } else {
                None
            },
            None => None,
        }
    } else {
        None
    }
}

/// The code of the key with this lower-case name.
pub open spec fn key_code(lower: Seq<char>) -> Option<u16> {
    if lower.len() == 1 {
        char_code(lower[0])
    } else {
        named_code(lower)
    }
}

/// The code of the key whose lower-case name is `lower`.
pub fn lower_key_to_vk(lower: &str) -> (vk: Option<u16>)
    ensures
        vk == key_code(lower@),
{
    let chars = chars_of(lower);
    if chars.len() == 1 {
        char_to_vk(chars[0])
    } else {
        named_to_vk(&chars)
    }
}

/// Maps a single key name (`/`, `enter`, `F5`) to its virtual-key code; the
/// case of the name does not matter.
pub fn key_to_vk(name: &str) -> (vk: Option<u16>)
    ensures
        vk == key_code(lowercase(name@)),
        is_ascii_chars(name@) ==> vk == key_code(ascii_lower(name@)),
{
    let lower = name.to_lowercase();
    lower_key_to_vk(lower.as_str())
}

// ---------------------------------------------------------------------------
// a binding
// ---------------------------------------------------------------------------

/// The code of the modifier key with this lower-case name.
pub open spec fn modifier_code(lower: Seq<char>) -> Option<u16> {
    let keys = modifier_codes();
    if lower == "ctrl"@ || lower == "control"@ {
        Some(keys.control)
    } else if lower == "shift"@ {
        Some(keys.shift)
    } else if lower == "alt"@ || lower == "option"@ {
        Some(keys.alt)
    } else if lower == "meta"@ || lower == "cmd"@ || lower == "super"@ {
        Some(keys.win)
    } else {
        None
    }
}

/// The code of the modifier key whose lower-case name is `lower`.
pub fn lower_modifier_to_vk(lower: &str) -> (vk: Option<u16>)
    ensures
        vk == modifier_code(lower@),
{
    let name = chars_of(lower);
    let keys = modifier_keys();
    if is(&name, "ctrl") || is(&name, "control") {
        Some(keys.control)
    } else if is(&name, "shift") {
        Some(keys.shift)
    } else if is(&name, "alt") || is(&name, "option") {
        Some(keys.alt)
    } else if is(&name, "meta") || is(&name, "cmd") || is(&name, "super") {
        Some(keys.win)
    } else {
        None
    }
}

/// The text in front of the first `-`, or all of `s`.
pub open spec fn first_part(s: Seq<char>) -> Seq<char> {
    match find(s, seq!['-'], 0) {
        Some(i) => s.take(i),
        None => s,
    }
}

/// The text behind the first `-`, if there is one.
pub open spec fn other_parts(s: Seq<char>) -> Option<Seq<char>> {
    match find(s, seq!['-'], 0) {
        Some(i) => Some(s.skip(i + 1)),
        None => None,
    }
}

/// `codes` with `front` before them.
pub open spec fn prepend(front: Seq<u16>, codes: Option<Seq<u16>>) -> Option<Seq<u16>> {
    match codes {
        Some(codes) => Some(front + codes),
        None => None,
    }
}

/// The codes of a binding: modifier names, each followed by `-`, then the name
/// of one key, which is all the rest of the text (so that the key may be `-`
/// itself). `case` is how names are brought to lower case.
pub open spec fn binding_codes(
    s: Seq<char>,
    case: spec_fn(Seq<char>) -> Seq<char>,
) -> Option<Seq<u16>>
    decreases s.len(),
{
    match modifier_code(case(first_part(s))) {
        Some(modifier) => match other_parts(s) {
            Some(rest) => if rest.len() < s.len() {
                prepend(seq![modifier], binding_codes(rest, case))
            } else {
                None
            },
            None => None,
        },
        None => if s.len() == 0 {
            None
        } else {
            match key_code(case(s)) {
                Some(key) => Some(seq![key]),
                None => None,
            }
        },
    }
}

/// The codes that a parse returned.
pub open spec fn codes_of(r: Option<Vec<u16>>) -> Option<Seq<u16>> {
    match r {
        Some(codes) => Some(codes@),
        None => None,
    }
}

/// Parses a key binding such as `ctrl-shift-/` into virtual-key codes.
/// Returns `None` if a part is not recognised.
pub fn parse_binding(s: &str) -> (codes: Option<Vec<u16>>)
    ensures
        codes_of(codes) == binding_codes(s@, unicode_case()),
        is_ascii_chars(s@) ==> codes_of(codes) == binding_codes(s@, ascii_case()),
{
    let chars = chars_of(s);
    let dash: [char; 1] = ['-'];
    let len: usize = chars.len();
    let mut keys: Vec<u16> = Vec::new();
    let mut from: usize = 0;
    assert(s@.skip(0) == s@);
    loop
        invariant
            chars@ == s@,
            dash@ == seq!['-'],
            from <= len == s@.len(),
            binding_codes(s@, unicode_case()) == prepend(
                keys@,
                binding_codes(s@.skip(from as int), unicode_case()),
            ),
            is_ascii_chars(s@) ==> binding_codes(s@, ascii_case()) == prepend(
                keys@,
                binding_codes(s@.skip(from as int), ascii_case()),
            ),
        decreases len - from,
    {
        let rest = slice_subrange(&chars, from, len);
        let ghost text = s@.skip(from as int);
        assert(rest@ == text);
        proof {
            lemma_find(text, seq!['-'], 0);
        }
        let end = find_chars(rest, &dash, 0);
        let part = match end {
            Some(i) => slice_subrange(rest, 0, i),
            None => rest,
        };
        assert(part@ == first_part(text));
        let part_lower = string_of(part).to_lowercase();
        match lower_modifier_to_vk(part_lower.as_str()) {
            Some(modifier) => {
                let ghost front = keys@;
                keys.push(modifier);
                match end {
                    Some(i) => {
                        assert(text.skip(i + 1) == s@.skip(from + i + 1));
                        from = from + i + 1;
                        proof {
                            lemma_prepend(
                                front,
                                modifier,
                                binding_codes(s@.skip(from as int), unicode_case()),
                            );
                            lemma_prepend(
                                front,
                                modifier,
                                binding_codes(s@.skip(from as int), ascii_case()),
                            );
                        }
                    },
                    None => {
                        return None;
                    },
                }
            },
            None => {
                if rest.len() == 0 {
                    return None;
                }
                let key = key_to_vk(string_of(rest).as_str());
                return match key {
                    Some(vk) => {
                        let ghost front = keys@;
                        keys.push(vk);
                        assert(keys@ == front + seq![vk]);
                        Some(keys)
                    },
                    None => None,
                };
            },
        }
    }
}

proof fn lemma_prepend(front: Seq<u16>, code: u16, codes: Option<Seq<u16>>)
    ensures
        prepend(front, prepend(seq![code], codes)) == prepend(front.push(code), codes),
{
    if let Some(c) = codes {
        assert(front + (seq![code] + c) == front.push(code) + c);
    }
}

/// The codes of `binding`, of `fallback` if that is no binding, or none.
pub open spec fn codes_or(
    binding: Seq<char>,
    fallback: Seq<char>,
    case: spec_fn(Seq<char>) -> Seq<char>,
) -> Seq<u16> {
    match binding_codes(binding, case) {
        Some(codes) => codes,
        None => match binding_codes(fallback, case) {
            Some(codes) => codes,
            None => Seq::empty(),
        },
    }
}

/// Parses `binding`, or `fallback` where `binding` is not a valid binding.
pub fn binding_to_vk(binding: &str, fallback: &str) -> (codes: Vec<u16>)
    ensures
        codes@ == codes_or(binding@, fallback@, unicode_case()),
        is_ascii_chars(binding@) && is_ascii_chars(fallback@) ==> codes@ == codes_or(
            binding@,
            fallback@,
            ascii_case(),
        ),
        binding_codes(binding@, unicode_case()) is None && is_ascii_chars(fallback@)
            ==> codes@ == codes_or(fallback@, fallback@, ascii_case()),
{
    match parse_binding(binding) {
        Some(codes) => codes,
        None => match parse_binding(fallback) {
            Some(codes) => codes,
            None => Vec::new(),
        },
    }
}

// ---------------------------------------------------------------------------
// key events
// ---------------------------------------------------------------------------

/// A key goes down or up.
#[derive(Clone, Copy, Debug, PartialEq, Eq, Structural)]
pub struct KeyEvent {
    /// The key's code.
    pub vk: u16,
    /// The key is released; else it is pressed.
    pub up: bool,
}

/// The same event for each key in turn.
pub open spec fn key_events(vks: Seq<u16>, up: bool) -> Seq<KeyEvent> {
    Seq::new(vks.len(), |i: int| KeyEvent { vk: vks[i], up })
}

/// Each key is pressed in order, then released in reverse order.
pub open spec fn combo_events(vks: Seq<u16>) -> Seq<KeyEvent> {
    key_events(vks, false) + key_events(vks.reverse(), true)
}

/// The events that press each key in order, then release them in reverse.
pub fn send_combo(vks: &Vec<u16>) -> (events: Vec<KeyEvent>)
    ensures
        events@ == combo_events(vks@),
{
    let mut events: Vec<KeyEvent> = Vec::new();
    let len: usize = vks.len();
    for i in 0..len
        invariant
            len == vks@.len(),
            events@ == key_events(vks@.take(i as int), false),
    {
        events.push(KeyEvent { vk: vks[i], up: false });
        assert(events@ == key_events(vks@.take(i + 1), false));
    }
    assert(vks@.take(len as int) == vks@);
    for i in 0..len
        invariant
            len == vks@.len(),
            events@ == key_events(vks@, false) + key_events(vks@.reverse().take(i as int), true),
    {
        events.push(KeyEvent { vk: vks[len - 1 - i], up: true });
        assert(events@ == key_events(vks@, false) + key_events(
            vks@.reverse().take(i + 1),
            true,
        ));
    }
    assert(vks@.reverse().take(len as int) == vks@.reverse());
    events
}

// ---------------------------------------------------------------------------
// laws
// ---------------------------------------------------------------------------

/// No key stays down: of `n` keys the one pressed as number `i` is released as
/// number `2n - 1 - i`, and all presses come before all releases.
pub proof fn law_combo_releases_in_reverse(vks: Seq<u16>, i: int)
    requires
        0 <= i < vks.len(),
    ensures
        combo_events(vks).len() == 2 * vks.len(),
        combo_events(vks)[i] == (KeyEvent { vk: vks[i], up: false }),
        combo_events(vks)[2 * vks.len() - 1 - i] == (KeyEvent { vk: vks[i], up: true }),
{
}

/// The code of a modifier key.
pub open spec fn is_modifier(code: u16) -> bool {
    let keys = modifier_codes();
    code == keys.control || code == keys.shift || code == keys.alt || code == keys.win
}

/// A binding that can be parsed gives modifiers, then one key that is none.
pub proof fn law_binding_is_modifiers_and_key(
    s: Seq<char>,
    case: spec_fn(Seq<char>) -> Seq<char>,
)
    ensures
        binding_codes(s, case) matches Some(codes) ==> {
            &&& codes.len() > 0
            &&& forall|i: int| 0 <= i < codes.len() - 1 ==> is_modifier(#[trigger] codes[i])
            &&& !is_modifier(codes.last())
        },
    decreases s.len(),
{
    if let Some(codes) = binding_codes(s, case) {
        if modifier_code(case(first_part(s))) is Some {
            let rest = other_parts(s)->0;
            law_binding_is_modifiers_and_key(rest, case);
            let tail = binding_codes(rest, case)->0;
            assert(codes.last() == tail.last());
            assert forall|i: int| 0 <= i < codes.len() - 1 implies is_modifier(
                #[trigger] codes[i],
            ) by {
                if i > 0 {
                    assert(codes[i] == tail[i - 1]);
                }
            }
        }
    }
}

proof fn lemma_lower_char(c: char)
    ensures
        lower_char(c) == '-' <==> c == '-',
{
}

proof fn lemma_find_dash(s: Seq<char>, from: int)
    requires
        0 <= from,
    ensures
        find(ascii_lower(s), seq!['-'], from) == find(s, seq!['-'], from),
    decreases s.len() + 1 - from,
{
    let t = ascii_lower(s);
    let dash = seq!['-'];
    if from <= s.len() - 1 {
        lemma_lower_char(s[from]);
        assert(s.subrange(from, from + 1)[0] == s[from]);
        assert(t.subrange(from, from + 1)[0] == lower_char(s[from]));
        assert(s[from] == '-' ==> s.subrange(from, from + 1) == dash);
        assert(t[from] == '-' ==> t.subrange(from, from + 1) == dash);
        assert(occurs_at(t, dash, from) <==> occurs_at(s, dash, from));
        if !occurs_at(s, dash, from) {
            lemma_find_dash(s, from + 1);
        }
    }
}

proof fn lemma_lower_twice(s: Seq<char>)
    ensures
        ascii_lower(ascii_lower(s)) == ascii_lower(s),
{
    assert forall|i: int| 0 <= i < s.len() implies lower_char(lower_char(s[i])) == #[trigger]
    lower_char(s[i]) by {
        lemma_lower_char_twice(s[i]);
    }
    assert(ascii_lower(ascii_lower(s)) == ascii_lower(s));
}

proof fn lemma_lower_char_twice(c: char)
    ensures
        lower_char(lower_char(c)) == lower_char(c),
{
}

proof fn lemma_binding_lower(s: Seq<char>)
    ensures
        binding_codes(s, ascii_case()) == binding_codes(ascii_lower(s), ascii_case()),
    decreases s.len(),
{
    let t = ascii_lower(s);
    let case = ascii_case();
    lemma_find_dash(s, 0);
    lemma_find(s, seq!['-'], 0);
    lemma_lower_twice(s);
    match find(s, seq!['-'], 0) {
        Some(i) => {
            assert(first_part(t) == ascii_lower(first_part(s)));
            assert(other_parts(t)->0 == ascii_lower(other_parts(s)->0));
            lemma_lower_twice(first_part(s));
            lemma_binding_lower(s.skip(i + 1));
        },
        None => {},
    }
}

/// The case of ASCII letters does not matter in a binding.
pub proof fn law_binding_ignores_case(a: Seq<char>, b: Seq<char>)
    requires
        ascii_lower(a) == ascii_lower(b),
    ensures
        binding_codes(a, ascii_case()) == binding_codes(b, ascii_case()),
{
    lemma_binding_lower(a);
    lemma_binding_lower(b);
}

/// A modifier's name and `-` in front of a binding put the modifier's code in
/// front of its codes.
pub proof fn law_modifier_in_front(
    name: Seq<char>,
    code: u16,
    binding: Seq<char>,
    case: spec_fn(Seq<char>) -> Seq<char>,
)
    requires
        modifier_code(case(name)) == Some(code),
        forall|i: int| 0 <= i < name.len() ==> #[trigger] name[i] != '-',
    ensures
        binding_codes(name + seq!['-'] + binding, case) == prepend(
            seq![code],
            binding_codes(binding, case),
        ),
{
    let s = name + seq!['-'] + binding;
    let n = name.len() as int;
    lemma_find(s, seq!['-'], 0);
    assert(s.subrange(n, n + 1) == seq!['-']);
    assert(occurs_at(s, seq!['-'], n));
    assert forall|j: int| 0 <= j < n implies !occurs_at(s, seq!['-'], j) by {
        assert(s.subrange(j, j + 1)[0] == name[j]);
    }
    assert(find(s, seq!['-'], 0) == Some(n));
    assert(s.take(n) == name);
    assert(s.skip(n + 1) == binding);
}

/// A text without `-` that names no modifier is the name of the key.
proof fn lemma_key_alone(key: Seq<char>, case: spec_fn(Seq<char>) -> Seq<char>)
    requires
        key.len() > 0,
        forall|i: int| 0 <= i < key.len() ==> #[trigger] key[i] != '-',
        modifier_code(case(key)) is None,
        key_code(case(key)) is Some,
    ensures
        binding_codes(key, case) == Some(seq![key_code(case(key))->0]),
{
    lemma_find(key, seq!['-'], 0);
    if let Some(i) = find(key, seq!['-'], 0) {
        assert(key.subrange(i, i + 1)[0] == key[i]);
    }
}

/// The codes of Zed's default binding of `agent::ToggleFocus`.
pub(crate) proof fn lemma_default_toggle()
    ensures
        binding_codes("ctrl-shift-/"@, ascii_case()) == Some(
            seq![modifier_codes().control, modifier_codes().shift, punctuation_codes().slash],
        ),
{
    reveal_strlit("ctrl-shift-/");
    reveal_strlit("shift-/");
    reveal_strlit("ctrl");
    reveal_strlit("shift");
    reveal_strlit("/");
    lemma_names_are_lower();
    assert(ascii_lower("/"@) == "/"@);
    lemma_not_modifier("/"@);
    lemma_key_alone("/"@, ascii_case());
    law_modifier_in_front("shift"@, modifier_codes().shift, "/"@, ascii_case());
    assert("shift"@ + seq!['-'] + "/"@ == "shift-/"@);
    law_modifier_in_front("ctrl"@, modifier_codes().control, "shift-/"@, ascii_case());
    assert("ctrl"@ + seq!['-'] + "shift-/"@ == "ctrl-shift-/"@);
    assert(seq![modifier_codes().control] + (seq![modifier_codes().shift] + seq![
        punctuation_codes().slash,
    ]) == seq![modifier_codes().control, modifier_codes().shift, punctuation_codes().slash]);
}

/// The codes of the paste keys that work in the Normal mode of each mode.
pub(crate) proof fn lemma_default_paste()
    ensures
        binding_codes("ctrl-v"@, ascii_case()) == Some(seq![modifier_codes().control, 0x56]),
        binding_codes("shift-insert"@, ascii_case()) == Some(
            seq![modifier_codes().shift, edit_codes().insert],
        ),
        binding_codes("shift-r"@, ascii_case()) == Some(seq![modifier_codes().shift, 0x52]),
{
    reveal_strlit("ctrl-v");
    reveal_strlit("shift-insert");
    reveal_strlit("shift-r");
    reveal_strlit("ctrl");
    reveal_strlit("shift");
    reveal_strlit("v");
    reveal_strlit("r");
    reveal_strlit("insert");
    lemma_names_are_lower();
    assert(ascii_lower("v"@) == "v"@);
    assert(ascii_lower("r"@) == "r"@);
    assert(ascii_lower("insert"@) == "insert"@);
    lemma_not_modifier("v"@);
    lemma_not_modifier("r"@);
    lemma_not_modifier("insert"@);
    lemma_insert_is_named();
    lemma_key_alone("v"@, ascii_case());
    lemma_key_alone("r"@, ascii_case());
    lemma_key_alone("insert"@, ascii_case());
    law_modifier_in_front("ctrl"@, modifier_codes().control, "v"@, ascii_case());
    law_modifier_in_front("shift"@, modifier_codes().shift, "insert"@, ascii_case());
    law_modifier_in_front("shift"@, modifier_codes().shift, "r"@, ascii_case());
    assert("ctrl"@ + seq!['-'] + "v"@ == "ctrl-v"@);
    assert("shift"@ + seq!['-'] + "insert"@ == "shift-insert"@);
    assert("shift"@ + seq!['-'] + "r"@ == "shift-r"@);
    assert(seq![modifier_codes().control] + seq![0x56u16] == seq![modifier_codes().control, 0x56]);
    assert(seq![modifier_codes().shift] + seq![edit_codes().insert] == seq![
        modifier_codes().shift,
        edit_codes().insert,
    ]);
    assert(seq![modifier_codes().shift] + seq![0x52u16] == seq![modifier_codes().shift, 0x52]);
}

proof fn lemma_names_are_lower()
    ensures
        ascii_lower("ctrl"@) == "ctrl"@,
        ascii_lower("shift"@) == "shift"@,
        modifier_code("ctrl"@) == Some(modifier_codes().control),
        modifier_code("shift"@) == Some(modifier_codes().shift),
{
    reveal_strlit("ctrl");
    reveal_strlit("control");
    reveal_strlit("shift");
    assert("shift"@[0] != "ctrl"@[0]);
    assert("shift"@[0] != "control"@[0]);
}

/// No modifier's name has the length of this text, or it begins otherwise.
proof fn lemma_not_modifier(name: Seq<char>)
    requires
        name.len() == 1 || name == "insert"@,
    ensures
        modifier_code(name) is None,
{
    reveal_strlit("insert");
    reveal_strlit("ctrl");
    reveal_strlit("control");
    reveal_strlit("shift");
    reveal_strlit("alt");
    reveal_strlit("option");
    reveal_strlit("meta");
    reveal_strlit("cmd");
    reveal_strlit("super");
    assert("insert"@[0] == 'i' && "option"@[0] == 'o');
}

proof fn lemma_insert_is_named()
    ensures
        key_code("insert"@) == Some(edit_codes().insert),
{
    reveal_strlit("insert");
    reveal_strlit("enter");
    reveal_strlit("return");
    reveal_strlit("escape");
    reveal_strlit("esc");
    reveal_strlit("tab");
    reveal_strlit("space");
    reveal_strlit("backspace");
    reveal_strlit("delete");
    reveal_strlit("del");
    let name = "insert"@;
    assert(name[0] == 'i');
    assert("return"@[0] == 'r');
    assert("escape"@[0] == 'e');
    assert("delete"@[0] == 'd');
}

proof fn lemma_named_code(name: Seq<char>)
    ensures
        named_code(name) matches Some(code) ==> code < 48 || 112 <= code <= 126,
{
}

/// The codes tell the keys apart: no two characters have the same key, no two
/// function keys have, and no key with a name is that of a character.
pub proof fn law_codes_tell_keys_apart(a: char, b: char, m: u16, n: u16, name: Seq<char>)
    ensures
        char_code(a) is Some && char_code(a) == char_code(b) ==> a == b,
        function_code(Some(m)) is Some && function_code(Some(m)) == function_code(Some(n)) ==> m
            == n,
        named_code(name) is Some ==> named_code(name) != char_code(a),
{
    lemma_named_code(name);
}

/// The keys of the letters and digits have the codes of their characters, letters
/// in capitals; the marks have codes of their own, and no other character has a
/// key.
pub proof fn law_character_keys(c: char)
    ensures
        'a' <= c <= 'z' ==> key_code(seq![c]) == Some((c as u32 - 32) as u16),
        '0' <= c <= '9' ==> key_code(seq![c]) == Some(c as u16),
        key_code(seq!['/']) == Some(0xBFu16),
        key_code(seq![';']) == Some(0xBAu16),
        key_code(seq!['\'']) == Some(0xDEu16),
        key_code(seq!['[']) == Some(0xDBu16),
        key_code(seq![']']) == Some(0xDDu16),
        key_code(seq!['\\']) == Some(0xDCu16),
        key_code(seq![',']) == Some(0xBCu16),
        key_code(seq!['.']) == Some(0xBEu16),
        key_code(seq!['-']) == Some(0xBDu16),
        key_code(seq!['=']) == Some(0xBBu16),
        key_code(seq!['`']) == Some(0xC0u16),
        !('a' <= c <= 'z') && !('0' <= c <= '9') && !seq![
            '/',
            ';',
            '\'',
            '[',
            ']',
            '\\',
            ',',
            '.',
            '-',
            '=',
            '`',
        ].contains(c) ==> key_code(seq![c]) is None,
{
    let marks = seq!['/', ';', '\'', '[', ']', '\\', ',', '.', '-', '=', '`'];
    assert(marks[0] == '/');
    assert(marks[1] == ';');
    assert(marks[2] == '\'');
    assert(marks[3] == '[');
    assert(marks[4] == ']');
    assert(marks[5] == '\\');
    assert(marks[6] == ',');
    assert(marks[7] == '.');
    assert(marks[8] == '-');
    assert(marks[9] == '=');
    assert(marks[10] == '`');
}

/// The names of the keys that write no character, and their codes.
pub proof fn law_named_keys()
    ensures
        key_code("enter"@) == Some(0x0Du16),
        key_code("return"@) == Some(0x0Du16),
        key_code("escape"@) == Some(0x1Bu16),
        key_code("esc"@) == Some(0x1Bu16),
        key_code("tab"@) == Some(0x09u16),
        key_code("space"@) == Some(0x20u16),
        key_code("backspace"@) == Some(0x08u16),
        key_code("delete"@) == Some(0x2Eu16),
        key_code("del"@) == Some(0x2Eu16),
        key_code("insert"@) == Some(0x2Du16),
        key_code("ins"@) == Some(0x2Du16),
        key_code("home"@) == Some(0x24u16),
        key_code("end"@) == Some(0x23u16),
        key_code("pageup"@) == Some(0x21u16),
        key_code("pgup"@) == Some(0x21u16),
        key_code("pagedown"@) == Some(0x22u16),
        key_code("pgdn"@) == Some(0x22u16),
        key_code("up"@) == Some(0x26u16),
        key_code("down"@) == Some(0x28u16),
        key_code("left"@) == Some(0x25u16),
        key_code("right"@) == Some(0x27u16),
{
    reveal_strlit("enter");
    reveal_strlit("return");
    reveal_strlit("escape");
    reveal_strlit("esc");
    reveal_strlit("tab");
    reveal_strlit("space");
    reveal_strlit("backspace");
    reveal_strlit("delete");
    reveal_strlit("del");
    reveal_strlit("insert");
    reveal_strlit("ins");
    reveal_strlit("home");
    reveal_strlit("end");
    reveal_strlit("pageup");
    reveal_strlit("pgup");
    reveal_strlit("pagedown");
    reveal_strlit("pgdn");
    reveal_strlit("up");
    reveal_strlit("down");
    reveal_strlit("left");
    reveal_strlit("right");
    assert("escape"@[0] != "return"@[0]);
    assert("tab"@[0] != "esc"@[0]);
    assert("space"@[0] != "enter"@[0]);
    assert("delete"@[0] != "return"@[0]);
    assert("delete"@[0] != "escape"@[0]);
    assert("del"@[0] != "esc"@[0]);
    assert("del"@[0] != "tab"@[0]);
    assert("insert"@[0] != "return"@[0]);
    assert("insert"@[0] != "escape"@[0]);
    assert("insert"@[0] != "delete"@[0]);
    assert("ins"@[0] != "esc"@[0]);
    assert("ins"@[0] != "tab"@[0]);
    assert("ins"@[0] != "del"@[0]);
    assert("end"@[1] != "esc"@[1]);
    assert("end"@[0] != "tab"@[0]);
    assert("end"@[0] != "del"@[0]);
    assert("end"@[0] != "ins"@[0]);
    assert("pageup"@[0] != "return"@[0]);
    assert("pageup"@[0] != "escape"@[0]);
    assert("pageup"@[0] != "delete"@[0]);
    assert("pageup"@[0] != "insert"@[0]);
    assert("pgup"@[0] != "home"@[0]);
    assert("pgdn"@[0] != "home"@[0]);
    assert("pgdn"@[2] != "pgup"@[2]);
    assert("down"@[0] != "home"@[0]);
    assert("down"@[0] != "pgup"@[0]);
    assert("down"@[0] != "pgdn"@[0]);
    assert("left"@[0] != "home"@[0]);
    assert("left"@[0] != "pgup"@[0]);
    assert("left"@[0] != "pgdn"@[0]);
    assert("left"@[0] != "down"@[0]);
    assert("right"@[0] != "enter"@[0]);
    assert("right"@[0] != "space"@[0]);
}

/// No key but that of its name has a name's code.
pub proof fn law_no_other_names(name: Seq<char>)
    requires
        name.len() != 1,
    ensures
        key_code(name) == Some(0x0Du16) ==> name == "enter"@ || name == "return"@,
        key_code(name) == Some(0x1Bu16) ==> name == "escape"@ || name == "esc"@,
        key_code(name) == Some(0x09u16) ==> name == "tab"@,
        key_code(name) == Some(0x20u16) ==> name == "space"@,
        key_code(name) == Some(0x08u16) ==> name == "backspace"@,
        key_code(name) == Some(0x2Eu16) ==> name == "delete"@ || name == "del"@,
        key_code(name) == Some(0x2Du16) ==> name == "insert"@ || name == "ins"@,
        key_code(name) == Some(0x24u16) ==> name == "home"@,
        key_code(name) == Some(0x23u16) ==> name == "end"@,
        key_code(name) == Some(0x21u16) ==> name == "pageup"@ || name == "pgup"@,
        key_code(name) == Some(0x22u16) ==> name == "pagedown"@ || name == "pgdn"@,
        key_code(name) == Some(0x26u16) ==> name == "up"@,
        key_code(name) == Some(0x28u16) ==> name == "down"@,
        key_code(name) == Some(0x25u16) ==> name == "left"@,
        key_code(name) == Some(0x27u16) ==> name == "right"@,
        key_code(name) matches Some(code) ==> code < 0x30 || (112 <= code <= 126 && name.len() > 0
            && name[0] == 'f'),
{
}

/// The function keys are `f` and their number: `f1` to `f15` have codes one after
/// the other, and there is no other.
pub proof fn law_function_keys(n: nat)
    ensures
        key_code(seq!['f'] + decimal(n)) == if 1 <= n <= 15 {
            Some((111 + n) as u16)
        } else {
            None
        },
{
    let digits = decimal(n);
    let name = seq!['f'] + digits;
    law_decimal(n);
    lemma_digits_value(digits);
    lemma_no_name_begins_with_f(name);
    assert(name.skip(1) == digits);
    assert(digits[0] != '+');
    assert(without_plus(digits) == digits);
    assert(all_digits(digits));
    assert(value_of(digits) == n);
}

proof fn lemma_digits_value(digits: Seq<char>)
    requires
        all_digits(digits),
    ensures
        value_of(digits) == digits_value(digits),
        digits_value(digits) >= 0,
    decreases digits.len(),
{
    if digits.len() > 0 {
        let head = digits.drop_last();
        assert forall|i: int| 0 <= i < head.len() implies '0' <= #[trigger] head[i] <= '9' by {
            assert(head[i] == digits[i]);
        }
        assert(digits.last() == digits[digits.len() - 1]);
        lemma_digits_value(head);
    }
}

proof fn lemma_no_name_begins_with_f(name: Seq<char>)
    requires
        name.len() > 1,
        name[0] == 'f',
    ensures
        key_code(name) == function_code(number(name.skip(1))),
{
    reveal_strlit("enter");
    reveal_strlit("return");
    reveal_strlit("escape");
    reveal_strlit("esc");
    reveal_strlit("tab");
    reveal_strlit("space");
    reveal_strlit("backspace");
    reveal_strlit("delete");
    reveal_strlit("del");
    reveal_strlit("insert");
    reveal_strlit("ins");
    reveal_strlit("home");
    reveal_strlit("end");
    reveal_strlit("pageup");
    reveal_strlit("pgup");
    reveal_strlit("pagedown");
    reveal_strlit("pgdn");
    reveal_strlit("up");
    reveal_strlit("down");
    reveal_strlit("left");
    reveal_strlit("right");
    assert("enter"@[0] != 'f');
    assert("return"@[0] != 'f');
    assert("escape"@[0] != 'f');
    assert("esc"@[0] != 'f');
    assert("tab"@[0] != 'f');
    assert("space"@[0] != 'f');
    assert("backspace"@[0] != 'f');
    assert("delete"@[0] != 'f');
    assert("del"@[0] != 'f');
    assert("insert"@[0] != 'f');
    assert("ins"@[0] != 'f');
    assert("home"@[0] != 'f');
    assert("end"@[0] != 'f');
    assert("pageup"@[0] != 'f');
    assert("pgup"@[0] != 'f');
    assert("pagedown"@[0] != 'f');
    assert("pgdn"@[0] != 'f');
    assert("up"@[0] != 'f');
    assert("down"@[0] != 'f');
    assert("left"@[0] != 'f');
    assert("right"@[0] != 'f');
}

/// A number is digits with an optional plus in front, and fits in 16 bits; no
/// other text is one.
pub proof fn law_number(n: nat, s: Seq<char>)
    ensures
        number(decimal(n)) == if n <= 0xFFFF {
            Some(n as u16)
        } else {
            None
        },
        number(seq!['+'] + decimal(n)) == number(decimal(n)),
        number(s) is Some ==> s.len() > 0 && forall|i: int|
            0 < i < s.len() ==> '0' <= #[trigger] s[i] <= '9',
        number(s) is Some && s[0] != '+' ==> '0' <= s[0] <= '9',
        number(seq!['+']) is None,
{
    let digits = decimal(n);
    law_decimal(n);
    lemma_digits_value(digits);
    assert(digits[0] != '+');
    assert(without_plus(digits) == digits);
    assert(all_digits(digits));
    assert((seq!['+'] + digits).skip(1) == digits);
    assert(seq!['+'].skip(1) == Seq::<char>::empty());
    if number(s) is Some {
        let d = without_plus(s);
        assert forall|i: int| 0 < i < s.len() implies '0' <= #[trigger] s[i] <= '9' by {
            if s[0] == '+' {
                assert(d[i - 1] == s[i]);
            } else {
                assert(d[i] == s[i]);
            }
        }
        if s[0] != '+' {
            assert(d[0] == s[0]);
        }
    }
}

/// The names of the modifier keys, and their codes.
pub proof fn law_modifier_names()
    ensures
        modifier_code("ctrl"@) == Some(0xA2u16),
        modifier_code("control"@) == Some(0xA2u16),
        modifier_code("shift"@) == Some(0xA0u16),
        modifier_code("alt"@) == Some(0xA4u16),
        modifier_code("option"@) == Some(0xA4u16),
        modifier_code("meta"@) == Some(0x5Bu16),
        modifier_code("cmd"@) == Some(0x5Bu16),
        modifier_code("super"@) == Some(0x5Bu16),
{
    reveal_strlit("ctrl");
    reveal_strlit("control");
    reveal_strlit("shift");
    reveal_strlit("alt");
    reveal_strlit("option");
    reveal_strlit("meta");
    reveal_strlit("cmd");
    reveal_strlit("super");
    assert("meta"@[0] != "ctrl"@[0]);
    assert("cmd"@[0] != "alt"@[0]);
    assert("super"@[1] != "shift"@[1]);
    assert("option"@.len() == 6 && "cmd"@.len() == 3 && "shift"@.len() == 5);
    assert("ctrl"@.len() == 4 && "control"@.len() == 7);
    assert("option"@ != "ctrl"@ && "option"@ != "control"@ && "option"@ != "shift"@);
    assert("cmd"@ != "ctrl"@ && "cmd"@ != "control"@ && "cmd"@ != "shift"@);
    assert("cmd"@ != "alt"@ && "cmd"@ != "option"@);
}

/// Nothing else is a modifier.
pub proof fn law_no_other_modifiers(name: Seq<char>)
    ensures
        modifier_code(name) == Some(0xA2u16) ==> name == "ctrl"@ || name == "control"@,
        modifier_code(name) == Some(0xA0u16) ==> name == "shift"@,
        modifier_code(name) == Some(0xA4u16) ==> name == "alt"@ || name == "option"@,
        modifier_code(name) == Some(0x5Bu16) ==> name == "meta"@ || name == "cmd"@ || name
            == "super"@,
        modifier_code(name) matches Some(code) ==> code == 0xA2 || code == 0xA0 || code == 0xA4
            || code == 0x5B,
{
}

/// A text whose first part is no modifier is the name of the key, all of it; it is
/// no binding if there is no such key. Nothing is no binding, and neither is a
/// modifier alone.
pub proof fn law_rest_is_the_key(s: Seq<char>, case: spec_fn(Seq<char>) -> Seq<char>)
    ensures
        (forall|i: int| 0 <= i < s.len() ==> #[trigger] s[i] != '-') && s.len() > 0
            && modifier_code(case(s)) is None ==> binding_codes(s, case) == (match key_code(
            case(s),
        ) {
            Some(key) => Some(seq![key]),
            None => None,
        }),
        (forall|i: int| 0 <= i < s.len() ==> #[trigger] s[i] != '-') && modifier_code(
            case(s),
        ) is Some ==> binding_codes(s, case) is None,
        modifier_code(case(Seq::empty())) is None ==> binding_codes(Seq::empty(), case) is None,
        modifier_code(case(Seq::empty())) is None ==> binding_codes(seq!['-'] + s, case) == (
        match key_code(case(seq!['-'] + s)) {
            Some(key) => Some(seq![key]),
            None => None,
        }),
{
    lemma_find(s, seq!['-'], 0);
    if forall|i: int| 0 <= i < s.len() ==> #[trigger] s[i] != '-' {
        if let Some(i) = find(s, seq!['-'], 0) {
            assert(s.subrange(i, i + 1)[0] == s[i]);
        }
    }
    let t = seq!['-'] + s;
    assert(t.subrange(0, 1) == seq!['-']);
    assert(occurs_at(t, seq!['-'], 0));
    assert(t.take(0) == Seq::<char>::empty());
    assert(find(Seq::<char>::empty(), seq!['-'], 0) is None);
}

/// A name in front of a dash that is no modifier is part of the key's name.
pub proof fn law_dash_in_a_name(
    name: Seq<char>,
    rest: Seq<char>,
    case: spec_fn(Seq<char>) -> Seq<char>,
)
    requires
        modifier_code(case(name)) is None,
        forall|i: int| 0 <= i < name.len() ==> #[trigger] name[i] != '-',
    ensures
        binding_codes(name + seq!['-'] + rest, case) == (match key_code(
            case(name + seq!['-'] + rest),
        ) {
            Some(key) => Some(seq![key]),
            None => None,
        }),
{
    let s = name + seq!['-'] + rest;
    let n = name.len() as int;
    lemma_find(s, seq!['-'], 0);
    assert(s.subrange(n, n + 1) == seq!['-']);
    assert(occurs_at(s, seq!['-'], n));
    assert forall|j: int| 0 <= j < n implies !occurs_at(s, seq!['-'], j) by {
        assert(s.subrange(j, j + 1)[0] == name[j]);
    }
    assert(find(s, seq!['-'], 0) == Some(n));
    assert(s.take(n) == name);
}

/// A binding that can be parsed is used; else the one to fall back on is.
pub proof fn law_fallback(
    binding: Seq<char>,
    fallback: Seq<char>,
    case: spec_fn(Seq<char>) -> Seq<char>,
)
    ensures
        binding_codes(binding, case) matches Some(codes) ==> codes_or(binding, fallback, case)
            == codes,
        binding_codes(binding, case) is None ==> (binding_codes(fallback, case) matches Some(codes)
            ==> codes_or(binding, fallback, case) == codes),
        binding_codes(binding, case) is None && binding_codes(fallback, case) is None ==> codes_or(
            binding,
            fallback,
            case,
        ) == Seq::<u16>::empty(),
{
}

/// Nothing else names a key, but for the function keys.
pub proof fn law_unknown_names(name: Seq<char>)
    requires
        name.len() != 1,
        name.len() > 0 ==> name[0] != 'f',
        !seq![
            "enter"@,
            "return"@,
            "escape"@,
            "esc"@,
            "tab"@,
            "space"@,
            "backspace"@,
            "delete"@,
            "del"@,
            "insert"@,
            "ins"@,
            "home"@,
            "end"@,
            "pageup"@,
            "pgup"@,
            "pagedown"@,
            "pgdn"@,
            "up"@,
            "down"@,
            "left"@,
            "right"@,
        ].contains(name),
    ensures
        key_code(name) is None,
{
    let known = seq![
        "enter"@,
        "return"@,
        "escape"@,
        "esc"@,
        "tab"@,
        "space"@,
        "backspace"@,
        "delete"@,
        "del"@,
        "insert"@,
        "ins"@,
        "home"@,
        "end"@,
        "pageup"@,
        "pgup"@,
        "pagedown"@,
        "pgdn"@,
        "up"@,
        "down"@,
        "left"@,
        "right"@,
    ];
    assert(known[0] == "enter"@);
    assert(known[1] == "return"@);
    assert(known[2] == "escape"@);
    assert(known[3] == "esc"@);
    assert(known[4] == "tab"@);
    assert(known[5] == "space"@);
    assert(known[6] == "backspace"@);
    assert(known[7] == "delete"@);
    assert(known[8] == "del"@);
    assert(known[9] == "insert"@);
    assert(known[10] == "ins"@);
    assert(known[11] == "home"@);
    assert(known[12] == "end"@);
    assert(known[13] == "pageup"@);
    assert(known[14] == "pgup"@);
    assert(known[15] == "pagedown"@);
    assert(known[16] == "pgdn"@);
    assert(known[17] == "up"@);
    assert(known[18] == "down"@);
    assert(known[19] == "left"@);
    assert(known[20] == "right"@);
}

/// A name of more than one character that begins with `f` is that of a function
/// key exactly if a number from 1 to 15 follows.
pub proof fn law_function_names(s: Seq<char>)
    requires
        s.len() > 0,
    ensures
        number(s) matches Some(n) && 1 <= n <= 15 ==> key_code(seq!['f'] + s) == Some(
            (111 + number(s)->0) as u16,
        ),
        !(number(s) matches Some(n) && 1 <= n <= 15) ==> key_code(seq!['f'] + s) is None,
{
    let name = seq!['f'] + s;
    lemma_no_name_begins_with_f(name);
    assert(name.skip(1) == s);
}

/// Digits are the number that they stand for, zeros in front or not, as long as it
/// fits in 16 bits; a plus in front changes nothing.
pub proof fn law_digits_are_a_number(digits: Seq<char>)
    requires
        digits.len() > 0,
        forall|i: int| 0 <= i < digits.len() ==> '0' <= #[trigger] digits[i] <= '9',
    ensures
        number(digits) == if digits_value(digits) <= 0xFFFF {
            Some(digits_value(digits) as u16)
        } else {
            None
        },
        number(seq!['+'] + digits) == number(digits),
        number(Seq::empty()) is None,
{
    lemma_digits_value(digits);
    assert(digits[0] != '+');
    assert(without_plus(digits) == digits);
    assert(all_digits(digits));
    assert((seq!['+'] + digits).skip(1) == digits);
}

} // verus!
