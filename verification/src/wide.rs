//! UTF-16 text, as the Windows API takes and gives it.
use vstd::prelude::*;
use vstd::slice::slice_subrange;

use crate::text::chars_of;

verus! {

/// The code units of one character.
pub open spec fn units_of(c: char) -> Seq<u16> {
    if (c as u32) < 0x10000 {
        seq![c as u16]
    } else {
        let n = c as u32 - 0x10000;
        seq![(0xD800 + n / 0x400) as u16, (0xDC00 + n % 0x400) as u16]
    }
}

/// The code units of a text.
pub open spec fn encode(s: Seq<char>) -> Seq<u16>
    decreases s.len(),
{
    if s.len() == 0 {
        Seq::empty()
    } else {
        units_of(s[0]) + encode(s.skip(1))
    }
}

/// Half of a surrogate pair that comes first.
pub open spec fn is_high(u: u16) -> bool {
    0xD800 <= u < 0xDC00
}

/// Half of a surrogate pair that comes second.
pub open spec fn is_low(u: u16) -> bool {
    0xDC00 <= u < 0xE000
}

/// The character of a surrogate pair.
pub open spec fn pair_char(high: u16, low: u16) -> char {
    (0x10000 + (high - 0xD800) * 0x400 + (low - 0xDC00)) as char
}

/// The text of code units. A surrogate without its other half becomes U+FFFD.
pub open spec fn decode(units: Seq<u16>) -> Seq<char>
    decreases units.len(),
{
    if units.len() == 0 {
        Seq::empty()
    } else if !is_high(units[0]) && !is_low(units[0]) {
        seq![units[0] as char] + decode(units.skip(1))
    } else if is_high(units[0]) && units.len() > 1 && is_low(units[1]) {
        seq![pair_char(units[0], units[1])] + decode(units.skip(2))
    } else {
        seq!['\u{FFFD}'] + decode(units.skip(1))
    }
}

/// The code units in front of the first NUL.
pub open spec fn until_nul(units: Seq<u16>) -> Seq<u16>
    decreases units.len(),
{
    if units.len() == 0 || units[0] == 0 {
        Seq::empty()
    } else {
        seq![units[0]] + until_nul(units.skip(1))
    }
}

fn push_units(out: &mut Vec<u16>, c: char)
    ensures
        final(out)@ == old(out)@ + units_of(c),
{
    let code: u32 = c as u32;
    if code < 0x10000 {
        out.push(code as u16);
    } else {
        let n: u32 = code - 0x10000;
        out.push((0xD800 + n / 0x400) as u16);
        out.push((0xDC00 + n % 0x400) as u16);
    }
    assert(out@ == old(out)@ + units_of(c));
}

fn encoded(s: &str) -> (units: Vec<u16>)
    ensures
        units@ == encode(s@),
{
    let chars = chars_of(s);
    let mut out: Vec<u16> = Vec::new();
    assert(s@.skip(0) == s@);
    for i in 0..chars.len()
        invariant
            chars@ == s@,
            encode(s@) == out@ + encode(s@.skip(i as int)),
    {
        let c = chars[i];
        let ghost before = out@;
        let ghost rest = s@.skip(i as int);
        assert(rest.skip(1) == s@.skip(i + 1));
        push_units(&mut out, c);
        assert(before + (units_of(c) + encode(rest.skip(1))) == out@ + encode(rest.skip(1)));
    }
    assert(s@.skip(chars@.len() as int) == Seq::<char>::empty());
    assert(out@ + Seq::<u16>::empty() == out@);
    out
}

/// The code units of `s`, with a NUL behind them.
pub fn to_wide(s: &str) -> (units: Vec<u16>)
    ensures
        units@ == encode(s@).push(0),
{
    let mut units = encoded(s);
    units.push(0);
    units
}

/// The code units of `s` cut to at most `limit`, with a NUL behind them.
pub open spec fn cut(s: Seq<char>, limit: nat) -> Seq<u16> {
    let units = encode(s);
    if units.len() <= limit {
        units.push(0)
    } else {
        units.take(limit as int).push(0)
    }
}

/// The code units of `s` cut to at most `limit`, with a NUL behind them: the
/// form of a text field of fixed size.
pub fn to_wide_cut(s: &str, limit: usize) -> (units: Vec<u16>)
    ensures
        units@ == cut(s@, limit as nat),
        units@.len() <= limit + 1,
{
    let mut units = encoded(s);
    if units.len() > limit {
        units.truncate(limit);
    }
    units.push(0);
    units
}

fn nul_position(buf: &[u16]) -> (end: usize)
    ensures
        end <= buf@.len(),
        buf@.take(end as int) == until_nul(buf@),
{
    let len: usize = buf.len();
    let mut i: usize = 0;
    assert(buf@.skip(0) == buf@);
    while i < len && buf[i] != 0
        invariant
            i <= len == buf@.len(),
            until_nul(buf@) == buf@.take(i as int) + until_nul(buf@.skip(i as int)),
        decreases len - i,
    {
        let ghost rest = buf@.skip(i as int);
        assert(rest.skip(1) == buf@.skip(i + 1));
        assert(buf@.take(i as int) + (seq![rest[0]] + until_nul(rest.skip(1))) == buf@.take(i + 1)
            + until_nul(buf@.skip(i + 1)));
        i += 1;
    }
    assert(until_nul(buf@.skip(i as int)) == Seq::<u16>::empty());
    assert(buf@.take(i as int) + Seq::<u16>::empty() == buf@.take(i as int));
    i
}

fn char_of(code: u32) -> (c: char)
    ensures
        c == (if code < 0xD800 || 0xE000 <= code <= 0x10FFFF {
            code as char
        } else {
            '\u{FFFD}'
        }),
{
    match char::from_u32(code) {
        Some(c) => c,
        None => '\u{FFFD}',
    }
}

/// The text of `buf` up to its first NUL, or all of it. A surrogate without its
/// other half becomes U+FFFD.
pub fn from_wide(buf: &[u16]) -> (s: String)
    ensures
        s@ == decode(until_nul(buf@)),
{
    let end = nul_position(buf);
    let units = slice_subrange(buf, 0, end);
    let ghost text = units@;
    assert(text == until_nul(buf@));
    let len: usize = units.len();
    let mut out = String::new();
    let mut i: usize = 0;
    assert(text.skip(0) == text);
    while i < len
        invariant
            i <= len == text.len(),
            units@ == text,
            decode(text) == out@ + decode(text.skip(i as int)),
        decreases len - i,
    {
        let u = units[i];
        let ghost rest = text.skip(i as int);
        let ghost before = out@;
        if 0xD800 <= u && u < 0xDC00 && i + 1 < len && 0xDC00 <= units[i + 1] && units[i + 1]
            < 0xE000 {
            let high: u32 = u as u32 - 0xD800;
            let low: u32 = units[i + 1] as u32 - 0xDC00;
            let c = char_of(0x10000 + high * 0x400 + low);
            out.push(c);
            assert(c == pair_char(rest[0], rest[1]));
            assert(rest.skip(2) == text.skip(i + 2));
            assert(before + (seq![c] + decode(rest.skip(2))) == out@ + decode(rest.skip(2)));
            i += 2;
        } else {
            let c = char_of(u as u32);
            out.push(c);
            assert(rest.skip(1) == text.skip(i + 1));
            assert(before + (seq![c] + decode(rest.skip(1))) == out@ + decode(rest.skip(1)));
            i += 1;
        }
    }
    assert(text.skip(len as int) == Seq::<u16>::empty());
    assert(out@ + Seq::<char>::empty() == out@);
    out
}

/// The text in the clipboard memory `units`, up to its first NUL.
pub fn clipboard_get(units: &[u16]) -> (s: String)
    ensures
        s@ == decode(until_nul(units@)),
{
    from_wide(units)
}

// ---------------------------------------------------------------------------
// laws
// ---------------------------------------------------------------------------

/// A text holds no NUL character.
pub open spec fn no_nul(s: Seq<char>) -> bool {
    forall|i: int| 0 <= i < s.len() ==> #[trigger] s[i] != '\0'
}

proof fn lemma_units(c: char)
    ensures
        units_of(c).len() == 1 ==> !is_high(units_of(c)[0]) && !is_low(units_of(c)[0])
            && units_of(c)[0] as char == c,
        units_of(c).len() == 2 ==> is_high(units_of(c)[0]) && is_low(units_of(c)[1]) && pair_char(
            units_of(c)[0],
            units_of(c)[1],
        ) == c,
        c != '\0' ==> forall|i: int|
            0 <= i < units_of(c).len() ==> #[trigger] units_of(c)[i] != 0,
{
    if (c as u32) >= 0x10000 {
        let n = c as u32 - 0x10000;
        assert(n / 0x400 * 0x400 + n % 0x400 == n);
    }
}

proof fn lemma_decode_encode(s: Seq<char>)
    ensures
        decode(encode(s)) == s,
    decreases s.len(),
{
    if s.len() > 0 {
        let rest = encode(s.skip(1));
        let units = units_of(s[0]) + rest;
        lemma_decode_encode(s.skip(1));
        lemma_units(s[0]);
        if units_of(s[0]).len() == 1 {
            assert(units.skip(1) == rest);
        } else {
            assert(units.skip(2) == rest);
        }
        assert(seq![s[0]] + s.skip(1) == s);
    }
}

proof fn lemma_until_nul(s: Seq<char>, tail: Seq<u16>)
    requires
        no_nul(s),
    ensures
        until_nul(encode(s) + seq![0u16] + tail) == encode(s),
    decreases s.len(),
{
    let all = encode(s) + seq![0u16] + tail;
    if s.len() > 0 {
        let first = units_of(s[0]);
        let rest = encode(s.skip(1));
        let others = rest + seq![0u16] + tail;
        assert forall|i: int| 0 <= i < s.skip(1).len() implies #[trigger] s.skip(1)[i] != '\0' by {
            assert(s.skip(1)[i] == s[i + 1]);
        }
        lemma_until_nul(s.skip(1), tail);
        lemma_units(s[0]);
        assert(s[0] != '\0');
        assert(all.skip(first.len() as int) == others);
        assert(all[0] == first[0]);
        if first.len() == 2 {
            assert(all.skip(1)[0] == first[1]);
            assert(all.skip(1).skip(1) == others);
            assert(until_nul(all.skip(1)) == seq![first[1]] + rest);
            assert(seq![first[0]] + (seq![first[1]] + rest) == first + rest);
        } else {
            assert(seq![first[0]] + rest == first + rest);
        }
    } else {
        assert(all[0] == 0);
    }
}

/// What `to_wide` writes, `from_wide` reads back, whatever follows the NUL: any
/// text without a NUL character.
pub proof fn law_wide_round_trip(s: Seq<char>, tail: Seq<u16>)
    requires
        no_nul(s),
    ensures
        decode(until_nul(encode(s).push(0) + tail)) == s,
{
    assert(encode(s).push(0) + tail == encode(s) + seq![0u16] + tail);
    lemma_until_nul(s, tail);
    lemma_decode_encode(s);
}

/// A character below U+10000 is one code unit; any other is a high and a low
/// surrogate, which give it back.
pub proof fn law_units(c: char)
    ensures
        (c as u32) < 0x10000 ==> units_of(c) == seq![c as u16],
        (c as u32) >= 0x10000 ==> units_of(c).len() == 2 && 0xD800 <= units_of(c)[0] < 0xDC00
            <= units_of(c)[1] < 0xE000 && c as u32 == 0x10000 + (units_of(c)[0] - 0xD800) * 0x400
            + (units_of(c)[1] - 0xDC00),
{
    if (c as u32) >= 0x10000 {
        let n = c as u32 - 0x10000;
        assert(n / 0x400 * 0x400 + n % 0x400 == n);
    }
}

/// A text is encoded character by character.
pub proof fn law_encode(c: char, rest: Seq<char>)
    ensures
        encode(Seq::empty()) == Seq::<u16>::empty(),
        encode(seq![c] + rest) == units_of(c) + encode(rest),
{
    assert((seq![c] + rest).skip(1) == rest);
}

/// A code unit that is no surrogate is its character, a high surrogate with a low
/// one behind it is the character of the pair, and any other surrogate is
/// U+FFFD.
pub proof fn law_decode(u: u16, v: u16, rest: Seq<u16>)
    ensures
        decode(Seq::empty()) == Seq::<char>::empty(),
        u < 0xD800 || u >= 0xE000 ==> decode(seq![u] + rest) == seq![u as char] + decode(rest),
        0xD800 <= u < 0xDC00 <= v < 0xE000 ==> decode(seq![u, v] + rest) == seq![
            (0x10000 + (u - 0xD800) * 0x400 + (v - 0xDC00)) as char,
        ] + decode(rest),
        0xDC00 <= u < 0xE000 ==> decode(seq![u] + rest) == seq!['\u{FFFD}'] + decode(rest),
        0xD800 <= u < 0xDC00 && (rest.len() == 0 || rest[0] < 0xDC00 || rest[0] >= 0xE000)
            ==> decode(seq![u] + rest) == seq!['\u{FFFD}'] + decode(rest),
{
    assert((seq![u] + rest).skip(1) == rest);
    assert((seq![u, v] + rest).skip(2) == rest);
}

/// What counts of a buffer is what stands in front of its first NUL, or all of
/// it.
pub proof fn law_until_nul(units: Seq<u16>)
    ensures
        until_nul(units).is_prefix_of(units),
        forall|i: int| 0 <= i < until_nul(units).len() ==> #[trigger] until_nul(units)[i] != 0,
        until_nul(units).len() < units.len() ==> units[until_nul(units).len() as int] == 0,
    decreases units.len(),
{
    if units.len() > 0 && units[0] != 0 {
        let rest = units.skip(1);
        law_until_nul(rest);
        let head = until_nul(rest);
        let all = until_nul(units);
        assert(head == rest.subrange(0, head.len() as int));
        assert(all == units.subrange(0, all.len() as int)) by {
            assert forall|i: int| 0 <= i < all.len() implies all[i] == #[trigger] units.subrange(
                0,
                all.len() as int,
            )[i] by {
                if i > 0 {
                    assert(all[i] == head[i - 1]);
                    assert(rest.subrange(0, head.len() as int)[i - 1] == rest[i - 1]);
                }
            }
        }
        assert forall|i: int| 0 <= i < all.len() implies #[trigger] all[i] != 0 by {
            if i > 0 {
                assert(all[i] == head[i - 1]);
            }
        }
    } else {
        assert(until_nul(units) == units.subrange(0, 0));
    }
}

/// A text field of fixed size holds as much of the text as fits, and a NUL.
pub proof fn law_cut(s: Seq<char>, limit: nat)
    ensures
        cut(s, limit).last() == 0,
        cut(s, limit).drop_last().is_prefix_of(encode(s)),
        encode(s).len() <= limit ==> cut(s, limit) == encode(s).push(0),
        encode(s).len() > limit ==> cut(s, limit).len() == limit + 1,
{
    let units = encode(s);
    if units.len() <= limit {
        assert(cut(s, limit).drop_last() == units);
        assert(units == units.subrange(0, units.len() as int));
    } else {
        assert(cut(s, limit).drop_last() == units.take(limit as int));
    }
}

} // verus!
