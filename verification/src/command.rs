//! The worker's command line: how it is written, and how Windows reads it.
use vstd::prelude::*;

use crate::args::{Args, InjectPlan, PlanView};
use crate::config::{mode_name, EditorMode};
use crate::process::{law_same_variant, resolution, ProcessInfo, Target, TargetView};
use crate::start::in_quotes;
use crate::text::{chars_of, decimal, owned, push_decimal, some_text};

verus! {

// ---------------------------------------------------------------------------
// arguments
// ---------------------------------------------------------------------------

/// An argument of a command line.
#[derive(Debug, PartialEq, Eq)]
pub struct Argument {
    pub text: String,
    /// The argument is written in double quotes.
    pub quoted: bool,
}

/// What an argument says.
pub ghost struct ArgumentView {
    pub text: Seq<char>,
    pub quoted: bool,
}

impl View for Argument {
    type V = ArgumentView;

    open spec fn view(&self) -> ArgumentView {
        ArgumentView { text: self.text@, quoted: self.quoted }
    }
}

/// What a list of arguments says.
pub open spec fn arguments_of(v: Seq<Argument>) -> Seq<ArgumentView> {
    Seq::new(v.len(), |i: int| v[i]@)
}

/// An argument that is written as it is.
pub open spec fn plain(text: Seq<char>) -> ArgumentView {
    ArgumentView { text, quoted: false }
}

/// An argument that is written in quotes.
pub open spec fn quoted(text: Seq<char>) -> ArgumentView {
    ArgumentView { text, quoted: true }
}

/// The backslashes that `s` begins with end at a double quote or at its end.
pub open spec fn slashes_need_doubling(s: Seq<char>) -> bool
    decreases s.len(),
{
    if s.len() == 0 {
        true
    } else if s[0] == '\\' {
        slashes_need_doubling(s.skip(1))
    } else {
        s[0] == '"'
    }
}

/// A value as it is written between double quotes: a quote gets a backslash in
/// front, and the backslashes in front of a quote, or of the end, are doubled.
pub open spec fn escaped(s: Seq<char>) -> Seq<char>
    decreases s.len(),
{
    if s.len() == 0 {
        Seq::empty()
    } else {
        let rest = escaped(s.skip(1));
        if s[0] == '"' || (s[0] == '\\' && slashes_need_doubling(s)) {
            seq!['\\', s[0]] + rest
        } else {
            seq![s[0]] + rest
        }
    }
}

/// An argument as it is written.
pub open spec fn written(a: ArgumentView) -> Seq<char> {
    if a.quoted {
        in_quotes(escaped(a.text))
    } else {
        a.text
    }
}

/// Arguments as they are written, each with a space in front.
pub open spec fn all_written(arguments: Seq<ArgumentView>) -> Seq<char>
    decreases arguments.len(),
{
    if arguments.len() == 0 {
        Seq::empty()
    } else {
        all_written(arguments.drop_last()) + " "@ + written(arguments.last())
    }
}

/// The command line that runs `exe` with `arguments`.
pub open spec fn command_line(exe: Seq<char>, arguments: Seq<ArgumentView>) -> Seq<char> {
    in_quotes(exe) + all_written(arguments)
}

fn push_quoted(out: &mut String, s: &str)
    ensures
        final(out)@ == old(out)@ + in_quotes(s@),
{
    out.append("\"");
    out.append(s);
    out.append("\"");
    assert(out@ == old(out)@ + in_quotes(s@));
}

fn needs_doubling(s: &[char], from: usize) -> (b: bool)
    requires
        from <= s@.len(),
    ensures
        b == slashes_need_doubling(s@.skip(from as int)),
{
    let len: usize = s.len();
    let mut i: usize = from;
    while i < len && s[i] == '\\'
        invariant
            from <= i <= len == s@.len(),
            slashes_need_doubling(s@.skip(from as int)) == slashes_need_doubling(
                s@.skip(i as int),
            ),
        decreases len - i,
    {
        assert(s@.skip(i as int).skip(1) == s@.skip(i + 1));
        i += 1;
    }
    i == len || s[i] == '"'
}

/// A value as it is written between double quotes.
pub fn escape(s: &str) -> (r: String)
    ensures
        r@ == escaped(s@),
{
    let chars = chars_of(s);
    let len: usize = chars.len();
    let mut out = String::new();
    assert(s@.skip(0) == s@);
    for i in 0..len
        invariant
            chars@ == s@,
            len == s@.len(),
            escaped(s@) == out@ + escaped(s@.skip(i as int)),
    {
        let c = chars[i];
        let ghost before = out@;
        let ghost rest = s@.skip(i as int);
        let ghost tail = escaped(s@.skip(i + 1));
        assert(rest.skip(1) == s@.skip(i + 1));
        if c == '"' || (c == '\\' && needs_doubling(&chars, i)) {
            out.push('\\');
            out.push(c);
            assert(before + (seq!['\\', c] + tail) == out@ + tail);
        } else {
            out.push(c);
            assert(before + (seq![c] + tail) == out@ + tail);
        }
    }
    assert(s@.skip(len as int) == Seq::<char>::empty());
    assert(out@ + Seq::<char>::empty() == out@);
    out
}

fn write_command(exe: &str, arguments: &Vec<Argument>) -> (line: String)
    ensures
        line@ == command_line(exe@, arguments_of(arguments@)),
{
    let ghost all = arguments_of(arguments@);
    let mut line = String::new();
    push_quoted(&mut line, exe);
    assert(line@ == in_quotes(exe@));
    assert(in_quotes(exe@) + Seq::<char>::empty() == in_quotes(exe@));
    for i in 0..arguments.len()
        invariant
            all == arguments_of(arguments@),
            line@ == in_quotes(exe@) + all_written(all.take(i as int)),
    {
        let a = &arguments[i];
        let ghost head = all.take(i + 1);
        let ghost before = line@;
        assert(head.drop_last() == all.take(i as int));
        assert(head.last() == a@);
        line.append(" ");
        if a.quoted {
            let value = escape(a.text.as_str());
            push_quoted(&mut line, value.as_str());
        } else {
            line.append(a.text.as_str());
        }
        assert(line@ == before + " "@ + written(a@));
        assert(line@ == in_quotes(exe@) + all_written(head));
    }
    assert(all.take(arguments@.len() as int) == all);
    line
}

fn push_argument(v: &mut Vec<Argument>, text: String, quoted: bool)
    ensures
        arguments_of(final(v)@) == arguments_of(old(v)@).push(
            ArgumentView { text: text@, quoted },
        ),
{
    v.push(Argument { text, quoted });
    assert(arguments_of(v@) == arguments_of(old(v)@).push(ArgumentView { text: text@, quoted }));
}

fn push_plain(v: &mut Vec<Argument>, text: &str)
    ensures
        arguments_of(final(v)@) == arguments_of(old(v)@).push(plain(text@)),
{
    push_argument(v, owned(text), false);
}

fn push_number(v: &mut Vec<Argument>, n: u64)
    ensures
        arguments_of(final(v)@) == arguments_of(old(v)@).push(plain(decimal(n as nat))),
{
    let mut text = String::new();
    push_decimal(&mut text, n as u128);
    assert(text@ == decimal(n as nat));
    push_argument(v, text, false);
}

fn push_value(v: &mut Vec<Argument>, text: &str)
    ensures
        arguments_of(final(v)@) == arguments_of(old(v)@).push(quoted(text@)),
{
    push_argument(v, owned(text), true);
}

// ---------------------------------------------------------------------------
// the worker's command line
// ---------------------------------------------------------------------------

/// The arguments that hand the message and the timing over.
pub open spec fn timing_arguments(args: Args, message_file: Seq<char>) -> Seq<ArgumentView> {
    seq![
        plain("--worker"@),
        plain("--message-file"@),
        quoted(message_file),
        plain("--wait"@),
        plain(decimal(args.wait as nat)),
        plain("--settle"@),
        plain(decimal(args.settle as nat)),
        plain("--grace"@),
        plain(decimal(args.grace as nat)),
        plain("--window-timeout"@),
        plain(decimal(args.window_timeout as nat)),
        plain("--heads-up"@),
        plain(decimal(args.heads_up as nat)),
    ]
}

/// The arguments that hand the resolved keys over.
pub open spec fn plan_arguments(plan: PlanView) -> Seq<ArgumentView> {
    seq![
        plain("--mode"@),
        plain(mode_name(plan.mode)),
        plain("--toggle-keys"@),
        quoted(plan.toggle),
        plain("--paste-keys"@),
        quoted(plan.paste),
        plain(
            if plan.ctrl_enter {
                "--send-ctrl-enter"@
            } else {
                "--send-enter"@
            },
        ),
    ]
}

/// An option with a value, where there is one.
pub open spec fn value_arguments(name: Seq<char>, value: Option<Seq<char>>) -> Seq<ArgumentView> {
    match value {
        Some(value) => seq![plain(name), quoted(value)],
        None => Seq::empty(),
    }
}

/// The arguments that hand the target over. Without a target the executable
/// that was given is handed over, if one was.
pub open spec fn target_arguments(
    target: Option<TargetView>,
    given: Option<Seq<char>>,
) -> Seq<ArgumentView> {
    match target {
        Some(target) => {
            let exe = seq![plain("--zed-path"@), quoted(target.exe)];
            match target.pid {
                Some(pid) => exe.push(plain("--zed-pid"@)).push(plain(decimal(pid as nat))),
                None => exe,
            }
        },
        None => value_arguments("--zed-path"@, given),
    }
}

/// The arguments of the worker: everything that was resolved is passed to it,
/// so that it reads no configuration itself.
pub open spec fn worker_arguments(
    args: Args,
    message_file: Seq<char>,
    plan: PlanView,
    project: Option<Seq<char>>,
    target: Option<TargetView>,
) -> Seq<ArgumentView> {
    timing_arguments(args, message_file) + plan_arguments(plan) + value_arguments(
        "--project"@,
        project,
    ) + value_arguments("--window-title"@, some_text(args.window_title)) + target_arguments(
        target,
        some_text(args.zed_path),
    )
}

/// What an optional target says.
pub open spec fn some_target(target: Option<Target>) -> Option<TargetView> {
    match target {
        Some(target) => Some(target@),
        None => None,
    }
}

fn push_option(v: &mut Vec<Argument>, name: &str, value: &Option<String>)
    ensures
        arguments_of(final(v)@) == arguments_of(old(v)@) + value_arguments(
            name@,
            some_text(*value),
        ),
{
    if let Some(value) = value {
        push_plain(v, name);
        push_value(v, value.as_str());
    }
    assert(arguments_of(v@) == arguments_of(old(v)@) + value_arguments(name@, some_text(*value)));
}

fn push_timing(v: &mut Vec<Argument>, args: &Args, message_file: &str)
    ensures
        arguments_of(final(v)@) == arguments_of(old(v)@) + timing_arguments(*args, message_file@),
{
    push_plain(v, "--worker");
    push_plain(v, "--message-file");
    push_value(v, message_file);
    push_plain(v, "--wait");
    push_number(v, args.wait);
    push_plain(v, "--settle");
    push_number(v, args.settle);
    push_plain(v, "--grace");
    push_number(v, args.grace);
    push_plain(v, "--window-timeout");
    push_number(v, args.window_timeout);
    push_plain(v, "--heads-up");
    push_number(v, args.heads_up);
    assert(arguments_of(v@) == arguments_of(old(v)@) + timing_arguments(*args, message_file@));
}

fn push_plan(v: &mut Vec<Argument>, plan: &InjectPlan)
    ensures
        arguments_of(final(v)@) == arguments_of(old(v)@) + plan_arguments(plan@),
{
    push_plain(v, "--mode");
    push_argument(v, plan.mode.name(), false);
    push_plain(v, "--toggle-keys");
    push_value(v, plan.toggle_binding.as_str());
    push_plain(v, "--paste-keys");
    push_value(v, plan.paste_binding.as_str());
    if plan.ctrl_enter {
        push_plain(v, "--send-ctrl-enter");
    } else {
        push_plain(v, "--send-enter");
    }
    assert(arguments_of(v@) == arguments_of(old(v)@) + plan_arguments(plan@));
}

fn push_target(v: &mut Vec<Argument>, target: &Option<Target>, given: &Option<String>)
    ensures
        arguments_of(final(v)@) == arguments_of(old(v)@) + target_arguments(
            some_target(*target),
            some_text(*given),
        ),
{
    match target {
        Some(target) => {
            push_plain(v, "--zed-path");
            push_value(v, target.exe.as_str());
            if let Some(pid) = target.pid {
                push_plain(v, "--zed-pid");
                push_number(v, pid as u64);
            }
        },
        None => {
            push_option(v, "--zed-path", given);
        },
    }
    assert(arguments_of(v@) == arguments_of(old(v)@) + target_arguments(
        some_target(*target),
        some_text(*given),
    ));
}

/// The command line of the worker, which `exe` runs.
pub fn worker_command(
    exe: &str,
    args: &Args,
    message_file: &str,
    plan: &InjectPlan,
    project: &Option<String>,
    target: &Option<Target>,
) -> (line: String)
    ensures
        line@ == command_line(
            exe@,
            worker_arguments(
                *args,
                message_file@,
                plan@,
                some_text(*project),
                some_target(*target),
            ),
        ),
{
    let mut v: Vec<Argument> = Vec::new();
    assert(arguments_of(v@) == Seq::<ArgumentView>::empty());
    push_timing(&mut v, args, message_file);
    assert(arguments_of(v@) == timing_arguments(*args, message_file@));
    push_plan(&mut v, plan);
    push_option(&mut v, "--project", project);
    push_option(&mut v, "--window-title", &args.window_title);
    push_target(&mut v, target, &args.zed_path);
    write_command(exe, &v)
}

// ---------------------------------------------------------------------------
// how Windows reads a command line
// ---------------------------------------------------------------------------

/// Blanks separate arguments.
pub open spec fn is_blank(c: char) -> bool {
    c == ' ' || c == '\t'
}

/// The backslashes that `s` begins with end at a double quote.
pub open spec fn slashes_end_at_quote(s: Seq<char>) -> bool
    decreases s.len(),
{
    if s.len() == 0 {
        false
    } else if s[0] == '\\' {
        slashes_end_at_quote(s.skip(1))
    } else {
        s[0] == '"'
    }
}

/// The argument that `s` begins with, and the rest behind it. `inside` says
/// whether a double quote is open.
///
/// Two backslashes in front of a quote stand for one, and a quote behind an odd
/// number of them for itself; elsewhere a backslash is a character like any
/// other. Inside quotes two quotes stand for one.
pub open spec fn read_argument(s: Seq<char>, inside: bool) -> (Seq<char>, Seq<char>)
    decreases s.len(),
{
    if s.len() == 0 || (!inside && is_blank(s[0])) {
        (Seq::empty(), s)
    } else if s[0] == '\\' && s.len() > 1 && slashes_end_at_quote(s) {
        if s[1] == '\\' {
            let (text, rest) = read_argument(s.skip(2), inside);
            (seq!['\\'] + text, rest)
        } else {
            let (text, rest) = read_argument(s.skip(2), inside);
            (seq!['"'] + text, rest)
        }
    } else if s[0] == '"' {
        if inside && s.len() > 1 && s[1] == '"' {
            let (text, rest) = read_argument(s.skip(2), inside);
            (seq!['"'] + text, rest)
        } else {
            read_argument(s.skip(1), !inside)
        }
    } else {
        let (text, rest) = read_argument(s.skip(1), inside);
        (seq![s[0]] + text, rest)
    }
}

/// The arguments of `s`, which stands behind the program's name.
pub open spec fn read_arguments(s: Seq<char>) -> Seq<Seq<char>>
    decreases s.len(),
{
    if s.len() == 0 {
        Seq::empty()
    } else if is_blank(s[0]) {
        read_arguments(s.skip(1))
    } else {
        let (text, rest) = read_argument(s, false);
        if rest.len() < s.len() {
            seq![text] + read_arguments(rest)
        } else {
            seq![text]
        }
    }
}

/// The program's name that `s` begins with, and the rest behind it. Backslashes
/// have no meaning here.
pub open spec fn read_program(s: Seq<char>, inside: bool) -> (Seq<char>, Seq<char>)
    decreases s.len(),
{
    if s.len() == 0 || (!inside && is_blank(s[0])) {
        (Seq::empty(), s)
    } else if s[0] == '"' {
        read_program(s.skip(1), !inside)
    } else {
        let (text, rest) = read_program(s.skip(1), inside);
        (seq![s[0]] + text, rest)
    }
}

/// The program's name and the arguments of a command line.
pub open spec fn read_command(line: Seq<char>) -> Seq<Seq<char>> {
    let (program, rest) = read_program(line, false);
    seq![program] + read_arguments(rest)
}

// ---------------------------------------------------------------------------
// laws
// ---------------------------------------------------------------------------

/// A value that needs no quotes: it holds no blank, double quote or backslash,
/// and it is not empty.
pub open spec fn is_word(s: Seq<char>) -> bool {
    &&& s.len() > 0
    &&& forall|i: int|
        0 <= i < s.len() ==> !is_blank(#[trigger] s[i]) && s[i] != '"' && s[i] != '\\'
}

/// An argument that survives being written and read: one in quotes, or one that
/// needs none.
pub open spec fn is_safe(a: ArgumentView) -> bool {
    a.quoted || is_word(a.text)
}

/// The texts of arguments.
pub open spec fn argument_texts(arguments: Seq<ArgumentView>) -> Seq<Seq<char>> {
    Seq::new(arguments.len(), |i: int| arguments[i].text)
}

/// Nothing, or something that begins with a blank.
pub open spec fn is_tail(s: Seq<char>) -> bool {
    s.len() > 0 ==> is_blank(s[0])
}

proof fn lemma_doubled(v: Seq<char>, tail: Seq<char>)
    ensures
        slashes_end_at_quote(escaped(v) + seq!['"'] + tail) == slashes_need_doubling(v),
    decreases v.len(),
{
    let s = escaped(v) + seq!['"'] + tail;
    if v.len() == 0 {
        assert(s[0] == '"');
    } else {
        let rest = escaped(v.skip(1)) + seq!['"'] + tail;
        lemma_doubled(v.skip(1), tail);
        if v[0] == '"' {
            assert(s[0] == '\\');
            assert(s.skip(1)[0] == '"');
            assert(slashes_end_at_quote(s.skip(1)));
        } else if v[0] == '\\' && slashes_need_doubling(v) {
            assert(s[0] == '\\');
            assert(s.skip(1)[0] == '\\');
            assert(s.skip(1).skip(1) == rest);
            assert(slashes_end_at_quote(s.skip(1)));
        } else {
            assert(s[0] == v[0]);
            assert(s.skip(1) == rest);
        }
    }
}

pub(crate) proof fn lemma_read_quoted(v: Seq<char>, tail: Seq<char>)
    requires
        is_tail(tail),
    ensures
        read_argument(escaped(v) + seq!['"'] + tail, true) == (v, tail),
    decreases v.len(),
{
    let s = escaped(v) + seq!['"'] + tail;
    if v.len() == 0 {
        assert(s[0] == '"');
        assert(s.skip(1) == tail);
        if s.len() > 1 {
            assert(s[1] == tail[0]);
        }
        assert(read_argument(tail, false) == (Seq::<char>::empty(), tail));
        assert(v == Seq::<char>::empty());
    } else {
        let rest = escaped(v.skip(1)) + seq!['"'] + tail;
        lemma_read_quoted(v.skip(1), tail);
        lemma_doubled(v, tail);
        assert(seq![v[0]] + v.skip(1) == v);
        if v[0] == '"' || (v[0] == '\\' && slashes_need_doubling(v)) {
            assert(s[0] == '\\');
            assert(s[1] == v[0]);
            assert(s.skip(2) == rest);
            if v[0] == '"' {
                assert(s.skip(1)[0] == '"');
                assert(slashes_end_at_quote(s.skip(1)));
            }
        } else {
            assert(s[0] == v[0]);
            assert(s.skip(1) == rest);
        }
    }
}

proof fn lemma_read_word(v: Seq<char>, tail: Seq<char>)
    requires
        forall|i: int|
            0 <= i < v.len() ==> !is_blank(#[trigger] v[i]) && v[i] != '"' && v[i] != '\\',
        is_tail(tail),
    ensures
        read_argument(v + tail, false) == (v, tail),
    decreases v.len(),
{
    let s = v + tail;
    if v.len() == 0 {
        assert(s == tail);
        assert(v == Seq::<char>::empty());
    } else {
        assert(s[0] == v[0]);
        let rest = v.skip(1);
        assert forall|i: int| 0 <= i < rest.len() implies !is_blank(#[trigger] rest[i]) && rest[i]
            != '"' && rest[i] != '\\' by {
            assert(rest[i] == v[i + 1]);
        }
        lemma_read_word(rest, tail);
        assert(s.skip(1) == rest + tail);
        assert(seq![v[0]] + rest == v);
    }
}

proof fn lemma_read_program(v: Seq<char>, tail: Seq<char>)
    requires
        forall|i: int| 0 <= i < v.len() ==> #[trigger] v[i] != '"',
        is_tail(tail),
    ensures
        read_program(v + seq!['"'] + tail, true) == (v, tail),
    decreases v.len(),
{
    let s = v + seq!['"'] + tail;
    if v.len() == 0 {
        assert(s[0] == '"');
        assert(s.skip(1) == tail);
        assert(read_program(tail, false) == (Seq::<char>::empty(), tail));
        assert(v == Seq::<char>::empty());
    } else {
        assert(s[0] == v[0]);
        let rest = v.skip(1);
        assert forall|i: int| 0 <= i < rest.len() implies #[trigger] rest[i] != '"' by {
            assert(rest[i] == v[i + 1]);
        }
        lemma_read_program(rest, tail);
        assert(s.skip(1) == rest + seq!['"'] + tail);
        assert(seq![v[0]] + rest == v);
    }
}

proof fn lemma_first_written(arguments: Seq<ArgumentView>)
    requires
        arguments.len() > 0,
    ensures
        all_written(arguments) == seq![' '] + written(arguments[0]) + all_written(
            arguments.skip(1),
        ),
    decreases arguments.len(),
{
    reveal_strlit(" ");
    assert(" "@ == seq![' ']);
    let head = arguments.drop_last();
    let last = written(arguments.last());
    if arguments.len() == 1 {
        assert(head.len() == 0);
        assert(arguments.skip(1).len() == 0);
        assert(all_written(head) == Seq::<char>::empty());
        assert(all_written(arguments.skip(1)) == Seq::<char>::empty());
        assert(all_written(arguments) == seq![' '] + last + Seq::<char>::empty());
    } else {
        lemma_first_written(head);
        let rest = arguments.skip(1);
        assert(rest.drop_last() == head.skip(1));
        assert(rest.last() == arguments.last());
        assert(head[0] == arguments[0]);
        assert(all_written(rest) == all_written(head.skip(1)) + seq![' '] + last);
        assert(all_written(arguments) == seq![' '] + written(arguments[0]) + all_written(rest));
    }
}

proof fn lemma_read_arguments(arguments: Seq<ArgumentView>)
    requires
        forall|i: int| 0 <= i < arguments.len() ==> is_safe(#[trigger] arguments[i]),
    ensures
        read_arguments(all_written(arguments)) == argument_texts(arguments),
        is_tail(all_written(arguments)),
    decreases arguments.len(),
{
    if arguments.len() == 0 {
        assert(argument_texts(arguments) == Seq::<Seq<char>>::empty());
    } else {
        let a = arguments[0];
        let others = arguments.skip(1);
        assert(is_safe(a));
        assert forall|i: int| 0 <= i < others.len() implies is_safe(#[trigger] others[i]) by {
            assert(others[i] == arguments[i + 1]);
        }
        lemma_read_arguments(others);
        lemma_first_written(arguments);
        let tail = all_written(others);
        let s = all_written(arguments);
        let t = written(a) + tail;
        assert(s[0] == ' ');
        assert(s.skip(1) == t);
        reveal_strlit("\"");
        assert("\""@ == seq!['"']);
        if a.quoted {
            lemma_read_quoted(a.text, tail);
            assert(t[0] == '"');
            assert(t.skip(1) == escaped(a.text) + seq!['"'] + tail);
            assert(read_argument(t, false) == (a.text, tail));
        } else {
            lemma_read_word(a.text, tail);
            assert(t[0] == a.text[0]);
            assert(read_argument(t, false) == (a.text, tail));
        }
        assert(read_arguments(t) == seq![a.text] + read_arguments(tail));
        assert(argument_texts(arguments) == seq![a.text] + argument_texts(others));
    }
}

/// Windows reads a command line back into the program and the arguments that
/// it was written from, as long as these are safe. No path of a program holds a
/// double quote, and nothing could stand for one there.
pub proof fn law_command_line_reads_back(exe: Seq<char>, arguments: Seq<ArgumentView>)
    requires
        forall|i: int| 0 <= i < exe.len() ==> #[trigger] exe[i] != '"',
        forall|i: int| 0 <= i < arguments.len() ==> is_safe(#[trigger] arguments[i]),
    ensures
        read_command(command_line(exe, arguments)) == seq![exe] + argument_texts(arguments),
{
    let tail = all_written(arguments);
    let line = command_line(exe, arguments);
    lemma_read_arguments(arguments);
    lemma_read_program(exe, tail);
    reveal_strlit("\"");
    assert("\""@ == seq!['"']);
    assert(line[0] == '"');
    assert(line.skip(1) == exe + seq!['"'] + tail);
    assert(read_program(line, false) == (exe, tail));
}

/// Decimal digits need no quotes.
proof fn lemma_decimal_is_word(n: nat)
    ensures
        is_word(decimal(n)),
    decreases n,
{
    if n >= 10 {
        lemma_decimal_is_word(n / 10);
        let head = decimal(n / 10);
        let s = decimal(n);
        assert forall|i: int| 0 <= i < s.len() implies !is_blank(#[trigger] s[i]) && s[i] != '"'
            && s[i] != '\\' by {
            if i < head.len() {
                assert(s[i] == head[i]);
            }
        }
    }
}

/// The worker reads from its command line what the launcher resolved: every
/// value comes out as it went in.
pub proof fn law_worker_reads_back(
    exe: Seq<char>,
    args: Args,
    message_file: Seq<char>,
    plan: PlanView,
    project: Option<Seq<char>>,
    target: Option<TargetView>,
)
    requires
        forall|i: int| 0 <= i < exe.len() ==> #[trigger] exe[i] != '"',
    ensures
        ({
            let arguments = worker_arguments(args, message_file, plan, project, target);
            read_command(command_line(exe, arguments)) == seq![exe] + argument_texts(arguments)
        }),
{
    lemma_timing_safe(args, message_file);
    lemma_plan_safe(plan);
    lemma_options_safe(args, project, target);
    let a = timing_arguments(args, message_file);
    let b = plan_arguments(plan);
    let c = value_arguments("--project"@, project);
    let d = value_arguments("--window-title"@, some_text(args.window_title));
    let e = target_arguments(target, some_text(args.zed_path));
    let all = worker_arguments(args, message_file, plan, project, target);
    assert forall|i: int| 0 <= i < all.len() implies is_safe(#[trigger] all[i]) by {
        let ab = a.len() + b.len();
        let abc = ab + c.len();
        let abcd = abc + d.len();
        if i < a.len() {
            assert(all[i] == a[i]);
        } else if i < ab {
            assert(all[i] == b[i - a.len()]);
        } else if i < abc {
            assert(all[i] == c[i - ab]);
        } else if i < abcd {
            assert(all[i] == d[i - abc]);
        } else {
            assert(all[i] == e[i - abcd]);
        }
    }
    law_command_line_reads_back(exe, all);
}

proof fn lemma_timing_safe(args: Args, message_file: Seq<char>)
    ensures
        forall|i: int|
            0 <= i < timing_arguments(args, message_file).len() ==> is_safe(
                #[trigger] timing_arguments(args, message_file)[i],
            ),
{
    reveal_strlit("--worker");
    reveal_strlit("--message-file");
    reveal_strlit("--wait");
    reveal_strlit("--settle");
    reveal_strlit("--grace");
    reveal_strlit("--window-timeout");
    reveal_strlit("--heads-up");
    lemma_decimal_is_word(args.wait as nat);
    lemma_decimal_is_word(args.settle as nat);
    lemma_decimal_is_word(args.grace as nat);
    lemma_decimal_is_word(args.window_timeout as nat);
    lemma_decimal_is_word(args.heads_up as nat);
    assert(is_word("--worker"@));
    assert(is_word("--message-file"@));
    assert(is_word("--wait"@));
    assert(is_word("--settle"@));
    assert(is_word("--grace"@));
    assert(is_word("--window-timeout"@));
    assert(is_word("--heads-up"@));
}

proof fn lemma_plan_safe(plan: PlanView)
    ensures
        forall|i: int|
            0 <= i < plan_arguments(plan).len() ==> is_safe(#[trigger] plan_arguments(plan)[i]),
{
    reveal_strlit("--mode");
    reveal_strlit("normal");
    reveal_strlit("vim");
    reveal_strlit("helix");
    reveal_strlit("--toggle-keys");
    reveal_strlit("--paste-keys");
    reveal_strlit("--send-ctrl-enter");
    reveal_strlit("--send-enter");
    assert(is_word("--mode"@));
    assert(is_word(mode_name(plan.mode)));
    assert(is_word("--toggle-keys"@));
    assert(is_word("--paste-keys"@));
    assert(is_word("--send-ctrl-enter"@));
    assert(is_word("--send-enter"@));
}

proof fn lemma_options_safe(
    args: Args,
    project: Option<Seq<char>>,
    target: Option<TargetView>,
)
    ensures
        forall|i: int|
            0 <= i < value_arguments("--project"@, project).len() ==> is_safe(
                #[trigger] value_arguments("--project"@, project)[i],
            ),
        forall|i: int|
            0 <= i < value_arguments("--window-title"@, some_text(args.window_title)).len()
                ==> is_safe(
                #[trigger] value_arguments("--window-title"@, some_text(args.window_title))[i],
            ),
        forall|i: int|
            0 <= i < target_arguments(target, some_text(args.zed_path)).len() ==> is_safe(
                #[trigger] target_arguments(target, some_text(args.zed_path))[i],
            ),
{
    reveal_strlit("--project");
    reveal_strlit("--window-title");
    reveal_strlit("--zed-path");
    reveal_strlit("--zed-pid");
    assert(is_word("--project"@));
    assert(is_word("--window-title"@));
    assert(is_word("--zed-path"@));
    assert(is_word("--zed-pid"@));
    if let Some(target) = target {
        if let Some(pid) = target.pid {
            lemma_decimal_is_word(pid as nat);
        }
    }
}

/// An executable that was given is handed to the worker, whatever runs.
pub proof fn law_given_path_is_handed_over(
    args: Args,
    message_file: Seq<char>,
    plan: PlanView,
    project: Option<Seq<char>>,
    procs: Seq<ProcessInfo>,
    own_pid: u32,
    given: Seq<char>,
)
    requires
        some_text(args.zed_path) == Some(given),
    ensures
        resolution(Some(given), args.zed_pid, procs, own_pid) matches Ok(target) ==> {
            let arguments = worker_arguments(args, message_file, plan, project, target);
            exists|i: int|
                0 <= i < arguments.len() - 1 && #[trigger] arguments[i] == plain("--zed-path"@)
                    && arguments[i + 1] == quoted(given)
        },
{
    law_same_variant(Some(given), args.zed_pid, procs, own_pid);
    if let Ok(target) = resolution(Some(given), args.zed_pid, procs, own_pid) {
        let arguments = worker_arguments(args, message_file, plan, project, target);
        let last = target_arguments(target, Some(given));
        let i = arguments.len() - last.len();
        assert(arguments[i] == last[0]);
        assert(arguments[i + 1] == last[1]);
        assert(last[0] == plain("--zed-path"@));
    }
}

/// A value without double quotes and backslashes is written as it is; a double
/// quote in front of the rest gets a backslash.
pub proof fn law_escaped(s: Seq<char>)
    ensures
        (forall|i: int| 0 <= i < s.len() ==> #[trigger] s[i] != '"' && s[i] != '\\') ==> escaped(s)
            == s,
        escaped(seq!['"'] + s) == seq!['\\', '"'] + escaped(s),
    decreases s.len(),
{
    assert((seq!['"'] + s).skip(1) == s);
    if s.len() > 0 {
        let rest = s.skip(1);
        law_escaped(rest);
        if forall|i: int| 0 <= i < s.len() ==> #[trigger] s[i] != '"' && s[i] != '\\' {
            assert forall|i: int| 0 <= i < rest.len() implies #[trigger] rest[i] != '"' && rest[i]
                != '\\' by {
                assert(rest[i] == s[i + 1]);
            }
            assert(s[0] != '"');
            assert(seq![s[0]] + rest == s);
        }
    }
}

/// A command line begins with the program in quotes, and each further argument
/// comes behind a space: as it is, or in quotes.
pub proof fn law_command_line(exe: Seq<char>, arguments: Seq<ArgumentView>, a: ArgumentView)
    ensures
        command_line(exe, Seq::empty()) == seq!['"'] + exe + seq!['"'],
        command_line(exe, arguments.push(a)) == command_line(exe, arguments) + seq![' '] + if
            a.quoted {
            seq!['"'] + escaped(a.text) + seq!['"']
        } else {
            a.text
        },
{
    reveal_strlit("\"");
    reveal_strlit(" ");
    assert("\""@ == seq!['"']);
    assert(" "@ == seq![' ']);
    assert(arguments.push(a).drop_last() == arguments);
    assert(command_line(exe, Seq::empty()) == seq!['"'] + exe + seq!['"']);
    assert(command_line(exe, arguments.push(a)) == command_line(exe, arguments) + seq![' ']
        + written(a));
}

/// An option and its value as the worker reads them, where there is a value.
pub open spec fn option_read(name: Seq<char>, value: Option<Seq<char>>) -> Seq<Seq<char>> {
    match value {
        Some(value) => seq![name, value],
        None => Seq::empty(),
    }
}

/// What the worker reads: the options with the message file, the times, the mode,
/// the bindings and the send key, then the project, the title and the target as
/// far as there are any. Without a target the executable that was given is named.
pub proof fn law_what_the_worker_reads(
    exe: Seq<char>,
    args: Args,
    message_file: Seq<char>,
    plan: PlanView,
    project: Option<Seq<char>>,
    target: Option<TargetView>,
)
    requires
        forall|i: int| 0 <= i < exe.len() ==> #[trigger] exe[i] != '"',
    ensures
        read_command(
            command_line(exe, worker_arguments(args, message_file, plan, project, target)),
        ) == seq![
            exe,
            "--worker"@,
            "--message-file"@,
            message_file,
            "--wait"@,
            decimal(args.wait as nat),
            "--settle"@,
            decimal(args.settle as nat),
            "--grace"@,
            decimal(args.grace as nat),
            "--window-timeout"@,
            decimal(args.window_timeout as nat),
            "--heads-up"@,
            decimal(args.heads_up as nat),
            "--mode"@,
            match plan.mode {
                EditorMode::Normal => "normal"@,
                EditorMode::Vim => "vim"@,
                EditorMode::Helix => "helix"@,
            },
            "--toggle-keys"@,
            plan.toggle,
            "--paste-keys"@,
            plan.paste,
            if plan.ctrl_enter {
                "--send-ctrl-enter"@
            } else {
                "--send-enter"@
            },
        ] + option_read("--project"@, project) + option_read(
            "--window-title"@,
            match args.window_title {
                Some(title) => Some(title@),
                None => None,
            },
        ) + (match target {
            Some(target) => seq!["--zed-path"@, target.exe] + option_read(
                "--zed-pid"@,
                match target.pid {
                    Some(pid) => Some(decimal(pid as nat)),
                    None => None,
                },
            ),
            None => option_read(
                "--zed-path"@,
                match args.zed_path {
                    Some(path) => Some(path@),
                    None => None,
                },
            ),
        }),
{
    law_worker_reads_back(exe, args, message_file, plan, project, target);
    lemma_worker_texts(args, message_file, plan, project, target);
    lemma_first_texts(exe, args, message_file, plan);
    lemma_option_texts("--project"@, project);
    lemma_option_texts("--window-title"@, some_text(args.window_title));
    lemma_target_texts(target, some_text(args.zed_path));
    lemma_regroup(
        seq![exe],
        argument_texts(timing_arguments(args, message_file)),
        argument_texts(plan_arguments(plan)),
        argument_texts(value_arguments("--project"@, project)),
        argument_texts(value_arguments("--window-title"@, some_text(args.window_title))),
        argument_texts(target_arguments(target, some_text(args.zed_path))),
    );
}

proof fn lemma_worker_texts(
    args: Args,
    message_file: Seq<char>,
    plan: PlanView,
    project: Option<Seq<char>>,
    target: Option<TargetView>,
)
    ensures
        argument_texts(worker_arguments(args, message_file, plan, project, target))
            == argument_texts(timing_arguments(args, message_file)) + argument_texts(
            plan_arguments(plan),
        ) + argument_texts(value_arguments("--project"@, project)) + argument_texts(
            value_arguments("--window-title"@, some_text(args.window_title)),
        ) + argument_texts(target_arguments(target, some_text(args.zed_path))),
{
    let a = timing_arguments(args, message_file);
    let b = plan_arguments(plan);
    let c = value_arguments("--project"@, project);
    let d = value_arguments("--window-title"@, some_text(args.window_title));
    lemma_texts_add(a, b);
    lemma_texts_add(a + b, c);
    lemma_texts_add(a + b + c, d);
    lemma_texts_add(a + b + c + d, target_arguments(target, some_text(args.zed_path)));
}

proof fn lemma_regroup(
    x: Seq<Seq<char>>,
    a: Seq<Seq<char>>,
    b: Seq<Seq<char>>,
    c: Seq<Seq<char>>,
    d: Seq<Seq<char>>,
    e: Seq<Seq<char>>,
)
    ensures
        x + (a + b + c + d + e) == x + a + b + c + d + e,
{
    assert(x + (a + b + c + d + e) == x + a + b + c + d + e);
}

proof fn lemma_first_texts(exe: Seq<char>, args: Args, message_file: Seq<char>, plan: PlanView)
    ensures
        seq![exe] + argument_texts(timing_arguments(args, message_file)) + argument_texts(
            plan_arguments(plan),
        ) == seq![
            exe,
            "--worker"@,
            "--message-file"@,
            message_file,
            "--wait"@,
            decimal(args.wait as nat),
            "--settle"@,
            decimal(args.settle as nat),
            "--grace"@,
            decimal(args.grace as nat),
            "--window-timeout"@,
            decimal(args.window_timeout as nat),
            "--heads-up"@,
            decimal(args.heads_up as nat),
            "--mode"@,
            match plan.mode {
                EditorMode::Normal => "normal"@,
                EditorMode::Vim => "vim"@,
                EditorMode::Helix => "helix"@,
            },
            "--toggle-keys"@,
            plan.toggle,
            "--paste-keys"@,
            plan.paste,
            if plan.ctrl_enter {
                "--send-ctrl-enter"@
            } else {
                "--send-enter"@
            },
        ],
{
    lemma_timing_texts(args, message_file);
    lemma_plan_texts(plan);
}

proof fn lemma_texts_add(a: Seq<ArgumentView>, b: Seq<ArgumentView>)
    ensures
        argument_texts(a + b) == argument_texts(a) + argument_texts(b),
{
    assert(argument_texts(a + b) == argument_texts(a) + argument_texts(b));
}

proof fn lemma_option_texts(name: Seq<char>, value: Option<Seq<char>>)
    ensures
        argument_texts(value_arguments(name, value)) == option_read(name, value),
{
    assert(argument_texts(value_arguments(name, value)) == option_read(name, value));
}

proof fn lemma_target_texts(target: Option<TargetView>, given: Option<Seq<char>>)
    ensures
        argument_texts(target_arguments(target, given)) == (match target {
            Some(target) => seq!["--zed-path"@, target.exe] + option_read(
                "--zed-pid"@,
                match target.pid {
                    Some(pid) => Some(decimal(pid as nat)),
                    None => None,
                },
            ),
            None => option_read("--zed-path"@, given),
        }),
{
    lemma_option_texts("--zed-path"@, given);
    if let Some(target) = target {
        let read = seq!["--zed-path"@, target.exe] + option_read(
            "--zed-pid"@,
            match target.pid {
                Some(pid) => Some(decimal(pid as nat)),
                None => None,
            },
        );
        assert(argument_texts(target_arguments(Some(target), given)) == read);
    }
}

proof fn lemma_timing_texts(args: Args, message_file: Seq<char>)
    ensures
        argument_texts(timing_arguments(args, message_file)) == seq![
            "--worker"@,
            "--message-file"@,
            message_file,
            "--wait"@,
            decimal(args.wait as nat),
            "--settle"@,
            decimal(args.settle as nat),
            "--grace"@,
            decimal(args.grace as nat),
            "--window-timeout"@,
            decimal(args.window_timeout as nat),
            "--heads-up"@,
            decimal(args.heads_up as nat),
        ],
{
}

proof fn lemma_plan_texts(plan: PlanView)
    ensures
        argument_texts(plan_arguments(plan)) == seq![
            "--mode"@,
            match plan.mode {
                EditorMode::Normal => "normal"@,
                EditorMode::Vim => "vim"@,
                EditorMode::Helix => "helix"@,
            },
            "--toggle-keys"@,
            plan.toggle,
            "--paste-keys"@,
            plan.paste,
            if plan.ctrl_enter {
                "--send-ctrl-enter"@
            } else {
                "--send-enter"@
            },
        ],
{
}

} // verus!
