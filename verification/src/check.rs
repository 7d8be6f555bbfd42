//! Diagnostics: what a run would find and use, without side effects.
use vstd::prelude::*;
use vstd::utf8::is_ascii_chars;

use crate::args::{plan_inject, plan_of, Args, InjectPlan, PlanView};
use crate::binding::{binding_codes, codes_of, parse_binding};
use crate::config::{config_dir, config_dir_of, mode_name, text_or_empty, without_comments};
use crate::inject::{send_key_name, send_key_text};
use crate::log::{log_path, Log};
use crate::process::{
    pids_named, resolution, resolution_of, resolve_target, zed_exe, ProcessInfo, Target, TargetView,
};
use crate::stop::bool_text;
use crate::text::{
    ascii_case, decimal, list_text, owned, push_decimal, push_list, some_text, texts, unicode_case,
};
use crate::window::{
    prefer_titled, visible_of, windows, windows_of, DesktopWindow, Window, WindowView,
};

verus! {

/// What a check looks at.
#[derive(Debug, PartialEq, Eq)]
pub struct Survey {
    /// The path of this executable, where it is known.
    pub own_exe: Option<String>,
    /// Zed's executable on disk, where it was found.
    pub zed_exe: Option<String>,
    pub procs: Vec<ProcessInfo>,
    pub desktop: Vec<DesktopWindow>,
    /// The PID of this process.
    pub pid: u32,
    /// The value of `%APPDATA%`.
    pub appdata: Option<String>,
    /// The contents of `settings.json`.
    pub settings: Option<String>,
    /// The contents of `keymap.json`.
    pub keymap: Option<String>,
    /// The directory of this executable, where it is known.
    pub exe_dir: Option<String>,
}

// ---------------------------------------------------------------------------
// lines
// ---------------------------------------------------------------------------

/// The line on the executable.
pub open spec fn exe_line(exe: Option<Seq<char>>) -> Seq<char> {
    match exe {
        Some(exe) => "  zed exe    : "@ + exe,
        None => "  zed exe    : NOT FOUND"@,
    }
}

/// The lines on the target of a restart.
pub open spec fn running_lines(target: Result<Option<TargetView>, Seq<char>>) -> Seq<Seq<char>> {
    match target {
        Ok(Some(target)) => seq![
            "  zed running: "@ + target.exe,
            match target.pid {
                Some(pid) => "  zed target : pid "@ + decimal(pid as nat),
                None => "  zed target : (stop nothing)"@,
            },
        ],
        Ok(None) => seq!["  zed running: (none)"@],
        Err(e) => seq!["  zed running: AMBIGUOUS — "@ + e],
    }
}

/// The line on a window.
pub open spec fn window_line(w: WindowView) -> Seq<char> {
    "    pid="@ + decimal(w.pid as nat) + " hung="@ + bool_text(w.hung) + " title='"@ + w.title
        + "'"@
}

/// The lines on the windows.
pub open spec fn window_lines(windows: Seq<WindowView>) -> Seq<Seq<char>> {
    seq!["  zed windows: "@ + decimal(windows.len())] + Seq::new(
        windows.len(),
        |i: int| window_line(windows[i]),
    )
}

/// The codes of a binding in a report: `Some([162, 86])` or `None`.
pub open spec fn codes_text(codes: Option<Seq<u16>>) -> Seq<char> {
    match codes {
        Some(codes) => "Some("@ + list_text(codes) + ")"@,
        None => "None"@,
    }
}

/// The line on a binding.
pub open spec fn binding_line(
    label: Seq<char>,
    binding: Seq<char>,
    case: spec_fn(Seq<char>) -> Seq<char>,
) -> Seq<char> {
    label + binding + " ("@ + codes_text(binding_codes(binding, case)) + ") (effective)"@
}

/// The lines on the plan.
pub open spec fn effective_lines(
    plan: PlanView,
    case: spec_fn(Seq<char>) -> Seq<char>,
) -> Seq<Seq<char>> {
    seq![
        "  edit mode  : "@ + mode_name(plan.mode),
        "  send key   : "@ + send_key_name(plan.ctrl_enter) + " (effective)"@,
        binding_line("  toggle key : "@, plan.toggle, case),
        binding_line("  paste key  : "@, plan.paste, case),
    ]
}

/// The plan of the command line and the configuration.
pub open spec fn check_plan(args: Args, survey: Survey) -> PlanView {
    plan_of(
        args,
        without_comments(text_or_empty(survey.settings)),
        without_comments(text_or_empty(survey.keymap)),
    )
}

/// All lines of a check.
pub open spec fn check_lines(
    args: Args,
    survey: Survey,
    case: spec_fn(Seq<char>) -> Seq<char>,
) -> Seq<Seq<char>> {
    let first = seq![
        "zed-reload check"@,
        "  self       : "@ + text_or_empty(survey.own_exe),
        exe_line(some_text(survey.zed_exe)),
    ];
    let running = running_lines(
        resolution(some_text(args.zed_path), args.zed_pid, survey.procs@, survey.pid),
    );
    let found = window_lines(
        prefer_titled(visible_of(survey.desktop@, pids_named(survey.procs@, zed_exe()))),
    );
    let dir = config_dir_of(some_text(args.config_dir), some_text(survey.appdata));
    (first + running + found).push("  config dir : "@ + dir) + effective_lines(
        check_plan(args, survey),
        case,
    ).push("  log file   : "@ + log_path(some_text(survey.exe_dir)))
}

// ---------------------------------------------------------------------------
// the check
// ---------------------------------------------------------------------------

fn push_line(lines: &mut Vec<String>, line: String)
    ensures
        texts(final(lines)@) == texts(old(lines)@).push(line@),
{
    lines.push(line);
    assert(texts(lines@) == texts(old(lines)@).push(line@));
}

fn push_with(lines: &mut Vec<String>, label: &str, value: &str)
    ensures
        texts(final(lines)@) == texts(old(lines)@).push(label@ + value@),
{
    let mut line = owned(label);
    line.append(value);
    push_line(lines, line);
}

fn push_running(lines: &mut Vec<String>, target: &Result<Option<Target>, String>)
    ensures
        texts(final(lines)@) == texts(old(lines)@) + running_lines(resolution_of(*target)),
{
    match target {
        Ok(Some(target)) => {
            push_with(lines, "  zed running: ", target.exe.as_str());
            match target.pid {
                Some(pid) => {
                    let mut line = owned("  zed target : pid ");
                    push_decimal(&mut line, pid as u128);
                    push_line(lines, line);
                },
                None => {
                    push_line(lines, owned("  zed target : (stop nothing)"));
                },
            }
        },
        Ok(None) => {
            push_line(lines, owned("  zed running: (none)"));
        },
        Err(e) => {
            push_with(lines, "  zed running: AMBIGUOUS — ", e.as_str());
        },
    }
    assert(texts(lines@) == texts(old(lines)@) + running_lines(resolution_of(*target)));
}

fn push_windows(lines: &mut Vec<String>, found: &Vec<Window>)
    ensures
        texts(final(lines)@) == texts(old(lines)@) + window_lines(windows_of(found@)),
{
    let ghost views = windows_of(found@);
    let ghost all = Seq::new(views.len(), |i: int| window_line(views[i]));
    let ghost before = texts(lines@);
    let ghost count = "  zed windows: "@ + decimal(views.len());
    let mut line = owned("  zed windows: ");
    push_decimal(&mut line, found.len() as u128);
    push_line(lines, line);
    assert(texts(lines@) == before + (seq![count] + all.take(0)));
    for i in 0..found.len()
        invariant
            views == windows_of(found@),
            all == Seq::new(views.len(), |i: int| window_line(views[i])),
            texts(lines@) == before + (seq![count] + all.take(i as int)),
    {
        let w = &found[i];
        let mut line = owned("    pid=");
        push_decimal(&mut line, w.pid as u128);
        line.append(" hung=");
        if w.hung {
            line.append("true");
        } else {
            line.append("false");
        }
        line.append(" title='");
        line.append(w.title.as_str());
        line.append("'");
        assert(line@ == all[i as int]);
        push_line(lines, line);
        assert(texts(lines@) == before + (seq![count] + all.take(i + 1)));
    }
    assert(all.take(found@.len() as int) == all);
}

fn make_binding_line(label: &str, binding: &str) -> (line: String)
    ensures
        line@ == binding_line(label@, binding@, unicode_case()),
        is_ascii_chars(binding@) ==> line@ == binding_line(label@, binding@, ascii_case()),
{
    let mut line = owned(label);
    line.append(binding);
    line.append(" (");
    let codes = parse_binding(binding);
    let ghost parsed = codes_of(codes);
    let mut inner = String::new();
    match &codes {
        Some(codes) => {
            inner.append("Some(");
            push_list(&mut inner, codes);
            inner.append(")");
        },
        None => {
            inner.append("None");
        },
    }
    assert(inner@ == codes_text(parsed));
    line.append(inner.as_str());
    line.append(") (effective)");
    line
}

fn push_effective(lines: &mut Vec<String>, plan: &InjectPlan)
    ensures
        texts(final(lines)@) == texts(old(lines)@) + effective_lines(plan@, unicode_case()),
        is_ascii_chars(plan@.toggle) && is_ascii_chars(plan@.paste) ==> texts(final(lines)@)
            == texts(old(lines)@) + effective_lines(plan@, ascii_case()),
{
    let mode = plan.mode.name();
    push_with(lines, "  edit mode  : ", mode.as_str());
    let mut line = owned("  send key   : ");
    let key = send_key_text(plan.ctrl_enter);
    line.append(key.as_str());
    line.append(" (effective)");
    push_line(lines, line);
    push_line(lines, make_binding_line("  toggle key : ", plan.toggle_binding.as_str()));
    push_line(lines, make_binding_line("  paste key  : ", plan.paste_binding.as_str()));
    assert(texts(lines@) == texts(old(lines)@) + effective_lines(plan@, unicode_case()));
    assert(is_ascii_chars(plan@.toggle) && is_ascii_chars(plan@.paste) ==> texts(lines@) == texts(
        old(lines)@,
    ) + effective_lines(plan@, ascii_case()));
}

/// What the command line and the survey give: the lines to print and the exit
/// code, which is 0 if Zed's executable was found, else 4.
pub fn run_check(args: &Args, survey: &Survey) -> (r: (Vec<String>, i32))
    ensures
        texts(r.0@) == check_lines(*args, *survey, unicode_case()),
        is_ascii_chars(check_plan(*args, *survey).toggle) && is_ascii_chars(
            check_plan(*args, *survey).paste,
        ) ==> texts(r.0@) == check_lines(*args, *survey, ascii_case()),
        r.1 == if survey.zed_exe is Some {
            0i32
        } else {
            4i32
        },
{
    let mut lines: Vec<String> = Vec::new();
    let ghost none = Seq::<Seq<char>>::empty();
    assert(texts(lines@) == none);
    push_line(&mut lines, owned("zed-reload check"));
    match &survey.own_exe {
        Some(exe) => {
            push_with(&mut lines, "  self       : ", exe.as_str());
        },
        None => {
            push_with(&mut lines, "  self       : ", "");
            proof {
                reveal_strlit("");
                assert(""@ == Seq::<char>::empty());
            }
        },
    }
    match &survey.zed_exe {
        Some(exe) => {
            push_with(&mut lines, "  zed exe    : ", exe.as_str());
        },
        None => {
            push_line(&mut lines, owned("  zed exe    : NOT FOUND"));
        },
    }
    assert(texts(lines@) == seq![
        "zed-reload check"@,
        "  self       : "@ + text_or_empty(survey.own_exe),
        exe_line(some_text(survey.zed_exe)),
    ]);
    let target = resolve_target(&args.zed_path, args.zed_pid, &survey.procs, survey.pid);
    push_running(&mut lines, &target);
    let found = windows(&survey.procs, &survey.desktop);
    push_windows(&mut lines, &found);
    let dir = config_dir(&args.config_dir, &survey.appdata);
    push_with(&mut lines, "  config dir : ", dir.as_str());
    let plan = plan_inject(args, &survey.appdata, &survey.settings, &survey.keymap);
    let ghost head = texts(lines@);
    push_effective(&mut lines, &plan);
    let log = Log::new(&survey.exe_dir, "check", survey.pid);
    let ghost file = "  log file   : "@ + log_path(some_text(survey.exe_dir));
    push_with(&mut lines, "  log file   : ", log.path().as_str());
    assert(texts(lines@) == head + effective_lines(plan@, unicode_case()).push(file));
    assert(is_ascii_chars(plan@.toggle) && is_ascii_chars(plan@.paste) ==> texts(lines@) == head
        + effective_lines(plan@, ascii_case()).push(file));
    let code: i32 = if survey.zed_exe.is_some() {
        0
    } else {
        4
    };
    (lines, code)
}

// ---------------------------------------------------------------------------
// laws
// ---------------------------------------------------------------------------

/// A check shows this executable and Zed's on disk.
pub proof fn law_check_shows_the_executables(
    args: Args,
    survey: Survey,
    case: spec_fn(Seq<char>) -> Seq<char>,
)
    ensures
        check_lines(args, survey, case)[0] == "zed-reload check"@,
        survey.own_exe matches Some(exe) ==> check_lines(args, survey, case)[1]
            == "  self       : "@ + exe@,
        survey.own_exe is None ==> check_lines(args, survey, case)[1] == "  self       : "@,
        survey.zed_exe matches Some(exe) ==> check_lines(args, survey, case)[2]
            == "  zed exe    : "@ + exe@,
        survey.zed_exe is None ==> check_lines(args, survey, case)[2]
            == "  zed exe    : NOT FOUND"@,
{
    assert("  self       : "@ + Seq::<char>::empty() == "  self       : "@);
}

/// A check shows what a restart would stop and start: the executable and the PID,
/// or that nothing is running, or why the choice is refused.
pub proof fn law_check_shows_the_target(
    args: Args,
    survey: Survey,
    case: spec_fn(Seq<char>) -> Seq<char>,
)
    ensures
        ({
            let lines = check_lines(args, survey, case);
            match resolution(some_text(args.zed_path), args.zed_pid, survey.procs@, survey.pid) {
                Ok(Some(target)) => {
                    &&& lines[3] == "  zed running: "@ + target.exe
                    &&& target.pid matches Some(pid) ==> lines[4] == "  zed target : pid "@
                        + decimal(pid as nat)
                    &&& target.pid is None ==> lines[4] == "  zed target : (stop nothing)"@
                },
                Ok(None) => lines[3] == "  zed running: (none)"@,
                Err(e) => lines[3] == "  zed running: AMBIGUOUS — "@ + e,
            }
        }),
{
}

/// A check counts the windows of all Zeds and shows each of them, in order.
pub proof fn law_check_shows_the_windows(
    args: Args,
    survey: Survey,
    case: spec_fn(Seq<char>) -> Seq<char>,
    i: int,
)
    ensures
        ({
            let lines = check_lines(args, survey, case);
            let windows = prefer_titled(
                visible_of(survey.desktop@, pids_named(survey.procs@, "zed.exe"@)),
            );
            let at = match resolution(
                some_text(args.zed_path),
                args.zed_pid,
                survey.procs@,
                survey.pid,
            ) {
                Ok(Some(_)) => 5int,
                _ => 4int,
            };
            &&& lines.len() == at + windows.len() + 7
            &&& lines[at] == "  zed windows: "@ + decimal(windows.len())
            &&& 0 <= i < windows.len() ==> lines[at + 1 + i] == "    pid="@ + decimal(
                windows[i].pid as nat,
            ) + " hung="@ + (if windows[i].hung {
                "true"@
            } else {
                "false"@
            }) + " title='"@ + windows[i].title + "'"@
        }),
{
}

/// A check ends with the directory of the configuration, the plan that a run
/// would follow and the log file.
pub proof fn law_check_shows_the_plan(
    args: Args,
    survey: Survey,
    case: spec_fn(Seq<char>) -> Seq<char>,
)
    ensures
        ({
            let lines = check_lines(args, survey, case);
            let n = lines.len() as int;
            let plan = plan_of(
                args,
                without_comments(text_or_empty(survey.settings)),
                without_comments(text_or_empty(survey.keymap)),
            );
            &&& n >= 6
            &&& lines[n - 6] == "  config dir : "@ + config_dir_of(
                some_text(args.config_dir),
                some_text(survey.appdata),
            )
            &&& lines[n - 5] == "  edit mode  : "@ + mode_name(plan.mode)
            &&& lines[n - 4] == "  send key   : "@ + (if plan.ctrl_enter {
                "ctrl+enter"@
            } else {
                "enter"@
            }) + " (effective)"@
            &&& lines[n - 3] == "  toggle key : "@ + plan.toggle + " ("@ + codes_text(
                binding_codes(plan.toggle, case),
            ) + ") (effective)"@
            &&& lines[n - 2] == "  paste key  : "@ + plan.paste + " ("@ + codes_text(
                binding_codes(plan.paste, case),
            ) + ") (effective)"@
            &&& lines[n - 1] == "  log file   : "@ + log_path(some_text(survey.exe_dir))
        }),
{
}

/// The codes of a binding are shown as a list, or as none.
pub proof fn law_codes_text(codes: Seq<u16>)
    ensures
        codes_text(Some(codes)) == "Some("@ + list_text(codes) + ")"@,
        codes_text(None) == "None"@,
{
}

} // verus!
