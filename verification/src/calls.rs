//! Calls of the Windows API that come in a row: their order, their texts, and
//! what a failed one is reported as.
use vstd::prelude::*;

use crate::text::{decimal, hex, owned, push_decimal, push_hex};
use crate::wide::{
    cut, decode, encode, law_wide_round_trip, no_nul, to_wide, to_wide_cut, until_nul,
};

verus! {

/// The report of a failed call with the thread's last error.
pub open spec fn last_error_text(call: Seq<char>, code: u32) -> Seq<char> {
    call + " failed, GLE="@ + decimal(code as nat)
}

/// The report of a failed call with the thread's last error.
pub fn last_error(call: &str, code: u32) -> (s: String)
    ensures
        s@ == last_error_text(call@, code),
{
    let mut s = owned(call);
    s.append(" failed, GLE=");
    push_decimal(&mut s, code as u128);
    s
}

/// The calls that write a shortcut, in their order.
#[derive(Clone, Copy, Debug, PartialEq, Eq, Structural)]
pub enum ShortcutCall {
    CoInitializeEx,
    CoCreateInstance,
    SetPath,
    SetArguments,
    SetWorkingDirectory,
    QueryInterface,
    Save,
}

/// The name of a call in a report.
pub open spec fn shortcut_call_name(call: ShortcutCall) -> Seq<char> {
    match call {
        ShortcutCall::CoInitializeEx => "CoInitializeEx"@,
        ShortcutCall::CoCreateInstance => "CoCreateInstance(ShellLink)"@,
        ShortcutCall::SetPath => "IShellLink::SetPath"@,
        ShortcutCall::SetArguments => "IShellLink::SetArguments"@,
        ShortcutCall::SetWorkingDirectory => "IShellLink::SetWorkingDirectory"@,
        ShortcutCall::QueryInterface => "QueryInterface(IPersistFile)"@,
        ShortcutCall::Save => "IPersistFile::Save"@,
    }
}

/// The call succeeded with this result: 0, or 1 where COM was initialized
/// before.
pub open spec fn shortcut_call_ok(call: ShortcutCall, hresult: i32) -> bool {
    hresult == 0 || (hresult == 1 && call == ShortcutCall::CoInitializeEx)
}

/// A result as an unsigned number of 32 bits.
pub open spec fn unsigned(hresult: i32) -> nat {
    if hresult >= 0 {
        hresult as nat
    } else {
        (hresult + 0x1_0000_0000) as nat
    }
}

/// The report of a failed call that writes a shortcut.
pub open spec fn hresult_text(call: ShortcutCall, hresult: i32) -> Seq<char> {
    shortcut_call_name(call) + " failed, HRESULT=0x"@ + hex(unsigned(hresult), 8)
}

/// The call that follows, once `call` has succeeded.
pub open spec fn shortcut_next(call: ShortcutCall) -> Option<ShortcutCall> {
    match call {
        ShortcutCall::CoInitializeEx => Some(ShortcutCall::CoCreateInstance),
        ShortcutCall::CoCreateInstance => Some(ShortcutCall::SetPath),
        ShortcutCall::SetPath => Some(ShortcutCall::SetArguments),
        ShortcutCall::SetArguments => Some(ShortcutCall::SetWorkingDirectory),
        ShortcutCall::SetWorkingDirectory => Some(ShortcutCall::QueryInterface),
        ShortcutCall::QueryInterface => Some(ShortcutCall::Save),
        ShortcutCall::Save => None,
    }
}

/// A shortcut to write.
#[derive(Debug, PartialEq, Eq)]
pub struct Shortcut {
    /// What it opens.
    pub exe: String,
    /// The arguments.
    pub args: String,
    /// The working directory.
    pub workdir: String,
    /// The path of the shortcut itself.
    pub path: String,
}

/// The text that a call takes, in UTF-16 with its NUL; empty for a call that
/// takes none.
pub open spec fn shortcut_argument(shortcut: Shortcut, call: ShortcutCall) -> Seq<u16> {
    match call {
        ShortcutCall::SetPath => encode(shortcut.exe@).push(0),
        ShortcutCall::SetArguments => encode(shortcut.args@).push(0),
        ShortcutCall::SetWorkingDirectory => encode(shortcut.workdir@).push(0),
        ShortcutCall::Save => encode(shortcut.path@).push(0),
        _ => Seq::empty(),
    }
}

/// What follows on a call that writes a shortcut.
#[derive(Debug, PartialEq, Eq)]
pub struct ShortcutStep {
    /// The call to make next; `None` when the shortcut is written; or why it
    /// could not be written.
    pub next: Result<Option<ShortcutCall>, String>,
    /// The text that the next call takes.
    pub argument: Vec<u16>,
    /// The file interface is released.
    pub release_file: bool,
    /// The link interface is released.
    pub release_link: bool,
    /// COM is uninitialized.
    pub uninitialize: bool,
}

fn make_argument(shortcut: &Shortcut, call: ShortcutCall) -> (units: Vec<u16>)
    ensures
        units@ == shortcut_argument(*shortcut, call),
{
    match call {
        ShortcutCall::SetPath => to_wide(shortcut.exe.as_str()),
        ShortcutCall::SetArguments => to_wide(shortcut.args.as_str()),
        ShortcutCall::SetWorkingDirectory => to_wide(shortcut.workdir.as_str()),
        ShortcutCall::Save => to_wide(shortcut.path.as_str()),
        _ => Vec::new(),
    }
}

fn following(call: ShortcutCall) -> (next: Option<ShortcutCall>)
    ensures
        next == shortcut_next(call),
{
    match call {
        ShortcutCall::CoInitializeEx => Some(ShortcutCall::CoCreateInstance),
        ShortcutCall::CoCreateInstance => Some(ShortcutCall::SetPath),
        ShortcutCall::SetPath => Some(ShortcutCall::SetArguments),
        ShortcutCall::SetArguments => Some(ShortcutCall::SetWorkingDirectory),
        ShortcutCall::SetWorkingDirectory => Some(ShortcutCall::QueryInterface),
        ShortcutCall::QueryInterface => Some(ShortcutCall::Save),
        ShortcutCall::Save => None,
    }
}

fn report_hresult(call: ShortcutCall, hresult: i32) -> (e: String)
    ensures
        e@ == hresult_text(call, hresult),
{
    let mut e = match call {
        ShortcutCall::CoInitializeEx => owned("CoInitializeEx"),
        ShortcutCall::CoCreateInstance => owned("CoCreateInstance(ShellLink)"),
        ShortcutCall::SetPath => owned("IShellLink::SetPath"),
        ShortcutCall::SetArguments => owned("IShellLink::SetArguments"),
        ShortcutCall::SetWorkingDirectory => owned("IShellLink::SetWorkingDirectory"),
        ShortcutCall::QueryInterface => owned("QueryInterface(IPersistFile)"),
        ShortcutCall::Save => owned("IPersistFile::Save"),
    };
    e.append(" failed, HRESULT=0x");
    let code: u32 = if hresult >= 0 {
        hresult as u32
    } else {
        (hresult as i64 + 0x1_0000_0000) as u32
    };
    push_hex(&mut e, code, 8);
    e
}

/// Writes a shortcut: one step, from a call and its result to what follows. It
/// starts with the result of `CoInitializeEx`. After a failure no further call
/// is made; COM is uninitialized at the end of every run that initialized it.
pub fn write_shortcut(shortcut: &Shortcut, call: ShortcutCall, hresult: i32) -> (r: ShortcutStep)
    ensures
        match r.next {
            Ok(next) => shortcut_call_ok(call, hresult) && next == shortcut_next(call),
            Err(e) => !shortcut_call_ok(call, hresult) && e@ == hresult_text(call, hresult),
        },
        r.argument@ == (match r.next {
            Ok(Some(next)) => shortcut_argument(*shortcut, next),
            _ => Seq::empty(),
        }),
        r.release_file == (call == ShortcutCall::Save),
        r.release_link == (r.next == Ok::<Option<ShortcutCall>, String>(None)),
        r.uninitialize == (call != ShortcutCall::CoInitializeEx && !(r.next matches Ok(Some(_)))),
{
    let ok = hresult == 0 || (hresult == 1 && call == ShortcutCall::CoInitializeEx);
    let initialized = call != ShortcutCall::CoInitializeEx;
    let release_file = call == ShortcutCall::Save;
    if !ok {
        return ShortcutStep {
            next: Err(report_hresult(call, hresult)),
            argument: Vec::new(),
            release_file,
            release_link: false,
            uninitialize: initialized,
        };
    }
    match following(call) {
        Some(next) => ShortcutStep {
            next: Ok(Some(next)),
            argument: make_argument(shortcut, next),
            release_file,
            release_link: false,
            uninitialize: false,
        },
        None => ShortcutStep {
            next: Ok(None),
            argument: Vec::new(),
            release_file,
            release_link: true,
            uninitialize: initialized,
        },
    }
}

/// The calls that show a notification, in their order.
#[derive(Clone, Copy, Debug, PartialEq, Eq, Structural)]
pub enum NotifyCall {
    RegisterClass,
    CreateWindow,
    NotifyIcon,
}

/// The name of a call in a report.
pub open spec fn notify_call_name(call: NotifyCall) -> Seq<char> {
    match call {
        NotifyCall::RegisterClass => "RegisterClassExW"@,
        NotifyCall::CreateWindow => "CreateWindowExW"@,
        NotifyCall::NotifyIcon => "Shell_NotifyIconW"@,
    }
}

/// The call that follows, once `call` has succeeded.
pub open spec fn notify_next(call: NotifyCall) -> Option<NotifyCall> {
    match call {
        NotifyCall::RegisterClass => Some(NotifyCall::CreateWindow),
        NotifyCall::CreateWindow => Some(NotifyCall::NotifyIcon),
        NotifyCall::NotifyIcon => None,
    }
}

/// The units that the title of a notification holds, without its NUL.
pub const TITLE_UNITS: usize = 63;

/// The units that the text of a notification holds, without its NUL.
pub const INFO_UNITS: usize = 255;

/// What follows on a call that shows a notification.
#[derive(Debug, PartialEq, Eq)]
pub struct NotifyStep {
    /// The call to make next; `None` when the notification is shown; or why it
    /// could not be shown.
    pub next: Result<Option<NotifyCall>, String>,
    /// The title as the field of the next call holds it; empty for a call that
    /// takes none.
    pub title: Vec<u16>,
    /// The text as the field of the next call holds it; empty for a call that
    /// takes none.
    pub info: Vec<u16>,
}

fn plain_step(next: Result<Option<NotifyCall>, String>) -> (r: NotifyStep)
    ensures
        r.next == next,
        r.title@ == Seq::<u16>::empty(),
        r.info@ == Seq::<u16>::empty(),
{
    NotifyStep { next, title: Vec::new(), info: Vec::new() }
}

/// Shows a notification: one step, from a call, whether it succeeded and the
/// thread's last error to the call that follows, or `None` at the end. It starts
/// with the result of `RegisterClassExW`. `Shell_NotifyIconW` takes the title
/// and the text, cut to the sizes of their fields, each with a NUL at the end.
pub fn notify_balloon(title: &str, text: &str, call: NotifyCall, ok: bool, code: u32) -> (r:
    NotifyStep)
    ensures
        match r.next {
            Ok(next) => ok && next == notify_next(call),
            Err(e) => !ok && e@ == last_error_text(notify_call_name(call), code),
        },
        r.title@ == (if ok && call == NotifyCall::CreateWindow {
            cut(title@, TITLE_UNITS as nat)
        } else {
            Seq::empty()
        }),
        r.info@ == (if ok && call == NotifyCall::CreateWindow {
            cut(text@, INFO_UNITS as nat)
        } else {
            Seq::empty()
        }),
        r.title@.len() <= TITLE_UNITS + 1,
        r.info@.len() <= INFO_UNITS + 1,
{
    if ok {
        match call {
            NotifyCall::RegisterClass => plain_step(Ok(Some(NotifyCall::CreateWindow))),
            NotifyCall::CreateWindow => NotifyStep {
                next: Ok(Some(NotifyCall::NotifyIcon)),
                title: to_wide_cut(title, TITLE_UNITS),
                info: to_wide_cut(text, INFO_UNITS),
            },
            NotifyCall::NotifyIcon => plain_step(Ok(None)),
        }
    } else {
        plain_step(
            Err(
                match call {
                    NotifyCall::RegisterClass => last_error("RegisterClassExW", code),
                    NotifyCall::CreateWindow => last_error("CreateWindowExW", code),
                    NotifyCall::NotifyIcon => last_error("Shell_NotifyIconW", code),
                },
            ),
        )
    }
}

/// The outcome of starting a process: its PID, or a report with the thread's
/// last error.
pub fn spawn(ok: bool, pid: u32, code: u32) -> (r: Result<u32, String>)
    ensures
        match r {
            Ok(started) => ok && started == pid,
            Err(e) => !ok && e@ == last_error_text("CreateProcessW"@, code),
        },
{
    if ok {
        Ok(pid)
    } else {
        Err(last_error("CreateProcessW", code))
    }
}

/// A 64-bit time made of its two halves.
pub open spec fn filetime(high: u32, low: u32) -> int {
    high * 0x1_0000_0000 + low
}

/// The ticks of a file time, which the API gives in two halves.
pub fn filetime_ticks(high: u32, low: u32) -> (ticks: u64)
    ensures
        ticks == filetime(high, low),
{
    high as u64 * 0x1_0000_0000 + low as u64
}

// ---------------------------------------------------------------------------
// laws
// ---------------------------------------------------------------------------

/// A shortcut is written by seven calls, each after the one before: COM is
/// initialized, the link is made and gets its path, arguments and directory, its
/// file is asked for and saved.
pub proof fn law_shortcut_order()
    ensures
        shortcut_next(ShortcutCall::CoInitializeEx) == Some(ShortcutCall::CoCreateInstance),
        shortcut_next(ShortcutCall::CoCreateInstance) == Some(ShortcutCall::SetPath),
        shortcut_next(ShortcutCall::SetPath) == Some(ShortcutCall::SetArguments),
        shortcut_next(ShortcutCall::SetArguments) == Some(ShortcutCall::SetWorkingDirectory),
        shortcut_next(ShortcutCall::SetWorkingDirectory) == Some(ShortcutCall::QueryInterface),
        shortcut_next(ShortcutCall::QueryInterface) == Some(ShortcutCall::Save),
        shortcut_next(ShortcutCall::Save) is None,
{
}

/// A shortcut holds what it was made of: each call takes its own text, and that
/// text can be read back.
pub proof fn law_shortcut_texts(shortcut: Shortcut)
    requires
        no_nul(shortcut.exe@),
        no_nul(shortcut.args@),
        no_nul(shortcut.workdir@),
        no_nul(shortcut.path@),
    ensures
        decode(until_nul(shortcut_argument(shortcut, ShortcutCall::SetPath))) == shortcut.exe@,
        decode(until_nul(shortcut_argument(shortcut, ShortcutCall::SetArguments)))
            == shortcut.args@,
        decode(until_nul(shortcut_argument(shortcut, ShortcutCall::SetWorkingDirectory)))
            == shortcut.workdir@,
        decode(until_nul(shortcut_argument(shortcut, ShortcutCall::Save))) == shortcut.path@,
        shortcut_argument(shortcut, ShortcutCall::CoInitializeEx) == Seq::<u16>::empty(),
        shortcut_argument(shortcut, ShortcutCall::CoCreateInstance) == Seq::<u16>::empty(),
        shortcut_argument(shortcut, ShortcutCall::QueryInterface) == Seq::<u16>::empty(),
{
    let none = Seq::<u16>::empty();
    law_wide_round_trip(shortcut.exe@, none);
    law_wide_round_trip(shortcut.args@, none);
    law_wide_round_trip(shortcut.workdir@, none);
    law_wide_round_trip(shortcut.path@, none);
    assert(encode(shortcut.exe@).push(0) + none == encode(shortcut.exe@).push(0));
    assert(encode(shortcut.args@).push(0) + none == encode(shortcut.args@).push(0));
    assert(encode(shortcut.workdir@).push(0) + none == encode(shortcut.workdir@).push(0));
    assert(encode(shortcut.path@).push(0) + none == encode(shortcut.path@).push(0));
}

/// A call has succeeded if it gives zero; COM may also have been initialized
/// before, which is one.
pub proof fn law_success_of_a_call(call: ShortcutCall, hresult: i32)
    ensures
        shortcut_call_ok(call, 0),
        shortcut_call_ok(ShortcutCall::CoInitializeEx, 1),
        hresult != 0 && hresult != 1 ==> !shortcut_call_ok(call, hresult),
        hresult != 0 && call != ShortcutCall::CoInitializeEx ==> !shortcut_call_ok(call, hresult),
{
}

/// A result keeps its 32 bits as an unsigned number.
pub proof fn law_unsigned(hresult: i32)
    ensures
        unsigned(hresult) < 0x1_0000_0000,
        (unsigned(hresult) - hresult) % 0x1_0000_0000 == 0,
{
}

/// The report of a failed call that writes a shortcut begins with the name of the
/// call and ends with the eight digits of its result.
pub proof fn law_shortcut_report(call: ShortcutCall, hresult: i32)
    ensures
        hresult_text(call, hresult) == (match call {
            ShortcutCall::CoInitializeEx => "CoInitializeEx"@,
            ShortcutCall::CoCreateInstance => "CoCreateInstance(ShellLink)"@,
            ShortcutCall::SetPath => "IShellLink::SetPath"@,
            ShortcutCall::SetArguments => "IShellLink::SetArguments"@,
            ShortcutCall::SetWorkingDirectory => "IShellLink::SetWorkingDirectory"@,
            ShortcutCall::QueryInterface => "QueryInterface(IPersistFile)"@,
            ShortcutCall::Save => "IPersistFile::Save"@,
        }) + " failed, HRESULT=0x"@ + hex(unsigned(hresult), 8),
{
}

/// A notification is shown by three calls: the class is registered, its window
/// made, the icon added.
pub proof fn law_notify_order()
    ensures
        notify_next(NotifyCall::RegisterClass) == Some(NotifyCall::CreateWindow),
        notify_next(NotifyCall::CreateWindow) == Some(NotifyCall::NotifyIcon),
        notify_next(NotifyCall::NotifyIcon) is None,
{
}

/// The report of a failed call gives its name and the last error.
pub proof fn law_error_report(call: Seq<char>, code: u32)
    ensures
        last_error_text(call, code) == call + " failed, GLE="@ + decimal(code as nat),
        notify_call_name(NotifyCall::RegisterClass) == "RegisterClassExW"@,
        notify_call_name(NotifyCall::CreateWindow) == "CreateWindowExW"@,
        notify_call_name(NotifyCall::NotifyIcon) == "Shell_NotifyIconW"@,
{
}

/// A time is made of its halves: it gives them back, and later halves make a
/// later time.
pub proof fn law_filetime(high: u32, low: u32)
    ensures
        filetime(high, low) / 0x1_0000_0000 == high,
        filetime(high, low) % 0x1_0000_0000 == low,
{
}

/// The fields of a notification hold 63 and 255 code units besides the NUL.
pub proof fn law_notification_sizes()
    ensures
        TITLE_UNITS == 63,
        INFO_UNITS == 255,
{
}

} // verus!
