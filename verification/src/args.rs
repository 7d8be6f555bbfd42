//! The command line's values, and the keys that they and the user's
//! configuration resolve to.
use vstd::prelude::*;
use vstd::utf8::is_ascii_chars;

use crate::binding::{
    binding_to_vk, codes_or, law_binding_is_modifiers_and_key, lemma_default_paste,
    lemma_default_toggle,
};
use crate::config::{
    load_config, mode_of, mode_paste, paste_binding_for, paste_of, read_config, sends_with_ctrl,
    text_or_empty, toggle_of, without_comments, EditorMode,
};
use crate::text::{
    ascii_case, decimal, join, joined, law_join, owned, push_decimal, some_text, texts,
    unicode_case,
};

verus! {

/// The values of the command line.
#[derive(Debug, PartialEq, Eq)]
pub struct Args {
    /// Print diagnostics and exit.
    pub check: bool,
    /// This process is the detached worker.
    pub worker: bool,
    /// Write how this process was started to a file and exit.
    pub dump_startup: Option<String>,
    /// Path to the temporary message file.
    pub message_file: Option<String>,
    /// Seconds to wait before acting.
    pub wait: u64,
    /// Seconds to wait after the Zed window appears.
    pub settle: u64,
    /// Seconds for a graceful close before the process is killed.
    pub grace: u64,
    /// Seconds to wait for the Zed window at most.
    pub window_timeout: u64,
    /// Seconds between the notification and the injection.
    pub heads_up: u64,
    /// Project path to reopen.
    pub project: Option<String>,
    /// Only target a window whose title holds this text.
    pub window_title: Option<String>,
    /// Path of the executable to start.
    pub zed_path: Option<String>,
    /// Only stop this Zed process.
    pub zed_pid: Option<u32>,
    /// Send with Enter.
    pub send_enter: bool,
    /// Send with Ctrl+Enter.
    pub send_ctrl_enter: bool,
    /// Zed's configuration directory.
    pub config_dir: Option<String>,
    /// The editor mode.
    pub mode: Option<EditorMode>,
    /// The binding of `agent::ToggleFocus`.
    pub toggle_keys: Option<String>,
    /// The paste binding.
    pub paste_keys: Option<String>,
    /// The words of the message to inject.
    pub message: Vec<String>,
}

/// Seconds to wait before acting, unless the command line says otherwise.
pub const DEFAULT_WAIT: u64 = 26;

/// Seconds to settle, unless the command line says otherwise.
pub const DEFAULT_SETTLE: u64 = 10;

/// Seconds for a graceful close, unless the command line says otherwise.
pub const DEFAULT_GRACE: u64 = 20;

/// Seconds to wait for the window, unless the command line says otherwise.
pub const DEFAULT_WINDOW_TIMEOUT: u64 = 16;

/// Seconds of warning, unless the command line says otherwise.
pub const DEFAULT_HEADS_UP: u64 = 2;

/// What the command line says on the send key: `Some(true)` is Ctrl+Enter,
/// `Some(false)` is Enter.
pub open spec fn send_key_of(args: Args) -> Option<bool> {
    if args.send_enter {
        Some(false)
    } else if args.send_ctrl_enter {
        Some(true)
    } else {
        None
    }
}

/// The message of the command line: its words joined by spaces, else
/// `continue`.
pub open spec fn message_of(args: Args) -> Seq<char> {
    if args.message@.len() == 0 {
        "continue"@
    } else {
        join(texts(args.message@), " "@)
    }
}

impl Default for Args {
    /// An empty command line.
    fn default() -> (args: Args)
        ensures
            !args.check,
            !args.worker,
            args.dump_startup is None,
            args.message_file is None,
            args.wait == DEFAULT_WAIT,
            args.settle == DEFAULT_SETTLE,
            args.grace == DEFAULT_GRACE,
            args.window_timeout == DEFAULT_WINDOW_TIMEOUT,
            args.heads_up == DEFAULT_HEADS_UP,
            args.project is None,
            args.window_title is None,
            args.zed_path is None,
            args.zed_pid is None,
            !args.send_enter,
            !args.send_ctrl_enter,
            args.config_dir is None,
            args.mode is None,
            args.toggle_keys is None,
            args.paste_keys is None,
            args.message@.len() == 0,
    {
        Args {
            check: false,
            worker: false,
            dump_startup: None,
            message_file: None,
            wait: DEFAULT_WAIT,
            settle: DEFAULT_SETTLE,
            grace: DEFAULT_GRACE,
            window_timeout: DEFAULT_WINDOW_TIMEOUT,
            heads_up: DEFAULT_HEADS_UP,
            project: None,
            window_title: None,
            zed_path: None,
            zed_pid: None,
            send_enter: false,
            send_ctrl_enter: false,
            config_dir: None,
            mode: None,
            toggle_keys: None,
            paste_keys: None,
            message: Vec::new(),
        }
    }
}

impl Args {
    /// The send key that the command line asks for: `Some(true)` is Ctrl+Enter,
    /// `Some(false)` is Enter.
    pub fn send_key(&self) -> (key: Option<bool>)
        ensures
            key == send_key_of(*self),
    {
        if self.send_enter {
            Some(false)
        } else if self.send_ctrl_enter {
            Some(true)
        } else {
            None
        }
    }

    /// The message to inject.
    pub fn message(&self) -> (message: String)
        ensures
            message@ == message_of(*self),
    {
        if self.message.len() == 0 {
            owned("continue")
        } else {
            joined(&self.message, " ")
        }
    }
}

// ---------------------------------------------------------------------------
// what a process is for
// ---------------------------------------------------------------------------

/// What a process is for.
#[derive(Clone, Copy, Debug, PartialEq, Eq, Structural)]
pub enum Role {
    /// Print diagnostics.
    Check,
    /// Restart Zed and inject the message.
    Worker,
    /// Write how this process was started to a file.
    Dump,
    /// Start the worker.
    Launcher,
}

/// The role that a command line asks for. A check has no side effects, whatever
/// else is asked for.
pub open spec fn role_of(args: Args) -> Role {
    if args.check {
        Role::Check
    } else if args.worker {
        Role::Worker
    } else if args.dump_startup is Some {
        Role::Dump
    } else {
        Role::Launcher
    }
}

impl Args {
    /// What this process is for.
    pub fn role(&self) -> (role: Role)
        ensures
            role == role_of(*self),
    {
        if self.check {
            Role::Check
        } else if self.worker {
            Role::Worker
        } else if self.dump_startup.is_some() {
            Role::Dump
        } else {
            Role::Launcher
        }
    }
}

/// How a process was started: the show state that it was given and its current
/// directory.
pub open spec fn startup_of(show: u16, cwd: Seq<char>) -> Seq<char> {
    "show="@ + decimal(show as nat) + " cwd="@ + cwd
}

/// The report on how a process was started.
pub fn startup_text(show: u16, cwd: &str) -> (s: String)
    ensures
        s@ == startup_of(show, cwd@),
{
    let mut s = owned("show=");
    push_decimal(&mut s, show as u128);
    s.append(" cwd=");
    s.append(cwd);
    s
}

// ---------------------------------------------------------------------------
// the plan
// ---------------------------------------------------------------------------

/// The fully resolved injection plan: the mode, the send key and the bindings
/// that the worker sends.
#[derive(Debug, PartialEq, Eq)]
pub struct InjectPlan {
    pub mode: EditorMode,
    pub ctrl_enter: bool,
    pub toggle_binding: String,
    pub paste_binding: String,
}

/// What a plan says.
pub ghost struct PlanView {
    pub mode: EditorMode,
    pub ctrl_enter: bool,
    pub toggle: Seq<char>,
    pub paste: Seq<char>,
}

impl View for InjectPlan {
    type V = PlanView;

    open spec fn view(&self) -> PlanView {
        PlanView {
            mode: self.mode,
            ctrl_enter: self.ctrl_enter,
            toggle: self.toggle_binding@,
            paste: self.paste_binding@,
        }
    }
}

/// The value, or `other` where there is none.
pub open spec fn value_or<T>(value: Option<T>, other: T) -> T {
    match value {
        Some(value) => value,
        None => other,
    }
}

/// The plan for a command line and the text of the configuration files without
/// comments: each flag wins over the configuration, which wins over the
/// defaults. The paste keys are those that work in the mode of the plan.
pub open spec fn plan_of(args: Args, settings: Seq<char>, keymap: Seq<char>) -> PlanView {
    let mode = value_or(args.mode, mode_of(settings));
    PlanView {
        mode,
        ctrl_enter: value_or(send_key_of(args), sends_with_ctrl(settings)),
        toggle: value_or(some_text(args.toggle_keys), toggle_of(keymap)),
        paste: value_or(
            some_text(args.paste_keys),
            value_or(paste_of(keymap, mode), mode_paste(mode)),
        ),
    }
}

fn text_or(value: &Option<String>, other: String) -> (s: String)
    ensures
        s@ == value_or(some_text(*value), other@),
{
    match value {
        Some(value) => value.clone(),
        None => other,
    }
}

/// Resolves the injection plan from the command line and the contents of
/// `settings.json` and `keymap.json`.
pub fn plan_inject(
    args: &Args,
    appdata: &Option<String>,
    settings: &Option<String>,
    keymap: &Option<String>,
) -> (plan: InjectPlan)
    ensures
        plan@ == plan_of(
            *args,
            without_comments(text_or_empty(*settings)),
            without_comments(text_or_empty(*keymap)),
        ),
{
    let config = load_config(&args.config_dir, appdata, settings, keymap);
    let mode = match args.mode {
        Some(mode) => mode,
        None => config.mode,
    };
    let ctrl_enter = match args.send_key() {
        Some(key) => key,
        None => config.ctrl_enter_to_send,
    };
    let keymap_text = read_config(keymap);
    let custom_paste = paste_binding_for(keymap_text.as_str(), mode);
    let paste = text_or(&custom_paste, mode.default_paste_binding());
    InjectPlan {
        mode,
        ctrl_enter,
        toggle_binding: text_or(&args.toggle_keys, config.toggle_binding),
        paste_binding: text_or(&args.paste_keys, paste),
    }
}

// ---------------------------------------------------------------------------
// the worker's keys
// ---------------------------------------------------------------------------

/// The keys of an injection, as virtual-key codes.
#[derive(Debug, PartialEq, Eq)]
pub struct InjectKeys {
    /// Send with Ctrl+Enter instead of Enter.
    pub ctrl_enter: bool,
    pub toggle: Vec<u16>,
    pub paste: Vec<u16>,
}

/// What a set of keys says.
pub ghost struct KeysView {
    pub ctrl_enter: bool,
    pub toggle: Seq<u16>,
    pub paste: Seq<u16>,
}

impl View for InjectKeys {
    type V = KeysView;

    open spec fn view(&self) -> KeysView {
        KeysView { ctrl_enter: self.ctrl_enter, toggle: self.toggle@, paste: self.paste@ }
    }
}

/// The toggle binding of a worker's command line, else Zed's default.
pub open spec fn worker_toggle(args: Args) -> Seq<char> {
    value_or(some_text(args.toggle_keys), "ctrl-shift-/"@)
}

/// The mode of a worker's command line, else Normal.
pub open spec fn worker_mode(args: Args) -> EditorMode {
    value_or(args.mode, EditorMode::Normal)
}

/// The paste binding of a worker's command line, else the mode's default.
pub open spec fn worker_paste(args: Args) -> Seq<char> {
    value_or(some_text(args.paste_keys), mode_paste(worker_mode(args)))
}

/// The keys that a worker's command line gives. A binding that cannot be
/// parsed is replaced by the default.
pub open spec fn keys_of(args: Args, case: spec_fn(Seq<char>) -> Seq<char>) -> KeysView {
    KeysView {
        ctrl_enter: value_or(send_key_of(args), false),
        toggle: codes_or(worker_toggle(args), "ctrl-shift-/"@, case),
        paste: codes_or(worker_paste(args), mode_paste(worker_mode(args)), case),
    }
}

/// The worker's toggle binding.
pub fn worker_toggle_binding(args: &Args) -> (s: String)
    ensures
        s@ == worker_toggle(*args),
{
    text_or(&args.toggle_keys, owned("ctrl-shift-/"))
}

/// The worker's mode.
pub fn worker_editor_mode(args: &Args) -> (mode: EditorMode)
    ensures
        mode == worker_mode(*args),
{
    match args.mode {
        Some(mode) => mode,
        None => EditorMode::Normal,
    }
}

/// The worker's paste binding.
pub fn worker_paste_binding(args: &Args) -> (s: String)
    ensures
        s@ == worker_paste(*args),
{
    text_or(&args.paste_keys, worker_editor_mode(args).default_paste_binding())
}

/// Resolves the worker's injection keys from its command line. A worker on its
/// own falls back to the Zed defaults. There is always something to press.
pub fn worker_keys(args: &Args) -> (keys: InjectKeys)
    ensures
        keys@ == keys_of(*args, unicode_case()),
        is_ascii_chars(worker_toggle(*args)) && is_ascii_chars(worker_paste(*args)) ==> keys@
            == keys_of(*args, ascii_case()),
        keys.toggle@.len() > 0,
        keys.paste@.len() > 0,
{
    let toggle_binding = worker_toggle_binding(args);
    let paste_binding = worker_paste_binding(args);
    let default_paste = worker_editor_mode(args).default_paste_binding();
    proof {
        reveal_strlit("ctrl-shift-/");
        reveal_strlit("ctrl-v");
        reveal_strlit("shift-insert");
        reveal_strlit("shift-r");
        lemma_default_toggle();
        lemma_default_paste();
        law_binding_is_modifiers_and_key(toggle_binding@, unicode_case());
        law_binding_is_modifiers_and_key(paste_binding@, unicode_case());
    }
    InjectKeys {
        ctrl_enter: match args.send_key() {
            Some(key) => key,
            None => false,
        },
        toggle: binding_to_vk(toggle_binding.as_str(), "ctrl-shift-/"),
        paste: binding_to_vk(paste_binding.as_str(), default_paste.as_str()),
    }
}

// ---------------------------------------------------------------------------
// laws
// ---------------------------------------------------------------------------

/// What the launcher resolved is what the worker sends: a worker whose command
/// line names the plan's mode, bindings and send key uses that send key, and
/// the codes of those bindings wherever they can be parsed.
pub proof fn law_worker_follows_plan(
    plan: PlanView,
    worker: Args,
    case: spec_fn(Seq<char>) -> Seq<char>,
)
    requires
        worker.mode == Some(plan.mode),
        some_text(worker.toggle_keys) == Some(plan.toggle),
        some_text(worker.paste_keys) == Some(plan.paste),
        send_key_of(worker) == Some(plan.ctrl_enter),
    ensures
        keys_of(worker, case).ctrl_enter == plan.ctrl_enter,
        keys_of(worker, case).toggle == codes_or(plan.toggle, "ctrl-shift-/"@, case),
        keys_of(worker, case).paste == codes_or(plan.paste, mode_paste(plan.mode), case),
{
}

/// A flag of the command line wins over every configuration.
pub proof fn law_flags_win(args: Args, settings: Seq<char>, keymap: Seq<char>)
    ensures
        args.mode matches Some(mode) ==> plan_of(args, settings, keymap).mode == mode,
        send_key_of(args) matches Some(key) ==> plan_of(args, settings, keymap).ctrl_enter == key,
        some_text(args.toggle_keys) matches Some(keys) ==> plan_of(args, settings, keymap).toggle
            == keys,
        some_text(args.paste_keys) matches Some(keys) ==> plan_of(args, settings, keymap).paste
            == keys,
{
}

/// A custom paste binding that is live in the mode of the plan wins over that
/// mode's default, wherever the mode comes from.
pub proof fn law_custom_paste_wins(
    args: Args,
    settings: Seq<char>,
    keymap: Seq<char>,
    keys: Seq<char>,
)
    requires
        args.paste_keys is None,
        paste_of(keymap, plan_of(args, settings, keymap).mode) == Some(keys),
    ensures
        plan_of(args, settings, keymap).paste == keys,
{
}

/// A message of no words is `continue`; a message of one word is that word; each
/// further word comes behind one space.
pub proof fn law_message_is_its_words(shorter: Args, longer: Args, word: String)
    requires
        longer.message@ == shorter.message@.push(word),
    ensures
        shorter.message@.len() == 0 ==> message_of(shorter) == "continue"@,
        shorter.message@.len() == 0 ==> message_of(longer) == word@,
        shorter.message@.len() > 0 ==> message_of(longer) == message_of(shorter) + " "@ + word@,
{
    let words = texts(shorter.message@);
    law_join(words, word@, " "@);
    assert(texts(longer.message@) == words.push(word@));
    if words.len() == 0 {
        assert(words.push(word@) == seq![word@]);
    }
}

/// The command line asks for Enter or for Ctrl+Enter, Enter first; or it leaves
/// the choice open.
pub proof fn law_send_key(args: Args)
    ensures
        args.send_enter ==> send_key_of(args) == Some(false),
        !args.send_enter && args.send_ctrl_enter ==> send_key_of(args) == Some(true),
        !args.send_enter && !args.send_ctrl_enter ==> send_key_of(args) is None,
{
}

/// A check is a check whatever else is asked for; then comes the worker, then the
/// report on the start. Without any of them the process is the launcher.
pub proof fn law_role(args: Args)
    ensures
        args.check <==> role_of(args) == Role::Check,
        !args.check && args.worker <==> role_of(args) == Role::Worker,
        !args.check && !args.worker && args.dump_startup is Some <==> role_of(args) == Role::Dump,
        !args.check && !args.worker && args.dump_startup is None <==> role_of(args)
            == Role::Launcher,
{
}

/// Where the command line is silent the configuration decides, and where that is
/// silent too the mode's own paste binding is used.
pub proof fn law_configuration_fills_the_plan(args: Args, settings: Seq<char>, keymap: Seq<char>)
    ensures
        ({
            let plan = plan_of(args, settings, keymap);
            &&& args.mode is None ==> plan.mode == mode_of(settings)
            &&& !args.send_enter && !args.send_ctrl_enter ==> plan.ctrl_enter == sends_with_ctrl(
                settings,
            )
            &&& args.send_enter ==> !plan.ctrl_enter
            &&& !args.send_enter && args.send_ctrl_enter ==> plan.ctrl_enter
            &&& args.toggle_keys is None ==> plan.toggle == toggle_of(keymap)
            &&& args.paste_keys is None && paste_of(keymap, plan.mode) is None ==> plan.paste
                == match plan.mode {
                EditorMode::Normal => "ctrl-v"@,
                EditorMode::Vim => "shift-insert"@,
                EditorMode::Helix => "shift-r"@,
            }
        }),
{
}

/// A worker on its own goes by Zed's defaults: the normal mode, its bindings, and
/// Enter to send.
pub proof fn law_worker_defaults(args: Args, case: spec_fn(Seq<char>) -> Seq<char>)
    ensures
        args.mode is None ==> worker_mode(args) == EditorMode::Normal,
        args.mode matches Some(mode) ==> worker_mode(args) == mode,
        args.toggle_keys is None ==> worker_toggle(args) == "ctrl-shift-/"@,
        args.toggle_keys matches Some(keys) ==> worker_toggle(args) == keys@,
        args.paste_keys matches Some(keys) ==> worker_paste(args) == keys@,
        args.paste_keys is None && args.mode is None ==> worker_paste(args) == "ctrl-v"@,
        args.paste_keys is None && args.mode == Some(EditorMode::Normal) ==> worker_paste(args)
            == "ctrl-v"@,
        args.paste_keys is None && args.mode == Some(EditorMode::Vim) ==> worker_paste(args)
            == "shift-insert"@,
        args.paste_keys is None && args.mode == Some(EditorMode::Helix) ==> worker_paste(args)
            == "shift-r"@,
        keys_of(args, case).ctrl_enter <==> !args.send_enter && args.send_ctrl_enter,
        keys_of(args, case).toggle == codes_or(worker_toggle(args), "ctrl-shift-/"@, case),
        keys_of(args, case).paste == codes_or(
            worker_paste(args),
            match worker_mode(args) {
                EditorMode::Normal => "ctrl-v"@,
                EditorMode::Vim => "shift-insert"@,
                EditorMode::Helix => "shift-r"@,
            },
            case,
        ),
{
}

/// The report on a start gives the show state and the directory.
pub proof fn law_startup_report(show: u16, cwd: Seq<char>)
    ensures
        startup_of(show, cwd).take(5) == "show="@,
        startup_of(show, cwd).skip(5) == decimal(show as nat) + " cwd="@ + cwd,
{
    reveal_strlit("show=");
    let s = startup_of(show, cwd);
    assert(s.take(5) == "show="@);
    assert(s.skip(5) == decimal(show as nat) + " cwd="@ + cwd);
}

/// The times that hold unless the command line says otherwise.
pub proof fn law_default_times()
    ensures
        DEFAULT_WAIT == 26,
        DEFAULT_SETTLE == 10,
        DEFAULT_GRACE == 20,
        DEFAULT_WINDOW_TIMEOUT == 16,
        DEFAULT_HEADS_UP == 2,
{
}

/// A plan and a set of keys say what they hold.
pub proof fn law_plan_says(plan: InjectPlan, keys: InjectKeys)
    ensures
        plan@.mode == plan.mode,
        plan@.ctrl_enter == plan.ctrl_enter,
        plan@.toggle == plan.toggle_binding@,
        plan@.paste == plan.paste_binding@,
        keys@.ctrl_enter == keys.ctrl_enter,
        keys@.toggle == keys.toggle@,
        keys@.paste == keys.paste@,
{
}

} // verus!
