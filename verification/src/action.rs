//! What a run asks of the system around it.
//!
//! A step of a run is a function from a state and an event to the next state
//! and a list of actions. The caller performs the actions in order; the next
//! state says which event it waits for, and where the last action has an
//! outcome, that outcome is the event.
use vstd::prelude::*;

verus! {

/// One action. `S` is the type of texts, `K` that of lists of key codes.
#[derive(Debug, PartialEq, Eq)]
pub enum Action<S, K> {
    /// Write an entry to the log.
    Info(S),
    /// Write an error to the log.
    Error(S),
    /// Print a line.
    Print(S),
    /// Print a line on the error channel.
    Complain(S),
    /// Wait for this many milliseconds.
    Sleep(u64),
    /// Wait for this many seconds.
    Pause(u64),
    /// Ask a window to close.
    Close(usize),
    /// Minimize a window.
    Minimize(usize),
    /// Restore a minimized window.
    Restore(usize),
    /// Switch to a window.
    SwitchTo(usize),
    /// Put a window in the foreground.
    SetForeground(usize),
    /// Put a window in the foreground and on top while this thread's input is
    /// attached to that of the thread named second.
    RaiseAttached(usize, u32),
    /// End a process.
    Kill(u32),
    /// Press keys in order and release them in reverse.
    SendCombo(K),
    /// Press and release a phantom key, which stands for no input.
    Nudge(u16),
    /// Show a notification with a title and a text. The outcome is an event.
    Notify(S, S),
    /// Put a text into the clipboard. The outcome is an event.
    SetClipboard(S),
    /// Close the clipboard.
    CloseClipboard,
    /// Write a file with a text. The outcome is an event.
    WriteFile(S, S),
    /// Remove a file, if it is there.
    RemoveFile(S),
    /// Write a shortcut: target, arguments, working directory and the path of
    /// the shortcut itself. The outcome is an event.
    WriteShortcut(S, S, S, S),
    /// Start a process from a command line with creation flags. The outcome is
    /// an event.
    Spawn(S, u32),
}

/// An action with texts and key codes as the program holds them.
pub type Step = Action<String, Vec<u16>>;

/// An action as contracts speak of it.
pub type StepView = Action<Seq<char>, Seq<u16>>;

/// What an action says.
pub open spec fn step_view(a: Step) -> StepView {
    match a {
        Action::Info(s) => Action::Info(s@),
        Action::Error(s) => Action::Error(s@),
        Action::Print(s) => Action::Print(s@),
        Action::Complain(s) => Action::Complain(s@),
        Action::Sleep(n) => Action::Sleep(n),
        Action::Pause(n) => Action::Pause(n),
        Action::Close(w) => Action::Close(w),
        Action::Minimize(w) => Action::Minimize(w),
        Action::Restore(w) => Action::Restore(w),
        Action::SwitchTo(w) => Action::SwitchTo(w),
        Action::SetForeground(w) => Action::SetForeground(w),
        Action::RaiseAttached(w, t) => Action::RaiseAttached(w, t),
        Action::Kill(p) => Action::Kill(p),
        Action::SendCombo(k) => Action::SendCombo(k@),
        Action::Nudge(k) => Action::Nudge(k),
        Action::Notify(s, t) => Action::Notify(s@, t@),
        Action::SetClipboard(s) => Action::SetClipboard(s@),
        Action::CloseClipboard => Action::CloseClipboard,
        Action::WriteFile(s, t) => Action::WriteFile(s@, t@),
        Action::RemoveFile(s) => Action::RemoveFile(s@),
        Action::WriteShortcut(s, t, u, v) => Action::WriteShortcut(s@, t@, u@, v@),
        Action::Spawn(s, n) => Action::Spawn(s@, n),
    }
}

/// What a list of actions says.
pub open spec fn steps_view(v: Seq<Step>) -> Seq<StepView> {
    Seq::new(v.len(), |i: int| step_view(v[i]))
}

/// An empty list of actions.
pub fn no_steps() -> (v: Vec<Step>)
    ensures
        steps_view(v@) == Seq::<StepView>::empty(),
{
    let v: Vec<Step> = Vec::new();
    assert(steps_view(v@) == Seq::<StepView>::empty());
    v
}

/// Appends an action.
pub fn push_step(v: &mut Vec<Step>, a: Step)
    ensures
        steps_view(final(v)@) == steps_view(old(v)@).push(step_view(a)),
{
    v.push(a);
    assert(steps_view(v@) == steps_view(old(v)@).push(step_view(a)));
}

/// Appends actions.
pub fn push_steps(v: &mut Vec<Step>, mut more: Vec<Step>)
    ensures
        steps_view(final(v)@) == steps_view(old(v)@) + steps_view(more@),
{
    let ghost tail = more@;
    v.append(&mut more);
    assert(steps_view(v@) == steps_view(old(v)@) + steps_view(tail));
}

// ---------------------------------------------------------------------------
// what a list of actions does
// ---------------------------------------------------------------------------

/// An action that only writes to the log.
pub open spec fn is_entry(a: StepView) -> bool {
    a is Info || a is Error
}

/// What a list of actions does to the system, log entries aside.
pub open spec fn effects(steps: Seq<StepView>) -> Seq<StepView>
    decreases steps.len(),
{
    if steps.len() == 0 {
        Seq::empty()
    } else if is_entry(steps.last()) {
        effects(steps.drop_last())
    } else {
        effects(steps.drop_last()).push(steps.last())
    }
}

/// The errors that a list of actions writes to the log.
pub open spec fn errors(steps: Seq<StepView>) -> Seq<Seq<char>>
    decreases steps.len(),
{
    if steps.len() == 0 {
        Seq::empty()
    } else {
        match steps.last() {
            Action::Error(text) => errors(steps.drop_last()).push(text),
            _ => errors(steps.drop_last()),
        }
    }
}

/// The entries, errors aside, that a list of actions writes to the log.
pub open spec fn entries(steps: Seq<StepView>) -> Seq<Seq<char>>
    decreases steps.len(),
{
    if steps.len() == 0 {
        Seq::empty()
    } else {
        match steps.last() {
            Action::Info(text) => entries(steps.drop_last()).push(text),
            _ => entries(steps.drop_last()),
        }
    }
}

/// The key combinations that a list of actions presses.
pub open spec fn combos(steps: Seq<StepView>) -> Seq<Seq<u16>>
    decreases steps.len(),
{
    if steps.len() == 0 {
        Seq::empty()
    } else {
        match steps.last() {
            Action::SendCombo(keys) => combos(steps.drop_last()).push(keys),
            _ => combos(steps.drop_last()),
        }
    }
}

pub broadcast proof fn lemma_effects_push(steps: Seq<StepView>, a: StepView)
    ensures
        #[trigger] effects(steps.push(a)) == (if is_entry(a) {
            effects(steps)
        } else {
            effects(steps).push(a)
        }),
{
    assert(steps.push(a).drop_last() == steps);
}

pub broadcast proof fn lemma_effects_add(a: Seq<StepView>, b: Seq<StepView>)
    ensures
        #[trigger] effects(a + b) == effects(a) + effects(b),
    decreases b.len(),
{
    if b.len() == 0 {
        assert(a + b == a);
        assert(effects(a) + Seq::<StepView>::empty() == effects(a));
    } else {
        lemma_effects_add(a, b.drop_last());
        assert((a + b).drop_last() == a + b.drop_last());
        assert((a + b).last() == b.last());
        assert(effects(a + b) == effects(a) + effects(b));
    }
}

pub broadcast proof fn lemma_errors_push(steps: Seq<StepView>, a: StepView)
    ensures
        #[trigger] errors(steps.push(a)) == (match a {
            Action::Error(text) => errors(steps).push(text),
            _ => errors(steps),
        }),
{
    assert(steps.push(a).drop_last() == steps);
}

pub broadcast proof fn lemma_errors_add(a: Seq<StepView>, b: Seq<StepView>)
    ensures
        #[trigger] errors(a + b) == errors(a) + errors(b),
    decreases b.len(),
{
    if b.len() == 0 {
        assert(a + b == a);
        assert(errors(a) + Seq::<Seq<char>>::empty() == errors(a));
    } else {
        lemma_errors_add(a, b.drop_last());
        assert((a + b).drop_last() == a + b.drop_last());
        assert((a + b).last() == b.last());
        assert(errors(a + b) == errors(a) + errors(b));
    }
}

pub broadcast proof fn lemma_entries_push(steps: Seq<StepView>, a: StepView)
    ensures
        #[trigger] entries(steps.push(a)) == (match a {
            Action::Info(text) => entries(steps).push(text),
            _ => entries(steps),
        }),
{
    assert(steps.push(a).drop_last() == steps);
}

pub broadcast proof fn lemma_entries_add(a: Seq<StepView>, b: Seq<StepView>)
    ensures
        #[trigger] entries(a + b) == entries(a) + entries(b),
    decreases b.len(),
{
    if b.len() == 0 {
        assert(a + b == a);
        assert(entries(a) + Seq::<Seq<char>>::empty() == entries(a));
    } else {
        lemma_entries_add(a, b.drop_last());
        assert((a + b).drop_last() == a + b.drop_last());
        assert((a + b).last() == b.last());
        assert(entries(a + b) == entries(a) + entries(b));
    }
}

pub broadcast proof fn lemma_combos_push(steps: Seq<StepView>, a: StepView)
    ensures
        #[trigger] combos(steps.push(a)) == (match a {
            Action::SendCombo(keys) => combos(steps).push(keys),
            _ => combos(steps),
        }),
{
    assert(steps.push(a).drop_last() == steps);
}

pub broadcast proof fn lemma_combos_add(a: Seq<StepView>, b: Seq<StepView>)
    ensures
        #[trigger] combos(a + b) == combos(a) + combos(b),
    decreases b.len(),
{
    if b.len() == 0 {
        assert(a + b == a);
        assert(combos(a) + Seq::<Seq<u16>>::empty() == combos(a));
    } else {
        lemma_combos_add(a, b.drop_last());
        assert((a + b).drop_last() == a + b.drop_last());
        assert((a + b).last() == b.last());
        assert(combos(a + b) == combos(a) + combos(b));
    }
}

/// What lists of actions do, put together.
pub broadcast group group_actions {
    lemma_effects_push,
    lemma_effects_add,
    lemma_errors_push,
    lemma_errors_add,
    lemma_entries_push,
    lemma_entries_add,
    lemma_combos_push,
    lemma_combos_add,
}

/// What the program asks for is what contracts speak of: an action with the same
/// name, numbers, texts and keys, in the same place.
pub proof fn law_steps_are_what_they_say(steps: Seq<Step>, i: int)
    requires
        0 <= i < steps.len(),
    ensures
        steps_view(steps).len() == steps.len(),
        match steps[i] {
            Action::Info(s) => steps_view(steps)[i] == Action::<Seq<char>, Seq<u16>>::Info(s@),
            Action::Error(s) => steps_view(steps)[i] == Action::<Seq<char>, Seq<u16>>::Error(s@),
            Action::Print(s) => steps_view(steps)[i] == Action::<Seq<char>, Seq<u16>>::Print(s@),
            Action::Complain(s) => steps_view(steps)[i] == Action::<Seq<char>, Seq<u16>>::Complain(
                s@,
            ),
            Action::Sleep(n) => steps_view(steps)[i] == Action::<Seq<char>, Seq<u16>>::Sleep(n),
            Action::Pause(n) => steps_view(steps)[i] == Action::<Seq<char>, Seq<u16>>::Pause(n),
            Action::Close(w) => steps_view(steps)[i] == Action::<Seq<char>, Seq<u16>>::Close(w),
            Action::Minimize(w) => steps_view(steps)[i] == Action::<
                Seq<char>,
                Seq<u16>,
            >::Minimize(w),
            Action::Restore(w) => steps_view(steps)[i] == Action::<Seq<char>, Seq<u16>>::Restore(w),
            Action::SwitchTo(w) => steps_view(steps)[i] == Action::<
                Seq<char>,
                Seq<u16>,
            >::SwitchTo(w),
            Action::SetForeground(w) => steps_view(steps)[i] == Action::<
                Seq<char>,
                Seq<u16>,
            >::SetForeground(w),
            Action::RaiseAttached(w, t) => steps_view(steps)[i] == Action::<
                Seq<char>,
                Seq<u16>,
            >::RaiseAttached(w, t),
            Action::Kill(pid) => steps_view(steps)[i] == Action::<Seq<char>, Seq<u16>>::Kill(pid),
            Action::SendCombo(keys) => steps_view(steps)[i] == Action::<
                Seq<char>,
                Seq<u16>,
            >::SendCombo(keys@),
            Action::Nudge(key) => steps_view(steps)[i] == Action::<Seq<char>, Seq<u16>>::Nudge(key),
            Action::Notify(a, b) => steps_view(steps)[i] == Action::<Seq<char>, Seq<u16>>::Notify(
                a@,
                b@,
            ),
            Action::SetClipboard(s) => steps_view(steps)[i] == Action::<
                Seq<char>,
                Seq<u16>,
            >::SetClipboard(s@),
            Action::CloseClipboard => steps_view(steps)[i] == Action::<
                Seq<char>,
                Seq<u16>,
            >::CloseClipboard,
            Action::WriteFile(a, b) => steps_view(steps)[i] == Action::<
                Seq<char>,
                Seq<u16>,
            >::WriteFile(a@, b@),
            Action::RemoveFile(s) => steps_view(steps)[i] == Action::<
                Seq<char>,
                Seq<u16>,
            >::RemoveFile(s@),
            Action::WriteShortcut(a, b, c, d) => steps_view(steps)[i] == Action::<
                Seq<char>,
                Seq<u16>,
            >::WriteShortcut(a@, b@, c@, d@),
            Action::Spawn(s, flags) => steps_view(steps)[i] == Action::<
                Seq<char>,
                Seq<u16>,
            >::Spawn(s@, flags),
        },
{
}

} // verus!
