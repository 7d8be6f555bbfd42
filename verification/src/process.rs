//! Running processes, and the choice of the Zed instance to restart.
use vstd::prelude::*;

use crate::text::{
    ascii_lower, chars_of, contains, decimal, eq_ignore_ascii_case, join, joined,
    law_contained_between, law_contains_is_between, law_join, law_join_holds_its_parts, owned,
    push_decimal, some_text, texts,
};
use crate::winpath::{file_name, path_file_name};

verus! {

/// One process of a snapshot of the running system.
#[derive(Debug, PartialEq, Eq)]
pub struct ProcessInfo {
    pub pid: u32,
    /// The process that started it.
    pub parent: u32,
    /// The name of its executable file.
    pub name: String,
    /// The full path of that file, where it could be read.
    pub path: Option<String>,
    /// When it was created, in ticks of 100 ns, where that could be read.
    pub started: Option<u64>,
}

/// The name of Zed's executable file.
pub open spec fn zed_exe() -> Seq<char> {
    "zed.exe"@
}

/// Two texts are equal up to the case of ASCII letters.
pub open spec fn same_ignoring_case(a: Seq<char>, b: Seq<char>) -> bool {
    ascii_lower(a) == ascii_lower(b)
}

fn is_same_ignoring_case(a: &str, b: &str) -> (r: bool)
    ensures
        r == same_ignoring_case(a@, b@),
{
    let a = chars_of(a);
    let b = chars_of(b);
    eq_ignore_ascii_case(&a, &b)
}

// ---------------------------------------------------------------------------
// looking up
// ---------------------------------------------------------------------------

/// The processes whose executable has this name, in the order of the snapshot.
pub open spec fn pids_named(procs: Seq<ProcessInfo>, name: Seq<char>) -> Seq<u32>
    decreases procs.len(),
{
    if procs.len() == 0 {
        Seq::empty()
    } else {
        let before = pids_named(procs.drop_last(), name);
        if same_ignoring_case(procs.last().name@, name) {
            before.push(procs.last().pid)
        } else {
            before
        }
    }
}

/// PIDs of every process whose executable name equals `name`, whatever the
/// case.
pub fn find_pids(procs: &Vec<ProcessInfo>, name: &str) -> (pids: Vec<u32>)
    ensures
        pids@ == pids_named(procs@, name@),
{
    let mut pids: Vec<u32> = Vec::new();
    for i in 0..procs.len()
        invariant
            pids@ == pids_named(procs@.take(i as int), name@),
    {
        assert(procs@.take(i + 1).drop_last() == procs@.take(i as int));
        if is_same_ignoring_case(procs[i].name.as_str(), name) {
            pids.push(procs[i].pid);
        }
    }
    assert(procs@.take(procs@.len() as int) == procs@);
    pids
}

/// The process with this PID.
pub open spec fn process(procs: Seq<ProcessInfo>, pid: u32) -> Option<ProcessInfo>
    decreases procs.len(),
{
    if procs.len() == 0 {
        None
    } else if procs[0].pid == pid {
        Some(procs[0])
    } else {
        process(procs.skip(1), pid)
    }
}

fn find_process(procs: &Vec<ProcessInfo>, pid: u32) -> (r: Option<usize>)
    ensures
        match r {
            Some(i) => i < procs@.len() && process(procs@, pid) == Some(procs@[i as int]),
            None => process(procs@, pid) is None,
        },
{
    assert(procs@.skip(0) == procs@);
    for i in 0..procs.len()
        invariant
            process(procs@, pid) == process(procs@.skip(i as int), pid),
    {
        if procs[i].pid == pid {
            return Some(i);
        }
        assert(procs@.skip(i as int).skip(1) == procs@.skip(i + 1));
    }
    None
}

/// The parent of a process.
pub open spec fn parent_of(procs: Seq<ProcessInfo>, pid: u32) -> Option<u32> {
    match process(procs, pid) {
        Some(p) => Some(p.parent),
        None => None,
    }
}

/// Parent PID of `pid`; `None` when the process is gone.
pub fn parent_pid(procs: &Vec<ProcessInfo>, pid: u32) -> (parent: Option<u32>)
    ensures
        parent == parent_of(procs@, pid),
{
    match find_process(procs, pid) {
        Some(i) => Some(procs[i].parent),
        None => None,
    }
}

/// The executable path of a process.
pub open spec fn path_of(procs: Seq<ProcessInfo>, pid: u32) -> Option<Seq<char>> {
    match process(procs, pid) {
        Some(p) => some_text(p.path),
        None => None,
    }
}

/// Full executable path of a process, or `None` when it cannot be read.
pub fn exe_path(procs: &Vec<ProcessInfo>, pid: u32) -> (path: Option<String>)
    ensures
        some_text(path) == path_of(procs@, pid),
{
    match find_process(procs, pid) {
        Some(i) => match &procs[i].path {
            Some(path) => Some(path.clone()),
            None => None,
        },
        None => None,
    }
}

/// The creation time of a process.
pub open spec fn started_at(procs: Seq<ProcessInfo>, pid: u32) -> Option<u64> {
    match process(procs, pid) {
        Some(p) => p.started,
        None => None,
    }
}

/// Creation time of a process, or `None` when it cannot be read.
pub fn start_time(procs: &Vec<ProcessInfo>, pid: u32) -> (time: Option<u64>)
    ensures
        time == started_at(procs@, pid),
{
    match find_process(procs, pid) {
        Some(i) => procs[i].started,
        None => None,
    }
}

/// The process `pid` runs and is Zed.
pub open spec fn zed_alive(procs: Seq<ProcessInfo>, pid: u32) -> bool {
    pids_named(procs, zed_exe()).contains(pid)
}

/// Whether `pid` is a running Zed process.
pub fn is_zed_alive(procs: &Vec<ProcessInfo>, pid: u32) -> (b: bool)
    ensures
        b == zed_alive(procs@, pid),
{
    let pids = find_pids(procs, "zed.exe");
    for i in 0..pids.len()
        invariant
            pids@ == pids_named(procs@, zed_exe()),
            forall|k: int| 0 <= k < i ==> pids@[k] != pid,
    {
        if pids[i] == pid {
            return true;
        }
    }
    false
}

/// Of `pids`, those whose executable path is `exe`.
pub open spec fn running_exe(procs: Seq<ProcessInfo>, pids: Seq<u32>, exe: Seq<char>) -> Seq<u32>
    decreases pids.len(),
{
    if pids.len() == 0 {
        Seq::empty()
    } else {
        let before = running_exe(procs, pids.drop_last(), exe);
        match path_of(procs, pids.last()) {
            Some(path) => if same_ignoring_case(path, exe) {
                before.push(pids.last())
            } else {
                before
            },
            None => before,
        }
    }
}

/// PIDs of the Zed processes whose executable path is `exe`, whatever the case.
/// Processes whose path cannot be read are left out: what cannot be identified
/// is never touched.
pub fn pids_for(procs: &Vec<ProcessInfo>, exe: &str) -> (r: Vec<u32>)
    ensures
        r@ == running_exe(procs@, pids_named(procs@, zed_exe()), exe@),
{
    let pids = find_pids(procs, "zed.exe");
    let mut out: Vec<u32> = Vec::new();
    for i in 0..pids.len()
        invariant
            out@ == running_exe(procs@, pids@.take(i as int), exe@),
    {
        assert(pids@.take(i + 1).drop_last() == pids@.take(i as int));
        if let Some(path) = exe_path(procs, pids[i]) {
            if is_same_ignoring_case(path.as_str(), exe) {
                out.push(pids[i]);
            }
        }
    }
    assert(pids@.take(pids@.len() as int) == pids@);
    out
}

// ---------------------------------------------------------------------------
// the target
// ---------------------------------------------------------------------------

/// The Zed instance to restart: which process to stop and which executable to
/// start. They are separate, since several independent Zed processes can run
/// the same executable.
#[derive(Debug, PartialEq, Eq)]
pub struct Target {
    pub exe: String,
    /// The process to stop; `None` means to stop nothing.
    pub pid: Option<u32>,
}

/// What a target says.
pub ghost struct TargetView {
    pub exe: Seq<char>,
    pub pid: Option<u32>,
}

impl View for Target {
    type V = TargetView;

    open spec fn view(&self) -> TargetView {
        TargetView { exe: self.exe@, pid: self.pid }
    }
}

/// The path names Zed's executable.
pub open spec fn is_zed_path(path: Seq<char>) -> bool {
    match file_name(path) {
        Some(name) => same_ignoring_case(name, zed_exe()),
        None => false,
    }
}

fn names_zed(path: &str) -> (b: bool)
    ensures
        b == is_zed_path(path@),
{
    match path_file_name(path) {
        Some(name) => is_same_ignoring_case(name.as_str(), "zed.exe"),
        None => false,
    }
}

/// The closest Zed among the first `depth` ancestors of `pid`, with its path.
pub open spec fn ancestor(procs: Seq<ProcessInfo>, pid: u32, depth: nat) -> Option<
    (u32, Seq<char>),
>
    decreases depth,
{
    if depth == 0 {
        None
    } else {
        match parent_of(procs, pid) {
            Some(parent) => if parent == pid {
                None
            } else {
                match path_of(procs, parent) {
                    Some(path) => if is_zed_path(path) {
                        Some((parent, path))
                    } else {
                        ancestor(procs, parent, (depth - 1) as nat)
                    },
                    None => ancestor(procs, parent, (depth - 1) as nat),
                }
            },
            None => None,
        }
    }
}

/// A PID and a path.
pub open spec fn pair_text(r: Option<(u32, String)>) -> Option<(u32, Seq<char>)> {
    match r {
        Some((pid, path)) => Some((pid, path@)),
        None => None,
    }
}

/// The closest Zed ancestor of the process `own_pid`: its PID and path. At most
/// 32 generations are searched, which ends loops of reused PIDs.
pub fn zed_ancestor(procs: &Vec<ProcessInfo>, own_pid: u32) -> (r: Option<(u32, String)>)
    ensures
        pair_text(r) == ancestor(procs@, own_pid, 32),
{
    let mut pid: u32 = own_pid;
    let mut depth: u32 = 32;
    while depth > 0
        invariant
            ancestor(procs@, own_pid, 32) == ancestor(procs@, pid, depth as nat),
        decreases depth,
    {
        let parent = match parent_pid(procs, pid) {
            Some(parent) => parent,
            None => {
                return None;
            },
        };
        if parent == pid {
            return None;
        }
        if let Some(path) = exe_path(procs, parent) {
            if names_zed(path.as_str()) {
                return Some((parent, path));
            }
        }
        pid = parent;
        depth -= 1;
    }
    None
}

/// Of `pids`, those whose path can be read, with the path.
pub open spec fn with_paths(procs: Seq<ProcessInfo>, pids: Seq<u32>) -> Seq<(u32, Seq<char>)>
    decreases pids.len(),
{
    if pids.len() == 0 {
        Seq::empty()
    } else {
        let before = with_paths(procs, pids.drop_last());
        match path_of(procs, pids.last()) {
            Some(path) => before.push((pids.last(), path)),
            None => before,
        }
    }
}

/// The texts of a list of PIDs and paths.
pub open spec fn pair_texts(v: Seq<(u32, String)>) -> Seq<(u32, Seq<char>)> {
    Seq::new(v.len(), |i: int| (v[i].0, v[i].1@))
}

fn running_zeds(procs: &Vec<ProcessInfo>) -> (r: Vec<(u32, String)>)
    ensures
        pair_texts(r@) == with_paths(procs@, pids_named(procs@, zed_exe())),
{
    let pids = find_pids(procs, "zed.exe");
    let mut out: Vec<(u32, String)> = Vec::new();
    assert(pair_texts(out@) == Seq::<(u32, Seq<char>)>::empty());
    for i in 0..pids.len()
        invariant
            pair_texts(out@) == with_paths(procs@, pids@.take(i as int)),
    {
        assert(pids@.take(i + 1).drop_last() == pids@.take(i as int));
        let ghost before = out@;
        if let Some(path) = exe_path(procs, pids[i]) {
            let ghost text = path@;
            out.push((pids[i], path));
            assert(pair_texts(out@) == pair_texts(before).push((pids@[i as int], text)));
        }
    }
    assert(pids@.take(pids@.len() as int) == pids@);
    out
}

/// One line of a list of processes.
pub open spec fn process_line(pid: u32, path: Seq<char>) -> Seq<char> {
    "pid "@ + decimal(pid as nat) + ": "@ + path
}

/// The complaint that the target is ambiguous.
pub open spec fn ambiguous(running: Seq<(u32, Seq<char>)>) -> Seq<char> {
    "no Zed ancestor and several Zed processes are running — cannot tell which to restart (pass --zed-pid or --zed-path):\n  "@
        + join(Seq::new(running.len(), |i: int| process_line(running[i].0, running[i].1)), "\n  "@)
}

fn describe_running(running: &Vec<(u32, String)>) -> (s: String)
    ensures
        s@ == ambiguous(pair_texts(running@)),
{
    let mut list: Vec<String> = Vec::new();
    let ghost pairs = pair_texts(running@);
    let ghost all = Seq::new(pairs.len(), |i: int| process_line(pairs[i].0, pairs[i].1));
    for i in 0..running.len()
        invariant
            pairs == pair_texts(running@),
            all == Seq::new(pairs.len(), |i: int| process_line(pairs[i].0, pairs[i].1)),
            texts(list@) == all.take(i as int),
    {
        let mut line = owned("pid ");
        push_decimal(&mut line, running[i].0 as u128);
        line.append(": ");
        line.append(running[i].1.as_str());
        let ghost before = list@;
        assert(line@ == all[i as int]);
        list.push(line);
        assert(texts(list@) == texts(before).push(all[i as int]));
        assert(texts(list@) == all.take(i + 1));
    }
    assert(all.take(all.len() as int) == all);
    let mut s = owned(
        "no Zed ancestor and several Zed processes are running — cannot tell which to restart (pass --zed-pid or --zed-path):\n  ",
    );
    let lines = joined(&list, "\n  ");
    s.append(lines.as_str());
    s
}

/// What a resolution says.
pub open spec fn resolution_of(r: Result<Option<Target>, String>) -> Result<
    Option<TargetView>,
    Seq<char>,
> {
    match r {
        Ok(Some(target)) => Ok(Some(target@)),
        Ok(None) => Ok(None),
        Err(e) => Err(e@),
    }
}

/// The executable to start: the one given, else `path`.
pub open spec fn exe_or(given: Option<Seq<char>>, path: Seq<char>) -> Seq<char> {
    match given {
        Some(given) => given,
        None => path,
    }
}

/// The target that a snapshot gives.
///
/// * A PID that was given is the target; without a path given as well it has to
///   be a Zed process.
/// * Else the closest Zed ancestor is the target.
/// * Else the only running Zed is; with none running there is no target, and
///   with several nothing is stopped, or, without a path given, the choice is
///   ambiguous.
pub open spec fn resolution(
    given_path: Option<Seq<char>>,
    given_pid: Option<u32>,
    procs: Seq<ProcessInfo>,
    own_pid: u32,
) -> Result<Option<TargetView>, Seq<char>> {
    match given_pid {
        Some(pid) => match given_path {
            Some(exe) => Ok(Some(TargetView { exe, pid: Some(pid) })),
            None => match path_of(procs, pid) {
                Some(path) => if is_zed_path(path) {
                    Ok(Some(TargetView { exe: path, pid: Some(pid) }))
                } else {
                    Err("pid "@ + decimal(pid as nat) + " is not a Zed process ("@ + path + ")"@)
                },
                None => Err("cannot query exe path of pid "@ + decimal(pid as nat)),
            },
        },
        None => match ancestor(procs, own_pid, 32) {
            Some((pid, path)) => Ok(
                Some(TargetView { exe: exe_or(given_path, path), pid: Some(pid) }),
            ),
            None => {
                let running = with_paths(procs, pids_named(procs, zed_exe()));
                if running.len() == 0 {
                    Ok(None)
                } else if running.len() == 1 {
                    Ok(
                        Some(
                            TargetView {
                                exe: exe_or(given_path, running[0].1),
                                pid: Some(running[0].0),
                            },
                        ),
                    )
                } else {
                    match given_path {
                        Some(exe) => Ok(Some(TargetView { exe, pid: None })),
                        None => Err(ambiguous(running)),
                    }
                }
            },
        },
    }
}

fn choose_exe(given: &Option<String>, path: String) -> (exe: String)
    ensures
        exe@ == exe_or(some_text(*given), path@),
{
    match given {
        Some(given) => given.clone(),
        None => path,
    }
}

/// Resolves the restart target from a snapshot of the running processes.
///
/// * The process to stop is `override_pid`, else the closest Zed ancestor of
///   `own_pid`, else the only running Zed.
/// * The executable to start is `override_path`, else that of this process.
///
/// Several running Zeds with no identifiable target are an error, unless the
/// executable was given: then it is started and nothing is stopped.
pub fn resolve_target(
    override_path: &Option<String>,
    override_pid: Option<u32>,
    procs: &Vec<ProcessInfo>,
    own_pid: u32,
) -> (r: Result<Option<Target>, String>)
    ensures
        resolution_of(r) == resolution(some_text(*override_path), override_pid, procs@, own_pid),
{
    if let Some(pid) = override_pid {
        return match override_path {
            Some(exe) => Ok(Some(Target { exe: exe.clone(), pid: Some(pid) })),
            None => match exe_path(procs, pid) {
                Some(path) => if names_zed(path.as_str()) {
                    Ok(Some(Target { exe: path, pid: Some(pid) }))
                } else {
                    let mut e = owned("pid ");
                    push_decimal(&mut e, pid as u128);
                    e.append(" is not a Zed process (");
                    e.append(path.as_str());
                    e.append(")");
                    Err(e)
                },
                None => {
                    let mut e = owned("cannot query exe path of pid ");
                    push_decimal(&mut e, pid as u128);
                    Err(e)
                },
            },
        };
    }
    if let Some((pid, path)) = zed_ancestor(procs, own_pid) {
        let exe = choose_exe(override_path, path);
        return Ok(Some(Target { exe, pid: Some(pid) }));
    }
    let running = running_zeds(procs);
    let ghost pairs = with_paths(procs@, pids_named(procs@, zed_exe()));
    assert(running@.len() == pairs.len());
    if running.len() == 0 {
        Ok(None)
    } else if running.len() == 1 {
        assert(pairs[0] == (running@[0].0, running@[0].1@));
        let exe = choose_exe(override_path, running[0].1.clone());
        Ok(Some(Target { exe, pid: Some(running[0].0) }))
    } else {
        match override_path {
            Some(exe) => Ok(Some(Target { exe: exe.clone(), pid: None })),
            None => Err(describe_running(&running)),
        }
    }
}

// ---------------------------------------------------------------------------
// laws
// ---------------------------------------------------------------------------

pub(crate) proof fn lemma_running_exe(
    procs: Seq<ProcessInfo>,
    pids: Seq<u32>,
    exe: Seq<char>,
    pid: u32,
)
    ensures
        running_exe(procs, pids, exe).contains(pid) <==> pids.contains(pid) && (path_of(
            procs,
            pid,
        ) matches Some(path) && same_ignoring_case(path, exe)),
    decreases pids.len(),
{
    let kept = running_exe(procs, pids, exe);
    if pids.len() > 0 {
        let head = pids.drop_last();
        let before = running_exe(procs, head, exe);
        lemma_running_exe(procs, head, exe, pid);
        if kept.contains(pid) {
            let k = choose|k: int| 0 <= k < kept.len() && kept[k] == pid;
            if k < before.len() {
                assert(before[k] == pid);
                assert(before.contains(pid));
                let i = choose|i: int| 0 <= i < head.len() && head[i] == pid;
                assert(pids[i] == pid);
            } else {
                assert(pids[pids.len() - 1] == pid);
            }
        }
        if pids.contains(pid) {
            let i = choose|i: int| 0 <= i < pids.len() && pids[i] == pid;
            if i < head.len() {
                assert(head[i] == pid);
                assert(head.contains(pid));
            }
            if before.contains(pid) {
                let k = choose|k: int| 0 <= k < before.len() && before[k] == pid;
                assert(kept[k] == pid);
            } else if kept.len() > before.len() {
                assert(kept[before.len() as int] == pids.last());
            }
        }
    }
}

/// A closest Zed ancestor is a Zed: the file name of its path is Zed's.
pub proof fn law_ancestor_is_zed(procs: Seq<ProcessInfo>, pid: u32, depth: nat)
    ensures
        ancestor(procs, pid, depth) matches Some((found, path)) ==> is_zed_path(path) && path_of(
            procs,
            found,
        ) == Some(path),
    decreases depth,
{
    if depth > 0 {
        if let Some(parent) = parent_of(procs, pid) {
            law_ancestor_is_zed(procs, parent, (depth - 1) as nat);
        }
    }
}

proof fn lemma_with_paths(procs: Seq<ProcessInfo>, pids: Seq<u32>, i: int)
    requires
        0 <= i < with_paths(procs, pids).len(),
    ensures
        pids.contains(with_paths(procs, pids)[i].0),
        path_of(procs, with_paths(procs, pids)[i].0) == Some(with_paths(procs, pids)[i].1),
    decreases pids.len(),
{
    let head = pids.drop_last();
    let before = with_paths(procs, head);
    if i < before.len() {
        lemma_with_paths(procs, head, i);
        let k = choose|k: int| 0 <= k < head.len() && head[k] == before[i].0;
        assert(pids[k] == before[i].0);
    } else {
        assert(pids[pids.len() - 1] == pids.last());
    }
}

/// Only a Zed is stopped: the process to stop, unless the command line names
/// both it and an executable, is one whose path can be read, and that path or
/// the process is named as Zed's executable.
pub proof fn law_target_is_zed(
    given_path: Option<Seq<char>>,
    given_pid: Option<u32>,
    procs: Seq<ProcessInfo>,
    own_pid: u32,
)
    requires
        given_pid is None || given_path is None,
    ensures
        resolution(given_path, given_pid, procs, own_pid) matches Ok(Some(target)) ==> (
        target.pid matches Some(pid) ==> path_of(procs, pid) matches Some(path) && (is_zed_path(
            path,
        ) || zed_alive(procs, pid))),
{
    law_ancestor_is_zed(procs, own_pid, 32);
    let pids = pids_named(procs, zed_exe());
    if with_paths(procs, pids).len() == 1 {
        lemma_with_paths(procs, pids, 0);
    }
}

/// What is started is the executable that was given; else it is the one that the
/// target runs, so that the same variant comes back.
pub proof fn law_same_variant(
    given_path: Option<Seq<char>>,
    given_pid: Option<u32>,
    procs: Seq<ProcessInfo>,
    own_pid: u32,
)
    ensures
        resolution(given_path, given_pid, procs, own_pid) matches Ok(Some(target)) ==> {
            match given_path {
                Some(path) => target.exe == path,
                None => target.pid matches Some(pid) && path_of(procs, pid) == Some(target.exe),
            }
        },
{
    law_ancestor_is_zed(procs, own_pid, 32);
    let pids = pids_named(procs, zed_exe());
    if with_paths(procs, pids).len() == 1 {
        lemma_with_paths(procs, pids, 0);
    }
}

/// The PID given is the target; without one, the closest Zed ancestor is.
pub proof fn law_target_priority(
    given_path: Option<Seq<char>>,
    given_pid: Option<u32>,
    procs: Seq<ProcessInfo>,
    own_pid: u32,
)
    ensures
        given_pid matches Some(pid) ==> (resolution(given_path, given_pid, procs, own_pid)
            matches Ok(target) ==> target matches Some(target) && target.pid == Some(pid)),
        given_pid is None ==> (ancestor(procs, own_pid, 32) matches Some((pid, path)) ==> (
        resolution(given_path, given_pid, procs, own_pid) matches Ok(Some(target)) && target.pid
            == Some(pid))),
{
}

/// Several Zeds without a sign which one is meant: nothing is stopped, and
/// without an executable to start the choice is refused.
pub proof fn law_ambiguity_stops_nothing(
    given_path: Option<Seq<char>>,
    procs: Seq<ProcessInfo>,
    own_pid: u32,
)
    requires
        ancestor(procs, own_pid, 32) is None,
        with_paths(procs, pids_named(procs, zed_exe())).len() > 1,
    ensures
        match given_path {
            Some(path) => resolution(given_path, None, procs, own_pid) == Ok::<
                Option<TargetView>,
                Seq<char>,
            >(Some(TargetView { exe: path, pid: None })),
            None => resolution(given_path, None, procs, own_pid) is Err,
        },
{
}

proof fn lemma_pids_named(procs: Seq<ProcessInfo>, name: Seq<char>, pid: u32)
    ensures
        pids_named(procs, name).contains(pid) <==> exists|i: int|
            0 <= i < procs.len() && (#[trigger] procs[i]).pid == pid && ascii_lower(procs[i].name@)
                == ascii_lower(name),
    decreases procs.len(),
{
    let all = pids_named(procs, name);
    if procs.len() > 0 {
        let head = procs.drop_last();
        let before = pids_named(head, name);
        lemma_pids_named(head, name, pid);
        if all.contains(pid) {
            let k = choose|k: int| 0 <= k < all.len() && all[k] == pid;
            if k < before.len() {
                assert(before[k] == pid);
                assert(before.contains(pid));
                let i = choose|i: int|
                    0 <= i < head.len() && (#[trigger] head[i]).pid == pid && ascii_lower(
                        head[i].name@,
                    ) == ascii_lower(name);
                assert(procs[i] == head[i]);
            } else {
                assert(procs[procs.len() - 1].pid == pid);
            }
        }
        if exists|i: int|
            0 <= i < procs.len() && (#[trigger] procs[i]).pid == pid && ascii_lower(procs[i].name@)
                == ascii_lower(name) {
            let i = choose|i: int|
                0 <= i < procs.len() && (#[trigger] procs[i]).pid == pid && ascii_lower(
                    procs[i].name@,
                ) == ascii_lower(name);
            if i < head.len() {
                assert(head[i] == procs[i]);
                assert(before.contains(pid));
                let k = choose|k: int| 0 <= k < before.len() && before[k] == pid;
                assert(all[k] == pid);
            } else {
                assert(all[before.len() as int] == pid);
            }
        }
    }
}

/// A running Zed is a process whose executable is named `zed.exe`, whatever the
/// case.
pub proof fn law_zed_is_known_by_its_name(procs: Seq<ProcessInfo>, pid: u32)
    ensures
        zed_alive(procs, pid) <==> exists|i: int|
            0 <= i < procs.len() && (#[trigger] procs[i]).pid == pid && ascii_lower(procs[i].name@)
                == "zed.exe"@,
{
    reveal_strlit("zed.exe");
    assert(ascii_lower("zed.exe"@) == "zed.exe"@);
    lemma_pids_named(procs, "zed.exe"@, pid);
}

/// What is known of a PID is what the first process of the snapshot with that
/// PID says; of a PID that no process has, nothing is known.
pub proof fn law_lookup(procs: Seq<ProcessInfo>, pid: u32, i: int)
    requires
        0 <= i <= procs.len(),
        forall|j: int| 0 <= j < i ==> (#[trigger] procs[j]).pid != pid,
        i < procs.len() ==> procs[i].pid == pid,
    ensures
        i < procs.len() ==> parent_of(procs, pid) == Some(procs[i].parent),
        i < procs.len() ==> path_of(procs, pid) == some_text(procs[i].path),
        i < procs.len() ==> started_at(procs, pid) == procs[i].started,
        i == procs.len() ==> parent_of(procs, pid) is None,
        i == procs.len() ==> path_of(procs, pid) is None,
        i == procs.len() ==> started_at(procs, pid) is None,
    decreases i,
{
    if i > 0 {
        let rest = procs.skip(1);
        assert(procs[0].pid != pid);
        assert forall|j: int| 0 <= j < i - 1 implies (#[trigger] rest[j]).pid != pid by {
            assert(rest[j] == procs[j + 1]);
        }
        law_lookup(rest, pid, i - 1);
    }
}

/// The processes of a name are those of the first part of a snapshot, then those
/// of the rest; of one process it is its PID if its name is the same up to case.
pub proof fn law_pids_named(
    a: Seq<ProcessInfo>,
    b: Seq<ProcessInfo>,
    p: ProcessInfo,
    name: Seq<char>,
)
    ensures
        pids_named(a + b, name) == pids_named(a, name) + pids_named(b, name),
        pids_named(seq![p], name) == if ascii_lower(p.name@) == ascii_lower(name) {
            seq![p.pid]
        } else {
            Seq::empty()
        },
    decreases b.len(),
{
    assert(seq![p].drop_last() == Seq::<ProcessInfo>::empty());
    assert(pids_named(Seq::empty(), name) == Seq::<u32>::empty());
    if b.len() == 0 {
        assert(a + b == a);
    } else {
        law_pids_named(a, b.drop_last(), p, name);
        assert((a + b).drop_last() == a + b.drop_last());
        assert((a + b).last() == b.last());
        assert(pids_named(a + b, name) == pids_named(a, name) + pids_named(b, name));
    }
}

/// The processes of an executable are found one by one, in order: a PID counts
/// if its path can be read and is the same up to case.
pub proof fn law_running_exe(
    procs: Seq<ProcessInfo>,
    pids: Seq<u32>,
    pid: u32,
    exe: Seq<char>,
)
    ensures
        running_exe(procs, pids.push(pid), exe) == if path_of(procs, pid) matches Some(path)
            && ascii_lower(path) == ascii_lower(exe) {
            running_exe(procs, pids, exe).push(pid)
        } else {
            running_exe(procs, pids, exe)
        },
        running_exe(procs, Seq::empty(), exe) == Seq::<u32>::empty(),
{
    assert(pids.push(pid).drop_last() == pids);
}

/// `chain` leads from a process to its parent, to the parent of that, and so on.
pub open spec fn is_chain(procs: Seq<ProcessInfo>, chain: Seq<u32>) -> bool {
    forall|i: int|
        0 <= i < chain.len() - 1 ==> parent_of(procs, #[trigger] chain[i]) == Some(chain[i + 1])
            && chain[i + 1] != chain[i]
}

/// The path of the process `pid` can be read, and its file name is `zed.exe`,
/// whatever the case.
pub open spec fn runs_zed(procs: Seq<ProcessInfo>, pid: u32) -> bool {
    path_of(procs, pid) matches Some(path) && (file_name(path) matches Some(name) && ascii_lower(
        name,
    ) == "zed.exe"@)
}

proof fn lemma_zed_lower()
    ensures
        ascii_lower("zed.exe"@) == "zed.exe"@,
{
    reveal_strlit("zed.exe");
    assert(ascii_lower("zed.exe"@) == "zed.exe"@);
}

proof fn lemma_closest_ancestor(procs: Seq<ProcessInfo>, chain: Seq<u32>, depth: nat)
    requires
        2 <= chain.len() <= depth + 1,
        is_chain(procs, chain),
        runs_zed(procs, chain.last()),
        forall|i: int| 0 < i < chain.len() - 1 ==> !runs_zed(procs, #[trigger] chain[i]),
    ensures
        ancestor(procs, chain[0], depth) == Some((chain.last(), path_of(procs, chain.last())->0)),
    decreases depth,
{
    lemma_zed_lower();
    assert(parent_of(procs, chain[0]) == Some(chain[1]));
    if chain.len() > 2 {
        let rest = chain.skip(1);
        assert(!runs_zed(procs, chain[1]));
        assert forall|i: int| 0 <= i < rest.len() - 1 implies parent_of(procs, #[trigger] rest[i])
            == Some(rest[i + 1]) && rest[i + 1] != rest[i] by {
            assert(rest[i] == chain[i + 1]);
        }
        assert forall|i: int| 0 < i < rest.len() - 1 implies !runs_zed(procs, #[trigger] rest[i]) by {
            assert(rest[i] == chain[i + 1]);
        }
        lemma_closest_ancestor(procs, rest, (depth - 1) as nat);
        assert(rest[0] == chain[1]);
    }
}

/// The closest Zed ancestor is the first Zed on the way from a process to its
/// parents, within 32 generations.
pub proof fn law_closest_ancestor(procs: Seq<ProcessInfo>, chain: Seq<u32>)
    requires
        2 <= chain.len() <= 33,
        is_chain(procs, chain),
        runs_zed(procs, chain.last()),
        forall|i: int| 0 < i < chain.len() - 1 ==> !runs_zed(procs, #[trigger] chain[i]),
    ensures
        ancestor(procs, chain[0], 32) == Some((chain.last(), path_of(procs, chain.last())->0)),
{
    lemma_closest_ancestor(procs, chain, 32);
}

/// `chain` is the way from `own_pid` to the Zed `pid`, on which there is no
/// other.
pub open spec fn leads_to_zed(
    procs: Seq<ProcessInfo>,
    chain: Seq<u32>,
    own_pid: u32,
    pid: u32,
) -> bool {
    &&& chain.len() >= 2
    &&& chain[0] == own_pid
    &&& chain.last() == pid
    &&& is_chain(procs, chain)
    &&& runs_zed(procs, pid)
    &&& forall|i: int| 0 < i < chain.len() - 1 ==> !runs_zed(procs, #[trigger] chain[i])
}

/// A Zed ancestor stands on the way from the process to its parents, and there
/// is no closer one.
pub proof fn law_ancestor_is_on_the_way(procs: Seq<ProcessInfo>, own_pid: u32, depth: nat)
    ensures
        ancestor(procs, own_pid, depth) matches Some((pid, path)) ==> path_of(procs, pid) == Some(
            path,
        ) && exists|chain: Seq<u32>| #[trigger] leads_to_zed(procs, chain, own_pid, pid)
            && chain.len() <= depth + 1,
    decreases depth,
{
    lemma_zed_lower();
    if let Some((pid, path)) = ancestor(procs, own_pid, depth) {
        let parent = parent_of(procs, own_pid)->0;
        if runs_zed(procs, parent) {
            let chain = seq![own_pid, parent];
            assert(is_chain(procs, chain));
            assert(leads_to_zed(procs, chain, own_pid, pid));
        } else {
            law_ancestor_is_on_the_way(procs, parent, (depth - 1) as nat);
            let rest = choose|chain: Seq<u32>| #[trigger]
                leads_to_zed(procs, chain, parent, pid) && chain.len() <= depth;
            let chain = seq![own_pid] + rest;
            assert forall|i: int| 0 <= i < chain.len() - 1 implies parent_of(
                procs,
                #[trigger] chain[i],
            ) == Some(chain[i + 1]) && chain[i + 1] != chain[i] by {
                if i > 0 {
                    assert(chain[i] == rest[i - 1]);
                    assert(chain[i + 1] == rest[i]);
                }
            }
            assert forall|i: int| 0 < i < chain.len() - 1 implies !runs_zed(
                procs,
                #[trigger] chain[i],
            ) by {
                assert(chain[i] == rest[i - 1]);
            }
            assert(chain.last() == rest.last());
            assert(leads_to_zed(procs, chain, own_pid, pid));
        }
    }
}

/// The process at this place of the snapshot is named as Zed's executable, and
/// its path can be read.
pub open spec fn is_readable_zed(procs: Seq<ProcessInfo>, i: int) -> bool {
    ascii_lower(procs[i].name@) == "zed.exe"@ && path_of(procs, procs[i].pid) is Some
}

proof fn lemma_with_paths_add(procs: Seq<ProcessInfo>, a: Seq<u32>, b: Seq<u32>)
    ensures
        with_paths(procs, a + b) == with_paths(procs, a) + with_paths(procs, b),
    decreases b.len(),
{
    if b.len() == 0 {
        assert(a + b == a);
        assert(with_paths(procs, b) == Seq::<(u32, Seq<char>)>::empty());
    } else {
        lemma_with_paths_add(procs, a, b.drop_last());
        assert((a + b).drop_last() == a + b.drop_last());
        assert((a + b).last() == b.last());
        assert(with_paths(procs, a + b) == with_paths(procs, a) + with_paths(procs, b));
    }
}

/// The Zeds of a part of a snapshot whose path can be read.
spec fn readable_in(procs: Seq<ProcessInfo>, part: Seq<ProcessInfo>) -> Seq<(u32, Seq<char>)> {
    with_paths(procs, pids_named(part, "zed.exe"@))
}

proof fn lemma_readable_one(procs: Seq<ProcessInfo>, i: int)
    requires
        0 <= i < procs.len(),
    ensures
        readable_in(procs, seq![procs[i]]) == if is_readable_zed(procs, i) {
            seq![(procs[i].pid, path_of(procs, procs[i].pid)->0)]
        } else {
            Seq::empty()
        },
{
    lemma_zed_lower();
    let none = Seq::<ProcessInfo>::empty();
    law_pids_named(none, none, procs[i], "zed.exe"@);
    assert(with_paths(procs, Seq::empty()) == Seq::<(u32, Seq<char>)>::empty());
    assert(seq![procs[i].pid].drop_last() == Seq::<u32>::empty());
}

proof fn lemma_readable_none(procs: Seq<ProcessInfo>, from: int, to: int)
    requires
        0 <= from <= to <= procs.len(),
        forall|j: int| from <= j < to ==> !#[trigger] is_readable_zed(procs, j),
    ensures
        readable_in(procs, procs.subrange(from, to)).len() == 0,
    decreases to - from,
{
    if from < to {
        lemma_readable_none(procs, from, to - 1);
        assert(!is_readable_zed(procs, to - 1));
        lemma_readable_one(procs, to - 1);
        lemma_readable_add(procs, procs.subrange(from, to - 1), seq![procs[to - 1]]);
        assert(procs.subrange(from, to) == procs.subrange(from, to - 1) + seq![procs[to - 1]]);
    }
}

proof fn lemma_readable_add(procs: Seq<ProcessInfo>, a: Seq<ProcessInfo>, b: Seq<ProcessInfo>)
    ensures
        readable_in(procs, a + b) == readable_in(procs, a) + readable_in(procs, b),
{
    let name = "zed.exe"@;
    if procs.len() > 0 {
        law_pids_named(a, b, procs[0], name);
    } else {
        law_pids_named(a, b, arbitrary(), name);
    }
    lemma_with_paths_add(procs, pids_named(a, name), pids_named(b, name));
}

proof fn lemma_readable_at(procs: Seq<ProcessInfo>, i: int)
    requires
        0 <= i < procs.len(),
    ensures
        readable_in(procs, procs) == readable_in(procs, procs.take(i)) + readable_in(
            procs,
            seq![procs[i]],
        ) + readable_in(procs, procs.skip(i + 1)),
{
    let here = seq![procs[i]];
    lemma_readable_add(procs, procs.take(i), here);
    lemma_readable_add(procs, procs.take(i) + here, procs.skip(i + 1));
    assert(procs == procs.take(i) + here + procs.skip(i + 1));
}

/// Without a PID given and without a Zed ancestor, the only running Zed whose
/// path can be read is the target, whether or not a path was given.
pub proof fn law_only_zed_is_the_target(
    given_path: Option<Seq<char>>,
    procs: Seq<ProcessInfo>,
    own_pid: u32,
    i: int,
)
    requires
        ancestor(procs, own_pid, 32) is None,
        0 <= i < procs.len(),
        forall|j: int| 0 <= j < procs.len() ==> (#[trigger] is_readable_zed(procs, j) <==> j == i),
    ensures
        resolution(given_path, None, procs, own_pid) == Ok::<Option<TargetView>, Seq<char>>(
            Some(
                TargetView {
                    exe: match given_path {
                        Some(path) => path,
                        None => path_of(procs, procs[i].pid)->0,
                    },
                    pid: Some(procs[i].pid),
                },
            ),
        ),
{
    assert(is_readable_zed(procs, i));
    lemma_readable_at(procs, i);
    lemma_readable_one(procs, i);
    lemma_readable_none(procs, 0, i);
    lemma_readable_none(procs, i + 1, procs.len() as int);
    assert(procs.take(i) == procs.subrange(0, i));
    assert(procs.skip(i + 1) == procs.subrange(i + 1, procs.len() as int));
    let running = readable_in(procs, procs);
    assert(running == seq![(procs[i].pid, path_of(procs, procs[i].pid)->0)]);
}

/// Without a PID given, without a Zed ancestor and without a running Zed there
/// is no target, whether or not a path was given.
pub proof fn law_no_zed_no_target(
    given_path: Option<Seq<char>>,
    procs: Seq<ProcessInfo>,
    own_pid: u32,
)
    requires
        ancestor(procs, own_pid, 32) is None,
        forall|j: int| 0 <= j < procs.len() ==> !#[trigger] is_readable_zed(procs, j),
    ensures
        resolution(given_path, None, procs, own_pid) == Ok::<Option<TargetView>, Seq<char>>(None),
{
    lemma_readable_none(procs, 0, procs.len() as int);
    assert(procs == procs.subrange(0, procs.len() as int));
    assert(readable_in(procs, procs).len() == 0);
}

/// With two running Zeds, no PID given and no Zed ancestor, nothing is stopped:
/// the executable that was given is started, and without one the choice is
/// refused, by a message that names both.
pub proof fn law_two_zeds_are_ambiguous(
    given_path: Option<Seq<char>>,
    procs: Seq<ProcessInfo>,
    own_pid: u32,
    i: int,
    j: int,
)
    requires
        ancestor(procs, own_pid, 32) is None,
        0 <= i < j < procs.len(),
        is_readable_zed(procs, i),
        is_readable_zed(procs, j),
    ensures
        match given_path {
            Some(path) => resolution(given_path, None, procs, own_pid) == Ok::<
                Option<TargetView>,
                Seq<char>,
            >(Some(TargetView { exe: path, pid: None })),
            None => resolution(given_path, None, procs, own_pid) matches Err(e) && contains(
                e,
                "pid "@ + decimal(procs[i].pid as nat) + ": "@ + path_of(procs, procs[i].pid)->0,
            ) && contains(
                e,
                "pid "@ + decimal(procs[j].pid as nat) + ": "@ + path_of(procs, procs[j].pid)->0,
            ),
        },
{
    let rest = procs.skip(i + 1);
    let here = seq![procs[j]];
    let before = procs.subrange(i + 1, j);
    lemma_readable_at(procs, i);
    lemma_readable_one(procs, i);
    lemma_readable_one(procs, j);
    lemma_readable_add(procs, before, here);
    lemma_readable_add(procs, before + here, procs.skip(j + 1));
    assert(rest == before + here + procs.skip(j + 1));
    let running = readable_in(procs, procs);
    let m = readable_in(procs, procs.take(i)).len() as int;
    let n = m + 1 + readable_in(procs, before).len();
    assert(running[m] == (procs[i].pid, path_of(procs, procs[i].pid)->0));
    assert(running[n] == (procs[j].pid, path_of(procs, procs[j].pid)->0));
    law_refusal_names_the_zeds(running, m);
    law_refusal_names_the_zeds(running, n);
}

/// The refusal of an ambiguous choice names each of the running Zeds by its PID
/// and its path.
pub proof fn law_refusal_names_the_zeds(running: Seq<(u32, Seq<char>)>, i: int)
    requires
        0 <= i < running.len(),
    ensures
        contains(
            ambiguous(running),
            "pid "@ + decimal(running[i].0 as nat) + ": "@ + running[i].1,
        ),
{
    let lines = Seq::new(running.len(), |k: int| process_line(running[k].0, running[k].1));
    let sep = "\n  "@;
    let list = join(lines, sep);
    law_join_holds_its_parts(lines, sep, i);
    let line = lines[i];
    law_contains_is_between(list, line);
    let (a, b) = choose|a: Seq<char>, b: Seq<char>| list == #[trigger] (a + line + b);
    let all = ambiguous(running);
    let head = all.take(all.len() - list.len());
    assert(all == head + list);
    law_contained_between(head + a, line, b);
    assert(all == head + a + line + b);
}

/// A PID that was given is the target. With a path given as well, nothing else
/// is asked; else it has to be a Zed, whose executable is started again, and a
/// PID of which no path can be read, or that of another program, is refused.
pub proof fn law_given_pid(
    given_path: Option<Seq<char>>,
    pid: u32,
    procs: Seq<ProcessInfo>,
    own_pid: u32,
)
    ensures
        match (given_path, path_of(procs, pid)) {
            (Some(path), _) => resolution(given_path, Some(pid), procs, own_pid) == Ok::<
                Option<TargetView>,
                Seq<char>,
            >(Some(TargetView { exe: path, pid: Some(pid) })),
            (None, Some(path)) if runs_zed(procs, pid) => resolution(
                given_path,
                Some(pid),
                procs,
                own_pid,
            ) == Ok::<Option<TargetView>, Seq<char>>(
                Some(TargetView { exe: path, pid: Some(pid) }),
            ),
            (None, Some(path)) => resolution(given_path, Some(pid), procs, own_pid) == Err::<
                Option<TargetView>,
                Seq<char>,
            >("pid "@ + decimal(pid as nat) + " is not a Zed process ("@ + path + ")"@),
            (None, None) => resolution(given_path, Some(pid), procs, own_pid) == Err::<
                Option<TargetView>,
                Seq<char>,
            >("cannot query exe path of pid "@ + decimal(pid as nat)),
        },
{
    lemma_zed_lower();
}

/// Without a PID given, a Zed ancestor is the target; the executable that was
/// given is started, else that of the ancestor.
pub proof fn law_ancestor_is_the_target(
    given_path: Option<Seq<char>>,
    procs: Seq<ProcessInfo>,
    own_pid: u32,
    pid: u32,
    path: Seq<char>,
)
    requires
        ancestor(procs, own_pid, 32) == Some((pid, path)),
    ensures
        resolution(given_path, None, procs, own_pid) == Ok::<Option<TargetView>, Seq<char>>(
            Some(
                TargetView {
                    exe: match given_path {
                        Some(given) => given,
                        None => path,
                    },
                    pid: Some(pid),
                },
            ),
        ),
{
}

/// The refusal of an ambiguous choice says how to choose, and then lists the
/// running Zeds, one to a line.
pub proof fn law_refusal_text(running: Seq<(u32, Seq<char>)>, pid: u32, path: Seq<char>)
    ensures
        ambiguous(seq![(pid, path)])
            == "no Zed ancestor and several Zed processes are running — cannot tell which to restart (pass --zed-pid or --zed-path):\n  "@
            + ("pid "@ + decimal(pid as nat) + ": "@ + path),
        running.len() > 0 ==> ambiguous(running.push((pid, path))) == ambiguous(running)
            + "\n  "@ + ("pid "@ + decimal(pid as nat) + ": "@ + path),
{
    let lines = Seq::new(running.len(), |k: int| process_line(running[k].0, running[k].1));
    let line = process_line(pid, path);
    let one = seq![(pid, path)];
    let more = running.push((pid, path));
    law_join(lines, line, "\n  "@);
    assert(Seq::new(one.len(), |k: int| process_line(one[k].0, one[k].1)) == seq![line]);
    assert(Seq::new(more.len(), |k: int| process_line(more[k].0, more[k].1)) == lines.push(line));
    if running.len() > 0 {
        assert(ambiguous(more) == ambiguous(running) + "\n  "@ + line);
    }
}

/// A resolution says what was resolved: the executable, the PID, or the reason.
pub proof fn law_resolution_says(r: Result<Option<Target>, String>)
    ensures
        match r {
            Ok(Some(target)) => resolution_of(r) == Ok::<Option<TargetView>, Seq<char>>(
                Some(TargetView { exe: target.exe@, pid: target.pid }),
            ),
            Ok(None) => resolution_of(r) == Ok::<Option<TargetView>, Seq<char>>(None),
            Err(e) => resolution_of(r) == Err::<Option<TargetView>, Seq<char>>(e@),
        },
{
}

} // verus!
