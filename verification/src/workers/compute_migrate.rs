//! Cold VM migration, source side: shut the guest down, wait for it to be
//! off, ship its disk to the target peer over the overlay, announce the
//! disk, undefine the guest. This module holds the request and event
//! shapes, the command lines and the decisions of that flow.
use vstd::prelude::*;

use std::time::Duration;

use crate::workers::time::{duration_from_millis, millis};
use crate::text::{
    chars_of, eq_ignore_case, eq_ignore_case_exec, owned, push_str, str_eq_str, texts, trim,
    trim_str, string_of, lines, lines_str, starts_with, starts_with_exec, split_char, split_exec,
    trim_exec, slice_chars, lemma_split_by_nonempty,
};

verus! {

/// The Bus topic migration requests arrive on.
pub const ACTION_TOPIC: &'static str = "action/compute/migrate";

/// The Bus topic announcing a shipped disk.
pub const MIGRATE_READY_TOPIC: &'static str = "event/compute/migrate-ready";

/// Where the target peer keeps VM disks.
pub const DEFAULT_TARGET_VM_DIR: &'static str = "/var/lib/mde-vms/";

/// The overlay interface.
pub const DEFAULT_NEBULA_INTERFACE: &'static str = "nebula1";

/// A migration request.
#[derive(Debug, Clone, PartialEq)]
pub struct MigrateRequest {
    /// Overlay address of the peer that holds the VM now.
    pub source_peer: String,
    /// Overlay address of the peer that receives it.
    pub target_peer: String,
    /// libvirt domain id.
    pub vm_id: String,
    /// The VM's disk on the source peer.
    pub disk_path: String,
}

/// The announcement that a disk reached the target.
#[derive(Debug, Clone, PartialEq)]
pub struct MigrateReadyEvent {
    pub source_peer: String,
    pub target_peer: String,
    pub vm_id: String,
    /// Where the disk landed on the target.
    pub target_disk_path: String,
    /// ULID of the request, for correlation.
    pub request_ulid: String,
}

/// How a migration ended on the source side.
#[derive(Debug, Clone, PartialEq)]
pub enum MigrationOutcome {
    Succeeded,
    /// The guest did not shut down in time.
    ShutdownTimeout,
    /// `rsync` failed.
    RsyncFailure { exit_description: String },
    /// `virsh` could not be run.
    VirshUnavailable,
}

/// Whether this peer (overlay address `own_nebula_ip`) is the request's
/// source; an empty own address never is.
pub fn is_source_peer(req: &MigrateRequest, own_nebula_ip: &str) -> (b: bool)
    ensures
        b == (own_nebula_ip@.len() > 0 && req.source_peer@ == own_nebula_ip@),
{
    !own_nebula_ip.is_empty() && str_eq_str(req.source_peer.as_str(), own_nebula_ip)
}

/// The two-element argument list `[a, b]`.
pub fn arg_pair(a: &str, b: &str) -> (v: Vec<String>)
    ensures
        texts(v@) == seq![a@, b@],
{
    let mut v: Vec<String> = Vec::new();
    v.push(owned(a));
    v.push(owned(b));
    assert(texts(v@) =~= seq![a@, b@]);
    v
}

/// `virsh shutdown <vm_id>`.
pub fn build_virsh_shutdown_args(vm_id: &str) -> (v: Vec<String>)
    ensures
        texts(v@) == seq!["shutdown"@, vm_id@],
{
    arg_pair("shutdown", vm_id)
}

/// `virsh domstate <vm_id>`.
pub fn build_virsh_domstate_args(vm_id: &str) -> (v: Vec<String>)
    ensures
        texts(v@) == seq!["domstate"@, vm_id@],
{
    arg_pair("domstate", vm_id)
}

/// `virsh undefine <vm_id>`.
pub fn build_virsh_undefine_args(vm_id: &str) -> (v: Vec<String>)
    ensures
        texts(v@) == seq!["undefine"@, vm_id@],
{
    arg_pair("undefine", vm_id)
}

/// The state token of `virsh domstate` output: the trimmed text, or `None`
/// when nothing is left.
pub fn parse_virsh_domstate(stdout: &str) -> (r: Option<String>)
    ensures
        match r {
            Some(s) => trim(stdout@).len() > 0 && s@ == trim(stdout@),
            None => trim(stdout@).len() == 0,
        },
{
    let t = trim_str(stdout);
    if t.len() == 0 {
        None
    } else {
        Some(string_of(&t))
    }
}

/// Whether a state token is `shut off`, in any ASCII case.
pub fn is_shutoff(state: &str) -> (b: bool)
    ensures
        b == eq_ignore_case(state@, "shut off"@),
{
    let s = chars_of(state);
    let target = chars_of("shut off");
    eq_ignore_case_exec(&s, &target)
}

/// `rsync --compress --progress <disk_path> <target_peer>:<target_dir>`.
pub fn build_rsync_args(disk_path: &str, target_peer: &str, target_dir: &str) -> (v: Vec<String>)
    ensures
        texts(v@) == seq![
            "--compress"@,
            "--progress"@,
            disk_path@,
            target_peer@ + seq![':'] + target_dir@,
        ],
{
    proof {
        reveal_strlit(":");
    }
    let mut dest = owned(target_peer);
    push_str(&mut dest, ":");
    push_str(&mut dest, target_dir);
    assert(dest@ == target_peer@ + seq![':'] + target_dir@);
    let mut v: Vec<String> = Vec::new();
    v.push(owned("--compress"));
    v.push(owned("--progress"));
    v.push(owned(disk_path));
    v.push(dest);
    assert(texts(v@).len() == 4);
    assert(texts(v@)[3] == target_peer@ + seq![':'] + target_dir@);
    assert(texts(v@) =~= seq![
        "--compress"@,
        "--progress"@,
        disk_path@,
        target_peer@ + seq![':'] + target_dir@,
    ]);
    v
}

/// `Path::file_name` of a path, as text: its final component unless the
/// path ends in `..` or has none.
pub uninterp spec fn path_file_name(p: Seq<char>) -> Option<Seq<char>>;

/// `std::path::Path::file_name` (with `OsStr::to_str`). Claimed: the
/// result is the named value `path_file_name(p)`; which component std takes
/// as the final one is left to std.
#[verifier::external_body]
fn file_name_of(p: &str) -> (r: Option<String>)
    ensures
        match r {
            Some(s) => path_file_name(p@) == Some(s@),
            None => path_file_name(p@) is None,
        },
{
    std::path::Path::new(p).file_name().and_then(|s| s.to_str()).map(|s| s.to_string())
}

/// Where a disk whose file name is `file_name` lands on the target:
/// `target_dir`, a `/` unless it already ends in one, then the file name
/// (`disk.qcow2` when there is none).
pub open spec fn target_path_with(file_name: Option<Seq<char>>, target_dir: Seq<char>) -> Seq<char> {
    let base = match file_name {
        Some(b) => b,
        None => "disk.qcow2"@,
    };
    let sep = if target_dir.len() > 0 && target_dir.last() == '/' {
        Seq::<char>::empty()
    } else {
        seq!['/']
    };
    target_dir + sep + base
}

/// Where a disk lands on the target, by its path's file name.
pub open spec fn target_path(disk_path: Seq<char>, target_dir: Seq<char>) -> Seq<char> {
    target_path_with(path_file_name(disk_path), target_dir)
}

/// The target path for a disk whose file name (`Path::file_name` of its
/// path) is `file_name`.
pub fn target_path_from(file_name: Option<&str>, target_dir: &str) -> (p: String)
    ensures
        p@ == target_path_with(
            match file_name {
                Some(b) => Some(b@),
                None => None,
            },
            target_dir@,
        ),
{
    let dir = chars_of(target_dir);
    let mut p = owned(target_dir);
    if !(dir.len() > 0 && dir[dir.len() - 1] == '/') {
        push_str(&mut p, "/");
        proof {
            reveal_strlit("/");
        }
    }
    match file_name {
        Some(b) => push_str(&mut p, b),
        None => push_str(&mut p, "disk.qcow2"),
    }
    p
}

/// The path the disk has on the target after `rsync`.
pub fn target_disk_path_for(disk_path: &str, target_dir: &str) -> (p: String)
    ensures
        p@ == target_path(disk_path@, target_dir@),
{
    match file_name_of(disk_path) {
        Some(b) => target_path_from(Some(b.as_str()), target_dir),
        None => target_path_from(None, target_dir),
    }
}

/// The announcement for a shipped disk: the request's peers and VM, the
/// given target path and the request's ULID.
pub fn build_migrate_ready_event(
    req: &MigrateRequest,
    target_disk_path: String,
    request_ulid: String,
) -> (e: MigrateReadyEvent)
    ensures
        e.source_peer@ == req.source_peer@,
        e.target_peer@ == req.target_peer@,
        e.vm_id@ == req.vm_id@,
        e.target_disk_path == target_disk_path,
        e.request_ulid == request_ulid,
{
    MigrateReadyEvent {
        source_peer: owned(req.source_peer.as_str()),
        target_peer: owned(req.target_peer.as_str()),
        vm_id: owned(req.vm_id.as_str()),
        target_disk_path,
        request_ulid,
    }
}

/// Whether an observation reports the domain `shut off` (any ASCII case).
pub open spec fn observes_shutoff(o: Option<String>) -> bool {
    o is Some && eq_ignore_case(o->0@, "shut off"@)
}

/// Whether every observation an observer of type `F` can make, in any of
/// its states, reports `shut off`.
pub open spec fn always_shutoff<F: FnMut() -> Option<String>>() -> bool {
    forall|f: F, o: Option<String>| #[trigger] call_ensures(f, (), o) ==> observes_shutoff(o)
}

/// Whether no observation an observer of type `F` can make, in any of its
/// states, reports `shut off`.
pub open spec fn never_shutoff<F: FnMut() -> Option<String>>() -> bool {
    forall|f: F, o: Option<String>| #[trigger] call_ensures(f, (), o) ==> !observes_shutoff(o)
}

/// What one poll decides.
#[derive(Debug, Clone, Copy, PartialEq, Eq, Structural)]
pub enum ShutoffPoll {
    /// Stop, with this answer.
    Done(bool),
    /// Poll again.
    Again,
}

/// The decision after poll number `attempt` (from 0) of `attempts` saw
/// `obs`: done with `true` on a shut-off report, done with `false` after
/// the last poll, else poll again.
pub open spec fn shutoff_step_of(attempt: nat, attempts: nat, obs: Option<String>) -> ShutoffPoll {
    if observes_shutoff(obs) {
        ShutoffPoll::Done(true)
    } else if attempt + 1 >= attempts {
        ShutoffPoll::Done(false)
    } else {
        ShutoffPoll::Again
    }
}

/// Decides what follows poll number `attempt` (from 0) of `attempts`.
pub fn shutoff_step(attempt: usize, attempts: usize, obs: &Option<String>) -> (s: ShutoffPoll)
    ensures
        s == shutoff_step_of(attempt as nat, attempts as nat, *obs),
{
    let shut = match obs {
        Some(state) => is_shutoff(state.as_str()),
        None => false,
    };
    if shut {
        ShutoffPoll::Done(true)
    } else if attempts <= attempt || attempts - attempt == 1 {
        ShutoffPoll::Done(false)
    } else {
        ShutoffPoll::Again
    }
}

/// Whether `seen` is the run of a wait for shut-off with `attempts` polls
/// that answered `r`: no poll when `attempts` is 0 (answer `false`); else
/// every poll but the last decided to poll again, and the last decided
/// `r`.
pub open spec fn shutoff_run(seen: Seq<Option<String>>, attempts: nat, r: bool) -> bool {
    if attempts == 0 {
        seen.len() == 0 && !r
    } else {
        &&& 1 <= seen.len() <= attempts
        &&& forall|i: int| 0 <= i < seen.len() - 1 ==> shutoff_step_of(i as nat, attempts, #[trigger] seen[i])
            == ShutoffPoll::Again
        &&& shutoff_step_of((seen.len() - 1) as nat, attempts, seen.last()) == ShutoffPoll::Done(r)
    }
}

/// Polls `observer` up to `attempts` times, deciding after each poll by
/// [`shutoff_step`]; returns the answer and the observations made, in
/// order.
pub fn poll_until_shutoff<F>(observer: F, attempts: usize) -> (r: (bool, Vec<Option<String>>)) where
    F: FnMut() -> Option<String>,

    requires
        forall|f: F| #[trigger] call_requires(f, ()),
    ensures
        shutoff_run(r.1@, attempts as nat, r.0),
        forall|i: int| 0 <= i < r.1@.len() ==> call_ensures(observer, (), #[trigger] r.1@[i]),
{
    broadcast use vstd::function::group_function_axioms;
    let ghost f0 = observer;
    let mut poll = observer;
    let mut seen: Vec<Option<String>> = Vec::new();
    if attempts == 0 {
        return (false, seen);
    }
    let mut i: usize = 0;
    loop
        invariant
            0 < attempts,
            i < attempts,
            poll == f0,
            f0 == observer,
            seen@.len() == i,
            forall|f: F| #[trigger] call_requires(f, ()),
            forall|k: int| 0 <= k < seen@.len() ==> shutoff_step_of(k as nat, attempts as nat, #[trigger] seen@[k])
                == ShutoffPoll::Again,
            forall|k: int| 0 <= k < seen@.len() ==> call_ensures(f0, (), #[trigger] seen@[k]),
        decreases attempts - i,
    {
        let obs = poll();
        assert(call_ensures(f0, (), obs));
        let step = shutoff_step(i, attempts, &obs);
        let ghost prev = seen@;
        seen.push(obs);
        assert forall|k: int| 0 <= k < seen@.len() implies call_ensures(f0, (), #[trigger] seen@[k]) by {
            if k < prev.len() {
                assert(seen@[k] == prev[k]);
            }
        }
        match step {
            ShutoffPoll::Done(b) => {
                assert(seen@.last() == seen@[i as int]);
                return (b, seen);
            },
            ShutoffPoll::Again => {
                i = i + 1;
            },
        }
    }
}

/// Polls `observer` up to `attempts` times and reports whether an
/// observation was `shut off` (any ASCII case), stopping at the first one:
/// the answer is that of a run of [`shutoff_step`] decisions over
/// observations the observer can make. An observer that always reports
/// `shut off` gives `true` when there is a poll; one that never does gives
/// `false`.
pub fn wait_for_shutoff<F>(observer: F, attempts: usize) -> (r: bool) where
    F: FnMut() -> Option<String>,

    requires
        forall|f: F| #[trigger] call_requires(f, ()),
    ensures
        exists|seen: Seq<Option<String>>|
            #[trigger] shutoff_run(seen, attempts as nat, r) && forall|i: int|
                0 <= i < seen.len() ==> call_ensures(observer, (), #[trigger] seen[i]),
        r ==> attempts > 0,
        (attempts > 0 && always_shutoff::<F>()) ==> r,
        never_shutoff::<F>() ==> !r,
{
    let (r, seen) = poll_until_shutoff(observer, attempts);
    proof {
        let s = seen@;
        if attempts > 0 {
            assert(call_ensures(observer, (), s[0]));
            if always_shutoff::<F>() {
                assert(observes_shutoff(s[0]));
                if s.len() > 1 {
                    assert(shutoff_step_of(0, attempts as nat, s[0]) == ShutoffPoll::Again);
                }
            }
            let last = s.len() - 1;
            assert(call_ensures(observer, (), s[last]));
            assert(s.last() == s[last]);
        }
    }
    r
}

/// The poll cadence, in milliseconds.
pub const DEFAULT_POLL_MILLIS: u64 = 400;

/// The source-side migration worker's configuration.
pub struct ComputeMigrateWorker {
    pub nebula_interface: String,
    /// This peer's overlay address when known up front (empty: detect it).
    pub nebula_addr_hint: String,
    pub poll_interval: Duration,
    /// The bus root to use in place of the default one.
    pub bus_root_override: Option<String>,
}

impl ComputeMigrateWorker {
    /// The production defaults.
    pub fn new() -> (w: Self)
        ensures
            w.nebula_interface@ == DEFAULT_NEBULA_INTERFACE@,
            w.nebula_addr_hint@.len() == 0,
            w.poll_interval == duration_from_millis(DEFAULT_POLL_MILLIS),
            w.bus_root_override is None,
    {
        ComputeMigrateWorker {
            nebula_interface: owned(DEFAULT_NEBULA_INTERFACE),
            nebula_addr_hint: String::new(),
            poll_interval: millis(DEFAULT_POLL_MILLIS),
            bus_root_override: None,
        }
    }

    /// Uses `addr` as this peer's overlay address.
    pub fn with_nebula_addr_hint(self, addr: String) -> (w: Self)
        ensures
            w == (ComputeMigrateWorker { nebula_addr_hint: addr, ..self }),
    {
        ComputeMigrateWorker { nebula_addr_hint: addr, ..self }
    }

    /// Uses `p` as the bus root.
    pub fn with_bus_root(self, p: String) -> (w: Self)
        ensures
            w == (ComputeMigrateWorker { bus_root_override: Some(p), ..self }),
    {
        ComputeMigrateWorker { bus_root_override: Some(p), ..self }
    }

    /// Replaces the poll cadence.
    pub fn with_poll_interval(self, d: Duration) -> (w: Self)
        ensures
            w == (ComputeMigrateWorker { poll_interval: d, ..self }),
    {
        ComputeMigrateWorker { poll_interval: d, ..self }
    }

    /// This peer's overlay address: the hint when set, else the detected
    /// one.
    pub fn resolve_nebula_addr(&self, detected: String) -> (a: String)
        ensures
            self.nebula_addr_hint@.len() > 0 ==> a@ == self.nebula_addr_hint@,
            self.nebula_addr_hint@.len() == 0 ==> a == detected,
    {
        if !self.nebula_addr_hint.as_str().is_empty() {
            owned(self.nebula_addr_hint.as_str())
        } else {
            detected
        }
    }
}


/// The address on the first `inet <addr>/<prefix>` line (trimmed) of
/// `ip -4 addr show` output, or empty.
pub open spec fn inet_addr_of(ls: Seq<Seq<char>>) -> Seq<char>
    decreases ls.len(),
{
    if ls.len() == 0 {
        Seq::empty()
    } else if starts_with(trim(ls[0]), "inet "@) {
        split_char(trim(ls[0]).skip(5), '/')[0]
    } else {
        inet_addr_of(ls.drop_first())
    }
}

/// This peer's overlay address from `ip -4 addr show <iface>` output.
pub fn parse_inet_addr(stdout: &str) -> (r: String)
    ensures
        r@ == inet_addr_of(lines(stdout@)),
{
    let ls = lines_str(stdout);
    let ghost all = lines(stdout@);
    let pre = chars_of("inet ");
    proof {
        reveal_strlit("inet ");
    }
    let slash: Vec<char> = vec!['/'];
    assert(slash@ == seq!['/']);
    let mut i: usize = 0;
    assert(all.skip(0) =~= all);
    while i < ls.len()
        invariant
            i <= ls.len(),
            ls@.len() == all.len(),
            all == lines(stdout@),
            pre@ == "inet "@,
            pre@.len() == 5,
            slash@ == seq!['/'],
            forall|k: int| 0 <= k < ls@.len() ==> #[trigger] ls@[k]@ == all[k],
            inet_addr_of(all) == inet_addr_of(all.skip(i as int)),
        decreases ls.len() - i,
    {
        let ghost rest = all.skip(i as int);
        assert(rest[0] == all[i as int]);
        assert(rest.drop_first() == all.skip(i + 1));
        let t = trim_exec(&ls[i]);
        if starts_with_exec(&t, &pre) {
            let tail = slice_chars(&t, 5, t.len());
            assert(tail@ == trim(all[i as int]).skip(5));
            proof {
                lemma_split_by_nonempty(tail@, seq!['/'], false);
            }
            let pieces = split_exec(&tail, &slash, false);
            return string_of(&pieces[0]);
        }
        i = i + 1;
    }
    assert(all.skip(i as int) =~= Seq::<Seq<char>>::empty());
    String::new()
}

} // verus!
