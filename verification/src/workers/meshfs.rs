//! Mesh storage (LizardFS) worker: the command lines it runs to start the
//! master and chunkservers, converge the replication goal, evict departed
//! peers and move the floating master address, and the parsers of what
//! `ip addr` and `mfsadmin CS-LIST` print.
use std::time::Duration;

use vstd::prelude::*;

use crate::text::{
    contains, contains_exec, chars_of, decimal, lines, lines_str, owned, push_decimal, push_str,
    texts, tokens_exec, words, trim, trim_str, chars_eq, text_set, holds_exec, ascending,
    sorted_distinct, str_eq_str,
};
use crate::workers::time::{duration_from_secs, secs};

verus! {

/// The master binary.
pub const DEFAULT_MASTER_BINARY: &'static str = "mfsmaster";

/// The chunkserver binary.
pub const DEFAULT_CHUNKSERVER_BINARY: &'static str = "mfschunkserver";

/// The admin command-line tool.
pub const DEFAULT_ADMIN_BINARY: &'static str = "mfsadmin";

/// The goal-setting tool.
pub const DEFAULT_SETGOAL_BINARY: &'static str = "mfssetgoal";

/// The floating overlay address the active master listens on.
pub const DEFAULT_VIP: &'static str = "10.42.0.1";

/// The file holding this peer's overlay address.
pub const DEFAULT_OVERLAY_IP_PATH: &'static str = "/var/lib/mackesd/nebula/overlay-ip";

/// The master's TCP port.
pub const MFSMASTER_PORT: u16 = 9419;

/// The export under the storage root.
pub const EXPORT_NAME: &'static str = "mesh-storage";

/// Where the client mounts the storage.
pub const DEFAULT_MOUNT_PATH: &'static str = "/mnt/mesh-storage";

/// The marker whose presence makes a peer a lighthouse, eligible for the
/// floating address.
pub const DEFAULT_ROLE_MARKER_PATH: &'static str = "/var/lib/mackesd/nebula/role.host";

/// The overlay interface.
pub const DEFAULT_OVERLAY_IFACE: &'static str = "nebula1";

/// The overlay's prefix length.
pub const OVERLAY_CIDR_PREFIX: u8 = 16;

/// The sweep cadence, in seconds.
pub const DEFAULT_TICK_SECS: u64 = 5;

/// The worker's configuration: cadence, paths, binaries, the floating
/// address and the optional peer-discovery root.
pub struct MeshFsWorker {
    pub tick: Duration,
    pub overlay_ip_path: String,
    pub master_binary: String,
    pub chunkserver_binary: String,
    pub admin_binary: String,
    pub setgoal_binary: String,
    pub vip: String,
    pub qnm_root: Option<String>,
    pub self_node_id: Option<String>,
    pub role_marker_path: String,
    pub overlay_iface: String,
}

impl MeshFsWorker {
    /// The production defaults.
    pub fn new() -> (w: Self)
        ensures
            w.tick == duration_from_secs(DEFAULT_TICK_SECS),
            w.overlay_ip_path@ == DEFAULT_OVERLAY_IP_PATH@,
            w.master_binary@ == DEFAULT_MASTER_BINARY@,
            w.chunkserver_binary@ == DEFAULT_CHUNKSERVER_BINARY@,
            w.admin_binary@ == DEFAULT_ADMIN_BINARY@,
            w.setgoal_binary@ == DEFAULT_SETGOAL_BINARY@,
            w.vip@ == DEFAULT_VIP@,
            w.qnm_root is None,
            w.self_node_id is None,
            w.role_marker_path@ == DEFAULT_ROLE_MARKER_PATH@,
            w.overlay_iface@ == DEFAULT_OVERLAY_IFACE@,
    {
        MeshFsWorker {
            tick: secs(DEFAULT_TICK_SECS),
            overlay_ip_path: owned(DEFAULT_OVERLAY_IP_PATH),
            master_binary: owned(DEFAULT_MASTER_BINARY),
            chunkserver_binary: owned(DEFAULT_CHUNKSERVER_BINARY),
            admin_binary: owned(DEFAULT_ADMIN_BINARY),
            setgoal_binary: owned(DEFAULT_SETGOAL_BINARY),
            vip: owned(DEFAULT_VIP),
            qnm_root: None,
            self_node_id: None,
            role_marker_path: owned(DEFAULT_ROLE_MARKER_PATH),
            overlay_iface: owned(DEFAULT_OVERLAY_IFACE),
        }
    }

    /// Turns on peer discovery under `qnm_root`, skipping `self_node_id`.
    pub fn with_qnm_peer_discovery(self, qnm_root: String, self_node_id: String) -> (w: Self)
        ensures
            w == (MeshFsWorker { qnm_root: Some(qnm_root), self_node_id: Some(self_node_id), ..self }),
    {
        MeshFsWorker { qnm_root: Some(qnm_root), self_node_id: Some(self_node_id), ..self }
    }

    /// Replaces the cadence.
    pub fn with_tick(self, t: Duration) -> (w: Self)
        ensures
            w == (MeshFsWorker { tick: t, ..self }),
    {
        MeshFsWorker { tick: t, ..self }
    }

    /// Replaces the overlay-address file.
    pub fn with_overlay_ip_path(self, path: String) -> (w: Self)
        ensures
            w == (MeshFsWorker { overlay_ip_path: path, ..self }),
    {
        MeshFsWorker { overlay_ip_path: path, ..self }
    }

    /// Replaces the master binary.
    pub fn with_master_binary(self, name: String) -> (w: Self)
        ensures
            w == (MeshFsWorker { master_binary: name, ..self }),
    {
        MeshFsWorker { master_binary: name, ..self }
    }

    /// Replaces the floating address.
    pub fn with_vip(self, vip: String) -> (w: Self)
        ensures
            w == (MeshFsWorker { vip: vip, ..self }),
    {
        MeshFsWorker { vip, ..self }
    }

    /// Replaces the lighthouse marker path.
    pub fn with_role_marker_path(self, path: String) -> (w: Self)
        ensures
            w == (MeshFsWorker { role_marker_path: path, ..self }),
    {
        MeshFsWorker { role_marker_path: path, ..self }
    }

    /// Replaces the overlay interface.
    pub fn with_overlay_iface(self, iface: String) -> (w: Self)
        ensures
            w == (MeshFsWorker { overlay_iface: iface, ..self }),
    {
        MeshFsWorker { overlay_iface: iface, ..self }
    }
}

/// What the high-availability step found: whether this peer is a
/// lighthouse, whether a master answers at the floating address, and
/// whether this peer already holds that address.
#[derive(Debug, Clone, Copy, PartialEq, Eq)]
pub struct HaObservation {
    pub is_lighthouse: bool,
    pub master_reachable: bool,
    pub vip_held_locally: bool,
}

/// The argument lists as plain values.
pub open spec fn argvs(v: Seq<Vec<String>>) -> Seq<Seq<Seq<char>>> {
    v.map_values(|a: Vec<String>| texts(a@))
}

impl MeshFsWorker {
    /// The high-availability step: on a lighthouse whose master does not
    /// answer, claim the floating address unless already held, then
    /// promote the local shadow; elsewhere, nothing.
    pub fn tick_once_ha(&self, obs: HaObservation) -> (cmds: Vec<Vec<String>>)
        ensures
            !obs.is_lighthouse || obs.master_reachable ==> cmds@.len() == 0,
            obs.is_lighthouse && !obs.master_reachable ==> argvs(cmds@) == (if obs.vip_held_locally {
                Seq::<Seq<Seq<char>>>::empty()
            } else {
                seq![
                    seq![
                        "ip"@,
                        "addr"@,
                        "add"@,
                        self.vip@ + seq!['/'] + decimal(OVERLAY_CIDR_PREFIX as nat),
                        "dev"@,
                        self.overlay_iface@,
                    ],
                ]
            }) + seq![seq![self.master_binary@, "-a"@, "start"@]],
    {
        let mut cmds: Vec<Vec<String>> = Vec::new();
        if !obs.is_lighthouse || obs.master_reachable {
            return cmds;
        }
        if !obs.vip_held_locally {
            cmds.push(vip_claim_argv(self.vip.as_str(), self.overlay_iface.as_str(), OVERLAY_CIDR_PREFIX));
        }
        let ghost before = cmds@;
        cmds.push(shadow_promote_argv(self.master_binary.as_str()));
        assert(argvs(cmds@) =~= argvs(before) + seq![seq![self.master_binary@, "-a"@, "start"@]]);
        cmds
    }
}

/// `<binary> start`.
pub fn genesis_start_argv(master_binary: &str) -> (v: Vec<String>)
    ensures
        texts(v@) == seq![master_binary@, "start"@],
{
    crate::workers::compute_migrate::arg_pair(master_binary, "start")
}

/// `<binary> start`.
pub fn chunkserver_start_argv(chunkserver_binary: &str) -> (v: Vec<String>)
    ensures
        texts(v@) == seq![chunkserver_binary@, "start"@],
{
    crate::workers::compute_migrate::arg_pair(chunkserver_binary, "start")
}

/// Appends an owned copy of `a` to an argument list.
pub fn push_arg(v: &mut Vec<String>, a: &str)
    ensures
        texts(final(v)@) == texts(old(v)@).push(a@),
{
    v.push(owned(a));
    assert(texts(v@) =~= texts(old(v)@).push(a@));
}

/// `<binary> -r <goal> <mount_path>`: set the replication goal recursively.
pub fn setgoal_argv(setgoal_binary: &str, goal: u8, mount_path: &str) -> (v: Vec<String>)
    ensures
        texts(v@) == seq![setgoal_binary@, "-r"@, decimal(goal as nat), mount_path@],
{
    let mut g = String::new();
    push_decimal(&mut g, goal as u64);
    let mut v: Vec<String> = Vec::new();
    push_arg(&mut v, setgoal_binary);
    push_arg(&mut v, "-r");
    push_arg(&mut v, g.as_str());
    push_arg(&mut v, mount_path);
    assert(texts(v@) =~= seq![setgoal_binary@, "-r"@, decimal(goal as nat), mount_path@]);
    v
}

/// `<admin> <vip> CS-EVICT <cs_ip>`.
pub fn evict_argv(admin_binary: &str, vip: &str, cs_ip: &str) -> (v: Vec<String>)
    ensures
        texts(v@) == seq![admin_binary@, vip@, "CS-EVICT"@, cs_ip@],
{
    let mut v: Vec<String> = Vec::new();
    push_arg(&mut v, admin_binary);
    push_arg(&mut v, vip);
    push_arg(&mut v, "CS-EVICT");
    push_arg(&mut v, cs_ip);
    assert(texts(v@) =~= seq![admin_binary@, vip@, "CS-EVICT"@, cs_ip@]);
    v
}

/// `<admin> <vip> MASTER-STOP`: stop the active master so a shadow takes
/// over.
pub fn failover_vip_argv(admin_binary: &str, vip: &str) -> (v: Vec<String>)
    ensures
        texts(v@) == seq![admin_binary@, vip@, "MASTER-STOP"@],
{
    let mut v: Vec<String> = Vec::new();
    push_arg(&mut v, admin_binary);
    push_arg(&mut v, vip);
    push_arg(&mut v, "MASTER-STOP");
    assert(texts(v@) =~= seq![admin_binary@, vip@, "MASTER-STOP"@]);
    v
}

/// `<vip>/<prefix_len>`.
fn cidr(vip: &str, prefix_len: u8) -> (s: String)
    ensures
        s@ == vip@ + seq!['/'] + decimal(prefix_len as nat),
{
    proof {
        reveal_strlit("/");
    }
    let mut s = owned(vip);
    push_str(&mut s, "/");
    push_decimal(&mut s, prefix_len as u64);
    s
}

/// `ip addr <verb> <vip>/<prefix_len> dev <iface>`.
fn ip_addr_argv(verb: &str, vip: &str, iface: &str, prefix_len: u8) -> (v: Vec<String>)
    ensures
        texts(v@) == seq![
            "ip"@,
            "addr"@,
            verb@,
            vip@ + seq!['/'] + decimal(prefix_len as nat),
            "dev"@,
            iface@,
        ],
{
    let c = cidr(vip, prefix_len);
    let mut v: Vec<String> = Vec::new();
    push_arg(&mut v, "ip");
    push_arg(&mut v, "addr");
    push_arg(&mut v, verb);
    push_arg(&mut v, c.as_str());
    push_arg(&mut v, "dev");
    push_arg(&mut v, iface);
    assert(texts(v@) =~= seq![
        "ip"@,
        "addr"@,
        verb@,
        vip@ + seq!['/'] + decimal(prefix_len as nat),
        "dev"@,
        iface@,
    ]);
    v
}

/// `ip addr add <vip>/<prefix_len> dev <iface>`: claim the floating address.
pub fn vip_claim_argv(vip: &str, iface: &str, prefix_len: u8) -> (v: Vec<String>)
    ensures
        texts(v@) == seq![
            "ip"@,
            "addr"@,
            "add"@,
            vip@ + seq!['/'] + decimal(prefix_len as nat),
            "dev"@,
            iface@,
        ],
{
    ip_addr_argv("add", vip, iface, prefix_len)
}

/// `ip addr del <vip>/<prefix_len> dev <iface>`: release the floating
/// address.
pub fn vip_release_argv(vip: &str, iface: &str, prefix_len: u8) -> (v: Vec<String>)
    ensures
        texts(v@) == seq![
            "ip"@,
            "addr"@,
            "del"@,
            vip@ + seq!['/'] + decimal(prefix_len as nat),
            "dev"@,
            iface@,
        ],
{
    ip_addr_argv("del", vip, iface, prefix_len)
}

/// `<binary> -a start`: promote the local shadow to active master.
pub fn shadow_promote_argv(master_binary: &str) -> (v: Vec<String>)
    ensures
        texts(v@) == seq![master_binary@, "-a"@, "start"@],
{
    let mut v: Vec<String> = Vec::new();
    push_arg(&mut v, master_binary);
    push_arg(&mut v, "-a");
    push_arg(&mut v, "start");
    assert(texts(v@) =~= seq![master_binary@, "-a"@, "start"@]);
    v
}

/// Whether `ip addr show` output assigns `vip`: it contains `inet <vip>/`.
pub fn parse_ip_addr_output(text: &str, vip: &str) -> (b: bool)
    ensures
        b == contains(text@, "inet "@ + vip@ + seq!['/']),
{
    proof {
        reveal_strlit("/");
    }
    let mut needle = owned("inet ");
    push_str(&mut needle, vip);
    push_str(&mut needle, "/");
    assert(needle@ == "inet "@ + vip@ + seq!['/']);
    let t = chars_of(text);
    let n = chars_of(needle.as_str());
    assert(n@ == "inet "@ + vip@ + seq!['/']);
    contains_exec(&t, &n)
}

/// The address column of a `CS-LIST` row: its first word, when that looks
/// like an address (holds a `.` or a `:`).
pub open spec fn cs_ip_of(line: Seq<char>) -> Option<Seq<char>> {
    let w = words(line);
    if w.len() > 0 && (w[0].contains('.') || w[0].contains(':')) {
        Some(w[0])
    } else {
        None
    }
}

/// The addresses of a run of `CS-LIST` rows, in order.
pub open spec fn cs_ips(rows: Seq<Seq<char>>) -> Seq<Seq<char>>
    decreases rows.len(),
{
    if rows.len() == 0 {
        seq![]
    } else {
        cs_ips(rows.drop_last()) + match cs_ip_of(rows.last()) {
            Some(ip) => seq![ip],
            None => seq![],
        }
    }
}

/// The chunkserver addresses of `CS-LIST` output: every line after the
/// header, in order.
pub open spec fn cslist_ips(text: Seq<char>) -> Seq<Seq<char>> {
    let ls = lines(text);
    if ls.len() == 0 {
        seq![]
    } else {
        cs_ips(ls.drop_first())
    }
}

/// Parses `mfsadmin CS-LIST` output into chunkserver addresses.
pub fn parse_cslist_output(text: &str) -> (r: Vec<String>)
    ensures
        texts(r@) == cslist_ips(text@),
{
    let ls = lines_str(text);
    let ghost all = lines(text@);
    let mut out: Vec<String> = Vec::new();
    if ls.len() == 0 {
        return out;
    }
    let ghost rows = all.drop_first();
    let empty: Vec<char> = Vec::new();
    let mut i: usize = 1;
    while i < ls.len()
        invariant
            1 <= i <= ls.len(),
            ls@.len() == all.len(),
            forall|k: int| 0 <= k < ls@.len() ==> #[trigger] ls@[k]@ == all[k],
            rows == all.drop_first(),
            empty@ == Seq::<char>::empty(),
            texts(out@) == cs_ips(rows.take(i - 1)),
        decreases ls.len() - i,
    {
        let cols = tokens_exec(&ls[i], &empty, true);
        let ghost line = rows[i - 1];
        assert(line == ls@[i as int]@);
        assert(rows.take(i as int).drop_last() =~= rows.take(i - 1));
        assert(rows.take(i as int).last() == line);
        if cols.len() > 0 {
            let first = &cols[0];
            let mut has = false;
            let mut j: usize = 0;
            while j < first.len()
                invariant
                    j <= first.len(),
                    has == exists|k: int| 0 <= k < j && (first@[k] == '.' || first@[k] == ':'),
                decreases first.len() - j,
            {
                if first[j] == '.' || first[j] == ':' {
                    has = true;
                }
                j = j + 1;
            }
            proof {
                let w0 = words(line)[0];
                assert(first@ == w0);
                if has {
                    let k = choose|k: int| 0 <= k < j && (first@[k] == '.' || first@[k] == ':');
                    assert(w0[k] == first@[k]);
                } else {
                    if w0.contains('.') {
                        let k = choose|k: int| 0 <= k < w0.len() && w0[k] == '.';
                        assert(first@[k] == '.');
                    }
                    if w0.contains(':') {
                        let k = choose|k: int| 0 <= k < w0.len() && w0[k] == ':';
                        assert(first@[k] == ':');
                    }
                }
            }
            if has {
                out.push(crate::text::string_of(first));
            }
        }
        assert(texts(out@) =~= cs_ips(rows.take(i as int)));
        i = i + 1;
    }
    assert(rows.take(i - 1) =~= rows);
    out
}


/// What the sweep has looked at before it runs anything: whether the master
/// binary is installed, the overlay-address file's content (absent before
/// enrollment), whether a master answers at the floating address, whether
/// the chunkserver binary is installed.
pub struct StartObservation {
    pub master_on_path: bool,
    pub overlay_ip_file: Option<String>,
    pub master_reachable: bool,
    pub chunkserver_on_path: bool,
}

/// One departed chunkserver to evict: the master is failed over first when
/// the departed peer is this node (and no shadow answers), then the
/// chunkserver is evicted.
pub struct Eviction {
    pub cs_ip: String,
    pub fail_over_first: bool,
    pub failover: Vec<String>,
    pub evict: Vec<String>,
}

/// The departed chunkservers to evict, in the order listed: those not
/// enrolled and not evicted before (a repeated address is evicted once).
pub open spec fn eviction_order(current: Seq<Seq<char>>, enrolled: Set<Seq<char>>, evicted: Set<Seq<char>>) -> Seq<Seq<char>>
    decreases current.len(),
{
    if current.len() == 0 {
        Seq::empty()
    } else if !enrolled.contains(current[0]) && !evicted.contains(current[0]) {
        seq![current[0]] + eviction_order(current.drop_first(), enrolled, evicted.insert(current[0]))
    } else {
        eviction_order(current.drop_first(), enrolled, evicted)
    }
}

/// The addresses evicted by the end of a sweep.
pub open spec fn evicted_after(current: Seq<Seq<char>>, enrolled: Set<Seq<char>>, evicted: Set<Seq<char>>) -> Set<Seq<char>>
    decreases current.len(),
{
    if current.len() == 0 {
        evicted
    } else if !enrolled.contains(current[0]) && !evicted.contains(current[0]) {
        evicted_after(current.drop_first(), enrolled, evicted.insert(current[0]))
    } else {
        evicted_after(current.drop_first(), enrolled, evicted)
    }
}

/// The addresses of a list of evictions.
pub open spec fn eviction_ips(s: Seq<Eviction>) -> Seq<Seq<char>> {
    s.map_values(|e: Eviction| e.cs_ip@)
}

/// The replication goal for `n` enrolled peers, as the `u8` cast keeps it.
pub open spec fn goal_for(n: nat) -> u8 {
    (n % 256) as u8
}

impl MeshFsWorker {
    /// The first part of a sweep: nothing without the master binary or
    /// before enrollment (no overlay address); else start a master when none
    /// answers, then (re)start the local chunkserver when installed.
    pub fn tick_start(&self, obs: &StartObservation) -> (r: Option<Vec<Vec<String>>>)
        ensures
            (!obs.master_on_path || obs.overlay_ip_file is None) ==> r is None,
            (obs.master_on_path && obs.overlay_ip_file is Some) ==> r is Some && argvs(r->0@) == (if obs.master_reachable {
                Seq::<Seq<Seq<char>>>::empty()
            } else {
                seq![seq![self.master_binary@, "start"@]]
            }) + (if obs.chunkserver_on_path {
                seq![seq![self.chunkserver_binary@, "start"@]]
            } else {
                Seq::<Seq<Seq<char>>>::empty()
            }),
    {
        if !obs.master_on_path || obs.overlay_ip_file.is_none() {
            return None;
        }
        let mut cmds: Vec<Vec<String>> = Vec::new();
        if !obs.master_reachable {
            cmds.push(genesis_start_argv(self.master_binary.as_str()));
        }
        let ghost before = cmds@;
        if obs.chunkserver_on_path {
            cmds.push(chunkserver_start_argv(self.chunkserver_binary.as_str()));
            assert(argvs(cmds@) =~= argvs(before) + seq![seq![self.chunkserver_binary@, "start"@]]);
        } else {
            assert(argvs(cmds@) =~= argvs(before) + Seq::<Seq<Seq<char>>>::empty());
        }
        Some(cmds)
    }

    /// The goal step of a sweep with peer discovery on: with `enrolled` peers
    /// listed, set the replication goal to their number.
    pub fn goal_command(&self, enrolled: &Vec<String>) -> (r: Option<Vec<String>>)
        ensures
            (self.qnm_root is None || self.self_node_id is None || enrolled@.len() == 0) ==> r is None,
            (self.qnm_root is Some && self.self_node_id is Some && enrolled@.len() > 0) ==> r is Some
                && texts(r->0@) == seq![self.setgoal_binary@, "-r"@, decimal(goal_for(enrolled@.len()) as nat), DEFAULT_MOUNT_PATH@],
    {
        if self.qnm_root.is_none() || self.self_node_id.is_none() || enrolled.len() == 0 {
            return None;
        }
        let goal: u8 = (enrolled.len() % 256) as u8;
        Some(setgoal_argv(self.setgoal_binary.as_str(), goal, DEFAULT_MOUNT_PATH))
    }

    /// The eviction step of a sweep with peer discovery on: every listed
    /// chunkserver that is not enrolled and was not evicted before, in list
    /// order; each is recorded in `evicted`. The master is failed over first
    /// when the chunkserver is this node (its trimmed overlay address).
    pub fn evictions(&self, enrolled: &Vec<String>, current: &Vec<String>, overlay_ip_file: &str, evicted: &mut Vec<String>) -> (r: Vec<Eviction>)
        ensures
            (self.qnm_root is None || self.self_node_id is None) ==> r@.len() == 0 && final(evicted)@ == old(evicted)@,
            (self.qnm_root is Some && self.self_node_id is Some) ==> {
                let order = eviction_order(texts(current@), text_set(enrolled@), text_set(old(evicted)@));
                &&& r@.len() == order.len()
                &&& text_set(final(evicted)@) == evicted_after(texts(current@), text_set(enrolled@), text_set(old(evicted)@))
                &&& forall|i: int| 0 <= i < r@.len() ==> {
                    let e = #[trigger] r@[i];
                    &&& e.cs_ip@ == order[i]
                    &&& e.fail_over_first == (order[i] == trim(overlay_ip_file@))
                    &&& texts(e.failover@) == seq![self.admin_binary@, self.vip@, "MASTER-STOP"@]
                    &&& texts(e.evict@) == seq![self.admin_binary@, self.vip@, "CS-EVICT"@, order[i]]
                }
            },
    {
        let mut out: Vec<Eviction> = Vec::new();
        if self.qnm_root.is_none() || self.self_node_id.is_none() {
            return out;
        }
        let own = trim_str(overlay_ip_file);
        let ghost cur = texts(current@);
        let ghost en = text_set(enrolled@);
        let ghost ev0 = text_set(evicted@);
        let ghost order = eviction_order(cur, en, ev0);
        assert(cur.skip(0) == cur);
        assert(eviction_ips(out@) + order =~= order);
        let mut i: usize = 0;
        while i < current.len()
            invariant
                i <= current@.len(),
                cur == texts(current@),
                en == text_set(enrolled@),
                own@ == trim(overlay_ip_file@),
                order == eviction_order(cur, en, ev0),
                evicted_after(cur, en, ev0) == evicted_after(cur.skip(i as int), en, text_set(evicted@)),
                order == eviction_ips(out@) + eviction_order(cur.skip(i as int), en, text_set(evicted@)),
                forall|k: int| 0 <= k < out@.len() ==> {
                    let e = #[trigger] out@[k];
                    &&& e.fail_over_first == (e.cs_ip@ == trim(overlay_ip_file@))
                    &&& texts(e.failover@) == seq![self.admin_binary@, self.vip@, "MASTER-STOP"@]
                    &&& texts(e.evict@) == seq![self.admin_binary@, self.vip@, "CS-EVICT"@, e.cs_ip@]
                },
            decreases current.len() - i,
        {
            let ghost ev = text_set(evicted@);
            let ghost rest = cur.skip(i as int);
            proof {
                assert(rest[0] == current@[i as int]@);
                assert(rest.drop_first() == cur.skip(i + 1));
            }
            let c = current[i].as_str();
            if !holds_exec(enrolled.as_slice(), c) && !holds_exec(evicted.as_slice(), c) {
                let cc = chars_of(c);
                let fail_over_first = chars_eq(&cc, &own);
                let e = Eviction {
                    cs_ip: current[i].clone(),
                    fail_over_first,
                    failover: failover_vip_argv(self.admin_binary.as_str(), self.vip.as_str()),
                    evict: evict_argv(self.admin_binary.as_str(), self.vip.as_str(), c),
                };
                let ghost before = out@;
                let ghost ev_before = evicted@;
                out.push(e);
                evicted.push(current[i].clone());
                proof {
                    crate::text::lemma_text_set_push(ev_before, current@[i as int]);
                    assert(eviction_ips(out@) =~= eviction_ips(before) + seq![c@]);
                }
            }
            i = i + 1;
        }
        proof {
            assert(cur.skip(i as int) =~= Seq::<Seq<char>>::empty());
            assert(order =~= eviction_ips(out@));
            assert(evicted_after(cur, en, ev0) == text_set(evicted@));
            assert forall|k: int| 0 <= k < out@.len() implies #[trigger] out@[k].cs_ip@ == order[k] by {
                assert(eviction_ips(out@)[k] == out@[k].cs_ip@);
            }
        }
        out
    }
}


/// The overlay addresses of the enrolled peers other than `self_id`, out of
/// the peer directories' (name, bundle address) pairs; a directory whose
/// bundle did not parse carries none.
pub open spec fn enrolled_set(bundles: Seq<(String, Option<String>)>, self_id: Seq<char>) -> Set<Seq<char>> {
    Set::new(|ip: Seq<char>| exists|i: int| 0 <= i < bundles.len() && #[trigger] bundles[i].0@ != self_id
        && bundles[i].1 is Some && bundles[i].1->0@ == ip)
}

/// The enrolled peers' overlay addresses, ascending and each once.
pub fn enrolled_peer_ips(bundles: &Vec<(String, Option<String>)>, self_node_id: &str) -> (r: Vec<String>)
    ensures
        ascending(r@),
        text_set(r@) == enrolled_set(bundles@, self_node_id@),
{
    let mut ips: Vec<String> = Vec::new();
    let mut i: usize = 0;
    while i < bundles.len()
        invariant
            i <= bundles@.len(),
            text_set(ips@) == enrolled_set(bundles@.take(i as int), self_node_id@),
        decreases bundles.len() - i,
    {
        let ghost before = ips@;
        let ghost t = bundles@.take(i + 1);
        if !str_eq_str(bundles[i].0.as_str(), self_node_id) {
            if let Some(ip) = &bundles[i].1 {
                ips.push(ip.clone());
                proof {
                    crate::text::lemma_text_set_push(before, *ip);
                }
            }
        }
        proof {
            let a = enrolled_set(t, self_node_id@);
            let b = enrolled_set(bundles@.take(i as int), self_node_id@);
            assert forall|x: Seq<char>| text_set(ips@).contains(x) == a.contains(x) by {
                if a.contains(x) {
                    let q = choose|q: int| 0 <= q < t.len() && #[trigger] t[q].0@ != self_node_id@ && t[q].1 is Some
                        && t[q].1->0@ == x;
                    if q < i {
                        assert(bundles@.take(i as int)[q] == t[q]);
                        assert(b.contains(x));
                    }
                }
                if b.contains(x) {
                    let q = choose|q: int| 0 <= q < i && #[trigger] bundles@.take(i as int)[q].0@ != self_node_id@
                        && bundles@.take(i as int)[q].1 is Some && bundles@.take(i as int)[q].1->0@ == x;
                    assert(t[q] == bundles@.take(i as int)[q]);
                }
                if t[i as int].0@ != self_node_id@ && t[i as int].1 is Some && x == t[i as int].1->0@ {
                    assert(a.contains(x));
                }
            }
            assert(text_set(ips@) =~= a);
        }
        i = i + 1;
    }
    assert(bundles@.take(bundles@.len() as int) == bundles@);
    sorted_distinct(ips.as_slice())
}


proof fn lemma_evicted_after_grows(cur: Seq<Seq<char>>, en: Set<Seq<char>>, ev: Set<Seq<char>>)
    ensures
        ev.subset_of(evicted_after(cur, en, ev)),
        forall|j: int| 0 <= j < cur.len() && !en.contains(#[trigger] cur[j]) ==> evicted_after(cur, en, ev).contains(cur[j]),
    decreases cur.len(),
{
    if cur.len() > 0 {
        let t = cur.drop_first();
        if !en.contains(cur[0]) && !ev.contains(cur[0]) {
            lemma_evicted_after_grows(t, en, ev.insert(cur[0]));
        } else {
            lemma_evicted_after_grows(t, en, ev);
        }
        assert forall|j: int| 0 <= j < cur.len() && !en.contains(#[trigger] cur[j]) implies evicted_after(cur, en, ev).contains(cur[j]) by {
            if j > 0 {
                assert(t[j - 1] == cur[j]);
            }
        }
    }
}

proof fn lemma_nothing_to_evict(cur: Seq<Seq<char>>, en: Set<Seq<char>>, ev: Set<Seq<char>>)
    requires
        forall|j: int| 0 <= j < cur.len() ==> en.contains(#[trigger] cur[j]) || ev.contains(cur[j]),
    ensures
        eviction_order(cur, en, ev) == Seq::<Seq<char>>::empty(),
    decreases cur.len(),
{
    if cur.len() > 0 {
        let t = cur.drop_first();
        assert forall|j: int| 0 <= j < t.len() implies en.contains(#[trigger] t[j]) || ev.contains(t[j]) by {
            assert(t[j] == cur[j + 1]);
        }
        lemma_nothing_to_evict(t, en, ev);
    }
}

/// A departed chunkserver is evicted once: a second sweep over the same
/// listing, with the addresses the first one recorded, evicts nothing.
pub proof fn law_evict_once(cur: Seq<Seq<char>>, en: Set<Seq<char>>, ev: Set<Seq<char>>)
    ensures
        eviction_order(cur, en, evicted_after(cur, en, ev)) == Seq::<Seq<char>>::empty(),
{
    lemma_evicted_after_grows(cur, en, ev);
    lemma_nothing_to_evict(cur, en, evicted_after(cur, en, ev));
}

} // verus!
