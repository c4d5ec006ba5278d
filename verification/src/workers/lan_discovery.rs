//! LAN discovery probes and path preference: the nine-byte ping/pong
//! datagram (`MPRB`, opcode, little-endian sequence number), its decoder,
//! and the rules that pick between a LAN-direct, relayed, IPv6 or
//! higher-throughput path.
use std::time::Duration;

use vstd::prelude::*;
use crate::keyed::{Keyed, keys_ascending, keyed_map, has_key, upsert_keyed, remove_keyed};
use crate::text::{ends_with, strip_suffix_all, chars_of, slice_chars, strip_suffix_all_exec,
    ends_with_exec, string_of, owned, str_eq_str};
use crate::workers::time::{secs, duration_from_secs};

verus! {

/// The mDNS service type every peer advertises.
pub const SERVICE_TYPE: &'static str = "_mackes-peer._udp.local.";

/// The UDP port of announcements and probes.
pub const DEFAULT_PROBE_PORT: u16 = 41841;

/// The ping opcode.
pub const OP_PING: u8 = 1;

/// The pong opcode.
pub const OP_PONG: u8 = 2;

/// A decoded probe: a ping with its sequence number, or the pong echoing
/// it.
#[derive(Debug, Clone, Copy, PartialEq, Eq, Structural)]
pub enum ProbeMsg {
    Ping(u32),
    Pong(u32),
}

/// The `MPRB` magic.
pub open spec fn probe_magic() -> Seq<u8> {
    seq![0x4du8, 0x50u8, 0x52u8, 0x42u8]
}

/// Byte `k` (0 = least significant) of `v`.
pub open spec fn byte_of(v: u32, k: u32) -> u8 {
    if k == 0 {
        (v & 0xffu32) as u8
    } else if k == 1 {
        ((v >> 8u32) & 0xffu32) as u8
    } else if k == 2 {
        ((v >> 16u32) & 0xffu32) as u8
    } else {
        ((v >> 24u32) & 0xffu32) as u8
    }
}

/// The `u32` whose little-endian bytes are `b0..b3`.
pub open spec fn le_u32(b0: u8, b1: u8, b2: u8, b3: u8) -> u32 {
    (b0 as u32) | ((b1 as u32) << 8u32) | ((b2 as u32) << 16u32) | ((b3 as u32) << 24u32)
}

/// The datagram for opcode `op` and sequence number `seq`.
pub open spec fn probe_bytes(op: u8, seq: u32) -> Seq<u8> {
    probe_magic() + seq![op, byte_of(seq, 0), byte_of(seq, 1), byte_of(seq, 2), byte_of(seq, 3)]
}

/// What a datagram decodes to: nothing when it is not nine bytes long,
/// lacks the magic or carries an unknown opcode.
pub open spec fn decoded(b: Seq<u8>) -> Option<ProbeMsg> {
    if b.len() != 9 || b.take(4) != probe_magic() {
        None
    } else {
        let s = le_u32(b[5], b[6], b[7], b[8]);
        if b[4] == OP_PING {
            Some(ProbeMsg::Ping(s))
        } else if b[4] == OP_PONG {
            Some(ProbeMsg::Pong(s))
        } else {
            None
        }
    }
}

fn encode(op: u8, seq: u32) -> (buf: [u8; 9])
    ensures
        buf@ == probe_bytes(op, seq),
{
    let buf: [u8; 9] = [
        0x4d,
        0x50,
        0x52,
        0x42,
        op,
        (#[verifier::truncate] ((seq & 0xffu32) as u8)),
        (#[verifier::truncate] (((seq >> 8u32) & 0xffu32) as u8)),
        (#[verifier::truncate] (((seq >> 16u32) & 0xffu32) as u8)),
        (#[verifier::truncate] (((seq >> 24u32) & 0xffu32) as u8)),
    ];
    assert(buf@ =~= probe_bytes(op, seq));
    buf
}

/// The ping datagram for `seq`.
pub fn encode_ping(seq: u32) -> (buf: [u8; 9])
    ensures
        buf@ == probe_bytes(OP_PING, seq),
{
    encode(OP_PING, seq)
}

/// The pong datagram echoing `seq`.
pub fn encode_pong(seq: u32) -> (buf: [u8; 9])
    ensures
        buf@ == probe_bytes(OP_PONG, seq),
{
    encode(OP_PONG, seq)
}

/// Decodes a datagram.
pub fn decode_probe(buf: &[u8]) -> (r: Option<ProbeMsg>)
    ensures
        r == decoded(buf@),
{
    if buf.len() != 9 || buf[0] != 0x4d || buf[1] != 0x50 || buf[2] != 0x52 || buf[3] != 0x42 {
        proof {
            if buf@.len() == 9 {
                assert(buf@.take(4)[0] == buf@[0] && buf@.take(4)[1] == buf@[1]);
                assert(buf@.take(4)[2] == buf@[2] && buf@.take(4)[3] == buf@[3]);
            }
        }
        return None;
    }
    assert(buf@.take(4) =~= probe_magic());
    let seq: u32 = (buf[5] as u32) | ((buf[6] as u32) << 8u32) | ((buf[7] as u32) << 16u32) | ((
    buf[8] as u32) << 24u32);
    if buf[4] == OP_PING {
        Some(ProbeMsg::Ping(seq))
    } else if buf[4] == OP_PONG {
        Some(ProbeMsg::Pong(seq))
    } else {
        None
    }
}

/// Decoding an encoded probe gives back its opcode's message and sequence
/// number.
pub proof fn law_probe_round_trip(seq: u32)
    ensures
        decoded(probe_bytes(OP_PING, seq)) == Some(ProbeMsg::Ping(seq)),
        decoded(probe_bytes(OP_PONG, seq)) == Some(ProbeMsg::Pong(seq)),
{
    assert(le_u32(byte_of(seq, 0), byte_of(seq, 1), byte_of(seq, 2), byte_of(seq, 3)) == seq)
        by (bit_vector);
    assert(probe_bytes(OP_PING, seq).take(4) =~= probe_magic());
    assert(probe_bytes(OP_PONG, seq).take(4) =~= probe_magic());
}

/// Whether the LAN-direct path beats the relay: the lower round-trip time
/// wins (ties go to LAN); a missing sample counts as worst, and with none
/// at all the relay is kept.
pub fn lan_direct_wins(lan_rtt_ms: Option<u32>, derp_rtt_ms: Option<u32>) -> (b: bool)
    ensures
        b == match (lan_rtt_ms, derp_rtt_ms) {
            (Some(lan), Some(derp)) => lan <= derp,
            (Some(_), None) => true,
            _ => false,
        },
{
    match (lan_rtt_ms, derp_rtt_ms) {
        (Some(lan), Some(derp)) => lan <= derp,
        (Some(_), None) => true,
        (None, Some(_)) => false,
        (None, None) => false,
    }
}

/// Whether path A beats path B on measured throughput (ties go to A); a
/// missing sample counts as worst.
pub fn higher_throughput_wins(a_bytes_per_sec: Option<u64>, b_bytes_per_sec: Option<u64>) -> (b:
    bool)
    ensures
        b == match (a_bytes_per_sec, b_bytes_per_sec) {
            (Some(a), Some(bb)) => a >= bb,
            (Some(_), None) => true,
            _ => false,
        },
{
    match (a_bytes_per_sec, b_bytes_per_sec) {
        (Some(a), Some(b)) => a >= b,
        (Some(_), None) => true,
        (None, Some(_)) => false,
        (None, None) => false,
    }
}

/// Whether the IPv6 direct path is preferred: whenever it has a sample,
/// whatever the IPv4 relay's round-trip time.
pub fn ipv6_direct_wins(ipv6_rtt_ms: Option<u32>, ipv4_derp_rtt_ms: Option<u32>) -> (b: bool)
    ensures
        b == ipv6_rtt_ms is Some,
{
    match (ipv6_rtt_ms, ipv4_derp_rtt_ms) {
        (Some(_), Some(_)) => true,
        (Some(_), None) => true,
        (None, Some(_)) => false,
        (None, None) => false,
    }
}


/// An IPv4 socket address: the address as a big-endian `u32` and the port.
#[derive(Clone, Copy, Debug, PartialEq, Eq, Structural)]
pub struct PeerAddr {
    pub ip: u32,
    pub port: u16,
}

/// One announced LAN peer, keyed by its mDNS instance name.
#[derive(Debug, Clone, PartialEq, Eq)]
pub struct LanPeer {
    /// Instance label (the service type stripped).
    pub instance: String,
    /// Friendly hostname; the instance name when nothing better is known.
    pub host: String,
    /// First reachable IPv4 address the peer announced.
    pub addr: PeerAddr,
}

/// Round-trip timing of one probe exchange, keyed by peer instance.
#[derive(Debug, Clone, PartialEq, Eq)]
pub struct RttSample {
    /// Peer instance name (matches `LanPeer::instance`).
    pub peer: String,
    /// Source address of the pong.
    pub addr: PeerAddr,
    /// Measured round-trip time, milliseconds.
    pub rtt_ms: u32,
    /// Probe sequence number.
    pub seq: u32,
}

impl Keyed for LanPeer {
    open spec fn key(&self) -> Seq<char> {
        self.instance@
    }

    fn key_str(&self) -> (r: &str) {
        self.instance.as_str()
    }
}

impl Keyed for RttSample {
    open spec fn key(&self) -> Seq<char> {
        self.peer@
    }

    fn key_str(&self) -> (r: &str) {
        self.peer.as_str()
    }
}

impl LanPeer {
    /// A field-for-field copy.
    pub fn copy(&self) -> (r: Self)
        ensures
            r == *self,
    {
        LanPeer { instance: self.instance.clone(), host: self.host.clone(), addr: self.addr }
    }
}

impl RttSample {
    /// A field-for-field copy.
    pub fn copy(&self) -> (r: Self)
        ensures
            r == *self,
    {
        RttSample { peer: self.peer.clone(), addr: self.addr, rtt_ms: self.rtt_ms, seq: self.seq }
    }
}

fn copy_peers(v: &Vec<LanPeer>) -> (r: Vec<LanPeer>)
    ensures
        r@ == v@,
{
    let mut r: Vec<LanPeer> = Vec::new();
    let mut i: usize = 0;
    while i < v.len()
        invariant
            i <= v@.len(),
            r@ == v@.take(i as int),
        decreases v.len() - i,
    {
        r.push(v[i].copy());
        i = i + 1;
        assert(r@ == v@.take(i as int));
    }
    assert(v@.take(v@.len() as int) == v@);
    r
}

fn copy_rtts(v: &Vec<RttSample>) -> (r: Vec<RttSample>)
    ensures
        r@ == v@,
{
    let mut r: Vec<RttSample> = Vec::new();
    let mut i: usize = 0;
    while i < v.len()
        invariant
            i <= v@.len(),
            r@ == v@.take(i as int),
        decreases v.len() - i,
    {
        r.push(v[i].copy());
        i = i + 1;
        assert(r@ == v@.take(i as int));
    }
    assert(v@.take(v@.len() as int) == v@);
    r
}

/// The registry of LAN peers and of the freshest RTT sample per peer. Both
/// lists are kept in ascending instance order with one entry per instance.
#[derive(Debug)]
pub struct Registry {
    peers: Vec<LanPeer>,
    rtts: Vec<RttSample>,
}

impl Registry {
    #[verifier::type_invariant]
    spec fn ordered(self) -> bool {
        keys_ascending(self.peers@) && keys_ascending(self.rtts@)
    }

    /// The tracked peers, in ascending instance order.
    pub closed spec fn peer_list(self) -> Seq<LanPeer> {
        self.peers@
    }

    /// The held RTT samples, in ascending peer order.
    pub closed spec fn rtt_list(self) -> Seq<RttSample> {
        self.rtts@
    }

    /// An empty registry.
    pub fn new() -> (r: Self)
        ensures
            r.peer_list() == Seq::<LanPeer>::empty(),
            r.rtt_list() == Seq::<RttSample>::empty(),
    {
        Registry { peers: Vec::new(), rtts: Vec::new() }
    }

    /// Replaces or inserts the record for `peer.instance`.
    pub fn upsert_peer(&mut self, peer: LanPeer)
        ensures
            keys_ascending(final(self).peer_list()),
            keyed_map(final(self).peer_list()) == keyed_map(old(self).peer_list()).insert(peer.instance@, peer),
            final(self).peer_list().len() == old(self).peer_list().len()
                + (if has_key(old(self).peer_list(), peer.instance@) { 0int } else { 1int }),
            final(self).rtt_list() == old(self).rtt_list(),
    {
        proof {
            use_type_invariant(&*self);
        }
        let mut peers: Vec<LanPeer> = Vec::new();
        std::mem::swap(&mut peers, &mut self.peers);
        upsert_keyed(&mut peers, peer);
        self.peers = peers;
    }

    /// Forgets a peer and its RTT sample.
    pub fn remove_peer(&mut self, instance: &str)
        ensures
            keys_ascending(final(self).peer_list()),
            keys_ascending(final(self).rtt_list()),
            keyed_map(final(self).peer_list()) == keyed_map(old(self).peer_list()).remove(instance@),
            keyed_map(final(self).rtt_list()) == keyed_map(old(self).rtt_list()).remove(instance@),
            final(self).peer_list().len() == old(self).peer_list().len()
                - (if has_key(old(self).peer_list(), instance@) { 1int } else { 0int }),
            final(self).rtt_list().len() == old(self).rtt_list().len()
                - (if has_key(old(self).rtt_list(), instance@) { 1int } else { 0int }),
    {
        proof {
            use_type_invariant(&*self);
        }
        let mut peers: Vec<LanPeer> = Vec::new();
        std::mem::swap(&mut peers, &mut self.peers);
        remove_keyed(&mut peers, instance);
        self.peers = peers;
        let mut rtts: Vec<RttSample> = Vec::new();
        std::mem::swap(&mut rtts, &mut self.rtts);
        remove_keyed(&mut rtts, instance);
        self.rtts = rtts;
    }

    /// Keeps `sample` as the peer's only RTT sample.
    pub fn record_rtt(&mut self, sample: RttSample)
        ensures
            keys_ascending(final(self).rtt_list()),
            keyed_map(final(self).rtt_list()) == keyed_map(old(self).rtt_list()).insert(sample.peer@, sample),
            final(self).rtt_list().len() == old(self).rtt_list().len()
                + (if has_key(old(self).rtt_list(), sample.peer@) { 0int } else { 1int }),
            final(self).peer_list() == old(self).peer_list(),
    {
        proof {
            use_type_invariant(&*self);
        }
        let mut rtts: Vec<RttSample> = Vec::new();
        std::mem::swap(&mut rtts, &mut self.rtts);
        upsert_keyed(&mut rtts, sample);
        self.rtts = rtts;
    }

    /// The peers in ascending instance order, and the RTT samples in
    /// ascending peer order.
    pub fn snapshot(&self) -> (r: (Vec<LanPeer>, Vec<RttSample>))
        ensures
            r.0@ == self.peer_list(),
            r.1@ == self.rtt_list(),
            keys_ascending(r.0@),
            keys_ascending(r.1@),
    {
        proof {
            use_type_invariant(self);
        }
        (copy_peers(&self.peers), copy_rtts(&self.rtts))
    }

    /// Number of peers tracked.
    pub fn peer_count(&self) -> (n: usize)
        ensures
            n == self.peer_list().len(),
    {
        self.peers.len()
    }

    /// Number of RTT samples held.
    pub fn rtt_count(&self) -> (n: usize)
        ensures
            n == self.rtt_list().len(),
    {
        self.rtts.len()
    }
}

impl Default for Registry {
    fn default() -> (r: Self)
        ensures
            r.peer_list() == Seq::<LanPeer>::empty(),
            r.rtt_list() == Seq::<RttSample>::empty(),
    {
        Registry::new()
    }
}

/// The instance label of an mDNS full name: the service type stripped and
/// then every trailing `.`; a name of another service is kept whole.
pub open spec fn instance_of(fullname: Seq<char>) -> Seq<char> {
    if ends_with(fullname, SERVICE_TYPE@) {
        strip_suffix_all(fullname.take(fullname.len() - SERVICE_TYPE@.len()), seq!['.'])
    } else {
        fullname
    }
}

/// Instance label of an mDNS full name.
pub fn instance_from_fullname(fullname: &str) -> (r: String)
    ensures
        r@ == instance_of(fullname@),
{
    let f = chars_of(fullname);
    let svc = chars_of(SERVICE_TYPE);
    if ends_with_exec(&f, &svc) {
        let head = slice_chars(&f, 0, f.len() - svc.len());
        assert(head@ == fullname@.take(fullname@.len() - SERVICE_TYPE@.len()));
        let dot = vec!['.'];
        assert(dot@ == seq!['.']);
        let r = strip_suffix_all_exec(&head, &dot);
        string_of(&r)
    } else {
        owned(fullname)
    }
}

/// What a resolved mDNS announcement does to the registry: the peer is
/// recorded under its instance label, unless the label is our own host or
/// the announcement carried no IPv4 address.
pub fn handle_resolved(registry: &mut Registry, fullname: &str, addr: Option<PeerAddr>, self_host: &str)
    ensures
        (instance_of(fullname@) == self_host@ || addr is None) ==> final(registry).peer_list() == old(registry).peer_list(),
        (instance_of(fullname@) != self_host@ && addr is Some) ==> {
            let k = instance_of(fullname@);
            let m = keyed_map(final(registry).peer_list());
            &&& m == keyed_map(old(registry).peer_list()).insert(k, m[k])
            &&& m[k].instance@ == k
            &&& m[k].host@ == k
            &&& m[k].addr == addr->0
        },
        final(registry).rtt_list() == old(registry).rtt_list(),
{
    let instance = instance_from_fullname(fullname);
    if str_eq_str(instance.as_str(), self_host) {
        return;
    }
    match addr {
        None => {},
        Some(a) => {
            let host = instance.clone();
            registry.upsert_peer(LanPeer { instance, host, addr: a });
        },
    }
}

/// A withdrawn mDNS announcement: the peer and its RTT sample are forgotten.
pub fn handle_removed(registry: &mut Registry, fullname: &str)
    ensures
        keyed_map(final(registry).peer_list()) == keyed_map(old(registry).peer_list()).remove(instance_of(fullname@)),
        keyed_map(final(registry).rtt_list()) == keyed_map(old(registry).rtt_list()).remove(instance_of(fullname@)),
{
    let instance = instance_from_fullname(fullname);
    registry.remove_peer(instance.as_str());
}

/// Construction parameters of the LAN discovery worker.
pub struct LanDiscoveryConfig {
    /// Local node hostname (the instance label we announce).
    pub host: String,
    /// UDP port of the probe listener.
    pub port: u16,
    /// How often every known peer is pinged.
    pub probe_period: Duration,
    /// The registry the worker fills.
    pub registry: Registry,
}

/// Default probe cadence, seconds.
pub const DEFAULT_PROBE_PERIOD_SECS: u64 = 5;

impl LanDiscoveryConfig {
    /// The given host, the canonical port, a 5-second cadence, an empty registry.
    pub fn new(host: String) -> (c: Self)
        ensures
            c.host == host,
            c.port == DEFAULT_PROBE_PORT,
            c.probe_period == duration_from_secs(DEFAULT_PROBE_PERIOD_SECS),
            c.registry.peer_list() == Seq::<LanPeer>::empty(),
            c.registry.rtt_list() == Seq::<RttSample>::empty(),
    {
        LanDiscoveryConfig {
            host,
            port: DEFAULT_PROBE_PORT,
            probe_period: secs(DEFAULT_PROBE_PERIOD_SECS),
            registry: Registry::new(),
        }
    }
}

/// The LAN discovery and probe worker.
pub struct LanDiscoveryWorker {
    pub config: LanDiscoveryConfig,
}

impl LanDiscoveryWorker {
    /// A worker over the given configuration.
    pub fn new(config: LanDiscoveryConfig) -> (w: Self)
        ensures
            w.config == config,
    {
        LanDiscoveryWorker { config }
    }

    /// The worker's registry.
    pub fn registry(&self) -> (r: &Registry)
        ensures
            *r == self.config.registry,
    {
        &self.config.registry
    }

    /// The worker's name.
    pub fn name(&self) -> (s: &'static str)
        ensures
            s@ == "lan-discovery"@,
    {
        "lan-discovery"
    }
}

/// The sequence number after `s`, wrapping at `u32::MAX`.
pub open spec fn next_seq_of(s: u32) -> u32 {
    if s == u32::MAX {
        0
    } else {
        (s + 1) as u32
    }
}

/// The sequence number `k` steps after `s`.
pub open spec fn seq_after(s: u32, k: nat) -> u32
    decreases k,
{
    if k == 0 {
        s
    } else {
        next_seq_of(seq_after(s, (k - 1) as nat))
    }
}

/// An outstanding ping: the address and sequence number it went to, the
/// peer's instance, and when it was sent (ms).
pub open spec fn pending_key(e: (PeerAddr, u32, String, u64)) -> (PeerAddr, u32) {
    (e.0, e.1)
}

/// The peer and send time of an outstanding ping.
pub open spec fn pending_val(e: (PeerAddr, u32, String, u64)) -> (Seq<char>, u64) {
    (e.2@, e.3)
}

/// The outstanding pings as a map from (address, sequence number) to
/// (peer, send time); a later entry for the same key wins.
pub open spec fn pending_map(v: Seq<(PeerAddr, u32, String, u64)>) -> Map<(PeerAddr, u32), (Seq<char>, u64)>
    decreases v.len(),
{
    if v.len() == 0 {
        Map::empty()
    } else {
        pending_map(v.drop_last()).insert(pending_key(v.last()), pending_val(v.last()))
    }
}

/// The outstanding pings after pinging `peers` in order, the first with
/// the sequence number after `start`, at `now_ms`.
pub open spec fn pinged(m: Map<(PeerAddr, u32), (Seq<char>, u64)>, peers: Seq<LanPeer>, start: u32, now_ms: u64) -> Map<
    (PeerAddr, u32),
    (Seq<char>, u64),
>
    decreases peers.len(),
{
    if peers.len() == 0 {
        m
    } else {
        pinged(m, peers.drop_last(), start, now_ms).insert(
            (peers.last().addr, seq_after(start, peers.len())),
            (peers.last().instance@, now_ms),
        )
    }
}

/// The round-trip time of a pong received at `now_ms` for a ping sent at
/// `sent_ms`: the elapsed milliseconds (0 if the clock went back), cut to
/// 32 bits.
pub open spec fn rtt_of(now_ms: u64, sent_ms: u64) -> u32 {
    if now_ms >= sent_ms {
        ((now_ms - sent_ms) as u64) as u32
    } else {
        0
    }
}

/// The probe half of the worker: the last sequence number sent and the
/// pings that await their pong.
pub struct ProbeTracker {
    pub next_seq: u32,
    pub pending: Vec<(PeerAddr, u32, String, u64)>,
}

/// Removes every outstanding ping under `k`.
fn drop_pending(v: &mut Vec<(PeerAddr, u32, String, u64)>, k: (PeerAddr, u32))
    ensures
        pending_map(final(v)@) == pending_map(old(v)@).remove(k),
{
    let mut out: Vec<(PeerAddr, u32, String, u64)> = Vec::new();
    let mut i: usize = 0;
    assert(pending_map(out@) =~= pending_map(v@.take(0)).remove(k));
    while i < v.len()
        invariant
            i <= v@.len(),
            pending_map(out@) == pending_map(v@.take(i as int)).remove(k),
        decreases v.len() - i,
    {
        let ghost t = v@.take(i + 1);
        assert(t.drop_last() =~= v@.take(i as int));
        assert(t.last() == v@[i as int]);
        let e = &v[i];
        if !(e.0 == k.0 && e.1 == k.1) {
            let ghost before = out@;
            out.push((e.0, e.1, e.2.clone(), e.3));
            assert(out@.drop_last() == before);
            assert(pending_map(out@) =~= pending_map(t).remove(k));
        } else {
            assert(pending_map(t).remove(k) =~= pending_map(v@.take(i as int)).remove(k));
        }
        i = i + 1;
    }
    assert(v@.take(v@.len() as int) =~= v@);
    *v = out;
}

/// The peer and send time of the outstanding ping under `k`, if any.
fn find_pending(v: &Vec<(PeerAddr, u32, String, u64)>, k: (PeerAddr, u32)) -> (r: Option<(String, u64)>)
    ensures
        (r is Some) == pending_map(v@).contains_key(k),
        r is Some ==> ((r->0).0@, (r->0).1) == pending_map(v@)[k],
{
    let mut found: Option<(String, u64)> = None;
    let mut i: usize = 0;
    while i < v.len()
        invariant
            i <= v@.len(),
            (found is Some) == pending_map(v@.take(i as int)).contains_key(k),
            found is Some ==> ((found->0).0@, (found->0).1) == pending_map(v@.take(i as int))[k],
        decreases v.len() - i,
    {
        let ghost t = v@.take(i + 1);
        assert(t.drop_last() =~= v@.take(i as int));
        assert(t.last() == v@[i as int]);
        if v[i].0 == k.0 && v[i].1 == k.1 {
            found = Some((v[i].2.clone(), v[i].3));
        }
        i = i + 1;
    }
    assert(v@.take(v@.len() as int) =~= v@);
    found
}

impl ProbeTracker {
    /// No ping sent yet.
    pub fn new() -> (t: Self)
        ensures
            t.next_seq == 0,
            t.pending@.len() == 0,
    {
        ProbeTracker { next_seq: 0, pending: Vec::new() }
    }

    /// The outstanding pings.
    pub open spec fn outstanding(&self) -> Map<(PeerAddr, u32), (Seq<char>, u64)> {
        pending_map(self.pending@)
    }

    /// One probe round at `now_ms`: a ping to each peer in order, with
    /// consecutive (wrapping) sequence numbers after the last one sent,
    /// each recorded as outstanding.
    pub fn on_tick(&mut self, peers: &Vec<LanPeer>, now_ms: u64) -> (pings: Vec<(PeerAddr, [u8; 9])>)
        ensures
            pings@.len() == peers@.len(),
            forall|i: int| 0 <= i < peers@.len() ==> (#[trigger] pings@[i]).0 == peers@[i].addr
                && pings@[i].1@ == probe_bytes(OP_PING, seq_after(old(self).next_seq, (i + 1) as nat)),
            final(self).next_seq == seq_after(old(self).next_seq, peers@.len()),
            final(self).outstanding() == pinged(old(self).outstanding(), peers@, old(self).next_seq, now_ms),
    {
        let ghost start = self.next_seq;
        let ghost m0 = self.outstanding();
        let mut pings: Vec<(PeerAddr, [u8; 9])> = Vec::new();
        let mut i: usize = 0;
        assert(peers@.take(0) =~= Seq::<LanPeer>::empty());
        while i < peers.len()
            invariant
                i <= peers@.len(),
                self.next_seq == seq_after(start, i as nat),
                pings@.len() == i,
                forall|j: int| 0 <= j < i ==> (#[trigger] pings@[j]).0 == peers@[j].addr
                    && pings@[j].1@ == probe_bytes(OP_PING, seq_after(start, (j + 1) as nat)),
                pending_map(self.pending@) == pinged(m0, peers@.take(i as int), start, now_ms),
            decreases peers.len() - i,
        {
            let seq: u32 = if self.next_seq == u32::MAX { 0 } else { self.next_seq + 1 };
            assert(seq == seq_after(start, (i + 1) as nat));
            self.next_seq = seq;
            let p = &peers[i];
            let ghost before = self.pending@;
            self.pending.push((p.addr, seq, p.instance.clone(), now_ms));
            let ghost t = peers@.take(i + 1);
            assert(t.drop_last() =~= peers@.take(i as int));
            assert(t.last() == peers@[i as int]);
            assert(self.pending@.drop_last() == before);
            assert(pending_map(self.pending@) =~= pinged(m0, t, start, now_ms));
            pings.push((p.addr, encode_ping(seq)));
            i = i + 1;
        }
        assert(peers@.take(peers@.len() as int) =~= peers@);
        pings
    }

    /// A ping that could not be sent is no longer outstanding.
    pub fn on_send_failed(&mut self, addr: PeerAddr, seq: u32)
        ensures
            final(self).next_seq == old(self).next_seq,
            final(self).outstanding() == old(self).outstanding().remove((addr, seq)),
    {
        drop_pending(&mut self.pending, (addr, seq));
    }

    /// A datagram from `src` at `now_ms`: a ping is answered with its pong;
    /// a pong for an outstanding ping records that peer's round-trip time
    /// and ends the wait; anything else changes nothing.
    pub fn on_datagram(&mut self, registry: &mut Registry, src: PeerAddr, buf: &[u8], now_ms: u64) -> (reply: Option<[u8; 9]>)
        ensures
            final(self).next_seq == old(self).next_seq,
            match decoded(buf@) {
                Some(ProbeMsg::Ping(s)) => {
                    &&& reply is Some && reply->0@ == probe_bytes(OP_PONG, s)
                    &&& *final(registry) == *old(registry)
                    &&& final(self).outstanding() == old(self).outstanding()
                },
                Some(ProbeMsg::Pong(s)) => {
                    &&& reply is None
                    &&& if old(self).outstanding().contains_key((src, s)) {
                        let (peer, sent) = old(self).outstanding()[(src, s)];
                        let m = keyed_map(final(registry).rtt_list());
                        &&& final(self).outstanding() == old(self).outstanding().remove((src, s))
                        &&& m == keyed_map(old(registry).rtt_list()).insert(peer, m[peer])
                        &&& m[peer].peer@ == peer
                        &&& m[peer].addr == src
                        &&& m[peer].rtt_ms == rtt_of(now_ms, sent)
                        &&& m[peer].seq == s
                        &&& final(registry).peer_list() == old(registry).peer_list()
                    } else {
                        &&& *final(registry) == *old(registry)
                        &&& final(self).outstanding() == old(self).outstanding()
                    }
                },
                None => {
                    &&& reply is None
                    &&& *final(registry) == *old(registry)
                    &&& final(self).outstanding() == old(self).outstanding()
                },
            },
    {
        match decode_probe(buf) {
            Some(ProbeMsg::Ping(s)) => Some(encode_pong(s)),
            Some(ProbeMsg::Pong(s)) => {
                match find_pending(&self.pending, (src, s)) {
                    None => None,
                    Some((peer, sent)) => {
                        drop_pending(&mut self.pending, (src, s));
                        let rtt: u32 = if now_ms >= sent {
                            #[verifier::truncate]
                            ((now_ms - sent) as u32)
                        } else {
                            0
                        };
                        registry.record_rtt(RttSample { peer, addr: src, rtt_ms: rtt, seq: s });
                        None
                    },
                }
            },
            None => None,
        }
    }
}

} // verus!
