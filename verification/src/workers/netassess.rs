//! Network assessment: the parsers that turn `nmcli`, `ip neigh`,
//! `ip route`, `resolv.conf` and `ip link` output into the items of a
//! per-peer snapshot, and the snapshot's file name.
use std::time::Duration;

use sha2::{Digest, Sha256};
use vstd::prelude::*;

use crate::text::{
    chars_eq, chars_of, contains, contains_exec, filter_map, lemma_filter_map_take, lines,
    lines_str, lower, lower_exec, owned, parse_unsigned, parse_unsigned_exec, push_char, push_str,
    slice_chars, split_by, split_char, split_exec, starts_with, starts_with_exec, string_of,
    tokens_exec, trim, trim_exec, words, texts,
};
use crate::workers::time::{duration_from_secs, secs};

verus! {

/// The snapshot cadence, in seconds (hourly).
pub const DEFAULT_TICK_SECS: u64 = 3600;

/// How long snapshots are kept: 30 days, in milliseconds.
pub const RETENTION_MS: i64 = 2_592_000_000;

/// The overlay interface whose health is checked.
pub const DEFAULT_NEBULA_INTERFACE: &'static str = "nebula1";

/// One WiFi network of a scan.
#[derive(Debug, Clone, PartialEq)]
pub struct WifiNetwork {
    /// Empty for a hidden network.
    pub ssid: String,
    /// Signal strength, 0 to 100.
    pub signal: u8,
    pub channel: u16,
    /// `WPA2`, `--` for open, ...
    pub security: String,
}

/// One neighbour-table entry.
#[derive(Debug, Clone, PartialEq)]
pub struct ArpEntry {
    pub ip: String,
    /// Lowercase, colon-separated.
    pub mac: String,
    pub iface: String,
}

/// The default gateway and the resolvers.
#[derive(Debug, Clone, Default, PartialEq)]
pub struct GatewayDns {
    /// Empty when there is no default route.
    pub gateway: String,
    pub dns: Vec<String>,
}

/// The public address and its ISP.
#[derive(Debug, Clone, PartialEq)]
pub struct PublicIp {
    pub ip: String,
    pub org: String,
}

/// IPv4 and IPv6 reachability.
#[derive(Debug, Clone, Copy, Default, PartialEq)]
pub struct Connectivity {
    pub ipv4: bool,
    pub ipv6: bool,
}

/// The MTU of an interface and whether it allows jumbo frames.
#[derive(Debug, Clone, PartialEq)]
pub struct MtuInfo {
    pub iface: String,
    pub mtu: u32,
    /// MTU of 9000 or more.
    pub jumbo: bool,
}

/// The overlay tunnel's health.
#[derive(Debug, Clone, Default, PartialEq)]
pub struct TunnelHealth {
    pub iface: String,
    pub up: bool,
    pub overlay_ip: String,
}

/// How many hosts the subnet holds, and where that count came from
/// (`probe-inventory` or `arp-fallback`).
#[derive(Debug, Clone, Default, PartialEq)]
pub struct SubnetDiscovery {
    pub host_count: usize,
    pub source: String,
}

// ─── WiFi scan ─────────────────────────────────────────────────────────

/// `str::replace("\\:", "\0")`: each escaped colon becomes a NUL.
pub open spec fn esc_swap(s: Seq<char>) -> Seq<char>
    decreases s.len(),
{
    if s.len() == 0 {
        s
    } else if s.len() >= 2 && s[0] == '\\' && s[1] == ':' {
        seq!['\0'] + esc_swap(s.skip(2))
    } else {
        seq![s[0]] + esc_swap(s.drop_first())
    }
}

/// Each NUL turned back into a colon.
pub open spec fn restore_colons(f: Seq<char>) -> Seq<char> {
    Seq::new(f.len(), |i: int| if f[i] == '\0' { ':' } else { f[i] })
}

/// The fields of a terse `nmcli` line: split at unescaped colons, with
/// escaped ones restored.
pub open spec fn wifi_fields(line: Seq<char>) -> Seq<Seq<char>> {
    split_char(esc_swap(line), ':').map_values(|f: Seq<char>| restore_colons(f))
}

/// The number a field holds after trimming, or 0.
pub open spec fn number_or_zero(s: Seq<char>, max: nat) -> nat {
    match parse_unsigned(trim(s), max) {
        Some(v) => v,
        None => 0,
    }
}

/// The network a scan line describes: none for a blank line or one with
/// fewer than four fields.
pub open spec fn wifi_of_line(line: Seq<char>) -> Option<(Seq<char>, nat, nat, Seq<char>)> {
    let f = wifi_fields(line);
    if trim(line).len() == 0 || f.len() < 4 {
        None
    } else {
        Some((f[0], number_or_zero(f[1], 255), number_or_zero(f[2], 65535), trim(f[3])))
    }
}

/// [`wifi_of_line`] as a function value.
pub open spec fn wifi_line_fn() -> spec_fn(Seq<char>) -> Option<(Seq<char>, nat, nat, Seq<char>)> {
    |l: Seq<char>| wifi_of_line(l)
}

/// A network as plain values.
pub open spec fn wifi_view(w: WifiNetwork) -> (Seq<char>, nat, nat, Seq<char>) {
    (w.ssid@, w.signal as nat, w.channel as nat, w.security@)
}

/// A list of networks as plain values.
pub open spec fn wifi_views(v: Seq<WifiNetwork>) -> Seq<(Seq<char>, nat, nat, Seq<char>)> {
    v.map_values(|w: WifiNetwork| wifi_view(w))
}

fn esc_swap_exec(s: &[char]) -> (r: Vec<char>)
    ensures
        r@ == esc_swap(s@),
{
    let mut r: Vec<char> = Vec::new();
    let mut i: usize = 0;
    assert(s@.skip(0) == s@);
    while i < s.len()
        invariant
            i <= s.len(),
            r@ + esc_swap(s@.skip(i as int)) == esc_swap(s@),
        decreases s.len() - i,
    {
        let ghost rest = s@.skip(i as int);
        if i + 1 < s.len() && s[i] == '\\' && s[i + 1] == ':' {
            assert(rest[0] == '\\' && rest[1] == ':');
            assert(rest.skip(2) =~= s@.skip(i + 2));
            r.push('\0');
            i = i + 2;
        } else {
            assert(rest[0] == s@[i as int]);
            assert(rest.drop_first() =~= s@.skip(i + 1));
            r.push(s[i]);
            i = i + 1;
        }
    }
    assert(s@.skip(i as int).len() == 0);
    r
}

fn restore_exec(f: &[char]) -> (r: Vec<char>)
    ensures
        r@ == restore_colons(f@),
{
    let mut r: Vec<char> = Vec::new();
    let mut i: usize = 0;
    while i < f.len()
        invariant
            i <= f.len(),
            r@ == restore_colons(f@).take(i as int),
        decreases f.len() - i,
    {
        r.push(if f[i] == '\0' { ':' } else { f[i] });
        assert(r@ =~= restore_colons(f@).take(i + 1));
        i = i + 1;
    }
    assert(restore_colons(f@).take(i as int) =~= restore_colons(f@));
    r
}

fn number_or_zero_exec(s: &[char], max: u64) -> (n: u64)
    ensures
        n == number_or_zero(s@, max as nat),
{
    let t = trim_exec(s);
    match parse_unsigned_exec(&t, max) {
        Some(v) => v,
        None => 0,
    }
}

fn wifi_line(line: &[char]) -> (r: Option<WifiNetwork>)
    ensures
        match wifi_of_line(line@) {
            Some(t) => r is Some && wifi_view(r->Some_0) == t,
            None => r is None,
        },
{
    let t = trim_exec(line);
    let swapped = esc_swap_exec(line);
    let colon: Vec<char> = vec![':'];
    assert(colon@ == seq![':']);
    let pieces = split_exec(&swapped, &colon, false);
    let ghost sp = split_char(esc_swap(line@), ':');
    let ghost f = wifi_fields(line@);
    assert(sp == split_by(swapped@, colon@, false));
    assert(f.len() == pieces@.len());
    if t.len() == 0 || pieces.len() < 4 {
        return None;
    }
    let ssid = restore_exec(&pieces[0]);
    let sig = restore_exec(&pieces[1]);
    let chan = restore_exec(&pieces[2]);
    let sec = restore_exec(&pieces[3]);
    assert(pieces@[0]@ == sp[0] && pieces@[1]@ == sp[1] && pieces@[2]@ == sp[2] && pieces@[3]@ == sp[3]);
    assert(ssid@ == f[0] && sig@ == f[1] && chan@ == f[2] && sec@ == f[3]);
    let signal = number_or_zero_exec(&sig, 255) as u8;
    let channel = number_or_zero_exec(&chan, 65535) as u16;
    let security = trim_exec(&sec);
    Some(WifiNetwork { ssid: string_of(&ssid), signal, channel, security: string_of(&security) })
}

/// Parses terse `nmcli -t -f SSID,SIGNAL,CHAN,SECURITY dev wifi` output:
/// one network per line; blank and short lines are skipped, an unparsable
/// number counts as 0.
pub fn parse_nmcli_wifi(stdout: &str) -> (r: Vec<WifiNetwork>)
    ensures
        wifi_views(r@) == filter_map(lines(stdout@), wifi_line_fn()),
{
    let ls = lines_str(stdout);
    let ghost all = lines(stdout@);
    let mut out: Vec<WifiNetwork> = Vec::new();
    let mut i: usize = 0;
    while i < ls.len()
        invariant
            i <= ls.len(),
            ls@.len() == all.len(),
            forall|k: int| 0 <= k < ls@.len() ==> #[trigger] ls@[k]@ == all[k],
            wifi_views(out@) == filter_map(all.take(i as int), wifi_line_fn()),
        decreases ls.len() - i,
    {
        proof {
            lemma_filter_map_take(all, wifi_line_fn(), i as int);
        }
        let ghost before = out@;
        match wifi_line(&ls[i]) {
            Some(w) => {
                out.push(w);
                assert(wifi_views(out@) =~= wifi_views(before) + seq![wifi_view(w)]);
            },
            None => {},
        }
        i = i + 1;
    }
    assert(all.take(i as int) =~= all);
    out
}

// ─── Neighbour table ───────────────────────────────────────────────────

/// `str::split_whitespace` of a character sequence.
pub fn words_exec(s: &[char]) -> (r: Vec<Vec<char>>)
    ensures
        r@.len() == words(s@).len(),
        forall|k: int| 0 <= k < r@.len() ==> #[trigger] r@[k]@ == words(s@)[k],
{
    let empty: Vec<char> = Vec::new();
    assert(empty@ == Seq::<char>::empty());
    tokens_exec(s, &empty, true)
}

/// The token after the last occurrence of `key` among positions
/// `1..n` that have a successor.
pub open spec fn after_key(t: Seq<Seq<char>>, key: Seq<char>, n: int) -> Option<Seq<char>>
    decreases n,
{
    if n <= 1 {
        None
    } else if n < t.len() && t[n - 1] == key {
        Some(t[n])
    } else {
        after_key(t, key, n - 1)
    }
}

/// The entry an `ip neigh` line describes: address first, `dev` and
/// `lladdr` values after their keywords (the last one wins), the MAC
/// lowercased; none without a MAC.
pub open spec fn arp_of_line(line: Seq<char>) -> Option<(Seq<char>, Seq<char>, Seq<char>)> {
    let t = words(line);
    if t.len() == 0 {
        None
    } else {
        match after_key(t, "lladdr"@, t.len() as int) {
            None => None,
            Some(m) => if lower(m).len() == 0 {
                None
            } else {
                Some(
                    (
                        t[0],
                        lower(m),
                        match after_key(t, "dev"@, t.len() as int) {
                            Some(d) => d,
                            None => Seq::<char>::empty(),
                        },
                    ),
                )
            },
        }
    }
}

/// [`arp_of_line`] as a function value.
pub open spec fn arp_line_fn() -> spec_fn(Seq<char>) -> Option<(Seq<char>, Seq<char>, Seq<char>)> {
    |l: Seq<char>| arp_of_line(l)
}

/// An entry as plain values.
pub open spec fn arp_view(a: ArpEntry) -> (Seq<char>, Seq<char>, Seq<char>) {
    (a.ip@, a.mac@, a.iface@)
}

/// A list of entries as plain values.
pub open spec fn arp_views(v: Seq<ArpEntry>) -> Seq<(Seq<char>, Seq<char>, Seq<char>)> {
    v.map_values(|a: ArpEntry| arp_view(a))
}

fn is_word(w: &Vec<char>, lit: &str) -> (b: bool)
    ensures
        b == (w@ == lit@),
{
    let l = chars_of(lit);
    chars_eq(w, &l)
}

fn arp_line(line: &[char]) -> (r: Option<ArpEntry>)
    ensures
        match arp_of_line(line@) {
            Some(t) => r is Some && arp_view(r->Some_0) == t,
            None => r is None,
        },
{
    let toks = words_exec(line);
    let ghost t = words(line@);
    assert(toks@.len() == t.len());
    if toks.len() == 0 {
        return None;
    }
    let mut dev: Option<usize> = None;
    let mut ll: Option<usize> = None;
    let mut i: usize = 1;
    while i + 1 < toks.len()
        invariant
            1 <= i,
            i < toks.len() || (i == 1 && toks.len() == 1),
            toks@.len() == t.len(),
            forall|k: int| 0 <= k < toks@.len() ==> #[trigger] toks@[k]@ == t[k],
            match dev {
                Some(d) => d < toks.len() && after_key(t, "dev"@, i as int) == Some(t[d as int]),
                None => after_key(t, "dev"@, i as int) is None,
            },
            match ll {
                Some(d) => d < toks.len() && after_key(t, "lladdr"@, i as int) == Some(t[d as int]),
                None => after_key(t, "lladdr"@, i as int) is None,
            },
        decreases toks.len() - i,
    {
        if is_word(&toks[i], "dev") {
            dev = Some(i + 1);
        }
        if is_word(&toks[i], "lladdr") {
            ll = Some(i + 1);
        }
        i = i + 1;
    }
    assert(after_key(t, "dev"@, t.len() as int) == after_key(t, "dev"@, i as int));
    assert(after_key(t, "lladdr"@, t.len() as int) == after_key(t, "lladdr"@, i as int));
    match ll {
        None => None,
        Some(li) => {
            let mac = lower_exec(&toks[li]);
            if mac.len() == 0 {
                return None;
            }
            let iface = match dev {
                Some(di) => string_of(&toks[di]),
                None => String::new(),
            };
            Some(ArpEntry { ip: string_of(&toks[0]), mac: string_of(&mac), iface })
        },
    }
}

/// Parses `ip neigh` output; lines without a MAC (FAILED, INCOMPLETE) are
/// skipped.
pub fn parse_ip_neigh(stdout: &str) -> (r: Vec<ArpEntry>)
    ensures
        arp_views(r@) == filter_map(lines(stdout@), arp_line_fn()),
{
    let ls = lines_str(stdout);
    let ghost all = lines(stdout@);
    let mut out: Vec<ArpEntry> = Vec::new();
    let mut i: usize = 0;
    while i < ls.len()
        invariant
            i <= ls.len(),
            ls@.len() == all.len(),
            forall|k: int| 0 <= k < ls@.len() ==> #[trigger] ls@[k]@ == all[k],
            arp_views(out@) == filter_map(all.take(i as int), arp_line_fn()),
        decreases ls.len() - i,
    {
        proof {
            lemma_filter_map_take(all, arp_line_fn(), i as int);
        }
        let ghost before = out@;
        match arp_line(&ls[i]) {
            Some(a) => {
                out.push(a);
                assert(arp_views(out@) =~= arp_views(before) + seq![arp_view(a)]);
            },
            None => {},
        }
        i = i + 1;
    }
    assert(all.take(i as int) =~= all);
    out
}

// ─── Default route ─────────────────────────────────────────────────────

/// The texts of a list of character vectors.
pub open spec fn views(t: Seq<Vec<char>>) -> Seq<Seq<char>> {
    t.map_values(|w: Vec<char>| w@)
}

/// The first position of `key` in `t`.
pub open spec fn first_pos(t: Seq<Seq<char>>, key: Seq<char>) -> Option<int>
    decreases t.len(),
{
    if t.len() == 0 {
        None
    } else if t[0] == key {
        Some(0)
    } else {
        match first_pos(t.drop_first(), key) {
            Some(p) => Some(p + 1),
            None => None,
        }
    }
}

fn first_pos_exec(t: &Vec<Vec<char>>, key: &str) -> (r: Option<usize>)
    ensures
        match first_pos(views(t@), key@) {
            Some(p) => 0 <= p < t@.len() && r == Some(p as usize),
            None => r is None,
        },
{
    let ghost ts = views(t@);
    let mut j: usize = 0;
    assert(ts.skip(0) =~= ts);
    while j < t.len()
        invariant
            j <= t.len(),
            ts == views(t@),
            first_pos(ts, key@) == match first_pos(ts.skip(j as int), key@) {
                Some(p) => Some(p + j),
                None => None::<int>,
            },
        decreases t.len() - j,
    {
        let ghost rest = ts.skip(j as int);
        assert(rest[0] == ts[j as int]);
        if is_word(&t[j], key) {
            return Some(j);
        }
        assert(rest.drop_first() =~= ts.skip(j + 1));
        j = j + 1;
    }
    None
}

/// The gateway a route line names: after `via` on a line starting with
/// `default`.
pub open spec fn gw_of_line(line: Seq<char>) -> Option<Seq<char>> {
    let t = words(line);
    if t.len() > 0 && t[0] == "default"@ {
        match first_pos(t, "via"@) {
            Some(p) => if p + 1 < t.len() {
                Some(t[p + 1])
            } else {
                None
            },
            None => None,
        }
    } else {
        None
    }
}

/// The first line that names a gateway, if any.
pub open spec fn first_gateway(ls: Seq<Seq<char>>) -> Option<Seq<char>>
    decreases ls.len(),
{
    if ls.len() == 0 {
        None
    } else {
        match gw_of_line(ls[0]) {
            Some(g) => Some(g),
            None => first_gateway(ls.drop_first()),
        }
    }
}

proof fn lemma_first_pos_at(t: Seq<Seq<char>>, key: Seq<char>, p: int)
    requires
        0 <= p < t.len(),
        t[p] == key,
        forall|q: int| 0 <= q < p ==> #[trigger] t[q] != key,
    ensures
        first_pos(t, key) == Some(p),
    decreases p,
{
    if p > 0 {
        let r = t.drop_first();
        assert(t[0] != key);
        assert forall|q: int| 0 <= q < p - 1 implies #[trigger] r[q] != key by {
            assert(r[q] == t[q + 1]);
        }
        lemma_first_pos_at(r, key, p - 1);
    }
}

/// A route line names the word right after its first `via`, when it starts
/// with `default`; a line that does not start with `default` names none.
pub proof fn law_gateway_follows_first_via(line: Seq<char>, p: int)
    ensures
        (words(line).len() == 0 || words(line)[0] != "default"@) ==> gw_of_line(line) is None,
        (words(line).len() > 0 && words(line)[0] == "default"@ && 0 <= p && p + 1 < words(line).len()
            && words(line)[p] == "via"@ && forall|q: int| 0 <= q < p ==> #[trigger] words(line)[q] != "via"@)
            ==> gw_of_line(line) == Some(words(line)[p + 1]),
{
    let t = words(line);
    if t.len() > 0 && t[0] == "default"@ && 0 <= p && p + 1 < t.len() && t[p] == "via"@ && forall|q: int|
        0 <= q < p ==> #[trigger] t[q] != "via"@ {
        lemma_first_pos_at(t, "via"@, p);
    }
}

/// The gateway is that of the first line naming one: when line `i` names a
/// gateway and no earlier line does, the answer is line `i`'s gateway,
/// whatever later lines say.
pub proof fn law_gateway_of_first_default_route(ls: Seq<Seq<char>>, i: int)
    requires
        0 <= i < ls.len(),
        gw_of_line(ls[i]) is Some,
        forall|j: int| 0 <= j < i ==> gw_of_line(#[trigger] ls[j]) is None,
    ensures
        first_gateway(ls) == gw_of_line(ls[i]),
    decreases i,
{
    if i > 0 {
        let rest = ls.drop_first();
        assert(gw_of_line(ls[0]) is None);
        assert forall|j: int| 0 <= j < i - 1 implies gw_of_line(#[trigger] rest[j]) is None by {
            assert(rest[j] == ls[j + 1]);
        }
        assert(rest[i - 1] == ls[i]);
        law_gateway_of_first_default_route(rest, i - 1);
    }
}

/// There is no gateway exactly when no line names one; and any gateway
/// found is named by some line.
pub proof fn law_gateway_named_by_a_line(ls: Seq<Seq<char>>)
    ensures
        first_gateway(ls) is None <==> forall|j: int| 0 <= j < ls.len() ==> gw_of_line(#[trigger] ls[j]) is None,
        first_gateway(ls) is Some ==> exists|j: int| 0 <= j < ls.len() && gw_of_line(#[trigger] ls[j]) == first_gateway(ls),
    decreases ls.len(),
{
    if ls.len() > 0 {
        let rest = ls.drop_first();
        law_gateway_named_by_a_line(rest);
        assert forall|j: int| 0 <= j < rest.len() implies #[trigger] rest[j] == ls[j + 1] by {}
        if gw_of_line(ls[0]) is None {
            if first_gateway(rest) is Some {
                let j = choose|j: int| 0 <= j < rest.len() && gw_of_line(#[trigger] rest[j]) == first_gateway(rest);
                assert(gw_of_line(ls[j + 1]) == first_gateway(ls));
            }
            if forall|j: int| 0 <= j < rest.len() ==> gw_of_line(#[trigger] rest[j]) is None {
                assert forall|j: int| 0 <= j < ls.len() implies gw_of_line(#[trigger] ls[j]) is None by {
                    if j > 0 {
                        assert(ls[j] == rest[j - 1]);
                    }
                }
            } else {
                let j = choose|j: int| 0 <= j < rest.len() && !(gw_of_line(#[trigger] rest[j]) is None);
                assert(!(gw_of_line(ls[j + 1]) is None));
            }
        } else {
            assert(gw_of_line(ls[0]) == first_gateway(ls));
        }
    }
}

fn gw_line(line: &[char]) -> (r: Option<String>)
    ensures
        match gw_of_line(line@) {
            Some(g) => r is Some && r->Some_0@ == g,
            None => r is None,
        },
{
    let toks = words_exec(line);
    let ghost t = words(line@);
    assert(views(toks@) =~= t);
    if toks.len() > 0 && is_word(&toks[0], "default") {
        match first_pos_exec(&toks, "via") {
            Some(p) => {
                if p + 1 < toks.len() {
                    Some(string_of(&toks[p + 1]))
                } else {
                    None
                }
            },
            None => None,
        }
    } else {
        None
    }
}

/// Parses `ip route show default` output: the gateway of the first
/// `default ... via <gw>` line, or empty.
pub fn parse_default_gateway(stdout: &str) -> (g: String)
    ensures
        g@ == match first_gateway(lines(stdout@)) {
            Some(x) => x,
            None => Seq::<char>::empty(),
        },
{
    let ls = lines_str(stdout);
    let ghost all = lines(stdout@);
    let mut i: usize = 0;
    assert(all.skip(0) =~= all);
    while i < ls.len()
        invariant
            i <= ls.len(),
            ls@.len() == all.len(),
            forall|k: int| 0 <= k < ls@.len() ==> #[trigger] ls@[k]@ == all[k],
            all == lines(stdout@),
            first_gateway(all) == first_gateway(all.skip(i as int)),
        decreases ls.len() - i,
    {
        let ghost rest = all.skip(i as int);
        assert(rest[0] == all[i as int]);
        assert(ls@[i as int]@ == all[i as int]);
        match gw_line(&ls[i]) {
            Some(g) => {
                assert(gw_of_line(rest[0]) == Some(g@));
                assert(rest.len() > 0);
                assert(first_gateway(rest) == Some(g@));
                return g;
            },
            None => {},
        }
        assert(rest.drop_first() =~= all.skip(i + 1));
        i = i + 1;
    }
    String::new()
}

// ─── Resolvers ─────────────────────────────────────────────────────────

/// The resolver a `resolv.conf` line names: after `nameserver ` on a
/// trimmed line that is not a comment, trimmed and non-empty.
pub open spec fn ns_of_line(line: Seq<char>) -> Option<Seq<char>> {
    let l = trim(line);
    if starts_with(l, "#"@) || starts_with(l, ";"@) || !starts_with(l, "nameserver "@) {
        None
    } else {
        let v = trim(l.skip("nameserver "@.len() as int));
        if v.len() > 0 {
            Some(v)
        } else {
            None
        }
    }
}

/// [`ns_of_line`] as a function value.
pub open spec fn ns_line_fn() -> spec_fn(Seq<char>) -> Option<Seq<char>> {
    |l: Seq<char>| ns_of_line(l)
}

fn ns_line(line: &[char]) -> (r: Option<String>)
    ensures
        match ns_of_line(line@) {
            Some(v) => r is Some && r->Some_0@ == v,
            None => r is None,
        },
{
    let l = trim_exec(line);
    let hash = chars_of("#");
    let semi = chars_of(";");
    let ns = chars_of("nameserver ");
    if starts_with_exec(&l, &hash) || starts_with_exec(&l, &semi) || !starts_with_exec(&l, &ns) {
        return None;
    }
    let rest = slice_chars(&l, ns.len(), l.len());
    assert(rest@ =~= l@.skip(ns@.len() as int));
    let v = trim_exec(&rest);
    if v.len() > 0 {
        Some(string_of(&v))
    } else {
        None
    }
}

/// Parses `resolv.conf`: the `nameserver` addresses, in order.
pub fn parse_resolv_conf(content: &str) -> (r: Vec<String>)
    ensures
        crate::text::texts(r@) == filter_map(lines(content@), ns_line_fn()),
{
    let ls = lines_str(content);
    let ghost all = lines(content@);
    let mut out: Vec<String> = Vec::new();
    let mut i: usize = 0;
    while i < ls.len()
        invariant
            i <= ls.len(),
            ls@.len() == all.len(),
            forall|k: int| 0 <= k < ls@.len() ==> #[trigger] ls@[k]@ == all[k],
            crate::text::texts(out@) == filter_map(all.take(i as int), ns_line_fn()),
        decreases ls.len() - i,
    {
        proof {
            lemma_filter_map_take(all, ns_line_fn(), i as int);
        }
        let ghost before = out@;
        match ns_line(&ls[i]) {
            Some(v) => {
                out.push(v);
                assert(crate::text::texts(out@) =~= crate::text::texts(before) + seq![v@]);
            },
            None => {},
        }
        i = i + 1;
    }
    assert(all.take(i as int) =~= all);
    out
}

// ─── Link MTU and tunnel state ─────────────────────────────────────────

/// The MTU `ip link show` output gives: the `u32` after the first `mtu`.
pub open spec fn mtu_of(stdout: Seq<char>) -> Option<nat> {
    let t = words(stdout);
    match first_pos(t, "mtu"@) {
        Some(p) => if p + 1 < t.len() {
            parse_unsigned(t[p + 1], u32::MAX as nat)
        } else {
            None
        },
        None => None,
    }
}

/// The MTU is the number right after the first `mtu` word: when word `p`
/// is the first `mtu` and a word follows it, the MTU is that word read as a
/// `u32` (none if it is not one); with no `mtu` word there is none.
pub proof fn law_mtu_follows_first_mtu_word(stdout: Seq<char>, p: int)
    ensures
        (forall|q: int| 0 <= q < words(stdout).len() ==> #[trigger] words(stdout)[q] != "mtu"@) ==> mtu_of(stdout) is None,
        (0 <= p && p + 1 < words(stdout).len() && words(stdout)[p] == "mtu"@ && forall|q: int|
            0 <= q < p ==> #[trigger] words(stdout)[q] != "mtu"@) ==> mtu_of(stdout) == parse_unsigned(
            words(stdout)[p + 1],
            u32::MAX as nat,
        ),
{
    let t = words(stdout);
    if 0 <= p && p + 1 < t.len() && t[p] == "mtu"@ && forall|q: int| 0 <= q < p ==> #[trigger] t[q] != "mtu"@ {
        lemma_first_pos_at(t, "mtu"@, p);
    }
    if forall|q: int| 0 <= q < t.len() ==> #[trigger] t[q] != "mtu"@ {
        lemma_first_pos_none(t, "mtu"@);
    }
}

proof fn lemma_first_pos_none(t: Seq<Seq<char>>, key: Seq<char>)
    requires
        forall|q: int| 0 <= q < t.len() ==> #[trigger] t[q] != key,
    ensures
        first_pos(t, key) is None,
    decreases t.len(),
{
    if t.len() > 0 {
        let r = t.drop_first();
        assert(t[0] != key);
        assert forall|q: int| 0 <= q < r.len() implies #[trigger] r[q] != key by {
            assert(r[q] == t[q + 1]);
        }
        lemma_first_pos_none(r, key);
    }
}

/// Parses the MTU of `iface` from `ip link show` output; jumbo frames from
/// 9000 up.
pub fn parse_ip_link_mtu(stdout: &str, iface: &str) -> (r: Option<MtuInfo>)
    ensures
        match mtu_of(stdout@) {
            Some(m) => r is Some && r->Some_0.iface@ == iface@ && r->Some_0.mtu == m
                && r->Some_0.jumbo == (m >= 9000),
            None => r is None,
        },
{
    let cs = chars_of(stdout);
    let toks = words_exec(&cs);
    let ghost t = words(stdout@);
    assert(views(toks@) =~= t);
    match first_pos_exec(&toks, "mtu") {
        None => None,
        Some(p) => {
            assert(p < toks.len());
            if p + 1 >= toks.len() {
                return None;
            }
            match parse_unsigned_exec(&toks[p + 1], 0xffff_ffff) {
                None => None,
                Some(m) => {
                    let mtu = m as u32;
                    Some(MtuInfo { iface: owned(iface), mtu, jumbo: mtu >= 9000 })
                },
            }
        },
    }
}

/// Whether `ip link show` output shows the interface up: non-blank and
/// carrying `UP` as a whole flag of a `<…>` flag list (first, between
/// commas, last or alone) or `state UP`.
pub open spec fn tunnel_up_of(stdout: Seq<char>) -> bool {
    trim(stdout).len() > 0 && (contains(stdout, ",UP,"@) || contains(stdout, "<UP,"@) || contains(
        stdout,
        ",UP>"@,
    ) || contains(stdout, "<UP>"@) || contains(stdout, "state UP"@))
}

/// Whether the tunnel interface is up; empty output means it is absent.
pub fn parse_tunnel_up(stdout: &str, iface: &str) -> (b: bool)
    ensures
        b == tunnel_up_of(stdout@),
{
    let cs = chars_of(stdout);
    let t = trim_exec(&cs);
    if t.len() == 0 {
        return false;
    }
    let a = chars_of(",UP,");
    let b = chars_of("<UP,");
    let c = chars_of(",UP>");
    let d = chars_of("state UP");
    let e = chars_of("<UP>");
    contains_exec(&cs, &a) || contains_exec(&cs, &b) || contains_exec(&cs, &c) || contains_exec(
        &cs,
        &e,
    ) || contains_exec(&cs, &d)
}

// ─── Snapshot file name ────────────────────────────────────────────────

/// SHA-256 of the UTF-8 bytes of a text.
pub uninterp spec fn sha256_utf8(s: Seq<char>) -> Seq<u8>;

/// `sha2::Sha256::digest` of the text's UTF-8 bytes. Claimed: the result
/// is the named value `sha256_utf8(s)`, 32 bytes long (the digest size).
#[verifier::external_body]
fn sha256_of(s: &str) -> (h: Vec<u8>)
    ensures
        h@ == sha256_utf8(s@),
        h@.len() == 32,
{
    Sha256::digest(s.as_bytes()).to_vec()
}

/// The lowercase hex digit of `n < 16`.
pub open spec fn hex_digit(n: nat) -> char {
    if n < 10 {
        ((n + 48) as u32) as char
    } else {
        ((n + 87) as u32) as char
    }
}

/// `{:02x}` of a byte.
pub open spec fn hex2(b: u8) -> Seq<char> {
    seq![hex_digit((b / 16) as nat), hex_digit((b % 16) as nat)]
}

/// The text with every `:` replaced by `-`.
pub open spec fn dash_colons(s: Seq<char>) -> Seq<char> {
    Seq::new(s.len(), |i: int| if s[i] == ':' { '-' } else { s[i] })
}

/// `<iso with : as ->-<first 4 bytes of the digest h, hex>.json`.
pub open spec fn snapshot_name_with(iso: Seq<char>, h: Seq<u8>) -> Seq<char> {
    dash_colons(iso) + seq!['-'] + hex2(h[0]) + hex2(h[1]) + hex2(h[2]) + hex2(h[3]) + ".json"@
}

/// `<iso with : as ->-<first 4 bytes of the SHA-256 of the body, hex>.json`.
pub open spec fn snapshot_name(iso: Seq<char>, body: Seq<char>) -> Seq<char> {
    snapshot_name_with(iso, sha256_utf8(body))
}

fn hex_digit_exec(n: u8) -> (c: char)
    requires
        n < 16,
    ensures
        c == hex_digit(n as nat),
{
    if n < 10 {
        let c = (n + 48) as char;
        c
    } else {
        let c = (n + 87) as char;
        c
    }
}

/// The name a snapshot file gets: the colon-free timestamp, a dash, the
/// first 8 hex digits of the body's SHA-256, and `.json`.
pub fn snapshot_filename(iso8601: &str, json_body: &str) -> (name: String)
    ensures
        name@ == snapshot_name(iso8601@, json_body@),
{
    let h = sha256_of(json_body);
    snapshot_filename_from_digest(iso8601, h.as_slice())
}

/// The snapshot file name for a body whose SHA-256 digest is `h`: the
/// colon-free timestamp, a dash, the hex of the digest's first 4 bytes, and
/// `.json`.
pub fn snapshot_filename_from_digest(iso8601: &str, h: &[u8]) -> (name: String)
    requires
        h@.len() >= 4,
    ensures
        name@ == snapshot_name_with(iso8601@, h@),
{
    let iso = chars_of(iso8601);
    let mut name = String::new();
    let mut i: usize = 0;
    while i < iso.len()
        invariant
            i <= iso.len(),
            name@ == dash_colons(iso@).take(i as int),
        decreases iso.len() - i,
    {
        push_char(&mut name, if iso[i] == ':' { '-' } else { iso[i] });
        assert(name@ =~= dash_colons(iso@).take(i + 1));
        i = i + 1;
    }
    assert(dash_colons(iso@).take(i as int) =~= dash_colons(iso@));
    push_char(&mut name, '-');
    let mut k: usize = 0;
    let ghost base = name@;
    while k < 4
        invariant
            k <= 4,
            h@.len() >= 4,
            name@ == base + (if k == 0 {
                Seq::<char>::empty()
            } else if k == 1 {
                hex2(h@[0])
            } else if k == 2 {
                hex2(h@[0]) + hex2(h@[1])
            } else if k == 3 {
                hex2(h@[0]) + hex2(h@[1]) + hex2(h@[2])
            } else {
                hex2(h@[0]) + hex2(h@[1]) + hex2(h@[2]) + hex2(h@[3])
            }),
        decreases 4 - k,
    {
        let b = h[k];
        push_char(&mut name, hex_digit_exec(b / 16));
        push_char(&mut name, hex_digit_exec(b % 16));
        k = k + 1;
    }
    push_str(&mut name, ".json");
    name
}

// ─── The worker ────────────────────────────────────────────────────────

/// The assessment worker's configuration: the host it reports as, the
/// snapshot root, the overlay interface and the cadence.
pub struct NetAssessWorker {
    pub host: String,
    pub base_dir: String,
    pub nebula_iface: String,
    pub tick: Duration,
}

impl NetAssessWorker {
    /// The production defaults for `host` under `base_dir`.
    pub fn new(host: String, base_dir: String) -> (w: Self)
        ensures
            w.host == host,
            w.base_dir == base_dir,
            w.nebula_iface@ == DEFAULT_NEBULA_INTERFACE@,
            w.tick == duration_from_secs(DEFAULT_TICK_SECS),
    {
        NetAssessWorker {
            host,
            base_dir,
            nebula_iface: owned(DEFAULT_NEBULA_INTERFACE),
            tick: secs(DEFAULT_TICK_SECS),
        }
    }

    /// Replaces the cadence.
    pub fn with_tick(self, d: Duration) -> (w: Self)
        ensures
            w == (NetAssessWorker { tick: d, ..self }),
    {
        NetAssessWorker { tick: d, ..self }
    }
}


/// Whether the retention sweep keeps a snapshot: one whose `ts_ms` could
/// not be read is kept; otherwise it is kept when not older than the cutoff.
pub fn snapshot_kept(ts_ms: Option<i64>, cutoff_ms: i64) -> (b: bool)
    ensures
        b == match ts_ms {
            Some(ts) => ts >= cutoff_ms,
            None => true,
        },
{
    match ts_ms {
        Some(ts) => ts >= cutoff_ms,
        None => true,
    }
}


/// The subnet's host count: the probe inventory's, when one was read;
/// otherwise the neighbour table's.
pub fn subnet_from(probe_hosts: Option<usize>, arp_len: usize) -> (r: SubnetDiscovery)
    ensures
        match probe_hosts {
            Some(n) => r.host_count == n && r.source@ == "probe-inventory"@,
            None => r.host_count == arp_len && r.source@ == "arp-fallback"@,
        },
{
    match probe_hosts {
        Some(n) => SubnetDiscovery { host_count: n, source: owned("probe-inventory") },
        None => SubnetDiscovery { host_count: arp_len, source: owned("arp-fallback") },
    }
}

/// Position of the first token equal to `t`, or the number of tokens.
pub open spec fn first_index_of(ts: Seq<Seq<char>>, t: Seq<char>) -> int
    decreases ts.len(),
{
    if ts.len() == 0 {
        0
    } else if ts[0] == t {
        0
    } else {
        1 + first_index_of(ts.drop_first(), t)
    }
}

proof fn lemma_first_index_of(ts: Seq<Seq<char>>, t: Seq<char>, i: int)
    requires
        0 <= i <= ts.len(),
        forall|q: int| 0 <= q < i ==> #[trigger] ts[q] != t,
    ensures
        i < ts.len() && ts[i] == t ==> first_index_of(ts, t) == i,
        i == ts.len() ==> first_index_of(ts, t) == ts.len(),
    decreases ts.len(),
{
    if ts.len() > 0 && i > 0 {
        let r = ts.drop_first();
        assert forall|q: int| 0 <= q < i - 1 implies #[trigger] r[q] != t by {
            assert(r[q] == ts[q + 1]);
        }
        lemma_first_index_of(r, t, i - 1);
        assert(ts[0] != t);
    }
}

/// The interface of `ip route show default` output: the token after the
/// first `dev`, or `eth0` when there is none (or no output).
pub open spec fn primary_iface_of(stdout: Option<Seq<char>>) -> Seq<char> {
    match stdout {
        Some(s) => {
            let ws = words(s);
            let k = first_index_of(ws, "dev"@);
            if k + 1 < ws.len() { ws[k + 1] } else { "eth0"@ }
        },
        None => "eth0"@,
    }
}

/// The primary interface from `ip route show default` output.
pub fn primary_iface_from(stdout: Option<&str>) -> (r: String)
    ensures
        r@ == primary_iface_of(match stdout { Some(s) => Some(s@), None => None }),
{
    let s = match stdout {
        Some(s) => s,
        None => return owned("eth0"),
    };
    let cs = chars_of(s);
    let ws = words_exec(&cs);
    let ghost w = words(s@);
    let dev = chars_of("dev");
    let mut i: usize = 0;
    while i < ws.len()
        invariant
            i <= ws@.len(),
            stdout == Some(s),
            ws@.len() == w.len(),
            cs@ == s@,
            w == words(s@),
            dev@ == "dev"@,
            forall|k: int| 0 <= k < ws@.len() ==> #[trigger] ws@[k]@ == w[k],
            forall|q: int| 0 <= q < i ==> #[trigger] w[q] != "dev"@,
        decreases ws.len() - i,
    {
        if chars_eq(&ws[i], &dev) {
            proof {
                lemma_first_index_of(w, "dev"@, i as int);
            }
            if i + 1 < ws.len() {
                return string_of(&ws[i + 1]);
            } else {
                return owned("eth0");
            }
        }
        assert(ws@[i as int]@ == w[i as int]);
        i = i + 1;
    }
    proof {
        lemma_first_index_of(w, "dev"@, i as int);
    }
    owned("eth0")
}

/// The `ping` arguments of the reachability probe: one echo, two-second
/// wait, `-6` first for IPv6.
pub fn ping_args(target: &str, v6: bool) -> (v: Vec<String>)
    ensures
        texts(v@) == (if v6 { seq!["-6"@] } else { Seq::<Seq<char>>::empty() }) + seq!["-c"@, "1"@, "-W"@, "2"@, target@],
{
    let mut v: Vec<String> = Vec::new();
    if v6 {
        crate::workers::meshfs::push_arg(&mut v, "-6");
    }
    let ghost pre = texts(v@);
    crate::workers::meshfs::push_arg(&mut v, "-c");
    crate::workers::meshfs::push_arg(&mut v, "1");
    crate::workers::meshfs::push_arg(&mut v, "-W");
    crate::workers::meshfs::push_arg(&mut v, "2");
    crate::workers::meshfs::push_arg(&mut v, target);
    assert(texts(v@) =~= pre + seq!["-c"@, "1"@, "-W"@, "2"@, target@]);
    assert(pre =~= (if v6 { seq!["-6"@] } else { Seq::<Seq<char>>::empty() }));
    v
}

} // verus!
