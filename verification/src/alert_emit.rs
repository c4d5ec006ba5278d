//! Alert events from the monitoring agent's environment block: the event
//! shape, its deterministic ULID (timestamp prefix plus an FNV-1a fold of
//! the alarm's unique id, in Crockford base32), and the assembly from the
//! `NETDATA_ALARM_*` variables.
use vstd::prelude::*;
use vstd::arithmetic::div_mod::{lemma_div_denominator, lemma_div_pos_is_pos};
use vstd::arithmetic::power::{lemma_pow_positive, pow};
use vstd::utf8::encode_utf8;

use crate::text::{owned, parse_unsigned, parse_unsigned_exec, push_char, str_eq_str};

verus! {

/// One alert event.
#[derive(Debug, Clone, PartialEq, Eq)]
pub struct AlertEvent {
    /// The ULID, also the file name's stem.
    pub id: String,
    /// When the alarm fired, in seconds since the epoch.
    pub ts: i64,
    /// `WARNING`, `CRITICAL`, `CLEAR`, ... (`UNKNOWN` when absent).
    pub severity: String,
    pub category: String,
    pub alert: String,
    pub host: String,
    pub summary: String,
    pub value: String,
    pub threshold: String,
    pub chart_url: String,
    /// Always `mde-alert-emit`.
    pub fired_by: String,
    /// Peers that surfaced the event; starts empty.
    pub seen_by: Vec<String>,
}

/// The FNV-1a 64-bit prime.
pub const FNV_PRIME: u64 = 0x100000001b3;

/// The FNV-1a offset basis, the seed of the first fold.
pub const FNV_SEED_1: u64 = 0xcbf2_9ce4_8422_2325;

/// The seed of the second fold: `0x84222325_cbf29ce4` byte-swapped.
pub const FNV_SEED_2: u64 = 0xe49c_f2cb_2523_2284;

/// FNV-1a over `input` from `seed`: xor in each byte, then multiply by
/// the prime modulo 2^64.
pub open spec fn fnv_fold(input: Seq<u8>, seed: u64) -> u64
    decreases input.len(),
{
    if input.len() == 0 {
        seed
    } else {
        (fnv_fold(input.drop_last(), seed) ^ (input.last() as u64)).wrapping_mul(FNV_PRIME)
    }
}

/// FNV-1a of a byte slice.
pub fn fnv1a64(input: &[u8], seed: u64) -> (h: u64)
    ensures
        h == fnv_fold(input@, seed),
{
    let mut h = seed;
    let mut i: usize = 0;
    while i < input.len()
        invariant
            i <= input.len(),
            h == fnv_fold(input@.take(i as int), seed),
        decreases input.len() - i,
    {
        assert(input@.take(i + 1).drop_last() =~= input@.take(i as int));
        h = h ^ (input[i] as u64);
        h = h.wrapping_mul(FNV_PRIME);
        i = i + 1;
    }
    assert(input@.take(i as int) =~= input@);
    h
}

/// The Crockford base32 digit of `d < 32`.
pub open spec fn crockford_digit(d: int) -> char {
    "0123456789ABCDEFGHJKMNPQRSTVWXYZ"@[d]
}

/// The 26 Crockford base32 digits of `n`, most significant first.
pub open spec fn crockford26(n: nat) -> Seq<char> {
    Seq::new(26, |i: int| crockford_digit((n as int / pow(32, (25 - i) as nat)) % 32))
}

/// The 128-bit value behind a ULID: the low 48 bits of the millisecond
/// timestamp, then the 64-bit first fold, then the top 16 bits of the
/// second fold.
pub open spec fn ulid_value(ms: u64, h1: u64, h2: u64) -> nat {
    ((ms as nat % 0x1_0000_0000_0000) * 0x1_0000_0000_0000_0000_0000 + (h1 as nat) * 0x1_0000 + (h2
        as nat) / 0x1_0000_0000_0000) as nat
}

/// The milliseconds a timestamp in seconds stands for: the seconds read as
/// `u64` (a negative value wraps) times 1000, saturating.
pub open spec fn ms_of(when_unix_s: i64) -> u64 {
    let s = when_unix_s as u64;
    if s * 1000 > u64::MAX {
        u64::MAX
    } else {
        (s * 1000) as u64
    }
}

/// The ULID of an alarm fired at `when_unix_s` with the unique id `uid`
/// (folded over its UTF-8 bytes).
pub open spec fn ulid_of(when_unix_s: i64, uid: Seq<char>) -> Seq<char> {
    let b = encode_utf8(uid);
    crockford26(ulid_value(ms_of(when_unix_s), fnv_fold(b, FNV_SEED_1), fnv_fold(b, FNV_SEED_2)))
}

proof fn lemma_pow32_step(k: nat)
    ensures
        pow(32, k + 1) == pow(32, k) * 32,
        pow(32, k) > 0,
{
    lemma_pow_positive(32, k);
    assert(pow(32, k + 1) == 32 * pow(32, k)) by {
        reveal(pow);
    }
}

/// Crockford base32 of a 128-bit value, 26 digits.
fn crockford_base32(n: u128) -> (s: String)
    ensures
        s@ == crockford26(n as nat),
{
    let alphabet: Vec<char> = crate::text::chars_of("0123456789ABCDEFGHJKMNPQRSTVWXYZ");
    proof {
        reveal_strlit("0123456789ABCDEFGHJKMNPQRSTVWXYZ");
    }
    let mut digits: Vec<char> = Vec::new();
    let mut cur: u128 = n;
    let mut k: usize = 0;
    proof {
        reveal(pow);
        assert(pow(32, 0) == 1);
    }
    while k < 26
        invariant
            k <= 26,
            alphabet@ == "0123456789ABCDEFGHJKMNPQRSTVWXYZ"@,
            alphabet@.len() == 32,
            cur as int == n as int / pow(32, k as nat),
            digits@.len() == k,
            forall|j: int|
                0 <= j < k ==> #[trigger] digits@[j] == crockford_digit(
                    (n as int / pow(32, j as nat)) % 32,
                ),
        decreases 26 - k,
    {
        let d = (cur % 32) as usize;
        digits.push(alphabet[d]);
        proof {
            lemma_pow32_step(k as nat);
            lemma_div_denominator(n as int, pow(32, k as nat), 32);
        }
        cur = cur / 32;
        k = k + 1;
    }
    let mut s = String::new();
    let mut i: usize = 0;
    while i < 26
        invariant
            i <= 26,
            digits@.len() == 26,
            forall|j: int|
                0 <= j < 26 ==> #[trigger] digits@[j] == crockford_digit(
                    (n as int / pow(32, j as nat)) % 32,
                ),
            s@ == crockford26(n as nat).take(i as int),
        decreases 26 - i,
    {
        push_char(&mut s, digits[25 - i]);
        assert(s@ =~= crockford26(n as nat).take(i + 1));
        i = i + 1;
    }
    assert(crockford26(n as nat).take(26) =~= crockford26(n as nat));
    s
}

/// The deterministic ULID of an alarm: the same timestamp and unique id
/// always give the same 26-character Crockford base32 id.
pub fn make_ulid(when_unix_s: i64, unique_id: &str) -> (id: String)
    ensures
        id@ == ulid_of(when_unix_s, unique_id@),
        id@.len() == 26,
        forall|i: int| 0 <= i < 26 ==> "0123456789ABCDEFGHJKMNPQRSTVWXYZ"@.contains(#[trigger] id@[i]),
{
    let s: u64 = when_unix_s as u64;
    let ms: u64 = match s.checked_mul(1000) {
        Some(v) => v,
        None => u64::MAX,
    };
    let bytes = unique_id.as_bytes();
    let h1 = fnv1a64(bytes, FNV_SEED_1);
    let h2 = fnv1a64(bytes, FNV_SEED_2);
    let top: u128 = (ms % 0x1_0000_0000_0000) as u128;
    let n: u128 = top * 0x1_0000_0000_0000_0000_0000 + (h1 as u128) * 0x1_0000 + (h2 as u128)
        / 0x1_0000_0000_0000;
    let id = crockford_base32(n);
    proof {
        reveal_strlit("0123456789ABCDEFGHJKMNPQRSTVWXYZ");
        assert forall|i: int| 0 <= i < 26 implies "0123456789ABCDEFGHJKMNPQRSTVWXYZ"@.contains(#[trigger] id@[i]) by {
            let j = (n as int / pow(32, (25 - i) as nat)) % 32;
            assert(0 <= j < 32);
            assert("0123456789ABCDEFGHJKMNPQRSTVWXYZ"@[j] == id@[i]);
        }
    }
    id
}

// ─── Environment block ─────────────────────────────────────────────────

/// The value of the last `key` entry of an environment list.
pub open spec fn env_get(env: Seq<(String, String)>, key: Seq<char>) -> Option<Seq<char>>
    decreases env.len(),
{
    if env.len() == 0 {
        None
    } else if env.last().0@ == key {
        Some(env.last().1@)
    } else {
        env_get(env.drop_last(), key)
    }
}

/// A value or the empty text.
pub open spec fn or_empty(v: Option<Seq<char>>) -> Seq<char> {
    match v {
        Some(x) => x,
        None => Seq::empty(),
    }
}

/// `i64::from_str`: an optional `+` or `-`, then one or more ASCII digits,
/// within range.
pub open spec fn parse_i64(s: Seq<char>) -> Option<int> {
    if s.len() > 0 && s[0] == '-' {
        let d = s.drop_first();
        if d.len() == 0 || !crate::text::all_digits(d) || crate::text::digits_value(d)
            > 0x8000_0000_0000_0000 {
            None
        } else {
            Some(-crate::text::digits_value(d))
        }
    } else {
        match parse_unsigned(s, i64::MAX as nat) {
            Some(v) => Some(v as int),
            None => None,
        }
    }
}

/// `i64::from_str`.
pub fn parse_i64_exec(s: &str) -> (r: Option<i64>)
    ensures
        match parse_i64(s@) {
            Some(v) => r == Some(v as i64),
            None => r is None,
        },
{
    let cs = crate::text::chars_of(s);
    if cs.len() > 0 && cs[0] == '-' {
        let d = crate::text::slice_chars(&cs, 1, cs.len());
        assert(d@ =~= s@.drop_first());
        assert(crate::text::unsigned_digits(d@) == d@ || (d@.len() > 0 && d@[0] == '+'));
        if d.len() == 0 || d[0] == '+' {
            proof {
                if d@.len() > 0 {
                    assert(!crate::text::is_digit(d@[0]));
                }
            }
            return None;
        }
        assert(crate::text::unsigned_digits(d@) == d@);
        match parse_unsigned_exec(&d, 0x8000_0000_0000_0000) {
            None => None,
            Some(v) => {
                if v == 0x8000_0000_0000_0000 {
                    Some(i64::MIN)
                } else {
                    Some(-(v as i64))
                }
            },
        }
    } else {
        match parse_unsigned_exec(&cs, 0x7fff_ffff_ffff_ffff) {
            None => None,
            Some(v) => Some(v as i64),
        }
    }
}

fn env_lookup(env: &[(String, String)], key: &str) -> (r: Option<String>)
    ensures
        match env_get(env@, key@) {
            Some(v) => r is Some && r->Some_0@ == v,
            None => r is None,
        },
{
    let mut i: usize = env.len();
    assert(env@.take(i as int) =~= env@);
    while i > 0
        invariant
            i <= env.len(),
            env_get(env@, key@) == env_get(env@.take(i as int), key@),
        decreases i,
    {
        let ghost pre = env@.take(i as int);
        assert(pre.last() == env@[i - 1]);
        assert(pre.drop_last() =~= env@.take(i - 1));
        if str_eq_str(env[i - 1].0.as_str(), key) {
            return Some(owned(env[i - 1].1.as_str()));
        }
        i = i - 1;
    }
    None
}

fn env_or_empty(env: &[(String, String)], key: &str) -> (s: String)
    ensures
        s@ == or_empty(env_get(env@, key@)),
{
    match env_lookup(env, key) {
        Some(v) => v,
        None => String::new(),
    }
}

/// Builds the event from the environment block: `None` unless
/// `NETDATA_ALARM_WHEN` holds an `i64` and `NETDATA_ALARM_UNIQUE_ID` is
/// present; absent text fields are empty, an absent status is `UNKNOWN`.
pub fn assemble_from_env(env: &[(String, String)]) -> (r: Option<AlertEvent>)
    ensures
        match (env_get(env@, "NETDATA_ALARM_WHEN"@), env_get(env@, "NETDATA_ALARM_UNIQUE_ID"@)) {
            (Some(w), Some(u)) => match parse_i64(w) {
                Some(t) => r matches Some(e) && e.ts == t && e.id@ == ulid_of(t as i64, u)
                    && e.severity@ == (match env_get(env@, "NETDATA_ALARM_STATUS"@) {
                    Some(x) => x,
                    None => "UNKNOWN"@,
                }) && e.category@ == or_empty(env_get(env@, "NETDATA_ALARM_CHART_CONTEXT"@))
                    && e.alert@ == or_empty(env_get(env@, "NETDATA_ALARM_NAME"@)) && e.host@
                    == or_empty(env_get(env@, "NETDATA_ALARM_HOSTNAME"@)) && e.summary@ == or_empty(
                    env_get(env@, "NETDATA_ALARM_INFO"@),
                ) && e.value@ == or_empty(env_get(env@, "NETDATA_ALARM_VALUE"@)) && e.threshold@
                    == or_empty(env_get(env@, "NETDATA_ALARM_THRESHOLD"@)) && e.chart_url@
                    == or_empty(env_get(env@, "NETDATA_ALARM_CHART_URL"@)) && e.fired_by@
                    == "mde-alert-emit"@ && e.seen_by@.len() == 0,
                None => r is None,
            },
            _ => r is None,
        },
{
    let when_str = match env_lookup(env, "NETDATA_ALARM_WHEN") {
        Some(w) => w,
        None => return None,
    };
    let when_unix_s = match parse_i64_exec(when_str.as_str()) {
        Some(t) => t,
        None => return None,
    };
    let unique_id = match env_lookup(env, "NETDATA_ALARM_UNIQUE_ID") {
        Some(u) => u,
        None => return None,
    };
    let id = make_ulid(when_unix_s, unique_id.as_str());
    let severity = match env_lookup(env, "NETDATA_ALARM_STATUS") {
        Some(s) => s,
        None => owned("UNKNOWN"),
    };
    Some(
        AlertEvent {
            id,
            ts: when_unix_s,
            severity,
            category: env_or_empty(env, "NETDATA_ALARM_CHART_CONTEXT"),
            alert: env_or_empty(env, "NETDATA_ALARM_NAME"),
            host: env_or_empty(env, "NETDATA_ALARM_HOSTNAME"),
            summary: env_or_empty(env, "NETDATA_ALARM_INFO"),
            value: env_or_empty(env, "NETDATA_ALARM_VALUE"),
            threshold: env_or_empty(env, "NETDATA_ALARM_THRESHOLD"),
            chart_url: env_or_empty(env, "NETDATA_ALARM_CHART_URL"),
            fired_by: owned("mde-alert-emit"),
            seen_by: Vec::new(),
        },
    )
}


// ─── ULIDs order by time ───────────────────────────────────────────────

/// The Crockford alphabet, letter by letter.
spec fn alphabet() -> Seq<char> {
    seq!['0', '1', '2', '3', '4', '5', '6', '7', '8', '9', 'A', 'B', 'C', 'D', 'E', 'F', 'G', 'H', 'J',
    'K', 'M', 'N', 'P', 'Q', 'R', 'S', 'T', 'V', 'W', 'X', 'Y', 'Z']
}

proof fn lemma_alphabet_ascending(i: int, j: int)
    requires
        0 <= i < j < 32,
    ensures
        crockford_digit(i) < crockford_digit(j),
    decreases j - i,
{
    reveal_strlit("0123456789ABCDEFGHJKMNPQRSTVWXYZ");
    assert("0123456789ABCDEFGHJKMNPQRSTVWXYZ"@ =~= alphabet());
    assert(alphabet()[j - 1] < alphabet()[j]);
    if i < j - 1 {
        lemma_alphabet_ascending(i, j - 1);
    }
}

/// The low `k` base-32 digits of `n` in the Crockford alphabet, most
/// significant first.
pub open spec fn base32_digits(n: nat, k: nat) -> Seq<char>
    decreases k,
{
    if k == 0 {
        Seq::empty()
    } else {
        base32_digits(n / 32, (k - 1) as nat).push(crockford_digit((n % 32) as int))
    }
}

proof fn lemma_base32_digits_index(n: nat, k: nat)
    ensures
        base32_digits(n, k).len() == k,
        forall|i: int| 0 <= i < k ==> #[trigger] base32_digits(n, k)[i] == crockford_digit(
            (n as int / pow(32, (k - 1 - i) as nat)) % 32,
        ),
    decreases k,
{
    if k > 0 {
        let m = (k - 1) as nat;
        lemma_base32_digits_index(n / 32, m);
        assert forall|i: int| 0 <= i < k implies #[trigger] base32_digits(n, k)[i] == crockford_digit(
            (n as int / pow(32, (k - 1 - i) as nat)) % 32,
        ) by {
            if i < m {
                let e = (m - 1 - i) as nat;
                lemma_pow32_step(e);
                lemma_pow_positive(32, e);
                lemma_div_denominator(n as int, 32, pow(32, e));
                assert(32 * pow(32, e) == pow(32, (e + 1) as nat));
            } else {
                reveal(pow);
                assert(pow(32, 0) == 1);
            }
        }
    }
}

/// `seq_le` strictly, on sequences of one length, survives appending one
/// character to each; equal sequences become strictly ordered by the
/// appended characters.
proof fn lemma_seq_lt_push(x: Seq<char>, y: Seq<char>, c: char, d: char)
    requires
        x.len() == y.len(),
        (crate::text::seq_le(x, y) && x != y) || (x == y && c < d),
    ensures
        crate::text::seq_le(x.push(c), y.push(d)),
        x.push(c) != y.push(d),
    decreases x.len(),
{
    if x.len() == 0 {
        assert(x == y);
        assert(x.push(c)[0] == c);
        assert(y.push(d)[0] == d);
        assert(x.push(c).drop_first().len() == 0);
    } else {
        assert(x.push(c)[0] == x[0]);
        assert(y.push(d)[0] == y[0]);
        if x[0] == y[0] {
            assert(x.push(c).drop_first() == x.drop_first().push(c));
            assert(y.push(d).drop_first() == y.drop_first().push(d));
            if x != y {
                assert(x.drop_first() != y.drop_first()) by {
                    if x.drop_first() == y.drop_first() {
                        assert(x == seq![x[0]] + x.drop_first());
                        assert(y == seq![y[0]] + y.drop_first());
                    }
                }
            }
            lemma_seq_lt_push(x.drop_first(), y.drop_first(), c, d);
        }
    }
}

proof fn lemma_base32_digits_order(a: nat, b: nat, k: nat)
    requires
        a < b < pow(32, k),
    ensures
        crate::text::seq_le(base32_digits(a, k), base32_digits(b, k)),
        base32_digits(a, k) != base32_digits(b, k),
    decreases k,
{
    if k == 0 {
        reveal(pow);
        assert(pow(32, 0) == 1);
    } else {
        let m = (k - 1) as nat;
        lemma_pow32_step(m);
        lemma_base32_digits_index(a / 32, m);
        lemma_base32_digits_index(b / 32, m);
        assert(b / 32 < pow(32, m));
        if a / 32 < b / 32 {
            lemma_base32_digits_order(a / 32, b / 32, m);
        } else {
            assert(a % 32 < b % 32);
            lemma_alphabet_ascending((a % 32) as int, (b % 32) as int);
        }
        lemma_seq_lt_push(
            base32_digits(a / 32, m),
            base32_digits(b / 32, m),
            crockford_digit((a % 32) as int),
            crockford_digit((b % 32) as int),
        );
    }
}

proof fn lemma_crockford26_digits(n: nat)
    ensures
        crockford26(n) == base32_digits(n, 26),
{
    lemma_base32_digits_index(n, 26);
    assert(crockford26(n) =~= base32_digits(n, 26));
}

/// ULIDs sort by time: an alarm fired at a later second (before the 48-bit
/// millisecond field overflows) gets a lexicographically greater ULID,
/// whatever the unique ids.
pub proof fn law_ulid_orders_by_time(s1: i64, s2: i64, u1: Seq<char>, u2: Seq<char>)
    requires
        0 <= s1 < s2,
        s2 * 1000 < 0x1_0000_0000_0000,
    ensures
        crate::text::seq_le(ulid_of(s1, u1), ulid_of(s2, u2)),
        ulid_of(s1, u1) != ulid_of(s2, u2),
{
    let b1 = encode_utf8(u1);
    let b2 = encode_utf8(u2);
    assert(ms_of(s1) == s1 * 1000);
    assert(ms_of(s2) == s2 * 1000);
    let a = ulid_value(ms_of(s1), fnv_fold(b1, FNV_SEED_1), fnv_fold(b1, FNV_SEED_2));
    let b = ulid_value(ms_of(s2), fnv_fold(b2, FNV_SEED_1), fnv_fold(b2, FNV_SEED_2));
    assert(a < b);
    assert(pow(32, 26) == 1361129467683753853853498429727072845824) by {
        reveal_with_fuel(pow, 27);
    }
    assert(b < pow(32, 26));
    lemma_base32_digits_order(a, b, 26);
    lemma_crockford26_digits(a);
    lemma_crockford26_digits(b);
}

} // verus!
