//! Cross-topic correlation: a rule fires when every one of its source
//! topics was observed within its window, and synthesizes a publish on the
//! rule's own topic. Also the checks that flag rules which cannot work as
//! written.
use vstd::prelude::*;

use crate::bus::config::Priority;
use crate::text::{
    decimal, insert_sorted, owned, push_decimal, push_str, seq_le, str_eq_str,
};

verus! {

/// The correlation configuration: rules evaluated in declaration order.
#[derive(Debug, Clone, Default)]
pub struct CorrelateConfig {
    pub rules: Vec<CorrelateRule>,
}

/// One correlation rule: all `sources` must have fired within
/// `window_seconds` for the rule to publish on `emits`.
#[derive(Debug, Clone)]
pub struct CorrelateRule {
    pub name: String,
    pub sources: Vec<String>,
    pub window_seconds: u32,
    pub emits: String,
    pub priority: Priority,
}

// ─── Sliding window ────────────────────────────────────────────────────

/// The map that a list of (topic, timestamp) pairs stands for.
pub open spec fn entries_map(e: Seq<(Seq<char>, i64)>) -> Map<Seq<char>, i64>
    decreases e.len(),
{
    if e.len() == 0 {
        Map::empty()
    } else {
        entries_map(e.drop_last()).insert(e.last().0, e.last().1)
    }
}

/// No topic occurs twice in the list.
pub open spec fn distinct_keys(e: Seq<(Seq<char>, i64)>) -> bool {
    forall|i: int, j: int| 0 <= i < j < e.len() ==> #[trigger] e[i].0 != #[trigger] e[j].0
}

/// What a map holds for a key, if anything.
pub open spec fn lookup(m: Map<Seq<char>, i64>, k: Seq<char>) -> Option<i64> {
    if m.contains_key(k) {
        Some(m[k])
    } else {
        None
    }
}

proof fn lemma_entries_map(e: Seq<(Seq<char>, i64)>)
    requires
        distinct_keys(e),
    ensures
        entries_map(e).dom().finite(),
        entries_map(e).dom().len() == e.len(),
        forall|i: int|
            #![trigger e[i]]
            0 <= i < e.len() ==> entries_map(e).contains_key(e[i].0) && entries_map(e)[e[i].0]
                == e[i].1,
        forall|k: Seq<char>|
            #[trigger] entries_map(e).contains_key(k) ==> exists|i: int|
                0 <= i < e.len() && e[i].0 == k,
    decreases e.len(),
{
    if e.len() > 0 {
        let p = e.drop_last();
        let n = e.len() - 1;
        assert forall|a: int, b: int| 0 <= a < b < p.len() implies #[trigger] p[a].0
            != #[trigger] p[b].0 by {
            assert(p[a] == e[a] && p[b] == e[b]);
        }
        lemma_entries_map(p);
        let k = e[n].0;
        if entries_map(p).contains_key(k) {
            let i = choose|i: int| 0 <= i < p.len() && p[i].0 == k;
            assert(p[i] == e[i]);
            assert(e[i].0 != e[n].0);
        }
        assert forall|i: int| 0 <= i < e.len() implies entries_map(e).contains_key(e[i].0)
            && entries_map(e)[e[i].0] == e[i].1 by {
            if i < n {
                assert(e[i] == p[i]);
                assert(e[i].0 != e[n].0);
            }
        }
        assert forall|k2: Seq<char>| #[trigger] entries_map(e).contains_key(k2) implies exists|
            i: int,
        | 0 <= i < e.len() && e[i].0 == k2 by {
            if k2 == k {
                assert(e[n].0 == k2);
            } else {
                let i = choose|i: int| 0 <= i < p.len() && p[i].0 == k2;
                assert(e[i] == p[i]);
            }
        }
    }
}

proof fn lemma_entries_update(e: Seq<(Seq<char>, i64)>, i: int, v: i64)
    requires
        distinct_keys(e),
        0 <= i < e.len(),
    ensures
        distinct_keys(e.update(i, (e[i].0, v))),
        entries_map(e.update(i, (e[i].0, v))) == entries_map(e).insert(e[i].0, v),
{
    let e2 = e.update(i, (e[i].0, v));
    assert forall|a: int, b: int| 0 <= a < b < e2.len() implies #[trigger] e2[a].0
        != #[trigger] e2[b].0 by {
        assert(e2[a].0 == e[a].0 && e2[b].0 == e[b].0);
    }
    lemma_entries_map(e);
    lemma_entries_map(e2);
    let m1 = entries_map(e2);
    let m2 = entries_map(e).insert(e[i].0, v);
    assert forall|k: Seq<char>| #[trigger] m1.contains_key(k) == m2.contains_key(k) by {
        if m1.contains_key(k) {
            let j = choose|j: int| 0 <= j < e2.len() && e2[j].0 == k;
            assert(e[j].0 == k);
        }
        if m2.contains_key(k) && k != e[i].0 {
            let j = choose|j: int| 0 <= j < e.len() && e[j].0 == k;
            assert(e2[j].0 == k);
        }
        if k == e[i].0 {
            assert(e2[i].0 == k);
        }
    }
    assert forall|k: Seq<char>| #[trigger] m1.contains_key(k) implies m1[k] == m2[k] by {
        let j = choose|j: int| 0 <= j < e2.len() && e2[j].0 == k;
        if j != i {
            assert(e2[j] == e[j]);
            assert(e[j].0 != e[i].0);
        }
    }
    assert(m1 =~= m2);
}

proof fn lemma_entries_push(e: Seq<(Seq<char>, i64)>, k: Seq<char>, v: i64)
    requires
        distinct_keys(e),
        forall|j: int| 0 <= j < e.len() ==> #[trigger] e[j].0 != k,
    ensures
        distinct_keys(e.push((k, v))),
        entries_map(e.push((k, v))) == entries_map(e).insert(k, v),
{
    let e2 = e.push((k, v));
    assert(e2.drop_last() =~= e);
    assert forall|a: int, b: int| 0 <= a < b < e2.len() implies #[trigger] e2[a].0
        != #[trigger] e2[b].0 by {
        assert(e2[a] == e[a]);
        if b < e.len() {
            assert(e2[b] == e[b]);
        }
    }
}

/// The most recent observation time of each topic seen so far.
#[derive(Debug)]
pub struct SlidingWindow {
    entries: Vec<(String, i64)>,
}

impl SlidingWindow {
    /// The entries as (topic, timestamp) pairs of plain values.
    pub closed spec fn pairs(self) -> Seq<(Seq<char>, i64)> {
        self.entries@.map_values(|p: (String, i64)| (p.0@, p.1))
    }

    #[verifier::type_invariant]
    closed spec fn no_topic_twice(self) -> bool {
        distinct_keys(self.pairs())
    }

    /// Topic to the timestamp (ms since the epoch) of its latest observation.
    pub closed spec fn as_map(self) -> Map<Seq<char>, i64> {
        entries_map(self.pairs())
    }
}

impl View for SlidingWindow {
    type V = Map<Seq<char>, i64>;

    open spec fn view(&self) -> Map<Seq<char>, i64> {
        self.as_map()
    }
}

impl Clone for SlidingWindow {
    fn clone(&self) -> (c: Self)
        ensures
            c@ == self@,
            c@.dom().finite(),
    {
        proof {
            use_type_invariant(self);
            lemma_entries_map(self.pairs());
        }
        let ghost e = self.pairs();
        let mut entries: Vec<(String, i64)> = Vec::new();
        let mut i: usize = 0;
        while i < self.entries.len()
            invariant
                i <= self.entries.len(),
                e == self.pairs(),
                distinct_keys(e),
                entries@.map_values(|p: (String, i64)| (p.0@, p.1)) =~= e.take(i as int),
            decreases self.entries.len() - i,
        {
            entries.push((owned(self.entries[i].0.as_str()), self.entries[i].1));
            assert(e.take(i + 1) =~= e.take(i as int).push(e[i as int]));
            i = i + 1;
        }
        assert(e.take(i as int) =~= e);
        SlidingWindow { entries }
    }
}

impl Default for SlidingWindow {
    fn default() -> (w: Self)
        ensures
            w@ == Map::<Seq<char>, i64>::empty(),
            w@.dom().finite(),
    {
        let w = SlidingWindow { entries: Vec::new() };
        assert(w.pairs().len() == 0);
        w
    }
}

impl SlidingWindow {
    /// Records that `topic` was observed at `now_unix_ms`; a later
    /// observation replaces an earlier one.
    pub fn observe(&mut self, topic: &str, now_unix_ms: i64)
        ensures
            final(self)@ == old(self)@.insert(topic@, now_unix_ms),
            final(self)@.dom().finite(),
    {
        proof {
            use_type_invariant(&*self);
            lemma_entries_map(self.pairs());
        }
        let mut entries: Vec<(String, i64)> = Vec::new();
        std::mem::swap(&mut entries, &mut self.entries);
        let ghost e0 = entries@.map_values(|p: (String, i64)| (p.0@, p.1));
        assert(e0 == old(self).pairs());
        let mut i: usize = 0;
        while i < entries.len()
            invariant
                i <= entries.len(),
                e0 == entries@.map_values(|p: (String, i64)| (p.0@, p.1)),
                distinct_keys(e0),
                e0 == old(self).pairs(),
                old(self)@.dom().finite(),
                forall|j: int| 0 <= j < i ==> #[trigger] e0[j].0 != topic@,
            decreases entries.len() - i,
        {
            if str_eq_str(entries[i].0.as_str(), topic) {
                let ghost k = e0[i as int].0;
                entries.set(i, (owned(topic), now_unix_ms));
                proof {
                    lemma_entries_update(e0, i as int, now_unix_ms);
                    assert(entries@.map_values(|p: (String, i64)| (p.0@, p.1)) =~= e0.update(
                        i as int,
                        (k, now_unix_ms),
                    ));
                }
                self.entries = entries;
                return ;
            }
            i = i + 1;
        }
        entries.push((owned(topic), now_unix_ms));
        proof {
            lemma_entries_push(e0, topic@, now_unix_ms);
            assert(entries@.map_values(|p: (String, i64)| (p.0@, p.1)) =~= e0.push(
                (topic@, now_unix_ms),
            ));
        }
        self.entries = entries;
    }

    /// The latest observation time of `topic`, or `None` when it was never
    /// observed.
    pub fn last_seen(&self, topic: &str) -> (r: Option<i64>)
        ensures
            r == lookup(self@, topic@),
            self@.dom().finite(),
    {
        proof {
            use_type_invariant(self);
            lemma_entries_map(self.pairs());
        }
        let ghost e = self.pairs();
        let mut i: usize = 0;
        while i < self.entries.len()
            invariant
                i <= self.entries.len(),
                e == self.pairs(),
                forall|j: int| 0 <= j < i ==> #[trigger] e[j].0 != topic@,
            decreases self.entries.len() - i,
        {
            if str_eq_str(self.entries[i].0.as_str(), topic) {
                assert(e[i as int].0 == topic@);
                proof {
                    use_type_invariant(self);
                    lemma_entries_map(e);
                }
                return Some(self.entries[i].1);
            }
            i = i + 1;
        }
        proof {
            if self@.contains_key(topic@) {
                let j = choose|j: int| 0 <= j < e.len() && e[j].0 == topic@;
                assert(e[j].0 != topic@);
            }
        }
        None
    }

    /// The number of distinct topics observed.
    pub fn len(&self) -> (n: usize)
        ensures
            n == self@.dom().len(),
            self@.dom().finite(),
    {
        proof {
            use_type_invariant(self);
            lemma_entries_map(self.pairs());
        }
        self.entries.len()
    }

    /// Whether no topic has been observed.
    pub fn is_empty(&self) -> (b: bool)
        ensures
            b == (self@.dom().len() == 0),
            self@.dom().finite(),
    {
        proof {
            use_type_invariant(self);
            lemma_entries_map(self.pairs());
        }
        self.entries.len() == 0
    }
}

/// Observing a topic makes `last_seen` report that time for it, while every
/// other topic keeps what it had; a topic already seen keeps the count of
/// topics, a new one adds one.
pub proof fn law_observe_then_last_seen(
    m: Map<Seq<char>, i64>,
    topic: Seq<char>,
    t: i64,
    other: Seq<char>,
)
    requires
        m.dom().finite(),
        other != topic,
    ensures
        lookup(m.insert(topic, t), topic) == Some(t),
        lookup(m.insert(topic, t), other) == lookup(m, other),
        m.contains_key(topic) ==> m.insert(topic, t).dom().len() == m.dom().len(),
        !m.contains_key(topic) ==> m.insert(topic, t).dom().len() == m.dom().len() + 1,
{
    if m.contains_key(topic) {
        assert(m.insert(topic, t).dom() =~= m.dom());
    }
}

// ─── Rule evaluation ───────────────────────────────────────────────────

/// What a fired rule publishes.
#[derive(Debug, Clone, PartialEq, Eq)]
pub struct SynthesizedEmission {
    pub rule_name: String,
    pub topic: String,
    pub priority: Priority,
}

/// The earliest observation time that still counts as inside the window.
pub open spec fn cutoff(rule: CorrelateRule, now: int) -> int {
    now - rule.window_seconds * 1000
}

/// Whether `src` was observed at or after `cut`.
pub open spec fn fresh(window: Map<Seq<char>, i64>, src: Seq<char>, cut: int) -> bool {
    window.contains_key(src) && window[src] >= cut
}

/// A rule fires when it has sources and every one of them is fresh.
pub open spec fn rule_fires(rule: CorrelateRule, window: Map<Seq<char>, i64>, now: int) -> bool {
    rule.sources.len() > 0 && forall|i: int|
        0 <= i < rule.sources.len() ==> #[trigger] fresh(window, rule.sources@[i]@, cutoff(rule, now))
}

/// Evaluates one rule against the window at `now_unix_ms`: the emission
/// when every source fired at or after `now - window_seconds * 1000`.
pub fn evaluate_rule(rule: &CorrelateRule, window: &SlidingWindow, now_unix_ms: i64) -> (r: Option<
    SynthesizedEmission,
>)
    requires
        now_unix_ms - rule.window_seconds * 1000 >= i64::MIN,
    ensures
        r is Some <==> rule_fires(*rule, window@, now_unix_ms as int),
        r matches Some(e) ==> e.rule_name@ == rule.name@ && e.topic@ == rule.emits@ && e.priority
            == rule.priority,
{
    if rule.sources.len() == 0 {
        return None;
    }
    let cutoff_ms: i64 = now_unix_ms - (rule.window_seconds as i64) * 1000;
    let mut i: usize = 0;
    while i < rule.sources.len()
        invariant
            i <= rule.sources.len(),
            cutoff_ms == cutoff(*rule, now_unix_ms as int),
            forall|j: int|
                0 <= j < i ==> #[trigger] fresh(window@, rule.sources@[j]@, cutoff_ms as int),
        decreases rule.sources.len() - i,
    {
        match window.last_seen(rule.sources[i].as_str()) {
            Some(ts) => {
                if ts < cutoff_ms {
                    assert(!fresh(window@, rule.sources@[i as int]@, cutoff_ms as int));
                    return None;
                }
            },
            None => {
                assert(!fresh(window@, rule.sources@[i as int]@, cutoff_ms as int));
                return None;
            },
        }
        i = i + 1;
    }
    Some(
        SynthesizedEmission {
            rule_name: owned(rule.name.as_str()),
            topic: owned(rule.emits.as_str()),
            priority: rule.priority,
        },
    )
}


// ─── Configuration checks ──────────────────────────────────────────────

/// One finding of [`validate_config`]: the rule it concerns (`None` for a
/// finding across rules), that rule's name and what is wrong.
#[derive(Debug, Clone, PartialEq, Eq)]
pub struct ValidationIssue {
    pub rule_index: Option<usize>,
    pub rule_name: String,
    pub message: String,
}

/// A finding as plain values.
pub open spec fn issue_view(v: ValidationIssue) -> (Option<usize>, Seq<char>, Seq<char>) {
    (v.rule_index, v.rule_name@, v.message@)
}

/// The findings of a list, as plain values.
pub open spec fn issues_view(v: Seq<ValidationIssue>) -> Seq<(Option<usize>, Seq<char>, Seq<char>)> {
    v.map_values(|x: ValidationIssue| issue_view(x))
}

/// The finding `msg` on rule `i` named `name`.
pub open spec fn issue_at(i: int, name: Seq<char>, msg: Seq<char>) -> (
    Option<usize>,
    Seq<char>,
    Seq<char>,
) {
    (Some(i as usize), name, msg)
}

/// The findings on rule `i` alone, in the order: empty name, no sources,
/// empty emitted topic, zero window.
pub open spec fn rule_issues(i: int, r: CorrelateRule) -> Seq<(Option<usize>, Seq<char>, Seq<char>)> {
    let n = r.name@;
    (if n.len() == 0 {
        seq![issue_at(i, n, "rule.name is empty"@)]
    } else {
        seq![]
    }) + (if r.sources.len() == 0 {
        seq![issue_at(i, n, "rule.sources is empty (rule can never fire)"@)]
    } else {
        seq![]
    }) + (if r.emits@.len() == 0 {
        seq![issue_at(i, n, "rule.emits is empty (synthesized topic would be the empty string)"@)]
    } else {
        seq![]
    }) + (if r.window_seconds == 0 {
        seq![issue_at(i, n, "rule.window_seconds is 0 (requires all sources in the same millisecond)"@)]
    } else {
        seq![]
    })
}

/// The per-rule findings of all rules, rule by rule.
pub open spec fn per_rule_issues(rules: Seq<CorrelateRule>) -> Seq<
    (Option<usize>, Seq<char>, Seq<char>),
>
    decreases rules.len(),
{
    if rules.len() == 0 {
        seq![]
    } else {
        per_rule_issues(rules.drop_last()) + rule_issues(rules.len() - 1, rules.last())
    }
}

/// The positions of the rules named `n`, ascending.
pub open spec fn indices_of(rules: Seq<CorrelateRule>, n: Seq<char>) -> Seq<usize>
    decreases rules.len(),
{
    if rules.len() == 0 {
        seq![]
    } else {
        indices_of(rules.drop_last(), n) + (if rules.last().name@ == n {
            seq![(rules.len() - 1) as usize]
        } else {
            seq![]
        })
    }
}

/// A non-empty name that two or more rules carry.
pub open spec fn is_duplicate(rules: Seq<CorrelateRule>, n: Seq<char>) -> bool {
    n.len() > 0 && indices_of(rules, n).len() >= 2
}

/// `{:?}` of a list of positions, without the brackets.
pub open spec fn list_body(idx: Seq<usize>) -> Seq<char>
    decreases idx.len(),
{
    if idx.len() == 0 {
        seq![]
    } else if idx.len() == 1 {
        decimal(idx[0] as nat)
    } else {
        list_body(idx.drop_last()) + ", "@ + decimal(idx.last() as nat)
    }
}

/// `{:?}` of a string: what std's `Debug` for `str` writes.
pub uninterp spec fn debug_str(s: Seq<char>) -> Seq<char>;

/// Printable ASCII that `Debug` leaves as it is.
pub open spec fn plain_ascii(s: Seq<char>) -> bool {
    forall|i: int|
        0 <= i < s.len() ==> ' ' <= #[trigger] s[i] <= '~' && s[i] != '"' && s[i] != '\\' && s[i]
            != '\''
}

/// `format!("{:?}", s)`: std's `Debug` for `str`. Claimed: the result is
/// the named value `debug_str(s)`, and for printable ASCII text without
/// quotes or backslashes it is the text between double quotes (the escapes
/// that `char::escape_debug` applies to other characters are not spelled
/// out).
#[verifier::external_body]
fn debug_quoted(s: &str) -> (r: String)
    ensures
        r@ == debug_str(s@),
        plain_ascii(s@) ==> r@ == seq!['"'] + s@ + seq!['"'],
{
    format!("{:?}", s)
}

/// The finding for a duplicated name.
pub open spec fn duplicate_message(n: Seq<char>, idx: Seq<usize>) -> Seq<char> {
    "duplicate rule name "@ + debug_str(n) + " at indices "@ + seq!['['] + list_body(idx) + seq![']']
        + " — audit trail would be ambiguous"@
}

proof fn lemma_per_rule_take(rules: Seq<CorrelateRule>, i: int)
    requires
        0 <= i < rules.len(),
    ensures
        per_rule_issues(rules.take(i + 1)) == per_rule_issues(rules.take(i)) + rule_issues(
            i,
            rules[i],
        ),
        indices_of(rules.take(i + 1), rules[i].name@) == indices_of(rules.take(i), rules[i].name@)
            + seq![i as usize],
        forall|n: Seq<char>|
            n != rules[i].name@ ==> #[trigger] indices_of(rules.take(i + 1), n) == indices_of(
                rules.take(i),
                n,
            ),
{
    assert(rules.take(i + 1).drop_last() =~= rules.take(i));
}

proof fn lemma_indices_in(rules: Seq<CorrelateRule>, n: Seq<char>)
    requires
        rules.len() <= usize::MAX,
    ensures
        forall|k: int|
            0 <= k < indices_of(rules, n).len() ==> #[trigger] indices_of(rules, n)[k]
                < rules.len() && rules[indices_of(rules, n)[k] as int].name@ == n,
    decreases rules.len(),
{
    if rules.len() > 0 {
        let p = rules.drop_last();
        lemma_indices_in(p, n);
        let ip = indices_of(p, n);
        let ir = indices_of(rules, n);
        let tail = if rules.last().name@ == n {
            seq![(rules.len() - 1) as usize]
        } else {
            Seq::<usize>::empty()
        };
        assert(ir == ip + tail);
        assert forall|k: int| 0 <= k < ir.len() implies #[trigger] ir[k] < rules.len() && rules[ir[k] as int].name@ == n by {
            if k >= ip.len() {
                assert(ir[k] == tail[k - ip.len()]);
            } else {
                assert(ir[k] == ip[k]);
                assert(rules[ip[k] as int] == p[ip[k] as int]);
            }
        }
    }
}

/// Appends `[i0, i1, ...]`, the `{:?}` of a list of positions.
fn push_index_list(s: &mut String, idx: &Vec<usize>)
    ensures
        final(s)@ == old(s)@ + seq!['['] + list_body(idx@) + seq![']'],
{
    let ghost s0 = s@;
    push_str(s, "[");
    proof {
        reveal_strlit("[");
        reveal_strlit("]");
        reveal_strlit(", ");
    }
    let mut k: usize = 0;
    while k < idx.len()
        invariant
            k <= idx.len(),
            s@ == s0 + seq!['['] + list_body(idx@.take(k as int)),
        decreases idx.len() - k,
    {
        if k > 0 {
            push_str(s, ", ");
        }
        push_decimal(s, idx[k] as u64);
        assert(idx@.take(k + 1).drop_last() =~= idx@.take(k as int));
        k = k + 1;
    }
    assert(idx@.take(k as int) =~= idx@);
    push_str(s, "]");
}

/// The finding for the duplicated name `name`, at positions `idx`.
fn duplicate_issue(name: &str, idx: &Vec<usize>) -> (v: ValidationIssue)
    ensures
        issue_view(v) == (Option::<usize>::None, name@, duplicate_message(name@, idx@)),
{
    let mut msg = String::new();
    push_str(&mut msg, "duplicate rule name ");
    let q = debug_quoted(name);
    push_str(&mut msg, q.as_str());
    push_str(&mut msg, " at indices ");
    push_index_list(&mut msg, idx);
    push_str(&mut msg, " — audit trail would be ambiguous");
    ValidationIssue { rule_index: None, rule_name: owned(name), message: msg }
}

/// The findings on each rule alone, rule by rule.
fn per_rule_pass(rules_v: &Vec<CorrelateRule>) -> (issues: Vec<ValidationIssue>)
    ensures
        issues_view(issues@) == per_rule_issues(rules_v@),
{
    let ghost rules = rules_v@;
    let mut issues: Vec<ValidationIssue> = Vec::new();
    let mut i: usize = 0;
    while i < rules_v.len()
        invariant
            i <= rules_v.len(),
            rules == rules_v@,
            issues_view(issues@) == per_rule_issues(rules.take(i as int)),
        decreases rules_v.len() - i,
    {
        let rule = &rules_v[i];
        let ghost before = issues@;
        proof {
            lemma_per_rule_take(rules, i as int);
        }
        let ghost n = rule.name@;
        if rule.name.as_str().is_empty() {
            issues.push(
                ValidationIssue {
                    rule_index: Some(i),
                    rule_name: owned(rule.name.as_str()),
                    message: owned("rule.name is empty"),
                },
            );
        }
        let ghost s1 = issues@;
        if rule.sources.len() == 0 {
            issues.push(
                ValidationIssue {
                    rule_index: Some(i),
                    rule_name: owned(rule.name.as_str()),
                    message: owned("rule.sources is empty (rule can never fire)"),
                },
            );
        }
        let ghost s2 = issues@;
        if rule.emits.as_str().is_empty() {
            issues.push(
                ValidationIssue {
                    rule_index: Some(i),
                    rule_name: owned(rule.name.as_str()),
                    message: owned(
                        "rule.emits is empty (synthesized topic would be the empty string)",
                    ),
                },
            );
        }
        let ghost s3 = issues@;
        if rule.window_seconds == 0 {
            issues.push(
                ValidationIssue {
                    rule_index: Some(i),
                    rule_name: owned(rule.name.as_str()),
                    message: owned(
                        "rule.window_seconds is 0 (requires all sources in the same millisecond)",
                    ),
                },
            );
        }
        proof {
            let r = rules[i as int];
            let a = if n.len() == 0 { seq![issue_at(i as int, n, "rule.name is empty"@)] } else { seq![] };
            let b = if r.sources.len() == 0 {
                seq![issue_at(i as int, n, "rule.sources is empty (rule can never fire)"@)]
            } else {
                seq![]
            };
            let c = if r.emits@.len() == 0 {
                seq![issue_at(i as int, n, "rule.emits is empty (synthesized topic would be the empty string)"@)]
            } else {
                seq![]
            };
            let e = if r.window_seconds == 0 {
                seq![issue_at(i as int, n, "rule.window_seconds is 0 (requires all sources in the same millisecond)"@)]
            } else {
                seq![]
            };
            assert(issues_view(s1) =~= issues_view(before) + a);
            assert(issues_view(s2) =~= issues_view(s1) + b);
            assert(issues_view(s3) =~= issues_view(s2) + c);
            assert(issues_view(issues@) =~= issues_view(s3) + e);
            assert(rule_issues(i as int, r) =~= a + b + c + e);
        }
        i = i + 1;
    }
    assert(rules.take(i as int) =~= rules);
    issues
}

/// Strictly ascending names without repeats.
pub open spec fn strictly_ascending(names: Seq<String>) -> bool {
    forall|a: int, b: int|
        0 <= a < b < names.len() ==> seq_le(names[a]@, names[b]@) && names[a]@ != names[b]@
}

/// The distinct non-empty rule names, ascending.
fn sorted_names(rules_v: &Vec<CorrelateRule>) -> (names: Vec<String>)
    ensures
        strictly_ascending(names@),
        forall|a: int|
            0 <= a < names@.len() ==> (#[trigger] names@[a]@).len() > 0 && exists|q: int|
                0 <= q < rules_v@.len() && rules_v@[q].name@ == names@[a]@,
        forall|q: int|
            0 <= q < rules_v@.len() && (#[trigger] rules_v@[q]).name@.len() > 0 ==> exists|a: int|
                0 <= a < names@.len() && names@[a]@ == rules_v@[q].name@,
{
    let ghost rules = rules_v@;
    let mut names: Vec<String> = Vec::new();
    let mut j: usize = 0;
    while j < rules_v.len()
        invariant
            j <= rules_v.len(),
            rules == rules_v@,
            strictly_ascending(names@),
            forall|a: int|
                0 <= a < names@.len() ==> (#[trigger] names@[a]@).len() > 0 && exists|q: int|
                    0 <= q < j && rules[q].name@ == names@[a]@,
            forall|q: int|
                0 <= q < j && (#[trigger] rules[q]).name@.len() > 0 ==> exists|a: int|
                    0 <= a < names@.len() && names@[a]@ == rules[q].name@,
        decreases rules_v.len() - j,
    {
        if !rules_v[j].name.as_str().is_empty() {
            let ghost old_names = names@;
            insert_sorted(&mut names, rules_v[j].name.as_str());
            assert forall|a: int| 0 <= a < names@.len() implies (#[trigger] names@[a]@).len() > 0
                && exists|q: int| 0 <= q < j + 1 && rules[q].name@ == names@[a]@ by {
                if names@[a]@ != rules[j as int].name@ {
                    let b = choose|b: int| 0 <= b < old_names.len() && old_names[b]@ == names@[a]@;
                    assert(old_names[b]@.len() > 0);
                }
            }
            assert forall|q: int| 0 <= q < j + 1 && (#[trigger] rules[q]).name@.len() > 0 implies exists|
                a: int,
            | 0 <= a < names@.len() && names@[a]@ == rules[q].name@ by {
                if q < j {
                    let b = choose|b: int| 0 <= b < old_names.len() && old_names[b]@ == rules[q].name@;
                    assert(exists|a: int| 0 <= a < names@.len() && #[trigger] names@[a]@ == old_names[b]@);
                }
            }
        }
        j = j + 1;
    }
    names
}

/// The positions of the rules named `name`, ascending.
fn positions_of(rules_v: &Vec<CorrelateRule>, name: &str) -> (idx: Vec<usize>)
    ensures
        idx@ == indices_of(rules_v@, name@),
{
    let ghost rules = rules_v@;
    let mut idx: Vec<usize> = Vec::new();
    let mut q: usize = 0;
    while q < rules_v.len()
        invariant
            q <= rules_v.len(),
            rules == rules_v@,
            idx@ == indices_of(rules.take(q as int), name@),
        decreases rules_v.len() - q,
    {
        proof {
            lemma_per_rule_take(rules, q as int);
        }
        if str_eq_str(rules_v[q].name.as_str(), name) {
            idx.push(q);
        }
        q = q + 1;
    }
    assert(rules.take(q as int) =~= rules);
    idx
}

/// What [`validate_config`] promises of the findings after the per-rule
/// ones: each is a duplicated name with its message, names strictly
/// ascending.
pub open spec fn duplicate_findings(
    rules: Seq<CorrelateRule>,
    d: Seq<(Option<usize>, Seq<char>, Seq<char>)>,
) -> bool {
    &&& forall|k: int|
        0 <= k < d.len() ==> (#[trigger] d[k]).0 is None && is_duplicate(rules, d[k].1) && d[k].2
            == duplicate_message(d[k].1, indices_of(rules, d[k].1))
    &&& forall|k: int, l: int|
        0 <= k < l < d.len() ==> seq_le((#[trigger] d[k]).1, (#[trigger] d[l]).1) && d[k].1 != d[l].1
}

/// The duplicate findings `d` made for `names[..a]`: each names one of
/// them, and every duplicated one among them has its finding.
spec fn findings_for_prefix(
    rules: Seq<CorrelateRule>,
    names: Seq<String>,
    a: int,
    d: Seq<(Option<usize>, Seq<char>, Seq<char>)>,
) -> bool {
    &&& duplicate_findings(rules, d)
    &&& forall|k: int|
        #![trigger d[k]]
        0 <= k < d.len() ==> exists|x: int| 0 <= x < a && names[x]@ == d[k].1
    &&& forall|x: int|
        #![trigger names[x]]
        0 <= x < a && is_duplicate(rules, names[x]@) ==> exists|k: int|
            0 <= k < d.len() && d[k].1 == names[x]@
}

proof fn lemma_findings_step(
    rules: Seq<CorrelateRule>,
    names: Seq<String>,
    a: int,
    d: Seq<(Option<usize>, Seq<char>, Seq<char>)>,
    item: (Option<usize>, Seq<char>, Seq<char>),
    dup: bool,
)
    requires
        strictly_ascending(names),
        0 <= a < names.len(),
        findings_for_prefix(rules, names, a, d),
        dup ==> item == (Option::<usize>::None, names[a]@, duplicate_message(
            names[a]@,
            indices_of(rules, names[a]@),
        )) && is_duplicate(rules, names[a]@),
        !dup ==> !is_duplicate(rules, names[a]@),
    ensures
        findings_for_prefix(rules, names, a + 1, if dup { d.push(item) } else { d }),
{
    if dup {
        let d1 = d.push(item);
        assert forall|k: int| 0 <= k < d.len() implies seq_le(d[k].1, names[a]@) && d[k].1
            != names[a]@ by {
            let x = choose|x: int| 0 <= x < a && names[x]@ == d[k].1;
            assert(seq_le(names[x]@, names[a]@));
        }
        assert forall|k: int, l: int| 0 <= k < l < d1.len() implies seq_le(
            (#[trigger] d1[k]).1,
            (#[trigger] d1[l]).1,
        ) && d1[k].1 != d1[l].1 by {
            assert(d1[k] == d[k]);
            if l < d.len() {
                assert(d1[l] == d[l]);
            }
        }
        assert forall|k: int| 0 <= k < d1.len() implies (#[trigger] d1[k]).0 is None
            && is_duplicate(rules, d1[k].1) && d1[k].2 == duplicate_message(
            d1[k].1,
            indices_of(rules, d1[k].1),
        ) by {
            if k < d.len() {
                assert(d1[k] == d[k]);
            }
        }
        assert forall|k: int| #![trigger d1[k]] 0 <= k < d1.len() implies exists|x: int|
            0 <= x < a + 1 && names[x]@ == d1[k].1 by {
            if k < d.len() {
                assert(d1[k] == d[k]);
            }
        }
        assert forall|x: int|
            #![trigger names[x]]
            0 <= x < a + 1 && is_duplicate(rules, names[x]@) implies exists|k: int|
                0 <= k < d1.len() && d1[k].1 == names[x]@ by {
            if x < a {
                let k = choose|k: int| 0 <= k < d.len() && d[k].1 == names[x]@;
                assert(d1[k] == d[k]);
            } else {
                assert(d1[d.len() as int].1 == names[x]@);
            }
        }
    }
}

/// A rule with a name, sources, an emitted topic and a non-zero window.
pub open spec fn rule_is_sound(r: CorrelateRule) -> bool {
    r.name@.len() > 0 && r.sources.len() > 0 && r.emits@.len() > 0 && r.window_seconds > 0
}

/// A configuration whose rules are all sound and carry distinct names has
/// no per-rule finding and no duplicate finding: [`validate_config`]
/// returns nothing for it.
pub proof fn law_clean_config_has_no_findings(rules: Seq<CorrelateRule>, d: Seq<(Option<usize>, Seq<char>, Seq<char>)>)
    requires
        forall|i: int| 0 <= i < rules.len() ==> rule_is_sound(#[trigger] rules[i]),
        forall|i: int, j: int| 0 <= i < j < rules.len() ==> #[trigger] rules[i].name@ != #[trigger] rules[j].name@,
        duplicate_findings(rules, d),
    ensures
        per_rule_issues(rules).len() == 0,
        d.len() == 0,
    decreases rules.len(),
{
    if rules.len() > 0 {
        let p = rules.drop_last();
        assert forall|i: int| 0 <= i < p.len() implies rule_is_sound(#[trigger] p[i]) by {
            assert(p[i] == rules[i]);
        }
        assert forall|i: int, j: int| 0 <= i < j < p.len() implies #[trigger] p[i].name@ != #[trigger] p[j].name@ by {
            assert(p[i] == rules[i] && p[j] == rules[j]);
        }
        law_clean_config_has_no_findings(p, Seq::empty());
        assert(rule_sound_no_issues(rules.len() - 1, rules.last()));
    }
    if d.len() > 0 {
        let n = d[0].1;
        assert(is_duplicate(rules, n));
        lemma_indices_distinct_names(rules, n);
    }
}

/// A sound rule has no finding of its own.
spec fn rule_sound_no_issues(i: int, r: CorrelateRule) -> bool {
    rule_is_sound(r) ==> rule_issues(i, r).len() == 0
}

proof fn lemma_indices_distinct_names(rules: Seq<CorrelateRule>, n: Seq<char>)
    requires
        forall|i: int, j: int| 0 <= i < j < rules.len() ==> #[trigger] rules[i].name@ != #[trigger] rules[j].name@,
    ensures
        indices_of(rules, n).len() <= 1,
    decreases rules.len(),
{
    if rules.len() > 0 {
        let p = rules.drop_last();
        assert forall|i: int, j: int| 0 <= i < j < p.len() implies #[trigger] p[i].name@ != #[trigger] p[j].name@ by {
            assert(p[i] == rules[i] && p[j] == rules[j]);
        }
        lemma_indices_distinct_names(p, n);
        if rules.last().name@ == n && indices_of(p, n).len() == 1 {
            if rules.len() <= usize::MAX {
                lemma_indices_in(p, n);
                let q = indices_of(p, n)[0] as int;
                assert(p[q] == rules[q]);
                assert(rules[q].name@ == rules[rules.len() - 1].name@);
            } else {
                lemma_indices_len(p, n);
            }
        }
    }
}

proof fn lemma_indices_len(rules: Seq<CorrelateRule>, n: Seq<char>)
    ensures
        indices_of(rules, n).len() <= rules.len(),
        indices_of(rules, n).len() > 0 ==> exists|q: int| 0 <= q < rules.len() && rules[q].name@ == n,
    decreases rules.len(),
{
    if rules.len() > 0 {
        lemma_indices_len(rules.drop_last(), n);
        if indices_of(rules.drop_last(), n).len() > 0 {
            let q = choose|q: int| 0 <= q < rules.drop_last().len() && rules.drop_last()[q].name@ == n;
            assert(rules[q] == rules.drop_last()[q]);
        }
    }
}

/// Checks every rule and reports what cannot work as written: first each
/// rule's own findings in declaration order (empty name, no sources, empty
/// emitted topic, zero window), then one finding per non-empty name that
/// several rules share, in ascending name order.
pub fn validate_config(cfg: &CorrelateConfig) -> (r: Vec<ValidationIssue>)
    ensures
        ({
            let rules = cfg.rules@;
            let per = per_rule_issues(rules);
            let out = issues_view(r@);
            let d = out.skip(per.len() as int);
            &&& out.len() >= per.len()
            &&& out.take(per.len() as int) == per
            &&& duplicate_findings(rules, d)
            &&& forall|n: Seq<char>|
                #[trigger] is_duplicate(rules, n) ==> exists|k: int| 0 <= k < d.len() && d[k].1 == n
        }),
{
    let ghost rules = cfg.rules@;
    let mut issues = per_rule_pass(&cfg.rules);
    let names = sorted_names(&cfg.rules);
    let mut dups: Vec<ValidationIssue> = Vec::new();
    let mut a: usize = 0;
    while a < names.len()
        invariant
            a <= names.len(),
            rules == cfg.rules@,
            strictly_ascending(names@),
            forall|x: int| 0 <= x < names@.len() ==> (#[trigger] names@[x]@).len() > 0,
            findings_for_prefix(rules, names@, a as int, issues_view(dups@)),
        decreases names.len() - a,
    {
        let name = names[a].as_str();
        let idx = positions_of(&cfg.rules, name);
        let ghost d0 = issues_view(dups@);
        if idx.len() > 1 {
            let issue = duplicate_issue(name, &idx);
            dups.push(issue);
            proof {
                assert(issues_view(dups@) =~= d0.push(issue_view(issue)));
                lemma_findings_step(rules, names@, a as int, d0, issue_view(issue), true);
            }
        } else {
            proof {
                lemma_findings_step(rules, names@, a as int, d0, (None, Seq::empty(), Seq::empty()), false);
            }
        }
        a = a + 1;
    }
    let ghost per = issues_view(issues@);
    let ghost dv = issues_view(dups@);
    let ghost np = issues@.len();
    issues.append(&mut dups);
    let nr = cfg.rules.len();
    proof {
        let out = issues_view(issues@);
        assert(out =~= per + dv);
        assert(out.take(np as int) =~= per);
        assert(out.skip(np as int) =~= dv);
        assert(rules.len() == nr);
        assert forall|n: Seq<char>| #[trigger] is_duplicate(rules, n) implies exists|k: int|
            0 <= k < dv.len() && dv[k].1 == n by {
            lemma_indices_in(rules, n);
            let q = indices_of(rules, n)[0] as int;
            assert(rules[q].name@ == n);
            let x = choose|x: int| 0 <= x < names@.len() && names@[x]@ == rules[q].name@;
            assert(is_duplicate(rules, names@[x]@));
        }
    }
    issues
}

/// Why the correlation configuration could not be loaded.
#[derive(Debug, Clone, PartialEq, Eq)]
pub enum CorrelateLoadError {
    /// The file exists but could not be read.
    Read(String),
    /// The YAML was malformed.
    Parse(String),
}

} // verus!
