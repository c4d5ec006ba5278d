//! The `mde-bus` command line: the parsed arguments of each verb, and the
//! decisions the verbs make on plain values (which stored rows `history`
//! prints, which audit entries `audit list --tail` prints, how `sub` and
//! `mute` edit their pattern lists).
use vstd::prelude::*;

use crate::text::{text_set, ascending, sorted_distinct, holds_exec, str_eq_str, owned, trim, trim_str, string_of};

verus! {

/// The parsed command line. No verb means `daemon`.
#[derive(Debug)]
pub struct Cli {
    pub cmd: Option<Cmd>,
}

/// The verbs.
#[derive(Debug)]
pub enum Cmd {
    /// Run the bus daemon.
    Daemon,
    /// Render a template against the mesh variables.
    Render { template: String },
    /// Manage topic subscriptions.
    Sub { op: SubOp },
    /// Manage mute patterns.
    Mute { op: MuteOp },
    /// Print stored messages of a topic.
    History(HistoryArgs),
    /// List or match known topics.
    Topic { op: TopicOp },
}

/// Arguments of `history`.
#[derive(Debug, Default)]
pub struct HistoryArgs {
    /// Topic, matched exactly.
    pub topic: String,
    /// Exclusive start cursor (a ULID).
    pub since: Option<String>,
    /// Print at most this many (the most recent).
    pub count: Option<usize>,
    /// Bus root override.
    pub bus_root: Option<String>,
}

/// Sub-verbs of `audit`.
#[derive(Debug)]
pub enum AuditOp {
    /// Print the audit entries oldest first; `tail` > 0 keeps the last `tail`.
    List { bus_root: Option<String>, tail: usize },
}

/// Sub-verbs of `sub`.
#[derive(Debug)]
pub enum SubOp {
    Add { topic: String, manifest: Option<String> },
    Remove { topic: String, manifest: Option<String> },
    List { manifest: Option<String>, json: bool },
}

/// Sub-verbs of `mute`.
#[derive(Debug)]
pub enum MuteOp {
    Add { topic: String, manifest: Option<String> },
    Remove { topic: String, manifest: Option<String> },
    List { manifest: Option<String>, pattern: Option<String>, json: bool },
}

/// Sub-verbs of `topic`.
#[derive(Debug)]
pub enum TopicOp {
    List,
    Match { pattern: String },
}

/// Where `history --count` starts printing: the last `n` rows, all of them
/// when there are fewer.
pub open spec fn history_start_of(len: nat, count: Option<usize>) -> nat {
    match count {
        None => 0,
        Some(n) => if n >= len { 0 } else { (len - n) as nat },
    }
}

/// The rows `history` prints, out of the stored rows oldest first.
pub fn history_rows<T>(rows: Vec<T>, count: Option<usize>) -> (r: Vec<T>)
    ensures
        r@ == rows@.skip(history_start_of(rows@.len(), count) as int),
{
    let mut rows = rows;
    let start: usize = match count {
        None => 0,
        Some(n) => if n >= rows.len() { 0 } else { rows.len() - n },
    };
    let ghost before = rows@;
    let kept = rows.split_off(start);
    assert(kept@ =~= before.skip(start as int));
    kept
}

/// Where `audit list --tail` starts printing: everything for 0 or a tail
/// at least as long as the log, else the last `tail` entries.
pub fn audit_tail_start(len: usize, tail: usize) -> (start: usize)
    ensures
        start == (if tail == 0 || tail >= len { 0int } else { len - tail }),
{
    if tail == 0 || tail >= len {
        0
    } else {
        len - tail
    }
}

/// `sub add` / `mute add`: a pattern not yet listed is added and the list is
/// rewritten sorted without duplicates; a listed one leaves it as it was.
/// Returns whether the list changed.
pub fn add_pattern(list: &mut Vec<String>, topic: &str) -> (added: bool)
    ensures
        added == !text_set(old(list)@).contains(topic@),
        added ==> ascending(final(list)@),
        added ==> text_set(final(list)@) == text_set(old(list)@).insert(topic@),
        !added ==> final(list)@ == old(list)@,
{
    if holds_exec(list.as_slice(), topic) {
        return false;
    }
    let ghost before = list@;
    let mut v: Vec<String> = Vec::new();
    std::mem::swap(&mut v, list);
    v.push(owned(topic));
    let r = sorted_distinct(v.as_slice());
    proof {
        assert(v@ == before.push(v@.last()));
        assert(v@.take(before.len() as int) == before);
        crate::text::lemma_text_set_take(v@, before.len() as int);
        assert(v@.take(v@.len() as int) == v@);
    }
    *list = r;
    true
}

/// The elements of `s` whose text is not `t`, in order.
pub open spec fn without(s: Seq<String>, t: Seq<char>) -> Seq<String>
    decreases s.len(),
{
    if s.len() == 0 {
        s
    } else if s.last()@ == t {
        without(s.drop_last(), t)
    } else {
        without(s.drop_last(), t).push(s.last())
    }
}

/// `sub remove` / `mute remove`: every entry equal to the pattern is
/// dropped, the others keep their order. Returns whether the list changed.
pub fn remove_pattern(list: &mut Vec<String>, topic: &str) -> (removed: bool)
    ensures
        final(list)@ == without(old(list)@, topic@),
        removed == (final(list)@.len() != old(list)@.len()),
        removed == text_set(old(list)@).contains(topic@),
{
    let ghost before = list@;
    let mut kept: Vec<String> = Vec::new();
    let mut i: usize = 0;
    let mut any = false;
    while i < list.len()
        invariant
            i <= before.len(),
            list@ == before,
            kept@ == without(before.take(i as int), topic@),
            kept@.len() <= i,
            any == text_set(before.take(i as int)).contains(topic@),
            !any ==> kept@.len() == i,
            any ==> kept@.len() < i,
        decreases before.len() - i,
    {
        proof {
            crate::text::lemma_text_set_take(before, i as int);
            assert(before.take(i + 1).drop_last() == before.take(i as int));
        }
        if str_eq_str(list[i].as_str(), topic) {
            any = true;
        } else {
            kept.push(list[i].clone());
        }
        i = i + 1;
    }
    assert(before.take(before.len() as int) == before);
    *list = kept;
    any
}


/// The first candidate that is not blank once trimmed, trimmed; else the
/// fallback.
pub open spec fn first_name(cands: Seq<Option<Seq<char>>>, fallback: Seq<char>) -> Seq<char>
    decreases cands.len(),
{
    if cands.len() == 0 {
        fallback
    } else if cands[0] is Some && trim(cands[0]->0).len() > 0 {
        trim(cands[0]->0)
    } else {
        first_name(cands.drop_first(), fallback)
    }
}

/// The instance name the daemon announces: `$MDE_BUS_INSTANCE`, then
/// `$HOSTNAME`, then the kernel hostname file, the first that is not blank
/// (trimmed); `mde-bus` when all are blank or absent.
pub fn hostname_for_discovery(instance_var: Option<&str>, hostname_var: Option<&str>, kernel_hostname: Option<&str>) -> (r: String)
    ensures
        r@ == first_name(seq![
            match instance_var { Some(v) => Some(v@), None => None },
            match hostname_var { Some(v) => Some(v@), None => None },
            match kernel_hostname { Some(v) => Some(v@), None => None },
        ], "mde-bus"@),
{
    let ghost c = seq![
        match instance_var { Some(v) => Some(v@), None => None },
        match hostname_var { Some(v) => Some(v@), None => None },
        match kernel_hostname { Some(v) => Some(v@), None => None },
    ];
    assert(c.drop_first().drop_first().drop_first().len() == 0);
    if let Some(v) = instance_var {
        let t = trim_str(v);
        if t.len() > 0 {
            return string_of(&t);
        }
    }
    assert(first_name(c, "mde-bus"@) == first_name(c.drop_first(), "mde-bus"@));
    if let Some(v) = hostname_var {
        let t = trim_str(v);
        if t.len() > 0 {
            return string_of(&t);
        }
    }
    assert(first_name(c.drop_first(), "mde-bus"@) == first_name(c.drop_first().drop_first(), "mde-bus"@));
    if let Some(v) = kernel_hostname {
        let t = trim_str(v);
        if t.len() > 0 {
            return string_of(&t);
        }
    }
    assert(first_name(c.drop_first().drop_first(), "mde-bus"@) == first_name(
        c.drop_first().drop_first().drop_first(),
        "mde-bus"@,
    ));
    owned("mde-bus")
}


/// `remove_pattern` takes out exactly the removed pattern: the texts left
/// are the texts before, without it.
pub proof fn law_remove_drops_exactly(s: Seq<String>, t: Seq<char>)
    ensures
        text_set(without(s, t)) == text_set(s).remove(t),
    decreases s.len(),
{
    if s.len() == 0 {
        assert(text_set(without(s, t)) =~= text_set(s).remove(t));
    } else {
        let p = s.drop_last();
        law_remove_drops_exactly(p, t);
        crate::text::lemma_text_set_push(p, s.last());
        assert(p.push(s.last()) == s);
        if s.last()@ != t {
            crate::text::lemma_text_set_push(without(p, t), s.last());
        }
        assert(text_set(without(s, t)) =~= text_set(s).remove(t));
    }
}

} // verus!
