//! Pairing watch: what changed between two snapshots of the paired
//! devices, and the worker's memory of the last snapshot.
use vstd::prelude::*;

use crate::text::{owned, str_eq_str, text_set, holds_exec};

verus! {


/// A diff entry as plain values.
pub open spec fn entry_view(e: (String, &str)) -> (Seq<char>, Seq<char>) {
    (e.0@, e.1@)
}

/// A list of diff entries as plain values.
pub open spec fn entries_view(s: Seq<(String, &str)>) -> Seq<(Seq<char>, Seq<char>)> {
    s.map_values(|e: (String, &str)| entry_view(e))
}

/// The distinct texts of `from` that `other` does not hold, each at its
/// first occurrence in `from`, in the order of `from`.
pub open spec fn missing(from: Seq<String>, other: Set<Seq<char>>) -> Seq<Seq<char>>
    decreases from.len(),
{
    if from.len() == 0 {
        Seq::empty()
    } else {
        let rest = missing(from.drop_last(), other);
        let x = from.last()@;
        if other.contains(x) || text_set(from.drop_last()).contains(x) {
            rest
        } else {
            rest.push(x)
        }
    }
}

/// The entries of [`device_diff`]: the ids only `current` holds, tagged
/// `added`, then those only `prior` holds, tagged `removed`; each kind once
/// per id, in the order of its own list.
pub open spec fn device_diff_of(prior: Seq<String>, current: Seq<String>) -> Seq<(Seq<char>, Seq<char>)> {
    missing(current, text_set(prior)).map_values(|x: Seq<char>| (x, "added"@))
        + missing(prior, text_set(current)).map_values(|x: Seq<char>| (x, "removed"@))
}

/// Whether `d` is the diff of the snapshots `prior` and `current`.
pub open spec fn is_device_diff(prior: Seq<String>, current: Seq<String>, d: Seq<(Seq<char>, Seq<char>)>) -> bool {
    d == device_diff_of(prior, current)
}

/// Nothing of `from` is missing from a set that holds all its texts.
proof fn lemma_missing_empty(from: Seq<String>, other: Set<Seq<char>>)
    requires
        text_set(from).subset_of(other),
    ensures
        missing(from, other).len() == 0,
    decreases from.len(),
{
    if from.len() > 0 {
        let f = from.drop_last();
        assert(text_set(f).subset_of(text_set(from))) by {
            assert forall|x: Seq<char>| text_set(f).contains(x) implies text_set(from).contains(x) by {
                let q = choose|q: int| 0 <= q < f.len() && #[trigger] f[q]@ == x;
                assert(from[q] == f[q]);
            }
        }
        assert(text_set(from).contains(from.last()@)) by {
            assert(from[from.len() - 1]@ == from.last()@);
        }
        lemma_missing_empty(f, other);
    }
}

/// A text of `from` that `other` lacks is among the missing ones.
proof fn lemma_missing_holds(from: Seq<String>, other: Set<Seq<char>>, x: Seq<char>)
    requires
        text_set(from).contains(x),
        !other.contains(x),
    ensures
        missing(from, other).contains(x),
    decreases from.len(),
{
    let f = from.drop_last();
    let q = choose|q: int| 0 <= q < from.len() && #[trigger] from[q]@ == x;
    if text_set(f).contains(x) {
        lemma_missing_holds(f, other, x);
        let rest = missing(f, other);
        let k = choose|k: int| 0 <= k < rest.len() && rest[k] == x;
        if !(other.contains(from.last()@) || text_set(f).contains(from.last()@)) {
            assert(rest.push(from.last()@)[k] == x);
        }
    } else {
        if q < from.len() - 1 {
            assert(f[q] == from[q]);
        }
        assert(from.last()@ == x);
        assert(missing(from, other) == missing(f, other).push(x));
        assert(missing(from, other)[missing(f, other).len() as int] == x);
    }
}

/// The diff is empty exactly when the two snapshots hold the same ids.
pub proof fn law_unchanged_pairing_has_empty_diff(
    prior: Seq<String>,
    current: Seq<String>,
    d: Seq<(Seq<char>, Seq<char>)>,
)
    requires
        is_device_diff(prior, current, d),
    ensures
        d.len() == 0 <==> text_set(prior) == text_set(current),
{
    if text_set(prior) == text_set(current) {
        lemma_missing_empty(current, text_set(prior));
        lemma_missing_empty(prior, text_set(current));
    }
    if d.len() == 0 {
        let a = missing(current, text_set(prior));
        let b = missing(prior, text_set(current));
        assert(a.map_values(|x: Seq<char>| (x, "added"@)).len() == a.len());
        assert forall|x: Seq<char>| text_set(prior).contains(x) == text_set(current).contains(x) by {
            if text_set(current).contains(x) && !text_set(prior).contains(x) {
                lemma_missing_holds(current, text_set(prior), x);
            }
            if text_set(prior).contains(x) && !text_set(current).contains(x) {
                lemma_missing_holds(prior, text_set(current), x);
            }
        }
        assert(text_set(prior) =~= text_set(current));
    }
}

/// Whether the first `k` strings of `v` hold the text of `x`.
fn held_before(v: &[String], k: usize, x: &str) -> (b: bool)
    requires
        k <= v@.len(),
    ensures
        b == text_set(v@.take(k as int)).contains(x@),
{
    let mut i: usize = 0;
    while i < k
        invariant
            i <= k <= v@.len(),
            forall|q: int| 0 <= q < i ==> #[trigger] v@[q]@ != x@,
        decreases k - i,
    {
        if str_eq_str(v[i].as_str(), x) {
            assert(v@.take(k as int)[i as int] == v@[i as int]);
            return true;
        }
        i = i + 1;
    }
    proof {
        if text_set(v@.take(k as int)).contains(x@) {
            let q = choose|q: int| 0 <= q < k && #[trigger] v@.take(k as int)[q]@ == x@;
            assert(v@.take(k as int)[q] == v@[q]);
        }
    }
    false
}

/// Appends `(x, tag)` for each text `x` of [`missing`]`(from, other)`.
fn push_missing(
    out: &mut Vec<(String, &'static str)>,
    from: &[String],
    other: &[String],
    tag: &'static str,
)
    ensures
        entries_view(final(out)@) == entries_view(old(out)@) + missing(from@, text_set(other@)).map_values(
            |x: Seq<char>| (x, tag@),
        ),
{
    let ghost o0 = old(out)@;
    let mut k: usize = 0;
    assert(from@.take(0) =~= Seq::<String>::empty());
    assert(entries_view(out@) =~= entries_view(o0) + missing(from@.take(0), text_set(other@)).map_values(
        |x: Seq<char>| (x, tag@),
    ));
    while k < from.len()
        invariant
            k <= from@.len(),
            o0 == old(out)@,
            entries_view(out@) == entries_view(o0) + missing(from@.take(k as int), text_set(other@)).map_values(
                |x: Seq<char>| (x, tag@),
            ),
        decreases from.len() - k,
    {
        let ghost before = out@;
        let ghost t = from@.take(k + 1);
        assert(t.drop_last() =~= from@.take(k as int));
        assert(t.last() == from@[k as int]);
        let in_other = holds_exec(other, from[k].as_str());
        let seen = held_before(from, k, from[k].as_str());
        if !in_other && !seen {
            out.push((owned(from[k].as_str()), tag));
            assert(entries_view(out@) =~= entries_view(before).push((from@[k as int]@, tag@)));
            assert(missing(t, text_set(other@)) == missing(from@.take(k as int), text_set(other@)).push(
                from@[k as int]@,
            ));
            assert(entries_view(out@) =~= entries_view(o0) + missing(t, text_set(other@)).map_values(
                |x: Seq<char>| (x, tag@),
            ));
        }
        k = k + 1;
    }
    assert(from@.take(from@.len() as int) =~= from@);
}

/// The ids only `current` holds, tagged `added`, then those only `prior`
/// holds, tagged `removed`; each kind once per id, in its list's order.
pub fn device_diff(prior: &[String], current: &[String]) -> (r: Vec<(String, &'static str)>)
    ensures
        is_device_diff(prior@, current@, entries_view(r@)),
{
    let mut out: Vec<(String, &'static str)> = Vec::new();
    push_missing(&mut out, current, prior, "added");
    push_missing(&mut out, prior, current, "removed");
    assert(entries_view(Seq::<(String, &'static str)>::empty()) =~= Seq::empty());
    assert(entries_view(out@) =~= device_diff_of(prior@, current@));
    out
}

/// The pairing watcher: the last pairing snapshot it saw.
pub struct KdcBridgeWorker {
    pub last_seen: Vec<String>,
}

impl KdcBridgeWorker {
    /// A watcher whose first snapshot is `last_seen`.
    pub fn with_last_seen(last_seen: Vec<String>) -> (w: Self)
        ensures
            w.last_seen == last_seen,
    {
        KdcBridgeWorker { last_seen }
    }

    /// Compares a new snapshot with the remembered one; when anything
    /// changed, the new snapshot is remembered. Returns the diff.
    pub fn observe(&mut self, current: Vec<String>) -> (d: Vec<(String, &'static str)>)
        ensures
            is_device_diff(old(self).last_seen@, current@, entries_view(d@)),
            d@.len() == 0 ==> final(self).last_seen == old(self).last_seen,
            d@.len() > 0 ==> final(self).last_seen == current,
    {
        let d = device_diff(&self.last_seen, &current);
        if d.len() > 0 {
            self.last_seen = current;
        }
        d
    }
}

} // verus!
