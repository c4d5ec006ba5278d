//! Notification relay: the mirrored notification and the key the relay
//! deduplicates on.
use vstd::prelude::*;

use crate::text::{owned, str_eq_str};

verus! {

/// The urgency of a mirrored notification that states none (normal).
pub const DEFAULT_URGENCY: u8 = 1;

/// A notification mirrored from a peer.
#[derive(Debug, Clone, PartialEq, Eq)]
pub struct MirroredEntry {
    /// Stable id from the originating peer's notifier.
    pub source_id: i64,
    pub app: String,
    pub title: String,
    pub body: String,
    /// 0 to 2.
    pub urgency: u8,
}

/// The dedup key of an entry from `peer`: the peer and the source id.
pub fn seen_key(peer: &str, entry: &MirroredEntry) -> (k: (String, i64))
    ensures
        k.0@ == peer@,
        k.1 == entry.source_id,
{
    (owned(peer), entry.source_id)
}


/// The key of a found notification: its peer's text and source id.
pub open spec fn key_of(e: (String, MirroredEntry)) -> (Seq<char>, i64) {
    (e.0@, e.1.source_id)
}

/// The keys held in a list of seen keys.
pub open spec fn key_set(v: Seq<(String, i64)>) -> Set<(Seq<char>, i64)> {
    Set::new(|k: (Seq<char>, i64)| exists|i: int| 0 <= i < v.len() && (#[trigger] v[i].0@, v[i].1) == k)
}

/// The found notifications not seen before, in scan order.
pub open spec fn fresh_of(found: Seq<(String, MirroredEntry)>, seen: Set<(Seq<char>, i64)>) -> Seq<(String, MirroredEntry)>
    decreases found.len(),
{
    if found.len() == 0 {
        Seq::empty()
    } else if seen.contains(key_of(found.last())) {
        fresh_of(found.drop_last(), seen)
    } else {
        fresh_of(found.drop_last(), seen).push(found.last())
    }
}

/// The (peer, source id) pairs the relay has imported.
#[derive(Debug, Default)]
pub struct SeenSet {
    pub keys: Vec<(String, i64)>,
}

impl SeenSet {
    /// Whether `(peer, id)` was imported.
    pub fn contains(&self, peer: &str, id: i64) -> (b: bool)
        ensures
            b == key_set(self.keys@).contains((peer@, id)),
    {
        let mut i: usize = 0;
        while i < self.keys.len()
            invariant
                i <= self.keys@.len(),
                forall|q: int| 0 <= q < i ==> (#[trigger] self.keys@[q].0@, self.keys@[q].1) != (peer@, id),
            decreases self.keys.len() - i,
        {
            if self.keys[i].1 == id && str_eq_str(self.keys[i].0.as_str(), peer) {
                assert((self.keys@[i as int].0@, self.keys@[i as int].1) == (peer@, id));
                return true;
            }
            i = i + 1;
        }
        false
    }

    /// One scan's imports: the found notifications whose key was not seen
    /// (a key found twice in one scan is imported twice, as the scan
    /// records keys only after importing).
    pub fn fresh(&self, found: Vec<(String, MirroredEntry)>) -> (r: Vec<(String, MirroredEntry)>)
        ensures
            r@ == fresh_of(found@, key_set(self.keys@)),
    {
        let ghost all = found@;
        let mut rest = found;
        let mut out: Vec<(String, MirroredEntry)> = Vec::new();
        let total = rest.len();
        let mut i: usize = 0;
        while rest.len() > 0
            invariant
                total == all.len(),
                i <= all.len(),
                rest@ == all.skip(i as int),
                out@ == fresh_of(all.take(i as int), key_set(self.keys@)),
            decreases rest.len(),
        {
            let item = rest.remove(0);
            assert(item == all[i as int]);
            let seen = self.contains(item.0.as_str(), item.1.source_id);
            proof {
                assert(all.take(i + 1).drop_last() == all.take(i as int));
                assert(all.take(i + 1).last() == all[i as int]);
            }
            if !seen {
                out.push(item);
            }
            i = i + 1;
            assert(rest@ == all.skip(i as int));
        }
        assert(all.take(all.len() as int) == all);
        out
    }

    /// Records the keys of imported notifications.
    pub fn mark(&mut self, imported: &Vec<(String, MirroredEntry)>)
        ensures
            key_set(final(self).keys@) == key_set(old(self).keys@).union(keys_in(imported@)),
    {
        let ghost k0 = self.keys@;
        assert(keys_in(imported@.take(0)) =~= Set::<(Seq<char>, i64)>::empty());
        assert(key_set(k0).union(keys_in(imported@.take(0))) =~= key_set(k0));
        let mut j: usize = 0;
        while j < imported.len()
            invariant
                j <= imported@.len(),
                key_set(self.keys@) == key_set(k0).union(keys_in(imported@.take(j as int))),
            decreases imported.len() - j,
        {
            let ghost before = self.keys@;
            self.keys.push(seen_key(imported[j].0.as_str(), &imported[j].1));
            proof {
                assert(key_set(self.keys@) =~= key_set(before).insert(key_of(imported@[j as int]))) by {
                    assert forall|k: (Seq<char>, i64)| key_set(self.keys@).contains(k) == key_set(before).insert(key_of(imported@[j as int])).contains(k) by {
                        if key_set(self.keys@).contains(k) {
                            let i = choose|i: int| 0 <= i < self.keys@.len() && (#[trigger] self.keys@[i].0@, self.keys@[i].1) == k;
                            if i < before.len() {
                                assert(self.keys@[i] == before[i]);
                            }
                        }
                        if key_set(before).contains(k) {
                            let i = choose|i: int| 0 <= i < before.len() && (#[trigger] before[i].0@, before[i].1) == k;
                            assert(self.keys@[i] == before[i]);
                        }
                        if k == key_of(imported@[j as int]) {
                            assert((self.keys@[before.len() as int].0@, self.keys@[before.len() as int].1) == k);
                        }
                    }
                }
                let t = imported@.take(j + 1);
                assert forall|k: (Seq<char>, i64)| keys_in(t).contains(k) == keys_in(imported@.take(j as int)).insert(key_of(imported@[j as int])).contains(k) by {
                    if keys_in(t).contains(k) {
                        let q = choose|q: int| 0 <= q < t.len() && key_of(#[trigger] t[q]) == k;
                        if q < j {
                            assert(imported@.take(j as int)[q] == t[q]);
                        }
                    }
                    if keys_in(imported@.take(j as int)).contains(k) {
                        let q = choose|q: int| 0 <= q < j && key_of(#[trigger] imported@.take(j as int)[q]) == k;
                        assert(t[q] == imported@.take(j as int)[q]);
                    }
                    if k == key_of(imported@[j as int]) {
                        assert(t[j as int] == imported@[j as int]);
                    }
                }
                assert(keys_in(t) =~= keys_in(imported@.take(j as int)).insert(key_of(imported@[j as int])));
                assert(key_set(self.keys@) =~= key_set(k0).union(keys_in(t)));
            }
            j = j + 1;
        }
        assert(imported@.take(imported@.len() as int) == imported@);
    }
}

/// The keys of a list of found notifications.
pub open spec fn keys_in(s: Seq<(String, MirroredEntry)>) -> Set<(Seq<char>, i64)> {
    Set::new(|k: (Seq<char>, i64)| exists|j: int| 0 <= j < s.len() && key_of(#[trigger] s[j]) == k)
}

proof fn lemma_fresh_covers(found: Seq<(String, MirroredEntry)>, seen: Set<(Seq<char>, i64)>, j: int)
    requires
        0 <= j < found.len(),
    ensures
        seen.union(keys_in(fresh_of(found, seen))).contains(key_of(found[j])),
    decreases found.len(),
{
    let f = fresh_of(found, seen);
    if j < found.len() - 1 {
        lemma_fresh_covers(found.drop_last(), seen, j);
        assert(found.drop_last()[j] == found[j]);
        let g = fresh_of(found.drop_last(), seen);
        if !seen.contains(key_of(found[j])) {
            let q = choose|q: int| 0 <= q < g.len() && key_of(#[trigger] g[q]) == key_of(found[j]);
            assert(f[q] == g[q]);
        }
    } else if !seen.contains(key_of(found.last())) {
        assert(f[f.len() - 1] == found.last());
    }
}

proof fn lemma_fresh_empty(found: Seq<(String, MirroredEntry)>, s: Set<(Seq<char>, i64)>)
    requires
        forall|j: int| 0 <= j < found.len() ==> s.contains(key_of(#[trigger] found[j])),
    ensures
        fresh_of(found, s) == Seq::<(String, MirroredEntry)>::empty(),
    decreases found.len(),
{
    if found.len() > 0 {
        assert forall|j: int| 0 <= j < found.drop_last().len() implies s.contains(key_of(#[trigger] found.drop_last()[j])) by {
            assert(found.drop_last()[j] == found[j]);
        }
        lemma_fresh_empty(found.drop_last(), s);
        assert(s.contains(key_of(found[found.len() - 1])));
    }
}

/// The relay never imports a notification twice: once a scan's fresh
/// notifications are marked seen, the same scan again yields nothing.
pub proof fn law_no_reimport(found: Seq<(String, MirroredEntry)>, seen: Set<(Seq<char>, i64)>)
    ensures
        fresh_of(found, seen.union(keys_in(fresh_of(found, seen)))) == Seq::<(String, MirroredEntry)>::empty(),
{
    assert forall|j: int| 0 <= j < found.len() implies seen.union(keys_in(fresh_of(found, seen))).contains(key_of(#[trigger] found[j])) by {
        lemma_fresh_covers(found, seen, j);
    }
    lemma_fresh_empty(found, seen.union(keys_in(fresh_of(found, seen))));
}

} // verus!
