//! Pinned clipboard entries: a set of entry ULIDs, and where it is kept.
use vstd::prelude::*;

use crate::text::{holds, owned, path_join, path_join_exec, str_eq_str, text_set, texts};

verus! {

/// The ULIDs of the pinned clipboard entries.
#[derive(Debug, Clone, Default)]
pub struct PinStore {
    pub pinned: Vec<String>,
}

/// No ULID occurs twice.
pub open spec fn no_repeats(v: Seq<String>) -> bool {
    forall|i: int, j: int| 0 <= i < j < v.len() ==> #[trigger] v[i]@ != #[trigger] v[j]@
}

impl PinStore {
    /// Pins `ulid` at the end of the list; pinning again changes nothing.
    pub fn pin(&mut self, ulid: &str)
        ensures
            text_set(final(self).pinned@) == text_set(old(self).pinned@).insert(ulid@),
            holds(old(self).pinned@, ulid@) ==> final(self).pinned@ == old(self).pinned@,
            !holds(old(self).pinned@, ulid@) ==> texts(final(self).pinned@) == texts(old(self).pinned@).push(ulid@),
            no_repeats(old(self).pinned@) ==> no_repeats(final(self).pinned@),
    {
        if self.is_pinned(ulid) {
            assert(text_set(self.pinned@) =~= text_set(self.pinned@).insert(ulid@));
            return ;
        }
        let ghost before = self.pinned@;
        self.pinned.push(owned(ulid));
        proof {
            let after = self.pinned@;
            assert(texts(after) =~= texts(before).push(ulid@));
            assert forall|x: Seq<char>| text_set(after).contains(x) == text_set(before).insert(ulid@).contains(x) by {
                if text_set(after).contains(x) {
                    let q = choose|q: int| 0 <= q < after.len() && #[trigger] after[q]@ == x;
                    if q < before.len() {
                        assert(before[q] == after[q]);
                    }
                }
                if text_set(before).contains(x) {
                    let q = choose|q: int| 0 <= q < before.len() && #[trigger] before[q]@ == x;
                    assert(after[q] == before[q]);
                }
                if x == ulid@ {
                    assert(after[before.len() as int]@ == x);
                }
            }
            assert(text_set(after) =~= text_set(before).insert(ulid@));
            if no_repeats(before) {
                assert forall|i: int, j: int| 0 <= i < j < after.len() implies #[trigger] after[i]@
                    != #[trigger] after[j]@ by {
                    assert(after[i] == before[i]);
                    if j < before.len() {
                        assert(after[j] == before[j]);
                    } else {
                        assert(!text_set(before).contains(ulid@));
                        if after[i]@ == ulid@ {
                            assert(text_set(before).contains(after[i]@));
                        }
                    }
                }
            }
        }
    }

    /// Unpins `ulid`; a ULID that is not pinned changes nothing.
    pub fn unpin(&mut self, ulid: &str)
        ensures
            text_set(final(self).pinned@) == text_set(old(self).pinned@).remove(ulid@),
            no_repeats(old(self).pinned@) ==> no_repeats(final(self).pinned@),
            !holds(old(self).pinned@, ulid@) ==> final(self).pinned@ == old(self).pinned@,
    {
        let ghost before = self.pinned@;
        let mut kept: Vec<String> = Vec::new();
        let mut i: usize = 0;
        let mut dropped = false;
        while i < self.pinned.len()
            invariant
                i <= self.pinned.len(),
                before == self.pinned@,
                forall|k: int| 0 <= k < kept@.len() ==> #[trigger] kept@[k]@ != ulid@,
                text_set(kept@) == text_set(before.take(i as int)).remove(ulid@),
                no_repeats(before) ==> no_repeats(kept@),
                no_repeats(before) ==> forall|k: int, q: int|
                    0 <= k < kept@.len() && i <= q < before.len() ==> #[trigger] kept@[k]@
                        != #[trigger] before[q]@,
                dropped ==> holds(before, ulid@),
                !dropped ==> forall|k: int| 0 <= k < i ==> #[trigger] before[k]@ != ulid@,
            decreases self.pinned.len() - i,
        {
            let ghost k0 = kept@;
            proof {
                crate::text::lemma_text_set_take(before, i as int);
            }
            if str_eq_str(self.pinned[i].as_str(), ulid) {
                dropped = true;
                assert(before[i as int]@ == ulid@);
                assert(text_set(before.take(i + 1)).remove(ulid@) =~= text_set(before.take(i as int)).remove(ulid@));
            } else {
                kept.push(owned(self.pinned[i].as_str()));
                proof {
                    let x = before[i as int]@;
                    assert forall|y: Seq<char>| text_set(kept@).contains(y) == text_set(k0).insert(x).contains(y) by {
                        if text_set(kept@).contains(y) {
                            let q = choose|q: int| 0 <= q < kept@.len() && #[trigger] kept@[q]@ == y;
                            if q < k0.len() {
                                assert(k0[q] == kept@[q]);
                            }
                        }
                        if text_set(k0).contains(y) {
                            let q = choose|q: int| 0 <= q < k0.len() && #[trigger] k0[q]@ == y;
                            assert(kept@[q] == k0[q]);
                        }
                        if y == x {
                            assert(kept@[k0.len() as int]@ == y);
                        }
                    }
                    assert(text_set(kept@) =~= text_set(k0).insert(x));
                    assert(text_set(before.take(i + 1)).remove(ulid@) =~= text_set(before.take(i as int)).remove(ulid@).insert(x));
                    if no_repeats(before) {
                        assert forall|a: int, b: int| 0 <= a < b < kept@.len() implies #[trigger] kept@[a]@
                            != #[trigger] kept@[b]@ by {
                            assert(kept@[a] == k0[a]);
                            if b < k0.len() {
                                assert(kept@[b] == k0[b]);
                            }
                        }
                    }
                }
            }
            i = i + 1;
        }
        assert(before.take(i as int) =~= before);
        if dropped {
            self.pinned = kept;
        } else {
            proof {
                if holds(before, ulid@) {
                    let q = choose|q: int| 0 <= q < before.len() && #[trigger] before[q]@ == ulid@;
                    assert(before[q]@ != ulid@);
                }
                assert(text_set(before).remove(ulid@) =~= text_set(before));
            }
        }
    }

    /// Whether `ulid` is pinned.
    pub fn is_pinned(&self, ulid: &str) -> (b: bool)
        ensures
            b == holds(self.pinned@, ulid@),
    {
        let mut i: usize = 0;
        while i < self.pinned.len()
            invariant
                i <= self.pinned.len(),
                forall|q: int| 0 <= q < i ==> #[trigger] self.pinned@[q]@ != ulid@,
            decreases self.pinned.len() - i,
        {
            if str_eq_str(self.pinned[i].as_str(), ulid) {
                assert(text_set(self.pinned@).contains(ulid@));
                return true;
            }
            i = i + 1;
        }
        false
    }
}

/// Pinning then asking gives `true`; unpinning then asking gives `false`.
pub proof fn law_pin_then_query(pinned: Set<Seq<char>>, u: Seq<char>)
    ensures
        pinned.insert(u).contains(u),
        !pinned.remove(u).contains(u),
{
}

/// `<data_home>/mde/clipboard/pins.json`.
pub fn pin_store_path(data_home: &str) -> (p: String)
    ensures
        p@ == path_join(data_home@, "mde/clipboard/pins.json"@),
{
    path_join_exec(data_home, "mde/clipboard/pins.json")
}

} // verus!
