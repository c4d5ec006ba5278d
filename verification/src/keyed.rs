//! Records held in a `Vec` kept in strictly ascending order of a text key:
//! at most one record per key, so the vector reads as a map from key to
//! record and lists in key order. Used for the LAN peer registry and for
//! applet manifest discovery, where a later record replaces an earlier one
//! with the same key.
use vstd::prelude::*;
use crate::text::{seq_le, str_le, str_eq_str, lemma_seq_le_total, lemma_seq_le_antisym,
    lemma_seq_le_trans};

verus! {

/// A record identified by a text key.
pub trait Keyed {
    spec fn key(&self) -> Seq<char>;

    fn key_str(&self) -> (r: &str)
        ensures
            r@ == self.key(),
    ;
}

/// Strict order on keys: `str`'s `<`.
pub open spec fn key_lt(a: Seq<char>, b: Seq<char>) -> bool {
    seq_le(a, b) && a != b
}

/// Keys strictly ascend along the sequence (so no key occurs twice).
pub open spec fn keys_ascending<T: Keyed>(s: Seq<T>) -> bool {
    forall|a: int, b: int| 0 <= a < b < s.len() ==> key_lt(#[trigger] s[a].key(), #[trigger] s[b].key())
}

/// Some record of `s` carries key `k`.
pub open spec fn has_key<T: Keyed>(s: Seq<T>, k: Seq<char>) -> bool {
    exists|i: int| 0 <= i < s.len() && #[trigger] s[i].key() == k
}

/// The position of a record with key `k`.
pub open spec fn index_of_key<T: Keyed>(s: Seq<T>, k: Seq<char>) -> int {
    choose|i: int| 0 <= i < s.len() && #[trigger] s[i].key() == k
}

/// The sequence read as a map from key to record.
pub open spec fn keyed_map<T: Keyed>(s: Seq<T>) -> Map<Seq<char>, T> {
    Map::new(|k: Seq<char>| has_key(s, k), |k: Seq<char>| s[index_of_key(s, k)])
}

/// In an ascending sequence the record at `i` is the one the map gives for its key.
pub proof fn lemma_keyed_map_at<T: Keyed>(s: Seq<T>, i: int)
    requires
        keys_ascending(s),
        0 <= i < s.len(),
    ensures
        keyed_map(s).contains_key(s[i].key()),
        keyed_map(s)[s[i].key()] == s[i],
        index_of_key(s, s[i].key()) == i,
{
    let k = s[i].key();
    assert(has_key(s, k));
    let j = index_of_key(s, k);
    assert(0 <= j < s.len() && s[j].key() == k);
    if j < i {
        assert(key_lt(s[j].key(), s[i].key()));
    } else if i < j {
        assert(key_lt(s[i].key(), s[j].key()));
    }
}

/// Two ascending sequences that hold the same records at the same keys are
/// equal as maps.
proof fn lemma_same_map<T: Keyed>(s: Seq<T>, t: Seq<T>, m: Map<Seq<char>, T>)
    requires
        keys_ascending(s),
        keys_ascending(t),
        forall|k: Seq<char>| #[trigger] has_key(t, k) <==> m.contains_key(k),
        forall|i: int| 0 <= i < t.len() ==> m[#[trigger] t[i].key()] == t[i],
    ensures
        keyed_map(t) == m,
{
    assert forall|k: Seq<char>| #[trigger] keyed_map(t).contains_key(k) implies keyed_map(t)[k] == m[k] by {
        let i = index_of_key(t, k);
        lemma_keyed_map_at(t, i);
    }
    assert(keyed_map(t) =~= m);
}

/// Position of the first record whose key is not below `k`.
fn lower_bound<T: Keyed>(v: &Vec<T>, k: &str) -> (p: usize)
    requires
        keys_ascending(v@),
    ensures
        p <= v@.len(),
        forall|q: int| 0 <= q < p ==> key_lt(#[trigger] v@[q].key(), k@),
        p < v@.len() ==> seq_le(k@, v@[p as int].key()),
{
    let mut p: usize = 0;
    while p < v.len() && !str_le(k, v[p].key_str())
        invariant
            p <= v@.len(),
            forall|q: int| 0 <= q < p ==> key_lt(#[trigger] v@[q].key(), k@),
        decreases v.len() - p,
    {
        proof {
            lemma_seq_le_total(k@, v@[p as int].key());
        }
        p = p + 1;
    }
    p
}

/// Index of the record with key `k`, if any.
pub fn find_keyed<T: Keyed>(v: &Vec<T>, k: &str) -> (r: Option<usize>)
    requires
        keys_ascending(v@),
    ensures
        r is Some <==> has_key(v@, k@),
        r is Some ==> r->0 < v@.len() && v@[r->0 as int].key() == k@,
        r is Some ==> keyed_map(v@)[k@] == v@[r->0 as int],
{
    let mut i: usize = 0;
    while i < v.len()
        invariant
            i <= v@.len(),
            keys_ascending(v@),
            forall|q: int| 0 <= q < i ==> #[trigger] v@[q].key() != k@,
        decreases v.len() - i,
    {
        if str_eq_str(v[i].key_str(), k) {
            proof {
                lemma_keyed_map_at(v@, i as int);
            }
            return Some(i);
        }
        i = i + 1;
    }
    None
}

/// Puts `item` under its key: it replaces the record with that key, or is
/// inserted in key order.
#[verifier::rlimit(40)]
pub fn upsert_keyed<T: Keyed>(v: &mut Vec<T>, item: T)
    requires
        keys_ascending(old(v)@),
    ensures
        keys_ascending(final(v)@),
        keyed_map(final(v)@) == keyed_map(old(v)@).insert(item.key(), item),
        final(v)@.len() == old(v)@.len() + (if has_key(old(v)@, item.key()) { 0int } else { 1int }),
{
    let ghost s = v@;
    let ghost k = item.key();
    let p = lower_bound(v, item.key_str());
    let same = p < v.len() && str_eq_str(v[p].key_str(), item.key_str());
    if same {
        v.set(p, item);
        proof {
            let t = v@;
            assert(t == s.update(p as int, item));
            assert forall|a: int, b: int| 0 <= a < b < t.len() implies key_lt(#[trigger] t[a].key(), #[trigger] t[b].key()) by {
                assert(key_lt(s[a].key(), s[b].key()));
            }
            assert(has_key(s, k));
            let m = keyed_map(s).insert(k, item);
            assert forall|kk: Seq<char>| #[trigger] has_key(t, kk) <==> m.contains_key(kk) by {
                if has_key(t, kk) {
                    let i = choose|i: int| 0 <= i < t.len() && #[trigger] t[i].key() == kk;
                    if i != p {
                        assert(s[i].key() == kk);
                        assert(has_key(s, kk));
                    }
                }
                if m.contains_key(kk) && kk != k {
                    let i = choose|i: int| 0 <= i < s.len() && #[trigger] s[i].key() == kk;
                    assert(t[i].key() == kk);
                }
                if kk == k {
                    assert(t[p as int].key() == kk);
                }
            }
            assert forall|i: int| 0 <= i < t.len() implies m[#[trigger] t[i].key()] == t[i] by {
                if i != p {
                    lemma_keyed_map_at(s, i);
                    assert(t[i].key() != k);
                }
            }
            lemma_same_map(s, t, m);
        }
    } else {
        proof {
            assert(!has_key(s, k)) by {
                if has_key(s, k) {
                    let i = choose|i: int| 0 <= i < s.len() && #[trigger] s[i].key() == k;
                    if i < p {
                        assert(key_lt(s[i].key(), k));
                    } else if i > p {
                        assert(key_lt(s[p as int].key(), s[i].key()));
                        lemma_seq_le_antisym(k, s[p as int].key());
                    }
                }
            }
        }
        v.insert(p, item);
        proof {
            let t = v@;
            assert(t == s.insert(p as int, item));
            assert forall|a: int, b: int| 0 <= a < b < t.len() implies key_lt(#[trigger] t[a].key(), #[trigger] t[b].key()) by {
                if b < p {
                    assert(key_lt(s[a].key(), s[b].key()));
                } else if b == p {
                    assert(key_lt(s[a].key(), k));
                } else if a == p {
                    assert(t[b].key() == s[b - 1].key());
                    if b - 1 == p {
                        assert(seq_le(k, s[p as int].key()));
                    } else {
                        assert(key_lt(s[p as int].key(), s[b - 1].key()));
                        lemma_seq_le_trans(k, s[p as int].key(), s[b - 1].key());
                        if k == s[b - 1].key() {
                            lemma_seq_le_antisym(k, s[p as int].key());
                        }
                    }
                } else if a < p {
                    assert(key_lt(s[a].key(), s[b - 1].key()));
                } else {
                    assert(key_lt(s[a - 1].key(), s[b - 1].key()));
                }
            }
            let m = keyed_map(s).insert(k, item);
            assert forall|kk: Seq<char>| #[trigger] has_key(t, kk) <==> m.contains_key(kk) by {
                if has_key(t, kk) {
                    let i = choose|i: int| 0 <= i < t.len() && #[trigger] t[i].key() == kk;
                    if i < p {
                        assert(s[i].key() == kk);
                    } else if i > p {
                        assert(s[i - 1].key() == kk);
                    }
                }
                if m.contains_key(kk) && kk != k {
                    let i = choose|i: int| 0 <= i < s.len() && #[trigger] s[i].key() == kk;
                    if i < p {
                        assert(t[i].key() == kk);
                    } else {
                        assert(t[i + 1].key() == kk);
                    }
                }
                if kk == k {
                    assert(t[p as int].key() == kk);
                }
            }
            assert forall|i: int| 0 <= i < t.len() implies m[#[trigger] t[i].key()] == t[i] by {
                if i < p {
                    lemma_keyed_map_at(s, i);
                } else if i > p {
                    lemma_keyed_map_at(s, i - 1);
                    assert(t[i] == s[i - 1]);
                }
            }
            lemma_same_map(s, t, m);
        }
    }
}

/// Drops the record with key `k`, if there is one.
#[verifier::rlimit(40)]
pub fn remove_keyed<T: Keyed>(v: &mut Vec<T>, k: &str)
    requires
        keys_ascending(old(v)@),
    ensures
        keys_ascending(final(v)@),
        keyed_map(final(v)@) == keyed_map(old(v)@).remove(k@),
        final(v)@.len() == old(v)@.len() - (if has_key(old(v)@, k@) { 1int } else { 0int }),
{
    let ghost s = v@;
    match find_keyed(v, k) {
        None => {
            proof {
                assert(keyed_map(s).remove(k@) =~= keyed_map(s));
            }
        },
        Some(p) => {
            v.remove(p);
            proof {
                let t = v@;
                assert(t == s.remove(p as int));
                assert forall|a: int, b: int| 0 <= a < b < t.len() implies key_lt(#[trigger] t[a].key(), #[trigger] t[b].key()) by {
                    if b < p {
                        assert(key_lt(s[a].key(), s[b].key()));
                    } else if a < p {
                        assert(key_lt(s[a].key(), s[b + 1].key()));
                    } else {
                        assert(key_lt(s[a + 1].key(), s[b + 1].key()));
                    }
                }
                let m = keyed_map(s).remove(k@);
                assert forall|kk: Seq<char>| #[trigger] has_key(t, kk) <==> m.contains_key(kk) by {
                    if has_key(t, kk) {
                        let i = choose|i: int| 0 <= i < t.len() && #[trigger] t[i].key() == kk;
                        if i < p {
                            assert(s[i].key() == kk);
                            assert(key_lt(s[i].key(), s[p as int].key()));
                        } else {
                            assert(s[i + 1].key() == kk);
                            assert(key_lt(s[p as int].key(), s[i + 1].key()));
                        }
                    }
                    if m.contains_key(kk) {
                        let i = choose|i: int| 0 <= i < s.len() && #[trigger] s[i].key() == kk;
                        assert(i != p);
                        if i < p {
                            assert(t[i].key() == kk);
                        } else {
                            assert(t[i - 1].key() == kk);
                        }
                    }
                }
                assert forall|i: int| 0 <= i < t.len() implies m[#[trigger] t[i].key()] == t[i] by {
                    if i < p {
                        lemma_keyed_map_at(s, i);
                        assert(key_lt(s[i].key(), s[p as int].key()));
                    } else {
                        lemma_keyed_map_at(s, i + 1);
                        assert(key_lt(s[p as int].key(), s[i + 1].key()));
                    }
                }
                lemma_same_map(s, t, m);
            }
        },
    }
}


/// Read after write, and idempotence: once `item` has been upserted, its key
/// is held, the map gives back `item`, and upserting it again changes
/// neither the map nor (by `upsert_keyed`'s count clause) the number of
/// records.
pub proof fn law_upsert_idempotent<T: Keyed>(s0: Seq<T>, s1: Seq<T>, item: T)
    requires
        keys_ascending(s1),
        keyed_map(s1) == keyed_map(s0).insert(item.key(), item),
    ensures
        has_key(s1, item.key()),
        keyed_map(s1)[item.key()] == item,
        keyed_map(s1).insert(item.key(), item) == keyed_map(s1),
{
    assert(keyed_map(s1).contains_key(item.key()));
    assert(keyed_map(s1).insert(item.key(), item) =~= keyed_map(s1));
}

/// Last write wins: two upserts under one key read as the second alone.
pub proof fn law_last_upsert_wins<T: Keyed>(m: Map<Seq<char>, T>, a: T, b: T)
    requires
        a.key() == b.key(),
    ensures
        m.insert(a.key(), a).insert(b.key(), b) == m.insert(b.key(), b),
{
    assert(m.insert(a.key(), a).insert(b.key(), b) =~= m.insert(b.key(), b));
}

/// Removing a key undoes the upsert of a record whose key was absent.
pub proof fn law_remove_undoes_upsert<T: Keyed>(s: Seq<T>, item: T)
    requires
        !has_key(s, item.key()),
    ensures
        keyed_map(s).insert(item.key(), item).remove(item.key()) == keyed_map(s),
{
    assert(keyed_map(s).insert(item.key(), item).remove(item.key()) =~= keyed_map(s));
}


/// The map after upserting each record of `xs` in turn into `m`.
pub open spec fn upserted_all<T: Keyed>(m: Map<Seq<char>, T>, xs: Seq<T>) -> Map<Seq<char>, T>
    decreases xs.len(),
{
    if xs.len() == 0 {
        m
    } else {
        upserted_all(m, xs.drop_last()).insert(xs.last().key(), xs.last())
    }
}

/// Upserts every record of `items`, in order, into `out`.
pub fn upsert_all<T: Keyed>(out: &mut Vec<T>, items: Vec<T>)
    requires
        keys_ascending(old(out)@),
    ensures
        keys_ascending(final(out)@),
        keyed_map(final(out)@) == upserted_all(keyed_map(old(out)@), items@),
{
    let ghost m0 = keyed_map(out@);
    let ghost xs = items@;
    let mut rest = items;
    let total = rest.len();
    let mut i: usize = 0;
    while rest.len() > 0
        invariant
            keys_ascending(out@),
            total == xs.len(),
            i <= xs.len(),
            rest@ == xs.skip(i as int),
            keyed_map(out@) == upserted_all(m0, xs.take(i as int)),
        decreases rest.len(),
    {
        let item = rest.remove(0);
        assert(item == xs[i as int]);
        upsert_keyed(out, item);
        i = i + 1;
        assert(xs.take(i as int).drop_last() == xs.take(i - 1));
        assert(rest@ == xs.skip(i as int));
    }
    assert(xs.take(xs.len() as int) == xs);
}

/// The last record of `xs` under a key is what the upserts leave there.
pub proof fn law_last_record_wins<T: Keyed>(m: Map<Seq<char>, T>, xs: Seq<T>, i: int)
    requires
        0 <= i < xs.len(),
        forall|j: int| i < j < xs.len() ==> #[trigger] xs[j].key() != xs[i].key(),
    ensures
        upserted_all(m, xs).contains_key(xs[i].key()),
        upserted_all(m, xs)[xs[i].key()] == xs[i],
    decreases xs.len(),
{
    if i < xs.len() - 1 {
        let ys = xs.drop_last();
        assert forall|j: int| i < j < ys.len() implies #[trigger] ys[j].key() != ys[i].key() by {
            assert(ys[j] == xs[j]);
        }
        law_last_record_wins(m, ys, i);
        assert(xs.last().key() != xs[i].key());
    }
}

/// A key no record of `xs` carries keeps what `m` had.
pub proof fn law_untouched_key_kept<T: Keyed>(m: Map<Seq<char>, T>, xs: Seq<T>, k: Seq<char>)
    requires
        forall|j: int| 0 <= j < xs.len() ==> #[trigger] xs[j].key() != k,
    ensures
        upserted_all(m, xs).contains_key(k) == m.contains_key(k),
        m.contains_key(k) ==> upserted_all(m, xs)[k] == m[k],
    decreases xs.len(),
{
    if xs.len() > 0 {
        let ys = xs.drop_last();
        assert forall|j: int| 0 <= j < ys.len() implies #[trigger] ys[j].key() != k by {
            assert(ys[j] == xs[j]);
        }
        law_untouched_key_kept(m, ys, k);
        assert(xs.last().key() != k);
    }
}

} // verus!
