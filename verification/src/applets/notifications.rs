//! Notification center: the visible notifications grouped by peer (peers in
//! ascending order, newest first within a peer) and rendered as text.
use vstd::prelude::*;

use crate::applets::api::{make_manifest, rerenders, AppletManifest, AppletSlot, HostMessage, APPLET_VERSION};
use crate::text::{chars_le, chars_of, owned, push_chars, push_str, seq_le, slice_chars, string_of};

verus! {

/// The notifications applet's manifest.
pub fn manifest() -> (m: AppletManifest)
    ensures
        m.id.0@ == "notifications"@,
        m.binary@ == "mde-applet-notifications"@,
        m.slot == AppletSlot::Overlay,
        m.summary@ == "Notifications center modal reader"@,
        m.version@ == APPLET_VERSION@,
{
    make_manifest("notifications", "mde-applet-notifications", AppletSlot::Overlay, "Notifications center modal reader")
}

/// One notification of the shared notification log.
#[derive(Debug, Clone, Default, PartialEq, Eq)]
pub struct NotificationRow {
    pub id: String,
    pub peer: String,
    pub title: String,
    pub body: String,
    pub created_at: i64,
    pub read: bool,
    pub dismissed: bool,
}

/// Rows that are not dismissed.
pub open spec fn not_dismissed() -> spec_fn(NotificationRow) -> bool {
    |r: NotificationRow| !r.dismissed
}

/// Drops dismissed rows, keeping the order of the others.
pub fn visible(rows: Vec<NotificationRow>) -> (r: Vec<NotificationRow>)
    ensures
        r@ == rows@.filter(not_dismissed()),
{
    let mut rest = rows;
    let ghost orig = rest@;
    assert(orig.len() == rest.len());
    let mut out: Vec<NotificationRow> = Vec::new();
    let mut i: usize = 0;
    while rest.len() > 0
        invariant
            i <= orig.len(),
            orig.len() <= usize::MAX,
            rest@.len() + i == orig.len(),
            rest@ == orig.skip(i as int),
            out@ == orig.take(i as int).filter(not_dismissed()),
        decreases rest.len(),
    {
        let x = rest.remove(0);
        assert(orig.take(i + 1) == orig.take(i as int).push(x));
        proof {
            orig.take(i as int).lemma_filter_push(x, not_dismissed());
        }
        if !x.dismissed {
            out.push(x);
        }
        i = i + 1;
        assert(orig.skip(i as int) == orig.skip(i - 1).remove(0));
    }
    assert(orig.take(i as int) == orig);
    out
}

/// The latest timestamp among non-empty `rows`.
pub open spec fn max_created(rows: Seq<NotificationRow>) -> i64
    decreases rows.len(),
{
    if rows.len() <= 1 {
        rows[0].created_at
    } else {
        let m = max_created(rows.drop_last());
        if m >= rows.last().created_at {
            m
        } else {
            rows.last().created_at
        }
    }
}

/// Rows created at `t`.
pub open spec fn created_at_is(t: i64) -> spec_fn(NotificationRow) -> bool {
    |r: NotificationRow| r.created_at == t
}

/// Rows not created at `t`.
pub open spec fn created_at_is_not(t: i64) -> spec_fn(NotificationRow) -> bool {
    |r: NotificationRow| r.created_at != t
}

/// The rows sorted newest first, rows with equal timestamps kept in input
/// order (a stable descending sort by `created_at`): the rows of the latest
/// timestamp, then the others sorted likewise.
pub open spec fn newest_first(rows: Seq<NotificationRow>) -> Seq<NotificationRow>
    decreases rows.len(),
{
    if rows.len() == 0 {
        rows
    } else {
        let m = max_created(rows);
        let rest = rows.filter(created_at_is_not(m));
        if rest.len() < rows.len() {
            rows.filter(created_at_is(m)) + newest_first(rest)
        } else {
            rows
        }
    }
}

/// The smallest peer name among non-empty `rows` (lexicographic).
pub open spec fn min_peer(rows: Seq<NotificationRow>) -> Seq<char>
    decreases rows.len(),
{
    if rows.len() <= 1 {
        rows[0].peer@
    } else {
        let m = min_peer(rows.drop_last());
        if seq_le(m, rows.last().peer@) {
            m
        } else {
            rows.last().peer@
        }
    }
}

/// Rows of peer `p`.
pub open spec fn peer_is(p: Seq<char>) -> spec_fn(NotificationRow) -> bool {
    |r: NotificationRow| r.peer@ == p
}

/// Rows of other peers than `p`.
pub open spec fn peer_is_not(p: Seq<char>) -> spec_fn(NotificationRow) -> bool {
    |r: NotificationRow| r.peer@ != p
}

/// The rows grouped by peer, groups in ascending peer order, each group
/// newest first.
pub open spec fn grouped(rows: Seq<NotificationRow>) -> Seq<(Seq<char>, Seq<NotificationRow>)>
    decreases rows.len(),
{
    if rows.len() == 0 {
        Seq::empty()
    } else {
        let p = min_peer(rows);
        let rest = rows.filter(peer_is_not(p));
        if rest.len() < rows.len() {
            seq![(p, newest_first(rows.filter(peer_is(p))))] + grouped(rest)
        } else {
            Seq::empty()
        }
    }
}

proof fn lemma_filter_unfold<A>(s: Seq<A>, p: spec_fn(A) -> bool)
    requires
        s.len() > 0,
    ensures
        s.filter(p) == (if p(s.last()) {
            s.drop_last().filter(p).push(s.last())
        } else {
            s.drop_last().filter(p)
        }),
{
    reveal(Seq::filter);
}

proof fn lemma_filter_split_len<A>(s: Seq<A>, p: spec_fn(A) -> bool, q: spec_fn(A) -> bool)
    requires
        forall|x: A| #[trigger] p(x) == !q(x),
    ensures
        s.filter(p).len() + s.filter(q).len() == s.len(),
    decreases s.len(),
{
    if s.len() > 0 {
        lemma_filter_split_len(s.drop_last(), p, q);
        lemma_filter_unfold(s, p);
        lemma_filter_unfold(s, q);
        assert(p(s.last()) == !q(s.last()));
    }
}

proof fn lemma_max_created_in(rows: Seq<NotificationRow>)
    requires
        rows.len() > 0,
    ensures
        rows.filter(created_at_is(max_created(rows))).len() > 0,
    decreases rows.len(),
{
    let m = max_created(rows);
    lemma_filter_unfold(rows, created_at_is(m));
    if rows.len() > 1 {
        lemma_max_created_in(rows.drop_last());
        let m0 = max_created(rows.drop_last());
        if m0 >= rows.last().created_at {
            assert(rows.drop_last().filter(created_at_is(m)).len() > 0);
        }
    } else {
        assert(rows.last() == rows[0]);
    }
}

proof fn lemma_min_peer_in(rows: Seq<NotificationRow>)
    requires
        rows.len() > 0,
    ensures
        rows.filter(peer_is(min_peer(rows))).len() > 0,
    decreases rows.len(),
{
    let m = min_peer(rows);
    lemma_filter_unfold(rows, peer_is(m));
    if rows.len() > 1 {
        lemma_min_peer_in(rows.drop_last());
        let m0 = min_peer(rows.drop_last());
        if seq_le(m0, rows.last().peer@) {
            assert(rows.drop_last().filter(peer_is(m)).len() > 0);
        }
    } else {
        assert(rows.last() == rows[0]);
    }
}

/// The latest timestamp, computed.
fn max_created_exec(rows: &Vec<NotificationRow>) -> (m: i64)
    requires
        rows@.len() > 0,
    ensures
        m == max_created(rows@),
{
    let mut m = rows[0].created_at;
    let mut i: usize = 1;
    assert(rows@.take(1).drop_last().len() == 0);
    while i < rows.len()
        invariant
            1 <= i <= rows.len(),
            m == max_created(rows@.take(i as int)),
        decreases rows.len() - i,
    {
        assert(rows@.take(i + 1).drop_last() == rows@.take(i as int));
        if !(m >= rows[i].created_at) {
            m = rows[i].created_at;
        }
        i = i + 1;
    }
    assert(rows@.take(rows.len() as int) == rows@);
    m
}

/// Splits `rows` into the rows created at `t` and the others, each in
/// input order.
fn split_by_created(rows: Vec<NotificationRow>, t: i64) -> (r: (
    Vec<NotificationRow>,
    Vec<NotificationRow>,
))
    ensures
        r.0@ == rows@.filter(created_at_is(t)),
        r.1@ == rows@.filter(created_at_is_not(t)),
{
    let ghost orig = rows@;
    let mut rest = rows;
    assert(orig.len() == rest.len());
    let mut yes: Vec<NotificationRow> = Vec::new();
    let mut no: Vec<NotificationRow> = Vec::new();
    let mut i: usize = 0;
    while rest.len() > 0
        invariant
            i <= orig.len(),
            orig.len() <= usize::MAX,
            rest@.len() + i == orig.len(),
            rest@ == orig.skip(i as int),
            yes@ == orig.take(i as int).filter(created_at_is(t)),
            no@ == orig.take(i as int).filter(created_at_is_not(t)),
        decreases rest.len(),
    {
        let x = rest.remove(0);
        assert(orig.take(i + 1) == orig.take(i as int).push(x));
        proof {
            orig.take(i as int).lemma_filter_push(x, created_at_is(t));
            orig.take(i as int).lemma_filter_push(x, created_at_is_not(t));
        }
        if x.created_at == t {
            yes.push(x);
        } else {
            no.push(x);
        }
        i = i + 1;
        assert(orig.skip(i as int) == orig.skip(i - 1).remove(0));
    }
    assert(orig.take(i as int) == orig);
    (yes, no)
}

/// Sorts newest first, stably.
fn sort_newest_first(rows: Vec<NotificationRow>) -> (r: Vec<NotificationRow>)
    ensures
        r@ == newest_first(rows@),
{
    let ghost orig = rows@;
    let mut rest = rows;
    let mut out: Vec<NotificationRow> = Vec::new();
    while rest.len() > 0
        invariant
            out@ + newest_first(rest@) == newest_first(orig),
        decreases rest.len(),
    {
        let m = max_created_exec(&rest);
        let ghost before = rest@;
        proof {
            lemma_max_created_in(before);
            lemma_filter_split_len(before, created_at_is(m), created_at_is_not(m));
        }
        let (mut top, others) = split_by_created(rest, m);
        out.append(&mut top);
        rest = others;
        assert(out@ + newest_first(rest@) == newest_first(orig));
    }
    assert(out@ + newest_first(rest@) == out@);
    out
}

/// The smallest peer, computed.
fn min_peer_exec(rows: &Vec<NotificationRow>) -> (p: Vec<char>)
    requires
        rows@.len() > 0,
    ensures
        p@ == min_peer(rows@),
{
    let mut m = chars_of(rows[0].peer.as_str());
    let mut i: usize = 1;
    assert(rows@.take(1).drop_last().len() == 0);
    while i < rows.len()
        invariant
            1 <= i <= rows.len(),
            m@ == min_peer(rows@.take(i as int)),
        decreases rows.len() - i,
    {
        assert(rows@.take(i + 1).drop_last() == rows@.take(i as int));
        let c = chars_of(rows[i].peer.as_str());
        if !chars_le(&m, &c) {
            m = c;
        }
        i = i + 1;
    }
    assert(rows@.take(rows.len() as int) == rows@);
    m
}

/// Splits `rows` into the rows of peer `p` and the others.
fn split_by_peer(rows: Vec<NotificationRow>, p: &Vec<char>) -> (r: (
    Vec<NotificationRow>,
    Vec<NotificationRow>,
))
    ensures
        r.0@ == rows@.filter(peer_is(p@)),
        r.1@ == rows@.filter(peer_is_not(p@)),
{
    let ghost orig = rows@;
    let mut rest = rows;
    assert(orig.len() == rest.len());
    let mut yes: Vec<NotificationRow> = Vec::new();
    let mut no: Vec<NotificationRow> = Vec::new();
    let mut i: usize = 0;
    while rest.len() > 0
        invariant
            i <= orig.len(),
            orig.len() <= usize::MAX,
            rest@.len() + i == orig.len(),
            rest@ == orig.skip(i as int),
            yes@ == orig.take(i as int).filter(peer_is(p@)),
            no@ == orig.take(i as int).filter(peer_is_not(p@)),
        decreases rest.len(),
    {
        let x = rest.remove(0);
        assert(orig.take(i + 1) == orig.take(i as int).push(x));
        proof {
            orig.take(i as int).lemma_filter_push(x, peer_is(p@));
            orig.take(i as int).lemma_filter_push(x, peer_is_not(p@));
        }
        let xp = chars_of(x.peer.as_str());
        if crate::text::chars_eq(&xp, p) {
            yes.push(x);
        } else {
            no.push(x);
        }
        i = i + 1;
        assert(orig.skip(i as int) == orig.skip(i - 1).remove(0));
    }
    assert(orig.take(i as int) == orig);
    (yes, no)
}

/// The view of a group.
pub open spec fn group_view(g: (String, Vec<NotificationRow>)) -> (Seq<char>, Seq<NotificationRow>) {
    (g.0@, g.1@)
}

/// Groups rows by peer (ascending peer names, as a `BTreeMap` orders them)
/// and sorts each group newest first, stably.
pub fn group_and_sort(rows: Vec<NotificationRow>) -> (r: Vec<(String, Vec<NotificationRow>)>)
    ensures
        r@.map_values(|g: (String, Vec<NotificationRow>)| group_view(g)) == grouped(rows@),
{
    let ghost orig = rows@;
    let mut rest = rows;
    let mut out: Vec<(String, Vec<NotificationRow>)> = Vec::new();
    while rest.len() > 0
        invariant
            out@.map_values(|g: (String, Vec<NotificationRow>)| group_view(g)) + grouped(rest@)
                == grouped(orig),
        decreases rest.len(),
    {
        let ghost before = rest@;
        let ghost old_out = out@.map_values(|g: (String, Vec<NotificationRow>)| group_view(g));
        let p = min_peer_exec(&rest);
        proof {
            lemma_min_peer_in(before);
            lemma_filter_split_len(before, peer_is(p@), peer_is_not(p@));
        }
        let (mine, others) = split_by_peer(rest, &p);
        let sorted = sort_newest_first(mine);
        out.push((string_of(&p), sorted));
        rest = others;
        assert(out@.map_values(|g: (String, Vec<NotificationRow>)| group_view(g)) == old_out.push(
            (p@, newest_first(before.filter(peer_is(p@)))),
        ));
    }
    assert(out@.map_values(|g: (String, Vec<NotificationRow>)| group_view(g)) + grouped(rest@)
        == out@.map_values(|g: (String, Vec<NotificationRow>)| group_view(g)));
    out
}

/// One row: `•` (unread) or a space, the title, ` · ` and the first 60
/// characters of the body.
pub open spec fn row_line(r: NotificationRow) -> Seq<char> {
    let mark = if r.read {
        " "@
    } else {
        "•"@
    };
    let body = if r.body@.len() <= 60 {
        r.body@
    } else {
        r.body@.take(60)
    };
    mark + " "@ + r.title@ + " · "@ + body
}

/// A group block: `== <peer or Local> ==` and one line per row, each line
/// ended by a newline.
pub open spec fn group_block(peer: Seq<char>, rows: Seq<NotificationRow>) -> Seq<char>
    decreases rows.len(),
{
    if rows.len() == 0 {
        "== "@ + (if peer.len() == 0 {
            "Local"@
        } else {
            peer
        }) + " ==\n"@
    } else {
        group_block(peer, rows.drop_last()) + row_line(rows.last()) + "\n"@
    }
}

/// All group blocks, in order.
pub open spec fn blocks(groups: Seq<(String, Vec<NotificationRow>)>) -> Seq<char>
    decreases groups.len(),
{
    if groups.len() == 0 {
        Seq::empty()
    } else {
        blocks(groups.drop_last()) + group_block(groups.last().0@, groups.last().1@)
    }
}

/// Drops trailing newlines.
pub open spec fn trim_newlines(s: Seq<char>) -> Seq<char>
    decreases s.len(),
{
    if s.len() > 0 && s.last() == '\n' {
        trim_newlines(s.drop_last())
    } else {
        s
    }
}

/// The center text: `(no notifications)`, or the blocks without the final
/// newlines.
pub open spec fn center_of(groups: Seq<(String, Vec<NotificationRow>)>) -> Seq<char> {
    if groups.len() == 0 {
        "(no notifications)"@
    } else {
        trim_newlines(blocks(groups))
    }
}

fn push_row_line(s: &mut String, r: &NotificationRow)
    ensures
        final(s)@ == old(s)@ + row_line(*r),
{
    if r.read {
        push_str(s, " ");
    } else {
        push_str(s, "•");
    }
    push_str(s, " ");
    push_str(s, r.title.as_str());
    push_str(s, " · ");
    let b = chars_of(r.body.as_str());
    let n = if b.len() <= 60 {
        b.len()
    } else {
        60
    };
    let head = slice_chars(&b, 0, n);
    assert(b@.subrange(0, b@.len() as int) == b@);
    push_chars(s, &head);
}

/// Renders the notification center.
pub fn format_center(groups: &[(String, Vec<NotificationRow>)]) -> (r: String)
    ensures
        r@ == center_of(groups@),
{
    if groups.len() == 0 {
        return owned("(no notifications)");
    }
    let mut out = String::new();
    let mut g: usize = 0;
    while g < groups.len()
        invariant
            g <= groups.len(),
            out@ == blocks(groups@.take(g as int)),
        decreases groups.len() - g,
    {
        let ghost before = out@;
        let (peer, rows) = &groups[g];
        push_str(&mut out, "== ");
        if peer.as_str().is_empty() {
            push_str(&mut out, "Local");
        } else {
            push_str(&mut out, peer.as_str());
        }
        push_str(&mut out, " ==\n");
        let mut k: usize = 0;
        while k < rows.len()
            invariant
                k <= rows.len(),
                out@ == before + group_block(peer@, rows@.take(k as int)),
            decreases rows.len() - k,
        {
            push_row_line(&mut out, &rows[k]);
            push_str(&mut out, "\n");
            assert(rows@.take(k + 1).drop_last() == rows@.take(k as int));
            k = k + 1;
        }
        assert(rows@.take(rows.len() as int) == rows@);
        assert(groups@.take(g + 1).drop_last() == groups@.take(g as int));
        g = g + 1;
    }
    assert(groups@.take(groups.len() as int) == groups@);
    let v = chars_of(out.as_str());
    let mut n = v.len();
    assert(v@.take(v.len() as int) == v@);
    while n > 0 && v[n - 1] == '\n'
        invariant
            n <= v.len(),
            trim_newlines(v@.take(n as int)) == trim_newlines(v@),
        decreases n,
    {
        assert(v@.take(n as int).drop_last() == v@.take(n - 1));
        n = n - 1;
    }
    let kept = slice_chars(&v, 0, n);
    assert(v@.take(v.len() as int) == v@);
    assert(trim_newlines(kept@) == kept@);
    string_of(&kept)
}

/// Host messages re-render the center, except `Shutdown`.
pub fn handle_host(msg: &HostMessage) -> (r: bool)
    ensures
        r == rerenders(*msg),
{
    !matches!(msg, HostMessage::Shutdown)
}

} // verus!
