//! The clipboard session: what the daemon does with each event of the
//! compositor's data-control device. Offers are named by their protocol
//! object ids; the caller owns the proxies, performs the returned actions in
//! order (request a read, destroy an offer, exit) and reads the pending pipe
//! after the dispatch cycle.
use vstd::prelude::*;

use crate::text::{starts_with, texts, str_starts_with};

verus! {

/// What `main` hands the session.
pub struct Config {
    /// Root of the bus file tree.
    pub bus_root: String,
    /// XDG data home, below which the blob directory lives.
    pub data_home: String,
    /// This peer's hostname, the publisher of clipboard messages.
    pub peer_id: String,
}

/// A MIME type the daemon may publish when nothing textual is offered:
/// not a KDE-internal type and not a private `_` type.
pub open spec fn is_public_mime(m: Seq<char>) -> bool {
    !starts_with(m, "x-kde-"@) && !starts_with(m, "_"@)
}

/// Position of the first type in `ms` that begins with `p`, or `ms.len()`.
pub open spec fn first_with_prefix(ms: Seq<Seq<char>>, p: Seq<char>) -> int
    decreases ms.len(),
{
    if ms.len() == 0 {
        0
    } else if starts_with(ms[0], p) {
        0
    } else {
        1 + first_with_prefix(ms.drop_first(), p)
    }
}

/// Position of the first public type in `ms`, or `ms.len()`.
pub open spec fn first_public(ms: Seq<Seq<char>>) -> int
    decreases ms.len(),
{
    if ms.len() == 0 {
        0
    } else if is_public_mime(ms[0]) {
        0
    } else {
        1 + first_public(ms.drop_first())
    }
}

/// The type to read: the first `text/plain*`, else the first `text/*`,
/// else the first public type, else none.
pub open spec fn picked_mime(ms: Seq<Seq<char>>) -> Option<Seq<char>> {
    if first_with_prefix(ms, "text/plain"@) < ms.len() {
        Some(ms[first_with_prefix(ms, "text/plain"@)])
    } else if first_with_prefix(ms, "text/"@) < ms.len() {
        Some(ms[first_with_prefix(ms, "text/"@)])
    } else if first_public(ms) < ms.len() {
        Some(ms[first_public(ms)])
    } else {
        None
    }
}

proof fn lemma_first_with_prefix(ms: Seq<Seq<char>>, p: Seq<char>, i: int)
    requires
        0 <= i <= ms.len(),
        forall|q: int| 0 <= q < i ==> !starts_with(#[trigger] ms[q], p),
    ensures
        first_with_prefix(ms, p) >= i,
        0 <= first_with_prefix(ms, p) <= ms.len(),
        i < ms.len() && starts_with(ms[i], p) ==> first_with_prefix(ms, p) == i,
        i == ms.len() ==> first_with_prefix(ms, p) == ms.len(),
    decreases ms.len(),
{
    if ms.len() > 0 {
        let t = ms.drop_first();
        if i > 0 {
            assert forall|q: int| 0 <= q < i - 1 implies !starts_with(#[trigger] t[q], p) by {
                assert(t[q] == ms[q + 1]);
            }
            lemma_first_with_prefix(t, p, i - 1);
            assert(!starts_with(ms[0], p));
        } else {
            lemma_first_with_prefix(t, p, 0);
        }
    }
}

proof fn lemma_first_public(ms: Seq<Seq<char>>, i: int)
    requires
        0 <= i <= ms.len(),
        forall|q: int| 0 <= q < i ==> !is_public_mime(#[trigger] ms[q]),
    ensures
        first_public(ms) >= i,
        0 <= first_public(ms) <= ms.len(),
        i < ms.len() && is_public_mime(ms[i]) ==> first_public(ms) == i,
        i == ms.len() ==> first_public(ms) == ms.len(),
    decreases ms.len(),
{
    if ms.len() > 0 {
        let t = ms.drop_first();
        if i > 0 {
            assert forall|q: int| 0 <= q < i - 1 implies !is_public_mime(#[trigger] t[q]) by {
                assert(t[q] == ms[q + 1]);
            }
            lemma_first_public(t, i - 1);
            assert(!is_public_mime(ms[0]));
        } else {
            lemma_first_public(t, 0);
        }
    }
}

/// Index of the first type that begins with `p`, or the length.
fn find_prefix(mimes: &Vec<String>, p: &str) -> (i: usize)
    ensures
        i == first_with_prefix(texts(mimes@), p@),
{
    let ghost ms = texts(mimes@);
    let mut i: usize = 0;
    while i < mimes.len()
        invariant
            i <= mimes@.len(),
            ms == texts(mimes@),
            forall|q: int| 0 <= q < i ==> !starts_with(#[trigger] ms[q], p@),
        decreases mimes.len() - i,
    {
        if str_starts_with(mimes[i].as_str(), p) {
            proof {
                lemma_first_with_prefix(ms, p@, i as int);
            }
            return i;
        }
        i = i + 1;
    }
    proof {
        lemma_first_with_prefix(ms, p@, i as int);
    }
    i
}

/// Index of the first public type, or the length.
fn find_public(mimes: &Vec<String>) -> (i: usize)
    ensures
        i == first_public(texts(mimes@)),
{
    let ghost ms = texts(mimes@);
    let mut i: usize = 0;
    while i < mimes.len()
        invariant
            i <= mimes@.len(),
            ms == texts(mimes@),
            forall|q: int| 0 <= q < i ==> !is_public_mime(#[trigger] ms[q]),
        decreases mimes.len() - i,
    {
        let m = mimes[i].as_str();
        if !str_starts_with(m, "x-kde-") && !str_starts_with(m, "_") {
            proof {
                lemma_first_public(ms, i as int);
            }
            return i;
        }
        i = i + 1;
    }
    proof {
        lemma_first_public(ms, i as int);
    }
    i
}

/// Picks the MIME type to read for publishing: `text/plain` first (smallest
/// and most useful), then any `text/*`, then the first type that is neither
/// KDE-internal nor private.
pub fn pick_mime(mimes: &Vec<String>) -> (r: Option<String>)
    ensures
        match picked_mime(texts(mimes@)) {
            Some(m) => r is Some && r->0@ == m,
            None => r is None,
        },
{
    let i = find_prefix(mimes, "text/plain");
    if i < mimes.len() {
        return Some(mimes[i].clone());
    }
    let j = find_prefix(mimes, "text/");
    if j < mimes.len() {
        return Some(mimes[j].clone());
    }
    let k = find_public(mimes);
    if k < mimes.len() {
        return Some(mimes[k].clone());
    }
    None
}

/// Whenever a `text/plain` type is offered, the picked type is one.
pub proof fn law_plain_text_preferred(ms: Seq<Seq<char>>, i: int)
    requires
        0 <= i < ms.len(),
        starts_with(ms[i], "text/plain"@),
    ensures
        picked_mime(ms) is Some,
        starts_with(picked_mime(ms)->0, "text/plain"@),
{
    let f = first_with_prefix(ms, "text/plain"@);
    if f >= ms.len() {
        lemma_first_with_prefix_le(ms, "text/plain"@, i);
    }
    lemma_first_with_prefix_hit(ms, "text/plain"@);
}

proof fn lemma_first_with_prefix_le(ms: Seq<Seq<char>>, p: Seq<char>, i: int)
    requires
        0 <= i < ms.len(),
        starts_with(ms[i], p),
    ensures
        first_with_prefix(ms, p) <= i,
    decreases ms.len(),
{
    if i > 0 && !starts_with(ms[0], p) {
        assert(ms.drop_first()[i - 1] == ms[i]);
        lemma_first_with_prefix_le(ms.drop_first(), p, i - 1);
    }
}

proof fn lemma_first_with_prefix_hit(ms: Seq<Seq<char>>, p: Seq<char>)
    ensures
        0 <= first_with_prefix(ms, p) <= ms.len(),
        first_with_prefix(ms, p) < ms.len() ==> starts_with(ms[first_with_prefix(ms, p)], p),
    decreases ms.len(),
{
    if ms.len() > 0 && !starts_with(ms[0], p) {
        lemma_first_with_prefix_hit(ms.drop_first(), p);
        let f = first_with_prefix(ms.drop_first(), p);
        if f < ms.len() - 1 {
            assert(ms.drop_first()[f] == ms[f + 1]);
        }
    }
}

/// A clipboard read waiting for the dispatch cycle to flush: the offer it
/// was requested from, the types that offer announced, the type read.
#[derive(Debug, Clone, PartialEq, Eq)]
pub struct PendingRead {
    pub offer: u32,
    pub mimes: Vec<String>,
    pub selected_mime: String,
}

/// An event of the data-control device, offers named by object id.
#[derive(Debug, Clone, Copy, PartialEq, Eq)]
pub enum DeviceEvent {
    /// A new offer is introduced; its types follow.
    DataOffer(u32),
    /// The regular clipboard changed (`None`: it was cleared).
    Selection(Option<u32>),
    /// The primary selection changed.
    PrimarySelection(Option<u32>),
    /// The seat is gone.
    Finished,
}

/// What the caller does for the session, in the order given.
#[derive(Debug, Clone, PartialEq, Eq)]
pub enum SessionAction {
    /// Ask the compositor to write the offer's content in this type to a
    /// pipe (the read is then pending).
    Receive { offer: u32, mime: String },
    /// Destroy a superseded offer.
    Destroy(u32),
    /// End the process (the supervisor restarts it).
    Exit,
}

/// The dispatch state of one clipboard session.
#[derive(Debug)]
pub struct AppState {
    /// Types announced for the offer in flight (reset at each new offer).
    pub pending_mimes: Vec<String>,
    /// The offer in flight, until a selection takes it.
    pub pending_offer: Option<u32>,
    /// The last regular-clipboard offer, destroyed at the next selection.
    pub prev_selection: Option<u32>,
    /// The last primary-selection offer, destroyed at the next one.
    pub prev_primary: Option<u32>,
    /// The read requested this cycle, to be performed after the flush.
    pub pending_pub: Option<PendingRead>,
    /// Regular clipboard changes seen this session.
    pub selection_count: u64,
}

fn copy_strings(v: &Vec<String>) -> (r: Vec<String>)
    ensures
        r@ == v@,
{
    let mut r: Vec<String> = Vec::new();
    let mut i: usize = 0;
    while i < v.len()
        invariant
            i <= v@.len(),
            r@ == v@.take(i as int),
        decreases v.len() - i,
    {
        r.push(v[i].clone());
        i = i + 1;
        assert(r@ == v@.take(i as int));
    }
    assert(v@.take(v@.len() as int) == v@);
    r
}

impl AppState {
    /// A session that has seen nothing.
    pub fn new() -> (s: Self)
        ensures
            s.pending_mimes@.len() == 0,
            s.pending_offer is None,
            s.prev_selection is None,
            s.prev_primary is None,
            s.pending_pub is None,
            s.selection_count == 0,
    {
        AppState {
            pending_mimes: Vec::new(),
            pending_offer: None,
            prev_selection: None,
            prev_primary: None,
            pending_pub: None,
            selection_count: 0,
        }
    }

    /// The offer in flight announced one more type.
    pub fn on_offer_mime(&mut self, mime: String)
        ensures
            final(self).pending_mimes@ == old(self).pending_mimes@.push(mime),
            final(self).pending_offer == old(self).pending_offer,
            final(self).prev_selection == old(self).prev_selection,
            final(self).prev_primary == old(self).prev_primary,
            final(self).pending_pub == old(self).pending_pub,
            final(self).selection_count == old(self).selection_count,
    {
        self.pending_mimes.push(mime);
    }

    /// Handles one device event and returns the actions to perform:
    /// - a new offer resets the announced types and becomes the offer in flight;
    /// - a selection counts one change (when not a clear), requests a read of
    ///   the offer in flight in the picked type, destroys the previous
    ///   selection offer and parks the offer in flight in its place;
    /// - a primary selection destroys the previous primary offer and parks
    ///   the new one;
    /// - the end of the seat ends the process.
    pub fn on_device_event(&mut self, event: DeviceEvent) -> (acts: Vec<SessionAction>)
        requires
            old(self).selection_count < u64::MAX,
        ensures
            match event {
                DeviceEvent::DataOffer(id) => {
                    &&& final(self).pending_mimes@.len() == 0
                    &&& final(self).pending_offer == Some(id)
                    &&& final(self).prev_selection == old(self).prev_selection
                    &&& final(self).prev_primary == old(self).prev_primary
                    &&& final(self).pending_pub == old(self).pending_pub
                    &&& final(self).selection_count == old(self).selection_count
                    &&& acts@.len() == 0
                },
                DeviceEvent::Selection(id) => {
                    let mimes = texts(old(self).pending_mimes@);
                    let reads = id is Some && old(self).pending_offer is Some && picked_mime(mimes) is Some;
                    let destroy = match old(self).prev_selection {
                        Some(o) => seq![SessionAction::Destroy(o)],
                        None => Seq::<SessionAction>::empty(),
                    };
                    &&& reads ==> {
                        &&& acts@.len() == 1 + destroy.len()
                        &&& acts@[0] is Receive
                        &&& acts@[0]->offer == old(self).pending_offer->0
                        &&& acts@[0]->mime@ == picked_mime(mimes)->0
                        &&& acts@.skip(1) == destroy
                        &&& final(self).pending_pub is Some
                        &&& final(self).pending_pub->0.offer == old(self).pending_offer->0
                        &&& final(self).pending_pub->0.mimes@ == old(self).pending_mimes@
                        &&& final(self).pending_pub->0.selected_mime@ == picked_mime(mimes)->0
                    }
                    &&& !reads ==> acts@ == destroy && final(self).pending_pub == old(self).pending_pub
                    &&& final(self).selection_count == old(self).selection_count + (if id is Some { 1int } else { 0int })
                    &&& final(self).prev_selection == old(self).pending_offer
                    &&& final(self).pending_offer is None
                    &&& final(self).pending_mimes@ == old(self).pending_mimes@
                    &&& final(self).prev_primary == old(self).prev_primary
                },
                DeviceEvent::PrimarySelection(id) => {
                    &&& acts@ == match old(self).prev_primary {
                        Some(o) => seq![SessionAction::Destroy(o)],
                        None => Seq::<SessionAction>::empty(),
                    }
                    &&& final(self).prev_primary == id
                    &&& final(self).pending_mimes@ == old(self).pending_mimes@
                    &&& final(self).pending_offer == old(self).pending_offer
                    &&& final(self).prev_selection == old(self).prev_selection
                    &&& final(self).pending_pub == old(self).pending_pub
                    &&& final(self).selection_count == old(self).selection_count
                },
                DeviceEvent::Finished => {
                    &&& acts@ == seq![SessionAction::Exit]
                    &&& final(self).pending_mimes@ == old(self).pending_mimes@
                    &&& final(self).pending_offer == old(self).pending_offer
                    &&& final(self).prev_selection == old(self).prev_selection
                    &&& final(self).prev_primary == old(self).prev_primary
                    &&& final(self).pending_pub == old(self).pending_pub
                    &&& final(self).selection_count == old(self).selection_count
                },
            },
    {
        let mut acts: Vec<SessionAction> = Vec::new();
        match event {
            DeviceEvent::DataOffer(id) => {
                self.pending_mimes.clear();
                self.pending_offer = Some(id);
            },
            DeviceEvent::Selection(id) => {
                if id.is_some() {
                    self.selection_count = self.selection_count + 1;
                    if let Some(offer) = self.pending_offer {
                        if let Some(selected) = pick_mime(&self.pending_mimes) {
                            let mimes = copy_strings(&self.pending_mimes);
                            acts.push(SessionAction::Receive { offer, mime: selected.clone() });
                            self.pending_pub = Some(PendingRead { offer, mimes, selected_mime: selected });
                        }
                    }
                }
                if let Some(old) = self.prev_selection {
                    acts.push(SessionAction::Destroy(old));
                }
                self.prev_selection = self.pending_offer;
                self.pending_offer = None;
            },
            DeviceEvent::PrimarySelection(id) => {
                if let Some(old) = self.prev_primary {
                    acts.push(SessionAction::Destroy(old));
                }
                self.prev_primary = id;
            },
            DeviceEvent::Finished => {
                acts.push(SessionAction::Exit);
            },
        }
        acts
    }
}

impl Default for AppState {
    fn default() -> (s: Self)
        ensures
            s.pending_mimes@.len() == 0,
            s.pending_offer is None,
            s.prev_selection is None,
            s.prev_primary is None,
            s.pending_pub is None,
            s.selection_count == 0,
    {
        AppState::new()
    }
}

} // verus!
