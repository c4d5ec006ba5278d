//! Which on-screen surfaces a message lights up, by priority: `min` only
//! the silent log, `default` the tray and dock badge, `high` the status
//! strip with a sound, `urgent` the theater takeover, wallpaper stripe and
//! phone push.
use vstd::prelude::*;

use crate::bus::config::Priority;
use crate::bus::persist::StoredMessage;
use crate::text::{owned, str_eq_str, texts};

verus! {

/// The priority a stored priority name stands for; anything unknown counts
/// as `default`.
pub open spec fn priority_of_name(s: Seq<char>) -> Priority {
    if s == "min"@ {
        Priority::Min
    } else if s == "default"@ {
        Priority::Default
    } else if s == "high"@ {
        Priority::High
    } else if s == "urgent"@ {
        Priority::Urgent
    } else {
        Priority::Default
    }
}

/// A priority stored under its lowercase name parses back to itself.
pub proof fn law_priority_name_round_trip(p: Priority)
    ensures
        priority_of_name(crate::bus::persist::priority_name(p)) == p,
{
    reveal_strlit("min");
    reveal_strlit("default");
    reveal_strlit("high");
    reveal_strlit("urgent");
    assert("min"@.len() != "default"@.len() && "min"@[0] != "high"@[0] && "min"@.len() != "urgent"@.len());
    assert("default"@.len() != "high"@.len() && "default"@.len() != "urgent"@.len());
    assert("high"@[0] != "urgent"@[0]);
}

/// Parses a stored priority name; unknown names fall back to `Default`.
pub fn parse_priority(s: &str) -> (p: Priority)
    ensures
        p == priority_of_name(s@),
{
    if str_eq_str(s, "min") {
        Priority::Min
    } else if str_eq_str(s, "default") {
        Priority::Default
    } else if str_eq_str(s, "high") {
        Priority::High
    } else if str_eq_str(s, "urgent") {
        Priority::Urgent
    } else {
        Priority::Default
    }
}

/// The UI surfaces a message can light up. `fired` is the record of every
/// surface call so far: the priority whose surface was lit and the ULID of
/// the message, in call order.
pub trait Surfaces {
    spec fn fired(&self) -> Seq<(Priority, Seq<char>)>;

    /// The silent log (`min`).
    fn log_silent(&mut self, msg: &StoredMessage)
        ensures
            final(self).fired() == old(self).fired().push((Priority::Min, msg.ulid@)),
    ;

    /// The tray and dock badge (`default`).
    fn tray_and_badge(&mut self, msg: &StoredMessage)
        ensures
            final(self).fired() == old(self).fired().push((Priority::Default, msg.ulid@)),
    ;

    /// The status strip and alert sound (`high`).
    fn status_strip_and_sound(&mut self, msg: &StoredMessage)
        ensures
            final(self).fired() == old(self).fired().push((Priority::High, msg.ulid@)),
    ;

    /// The theater takeover, wallpaper stripe and phone push (`urgent`).
    fn theater_wallpaper_phone(&mut self, msg: &StoredMessage)
        ensures
            final(self).fired() == old(self).fired().push((Priority::Urgent, msg.ulid@)),
    ;
}

/// Lights the one surface that the message's priority calls for.
pub fn dispatch<S: Surfaces>(msg: &StoredMessage, surfaces: &mut S)
    ensures
        final(surfaces).fired() == old(surfaces).fired().push(
            (priority_of_name(msg.priority@), msg.ulid@),
        ),
{
    let p = parse_priority(msg.priority.as_str());
    match p {
        Priority::Min => surfaces.log_silent(msg),
        Priority::Default => surfaces.tray_and_badge(msg),
        Priority::High => surfaces.status_strip_and_sound(msg),
        Priority::Urgent => surfaces.theater_wallpaper_phone(msg),
    }
}

/// Surfaces that only note each dispatch; nothing is drawn.
#[derive(Clone, Copy)]
pub struct LogOnlySurfaces {
    noted: Ghost<Seq<(Priority, Seq<char>)>>,
}

impl Default for LogOnlySurfaces {
    fn default() -> (s: Self)
        ensures
            s.fired() == Seq::<(Priority, Seq<char>)>::empty(),
    {
        LogOnlySurfaces { noted: Ghost(Seq::empty()) }
    }
}

impl Surfaces for LogOnlySurfaces {
    closed spec fn fired(&self) -> Seq<(Priority, Seq<char>)> {
        self.noted@
    }

    fn log_silent(&mut self, msg: &StoredMessage) {
        self.noted = Ghost(self.noted@.push((Priority::Min, msg.ulid@)));
    }

    fn tray_and_badge(&mut self, msg: &StoredMessage) {
        self.noted = Ghost(self.noted@.push((Priority::Default, msg.ulid@)));
    }

    fn status_strip_and_sound(&mut self, msg: &StoredMessage) {
        self.noted = Ghost(self.noted@.push((Priority::High, msg.ulid@)));
    }

    fn theater_wallpaper_phone(&mut self, msg: &StoredMessage) {
        self.noted = Ghost(self.noted@.push((Priority::Urgent, msg.ulid@)));
    }
}

/// The ULIDs fired through the surface of priority `p`, in call order.
pub open spec fn ulids_for(f: Seq<(Priority, Seq<char>)>, p: Priority) -> Seq<Seq<char>>
    decreases f.len(),
{
    if f.len() == 0 {
        seq![]
    } else {
        ulids_for(f.drop_last(), p) + (if f.last().0 == p {
            seq![f.last().1]
        } else {
            seq![]
        })
    }
}

/// Each dispatch lands on exactly one surface: recording `(q, u)` adds `u`
/// to the list of the surface of `q` and leaves every other list as it was.
pub proof fn law_one_surface_per_dispatch(
    f: Seq<(Priority, Seq<char>)>,
    q: Priority,
    u: Seq<char>,
    p: Priority,
)
    ensures
        ulids_for(f.push((q, u)), p) == ulids_for(f, p) + (if p == q {
            seq![u]
        } else {
            Seq::<Seq<char>>::empty()
        }),
{
    assert(f.push((q, u)).drop_last() =~= f);
}

/// Surfaces that record every call, for tests.
#[derive(Debug, Clone)]
pub struct RecordingSurfaces {
    calls: Vec<(Priority, String)>,
}

impl Default for RecordingSurfaces {
    fn default() -> (s: Self)
        ensures
            s.fired() == Seq::<(Priority, Seq<char>)>::empty(),
    {
        let s = RecordingSurfaces { calls: Vec::new() };
        assert(s.fired() =~= Seq::<(Priority, Seq<char>)>::empty());
        s
    }
}

impl RecordingSurfaces {
    /// A recorder that has seen nothing.
    pub fn new() -> (s: Self)
        ensures
            s.fired() == Seq::<(Priority, Seq<char>)>::empty(),
    {
        Self::default()
    }

    fn record(&mut self, p: Priority, msg: &StoredMessage)
        ensures
            final(self).fired() == old(self).fired().push((p, msg.ulid@)),
    {
        self.calls.push((p, owned(msg.ulid.as_str())));
        assert(self.fired() =~= old(self).fired().push((p, msg.ulid@)));
    }

    fn ulids(&self, p: Priority) -> (r: Vec<String>)
        ensures
            texts(r@) == ulids_for(self.fired(), p),
    {
        let ghost f = self.fired();
        let mut r: Vec<String> = Vec::new();
        let mut i: usize = 0;
        while i < self.calls.len()
            invariant
                i <= self.calls.len(),
                f == self.fired(),
                texts(r@) == ulids_for(f.take(i as int), p),
            decreases self.calls.len() - i,
        {
            assert(f.take(i + 1).drop_last() =~= f.take(i as int));
            if self.calls[i].0 == p {
                r.push(owned(self.calls[i].1.as_str()));
            }
            assert(texts(r@) =~= ulids_for(f.take(i + 1), p));
            i = i + 1;
        }
        assert(f.take(i as int) =~= f);
        r
    }

    /// The ULIDs sent to the silent log, in call order.
    pub fn log_silent_ulids(&self) -> (r: Vec<String>)
        ensures
            texts(r@) == ulids_for(self.fired(), Priority::Min),
    {
        self.ulids(Priority::Min)
    }

    /// The ULIDs sent to the tray and badge, in call order.
    pub fn tray_and_badge_ulids(&self) -> (r: Vec<String>)
        ensures
            texts(r@) == ulids_for(self.fired(), Priority::Default),
    {
        self.ulids(Priority::Default)
    }

    /// The ULIDs sent to the status strip, in call order.
    pub fn status_strip_and_sound_ulids(&self) -> (r: Vec<String>)
        ensures
            texts(r@) == ulids_for(self.fired(), Priority::High),
    {
        self.ulids(Priority::High)
    }

    /// The ULIDs sent to the theater takeover, in call order.
    pub fn theater_wallpaper_phone_ulids(&self) -> (r: Vec<String>)
        ensures
            texts(r@) == ulids_for(self.fired(), Priority::Urgent),
    {
        self.ulids(Priority::Urgent)
    }
}

impl Surfaces for RecordingSurfaces {
    closed spec fn fired(&self) -> Seq<(Priority, Seq<char>)> {
        self.calls@.map_values(|c: (Priority, String)| (c.0, c.1@))
    }

    fn log_silent(&mut self, msg: &StoredMessage) {
        self.record(Priority::Min, msg);
    }

    fn tray_and_badge(&mut self, msg: &StoredMessage) {
        self.record(Priority::Default, msg);
    }

    fn status_strip_and_sound(&mut self, msg: &StoredMessage) {
        self.record(Priority::High, msg);
    }

    fn theater_wallpaper_phone(&mut self, msg: &StoredMessage) {
        self.record(Priority::Urgent, msg);
    }
}

} // verus!
