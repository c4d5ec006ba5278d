//! Do-not-disturb: one mesh-wide toggle plus per-topic quiet hours decide
//! whether a message is kept off the display surfaces. A message tagged
//! `override=dnd` always gets through.
use std::time::Duration;

use vstd::prelude::*;

use crate::workers::time::{secs, duration_from_secs};
use crate::text::{chars_of, parse_unsigned, parse_unsigned_exec, split_once, split_once_exec, str_eq_str};

verus! {

/// The mesh-wide do-not-disturb state.
#[derive(Debug, Clone, PartialEq, Eq)]
pub struct DndState {
    pub active: bool,
    /// When the toggle was last flipped, in ms since the epoch.
    pub since_unix_ms: i64,
    /// The peer that flipped it.
    pub set_by_peer: String,
}

impl Default for DndState {
    /// DND off, never toggled.
    fn default() -> (s: Self)
        ensures
            !s.active,
            s.since_unix_ms == 0,
            s.set_by_peer@ == Seq::<char>::empty(),
    {
        DndState { active: false, since_unix_ms: 0, set_by_peer: String::new() }
    }
}

/// A topic's quiet-hour window, in seconds of the local day. With
/// `quiet_after < quiet_until` the window lies within one day; with
/// `quiet_after > quiet_until` it wraps midnight.
#[derive(Debug, Clone, Copy, PartialEq, Eq)]
pub struct TopicQuietHours {
    pub quiet_after: Option<u32>,
    pub quiet_until: Option<u32>,
}

impl Default for TopicQuietHours {
    /// No window.
    fn default() -> (h: Self)
        ensures
            h.quiet_after is None,
            h.quiet_until is None,
    {
        TopicQuietHours { quiet_after: None, quiet_until: None }
    }
}

/// Whether `now` falls in the window: never without both bounds or with
/// equal bounds; `[after, until)` for a same-day window; at or after
/// `after`, or before `until`, for one that wraps midnight.
pub open spec fn quiet_at(now: u32, hours: TopicQuietHours) -> bool {
    match (hours.quiet_after, hours.quiet_until) {
        (Some(after), Some(until)) => if after == until {
            false
        } else if after < until {
            after <= now && now < until
        } else {
            now >= after || now < until
        },
        _ => false,
    }
}

/// A window that wraps midnight is quiet exactly when the same-day window
/// with the bounds swapped is not.
pub proof fn law_overnight_is_complement(now: u32, after: u32, until: u32)
    requires
        after != until,
    ensures
        quiet_at(now, TopicQuietHours { quiet_after: Some(after), quiet_until: Some(until) })
            == !quiet_at(now, TopicQuietHours { quiet_after: Some(until), quiet_until: Some(after) }),
{
}

/// Whether the seconds-of-day `now_local_seconds` lies in the window.
pub fn is_quiet_hour(now_local_seconds: u32, hours: TopicQuietHours) -> (b: bool)
    ensures
        b == quiet_at(now_local_seconds, hours),
{
    match (hours.quiet_after, hours.quiet_until) {
        (Some(after), Some(until)) => {
            if after == until {
                false
            } else if after < until {
                now_local_seconds >= after && now_local_seconds < until
            } else {
                now_local_seconds >= after || now_local_seconds < until
            }
        },
        _ => false,
    }
}

/// Whether a tag list carries the emergency bypass `override=dnd`.
pub open spec fn has_override(tags: Seq<&str>) -> bool {
    exists|i: int| 0 <= i < tags.len() && #[trigger] tags[i]@ == "override=dnd"@
}

/// A message is kept off the surfaces unless it carries the bypass tag, when
/// DND is on or its topic is in quiet hours.
pub open spec fn suppressed(state: DndState, hours: TopicQuietHours, tags: Seq<&str>, now: u32) -> bool {
    !has_override(tags) && (state.active || quiet_at(now, hours))
}

/// The bypass tag always gets a message through; without it, an active
/// toggle keeps every message off the surfaces whatever the quiet hours,
/// and with the toggle off only the topic's window decides.
pub proof fn law_suppression_order(state: DndState, hours: TopicQuietHours, tags: Seq<&str>, now: u32)
    ensures
        has_override(tags) ==> !suppressed(state, hours, tags, now),
        !has_override(tags) && state.active ==> suppressed(state, hours, tags, now),
        !has_override(tags) && !state.active ==> suppressed(state, hours, tags, now) == quiet_at(
            now,
            hours,
        ),
{
}

/// Whether a message is kept off the display surfaces (it is stored and
/// audited either way).
pub fn is_suppressed(
    state: &DndState,
    topic_hours: TopicQuietHours,
    tags: &[&str],
    now_local_seconds: u32,
) -> (b: bool)
    ensures
        b == suppressed(*state, topic_hours, tags@, now_local_seconds),
{
    let mut i: usize = 0;
    while i < tags.len()
        invariant
            i <= tags.len(),
            forall|j: int| 0 <= j < i ==> #[trigger] tags@[j]@ != "override=dnd"@,
        decreases tags.len() - i,
    {
        if str_eq_str(tags[i], "override=dnd") {
            return false;
        }
        i = i + 1;
    }
    if state.active {
        return true;
    }
    is_quiet_hour(now_local_seconds, topic_hours)
}

/// The seconds of day an `HH:MM` text names: two `u32` numbers around the
/// first `:`, the hour below 24 and the minute below 60.
pub open spec fn hhmm_seconds(s: Seq<char>) -> Option<nat> {
    match split_once(s, ':') {
        None => None,
        Some(p) => match (parse_unsigned(p.0, u32::MAX as nat), parse_unsigned(p.1, u32::MAX as nat)) {
            (Some(h), Some(m)) => if h < 24 && m < 60 {
                Some(h * 3600 + m * 60)
            } else {
                None
            },
            _ => None,
        },
    }
}

/// Parses `HH:MM` (24-hour) into seconds of the day.
pub fn parse_hhmm(s: &str) -> (r: Option<u32>)
    ensures
        match hhmm_seconds(s@) {
            Some(v) => r == Some(v as u32),
            None => r is None,
        },
{
    let cs = chars_of(s);
    match split_once_exec(&cs, ':') {
        None => None,
        Some((hs, ms)) => {
            let h = parse_unsigned_exec(&hs, 0xffff_ffff);
            let m = parse_unsigned_exec(&ms, 0xffff_ffff);
            match (h, m) {
                (Some(h), Some(m)) => {
                    if h >= 24 || m >= 60 {
                        None
                    } else {
                        Some((h * 3600 + m * 60) as u32)
                    }
                },
                _ => None,
            }
        },
    }
}

/// What one poll of the DND file did.
#[derive(Debug, Clone, Copy, PartialEq, Eq)]
pub enum DndTickOutcome {
    /// No file; the cached state stays.
    FileMissing,
    /// The modification time did not advance.
    Idle,
    /// New content, published to subscribers.
    Reloaded,
    /// The time advanced but the content is the same.
    Unchanged,
    /// Reading or parsing failed; the cached state stays.
    ReadOrParseFailed,
}


/// The watcher's poll cadence, in seconds.
pub const DEFAULT_WATCH_TICK_SECS: u64 = 1;

/// Whether two states are the same (the peer compared by text).
pub open spec fn same_state(a: DndState, b: DndState) -> bool {
    a.active == b.active && a.since_unix_ms == b.since_unix_ms && a.set_by_peer@ == b.set_by_peer@
}

/// What a poll does after looking at the file's metadata.
#[derive(Debug, Clone, Copy, PartialEq, Eq)]
pub enum PollStep {
    /// No file: the outcome is `FileMissing`.
    FileMissing,
    /// Nothing to read: the outcome is `Idle`.
    Idle,
    /// The file changed: read and parse it, then call `on_content`.
    Read,
}

/// The DND file watcher's state: the cadence, the state subscribers see,
/// and the last modification time seen (nanoseconds since the epoch).
pub struct DndWatcher {
    pub tick_interval: Duration,
    pub current: DndState,
    pub last_mtime: Option<u128>,
}

impl DndWatcher {
    /// A watcher publishing `initial` (what the file held at start, or the
    /// default), polling every second, with no modification time seen.
    pub fn new(initial: DndState) -> (w: Self)
        ensures
            w.tick_interval == duration_from_secs(DEFAULT_WATCH_TICK_SECS),
            w.current == initial,
            w.last_mtime is None,
    {
        DndWatcher { tick_interval: secs(DEFAULT_WATCH_TICK_SECS), current: initial, last_mtime: None }
    }

    /// The same watcher with another cadence.
    pub fn with_tick_interval(self, interval: Duration) -> (w: Self)
        ensures
            w.tick_interval == interval,
            w.current == self.current,
            w.last_mtime == self.last_mtime,
    {
        DndWatcher { tick_interval: interval, ..self }
    }

    /// The first half of a poll: a missing file changes nothing; an
    /// unreadable modification time means idle; otherwise the time is
    /// remembered, and the file is read only when the time advanced (or
    /// none was seen before).
    pub fn on_mtime(&mut self, exists: bool, mtime: Option<u128>) -> (r: PollStep)
        ensures
            final(self).current == old(self).current,
            final(self).tick_interval == old(self).tick_interval,
            !exists ==> r == PollStep::FileMissing && final(self).last_mtime == old(self).last_mtime,
            exists && mtime is None ==> r == PollStep::Idle && final(self).last_mtime == old(self).last_mtime,
            exists && mtime is Some ==> {
                &&& final(self).last_mtime == mtime
                &&& r == (if old(self).last_mtime is None || mtime->0 > old(self).last_mtime->0 {
                    PollStep::Read
                } else {
                    PollStep::Idle
                })
            },
    {
        if !exists {
            return PollStep::FileMissing;
        }
        let now = match mtime {
            Some(t) => t,
            None => return PollStep::Idle,
        };
        let advanced = match self.last_mtime {
            None => true,
            Some(last) => now > last,
        };
        self.last_mtime = Some(now);
        if advanced {
            PollStep::Read
        } else {
            PollStep::Idle
        }
    }

    /// The second half of a poll: a read or parse failure keeps the state;
    /// new content is published (`Reloaded`), the same content is not
    /// (`Unchanged`).
    pub fn on_content(&mut self, parsed: Option<DndState>) -> (r: DndTickOutcome)
        ensures
            final(self).tick_interval == old(self).tick_interval,
            final(self).last_mtime == old(self).last_mtime,
            match parsed {
                None => r == DndTickOutcome::ReadOrParseFailed && final(self).current == old(self).current,
                Some(s) => if same_state(old(self).current, s) {
                    r == DndTickOutcome::Unchanged && final(self).current == old(self).current
                } else {
                    r == DndTickOutcome::Reloaded && final(self).current == s
                },
            },
    {
        match parsed {
            None => DndTickOutcome::ReadOrParseFailed,
            Some(s) => {
                let same = self.current.active == s.active && self.current.since_unix_ms == s.since_unix_ms
                    && str_eq_str(self.current.set_by_peer.as_str(), s.set_by_peer.as_str());
                if same {
                    DndTickOutcome::Unchanged
                } else {
                    self.current = s;
                    DndTickOutcome::Reloaded
                }
            },
        }
    }
}

} // verus!
