//! The contract shared by the panel host and every applet binary: applet
//! identifiers, install manifests, panel slots, per-applet state and the
//! host-to-applet message vocabulary.
use vstd::prelude::*;

use crate::text::{chars_of, owned};
use crate::keyed::{Keyed, keys_ascending, keyed_map, upserted_all, upsert_all, law_last_record_wins,
    law_untouched_key_kept};

verus! {

/// The version string every applet manifest carries.
pub const APPLET_VERSION: &'static str = "0.1.0";

/// Stable identifier for an applet (`lowercase-kebab`), also the basename of
/// its install manifest.
#[derive(Debug, Clone, PartialEq, Eq, Hash)]
pub struct AppletId(pub String);

/// Characters an applet id may hold: lowercase ASCII, digits and `-`.
pub open spec fn is_id_char(c: char) -> bool {
    ('a' <= c && c <= 'z') || ('0' <= c && c <= '9') || c == '-'
}

/// Why `AppletId::parse` rejects `s`, in the order the rules are checked;
/// `None` when it accepts it.
pub open spec fn id_rejection(s: &str) -> Option<Seq<char>> {
    if s@.len() == 0 {
        Some("applet id cannot be empty"@)
    } else if s.len() > 64 {
        Some("applet id must be ≤ 64 characters"@)
    } else if !(forall|i: int| 0 <= i < s@.len() ==> is_id_char(#[trigger] s@[i])) {
        Some("applet id may only contain lowercase ASCII, digits, and `-`"@)
    } else {
        None
    }
}

impl AppletId {
    /// An id built from a string without validation.
    pub fn from_static(s: &'static str) -> (r: Self)
        ensures
            r.0@ == s@,
    {
        AppletId(owned(s))
    }

    /// Parses and validates an applet id: non-empty, at most 64 bytes, only
    /// `[a-z0-9-]`.
    #[verifier::loop_isolation(false)]
    pub fn parse(s: &str) -> (r: Result<Self, &'static str>)
        ensures
            match id_rejection(s) {
                Some(msg) => r is Err && r->Err_0@ == msg,
                None => r is Ok && r->Ok_0.0@ == s@,
            },
    {
        if s.is_empty() {
            return Err("applet id cannot be empty");
        }
        if s.len() > 64 {
            return Err("applet id must be ≤ 64 characters");
        }
        let v = chars_of(s);
        let mut i: usize = 0;
        while i < v.len()
            invariant
                i <= v.len(),
                v@ == s@,
                forall|k: int| 0 <= k < i ==> is_id_char(#[trigger] s@[k]),
            decreases v.len() - i,
        {
            let c = v[i];
            if !(('a' <= c && c <= 'z') || ('0' <= c && c <= '9') || c == '-') {
                assert(!is_id_char(s@[i as int]));
                return Err("applet id may only contain lowercase ASCII, digits, and `-`");
            }
            i = i + 1;
        }
        Ok(AppletId(owned(s)))
    }

    /// The bare string form.
    pub fn as_str(&self) -> (r: &str)
        ensures
            r@ == self.0@,
    {
        self.0.as_str()
    }
}

/// One applet install manifest, as the panel host reads it.
#[derive(Debug, Clone, PartialEq, Eq)]
pub struct AppletManifest {
    pub id: AppletId,
    pub binary: String,
    pub slot: AppletSlot,
    pub summary: String,
    pub version: String,
}

/// The panel slot an applet occupies.
#[derive(Debug, Clone, Copy, PartialEq, Eq, Hash, Structural)]
pub enum AppletSlot {
    TopBarLeft,
    TopBarCenter,
    TopBarRight,
    Dock,
    Overlay,
}

/// The kebab-case name of a slot.
pub open spec fn slot_name(slot: AppletSlot) -> Seq<char> {
    match slot {
        AppletSlot::TopBarLeft => "top-bar-left"@,
        AppletSlot::TopBarCenter => "top-bar-center"@,
        AppletSlot::TopBarRight => "top-bar-right"@,
        AppletSlot::Dock => "dock"@,
        AppletSlot::Overlay => "overlay"@,
    }
}

impl AppletSlot {
    /// The stable kebab-case string of the slot.
    pub fn as_str(self) -> (r: &'static str)
        ensures
            r@ == slot_name(self),
    {
        match self {
            AppletSlot::TopBarLeft => "top-bar-left",
            AppletSlot::TopBarCenter => "top-bar-center",
            AppletSlot::TopBarRight => "top-bar-right",
            AppletSlot::Dock => "dock",
            AppletSlot::Overlay => "overlay",
        }
    }
}

/// Per-applet runtime state: whether it renders, and its accent colour.
#[derive(Debug, Clone, Default)]
pub struct AppletState {
    pub active: bool,
    pub accent: String,
}

impl AppletState {
    /// An active state with the given accent.
    pub fn active_with_accent(accent: &str) -> (r: Self)
        ensures
            r.active,
            r.accent@ == accent@,
    {
        AppletState { active: true, accent: owned(accent) }
    }
}

/// Messages the panel host sends to a running applet.
#[derive(Debug, Clone, PartialEq, Eq)]
pub enum HostMessage {
    Accent { color: String },
    Visibility { active: bool },
    Shutdown,
}

/// What every applet answers to a host message: re-render unless the
/// message is the shutdown signal.
pub open spec fn rerenders(msg: HostMessage) -> bool {
    !(msg is Shutdown)
}

/// The interface every applet binary implements.
pub trait Applet: Sized {
    type Message;

    /// Stable identifier — matches the manifest `id`.
    fn id(&self) -> AppletId;

    /// Applies a host message; `true` when the view should re-render.
    fn handle_host(&mut self, msg: HostMessage) -> bool;
}

/// Builds an applet manifest from its parts.
pub fn make_manifest(id: &'static str, binary: &str, slot: AppletSlot, summary: &str) -> (m:
    AppletManifest)
    ensures
        m.id.0@ == id@,
        m.binary@ == binary@,
        m.slot == slot,
        m.summary@ == summary@,
        m.version@ == APPLET_VERSION@,
{
    AppletManifest {
        id: AppletId::from_static(id),
        binary: owned(binary),
        slot,
        summary: owned(summary),
        version: owned(APPLET_VERSION),
    }
}

/// Canonical system-wide applet manifest directory.
pub const SYSTEM_DIR: &'static str = "/usr/share/mde/applets";

/// Per-user applet manifest directory, relative to the data home.
pub const USER_DIR_SUFFIX: &'static str = "mde/applets";

/// Why `validate_manifest` rejects `m`, in the order the rules are checked;
/// `None` when it accepts it.
pub open spec fn manifest_rejection(m: AppletManifest) -> Option<Seq<char>> {
    let id = m.id.0@;
    let bin = m.binary@;
    if id.len() == 0 {
        Some("applet id cannot be empty"@)
    } else if spec_utf8_len(id) as usize > 64 {
        Some("applet id must be ≤ 64 characters"@)
    } else if !(forall|i: int| 0 <= i < id.len() ==> is_id_char(#[trigger] id[i])) {
        Some("applet id may only contain lowercase ASCII, digits, and `-`"@)
    } else if bin.len() == 0 {
        Some("manifest `binary` cannot be empty"@)
    } else if bin.contains('/') || bin.contains(' ') || bin.contains('\n') {
        Some("manifest `binary` must be a bare PATH name (no slashes / whitespace)"@)
    } else if m.version@.len() == 0 {
        Some("manifest `version` cannot be empty"@)
    } else {
        None
    }
}

/// The length in bytes of the UTF-8 encoding of `s`.
pub open spec fn spec_utf8_len(s: Seq<char>) -> nat {
    vstd::utf8::encode_utf8(s).len()
}

/// Validates a candidate manifest: its id must parse, its binary must be a
/// non-empty bare name (no `/`, space or newline) and its version non-empty.
#[verifier::loop_isolation(false)]
pub fn validate_manifest(m: &AppletManifest) -> (r: Result<(), &'static str>)
    ensures
        match manifest_rejection(*m) {
            Some(msg) => r is Err && r->Err_0@ == msg,
            None => r is Ok,
        },
{
    match AppletId::parse(m.id.as_str()) {
        Err(e) => {
            return Err(e);
        },
        Ok(_) => {},
    }
    let b = chars_of(m.binary.as_str());
    if b.len() == 0 {
        return Err("manifest `binary` cannot be empty");
    }
    let mut i: usize = 0;
    while i < b.len()
        invariant
            i <= b.len(),
            b@ == m.binary@,
            forall|k: int| 0 <= k < i ==> b@[k] != '/' && b@[k] != ' ' && b@[k] != '\n',
        decreases b.len() - i,
    {
        if b[i] == '/' || b[i] == ' ' || b[i] == '\n' {
            return Err("manifest `binary` must be a bare PATH name (no slashes / whitespace)");
        }
        i = i + 1;
    }
    if m.version.as_str().is_empty() {
        return Err("manifest `version` cannot be empty");
    }
    Ok(())
}


impl Keyed for AppletManifest {
    open spec fn key(&self) -> Seq<char> {
        self.id.0@
    }

    fn key_str(&self) -> (r: &str) {
        self.id.as_str()
    }
}

/// Takes in the manifests read from one directory, in read order: each one
/// replaces any manifest already held under its id.
pub fn ingest_dir(out: &mut Vec<AppletManifest>, manifests: Vec<AppletManifest>)
    requires
        keys_ascending(old(out)@),
    ensures
        keys_ascending(final(out)@),
        keyed_map(final(out)@) == upserted_all(keyed_map(old(out)@), manifests@),
{
    upsert_all(out, manifests);
}

/// One manifest per id out of the system directory's manifests and then the
/// user directory's, a later one winning over an earlier one with the same
/// id; listed in ascending id order.
pub fn discover(system: Vec<AppletManifest>, user: Vec<AppletManifest>) -> (r: Vec<AppletManifest>)
    ensures
        keys_ascending(r@),
        keyed_map(r@) == upserted_all(upserted_all(Map::empty(), system@), user@),
{
    let mut out: Vec<AppletManifest> = Vec::new();
    assert(keyed_map(out@) =~= Map::<Seq<char>, AppletManifest>::empty());
    ingest_dir(&mut out, system);
    ingest_dir(&mut out, user);
    out
}


/// Discovery: the last user manifest with a given id is the one discovered
/// under that id, whatever the system directory held.
pub proof fn law_user_overrides_system(system: Seq<AppletManifest>, user: Seq<AppletManifest>, i: int)
    requires
        0 <= i < user.len(),
        forall|j: int| i < j < user.len() ==> #[trigger] user[j].key() != user[i].key(),
    ensures
        upserted_all(upserted_all(Map::empty(), system), user).contains_key(user[i].key()),
        upserted_all(upserted_all(Map::empty(), system), user)[user[i].key()] == user[i],
{
    law_last_record_wins(upserted_all(Map::empty(), system), user, i);
}

/// Discovery: an id that no user manifest carries keeps the last system
/// manifest with that id.
pub proof fn law_system_kept_without_override(system: Seq<AppletManifest>, user: Seq<AppletManifest>, i: int)
    requires
        0 <= i < system.len(),
        forall|j: int| i < j < system.len() ==> #[trigger] system[j].key() != system[i].key(),
        forall|j: int| 0 <= j < user.len() ==> #[trigger] user[j].key() != system[i].key(),
    ensures
        upserted_all(upserted_all(Map::empty(), system), user).contains_key(system[i].key()),
        upserted_all(upserted_all(Map::empty(), system), user)[system[i].key()] == system[i],
{
    law_last_record_wins(Map::empty(), system, i);
    law_untouched_key_kept(upserted_all(Map::empty(), system), user, system[i].key());
}

} // verus!
