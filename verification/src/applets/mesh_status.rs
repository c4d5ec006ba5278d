//! Mesh-status chip: peer count, aggregate health glyph, and the Nebula
//! transport colour and tooltip.
use vstd::prelude::*;

use crate::applets::api::{make_manifest, rerenders, AppletManifest, AppletSlot, HostMessage, APPLET_VERSION};
use crate::text::{chars_eq, chars_of, decimal, owned, push_decimal, push_str};

verus! {

/// The aggregate health report `mded healthz` answers.
#[derive(Debug, Clone)]
pub struct HealthReport {
    pub state: String,
    pub peer_count: u32,
}

/// The state a health report has when none was given.
pub fn default_unknown() -> (r: String)
    ensures
        r@ == "unknown"@,
{
    owned("unknown")
}

impl Default for HealthReport {
    fn default() -> (r: Self)
        ensures
            r.state@ == "unknown"@,
            r.peer_count == 0,
    {
        HealthReport { state: default_unknown(), peer_count: 0 }
    }
}

/// The mesh-status applet's manifest.
pub fn manifest() -> (m: AppletManifest)
    ensures
        m.id.0@ == "mesh-status"@,
        m.binary@ == "mde-applet-mesh-status"@,
        m.slot == AppletSlot::TopBarRight,
        m.summary@ == "Mesh peer-count + aggregate health chip"@,
        m.version@ == APPLET_VERSION@,
{
    make_manifest("mesh-status", "mde-applet-mesh-status", AppletSlot::TopBarRight, "Mesh peer-count + aggregate health chip")
}

/// The health glyph: full, half and empty circles for healthy, degraded and
/// unreachable; `?` otherwise.
pub open spec fn health_glyph_of(state: Seq<char>) -> Seq<char> {
    if state == "healthy"@ {
        "\u{25CF}"@
    } else if state == "degraded"@ {
        "\u{25D0}"@
    } else if state == "unreachable"@ {
        "\u{25CB}"@
    } else {
        "?"@
    }
}

/// Picks the health glyph.
pub fn health_glyph(state: &str) -> (r: &'static str)
    ensures
        r@ == health_glyph_of(state@),
{
    let s = chars_of(state);
    if chars_eq(&s, &chars_of("healthy")) {
        "\u{25CF}"
    } else if chars_eq(&s, &chars_of("degraded")) {
        "\u{25D0}"
    } else if chars_eq(&s, &chars_of("unreachable")) {
        "\u{25CB}"
    } else {
        "?"
    }
}

/// The chip text: the peer count alone.
pub fn format_chip(report: &HealthReport) -> (r: String)
    ensures
        r@ == decimal(report.peer_count as nat),
{
    let mut s = String::new();
    push_decimal(&mut s, report.peer_count as u64);
    s
}

/// The Nebula status surface's snapshot.
#[derive(Debug, Clone, PartialEq, Eq)]
pub struct NebulaStatusSnapshot {
    pub is_lighthouse: bool,
    pub ca_epoch: i64,
    pub peer_count: usize,
    pub mesh_id: String,
    pub active_transport: String,
}

impl Default for NebulaStatusSnapshot {
    fn default() -> (r: Self)
        ensures
            !r.is_lighthouse,
            r.ca_epoch == 0,
            r.peer_count == 0,
            r.mesh_id@.len() == 0,
            r.active_transport@.len() == 0,
    {
        NebulaStatusSnapshot {
            is_lighthouse: false,
            ca_epoch: 0,
            peer_count: 0,
            mesh_id: String::new(),
            active_transport: String::new(),
        }
    }
}

/// The chip colour for the active transport.
#[derive(Debug, Clone, Copy, PartialEq, Eq, Structural)]
pub enum NebulaTransportColor {
    Green,
    Amber,
    Red,
    Grey,
}

/// Transport to colour: direct and KDC-TLS green, lighthouse relay amber,
/// HTTPS-443 fallback red, anything else grey.
pub open spec fn transport_color(active: Seq<char>) -> NebulaTransportColor {
    if active == "nebula_direct"@ {
        NebulaTransportColor::Green
    } else if active == "nebula_lighthouse_relay"@ {
        NebulaTransportColor::Amber
    } else if active == "nebula_https443"@ {
        NebulaTransportColor::Red
    } else if active == "kdc_tls"@ {
        NebulaTransportColor::Green
    } else {
        NebulaTransportColor::Grey
    }
}

/// The hex colour of each transport colour.
pub open spec fn color_hex(c: NebulaTransportColor) -> Seq<char> {
    match c {
        NebulaTransportColor::Green => "#1ac782"@,
        NebulaTransportColor::Amber => "#f1c21b"@,
        NebulaTransportColor::Red => "#da1e28"@,
        NebulaTransportColor::Grey => "#8d8d8d"@,
    }
}

impl NebulaTransportColor {
    /// Maps an active-transport string to its colour.
    pub fn from_transport(active: &str) -> (r: Self)
        ensures
            r == transport_color(active@),
    {
        let a = chars_of(active);
        if chars_eq(&a, &chars_of("nebula_direct")) {
            NebulaTransportColor::Green
        } else if chars_eq(&a, &chars_of("nebula_lighthouse_relay")) {
            NebulaTransportColor::Amber
        } else if chars_eq(&a, &chars_of("nebula_https443")) {
            NebulaTransportColor::Red
        } else if chars_eq(&a, &chars_of("kdc_tls")) {
            NebulaTransportColor::Green
        } else {
            NebulaTransportColor::Grey
        }
    }

    /// The colour as `#rrggbb`.
    pub fn hex(self) -> (r: &'static str)
        ensures
            r@ == color_hex(self),
    {
        match self {
            NebulaTransportColor::Green => "#1ac782",
            NebulaTransportColor::Amber => "#f1c21b",
            NebulaTransportColor::Red => "#da1e28",
            NebulaTransportColor::Grey => "#8d8d8d",
        }
    }
}

/// The tooltip: `<mesh> · <n> peers · <transport>[ · lighthouse]`, where the
/// mesh part is `mesh <id>` or `no mesh` and an empty transport reads
/// `offline`.
pub open spec fn tooltip_of(snap: NebulaStatusSnapshot) -> Seq<char> {
    let mesh = if snap.mesh_id@.len() == 0 {
        "no mesh"@
    } else {
        "mesh "@ + snap.mesh_id@
    };
    let transport = if snap.active_transport@.len() == 0 {
        "offline"@
    } else {
        snap.active_transport@
    };
    let role = if snap.is_lighthouse {
        " · lighthouse"@
    } else {
        ""@
    };
    mesh + " · "@ + decimal(snap.peer_count as nat) + " peers · "@ + transport + role
}

/// Renders the tooltip.
pub fn format_tooltip(snap: &NebulaStatusSnapshot) -> (r: String)
    ensures
        r@ == tooltip_of(*snap),
{
    let mut s = String::new();
    if snap.mesh_id.as_str().is_empty() {
        push_str(&mut s, "no mesh");
    } else {
        push_str(&mut s, "mesh ");
        push_str(&mut s, snap.mesh_id.as_str());
    }
    push_str(&mut s, " · ");
    push_decimal(&mut s, snap.peer_count as u64);
    push_str(&mut s, " peers · ");
    if snap.active_transport.as_str().is_empty() {
        push_str(&mut s, "offline");
    } else {
        push_str(&mut s, snap.active_transport.as_str());
    }
    if snap.is_lighthouse {
        push_str(&mut s, " · lighthouse");
    }
    proof {
        reveal_strlit("");
    }
    s
}

/// Whether the chip carries the lighthouse badge.
pub fn show_lighthouse_badge(snap: &NebulaStatusSnapshot) -> (r: bool)
    ensures
        r == snap.is_lighthouse,
{
    snap.is_lighthouse
}

/// Host messages re-render the chip, except `Shutdown`.
pub fn handle_host(msg: &HostMessage) -> (r: bool)
    ensures
        r == rerenders(*msg),
{
    !matches!(msg, HostMessage::Shutdown)
}

} // verus!
