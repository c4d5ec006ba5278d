//! Volume on-screen display: glyph, block bar and level or `muted`.
use vstd::prelude::*;

use crate::applets::api::{make_manifest, rerenders, AppletManifest, AppletSlot, HostMessage, APPLET_VERSION};
use crate::applets::osd::{bar, push_bar, round_div};
use crate::text::{decimal, push_decimal, push_str};

verus! {

/// Cells in the OSD bar.
pub const BAR_WIDTH: usize = 20;

/// The volume OSD manifest.
pub fn manifest() -> (m: AppletManifest)
    ensures
        m.id.0@ == "volume-osd"@,
        m.binary@ == "mde-applet-volume-osd"@,
        m.slot == AppletSlot::Overlay,
        m.summary@ == "Volume OSD overlay"@,
        m.version@ == APPLET_VERSION@,
{
    make_manifest("volume-osd", "mde-applet-volume-osd", AppletSlot::Overlay, "Volume OSD overlay")
}

/// The volume glyph: muted speaker, speaker without waves at 0 %, one wave
/// below 50 %, three waves above.
pub open spec fn volume_glyph_of(pct: u32, muted: bool) -> Seq<char> {
    if muted {
        "\u{1F507}"@
    } else if pct == 0 {
        "\u{1F508}"@
    } else if pct < 50 {
        "\u{1F509}"@
    } else {
        "\u{1F50A}"@
    }
}

/// Picks the volume glyph.
pub fn volume_glyph(pct: u32, muted: bool) -> (r: &'static str)
    ensures
        r@ == volume_glyph_of(pct, muted),
{
    if muted {
        "\u{1F507}"
    } else if pct == 0 {
        "\u{1F508}"
    } else if pct < 50 {
        "\u{1F509}"
    } else {
        "\u{1F50A}"
    }
}

/// The volume OSD text for a level clamped to 150: the bar (150 % is a full
/// bar), then `muted` or the level with `%`.
pub open spec fn volume_osd_of(pct: u32, muted: bool) -> Seq<char> {
    let c = if pct < 150 { pct as nat } else { 150 };
    volume_glyph_of(pct, muted) + "  "@ + bar(round_div((c * BAR_WIDTH) as nat, 150)) + "  "@ + (if muted {
        "muted"@
    } else {
        decimal(c) + "%"@
    })
}

/// Renders the volume OSD.
pub fn format_osd(pct: u32, muted: bool) -> (r: String)
    ensures
        r@ == volume_osd_of(pct, muted),
{
    let clamped: u32 = if pct < 150 { pct } else { 150 };
    let filled: usize = ((2 * clamped as usize * BAR_WIDTH + 150) / 300) as usize;
    let mut s = String::new();
    push_str(&mut s, volume_glyph(pct, muted));
    push_str(&mut s, "  ");
    push_bar(&mut s, filled);
    push_str(&mut s, "  ");
    if muted {
        push_str(&mut s, "muted");
    } else {
        push_decimal(&mut s, clamped as u64);
        push_str(&mut s, "%");
    }
    s
}

/// Host messages re-render the OSD, except `Shutdown`.
pub fn handle_host(msg: &HostMessage) -> (r: bool)
    ensures
        r == rerenders(*msg),
{
    !matches!(msg, HostMessage::Shutdown)
}

} // verus!
