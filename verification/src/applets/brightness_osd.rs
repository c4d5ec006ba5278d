//! Brightness on-screen display: glyph, block bar and level.
use vstd::prelude::*;

use crate::applets::api::{make_manifest, rerenders, AppletManifest, AppletSlot, HostMessage, APPLET_VERSION};
use crate::applets::osd::{bar, push_bar, round_div};
use crate::text::{decimal, push_decimal, push_str};

verus! {

/// Cells in the OSD bar.
pub const BAR_WIDTH: usize = 20;

/// The brightness OSD manifest.
pub fn manifest() -> (m: AppletManifest)
    ensures
        m.id.0@ == "brightness-osd"@,
        m.binary@ == "mde-applet-brightness-osd"@,
        m.slot == AppletSlot::Overlay,
        m.summary@ == "Brightness OSD overlay"@,
        m.version@ == APPLET_VERSION@,
{
    make_manifest("brightness-osd", "mde-applet-brightness-osd", AppletSlot::Overlay, "Brightness OSD overlay")
}

/// The brightness glyph: small sun below 33 %, medium below 66 %, bright
/// above.
pub open spec fn brightness_glyph_of(pct: u32) -> Seq<char> {
    if pct < 33 {
        "\u{263C}"@
    } else if pct < 66 {
        "\u{2600}"@
    } else {
        "\u{1F506}"@
    }
}

/// Picks the brightness glyph.
pub fn brightness_glyph(pct: u32) -> (r: &'static str)
    ensures
        r@ == brightness_glyph_of(pct),
{
    if pct < 33 {
        "\u{263C}"
    } else if pct < 66 {
        "\u{2600}"
    } else {
        "\u{1F506}"
    }
}

/// The brightness OSD text for a level clamped to 100:
/// `<glyph>  <bar>  <level>%`, the bar filled to the nearest cell.
pub open spec fn brightness_osd_of(pct: u32) -> Seq<char> {
    let c = if pct < 100 { pct as nat } else { 100 };
    brightness_glyph_of(pct) + "  "@ + bar(round_div((c * BAR_WIDTH) as nat, 100)) + "  "@ + decimal(c) + "%"@
}

/// Renders the brightness OSD.
pub fn format_osd(pct: u32) -> (r: String)
    ensures
        r@ == brightness_osd_of(pct),
{
    let clamped: u32 = if pct < 100 { pct } else { 100 };
    let filled: usize = ((2 * clamped as usize * BAR_WIDTH + 100) / 200) as usize;
    let mut s = String::new();
    push_str(&mut s, brightness_glyph(pct));
    push_str(&mut s, "  ");
    push_bar(&mut s, filled);
    push_str(&mut s, "  ");
    push_decimal(&mut s, clamped as u64);
    push_str(&mut s, "%");
    s
}

/// Host messages re-render the OSD, except `Shutdown`.
pub fn handle_host(msg: &HostMessage) -> (r: bool)
    ensures
        r == rerenders(*msg),
{
    !matches!(msg, HostMessage::Shutdown)
}

} // verus!
