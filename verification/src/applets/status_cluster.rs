//! Status-cluster pill: battery level, power profile and the mesh fabric
//! glyph.
use vstd::prelude::*;

use crate::applets::api::{make_manifest, rerenders, AppletManifest, AppletSlot, HostMessage, APPLET_VERSION};
use crate::text::{
    chars_eq, chars_of, decimal, owned, parse_unsigned, parse_unsigned_exec, push_chars,
    push_decimal, push_str, string_of, trim, trim_str,
};

verus! {

/// The status-cluster applet's manifest.
pub fn manifest() -> (m: AppletManifest)
    ensures
        m.id.0@ == "status-cluster"@,
        m.binary@ == "mde-applet-status-cluster"@,
        m.slot == AppletSlot::TopBarRight,
        m.summary@ == "Battery + power-profile status pill"@,
        m.version@ == APPLET_VERSION@,
{
    make_manifest("status-cluster", "mde-applet-status-cluster", AppletSlot::TopBarRight, "Battery + power-profile status pill")
}

/// Battery level (percent) and `status` as the kernel reports them.
#[derive(Debug, Clone, Default, PartialEq, Eq)]
pub struct BatteryState {
    pub capacity: u8,
    pub status: String,
}

/// The battery state read from the sysfs `capacity` and `status` files
/// (`None` where a file could not be read): the trimmed capacity parsed as a
/// `u8` (0 when absent or unparseable) and the trimmed status (empty when
/// absent).
pub fn battery_from_files(capacity_file: Option<&str>, status_file: Option<&str>) -> (r:
    BatteryState)
    ensures
        r.capacity == (match capacity_file {
            Some(c) => match parse_unsigned(trim(c@), 255) {
                Some(v) => v,
                None => 0,
            },
            None => 0,
        }),
        r.status@ == (match status_file {
            Some(s) => trim(s@),
            None => Seq::<char>::empty(),
        }),
{
    let capacity: u8 = match capacity_file {
        Some(c) => {
            let t = trim_str(c);
            match parse_unsigned_exec(&t, 255) {
                Some(v) => v as u8,
                None => 0,
            }
        },
        None => 0,
    };
    let status = match status_file {
        Some(s) => {
            let t = trim_str(s);
            string_of(&t)
        },
        None => String::new(),
    };
    BatteryState { capacity, status }
}

/// The battery glyph: fisheye on AC (`Charging`/`Full`), `?` at 0, then
/// small, medium and filled squares below 20, below 80 and above.
pub open spec fn battery_glyph_of(state: BatteryState) -> Seq<char> {
    if state.status@ == "Charging"@ || state.status@ == "Full"@ {
        "\u{25C9}"@
    } else if state.capacity == 0 {
        "?"@
    } else if state.capacity < 20 {
        "\u{25AB}"@
    } else if state.capacity < 80 {
        "\u{25FB}"@
    } else {
        "\u{25A0}"@
    }
}

/// Picks the battery glyph.
pub fn battery_glyph(state: &BatteryState) -> (r: &'static str)
    ensures
        r@ == battery_glyph_of(*state),
{
    let st = chars_of(state.status.as_str());
    if chars_eq(&st, &chars_of("Charging")) || chars_eq(&st, &chars_of("Full")) {
        "\u{25C9}"
    } else if state.capacity == 0 {
        "?"
    } else if state.capacity < 20 {
        "\u{25AB}"
    } else if state.capacity < 80 {
        "\u{25FB}"
    } else {
        "\u{25A0}"
    }
}

/// The pill: `<capacity>%` when there is a battery, then the trimmed profile
/// (after ` · ` when both are present); `AC` when both are absent.
pub open spec fn cluster_of(battery: Option<&BatteryState>, profile: Seq<char>) -> Seq<char> {
    let b = match battery {
        Some(st) => decimal(st.capacity as nat) + "%"@,
        None => Seq::<char>::empty(),
    };
    let p = trim(profile);
    let s = if p.len() > 0 {
        if b.len() > 0 {
            b + " · "@ + p
        } else {
            p
        }
    } else {
        b
    };
    if s.len() == 0 {
        "AC"@
    } else {
        s
    }
}

/// Renders the battery + profile pill.
pub fn format_cluster(battery: Option<&BatteryState>, profile: &str) -> (r: String)
    ensures
        r@ == cluster_of(battery, profile@),
{
    let mut s = String::new();
    let mut nonempty = false;
    match battery {
        Some(b) => {
            push_decimal(&mut s, b.capacity as u64);
            push_str(&mut s, "%");
            nonempty = true;
        },
        None => {},
    }
    let prof = trim_str(profile);
    if prof.len() > 0 {
        if nonempty {
            push_str(&mut s, " · ");
        }
        push_chars(&mut s, &prof);
        nonempty = true;
    }
    if !nonempty {
        push_str(&mut s, "AC");
    }
    s
}

/// The fabric glyph: full dot for a direct or KDC-TLS path, half dot for a
/// lighthouse relay, quarter dot for the HTTPS-443 fallback, hollow dot
/// otherwise.
pub open spec fn fabric_glyph_of(transport: Seq<char>) -> Seq<char> {
    if transport == "nebula_direct"@ || transport == "kdc_tls"@ {
        "\u{25CF}"@
    } else if transport == "nebula_lighthouse_relay"@ {
        "\u{25D0}"@
    } else if transport == "nebula_https443"@ {
        "\u{25D2}"@
    } else {
        "\u{25CB}"@
    }
}

/// Picks the fabric glyph.
pub fn fabric_glyph(transport: &str) -> (r: &'static str)
    ensures
        r@ == fabric_glyph_of(transport@),
{
    let t = chars_of(transport);
    if chars_eq(&t, &chars_of("nebula_direct")) || chars_eq(&t, &chars_of("kdc_tls")) {
        "\u{25CF}"
    } else if chars_eq(&t, &chars_of("nebula_lighthouse_relay")) {
        "\u{25D0}"
    } else if chars_eq(&t, &chars_of("nebula_https443")) {
        "\u{25D2}"
    } else {
        "\u{25CB}"
    }
}

/// Whether `transport` is one the fabric glyph knows: direct, KDC-TLS,
/// lighthouse relay or the HTTPS-443 fallback.
pub open spec fn known_transport(transport: Seq<char>) -> bool {
    transport == "nebula_direct"@ || transport == "kdc_tls"@ || transport == "nebula_lighthouse_relay"@
        || transport == "nebula_https443"@
}

/// The pill prefixed with the fabric glyph and a space when the transport
/// is a known one; for an empty, `offline` or unknown transport the bit is
/// left out.
pub open spec fn cluster_with_fabric_of(
    battery: Option<&BatteryState>,
    profile: Seq<char>,
    transport: Seq<char>,
) -> Seq<char> {
    let base = cluster_of(battery, profile);
    if known_transport(transport) {
        fabric_glyph_of(transport) + " "@ + base
    } else {
        base
    }
}

/// Renders the pill with the fabric glyph.
pub fn format_cluster_with_fabric(
    battery: Option<&BatteryState>,
    profile: &str,
    transport: &str,
) -> (r: String)
    ensures
        r@ == cluster_with_fabric_of(battery, profile@, transport@),
{
    let base = format_cluster(battery, profile);
    let t = chars_of(transport);
    let known = chars_eq(&t, &chars_of("nebula_direct")) || chars_eq(&t, &chars_of("kdc_tls"))
        || chars_eq(&t, &chars_of("nebula_lighthouse_relay")) || chars_eq(&t, &chars_of("nebula_https443"));
    if !known {
        return base;
    }
    let glyph = fabric_glyph(transport);
    let mut s = String::new();
    push_str(&mut s, glyph);
    push_str(&mut s, " ");
    push_str(&mut s, base.as_str());
    s
}

/// Host messages re-render the pill, except `Shutdown`.
pub fn handle_host(msg: &HostMessage) -> (r: bool)
    ensures
        r == rerenders(*msg),
{
    !matches!(msg, HostMessage::Shutdown)
}


/// Which entry of `/sys/class/power_supply` is the battery: the first
/// whose name starts with `BAT`.
pub fn battery_entry(names: &Vec<String>) -> (r: Option<usize>)
    ensures
        match r {
            Some(i) => i < names@.len() && crate::text::starts_with(names@[i as int]@, "BAT"@)
                && forall|k: int| 0 <= k < i ==> !crate::text::starts_with(#[trigger] names@[k]@, "BAT"@),
            None => forall|k: int| 0 <= k < names@.len() ==> !crate::text::starts_with(#[trigger] names@[k]@, "BAT"@),
        },
{
    let mut i: usize = 0;
    while i < names.len()
        invariant
            i <= names@.len(),
            forall|k: int| 0 <= k < i ==> !crate::text::starts_with(#[trigger] names@[k]@, "BAT"@),
        decreases names.len() - i,
    {
        if crate::text::str_starts_with(names[i].as_str(), "BAT") {
            return Some(i);
        }
        i = i + 1;
    }
    None
}

} // verus!
