//! Clock and date pill: `YYYY-MM-DD HH:MM` of a UNIX timestamp (UTC).
use vstd::prelude::*;

use crate::applets::api::{make_manifest, rerenders, AppletManifest, AppletSlot, HostMessage, APPLET_VERSION};
use crate::text::{owned, push_str, push_zero_pad, zero_pad, push_signed_zero_pad, signed_zero_pad};
use vstd::arithmetic::div_mod::{lemma_fundamental_div_mod, lemma_fundamental_div_mod_converse};

verus! {

/// The clock applet's manifest.
pub fn manifest() -> (m: AppletManifest)
    ensures
        m.id.0@ == "clock"@,
        m.binary@ == "mde-applet-clock"@,
        m.slot == AppletSlot::TopBarCenter,
        m.summary@ == "Clock + date pill"@,
        m.version@ == APPLET_VERSION@,
{
    make_manifest("clock", "mde-applet-clock", AppletSlot::TopBarCenter, "Clock + date pill")
}

/// The proleptic-Gregorian civil date `(year, month, day)` of a count of
/// days since 1970-01-01, computed with 400-year eras of 146 097 days whose
/// years start on March 1st.
pub open spec fn civil_from_days(days: int) -> (int, int, int) {
    let z = days + 719_468;
    let era = z / 146_097;
    let doe = z - era * 146_097;
    let yoe = (doe - doe / 1460 + doe / 36_524 - doe / 146_096) / 365;
    let y = yoe + era * 400;
    let doy = doe - (365 * yoe + yoe / 4 - yoe / 100);
    let mp = (5 * doy + 2) / 153;
    let d = doy - (153 * mp + 2) / 5 + 1;
    let mo = if mp < 10 { mp + 3 } else { mp - 9 };
    let year = if mo <= 2 { y + 1 } else { y };
    (year, mo, d)
}

/// Converts days since the epoch to `(year, month, day)`; the year is
/// truncated to `i32`.
#[verifier::spinoff_prover]
#[verifier::rlimit(40)]
pub fn days_to_ymd(days: i64) -> (r: (i32, u32, u32))
    requires
        days <= i64::MAX - 719_468,
    ensures
        r.0 == civil_from_days(days as int).0 as i32,
        r.1 == civil_from_days(days as int).1,
        r.2 == civil_from_days(days as int).2,
        1 <= r.1 <= 12,
        1 <= r.2 <= 31,
{
    let z: i128 = days as i128 + 719_468;
    let k: i128 = 64_000_000_000_000;
    let shifted: i128 = z + 146_097 * k;
    let q: i128 = shifted / 146_097;
    let era: i128 = q - k;
    let ghost zi = z as int;
    proof {
        lemma_fundamental_div_mod(shifted as int, 146_097);
        let r = (shifted as int) % 146_097;
        assert(zi == era * 146_097 + r) by (nonlinear_arith)
            requires
                shifted == 146_097 * q + r,
                shifted == zi + 146_097 * k,
                era == q - k,
        {
        }
        lemma_fundamental_div_mod_converse(zi, 146_097, era as int, r);
    }
    let doe_i: i128 = z - era * 146_097;
    assert(0 <= doe_i < 146_097);
    let doe = doe_i as u64;
    let yoe = (doe - doe / 1460 + doe / 36_524 - doe / 146_096) / 365;
    assert(yoe < 400);
    let y: i128 = yoe as i128 + era * 400;
    let doy = doe - (365 * yoe + yoe / 4 - yoe / 100);
    assert(doy < 366);
    let mp = (5 * doy + 2) / 153;
    let d = doy - (153 * mp + 2) / 5 + 1;
    let mo = if mp < 10 { mp + 3 } else { mp - 9 };
    let year: i128 = if mo <= 2 { y + 1 } else { y };
    (year as i32, mo as u32, d as u32)
}

/// The pill text of a positive timestamp.
pub open spec fn clock_text(secs: int) -> Seq<char> {
    let days = secs / 86_400;
    let rem = secs % 86_400;
    let h = rem / 3600;
    let m = (rem % 3600) / 60;
    let ymd = civil_from_days(days);
    signed_zero_pad((ymd.0 as i32) as int, 4) + "-"@ + zero_pad(ymd.1 as nat, 2) + "-"@ + zero_pad(
        ymd.2 as nat,
        2,
    ) + " "@ + zero_pad(h as nat, 2) + ":"@ + zero_pad(m as nat, 2)
}

/// Renders a UNIX timestamp as `YYYY-MM-DD HH:MM`; `--:--` when it is not
/// positive.
pub fn format_clock(secs: i64) -> (r: String)
    ensures
        secs <= 0 ==> r@ == "--:--"@,
        secs > 0 ==> r@ == clock_text(secs as int),
{
    if secs <= 0 {
        return owned("--:--");
    }
    let days = secs / 86_400;
    let rem = secs % 86_400;
    let h = rem / 3600;
    let m = (rem % 3600) / 60;
    let (y, mo, d) = days_to_ymd(days);
    let mut s = String::new();
    push_signed_zero_pad(&mut s, y as i64, 4);
    push_str(&mut s, "-");
    push_zero_pad(&mut s, mo as u64, 2);
    push_str(&mut s, "-");
    push_zero_pad(&mut s, d as u64, 2);
    push_str(&mut s, " ");
    push_zero_pad(&mut s, h as u64, 2);
    push_str(&mut s, ":");
    push_zero_pad(&mut s, m as u64, 2);
    s
}

/// Host messages re-render the pill, except `Shutdown`.
pub fn handle_host(msg: &HostMessage) -> (r: bool)
    ensures
        r == rerenders(*msg),
{
    !matches!(msg, HostMessage::Shutdown)
}

} // verus!
