//! Bottom-bar taskbar: one cell per pinned-but-not-running app, then one
//! cell per open window with focus/urgent/pinned markers.
use vstd::prelude::*;

use crate::applets::api::{make_manifest, rerenders, AppletManifest, AppletSlot, HostMessage, APPLET_VERSION};
use crate::sway::{SwayNode, leaves, leaf_windows};
use crate::text::{
    chars_eq, chars_of, join, owned, push_chars, push_join, push_str, strip_suffix_all,
    strip_suffix_all_exec,
};

verus! {

/// The dock applet's manifest.
pub fn manifest() -> (m: AppletManifest)
    ensures
        m.id.0@ == "dock"@,
        m.binary@ == "mde-applet-dock"@,
        m.slot == AppletSlot::Dock,
        m.summary@ == "Bottom-bar taskbar + pinned-app strip"@,
        m.version@ == APPLET_VERSION@,
{
    make_manifest("dock", "mde-applet-dock", AppletSlot::Dock, "Bottom-bar taskbar + pinned-app strip")
}

/// One open window.
#[derive(Debug, Clone, Default, PartialEq, Eq)]
pub struct DockWindow {
    pub id: u64,
    pub app_id: String,
    pub focused: bool,
    pub urgent: bool,
}

/// One pinned launcher.
#[derive(Debug, Clone, Default, PartialEq, Eq)]
pub struct PinnedApp {
    pub desktop_id: String,
    pub label: String,
}

/// A desktop id without its `.desktop` suffix(es).
pub open spec fn bare_id(desktop_id: Seq<char>) -> Seq<char> {
    strip_suffix_all(desktop_id, ".desktop"@)
}

/// Whether some window runs `app`.
pub open spec fn is_running(windows: Seq<DockWindow>, app: Seq<char>) -> bool {
    exists|i: int| 0 <= i < windows.len() && (#[trigger] windows[i]).app_id@ == app
}

/// Whether `app` is the bare id of some pinned launcher.
pub open spec fn is_pinned(pinned: Seq<PinnedApp>, app: Seq<char>) -> bool {
    exists|i: int| 0 <= i < pinned.len() && bare_id((#[trigger] pinned[i]).desktop_id@) == app
}

/// The cell of a pinned launcher that is not running: `[· <label>]`.
pub open spec fn pinned_cell(p: PinnedApp) -> Seq<char> {
    "[· "@ + p.label@ + "]"@
}

/// The cell of a window: `[<markers> <app>]`, markers `▶` (focused), `!`
/// (urgent), `•` (pinned), or a single space when none applies; an empty
/// app id reads `?`.
pub open spec fn window_cell(w: DockWindow, pinned: Seq<PinnedApp>) -> Seq<char> {
    let m = (if w.focused {
        "▶"@
    } else {
        ""@
    }) + (if w.urgent {
        "!"@
    } else {
        ""@
    }) + (if is_pinned(pinned, w.app_id@) {
        "•"@
    } else {
        ""@
    });
    let markers = if m.len() == 0 {
        " "@
    } else {
        m
    };
    let app = if w.app_id@.len() == 0 {
        "?"@
    } else {
        w.app_id@
    };
    "["@ + markers + " "@ + app + "]"@
}

/// The cell of a pinned launcher, when it is not running.
pub open spec fn pinned_cell_fn(windows: Seq<DockWindow>) -> spec_fn(PinnedApp) -> Option<Seq<char>> {
    |p: PinnedApp|
        if is_running(windows, bare_id(p.desktop_id@)) {
            None
        } else {
            Some(pinned_cell(p))
        }
}

/// All cells, pinned launchers first.
pub open spec fn dock_cells(pinned: Seq<PinnedApp>, windows: Seq<DockWindow>) -> Seq<Seq<char>> {
    pinned.filter_map(pinned_cell_fn(windows)) + windows.map_values(|w: DockWindow| window_cell(w, pinned))
}

/// The dock text: cells joined by spaces, or `(empty dock)`.
pub open spec fn dock_of(pinned: Seq<PinnedApp>, windows: Seq<DockWindow>) -> Seq<char> {
    let cells = dock_cells(pinned, windows);
    if cells.len() == 0 {
        "(empty dock)"@
    } else {
        join(cells, " "@)
    }
}

fn running_exec(windows: &[DockWindow], app: &Vec<char>) -> (r: bool)
    ensures
        r == is_running(windows@, app@),
{
    let mut i: usize = 0;
    while i < windows.len()
        invariant
            i <= windows.len(),
            forall|k: int| 0 <= k < i ==> (#[trigger] windows@[k]).app_id@ != app@,
        decreases windows.len() - i,
    {
        let a = chars_of(windows[i].app_id.as_str());
        if chars_eq(&a, app) {
            return true;
        }
        i = i + 1;
    }
    false
}

fn pinned_exec(pinned: &[PinnedApp], app: &Vec<char>, suf: &Vec<char>) -> (r: bool)
    requires
        suf@ == ".desktop"@,
    ensures
        r == is_pinned(pinned@, app@),
{
    let mut i: usize = 0;
    while i < pinned.len()
        invariant
            i <= pinned.len(),
            suf@ == ".desktop"@,
            forall|k: int| 0 <= k < i ==> bare_id((#[trigger] pinned@[k]).desktop_id@) != app@,
        decreases pinned.len() - i,
    {
        let d = chars_of(pinned[i].desktop_id.as_str());
        let b = strip_suffix_all_exec(&d, suf);
        if chars_eq(&b, app) {
            return true;
        }
        i = i + 1;
    }
    false
}

fn window_cell_exec(w: &DockWindow, pinned: &[PinnedApp], suf: &Vec<char>) -> (r: Vec<char>)
    requires
        suf@ == ".desktop"@,
    ensures
        r@ == window_cell(*w, pinned@),
{
    let mut m = String::new();
    if w.focused {
        push_str(&mut m, "▶");
    }
    if w.urgent {
        push_str(&mut m, "!");
    }
    let app = chars_of(w.app_id.as_str());
    if pinned_exec(pinned, &app, suf) {
        push_str(&mut m, "•");
    }
    proof {
        reveal_strlit("");
    }
    let mut s = String::new();
    push_str(&mut s, "[");
    if m.as_str().is_empty() {
        push_str(&mut s, " ");
    } else {
        push_str(&mut s, m.as_str());
    }
    push_str(&mut s, " ");
    if app.len() == 0 {
        push_str(&mut s, "?");
    } else {
        push_chars(&mut s, &app);
    }
    push_str(&mut s, "]");
    chars_of(s.as_str())
}

/// Renders the dock.
pub fn format_dock(pinned: &[PinnedApp], windows: &[DockWindow]) -> (r: String)
    ensures
        r@ == dock_of(pinned@, windows@),
{
    let suf = chars_of(".desktop");
    let mut cells: Vec<Vec<char>> = Vec::new();
    let mut i: usize = 0;
    while i < pinned.len()
        invariant
            i <= pinned.len(),
            suf@ == ".desktop"@,
            cells@.map_values(|v: Vec<char>| v@) == pinned@.take(i as int).filter_map(pinned_cell_fn(windows@)),
        decreases pinned.len() - i,
    {
        let ghost before = cells@.map_values(|v: Vec<char>| v@);
        let d = chars_of(pinned[i].desktop_id.as_str());
        let b = strip_suffix_all_exec(&d, &suf);
        assert(pinned@.take(i + 1).drop_last() == pinned@.take(i as int));
        assert(pinned@.take(i + 1).last() == pinned@[i as int]);
        if !running_exec(windows, &b) {
            let mut c = String::new();
            push_str(&mut c, "[· ");
            push_str(&mut c, pinned[i].label.as_str());
            push_str(&mut c, "]");
            cells.push(chars_of(c.as_str()));
            assert(cells@.map_values(|v: Vec<char>| v@) == before + seq![pinned_cell(pinned@[i as int])]);
        } else {
            assert(cells@.map_values(|v: Vec<char>| v@) == before);
        }
        i = i + 1;
    }
    assert(pinned@.take(pinned.len() as int) == pinned@);
    let ghost npin = cells@.len();
    let mut j: usize = 0;
    while j < windows.len()
        invariant
            j <= windows.len(),
            suf@ == ".desktop"@,
            cells@.map_values(|v: Vec<char>| v@) == pinned@.filter_map(pinned_cell_fn(windows@)) + windows@.take(
                j as int,
            ).map_values(|w: DockWindow| window_cell(w, pinned@)),
        decreases windows.len() - j,
    {
        let ghost before = cells@.map_values(|v: Vec<char>| v@);
        let c = window_cell_exec(&windows[j], pinned, &suf);
        cells.push(c);
        assert(windows@.take(j + 1).map_values(|w: DockWindow| window_cell(w, pinned@))
            == windows@.take(j as int).map_values(|w: DockWindow| window_cell(w, pinned@)).push(
            window_cell(windows@[j as int], pinned@),
        ));
        assert(cells@.map_values(|v: Vec<char>| v@) == before.push(window_cell(windows@[j as int], pinned@)));
        j = j + 1;
    }
    assert(windows@.take(windows.len() as int) == windows@);
    assert(cells@.map_values(|v: Vec<char>| v@) == dock_cells(pinned@, windows@));
    if cells.len() == 0 {
        return owned("(empty dock)");
    }
    let mut s = String::new();
    push_join(&mut s, &cells, " ");
    s
}

/// Host messages re-render the dock, except `Shutdown`.
pub fn handle_host(msg: &HostMessage) -> (r: bool)
    ensures
        r == rerenders(*msg),
{
    !matches!(msg, HostMessage::Shutdown)
}


/// The running windows of a window tree: one per leaf window (a named
/// `con` without children), in pre-order.
pub fn collect_windows(root: &SwayNode) -> (r: Vec<DockWindow>)
    ensures
        r@.len() == leaves(*root).len(),
        forall|i: int| 0 <= i < r@.len() ==> {
            let l = #[trigger] leaves(*root)[i];
            &&& r@[i].id == l.id
            &&& r@[i].app_id == l.app_id
            &&& r@[i].focused == l.focused
            &&& r@[i].urgent == l.urgent
        },
{
    let ls = leaf_windows(root);
    let mut out: Vec<DockWindow> = Vec::new();
    let mut i: usize = 0;
    while i < ls.len()
        invariant
            i <= ls@.len(),
            ls@ == leaves(*root),
            out@.len() == i,
            forall|k: int| 0 <= k < i ==> {
                let l = #[trigger] ls@[k];
                &&& out@[k].id == l.id
                &&& out@[k].app_id == l.app_id
                &&& out@[k].focused == l.focused
                &&& out@[k].urgent == l.urgent
            },
        decreases ls.len() - i,
    {
        let l = &ls[i];
        out.push(DockWindow { id: l.id, app_id: l.app_id.clone(), focused: l.focused, urgent: l.urgent });
        i = i + 1;
    }
    out
}


/// `str::to_lowercase` of `s`: the Unicode lowercase mapping.
pub uninterp spec fn unicode_lowercase(s: Seq<char>) -> Seq<char>;

/// `str::to_lowercase`. Claimed: the result's text is the named value
/// `unicode_lowercase(s)`, the same for the same input; the Unicode case
/// tables themselves are not stated.
#[verifier::external_body]
fn to_lowercase(s: &str) -> (r: String)
    ensures
        r@ == unicode_lowercase(s@),
{
    s.to_lowercase()
}

/// The dock's launcher icons.
#[derive(Debug, Clone, Copy, PartialEq, Eq, Structural)]
pub enum DockIcon {
    Workbench,
    Files,
    Network,
    Settings,
    Notification,
    /// The generic application glyph.
    Apps,
}

/// Whether `i` is the last position of `c` in `s`.
pub open spec fn is_last_pos(s: Seq<char>, c: char, i: int) -> bool {
    0 <= i < s.len() && s[i] == c && forall|j: int| i < j < s.len() ==> s[j] != c
}

/// `s.rsplit_once('.')`'s left part, or `s` without a `.`.
pub open spec fn before_last_dot(s: Seq<char>) -> Seq<char> {
    if exists|i: int| is_last_pos(s, '.', i) {
        s.take(choose|i: int| is_last_pos(s, '.', i))
    } else {
        s
    }
}

/// The icon of a bare, lowercase app id.
pub open spec fn icon_of(bare: Seq<char>) -> DockIcon {
    if bare == "mde-workbench"@ || bare == "mackes-shell"@ || bare == "mde"@ {
        DockIcon::Workbench
    } else if bare == "mde-files"@ {
        DockIcon::Files
    } else if bare == "nm-connection-editor"@ {
        DockIcon::Network
    } else if bare == "gnome-control-center"@ || bare == "systemsettings"@ {
        DockIcon::Settings
    } else if bare == "notification-daemon"@ {
        DockIcon::Notification
    } else {
        DockIcon::Apps
    }
}

/// The icon for a compositor app id: lowercased, without its last
/// `.`-suffix (`.desktop`), looked up in the launcher table; anything
/// else gets the generic application glyph.
pub fn icon_for_app_id(app_id: &str) -> (r: DockIcon)
    ensures
        r == icon_of(before_last_dot(unicode_lowercase(app_id@))),
{
    let lc = to_lowercase(app_id);
    icon_for_lowercase(lc.as_str())
}

/// The icon for an app id already lowercased: without its last
/// `.`-suffix, looked up in the launcher table.
pub fn icon_for_lowercase(lc: &str) -> (r: DockIcon)
    ensures
        r == icon_of(before_last_dot(lc@)),
{
    let cs = chars_of(lc);
    let mut i: usize = cs.len();
    while i > 0 && cs[i - 1] != '.'
        invariant
            i <= cs@.len(),
            forall|j: int| i <= j < cs@.len() ==> cs@[j] != '.',
        decreases i,
    {
        i = i - 1;
    }
    let bare: Vec<char> = if i > 0 {
        proof {
            assert(is_last_pos(cs@, '.', i - 1));
            assert forall|k: int| is_last_pos(cs@, '.', k) implies k == i - 1 by {
                if k < i - 1 {
                    assert(cs@[i - 1] == '.');
                }
            }
        }
        crate::text::slice_chars(&cs, 0, i - 1)
    } else {
        proof {
            assert forall|k: int| !is_last_pos(cs@, '.', k) by {
                if 0 <= k < cs@.len() && cs@[k] == '.' {
                    assert(k >= i);
                }
            }
        }
        crate::text::slice_chars(&cs, 0, cs.len())
    };
    proof {
        assert(cs@.subrange(0, cs@.len() as int) == cs@);
        assert(bare@ == before_last_dot(lc@));
    }
    if chars_eq(&bare, &chars_of("mde-workbench")) || chars_eq(&bare, &chars_of("mackes-shell"))
        || chars_eq(&bare, &chars_of("mde")) {
        DockIcon::Workbench
    } else if chars_eq(&bare, &chars_of("mde-files")) {
        DockIcon::Files
    } else if chars_eq(&bare, &chars_of("nm-connection-editor")) {
        DockIcon::Network
    } else if chars_eq(&bare, &chars_of("gnome-control-center")) || chars_eq(&bare, &chars_of("systemsettings")) {
        DockIcon::Settings
    } else if chars_eq(&bare, &chars_of("notification-daemon")) {
        DockIcon::Notification
    } else {
        DockIcon::Apps
    }
}

} // verus!
