//! Super+Tab window switcher: one text row per window.
use vstd::prelude::*;

use crate::applets::api::{make_manifest, rerenders, AppletManifest, AppletSlot, HostMessage, APPLET_VERSION};
use crate::text::{chars_of, join, owned, push_chars, push_join, push_str, slice_chars};
use crate::sway::{SwayNode, leaves, leaf_windows};

verus! {

/// The app-switcher applet's manifest.
pub fn manifest() -> (m: AppletManifest)
    ensures
        m.id.0@ == "app-switcher"@,
        m.binary@ == "mde-applet-app-switcher"@,
        m.slot == AppletSlot::Overlay,
        m.summary@ == "Super+Tab window switcher"@,
        m.version@ == APPLET_VERSION@,
{
    make_manifest("app-switcher", "mde-applet-app-switcher", AppletSlot::Overlay, "Super+Tab window switcher")
}

/// One window of the compositor tree.
#[derive(Debug, Clone, Default, PartialEq, Eq)]
pub struct WindowRow {
    pub id: u64,
    pub name: String,
    pub app_id: String,
    pub focused: bool,
}

/// One switcher row: `▶` or a space, the app id (`?` when empty), ` · ` and
/// the first 48 characters of the window name.
pub open spec fn row_text(w: WindowRow) -> Seq<char> {
    let marker = if w.focused {
        "▶"@
    } else {
        " "@
    };
    let app = if w.app_id@.len() == 0 {
        "?"@
    } else {
        w.app_id@
    };
    let name = if w.name@.len() <= 48 {
        w.name@
    } else {
        w.name@.take(48)
    };
    marker + " "@ + app + " · "@ + name
}

fn row_exec(w: &WindowRow) -> (r: Vec<char>)
    ensures
        r@ == row_text(*w),
{
    let mut s = String::new();
    if w.focused {
        push_str(&mut s, "▶");
    } else {
        push_str(&mut s, " ");
    }
    push_str(&mut s, " ");
    if w.app_id.as_str().is_empty() {
        push_str(&mut s, "?");
    } else {
        push_str(&mut s, w.app_id.as_str());
    }
    push_str(&mut s, " · ");
    let name = chars_of(w.name.as_str());
    let n = if name.len() <= 48 {
        name.len()
    } else {
        48
    };
    let head = slice_chars(&name, 0, n);
    assert(name@.subrange(0, name@.len() as int) == name@);
    push_chars(&mut s, &head);
    chars_of(s.as_str())
}

/// A row's name part is cut to the window name's first 48 characters: the
/// row is the marker, the app id and ` · ` followed by exactly
/// min(name length, 48) characters, and those are the name's first ones.
pub proof fn law_row_name_is_first_48_chars(w: WindowRow)
    ensures
        ({
            let head = (if w.focused {
                "▶"@
            } else {
                " "@
            }) + " "@ + (if w.app_id@.len() == 0 {
                "?"@
            } else {
                w.app_id@
            }) + " · "@;
            let n: int = if w.name@.len() <= 48 {
                w.name@.len() as int
            } else {
                48
            };
            &&& row_text(w).len() == head.len() + n
            &&& row_text(w).take(head.len() as int) == head
            &&& forall|i: int| 0 <= i < n ==> #[trigger] row_text(w)[head.len() + i] == w.name@[i]
        }),
{
    let head = (if w.focused {
        "▶"@
    } else {
        " "@
    }) + " "@ + (if w.app_id@.len() == 0 {
        "?"@
    } else {
        w.app_id@
    }) + " · "@;
    assert(row_text(w).take(head.len() as int) =~= head);
}

/// The switcher strip: the rows joined by newlines, or `(no windows)`.
pub open spec fn strip_of(rows: Seq<WindowRow>) -> Seq<char> {
    if rows.len() == 0 {
        "(no windows)"@
    } else {
        join(rows.map_values(|w: WindowRow| row_text(w)), "\n"@)
    }
}

/// The strip has one line per window, in order: with no windows it reads
/// `(no windows)`; one window gives its row; one more window adds a newline
/// and its row to the strip of the others.
pub proof fn law_strip_is_rows_by_line(rows: Seq<WindowRow>, w: WindowRow)
    ensures
        strip_of(Seq::empty()) == "(no windows)"@,
        strip_of(seq![w]) == row_text(w),
        rows.len() > 0 ==> strip_of(rows.push(w)) == strip_of(rows) + "\n"@ + row_text(w),
{
    let one = seq![w].map_values(|x: WindowRow| row_text(x));
    assert(one.len() == 1 && one[0] == row_text(w));
    if rows.len() > 0 {
        let all = rows.push(w).map_values(|x: WindowRow| row_text(x));
        assert(all.drop_last() =~= rows.map_values(|x: WindowRow| row_text(x)));
        assert(all.last() == row_text(w));
    }
}

/// Renders the switcher strip.
pub fn format_strip(rows: &[WindowRow]) -> (r: String)
    ensures
        r@ == strip_of(rows@),
{
    if rows.len() == 0 {
        return owned("(no windows)");
    }
    let mut parts: Vec<Vec<char>> = Vec::new();
    let mut i: usize = 0;
    while i < rows.len()
        invariant
            i <= rows.len(),
            parts@.len() == i,
            forall|k: int| 0 <= k < i ==> #[trigger] parts@[k]@ == row_text(rows@[k]),
        decreases rows.len() - i,
    {
        parts.push(row_exec(&rows[i]));
        i = i + 1;
    }
    let mut s = String::new();
    push_join(&mut s, &parts, "\n");
    assert(parts@.map_values(|v: Vec<char>| v@) == rows@.map_values(|w: WindowRow| row_text(w)));
    s
}

/// Host messages re-render the strip, except `Shutdown`.
pub fn handle_host(msg: &HostMessage) -> (r: bool)
    ensures
        r == rerenders(*msg),
{
    !matches!(msg, HostMessage::Shutdown)
}


/// The switcher rows of a window tree: one per leaf window (a named `con`
/// without children), in pre-order.
pub fn collect_windows(root: &SwayNode) -> (r: Vec<WindowRow>)
    ensures
        r@.len() == leaves(*root).len(),
        forall|i: int| 0 <= i < r@.len() ==> {
            let l = #[trigger] leaves(*root)[i];
            &&& r@[i].id == l.id
            &&& r@[i].name == l.name
            &&& r@[i].app_id == l.app_id
            &&& r@[i].focused == l.focused
        },
{
    let ls = leaf_windows(root);
    let mut out: Vec<WindowRow> = Vec::new();
    let mut i: usize = 0;
    while i < ls.len()
        invariant
            i <= ls@.len(),
            ls@ == leaves(*root),
            out@.len() == i,
            forall|k: int| 0 <= k < i ==> {
                let l = #[trigger] ls@[k];
                &&& out@[k].id == l.id
                &&& out@[k].name == l.name
                &&& out@[k].app_id == l.app_id
                &&& out@[k].focused == l.focused
            },
        decreases ls.len() - i,
    {
        let l = &ls[i];
        out.push(WindowRow { id: l.id, name: l.name.clone(), app_id: l.app_id.clone(), focused: l.focused });
        i = i + 1;
    }
    out
}

} // verus!
