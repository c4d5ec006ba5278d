//! Per-tag layouts: the four layout names the compositor knows and the
//! command that applies one.
use vstd::prelude::*;

use crate::text::{owned, push_str, str_eq_str};
use crate::workers::tags::{TagStore, find_owning_tag, owner_of};
use crate::sway::{SwayNode, workspace_num_for, find_workspace, count_windows, capped,
    workspace_num_for_con_id, find_workspace_node, count_windows_exec};

verus! {

/// The tag-layout worker (it holds no state).
#[derive(Debug, Clone, Copy, Default)]
pub struct TagLayoutWorker;

impl TagLayoutWorker {
    /// A new worker.
    pub fn new() -> Self {
        TagLayoutWorker
    }
}

/// Whether `name` is `splith`, `splitv`, `tabbed` or `stacked`.
pub fn is_recognised_layout(name: &str) -> (b: bool)
    ensures
        b == (name@ == "splith"@ || name@ == "splitv"@ || name@ == "tabbed"@ || name@ == "stacked"@),
{
    str_eq_str(name, "splith") || str_eq_str(name, "splitv") || str_eq_str(name, "tabbed")
        || str_eq_str(name, "stacked")
}

/// `layout <name>`.
pub fn layout_command(name: &str) -> (s: String)
    ensures
        s@ == "layout "@ + name@,
{
    let mut s = owned("layout ");
    push_str(&mut s, name);
    s
}


/// Whether a layout name is one of the four the compositor knows.
pub open spec fn recognised(name: Seq<char>) -> bool {
    name == "splith"@ || name == "splitv"@ || name == "tabbed"@ || name == "stacked"@
}

/// The layout to apply when a window opens on workspace `ws` holding
/// `window_count` windows laid out as `current`: the owning tag's default
/// layout, when it is recognised, this is the workspace's first window and
/// the workspace is not already laid out so.
pub open spec fn layout_to_apply(owner: Option<crate::workers::tags::Tag>, window_count: nat, current: Seq<char>) -> Option<Seq<char>> {
    match owner {
        Some(t) => match t.default_layout {
            Some(d) => if recognised(d@) && window_count == 1 && current != d@ { Some(d@) } else { None },
            None => None,
        },
        None => None,
    }
}

/// The command to send when a window opens on workspace `ws_num` (see
/// `layout_to_apply`), if any.
pub fn layout_command_for_new_window(store: &TagStore, ws_num: i32, window_count: usize, current: &str) -> (r: Option<String>)
    ensures
        match layout_to_apply(owner_of(*store, ws_num), window_count as nat, current@) {
            Some(d) => r is Some && r->0@ == "layout "@ + d,
            None => r is None,
        },
{
    let owning = match find_owning_tag(store, ws_num) {
        Some(t) => t,
        None => return None,
    };
    let desired = match &owning.default_layout {
        Some(d) => d,
        None => return None,
    };
    if !is_recognised_layout(desired.as_str()) {
        return None;
    }
    if window_count != 1 {
        return None;
    }
    if str_eq_str(current, desired.as_str()) {
        return None;
    }
    Some(layout_command(desired.as_str()))
}


/// What a new window `con_id` in `tree` calls for: when it lies on a
/// numbered workspace that the tree holds, the layout `layout_to_apply`
/// gives for that workspace's owning tag, window count and layout.
pub open spec fn new_window_layout(store: TagStore, tree: SwayNode, con_id: u64) -> Option<Seq<char>> {
    match workspace_num_for(tree, con_id) {
        None => None,
        Some(ws) => match find_workspace(tree, ws) {
            None => None,
            Some(w) => layout_to_apply(owner_of(store, ws), count_windows(w), w.layout@),
        },
    }
}

/// The layout command for a window that just opened, if any (see
/// `new_window_layout`).
pub fn layout_command_on_new_window(store: &TagStore, tree: &SwayNode, con_id: u64) -> (r: Option<String>)
    ensures
        match new_window_layout(*store, *tree, con_id) {
            Some(d) => r is Some && r->0@ == "layout "@ + d,
            None => r is None,
        },
{
    let ws = match workspace_num_for_con_id(tree, con_id) {
        Some(n) => n,
        None => return None,
    };
    let w = match find_workspace_node(tree, ws) {
        Some(w) => w,
        None => return None,
    };
    let count = count_windows_exec(w);
    assert((count == 1) == (count_windows(*w) == 1));
    layout_command_for_new_window(store, ws, count, w.layout.as_str())
}

} // verus!
