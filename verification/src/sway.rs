//! The compositor's container tree as the panel applets and the tag workers
//! read it, and the walks they make over it: the leaf windows in tree
//! order, the workspace that holds a container, a workspace's node, its
//! window count and its layout.
use vstd::prelude::*;

use crate::text::str_eq_str;

verus! {

/// One node of the tree. Absent text fields read as empty, an absent id as 0.
#[derive(Debug)]
pub struct SwayNode {
    pub id: u64,
    /// Node type: `root`, `output`, `workspace`, `con`, `floating_con`.
    pub kind: String,
    pub name: String,
    pub app_id: String,
    pub focused: bool,
    pub urgent: bool,
    /// Workspace number, on workspaces.
    pub num: Option<i32>,
    /// Container layout, lower case (`splith`, `splitv`, `tabbed`, `stacked`, ...).
    pub layout: String,
    pub nodes: Vec<SwayNode>,
    pub floating_nodes: Vec<SwayNode>,
}

/// A leaf window as the applets list it.
#[derive(Debug, Clone, PartialEq, Eq)]
pub struct LeafWindow {
    pub id: u64,
    pub name: String,
    pub app_id: String,
    pub focused: bool,
    pub urgent: bool,
}

/// A window the applets list: a `con` with a name and no children.
pub open spec fn is_leaf_window(n: SwayNode) -> bool {
    n.kind@ == "con"@ && n.name@.len() > 0 && n.nodes@.len() == 0 && n.floating_nodes@.len() == 0
}

pub open spec fn leaf_of(n: SwayNode) -> LeafWindow {
    LeafWindow { id: n.id, name: n.name, app_id: n.app_id, focused: n.focused, urgent: n.urgent }
}

/// The leaf windows under `n`, in pre-order: `n` itself, then its tiled
/// children, then its floating children.
pub open spec fn leaves(n: SwayNode) -> Seq<LeafWindow>
    decreases n, 1nat,
{
    (if is_leaf_window(n) { seq![leaf_of(n)] } else { Seq::empty() })
        + leaves_in(n.nodes@) + leaves_in(n.floating_nodes@)
}

/// The leaf windows under each node of `ns`, in order.
pub open spec fn leaves_in(ns: Seq<SwayNode>) -> Seq<LeafWindow>
    decreases ns, 0nat,
{
    if ns.len() == 0 {
        Seq::empty()
    } else {
        leaves_in(ns.drop_last()) + leaves(ns.last())
    }
}


fn copy_leaf(n: &SwayNode) -> (r: LeafWindow)
    ensures
        r == leaf_of(*n),
{
    LeafWindow { id: n.id, name: n.name.clone(), app_id: n.app_id.clone(), focused: n.focused, urgent: n.urgent }
}

/// Whether the node is a listed leaf window.
pub fn is_leaf_window_exec(n: &SwayNode) -> (b: bool)
    ensures
        b == is_leaf_window(*n),
{
    str_eq_str(n.kind.as_str(), "con") && !n.name.as_str().is_empty() && n.nodes.len() == 0
        && n.floating_nodes.len() == 0
}

/// Appends the leaf windows under `node`, in pre-order.
pub fn push_leaves(node: &SwayNode, out: &mut Vec<LeafWindow>)
    ensures
        final(out)@ == old(out)@ + leaves(*node),
    decreases node,
{
    let ghost start = out@;
    if is_leaf_window_exec(node) {
        out.push(copy_leaf(node));
    }
    let ghost own = out@;
    assert(own == start + (if is_leaf_window(*node) { seq![leaf_of(*node)] } else { Seq::<LeafWindow>::empty() }));
    let mut i: usize = 0;
    while i < node.nodes.len()
        invariant
            i <= node.nodes@.len(),
            out@ == own + leaves_in(node.nodes@.take(i as int)),
        decreases node.nodes.len() - i,
    {
        assert(decreases_to!(*node => node.nodes@[i as int]));
        push_leaves(&node.nodes[i], out);
        proof {
            assert(node.nodes@.take(i + 1).drop_last() == node.nodes@.take(i as int));
            assert(node.nodes@.take(i + 1).last() == node.nodes@[i as int]);
        }
        i = i + 1;
    }
    assert(node.nodes@.take(node.nodes@.len() as int) == node.nodes@);
    let ghost tiled = out@;
    let mut j: usize = 0;
    while j < node.floating_nodes.len()
        invariant
            j <= node.floating_nodes@.len(),
            out@ == tiled + leaves_in(node.floating_nodes@.take(j as int)),
        decreases node.floating_nodes.len() - j,
    {
        assert(decreases_to!(*node => node.floating_nodes@[j as int]));
        push_leaves(&node.floating_nodes[j], out);
        proof {
            assert(node.floating_nodes@.take(j + 1).drop_last() == node.floating_nodes@.take(j as int));
            assert(node.floating_nodes@.take(j + 1).last() == node.floating_nodes@[j as int]);
        }
        j = j + 1;
    }
    assert(node.floating_nodes@.take(node.floating_nodes@.len() as int) == node.floating_nodes@);
    assert(out@ == start + leaves(*node));
}

/// The leaf windows of the tree, in pre-order.
pub fn leaf_windows(root: &SwayNode) -> (r: Vec<LeafWindow>)
    ensures
        r@ == leaves(*root),
{
    let mut out: Vec<LeafWindow> = Vec::new();
    push_leaves(root, &mut out);
    assert(out@ == Seq::<LeafWindow>::empty() + leaves(*root));
    out
}


/// A workspace node.
pub open spec fn is_workspace(n: SwayNode) -> bool {
    n.kind@ == "workspace"@
}

/// Whether container `id` is `n` or lies under it (tiled or floating).
pub open spec fn contains_con(n: SwayNode, id: u64) -> bool
    decreases n, 1nat,
{
    n.id == id || any_contains(n.nodes@, id) || any_contains(n.floating_nodes@, id)
}

/// Whether container `id` lies under some node of `ns`.
pub open spec fn any_contains(ns: Seq<SwayNode>, id: u64) -> bool
    decreases ns, 0nat,
{
    ns.len() > 0 && (any_contains(ns.drop_last(), id) || contains_con(ns.last(), id))
}

/// The number of the workspace holding container `id`: the first
/// workspace, in pre-order over tiled children, that holds it and has a
/// number.
pub open spec fn workspace_num_for(n: SwayNode, id: u64) -> Option<i32>
    decreases n, 1nat,
{
    if is_workspace(n) && contains_con(n, id) {
        n.num
    } else {
        first_workspace_num(n.nodes@, id)
    }
}

/// `workspace_num_for` over the nodes of `ns` in order; the first found.
pub open spec fn first_workspace_num(ns: Seq<SwayNode>, id: u64) -> Option<i32>
    decreases ns, 0nat,
{
    if ns.len() == 0 {
        None
    } else {
        match first_workspace_num(ns.drop_last(), id) {
            Some(x) => Some(x),
            None => workspace_num_for(ns.last(), id),
        }
    }
}

/// The workspace node numbered `ws`: the first in pre-order over tiled children.
pub open spec fn find_workspace(n: SwayNode, ws: i32) -> Option<SwayNode>
    decreases n, 1nat,
{
    if is_workspace(n) && n.num == Some(ws) {
        Some(n)
    } else {
        first_workspace(n.nodes@, ws)
    }
}

/// `find_workspace` over the nodes of `ns` in order; the first found.
pub open spec fn first_workspace(ns: Seq<SwayNode>, ws: i32) -> Option<SwayNode>
    decreases ns, 0nat,
{
    if ns.len() == 0 {
        None
    } else {
        match first_workspace(ns.drop_last(), ws) {
            Some(x) => Some(x),
            None => find_workspace(ns.last(), ws),
        }
    }
}

/// The number of windows under `n`: a childless `con` counts one, any other
/// node the sum over its tiled children.
pub open spec fn count_windows(n: SwayNode) -> nat
    decreases n, 1nat,
{
    if n.kind@ == "con"@ && n.nodes@.len() == 0 {
        1
    } else {
        sum_windows(n.nodes@)
    }
}

/// `count_windows` summed over `ns`.
pub open spec fn sum_windows(ns: Seq<SwayNode>) -> nat
    decreases ns, 0nat,
{
    if ns.len() == 0 {
        0
    } else {
        sum_windows(ns.drop_last()) + count_windows(ns.last())
    }
}

/// `n` capped at `usize::MAX`.
pub open spec fn capped(n: nat) -> usize {
    if n <= usize::MAX { n as usize } else { usize::MAX }
}

/// Whether container `id` is `node` or lies under it.
pub fn contains_con_exec(node: &SwayNode, id: u64) -> (b: bool)
    ensures
        b == contains_con(*node, id),
    decreases node,
{
    if node.id == id {
        return true;
    }
    let mut i: usize = 0;
    while i < node.nodes.len()
        invariant
            i <= node.nodes@.len(),
            node.id != id,
            !any_contains(node.nodes@.take(i as int), id),
        decreases node.nodes.len() - i,
    {
        assert(decreases_to!(*node => node.nodes@[i as int]));
        let hit = contains_con_exec(&node.nodes[i], id);
        proof {
            assert(node.nodes@.take(i + 1).drop_last() == node.nodes@.take(i as int));
            assert(node.nodes@.take(i + 1).last() == node.nodes@[i as int]);
        }
        if hit {
            proof {
                lemma_any_contains_prefix(node.nodes@, id, i + 1);
            }
            return true;
        }
        i = i + 1;
    }
    assert(node.nodes@.take(node.nodes@.len() as int) == node.nodes@);
    let mut j: usize = 0;
    while j < node.floating_nodes.len()
        invariant
            j <= node.floating_nodes@.len(),
            node.id != id,
            !any_contains(node.nodes@, id),
            !any_contains(node.floating_nodes@.take(j as int), id),
        decreases node.floating_nodes.len() - j,
    {
        assert(decreases_to!(*node => node.floating_nodes@[j as int]));
        let hit = contains_con_exec(&node.floating_nodes[j], id);
        proof {
            assert(node.floating_nodes@.take(j + 1).drop_last() == node.floating_nodes@.take(j as int));
            assert(node.floating_nodes@.take(j + 1).last() == node.floating_nodes@[j as int]);
        }
        if hit {
            proof {
                lemma_any_contains_prefix(node.floating_nodes@, id, j + 1);
            }
            return true;
        }
        j = j + 1;
    }
    assert(node.floating_nodes@.take(node.floating_nodes@.len() as int) == node.floating_nodes@);
    false
}

/// A prefix that holds the container makes the whole list hold it.
proof fn lemma_any_contains_prefix(ns: Seq<SwayNode>, id: u64, k: int)
    requires
        0 <= k <= ns.len(),
        any_contains(ns.take(k), id),
    ensures
        any_contains(ns, id),
    decreases ns.len() - k,
{
    if k < ns.len() {
        assert(ns.take(k + 1).drop_last() == ns.take(k));
        lemma_any_contains_prefix(ns, id, k + 1);
    } else {
        assert(ns.take(k) == ns);
    }
}

/// A prefix that finds a workspace number fixes the whole list's answer.
proof fn lemma_first_workspace_num_prefix(ns: Seq<SwayNode>, id: u64, k: int)
    requires
        0 <= k <= ns.len(),
        first_workspace_num(ns.take(k), id) is Some,
    ensures
        first_workspace_num(ns, id) == first_workspace_num(ns.take(k), id),
    decreases ns.len() - k,
{
    if k < ns.len() {
        assert(ns.take(k + 1).drop_last() == ns.take(k));
        lemma_first_workspace_num_prefix(ns, id, k + 1);
    } else {
        assert(ns.take(k) == ns);
    }
}

/// A prefix that finds a workspace fixes the whole list's answer.
proof fn lemma_first_workspace_prefix(ns: Seq<SwayNode>, ws: i32, k: int)
    requires
        0 <= k <= ns.len(),
        first_workspace(ns.take(k), ws) is Some,
    ensures
        first_workspace(ns, ws) == first_workspace(ns.take(k), ws),
    decreases ns.len() - k,
{
    if k < ns.len() {
        assert(ns.take(k + 1).drop_last() == ns.take(k));
        lemma_first_workspace_prefix(ns, ws, k + 1);
    } else {
        assert(ns.take(k) == ns);
    }
}

/// The number of the workspace holding container `id` (see `workspace_num_for`).
pub fn workspace_num_for_con_id(node: &SwayNode, id: u64) -> (r: Option<i32>)
    ensures
        r == workspace_num_for(*node, id),
    decreases node,
{
    if str_eq_str(node.kind.as_str(), "workspace") && contains_con_exec(node, id) {
        return node.num;
    }
    let mut i: usize = 0;
    while i < node.nodes.len()
        invariant
            i <= node.nodes@.len(),
            !(is_workspace(*node) && contains_con(*node, id)),
            first_workspace_num(node.nodes@.take(i as int), id) is None,
        decreases node.nodes.len() - i,
    {
        assert(decreases_to!(*node => node.nodes@[i as int]));
        let found = workspace_num_for_con_id(&node.nodes[i], id);
        proof {
            assert(node.nodes@.take(i + 1).drop_last() == node.nodes@.take(i as int));
            assert(node.nodes@.take(i + 1).last() == node.nodes@[i as int]);
        }
        if found.is_some() {
            proof {
                lemma_first_workspace_num_prefix(node.nodes@, id, i + 1);
            }
            return found;
        }
        i = i + 1;
    }
    assert(node.nodes@.take(node.nodes@.len() as int) == node.nodes@);
    None
}

/// The workspace node numbered `ws` (see `find_workspace`).
pub fn find_workspace_node(node: &SwayNode, ws: i32) -> (r: Option<&SwayNode>)
    ensures
        match find_workspace(*node, ws) {
            Some(w) => r is Some && *r->0 == w,
            None => r is None,
        },
    decreases node,
{
    if str_eq_str(node.kind.as_str(), "workspace") && node.num == Some(ws) {
        return Some(node);
    }
    let mut i: usize = 0;
    while i < node.nodes.len()
        invariant
            i <= node.nodes@.len(),
            !(is_workspace(*node) && node.num == Some(ws)),
            first_workspace(node.nodes@.take(i as int), ws) is None,
        decreases node.nodes.len() - i,
    {
        assert(decreases_to!(*node => node.nodes@[i as int]));
        let found = find_workspace_node(&node.nodes[i], ws);
        proof {
            assert(node.nodes@.take(i + 1).drop_last() == node.nodes@.take(i as int));
            assert(node.nodes@.take(i + 1).last() == node.nodes@[i as int]);
        }
        if found.is_some() {
            proof {
                lemma_first_workspace_prefix(node.nodes@, ws, i + 1);
            }
            return found;
        }
        i = i + 1;
    }
    assert(node.nodes@.take(node.nodes@.len() as int) == node.nodes@);
    None
}

/// The number of windows under `node` (see `count_windows`), capped at
/// `usize::MAX`.
pub fn count_windows_exec(node: &SwayNode) -> (r: usize)
    ensures
        r == capped(count_windows(*node)),
    decreases node,
{
    if str_eq_str(node.kind.as_str(), "con") && node.nodes.len() == 0 {
        return 1;
    }
    let mut total: usize = 0;
    let mut i: usize = 0;
    while i < node.nodes.len()
        invariant
            i <= node.nodes@.len(),
            total == capped(sum_windows(node.nodes@.take(i as int))),
        decreases node.nodes.len() - i,
    {
        assert(decreases_to!(*node => node.nodes@[i as int]));
        let c = count_windows_exec(&node.nodes[i]);
        proof {
            assert(node.nodes@.take(i + 1).drop_last() == node.nodes@.take(i as int));
            assert(node.nodes@.take(i + 1).last() == node.nodes@[i as int]);
        }
        total = total.saturating_add(c);
        i = i + 1;
    }
    assert(node.nodes@.take(node.nodes@.len() as int) == node.nodes@);
    total
}

} // verus!
