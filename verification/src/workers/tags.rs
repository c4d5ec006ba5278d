//! The operator's workspace tags, as the compositor workers read them: each
//! tag lists its members, and may carry a border colour, a preferred output
//! and a default layout. The first tag (in store order) that lists a
//! workspace owns it.
use vstd::prelude::*;

verus! {

/// One member of a tag.
#[derive(Debug, Clone, PartialEq, Eq)]
pub enum TagMember {
    /// A compositor workspace, by number.
    Workspace { num: i32 },
    /// An application, by app id.
    App { app_id: String },
    /// A mesh peer, by hostname.
    Peer { hostname: String },
}

/// A tag and what the compositor workers read of it.
#[derive(Debug, Clone, PartialEq, Eq)]
pub struct Tag {
    pub name: String,
    pub members: Vec<TagMember>,
    /// Focused-border colour for the tag's workspaces.
    pub group_color: Option<String>,
    /// Output the tag's workspaces are moved to.
    pub preferred_output: Option<String>,
    /// Layout applied to the first window of the tag's workspaces.
    pub default_layout: Option<String>,
}

/// The tags, in store order.
#[derive(Debug, Clone, Default)]
pub struct TagStore {
    pub tags: Vec<Tag>,
}

/// Whether the member list names workspace `ws`.
pub open spec fn lists_workspace(members: Seq<TagMember>, ws: i32) -> bool {
    exists|i: int| 0 <= i < members.len() && #[trigger] members[i] == (TagMember::Workspace { num: ws })
}

/// Position of the first tag that lists workspace `ws`, or the number of tags.
pub open spec fn first_owner(tags: Seq<Tag>, ws: i32) -> int
    decreases tags.len(),
{
    if tags.len() == 0 {
        0
    } else if lists_workspace(tags[0].members@, ws) {
        0
    } else {
        1 + first_owner(tags.drop_first(), ws)
    }
}

proof fn lemma_first_owner(tags: Seq<Tag>, ws: i32, i: int)
    requires
        0 <= i <= tags.len(),
        forall|q: int| 0 <= q < i ==> !lists_workspace(#[trigger] tags[q].members@, ws),
    ensures
        i < tags.len() && lists_workspace(tags[i].members@, ws) ==> first_owner(tags, ws) == i,
        i == tags.len() ==> first_owner(tags, ws) == tags.len(),
    decreases tags.len(),
{
    if tags.len() > 0 {
        let t = tags.drop_first();
        if i > 0 {
            assert forall|q: int| 0 <= q < i - 1 implies !lists_workspace(#[trigger] t[q].members@, ws) by {
                assert(t[q] == tags[q + 1]);
            }
            lemma_first_owner(t, ws, i - 1);
            assert(!lists_workspace(tags[0].members@, ws));
        }
    }
}

/// Whether a member list names workspace `ws`.
fn member_lists_workspace(members: &Vec<TagMember>, ws: i32) -> (b: bool)
    ensures
        b == lists_workspace(members@, ws),
{
    let mut i: usize = 0;
    while i < members.len()
        invariant
            i <= members@.len(),
            forall|q: int| 0 <= q < i ==> #[trigger] members@[q] != (TagMember::Workspace { num: ws }),
        decreases members.len() - i,
    {
        match &members[i] {
            TagMember::Workspace { num } => {
                if *num == ws {
                    return true;
                }
            },
            _ => {},
        }
        i = i + 1;
    }
    false
}

/// The tag that owns workspace `ws_num`: the first, in store order, whose
/// members include that workspace.
pub fn find_owning_tag(store: &TagStore, ws_num: i32) -> (r: Option<&Tag>)
    ensures
        match r {
            Some(t) => first_owner(store.tags@, ws_num) < store.tags@.len() && *t == store.tags@[first_owner(store.tags@, ws_num)],
            None => first_owner(store.tags@, ws_num) == store.tags@.len(),
        },
{
    let mut i: usize = 0;
    while i < store.tags.len()
        invariant
            i <= store.tags@.len(),
            forall|q: int| 0 <= q < i ==> !lists_workspace(#[trigger] store.tags@[q].members@, ws_num),
        decreases store.tags.len() - i,
    {
        if member_lists_workspace(&store.tags[i].members, ws_num) {
            proof {
                lemma_first_owner(store.tags@, ws_num, i as int);
            }
            return Some(&store.tags[i]);
        }
        i = i + 1;
    }
    proof {
        lemma_first_owner(store.tags@, ws_num, i as int);
    }
    None
}

/// The owning tag of workspace `ws`, if any.
pub open spec fn owner_of(store: TagStore, ws: i32) -> Option<Tag> {
    if first_owner(store.tags@, ws) < store.tags@.len() {
        Some(store.tags@[first_owner(store.tags@, ws)])
    } else {
        None
    }
}

} // verus!
