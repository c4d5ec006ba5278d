//! Workspace routing: the compositor command that moves a workspace to an
//! output, with the output name quoted.
use vstd::prelude::*;

use crate::text::{chars_of, owned, push_char, push_signed_decimal, push_str, signed_decimal};
use crate::workers::tags::{TagStore, find_owning_tag, owner_of};

verus! {

/// The workspace router (it holds no state).
#[derive(Debug, Clone, Copy, Default)]
pub struct WorkspaceRouterWorker;

impl WorkspaceRouterWorker {
    /// A new worker.
    pub fn new() -> Self {
        WorkspaceRouterWorker
    }
}

/// The text with each `\` doubled and each `"` preceded by a `\`.
pub open spec fn quote_escape(s: Seq<char>) -> Seq<char>
    decreases s.len(),
{
    if s.len() == 0 {
        s
    } else {
        quote_escape(s.drop_last()) + (if s.last() == '\\' {
            seq!['\\', '\\']
        } else if s.last() == '"' {
            seq!['\\', '"']
        } else {
            seq![s.last()]
        })
    }
}

/// `workspace number <n>; move workspace to output "<escaped output>"`.
pub open spec fn move_command(ws: i32, output: Seq<char>) -> Seq<char> {
    "workspace number "@ + signed_decimal(ws as int) + "; move workspace to output \""@
        + quote_escape(output) + seq!['"']
}

/// The command moving workspace `ws_num` to the output `output_name`.
pub fn move_workspace_command(ws_num: i32, output_name: &str) -> (s: String)
    ensures
        s@ == move_command(ws_num, output_name@),
{
    let mut s = owned("workspace number ");
    push_signed_decimal(&mut s, ws_num as i64);
    push_str(&mut s, "; move workspace to output \"");
    let cs = chars_of(output_name);
    let ghost base = s@;
    let mut i: usize = 0;
    while i < cs.len()
        invariant
            i <= cs.len(),
            s@ == base + quote_escape(cs@.take(i as int)),
        decreases cs.len() - i,
    {
        let c = cs[i];
        assert(cs@.take(i + 1).drop_last() =~= cs@.take(i as int));
        if c == '\\' {
            push_char(&mut s, '\\');
            push_char(&mut s, '\\');
        } else if c == '"' {
            push_char(&mut s, '\\');
            push_char(&mut s, '"');
        } else {
            push_char(&mut s, c);
        }
        assert(s@ =~= base + quote_escape(cs@.take(i + 1)));
        i = i + 1;
    }
    assert(cs@.take(i as int) =~= output_name@);
    push_char(&mut s, '"');
    s
}


/// The output workspace `ws_num` belongs on: its owning tag's preferred
/// output; none without an owning tag or without a preference.
pub fn preferred_output_for_workspace(store: &TagStore, ws_num: i32) -> (r: Option<String>)
    ensures
        match owner_of(*store, ws_num) {
            Some(t) => match t.preferred_output {
                Some(o) => r is Some && r->0@ == o@,
                None => r is None,
            },
            None => r is None,
        },
{
    match find_owning_tag(store, ws_num) {
        Some(t) => match &t.preferred_output {
            Some(o) => Some(o.clone()),
            None => None,
        },
        None => None,
    }
}

} // verus!
