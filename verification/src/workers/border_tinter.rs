//! Focused-border tint: which colours are accepted and the compositor
//! command that paints the focused border.
use vstd::prelude::*;

use crate::text::{chars_of, owned, push_str};
use crate::workers::tags::{TagStore, find_owning_tag, owner_of};

verus! {

/// The focused-border colour without a tag colour.
pub const DEFAULT_FOCUSED_COLOR: &'static str = "#2b9af3";

/// The title text colour on a focused window.
pub const FOCUSED_TEXT_COLOR: &'static str = "#f4f4f4";

/// The border-tint worker (it holds no state).
#[derive(Debug, Clone, Copy, Default)]
pub struct BorderTinterWorker;

impl BorderTinterWorker {
    /// A new worker.
    pub fn new() -> Self {
        BorderTinterWorker
    }
}

/// Whether `c` is an ASCII hex digit.
pub open spec fn is_hex(c: char) -> bool {
    ('0' <= c && c <= '9') || ('a' <= c && c <= 'f') || ('A' <= c && c <= 'F')
}

/// A colour `#` followed by 3, 4, 6 or 8 hex digits.
pub open spec fn valid_hex_color(s: Seq<char>) -> bool {
    let rest = s.drop_first();
    s.len() > 0 && s[0] == '#' && (rest.len() == 3 || rest.len() == 4 || rest.len() == 6 || rest.len()
        == 8) && forall|i: int| 0 <= i < rest.len() ==> is_hex(#[trigger] rest[i])
}

/// Whether a colour is `#rgb`, `#rgba`, `#rrggbb` or `#rrggbbaa`.
pub fn is_valid_hex_color(s: &str) -> (b: bool)
    ensures
        b == valid_hex_color(s@),
{
    let cs = chars_of(s);
    if cs.len() == 0 || cs[0] != '#' {
        return false;
    }
    let n = cs.len() - 1;
    if !(n == 3 || n == 4 || n == 6 || n == 8) {
        return false;
    }
    let mut i: usize = 1;
    while i < cs.len()
        invariant
            1 <= i <= cs.len(),
            cs@ == s@,
            forall|j: int| 1 <= j < i ==> is_hex(#[trigger] cs@[j]),
        decreases cs.len() - i,
    {
        let c = cs[i];
        if !(('0' <= c && c <= '9') || ('a' <= c && c <= 'f') || ('A' <= c && c <= 'F')) {
            assert(s@.drop_first()[i - 1] == c);
            return false;
        }
        i = i + 1;
    }
    assert forall|k: int| 0 <= k < s@.drop_first().len() implies is_hex(#[trigger] s@.drop_first()[k]) by {
        assert(s@.drop_first()[k] == cs@[k + 1]);
    }
    true
}

/// `client.focused <c> <c> <text> <c> <c>`.
pub open spec fn focused_command(c: Seq<char>) -> Seq<char> {
    "client.focused "@ + c + " "@ + c + " "@ + FOCUSED_TEXT_COLOR@ + " "@ + c + " "@ + c
}

/// The compositor command painting the focused border `color`.
pub fn client_focused_command(color: &str) -> (s: String)
    ensures
        s@ == focused_command(color@),
{
    let mut s = owned("client.focused ");
    push_str(&mut s, color);
    push_str(&mut s, " ");
    push_str(&mut s, color);
    push_str(&mut s, " ");
    push_str(&mut s, FOCUSED_TEXT_COLOR);
    push_str(&mut s, " ");
    push_str(&mut s, color);
    push_str(&mut s, " ");
    push_str(&mut s, color);
    s
}


/// The border colour a tag gives its workspaces: its group colour when that
/// is a valid hex colour, else the default.
pub open spec fn tag_color(owner: Option<crate::workers::tags::Tag>) -> Seq<char> {
    match owner {
        Some(t) => match t.group_color {
            Some(c) => if valid_hex_color(c@) { c@ } else { DEFAULT_FOCUSED_COLOR@ },
            None => DEFAULT_FOCUSED_COLOR@,
        },
        None => DEFAULT_FOCUSED_COLOR@,
    }
}

/// The focused-border colour of workspace `ws_num`: its owning tag's
/// colour when set and well-formed, else the default.
pub fn color_for_workspace(store: &TagStore, ws_num: i32) -> (r: String)
    ensures
        r@ == tag_color(owner_of(*store, ws_num)),
{
    match find_owning_tag(store, ws_num) {
        Some(t) => match &t.group_color {
            Some(c) => {
                if is_valid_hex_color(c.as_str()) {
                    c.clone()
                } else {
                    owned(DEFAULT_FOCUSED_COLOR)
                }
            },
            None => owned(DEFAULT_FOCUSED_COLOR),
        },
        None => owned(DEFAULT_FOCUSED_COLOR),
    }
}

} // verus!
