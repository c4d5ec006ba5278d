//! Automatic window marks: a new window without marks gets the bucket its
//! application id belongs to (`editor`, `web`, `shell`, `mail`, `chat`).
use vstd::prelude::*;

use crate::text::{str_eq_str, owned, push_str, push_signed_decimal, signed_decimal};

verus! {

/// The auto-mark worker (it holds no state).
#[derive(Debug, Clone, Copy, Default)]
pub struct AutoMarkWorker;

impl AutoMarkWorker {
    /// A new worker.
    pub fn new() -> Self {
        AutoMarkWorker
    }
}

/// The bucket of an application id, if it has one.
pub open spec fn taxonomy(a: Seq<char>) -> Option<Seq<char>> {
    if a == "helix"@ || a == "code"@ || a == "vim"@ || a == "emacs"@ || a == "nvim"@ || a
        == "kakoune"@ {
        Some("editor"@)
    } else if a == "firefox"@ || a == "chromium"@ || a == "librewolf"@ || a == "qutebrowser"@ || a
        == "brave"@ {
        Some("web"@)
    } else if a == "foot"@ || a == "alacritty"@ || a == "kitty"@ || a == "wezterm"@ || a
        == "ghostty"@ {
        Some("shell"@)
    } else if a == "thunderbird"@ || a == "geary"@ || a == "evolution"@ || a == "mutt"@ {
        Some("mail"@)
    } else if a == "discord"@ || a == "element-desktop"@ || a == "signal-desktop"@ || a
        == "telegram-desktop"@ || a == "slack"@ {
        Some("chat"@)
    } else {
        None
    }
}

fn is_one_of(a: &str, names: &[&str]) -> (b: bool)
    ensures
        b == exists|i: int| 0 <= i < names@.len() && #[trigger] names@[i]@ == a@,
{
    let mut i: usize = 0;
    while i < names.len()
        invariant
            i <= names.len(),
            forall|j: int| 0 <= j < i ==> #[trigger] names@[j]@ != a@,
        decreases names.len() - i,
    {
        if str_eq_str(names[i], a) {
            return true;
        }
        i = i + 1;
    }
    false
}

/// The bucket of an application id.
pub fn taxonomy_for_app_id(app_id: &str) -> (r: Option<&'static str>)
    ensures
        match taxonomy(app_id@) {
            Some(t) => r is Some && r->Some_0@ == t,
            None => r is None,
        },
{
    let editors = ["helix", "code", "vim", "emacs", "nvim", "kakoune"];
    let webs = ["firefox", "chromium", "librewolf", "qutebrowser", "brave"];
    let shells = ["foot", "alacritty", "kitty", "wezterm", "ghostty"];
    let mails = ["thunderbird", "geary", "evolution", "mutt"];
    let chats = ["discord", "element-desktop", "signal-desktop", "telegram-desktop", "slack"];
    let ghost a = app_id@;
    if is_one_of(app_id, &editors) {
        proof {
            let i = choose|i: int| 0 <= i < editors@.len() && #[trigger] editors@[i]@ == a;
            assert(0 <= i < 6);
            if i == 0 {} else if i == 1 {} else if i == 2 {} else if i == 3 {} else if i == 4 {} else {}
        }
        return Some("editor");
    }
    assert(a != "helix"@ && a != "code"@ && a != "vim"@ && a != "emacs"@ && a != "nvim"@ && a != "kakoune"@) by {
        assert(editors@[0]@ == "helix"@ && editors@[1]@ == "code"@ && editors@[2]@ == "vim"@);
        assert(editors@[3]@ == "emacs"@ && editors@[4]@ == "nvim"@ && editors@[5]@ == "kakoune"@);
    }
    if is_one_of(app_id, &webs) {
        proof {
            let i = choose|i: int| 0 <= i < webs@.len() && #[trigger] webs@[i]@ == a;
            if i == 0 {} else if i == 1 {} else if i == 2 {} else if i == 3 {} else {}
        }
        return Some("web");
    }
    assert(a != "firefox"@ && a != "chromium"@ && a != "librewolf"@ && a != "qutebrowser"@ && a != "brave"@) by {
        assert(webs@[0]@ == "firefox"@ && webs@[1]@ == "chromium"@ && webs@[2]@ == "librewolf"@);
        assert(webs@[3]@ == "qutebrowser"@ && webs@[4]@ == "brave"@);
    }
    if is_one_of(app_id, &shells) {
        proof {
            let i = choose|i: int| 0 <= i < shells@.len() && #[trigger] shells@[i]@ == a;
            if i == 0 {} else if i == 1 {} else if i == 2 {} else if i == 3 {} else {}
        }
        return Some("shell");
    }
    assert(a != "foot"@ && a != "alacritty"@ && a != "kitty"@ && a != "wezterm"@ && a != "ghostty"@) by {
        assert(shells@[0]@ == "foot"@ && shells@[1]@ == "alacritty"@ && shells@[2]@ == "kitty"@);
        assert(shells@[3]@ == "wezterm"@ && shells@[4]@ == "ghostty"@);
    }
    if is_one_of(app_id, &mails) {
        proof {
            let i = choose|i: int| 0 <= i < mails@.len() && #[trigger] mails@[i]@ == a;
            if i == 0 {} else if i == 1 {} else if i == 2 {} else {}
        }
        return Some("mail");
    }
    assert(a != "thunderbird"@ && a != "geary"@ && a != "evolution"@ && a != "mutt"@) by {
        assert(mails@[0]@ == "thunderbird"@ && mails@[1]@ == "geary"@);
        assert(mails@[2]@ == "evolution"@ && mails@[3]@ == "mutt"@);
    }
    if is_one_of(app_id, &chats) {
        proof {
            let i = choose|i: int| 0 <= i < chats@.len() && #[trigger] chats@[i]@ == a;
            if i == 0 {} else if i == 1 {} else if i == 2 {} else if i == 3 {} else {}
        }
        return Some("chat");
    }
    assert(a != "discord"@ && a != "element-desktop"@ && a != "signal-desktop"@ && a != "telegram-desktop"@ && a != "slack"@) by {
        assert(chats@[0]@ == "discord"@ && chats@[1]@ == "element-desktop"@ && chats@[2]@ == "signal-desktop"@);
        assert(chats@[3]@ == "telegram-desktop"@ && chats@[4]@ == "slack"@);
    }
    None
}

/// The mark a new window gets: none when it already has marks or no
/// (or an empty) application id; otherwise its id's bucket, if any.
pub fn decide_mark(app_id: Option<&str>, existing_marks: &[String]) -> (r: Option<&'static str>)
    ensures
        existing_marks@.len() > 0 ==> r is None,
        existing_marks@.len() == 0 ==> match app_id {
            None => r is None,
            Some(a) => if a@.len() == 0 {
                r is None
            } else {
                match taxonomy(a@) {
                    Some(t) => r is Some && r->Some_0@ == t,
                    None => r is None,
                }
            },
        },
{
    if existing_marks.len() > 0 {
        return None;
    }
    match app_id {
        None => None,
        Some(a) => {
            if a.is_empty() {
                None
            } else {
                taxonomy_for_app_id(a)
            }
        },
    }
}


/// The compositor command that adds mark `taxonomy` to container `con_id`:
/// `[con_id=<id>] mark --add <taxonomy>`.
pub fn mark_command(con_id: i64, taxonomy: &str) -> (s: String)
    ensures
        s@ == "[con_id="@ + signed_decimal(con_id as int) + "] mark --add "@ + taxonomy@,
{
    let mut s = owned("[con_id=");
    push_signed_decimal(&mut s, con_id);
    push_str(&mut s, "] mark --add ");
    push_str(&mut s, taxonomy);
    s
}

} // verus!
