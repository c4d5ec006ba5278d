//! NetworkManager status chip: the first activated wifi/ethernet
//! connection from `nmcli -t` output, or `Disconnected`.
use vstd::prelude::*;

use crate::applets::api::{make_manifest, rerenders, AppletManifest, AppletSlot, HostMessage, APPLET_VERSION};
use crate::text::{
    chars_eq, chars_of, join, lines, lines_str, owned, push_str, split_char, split_exec,
    string_of,
};

verus! {

/// The network applet's manifest.
pub fn manifest() -> (m: AppletManifest)
    ensures
        m.id.0@ == "network"@,
        m.binary@ == "mde-applet-network"@,
        m.slot == AppletSlot::TopBarRight,
        m.summary@ == "NetworkManager active-connection chip"@,
        m.version@ == APPLET_VERSION@,
{
    make_manifest("network", "mde-applet-network", AppletSlot::TopBarRight, "NetworkManager active-connection chip")
}

/// An active NetworkManager connection: its name and type.
#[derive(Debug, Clone, Default, PartialEq, Eq)]
pub struct ActiveConnection {
    pub name: String,
    pub kind: String,
}

/// Connection types that count as a real interface.
pub open spec fn real_kind(kind: Seq<char>) -> bool {
    kind == "wifi"@ || kind == "802-11-wireless"@ || kind == "802-3-ethernet"@ || kind
        == "ethernet"@
}

/// The connection a `name:type:device:state` line describes when its state
/// (everything after the third `:`) is `activated` and its type is real.
pub open spec fn line_connection(line: Seq<char>) -> Option<(Seq<char>, Seq<char>)> {
    let p = split_char(line, ':');
    if p.len() >= 4 && join(p.skip(3), seq![':']) == "activated"@ && real_kind(p[1]) {
        Some((p[0], p[1]))
    } else {
        None
    }
}

proof fn lemma_join_has_sep(parts: Seq<Seq<char>>, sep: char)
    requires
        parts.len() >= 2,
    ensures
        join(parts, seq![sep]).contains(sep),
    decreases parts.len(),
{
    let j = join(parts.drop_last(), seq![sep]);
    assert((j + seq![sep] + parts.last())[j.len() as int] == sep);
}

proof fn lemma_activated_no_colon()
    ensures
        !"activated"@.contains(':'),
{
    reveal_strlit("activated");
}

/// Whether the state field `p[3..]` (joined by `:`) equals `activated`.
fn state_is_activated(p: &Vec<Vec<char>>, act: &Vec<char>) -> (r: bool)
    requires
        p@.len() >= 4,
        act@ == "activated"@,
    ensures
        r == (join(p@.map_values(|v: Vec<char>| v@).skip(3), seq![':']) == "activated"@),
{
    let ghost ps = p@.map_values(|v: Vec<char>| v@);
    if p.len() == 4 {
        assert(ps.skip(3) == seq![ps[3]]);
        chars_eq(&p[3], act)
    } else {
        proof {
            lemma_join_has_sep(ps.skip(3), ':');
            lemma_activated_no_colon();
        }
        false
    }
}

/// Whether a connection type is a real interface (wifi or ethernet).
pub fn is_real_iface_kind(kind: &str) -> (r: bool)
    ensures
        r == real_kind(kind@),
{
    let k = chars_of(kind);
    chars_eq(&k, &chars_of("wifi")) || chars_eq(&k, &chars_of("802-11-wireless")) || chars_eq(
        &k,
        &chars_of("802-3-ethernet"),
    ) || chars_eq(&k, &chars_of("ethernet"))
}

fn is_real_kind_chars(k: &Vec<char>) -> (r: bool)
    ensures
        r == real_kind(k@),
{
    chars_eq(k, &chars_of("wifi")) || chars_eq(k, &chars_of("802-11-wireless")) || chars_eq(
        k,
        &chars_of("802-3-ethernet"),
    ) || chars_eq(k, &chars_of("ethernet"))
}

/// The connection of one line, as computed.
fn line_connection_exec(line: &Vec<char>) -> (r: Option<(Vec<char>, Vec<char>)>)
    ensures
        match line_connection(line@) {
            Some(c) => r is Some && r->Some_0.0@ == c.0 && r->Some_0.1@ == c.1,
            None => r is None,
        },
{
    let colon = vec![':'];
    assert(colon@ == seq![':']);
    let p = split_exec(line, &colon, false);
    let ghost sp = split_char(line@, ':');
    assert(p@.map_values(|v: Vec<char>| v@) == sp);
    if p.len() < 4 {
        return None;
    }
    let act = chars_of("activated");
    if !state_is_activated(&p, &act) {
        return None;
    }
    if !is_real_kind_chars(&p[1]) {
        return None;
    }
    let name = crate::text::slice_chars(&p[0], 0, p[0].len());
    let kind = crate::text::slice_chars(&p[1], 0, p[1].len());
    assert(p@[0]@.subrange(0, p@[0]@.len() as int) == p@[0]@);
    assert(p@[1]@.subrange(0, p@[1]@.len() as int) == p@[1]@);
    Some((name, kind))
}

/// Parses `nmcli -t -f NAME,TYPE,DEVICE,STATE connection show --active`:
/// the first line that describes an activated wifi or ethernet connection.
pub fn parse_active(raw: &str) -> (r: Option<ActiveConnection>)
    ensures
        match r {
            Some(c) => exists|i: int|
                0 <= i < lines(raw@).len() && line_connection(#[trigger] lines(raw@)[i]) == Some(
                    (c.name@, c.kind@),
                ) && forall|j: int| 0 <= j < i ==> line_connection(#[trigger] lines(raw@)[j]) is None,
            None => forall|i: int|
                0 <= i < lines(raw@).len() ==> line_connection(#[trigger] lines(raw@)[i]) is None,
        },
{
    let ls = lines_str(raw);
    let mut i: usize = 0;
    while i < ls.len()
        invariant
            i <= ls.len(),
            ls@.len() == lines(raw@).len(),
            forall|k: int| 0 <= k < ls@.len() ==> #[trigger] ls@[k]@ == lines(raw@)[k],
            forall|j: int| 0 <= j < i ==> line_connection(#[trigger] lines(raw@)[j]) is None,
        decreases ls.len() - i,
    {
        assert(ls@[i as int]@ == lines(raw@)[i as int]);
        match line_connection_exec(&ls[i]) {
            Some((name, kind)) => {
                return Some(ActiveConnection { name: string_of(&name), kind: string_of(&kind) });
            },
            None => {},
        }
        i = i + 1;
    }
    None
}

/// The type glyph: a circle for wifi, `≡` for ethernet, `?` otherwise.
pub open spec fn type_glyph_of(kind: Seq<char>) -> Seq<char> {
    if kind == "wifi"@ || kind == "802-11-wireless"@ {
        "\u{25EF}"@
    } else if kind == "802-3-ethernet"@ || kind == "ethernet"@ {
        "\u{2261}"@
    } else {
        "?"@
    }
}

/// Picks the glyph for a connection type.
pub fn type_glyph(kind: &str) -> (r: &'static str)
    ensures
        r@ == type_glyph_of(kind@),
{
    let k = chars_of(kind);
    if chars_eq(&k, &chars_of("wifi")) || chars_eq(&k, &chars_of("802-11-wireless")) {
        "\u{25EF}"
    } else if chars_eq(&k, &chars_of("802-3-ethernet")) || chars_eq(&k, &chars_of("ethernet")) {
        "\u{2261}"
    } else {
        "?"
    }
}

/// The chip text: the connection's name, or `Disconnected`.
pub open spec fn chip_of(conn: Option<&ActiveConnection>) -> Seq<char> {
    match conn {
        Some(c) => c.name@,
        None => "Disconnected"@,
    }
}

/// Renders the chip.
pub fn format_chip(conn: Option<&ActiveConnection>) -> (r: String)
    ensures
        r@ == chip_of(conn),
{
    match conn {
        Some(c) => c.name.clone(),
        None => owned("Disconnected"),
    }
}

/// Seconds after a reconnect during which the chip shows the reconnect
/// suffix.
pub const RECONNECT_TOAST_SECONDS: u32 = 5;

/// Renders the chip, suffixed with ` · Reconnecting mesh…` while a
/// reconnect is at most [`RECONNECT_TOAST_SECONDS`] old.
pub fn format_chip_with_reconnect(
    conn: Option<&ActiveConnection>,
    seconds_since_reconnect: Option<u32>,
) -> (r: String)
    ensures
        r@ == (match seconds_since_reconnect {
            Some(sec) => if sec <= RECONNECT_TOAST_SECONDS {
                chip_of(conn) + " · Reconnecting mesh…"@
            } else {
                chip_of(conn)
            },
            None => chip_of(conn),
        }),
{
    let mut base = format_chip(conn);
    match seconds_since_reconnect {
        Some(sec) => {
            if sec <= RECONNECT_TOAST_SECONDS {
                push_str(&mut base, " · Reconnecting mesh…");
            }
        },
        None => {},
    }
    base
}

/// Host messages re-render the chip, except `Shutdown`.
pub fn handle_host(msg: &HostMessage) -> (r: bool)
    ensures
        r == rerenders(*msg),
{
    !matches!(msg, HostMessage::Shutdown)
}

} // verus!
