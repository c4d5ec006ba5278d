//! Audio status chip: default-sink volume and mute state, read from
//! `pactl` output.
use vstd::prelude::*;

use crate::applets::api::{make_manifest, rerenders, AppletManifest, AppletSlot, HostMessage, APPLET_VERSION};
use crate::text::{
    chars_of, decimal, eq_ignore_case, eq_ignore_case_exec, owned, parse_unsigned,
    parse_unsigned_exec, push_decimal, push_str, split_by, split_exec, sum_nat, trim, trim_exec,
    trim_str, words, tokens_exec,
};

verus! {

/// The audio applet's manifest.
pub fn manifest() -> (m: AppletManifest)
    ensures
        m.id.0@ == "audio"@,
        m.binary@ == "mde-applet-audio"@,
        m.slot == AppletSlot::TopBarRight,
        m.summary@ == "Default-sink volume + mute chip"@,
        m.version@ == APPLET_VERSION@,
{
    make_manifest("audio", "mde-applet-audio", AppletSlot::TopBarRight, "Default-sink volume + mute chip")
}

/// Default-sink volume (percent) and mute flag.
#[derive(Debug, Clone, Copy, PartialEq, Eq)]
pub struct AudioState {
    pub volume_pct: u32,
    pub muted: bool,
}

impl Default for AudioState {
    fn default() -> (r: Self)
        ensures
            r.volume_pct == 0,
            !r.muted,
    {
        AudioState { volume_pct: 0, muted: false }
    }
}

/// The percentage a `pactl` volume token carries: a token ending in `%`
/// whose trimmed rest parses as a `u32`.
pub open spec fn pct_of(token: Seq<char>) -> Option<nat> {
    if token.len() > 0 && token.last() == '%' {
        parse_unsigned(trim(token.drop_last()), u32::MAX as nat)
    } else {
        None
    }
}

/// [`pct_of`] as a function value.
pub open spec fn pct_fn() -> spec_fn(Seq<char>) -> Option<nat> {
    |t: Seq<char>| pct_of(t)
}

/// The per-channel percentages in `pactl get-sink-volume` output: the
/// tokens between `/`, `,` and whitespace that [`pct_of`] accepts.
pub open spec fn volume_pcts(raw: Seq<char>) -> Seq<nat> {
    split_by(raw, seq!['/', ','], true).filter_map(pct_fn())
}

/// The average of the channel percentages (integer division), 0 when none.
pub open spec fn volume_of(raw: Seq<char>) -> nat {
    let p = volume_pcts(raw);
    if p.len() == 0 {
        0
    } else {
        sum_nat(p) / p.len()
    }
}

proof fn lemma_prefix_pcts(toks: Seq<Seq<char>>, i: int)
    requires
        0 <= i <= toks.len(),
    ensures
        sum_nat(toks.take(i).filter_map(pct_fn())) <= sum_nat(toks.filter_map(pct_fn())),
        toks.take(i).filter_map(pct_fn()).len() <= toks.filter_map(pct_fn()).len(),
    decreases toks.len() - i,
{
    if i < toks.len() {
        lemma_prefix_pcts(toks.drop_last(), i);
        assert(toks.drop_last().take(i) == toks.take(i));
        assert(toks.take(toks.len() as int) == toks);
        let rest = toks.drop_last().filter_map(pct_fn());
        match pct_fn()(toks.last()) {
            Some(v) => {
                assert((rest + seq![v]).drop_last() == rest);
            },
            None => {},
        }
    } else {
        assert(toks.take(i) == toks);
    }
}

/// The percentage of one volume token.
fn pct_of_exec(t: &[char]) -> (r: Option<u32>)
    ensures
        match pct_of(t@) {
            Some(v) => r == Some(v as u32),
            None => r is None,
        },
{
    if t.len() > 0 && t[t.len() - 1] == '%' {
        let body = crate::text::slice_chars(t, 0, t.len() - 1);
        assert(body@ == t@.drop_last());
        let tr = trim_exec(&body);
        match parse_unsigned_exec(&tr, u32::MAX as u64) {
            Some(v) => Some(v as u32),
            None => None,
        }
    } else {
        None
    }
}

/// Parses `pactl get-sink-volume` output: the average of the per-channel
/// percentages, or 0 when there are none.
pub fn parse_volume(raw: &str) -> (r: u32)
    requires
        sum_nat(volume_pcts(raw@)) <= u32::MAX,
        volume_pcts(raw@).len() <= u32::MAX,
    ensures
        r == volume_of(raw@),
{
    let v = chars_of(raw);
    let seps = vec!['/', ','];
    assert(seps@ == seq!['/', ',']);
    let pieces = split_exec(&v, &seps, true);
    let ghost toks = split_by(raw@, seq!['/', ','], true);
    let mut total: u64 = 0;
    let mut count: u64 = 0;
    let mut i: usize = 0;
    while i < pieces.len()
        invariant
            i <= pieces.len(),
            toks == split_by(raw@, seq!['/', ','], true),
            pieces@.len() == toks.len(),
            forall|k: int| 0 <= k < pieces@.len() ==> #[trigger] pieces@[k]@ == toks[k],
            sum_nat(toks.filter_map(pct_fn())) <= u32::MAX,
            toks.filter_map(pct_fn()).len() <= u32::MAX,
            total == sum_nat(toks.take(i as int).filter_map(pct_fn())),
            count == toks.take(i as int).filter_map(pct_fn()).len(),
        decreases pieces.len() - i,
    {
        let ghost pre = toks.take(i as int);
        assert(toks.take(i + 1).drop_last() == pre);
        assert(toks.take(i + 1).last() == toks[i as int]);
        proof {
            lemma_prefix_pcts(toks, i + 1);
        }
        match pct_of_exec(&pieces[i]) {
            Some(p) => {
                let ghost rest = pre.filter_map(pct_fn());
                assert((rest + seq![p as nat]).drop_last() == rest);
                total = total + p as u64;
                count = count + 1;
            },
            None => {},
        }
        i = i + 1;
    }
    assert(toks.take(pieces.len() as int) == toks);
    if count == 0 {
        0
    } else {
        (total / count) as u32
    }
}

/// Whether `pactl get-sink-mute` output says muted: its last word is `yes`
/// or `true`, ignoring ASCII case.
pub open spec fn muted_of(raw: Seq<char>) -> bool {
    let w = words(trim(raw));
    w.len() > 0 && (eq_ignore_case(w.last(), "yes"@) || eq_ignore_case(w.last(), "true"@))
}

/// Parses `pactl get-sink-mute` output (`Mute: yes` / `Mute: no`).
pub fn parse_mute(raw: &str) -> (r: bool)
    ensures
        r == muted_of(raw@),
{
    let t = trim_str(raw);
    let none: Vec<char> = Vec::new();
    let w = tokens_exec(&t, &none, true);
    assert(none@ == Seq::<char>::empty());
    if w.len() == 0 {
        return false;
    }
    let last = &w[w.len() - 1];
    let yes = chars_of("yes");
    let tru = chars_of("true");
    eq_ignore_case_exec(last, &yes) || eq_ignore_case_exec(last, &tru)
}

/// The glyph for a state: `×` muted, `♪` quiet (below 50 %), `♫` loud.
pub open spec fn audio_glyph_of(state: AudioState) -> Seq<char> {
    if state.muted {
        "\u{00D7}"@
    } else if state.volume_pct == 0 {
        "\u{266A}"@
    } else if state.volume_pct < 50 {
        "\u{266A}"@
    } else {
        "\u{266B}"@
    }
}

/// Picks the glyph for the current state.
pub fn audio_glyph(state: AudioState) -> (r: &'static str)
    ensures
        r@ == audio_glyph_of(state),
{
    if state.muted {
        "\u{00D7}"
    } else if state.volume_pct == 0 {
        "\u{266A}"
    } else if state.volume_pct < 50 {
        "\u{266A}"
    } else {
        "\u{266B}"
    }
}

/// The chip text: `muted`, or the volume followed by `%`.
pub fn format_chip(state: AudioState) -> (r: String)
    ensures
        r@ == (if state.muted {
            "muted"@
        } else {
            decimal(state.volume_pct as nat) + "%"@
        }),
{
    if state.muted {
        owned("muted")
    } else {
        let mut s = String::new();
        push_decimal(&mut s, state.volume_pct as u64);
        push_str(&mut s, "%");
        s
    }
}

/// Host messages re-render the chip, except `Shutdown`.
pub fn handle_host(msg: &HostMessage) -> (r: bool)
    ensures
        r == rerenders(*msg),
{
    !matches!(msg, HostMessage::Shutdown)
}

} // verus!
