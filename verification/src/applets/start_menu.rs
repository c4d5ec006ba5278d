//! Start-menu popover: `.desktop` parsing, the pinned list, search, the
//! alphabetical all-apps pane and the pinned pane.
use vstd::prelude::*;

use crate::applets::api::{make_manifest, rerenders, AppletManifest, AppletSlot, HostMessage, APPLET_VERSION};
use crate::text::{
    chars_eq, chars_le, chars_of, contains, contains_exec, decimal, eq_ignore_case,
    eq_ignore_case_exec, lines, lines_str, lower, lower_exec, push_decimal, push_str, seq_le,
    split_char, split_exec, split_once, split_once_exec, string_of, trim, trim_exec, trim_str,
};

verus! {

/// The start-menu applet's manifest.
pub fn manifest() -> (m: AppletManifest)
    ensures
        m.id.0@ == "start-menu"@,
        m.binary@ == "mde-applet-start-menu"@,
        m.slot == AppletSlot::Overlay,
        m.summary@ == "Win10 Start popover — pinned + all apps + search"@,
        m.version@ == APPLET_VERSION@,
{
    make_manifest("start-menu", "mde-applet-start-menu", AppletSlot::Overlay, "Win10 Start popover — pinned + all apps + search")
}

/// One launcher parsed from a `.desktop` file.
#[derive(Debug, Clone, Default, PartialEq, Eq)]
pub struct AppEntry {
    pub id: String,
    pub name: String,
    pub comment: String,
    pub exec_cmd: String,
    pub icon: String,
    pub categories: Vec<String>,
    pub hidden: bool,
}

/// The value of an [`AppEntry`].
pub ghost struct EntryView {
    pub id: Seq<char>,
    pub name: Seq<char>,
    pub comment: Seq<char>,
    pub exec_cmd: Seq<char>,
    pub icon: Seq<char>,
    pub categories: Seq<Seq<char>>,
    pub hidden: bool,
}

/// The value of an entry.
pub open spec fn entry_view(e: AppEntry) -> EntryView {
    EntryView {
        id: e.id@,
        name: e.name@,
        comment: e.comment@,
        exec_cmd: e.exec_cmd@,
        icon: e.icon@,
        categories: e.categories@.map_values(|c: String| c@),
        hidden: e.hidden,
    }
}

/// A row of the pinned list.
#[derive(Debug, Clone, PartialEq, Eq)]
pub struct PinnedRow {
    pub desktop_id: String,
    pub pane: PinnedPane,
}

/// The pane a pinned row belongs to.
#[derive(Debug, Clone, Copy, PartialEq, Eq, Structural)]
pub enum PinnedPane {
    Pinned,
    All,
}

/// The parse state of a `.desktop` file: the entry so far and whether the
/// current section is `[Desktop Entry]`.
pub ghost struct DesktopState {
    pub entry: EntryView,
    pub in_main: bool,
}

/// Non-blank pieces after trimming.
pub open spec fn trimmed_nonempty() -> spec_fn(Seq<char>) -> bool {
    |c: Seq<char>| trim(c).len() > 0
}

/// The categories of a `Categories=` value: the `;`-separated pieces that
/// are not blank, trimmed.
pub open spec fn categories_of(value: Seq<char>) -> Seq<Seq<char>> {
    split_char(value, ';').filter(trimmed_nonempty()).map_values(|c: Seq<char>| trim(c))
}

/// One line of a `.desktop` file applied to the parse state: blank and
/// comment lines are skipped, a `[section]` header switches sections, and
/// inside `[Desktop Entry]` a `key=value` line sets `Name`, `Comment`,
/// `Exec`, `Icon` (trimmed value), `Categories`, or hides the entry when
/// `NoDisplay`/`Hidden` is `true` (any ASCII case).
pub open spec fn desktop_step(st: DesktopState, line: Seq<char>) -> DesktopState {
    let t = trim(line);
    if t.len() == 0 || t[0] == '#' {
        st
    } else if t[0] == '[' && t.last() == ']' {
        DesktopState { in_main: t == "[Desktop Entry]"@, ..st }
    } else if !st.in_main {
        st
    } else {
        match split_once(t, '=') {
            None => st,
            Some(kv) => {
                let key = trim(kv.0);
                let value = kv.1;
                let e = st.entry;
                if key == "Name"@ {
                    DesktopState { entry: EntryView { name: trim(value), ..e }, ..st }
                } else if key == "Comment"@ {
                    DesktopState { entry: EntryView { comment: trim(value), ..e }, ..st }
                } else if key == "Exec"@ {
                    DesktopState { entry: EntryView { exec_cmd: trim(value), ..e }, ..st }
                } else if key == "Icon"@ {
                    DesktopState { entry: EntryView { icon: trim(value), ..e }, ..st }
                } else if key == "Categories"@ {
                    DesktopState { entry: EntryView { categories: categories_of(value), ..e }, ..st }
                } else if (key == "NoDisplay"@ || key == "Hidden"@) && eq_ignore_case(
                    trim(value),
                    "true"@,
                ) {
                    DesktopState { entry: EntryView { hidden: true, ..e }, ..st }
                } else {
                    st
                }
            },
        }
    }
}

/// The state after the given lines, starting from an empty entry with id
/// `id` outside any section.
pub open spec fn desktop_fold(id: Seq<char>, ls: Seq<Seq<char>>) -> DesktopState
    decreases ls.len(),
{
    if ls.len() == 0 {
        DesktopState {
            entry: EntryView {
                id,
                name: Seq::empty(),
                comment: Seq::empty(),
                exec_cmd: Seq::empty(),
                icon: Seq::empty(),
                categories: Seq::empty(),
                hidden: false,
            },
            in_main: false,
        }
    } else {
        desktop_step(desktop_fold(id, ls.drop_last()), ls.last())
    }
}

fn categories_exec(value: &Vec<char>) -> (r: Vec<String>)
    ensures
        r@.map_values(|c: String| c@) == categories_of(value@),
{
    let semi = vec![';'];
    assert(semi@ == seq![';']);
    let pieces = split_exec(value, &semi, false);
    let ghost sp = split_char(value@, ';');
    let mut r: Vec<String> = Vec::new();
    let mut i: usize = 0;
    while i < pieces.len()
        invariant
            i <= pieces.len(),
            sp == split_char(value@, ';'),
            pieces@.len() == sp.len(),
            forall|k: int| 0 <= k < pieces@.len() ==> #[trigger] pieces@[k]@ == sp[k],
            r@.map_values(|c: String| c@) == sp.take(i as int).filter(trimmed_nonempty()).map_values(
                |c: Seq<char>| trim(c),
            ),
        decreases pieces.len() - i,
    {
        let ghost before = r@.map_values(|c: String| c@);
        assert(sp.take(i + 1) == sp.take(i as int).push(sp[i as int]));
        proof {
            sp.take(i as int).lemma_filter_push(sp[i as int], trimmed_nonempty());
        }
        let t = trim_exec(&pieces[i]);
        if t.len() > 0 {
            r.push(string_of(&t));
            assert(r@.map_values(|c: String| c@) == before.push(trim(sp[i as int])));
        }
        i = i + 1;
    }
    assert(sp.take(pieces.len() as int) == sp);
    r
}

/// Parses a `.desktop` file into an entry with the given id.
pub fn parse_desktop_file(base: &str, raw: &str) -> (e: AppEntry)
    ensures
        entry_view(e) == desktop_fold(base@, lines(raw@)).entry,
{
    let mut e = AppEntry {
        id: string_of(&chars_of(base)),
        name: String::new(),
        comment: String::new(),
        exec_cmd: String::new(),
        icon: String::new(),
        categories: Vec::new(),
        hidden: false,
    };
    let mut in_main = false;
    let ls = lines_str(raw);
    let ghost lv = lines(raw@);
    assert(e.categories@.map_values(|c: String| c@) == Seq::<Seq<char>>::empty());
    let mut i: usize = 0;
    while i < ls.len()
        invariant
            i <= ls.len(),
            lv == lines(raw@),
            ls@.len() == lv.len(),
            forall|k: int| 0 <= k < ls@.len() ==> #[trigger] ls@[k]@ == lv[k],
            desktop_fold(base@, lv.take(i as int)) == (DesktopState {
                entry: entry_view(e),
                in_main,
            }),
        decreases ls.len() - i,
    {
        assert(lv.take(i + 1).drop_last() == lv.take(i as int));
        assert(lv.take(i + 1).last() == ls@[i as int]@);
        let t = trim_exec(&ls[i]);
        if t.len() == 0 || t[0] == '#' {
        } else if t[0] == '[' && t[t.len() - 1] == ']' {
            in_main = chars_eq(&t, &chars_of("[Desktop Entry]"));
        } else if !in_main {
        } else {
            match split_once_exec(&t, '=') {
                None => {},
                Some((k, value)) => {
                    let key = trim_exec(&k);
                    if chars_eq(&key, &chars_of("Name")) {
                        e.name = string_of(&trim_exec(&value));
                    } else if chars_eq(&key, &chars_of("Comment")) {
                        e.comment = string_of(&trim_exec(&value));
                    } else if chars_eq(&key, &chars_of("Exec")) {
                        e.exec_cmd = string_of(&trim_exec(&value));
                    } else if chars_eq(&key, &chars_of("Icon")) {
                        e.icon = string_of(&trim_exec(&value));
                    } else if chars_eq(&key, &chars_of("Categories")) {
                        e.categories = categories_exec(&value);
                    } else if (chars_eq(&key, &chars_of("NoDisplay")) || chars_eq(
                        &key,
                        &chars_of("Hidden"),
                    )) && eq_ignore_case_exec(&trim_exec(&value), &chars_of("true")) {
                        e.hidden = true;
                    }
                },
            }
        }
        i = i + 1;
    }
    assert(lv.take(ls.len() as int) == lv);
    e
}

/// The pinned row of one line of the pinned list, when the trimmed line is
/// neither blank nor a `#` comment: the id before the first tab and the
/// `all` pane when the rest is exactly `all`, else the pinned pane.
pub open spec fn pinned_line(line: Seq<char>) -> Option<(Seq<char>, PinnedPane)> {
    let t = trim(line);
    if t.len() == 0 || t[0] == '#' {
        None
    } else {
        match split_once(t, '\t') {
            Some(p) => Some((p.0, if p.1 == "all"@ { PinnedPane::All } else { PinnedPane::Pinned })),
            None => Some((t, PinnedPane::Pinned)),
        }
    }
}

/// [`pinned_line`] as a function value.
pub open spec fn pinned_line_fn() -> spec_fn(Seq<char>) -> Option<(Seq<char>, PinnedPane)> {
    |l: Seq<char>| pinned_line(l)
}

/// The value of a pinned row.
pub open spec fn pinned_view(p: PinnedRow) -> (Seq<char>, PinnedPane) {
    (p.desktop_id@, p.pane)
}

/// Parses the pinned list (`desktop_id<TAB>pane` lines).
pub fn parse_pinned(raw: &str) -> (r: Vec<PinnedRow>)
    ensures
        r@.map_values(|p: PinnedRow| pinned_view(p)) == lines(raw@).filter_map(pinned_line_fn()),
{
    let ls = lines_str(raw);
    let ghost lv = lines(raw@);
    let mut rows: Vec<PinnedRow> = Vec::new();
    let mut i: usize = 0;
    while i < ls.len()
        invariant
            i <= ls.len(),
            lv == lines(raw@),
            ls@.len() == lv.len(),
            forall|k: int| 0 <= k < ls@.len() ==> #[trigger] ls@[k]@ == lv[k],
            rows@.map_values(|p: PinnedRow| pinned_view(p)) == lv.take(i as int).filter_map(
                pinned_line_fn(),
            ),
        decreases ls.len() - i,
    {
        let ghost before = rows@.map_values(|p: PinnedRow| pinned_view(p));
        assert(lv.take(i + 1).drop_last() == lv.take(i as int));
        assert(lv.take(i + 1).last() == ls@[i as int]@);
        let t = trim_exec(&ls[i]);
        if t.len() == 0 || t[0] == '#' {
        } else {
            let row = match split_once_exec(&t, '\t') {
                Some((id, pane)) => PinnedRow {
                    desktop_id: string_of(&id),
                    pane: if chars_eq(&pane, &chars_of("all")) {
                        PinnedPane::All
                    } else {
                        PinnedPane::Pinned
                    },
                },
                None => PinnedRow { desktop_id: string_of(&t), pane: PinnedPane::Pinned },
            };
            rows.push(row);
            assert(rows@.map_values(|p: PinnedRow| pinned_view(p)) == before + seq![
                pinned_line(lv[i as int]).unwrap(),
            ]);
        }
        i = i + 1;
    }
    assert(lv.take(ls.len() as int) == lv);
    rows
}

/// Whether an entry matches a lower-cased query: its lower-cased name or
/// comment contains it.
pub open spec fn entry_matches(q: Seq<char>) -> spec_fn(AppEntry) -> bool {
    |e: AppEntry| contains(lower(e.name@), q) || contains(lower(e.comment@), q)
}

/// The search hits: nothing for a blank query, else the entries (hidden
/// ones too) whose name or comment contains the trimmed query, ignoring
/// ASCII case.
pub open spec fn search_hits(entries: Seq<AppEntry>, query: Seq<char>) -> Seq<AppEntry> {
    let q = lower(trim(query));
    if q.len() == 0 {
        Seq::empty()
    } else {
        entries.filter(entry_matches(q))
    }
}

/// Case-insensitive substring search over names and comments.
pub fn search<'a>(entries: &'a [AppEntry], query: &str) -> (r: Vec<&'a AppEntry>)
    ensures
        r@.map_values(|e: &AppEntry| *e) == search_hits(entries@, query@),
{
    let q = lower_exec(&trim_str(query));
    let mut r: Vec<&'a AppEntry> = Vec::new();
    if q.len() == 0 {
        assert(r@.map_values(|e: &AppEntry| *e) == Seq::<AppEntry>::empty());
        return r;
    }
    let mut i: usize = 0;
    while i < entries.len()
        invariant
            i <= entries.len(),
            r@.map_values(|e: &AppEntry| *e) == entries@.take(i as int).filter(entry_matches(q@)),
        decreases entries.len() - i,
    {
        let ghost before = r@.map_values(|e: &AppEntry| *e);
        let e = &entries[i];
        assert(entries@.take(i + 1) == entries@.take(i as int).push(*e));
        proof {
            entries@.take(i as int).lemma_filter_push(*e, entry_matches(q@));
        }
        let n = lower_exec(&chars_of(e.name.as_str()));
        let c = lower_exec(&chars_of(e.comment.as_str()));
        if contains_exec(&n, &q) || contains_exec(&c, &q) {
            r.push(e);
            assert(r@.map_values(|e: &AppEntry| *e) == before.push(*e));
        }
        i = i + 1;
    }
    assert(entries@.take(entries.len() as int) == entries@);
    r
}

/// Entries that are not hidden.
pub open spec fn shown() -> spec_fn(AppEntry) -> bool {
    |e: AppEntry| !e.hidden
}

/// The alphabetically first lower-cased name among non-empty `es`.
pub open spec fn min_name(es: Seq<AppEntry>) -> Seq<char>
    decreases es.len(),
{
    if es.len() <= 1 {
        lower(es[0].name@)
    } else {
        let m = min_name(es.drop_last());
        if seq_le(m, lower(es.last().name@)) {
            m
        } else {
            lower(es.last().name@)
        }
    }
}

/// Entries whose lower-cased name is `n`.
pub open spec fn name_is(n: Seq<char>) -> spec_fn(AppEntry) -> bool {
    |e: AppEntry| lower(e.name@) == n
}

/// Entries whose lower-cased name is not `n`.
pub open spec fn name_is_not(n: Seq<char>) -> spec_fn(AppEntry) -> bool {
    |e: AppEntry| lower(e.name@) != n
}

/// The entries sorted by lower-cased name, equal names kept in input order
/// (a stable ascending sort): those with the first name, then the others
/// sorted likewise.
pub open spec fn by_name(es: Seq<AppEntry>) -> Seq<AppEntry>
    decreases es.len(),
{
    if es.len() == 0 {
        es
    } else {
        let m = min_name(es);
        let rest = es.filter(name_is_not(m));
        if rest.len() < es.len() {
            es.filter(name_is(m)) + by_name(rest)
        } else {
            es
        }
    }
}

proof fn lemma_filter_unfold<A>(s: Seq<A>, p: spec_fn(A) -> bool)
    requires
        s.len() > 0,
    ensures
        s.filter(p) == (if p(s.last()) {
            s.drop_last().filter(p).push(s.last())
        } else {
            s.drop_last().filter(p)
        }),
{
    reveal(Seq::filter);
}

proof fn lemma_filter_split_len<A>(s: Seq<A>, p: spec_fn(A) -> bool, q: spec_fn(A) -> bool)
    requires
        forall|x: A| #[trigger] p(x) == !q(x),
    ensures
        s.filter(p).len() + s.filter(q).len() == s.len(),
    decreases s.len(),
{
    if s.len() > 0 {
        lemma_filter_split_len(s.drop_last(), p, q);
        lemma_filter_unfold(s, p);
        lemma_filter_unfold(s, q);
        assert(p(s.last()) == !q(s.last()));
    }
}

proof fn lemma_min_name_in(es: Seq<AppEntry>)
    requires
        es.len() > 0,
    ensures
        es.filter(name_is(min_name(es))).len() > 0,
    decreases es.len(),
{
    let m = min_name(es);
    lemma_filter_unfold(es, name_is(m));
    if es.len() > 1 {
        lemma_min_name_in(es.drop_last());
        let m0 = min_name(es.drop_last());
        if seq_le(m0, lower(es.last().name@)) {
            assert(es.drop_last().filter(name_is(m)).len() > 0);
        }
    } else {
        assert(es.last() == es[0]);
    }
}

fn min_name_exec(es: &Vec<AppEntry>) -> (m: Vec<char>)
    requires
        es@.len() > 0,
    ensures
        m@ == min_name(es@),
{
    let mut m = lower_exec(&chars_of(es[0].name.as_str()));
    let mut i: usize = 1;
    assert(es@.take(1).drop_last().len() == 0);
    while i < es.len()
        invariant
            1 <= i <= es.len(),
            m@ == min_name(es@.take(i as int)),
        decreases es.len() - i,
    {
        assert(es@.take(i + 1).drop_last() == es@.take(i as int));
        let c = lower_exec(&chars_of(es[i].name.as_str()));
        if !chars_le(&m, &c) {
            m = c;
        }
        i = i + 1;
    }
    assert(es@.take(es.len() as int) == es@);
    m
}

/// Splits entries by whether their predicate holds: hidden-ness when `n` is
/// `None`, else lower-cased name equal to `n`.
fn split_entries(es: Vec<AppEntry>, n: &Vec<char>) -> (r: (Vec<AppEntry>, Vec<AppEntry>))
    ensures
        r.0@ == es@.filter(name_is(n@)),
        r.1@ == es@.filter(name_is_not(n@)),
{
    let ghost orig = es@;
    let mut rest = es;
    assert(orig.len() == rest.len());
    let mut yes: Vec<AppEntry> = Vec::new();
    let mut no: Vec<AppEntry> = Vec::new();
    let mut i: usize = 0;
    while rest.len() > 0
        invariant
            i <= orig.len(),
            orig.len() <= usize::MAX,
            rest@.len() + i == orig.len(),
            rest@ == orig.skip(i as int),
            yes@ == orig.take(i as int).filter(name_is(n@)),
            no@ == orig.take(i as int).filter(name_is_not(n@)),
        decreases rest.len(),
    {
        let x = rest.remove(0);
        assert(orig.take(i + 1) == orig.take(i as int).push(x));
        proof {
            orig.take(i as int).lemma_filter_push(x, name_is(n@));
            orig.take(i as int).lemma_filter_push(x, name_is_not(n@));
        }
        let xn = lower_exec(&chars_of(x.name.as_str()));
        if chars_eq(&xn, n) {
            yes.push(x);
        } else {
            no.push(x);
        }
        i = i + 1;
        assert(orig.skip(i as int) == orig.skip(i - 1).remove(0));
    }
    assert(orig.take(i as int) == orig);
    (yes, no)
}

/// The all-apps pane: entries that are not hidden, sorted by name ignoring
/// ASCII case (stable).
pub fn all_apps(entries: Vec<AppEntry>) -> (r: Vec<AppEntry>)
    ensures
        r@ == by_name(entries@.filter(shown())),
{
    let ghost orig = entries@;
    let mut rest = entries;
    assert(orig.len() == rest.len());
    let mut vis: Vec<AppEntry> = Vec::new();
    let mut i: usize = 0;
    while rest.len() > 0
        invariant
            i <= orig.len(),
            orig.len() <= usize::MAX,
            rest@.len() + i == orig.len(),
            rest@ == orig.skip(i as int),
            vis@ == orig.take(i as int).filter(shown()),
        decreases rest.len(),
    {
        let x = rest.remove(0);
        assert(orig.take(i + 1) == orig.take(i as int).push(x));
        proof {
            orig.take(i as int).lemma_filter_push(x, shown());
        }
        if !x.hidden {
            vis.push(x);
        }
        i = i + 1;
        assert(orig.skip(i as int) == orig.skip(i - 1).remove(0));
    }
    assert(orig.take(i as int) == orig);
    let ghost shown_all = vis@;
    let mut rest = vis;
    let mut out: Vec<AppEntry> = Vec::new();
    while rest.len() > 0
        invariant
            out@ + by_name(rest@) == by_name(shown_all),
        decreases rest.len(),
    {
        let m = min_name_exec(&rest);
        let ghost before = rest@;
        proof {
            lemma_min_name_in(before);
            lemma_filter_split_len(before, name_is(m@), name_is_not(m@));
        }
        let (mut top, others) = split_entries(rest, &m);
        out.append(&mut top);
        rest = others;
        assert(out@ + by_name(rest@) == by_name(shown_all));
    }
    assert(out@ + by_name(rest@) == out@);
    out
}

/// A copy of an entry.
fn copy_entry(e: &AppEntry) -> (r: AppEntry)
    ensures
        entry_view(r) == entry_view(*e),
{
    let mut cats: Vec<String> = Vec::new();
    let mut i: usize = 0;
    while i < e.categories.len()
        invariant
            i <= e.categories@.len(),
            cats@.map_values(|c: String| c@) == e.categories@.take(i as int).map_values(
                |c: String| c@,
            ),
        decreases e.categories.len() - i,
    {
        let ghost before = cats@.map_values(|c: String| c@);
        let c = e.categories[i].clone();
        cats.push(c);
        assert(cats@.map_values(|c: String| c@) == before.push(e.categories@[i as int]@));
        assert(e.categories@.take(i + 1) == e.categories@.take(i as int).push(e.categories@[i as int]));
        i = i + 1;
    }
    assert(e.categories@.take(e.categories@.len() as int) == e.categories@);
    AppEntry {
        id: e.id.clone(),
        name: e.name.clone(),
        comment: e.comment.clone(),
        exec_cmd: e.exec_cmd.clone(),
        icon: e.icon.clone(),
        categories: cats,
        hidden: e.hidden,
    }
}

/// The first entry with id `id`.
pub open spec fn entry_with_id(entries: Seq<AppEntry>, id: Seq<char>) -> Option<AppEntry>
    decreases entries.len(),
{
    if entries.len() == 0 {
        None
    } else if entries[0].id@ == id {
        Some(entries[0])
    } else {
        entry_with_id(entries.drop_first(), id)
    }
}

/// The pinned-pane entry of a pinned row: the first entry with its id, for
/// rows of the pinned pane.
pub open spec fn pinned_entry(entries: Seq<AppEntry>) -> spec_fn(PinnedRow) -> Option<EntryView> {
    |p: PinnedRow|
        if p.pane == PinnedPane::Pinned {
            match entry_with_id(entries, p.desktop_id@) {
                Some(e) => Some(entry_view(e)),
                None => None,
            }
        } else {
            None
        }
}

fn find_entry(entries: &[AppEntry], id: &Vec<char>) -> (r: Option<usize>)
    ensures
        match entry_with_id(entries@, id@) {
            Some(e) => r is Some && r->Some_0 < entries@.len() && entries@[r->Some_0 as int]
                == e,
            None => r is None,
        },
{
    let mut i: usize = 0;
    assert(entries@.skip(0) == entries@);
    while i < entries.len()
        invariant
            i <= entries.len(),
            entry_with_id(entries@, id@) == entry_with_id(entries@.skip(i as int), id@),
        decreases entries.len() - i,
    {
        let eid = chars_of(entries[i].id.as_str());
        assert(entries@.skip(i as int)[0] == entries@[i as int]);
        if chars_eq(&eid, id) {
            return Some(i);
        }
        assert(entries@.skip(i as int).drop_first() == entries@.skip(i + 1));
        i = i + 1;
    }
    None
}

/// The pinned pane: for each row of the pinned pane, in order, the first
/// entry with its id; rows without an entry are dropped.
pub fn pinned_pane(entries: &[AppEntry], pinned: &[PinnedRow]) -> (r: Vec<AppEntry>)
    ensures
        r@.map_values(|e: AppEntry| entry_view(e)) == pinned@.filter_map(pinned_entry(entries@)),
{
    let mut out: Vec<AppEntry> = Vec::new();
    let mut i: usize = 0;
    while i < pinned.len()
        invariant
            i <= pinned.len(),
            out@.map_values(|e: AppEntry| entry_view(e)) == pinned@.take(i as int).filter_map(
                pinned_entry(entries@),
            ),
        decreases pinned.len() - i,
    {
        let ghost before = out@.map_values(|e: AppEntry| entry_view(e));
        assert(pinned@.take(i + 1).drop_last() == pinned@.take(i as int));
        assert(pinned@.take(i + 1).last() == pinned@[i as int]);
        if pinned[i].pane == PinnedPane::Pinned {
            let id = chars_of(pinned[i].desktop_id.as_str());
            match find_entry(entries, &id) {
                Some(k) => {
                    out.push(copy_entry(&entries[k]));
                    assert(out@.map_values(|e: AppEntry| entry_view(e)) == before + seq![
                        entry_view(entries@[k as int]),
                    ]);
                },
                None => {},
            }
        }
        i = i + 1;
    }
    assert(pinned@.take(pinned.len() as int) == pinned@);
    out
}

/// The status line: `start-menu: <p> pinned · <a> apps · <h> search-hits`.
pub fn format_now(pinned: &[AppEntry], all: &[AppEntry], search_hits: usize) -> (r: String)
    ensures
        r@ == "start-menu: "@ + decimal(pinned@.len()) + " pinned · "@ + decimal(all@.len())
            + " apps · "@ + decimal(search_hits as nat) + " search-hits"@,
{
    let mut s = String::new();
    push_str(&mut s, "start-menu: ");
    push_decimal(&mut s, pinned.len() as u64);
    push_str(&mut s, " pinned · ");
    push_decimal(&mut s, all.len() as u64);
    push_str(&mut s, " apps · ");
    push_decimal(&mut s, search_hits as u64);
    push_str(&mut s, " search-hits");
    s
}

/// Host messages re-render the popover, except `Shutdown`.
pub fn handle_host(msg: &HostMessage) -> (r: bool)
    ensures
        r == rerenders(*msg),
{
    !matches!(msg, HostMessage::Shutdown)
}

} // verus!
