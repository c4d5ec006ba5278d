//! WireGuard performance probes: the parsers of `ethtool -k` and
//! `/proc/modules` output.
use vstd::prelude::*;

use crate::text::{
    parse_unsigned, parse_unsigned_exec, trim_str, holds_exec, text_set,
    chars_of, filter_map, lemma_filter_map_take, lines, lines_str, slice_chars, split_char,
    split_exec, starts_with, starts_with_exec, string_of, texts, trim, trim_exec,
};

verus! {

/// The GSO state a trimmed `ethtool -k` line gives, when it is the
/// `generic-segmentation-offload:` line: `on`, `off`, or unknown.
pub open spec fn gso_line(l: Seq<char>) -> Option<Option<bool>> {
    let key = "generic-segmentation-offload:"@;
    if starts_with(l, key) {
        let v = trim(l.skip(key.len() as int));
        Some(if v == "on"@ {
            Some(true)
        } else if v == "off"@ {
            Some(false)
        } else {
            None
        })
    } else {
        None
    }
}

/// The answer of the first GSO line among `ls`, or `None` without one.
pub open spec fn first_gso(ls: Seq<Seq<char>>) -> Option<bool>
    decreases ls.len(),
{
    if ls.len() == 0 {
        None
    } else {
        match gso_line(trim(ls[0])) {
            Some(ans) => ans,
            None => first_gso(ls.drop_first()),
        }
    }
}

/// Reads `generic-segmentation-offload` from `ethtool -k` output: the
/// first such line decides.
pub fn parse_gso_state(ethtool_output: &str) -> (r: Option<bool>)
    ensures
        r == first_gso(lines(ethtool_output@)),
{
    let ls = lines_str(ethtool_output);
    let ghost all = lines(ethtool_output@);
    let key = chars_of("generic-segmentation-offload:");
    let on = chars_of("on");
    let off = chars_of("off");
    let mut i: usize = 0;
    assert(all.skip(0) =~= all);
    while i < ls.len()
        invariant
            i <= ls.len(),
            all == lines(ethtool_output@),
            ls@.len() == all.len(),
            forall|k: int| 0 <= k < ls@.len() ==> #[trigger] ls@[k]@ == all[k],
            key@ == "generic-segmentation-offload:"@,
            on@ == "on"@,
            off@ == "off"@,
            first_gso(all) == first_gso(all.skip(i as int)),
        decreases ls.len() - i,
    {
        let ghost rest = all.skip(i as int);
        assert(rest[0] == all[i as int]);
        assert(ls@[i as int]@ == all[i as int]);
        let l = trim_exec(&ls[i]);
        if starts_with_exec(&l, &key) {
            let v = trim_exec(&slice_chars(&l, key.len(), l.len()));
            assert(l@.skip(key@.len() as int) =~= l@.subrange(key@.len() as int, l@.len() as int));
            assert(rest.len() > 0);
            if crate::text::chars_eq(&v, &on) {
                return Some(true);
            } else if crate::text::chars_eq(&v, &off) {
                return Some(false);
            } else {
                return None;
            }
        }
        assert(rest.drop_first() =~= all.skip(i + 1));
        i = i + 1;
    }
    None
}

/// The module name a `/proc/modules` line starts with: the text before the
/// first space, trimmed, when not empty.
pub open spec fn module_of(line: Seq<char>) -> Option<Seq<char>> {
    let m = trim(split_char(line, ' ')[0]);
    if m.len() > 0 {
        Some(m)
    } else {
        None
    }
}

/// [`module_of`] as a function value.
pub open spec fn module_fn() -> spec_fn(Seq<char>) -> Option<Seq<char>> {
    |l: Seq<char>| module_of(l)
}

/// The loaded module names of `/proc/modules`, in order.
pub fn parse_loaded_modules(proc_modules: &str) -> (r: Vec<String>)
    ensures
        texts(r@) == filter_map(lines(proc_modules@), module_fn()),
{
    let ls = lines_str(proc_modules);
    let ghost all = lines(proc_modules@);
    let space: Vec<char> = vec![' '];
    assert(space@ == seq![' ']);
    let mut out: Vec<String> = Vec::new();
    let mut i: usize = 0;
    while i < ls.len()
        invariant
            i <= ls.len(),
            ls@.len() == all.len(),
            forall|k: int| 0 <= k < ls@.len() ==> #[trigger] ls@[k]@ == all[k],
            space@ == seq![' '],
            texts(out@) == filter_map(all.take(i as int), module_fn()),
        decreases ls.len() - i,
    {
        proof {
            lemma_filter_map_take(all, module_fn(), i as int);
            crate::text::lemma_split_by_nonempty(ls@[i as int]@, space@, false);
        }
        let pieces = split_exec(&ls[i], &space, false);
        let m = trim_exec(&pieces[0]);
        let ghost before = out@;
        if m.len() > 0 {
            out.push(string_of(&m));
            assert(texts(out@) =~= texts(before) + seq![m@]);
        }
        i = i + 1;
    }
    assert(all.take(i as int) =~= all);
    out
}


/// Whether `/proc/modules` lists the `wireguard` module.
pub fn wireguard_loaded(proc_modules: &str) -> (b: bool)
    ensures
        b == filter_map(lines(proc_modules@), module_fn()).contains("wireguard"@),
{
    let names = parse_loaded_modules(proc_modules);
    let b = holds_exec(names.as_slice(), "wireguard");
    proof {
        let ms = filter_map(lines(proc_modules@), module_fn());
        if b {
            let q = choose|q: int| 0 <= q < names@.len() && #[trigger] names@[q]@ == "wireguard"@;
            assert(ms[q] == texts(names@)[q]);
        }
        if ms.contains("wireguard"@) {
            let q = choose|q: int| 0 <= q < ms.len() && ms[q] == "wireguard"@;
            assert(texts(names@)[q] == names@[q]@);
            assert(text_set(names@).contains(names@[q]@));
        }
    }
    b
}

/// Kernel-mode WireGuard is available when the module is loaded, or when
/// `modinfo -n wireguard` succeeded and printed a path.
pub fn kernel_mode_from(loaded: bool, modinfo_ok: bool, modinfo_stdout: &str) -> (b: bool)
    ensures
        b == (loaded || (modinfo_ok && trim(modinfo_stdout@).len() > 0)),
{
    loaded || (modinfo_ok && trim_str(modinfo_stdout).len() > 0)
}

/// The MTU a `/sys/class/net/<iface>/mtu` file holds: its trimmed text as a
/// `u32`.
pub fn parse_mtu(text: &str) -> (r: Option<u32>)
    ensures
        match parse_unsigned(trim(text@), u32::MAX as nat) {
            Some(v) => r == Some(v as u32),
            None => r is None,
        },
{
    let t = trim_str(text);
    match parse_unsigned_exec(&t, u32::MAX as u64) {
        Some(v) => Some(v as u32),
        None => None,
    }
}

} // verus!
