//! Replicated home volume (GlusterFS): the command lines that create the
//! volume and cap its quota, and the smallest free space among its bricks
//! as `gluster volume info --xml` reports it.
use std::time::Duration;

use vstd::prelude::*;

use crate::text::{
    chars_of, decimal, occurs_at, occurs_at_exec, parse_unsigned, parse_unsigned_exec,
    push_decimal, slice_chars, texts, trim, trim_exec, trim_str, contains, contains_exec, owned,
};
use crate::workers::time::{secs, duration_from_secs};
use crate::workers::meshfs::push_arg;

verus! {

/// The replicated volume.
pub const VOLUME_NAME: &'static str = "mesh-home";

/// The local brick.
pub const BRICK_PATH: &'static str = "/var/lib/gluster/bricks/mesh-home";

/// The CLI binary.
pub const DEFAULT_GLUSTER_BINARY: &'static str = "gluster";

/// `<binary> volume quota mesh-home limit-usage / <cap_bytes>`.
pub fn quota_set_argv(binary: &str, cap_bytes: u64) -> (v: Vec<String>)
    ensures
        texts(v@) == seq![
            binary@,
            "volume"@,
            "quota"@,
            VOLUME_NAME@,
            "limit-usage"@,
            "/"@,
            decimal(cap_bytes as nat),
        ],
{
    let mut cap = String::new();
    push_decimal(&mut cap, cap_bytes);
    let mut v: Vec<String> = Vec::new();
    push_arg(&mut v, binary);
    push_arg(&mut v, "volume");
    push_arg(&mut v, "quota");
    push_arg(&mut v, VOLUME_NAME);
    push_arg(&mut v, "limit-usage");
    push_arg(&mut v, "/");
    push_arg(&mut v, cap.as_str());
    assert(texts(v@) =~= seq![
        binary@,
        "volume"@,
        "quota"@,
        VOLUME_NAME@,
        "limit-usage"@,
        "/"@,
        decimal(cap_bytes as nat),
    ]);
    v
}

/// `<binary> volume create mesh-home replica 1 transport tcp
/// <overlay_ip>:<brick_path> force`: the genesis volume.
pub fn bootstrap_argv(binary: &str, overlay_ip: &str, brick_path: &str) -> (v: Vec<String>)
    ensures
        texts(v@) == seq![
            binary@,
            "volume"@,
            "create"@,
            VOLUME_NAME@,
            "replica"@,
            "1"@,
            "transport"@,
            "tcp"@,
            overlay_ip@ + seq![':'] + brick_path@,
            "force"@,
        ],
{
    proof {
        reveal_strlit(":");
    }
    let mut brick = crate::text::owned(overlay_ip);
    crate::text::push_str(&mut brick, ":");
    crate::text::push_str(&mut brick, brick_path);
    assert(brick@ == overlay_ip@ + seq![':'] + brick_path@);
    let mut v: Vec<String> = Vec::new();
    push_arg(&mut v, binary);
    push_arg(&mut v, "volume");
    push_arg(&mut v, "create");
    push_arg(&mut v, VOLUME_NAME);
    push_arg(&mut v, "replica");
    push_arg(&mut v, "1");
    push_arg(&mut v, "transport");
    push_arg(&mut v, "tcp");
    push_arg(&mut v, brick.as_str());
    push_arg(&mut v, "force");
    assert(texts(v@) =~= seq![
        binary@,
        "volume"@,
        "create"@,
        VOLUME_NAME@,
        "replica"@,
        "1"@,
        "transport"@,
        "tcp"@,
        overlay_ip@ + seq![':'] + brick_path@,
        "force"@,
    ]);
    v
}

/// `str::find`: the first position where `pat` occurs in `s`.
pub open spec fn find(s: Seq<char>, pat: Seq<char>) -> Option<int>
    decreases s.len(),
{
    if s.len() < pat.len() {
        None
    } else if occurs_at(s, pat, 0) {
        Some(0)
    } else if s.len() == 0 {
        None
    } else {
        match find(s.drop_first(), pat) {
            Some(i) => Some(i + 1),
            None => None,
        }
    }
}

pub proof fn lemma_find(s: Seq<char>, pat: Seq<char>)
    ensures
        match find(s, pat) {
            Some(i) => 0 <= i && i + pat.len() <= s.len() && occurs_at(s, pat, i) && forall|j: int|
                0 <= j < i ==> !occurs_at(s, pat, j),
            None => forall|j: int| 0 <= j ==> !occurs_at(s, pat, j),
        },
    decreases s.len(),
{
    if s.len() >= pat.len() && !occurs_at(s, pat, 0) && s.len() > 0 {
        let t = s.drop_first();
        lemma_find(t, pat);
        assert forall|j: int| 1 <= j && occurs_at(s, pat, j) implies occurs_at(t, pat, j - 1) by {
            assert(t.subrange(j - 1, j - 1 + pat.len()) =~= s.subrange(j, j + pat.len()));
        }
        assert forall|j: int| 0 <= j && occurs_at(t, pat, j) implies occurs_at(s, pat, j + 1) by {
            assert(t.subrange(j, j + pat.len()) =~= s.subrange(j + 1, j + 1 + pat.len()));
        }
    }
}

/// The first occurrence of `pat` at or after `from`.
fn find_from(s: &[char], pat: &[char], from: usize) -> (r: Option<usize>)
    requires
        from <= s.len(),
        pat@.len() > 0,
    ensures
        match find(s@.skip(from as int), pat@) {
            Some(i) => r == Some((from + i) as usize),
            None => r is None,
        },
{
    let ghost t = s@.skip(from as int);
    proof {
        lemma_find(t, pat@);
    }
    let mut j: usize = from;
    while j < s.len()
        invariant
            from <= j <= s.len(),
            t == s@.skip(from as int),
            forall|k: int| from <= k < j ==> !occurs_at(s@, pat@, k),
            match find(t, pat@) {
                Some(i) => 0 <= i && i + pat@.len() <= t.len() && occurs_at(t, pat@, i) && forall|q: int|
                    0 <= q < i ==> !occurs_at(t, pat@, q),
                None => forall|q: int| 0 <= q ==> !occurs_at(t, pat@, q),
            },
        decreases s.len() - j,
    {
        if occurs_at_exec(s, pat, j) {
            proof {
                assert(t.subrange(j - from, j - from + pat@.len()) =~= s@.subrange(j as int, j + pat@.len()));
                assert(occurs_at(t, pat@, j - from));
                match find(t, pat@) {
                    Some(i) => {
                        if i < j - from {
                            assert(t.subrange(i, i + pat@.len()) =~= s@.subrange(from + i, from + i + pat@.len()));
                            assert(occurs_at(s@, pat@, from + i));
                        } else if i > j - from {
                        }
                    },
                    None => {},
                }
            }
            return Some(j);
        }
        j = j + 1;
    }
    proof {
        match find(t, pat@) {
            Some(i) => {
                assert(t.subrange(i, i + pat@.len()) =~= s@.subrange(from + i, from + i + pat@.len()));
                assert(occurs_at(s@, pat@, from + i));
                assert(from + i < j);
            },
            None => {},
        }
    }
    None
}

/// The smaller of a running minimum and a new value.
pub open spec fn fold_min(min: Option<nat>, n: nat) -> nat {
    match min {
        None => n,
        Some(p) => if p <= n {
            p
        } else {
            n
        },
    }
}

/// The scan of `<sizeFree>N</sizeFree>` elements through `rest`, carrying
/// the least `u64` seen so far; an opening tag without a closing one
/// gives `None`, an unparsable body is skipped.
pub open spec fn brick_scan(rest: Seq<char>, min: Option<nat>) -> Option<nat>
    decreases rest.len(),
{
    match find(rest, "<sizeFree>"@) {
        None => min,
        Some(o) => {
            proof {
                lemma_find(rest, "<sizeFree>"@);
                reveal_strlit("<sizeFree>");
            }
            let after = rest.skip(o + 10);
            match find(after, "</sizeFree>"@) {
                None => None,
                Some(c) => {
                    proof {
                        lemma_find(after, "</sizeFree>"@);
                    }
                    let m2 = match parse_unsigned(trim(after.take(c)), u64::MAX as nat) {
                        Some(n) => Some(fold_min(min, n)),
                        None => min,
                    };
                    brick_scan(after.skip(c), m2)
                },
            }
        },
    }
}

/// The least free space, in bytes, among the bricks of
/// `gluster volume info --xml` output; `None` without any readable brick
/// or when an element is left open.
pub fn min_brick_free_bytes(xml: &str) -> (r: Option<u64>)
    ensures
        match brick_scan(xml@, None) {
            Some(n) => r == Some(n as u64),
            None => r is None,
        },
{
    let s = chars_of(xml);
    let open = chars_of("<sizeFree>");
    let close = chars_of("</sizeFree>");
    proof {
        reveal_strlit("<sizeFree>");
        reveal_strlit("</sizeFree>");
    }
    let mut min: Option<u64> = None;
    let mut pos: usize = 0;
    assert(s@.skip(0) =~= s@);
    while pos <= s.len()
        invariant
            pos <= s.len(),
            s@ == xml@,
            open@ == "<sizeFree>"@,
            close@ == "</sizeFree>"@,
            open@.len() == 10,
            close@.len() == 11,
            brick_scan(s@, None) == brick_scan(s@.skip(pos as int), match min {
                Some(m) => Some(m as nat),
                None => None,
            }),
        decreases s.len() - pos,
    {
        let ghost rest = s@.skip(pos as int);
        let ghost gmin: Option<nat> = match min {
            Some(m) => Some(m as nat),
            None => None,
        };
        proof {
            lemma_find(rest, open@);
        }
        let o = match find_from(&s, &open, pos) {
            None => {
                assert(brick_scan(rest, gmin) == gmin);
                return min;
            },
            Some(o) => o,
        };
        assert(find(rest, "<sizeFree>"@) == Some(o - pos));
        let after_start = o + 10;
        proof {
            assert(s@.skip(after_start as int) =~= rest.skip(o - pos + 10));
            lemma_find(s@.skip(after_start as int), close@);
        }
        let c = match find_from(&s, &close, after_start) {
            None => {
                assert(find(rest.skip(o - pos + 10), "</sizeFree>"@) is None);
                assert(brick_scan(rest, gmin) is None);
                return None;
            },
            Some(c) => c,
        };
        assert(find(rest.skip(o - pos + 10), "</sizeFree>"@) == Some(c - after_start));
        let body = trim_exec(&slice_chars(&s, after_start, c));
        proof {
            assert(s@.subrange(after_start as int, c as int) =~= s@.skip(after_start as int).take(
                c - after_start,
            ));
            assert(s@.skip(c as int) =~= s@.skip(after_start as int).skip(c - after_start));
        }
        match parse_unsigned_exec(&body, u64::MAX) {
            Some(n) => {
                min = Some(
                    match min {
                        None => n,
                        Some(p) => if p <= n {
                            p
                        } else {
                            n
                        },
                    },
                );
            },
            None => {},
        }
        proof {
            let after = rest.skip(o - pos + 10);
            assert(after.take(c - after_start) == s@.subrange(after_start as int, c as int));
            assert(after.skip(c - after_start) == s@.skip(c as int));
        }
        pos = c;
    }
    min
}


/// The arguments of `bootstrap_argv`.
pub open spec fn bootstrap_args(binary: Seq<char>, overlay_ip: Seq<char>, brick_path: Seq<char>) -> Seq<Seq<char>> {
    seq![
        binary,
        "volume"@,
        "create"@,
        VOLUME_NAME@,
        "replica"@,
        "1"@,
        "transport"@,
        "tcp"@,
        overlay_ip + seq![':'] + brick_path,
        "force"@,
    ]
}

/// The sweep cadence, in seconds.
pub const DEFAULT_TICK_SECS: u64 = 5;

/// Where enrollment publishes this node's overlay address.
pub const DEFAULT_OVERLAY_IP_PATH: &'static str = "/var/lib/mackesd/nebula/overlay-ip";

/// How often the quota probe may run, in seconds.
pub const QUOTA_PROBE_INTERVAL_SECS: u64 = 3600;

/// The worker's configuration.
pub struct GlusterWorker {
    pub tick: Duration,
    pub overlay_ip_path: String,
    pub brick_path: String,
    pub gluster_binary: String,
}

impl GlusterWorker {
    /// The production defaults.
    pub fn new() -> (w: Self)
        ensures
            w.tick == duration_from_secs(DEFAULT_TICK_SECS),
            w.overlay_ip_path@ == DEFAULT_OVERLAY_IP_PATH@,
            w.brick_path@ == BRICK_PATH@,
            w.gluster_binary@ == DEFAULT_GLUSTER_BINARY@,
    {
        GlusterWorker {
            tick: secs(DEFAULT_TICK_SECS),
            overlay_ip_path: owned(DEFAULT_OVERLAY_IP_PATH),
            brick_path: owned(BRICK_PATH),
            gluster_binary: owned(DEFAULT_GLUSTER_BINARY),
        }
    }

    /// Another cadence.
    pub fn with_tick(self, t: Duration) -> (w: Self)
        ensures
            w.tick == t,
            w.overlay_ip_path == self.overlay_ip_path,
            w.brick_path == self.brick_path,
            w.gluster_binary == self.gluster_binary,
    {
        GlusterWorker { tick: t, ..self }
    }

    /// Another overlay-address file.
    pub fn with_overlay_ip_path(self, path: String) -> (w: Self)
        ensures
            w.tick == self.tick,
            w.overlay_ip_path == path,
            w.brick_path == self.brick_path,
            w.gluster_binary == self.gluster_binary,
    {
        GlusterWorker { overlay_ip_path: path, ..self }
    }

    /// Another brick directory.
    pub fn with_brick_path(self, path: String) -> (w: Self)
        ensures
            w.tick == self.tick,
            w.overlay_ip_path == self.overlay_ip_path,
            w.brick_path == path,
            w.gluster_binary == self.gluster_binary,
    {
        GlusterWorker { brick_path: path, ..self }
    }

    /// Another CLI binary.
    pub fn with_gluster_binary(self, name: String) -> (w: Self)
        ensures
            w.tick == self.tick,
            w.overlay_ip_path == self.overlay_ip_path,
            w.brick_path == self.brick_path,
            w.gluster_binary == name,
    {
        GlusterWorker { gluster_binary: name, ..self }
    }

    /// The worker's name.
    pub fn name(&self) -> (s: &'static str)
        ensures
            s@ == "gluster_worker"@,
    {
        "gluster_worker"
    }

    /// The bootstrap step of a sweep: with the CLI installed, this node
    /// enrolled (its overlay-address file read) and the volume known to be
    /// missing, create it from this node's brick; otherwise nothing.
    pub fn bootstrap_step(&self, binary_on_path: bool, overlay_ip_file: Option<&str>, volume_exists: Option<bool>) -> (r: Option<Vec<String>>)
        ensures
            (binary_on_path && overlay_ip_file is Some && volume_exists == Some(false)) ==> r is Some
                && texts(r->0@) == bootstrap_args(self.gluster_binary@, trim(overlay_ip_file->0@), self.brick_path@),
            !(binary_on_path && overlay_ip_file is Some && volume_exists == Some(false)) ==> r is None,
    {
        if !binary_on_path {
            return None;
        }
        let file = match overlay_ip_file {
            Some(f) => f,
            None => return None,
        };
        match volume_exists {
            Some(false) => {
                let ip = trim_str(file);
                let ip_s = crate::text::string_of(&ip);
                Some(bootstrap_argv(self.gluster_binary.as_str(), ip_s.as_str(), self.brick_path.as_str()))
            },
            _ => None,
        }
    }
}

/// What `gluster volume info <volume>` says of the volume: it exists when
/// the command succeeded, is missing when it failed saying `does not
/// exist`, and is unknown otherwise.
pub fn volume_exists_from(success: bool, stderr: &str) -> (r: Option<bool>)
    ensures
        r == (if success {
            Some(true)
        } else if contains(stderr@, "does not exist"@) {
            Some(false)
        } else {
            None
        }),
{
    if success {
        return Some(true);
    }
    let e = chars_of(stderr);
    let pat = chars_of("does not exist");
    if contains_exec(&e, &pat) {
        Some(false)
    } else {
        None
    }
}

/// Whether the hourly quota probe is due, given the seconds since the last
/// probe (none yet: due).
pub fn quota_probe_due(since_last_secs: Option<u64>) -> (b: bool)
    ensures
        b == match since_last_secs {
            None => true,
            Some(s) => s >= QUOTA_PROBE_INTERVAL_SECS,
        },
{
    match since_last_secs {
        None => true,
        Some(s) => s >= QUOTA_PROBE_INTERVAL_SECS,
    }
}

} // verus!
