//! Thumbnails of Markdown files: which paths are handled, which sizes are
//! rendered, and how an arbitrary size maps to a rendered one.
use vstd::prelude::*;

use crate::text::{chars_of, decimal, decimal_string, lower, lower_exec, owned, texts};

verus! {

/// The rendered sizes, ascending.
pub open spec fn supported_sizes() -> Seq<u32> {
    seq![128u32, 256u32, 512u32]
}

/// The size used when none is asked for.
pub const DEFAULT_SIZE: u32 = 256;

/// `Path::extension` of a path, as text.
pub uninterp spec fn path_extension(p: Seq<char>) -> Option<Seq<char>>;

/// `std::path::Path::extension` (with `OsStr::to_str`). Claimed: the
/// result is the named value `path_extension(p)`; what std takes as the
/// extension (after the last `.` of the file name, not for dotfiles) is
/// left to std.
#[verifier::external_body]
fn extension_of(p: &str) -> (r: Option<String>)
    ensures
        match r {
            Some(s) => path_extension(p@) == Some(s@),
            None => path_extension(p@) is None,
        },
{
    std::path::Path::new(p).extension().and_then(|s| s.to_str()).map(|s| s.to_string())
}

/// Whether a path is rendered: its extension is `md` in any ASCII case.
pub fn handles_path(path: &str) -> (b: bool)
    ensures
        b == match path_extension(path@) {
            Some(e) => lower(e) == "md"@,
            None => false,
        },
{
    match extension_of(path) {
        None => handles_extension(None),
        Some(e) => handles_extension(Some(e.as_str())),
    }
}

/// Whether a path with extension `ext` (`Path::extension`) is rendered:
/// the extension is `md` in any ASCII case.
pub fn handles_extension(ext: Option<&str>) -> (b: bool)
    ensures
        b == match ext {
            Some(e) => lower(e@) == "md"@,
            None => false,
        },
{
    match ext {
        None => false,
        Some(e) => {
            let l = lower_exec(&chars_of(e));
            let md = chars_of("md");
            crate::text::chars_eq(&l, &md)
        },
    }
}

/// Whether `size` is rendered as it is: 128, 256 or 512.
pub fn supports_size(size: u32) -> (b: bool)
    ensures
        b == supported_sizes().contains(size),
{
    let r = size == 128 || size == 256 || size == 512;
    proof {
        if r {
            if size == 128 {
                assert(supported_sizes()[0] == size);
            } else if size == 256 {
                assert(supported_sizes()[1] == size);
            } else {
                assert(supported_sizes()[2] == size);
            }
        }
    }
    r
}

/// The largest rendered size not above `size`, or the smallest one when
/// `size` is below all of them.
pub open spec fn nearest_size(size: u32) -> u32 {
    if size >= 512 {
        512
    } else if size >= 256 {
        256
    } else {
        128
    }
}

/// Rounds `size` down to a rendered size (up to the smallest).
pub fn nearest_supported_size(size: u32) -> (s: u32)
    ensures
        s == nearest_size(size),
        supported_sizes().contains(s),
        s <= size || s == 128,
{
    let sizes: [u32; 3] = [128, 256, 512];
    let mut best: u32 = sizes[0];
    for i in 0..3
        invariant
            sizes@ == supported_sizes(),
            best == (if i > 2 && size >= 512 {
                512u32
            } else if i > 1 && size >= 256 {
                256u32
            } else {
                128u32
            }),
    {
        if sizes[i] <= size {
            best = sizes[i];
        }
    }
    assert(supported_sizes()[0] == 128 && supported_sizes()[1] == 256 && supported_sizes()[2] == 512);
    best
}

/// How a render ended.
#[derive(Debug, Clone, PartialEq, Eq)]
pub enum RenderOutcome {
    Succeeded,
    /// The renderer exited with this status.
    Failed(i32),
    /// The renderer could not be started.
    SpawnError(String),
    /// The path is not handled.
    Unsupported,
}

/// The renderer's arguments after the interpreter: the module, the size,
/// the source and the destination.
pub open spec fn render_args(src: Seq<char>, dst: Seq<char>, size: u32) -> Seq<Seq<char>> {
    seq!["-m"@, "mackes.mesh_thumbnailer"@, "--size"@, decimal(size as nat), src, dst]
}

/// What a render of `src` into `dst` at `size` runs: `Unsupported` when
/// the source is not handled, else the renderer's arguments (run with
/// `python3`).
pub fn render_plan(src: &str, dst: &str, size: u32) -> (r: Result<Vec<String>, RenderOutcome>)
    ensures
        match path_extension(src@) {
            Some(e) => lower(e) == "md"@,
            None => false,
        } ==> (r is Ok && texts(r->Ok_0@) == render_args(src@, dst@, size)),
        !match path_extension(src@) {
            Some(e) => lower(e) == "md"@,
            None => false,
        } ==> r == Err::<Vec<String>, RenderOutcome>(RenderOutcome::Unsupported),
{
    if !handles_path(src) {
        return Err(RenderOutcome::Unsupported);
    }
    let mut v: Vec<String> = Vec::new();
    v.push(owned("-m"));
    v.push(owned("mackes.mesh_thumbnailer"));
    v.push(owned("--size"));
    v.push(decimal_string(size as u64));
    v.push(owned(src));
    v.push(owned(dst));
    assert(texts(v@) =~= render_args(src@, dst@, size));
    Ok(v)
}

/// How a finished render ended: `Succeeded` on a zero status, else
/// `Failed` with the exit code (-1 when the process was killed by a
/// signal).
pub fn render_outcome(success: bool, code: Option<i32>) -> (r: RenderOutcome)
    ensures
        success ==> r == RenderOutcome::Succeeded,
        !success ==> r == RenderOutcome::Failed(match code {
            Some(c) => c,
            None => -1i32,
        }),
{
    if success {
        RenderOutcome::Succeeded
    } else {
        match code {
            Some(c) => RenderOutcome::Failed(c),
            None => RenderOutcome::Failed(-1),
        }
    }
}

} // verus!
