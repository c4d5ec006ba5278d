//! The DERP relay service: reading `systemctl is-active`.
use vstd::prelude::*;

use crate::text::{chars_eq, chars_of, trim, trim_str};

verus! {

/// The relay binary.
pub const DERPER_BIN: &'static str = "/usr/local/bin/derper";

/// The systemd unit.
pub const DERPER_UNIT: &'static str = "mackes-derper";

/// Whether `systemctl is-active` reported the unit active: exit status 0
/// and exactly `active` once trimmed.
pub fn parse_is_active(stdout: &str, exit_code: i32) -> (b: bool)
    ensures
        b == (exit_code == 0 && trim(stdout@) == "active"@),
{
    let t = trim_str(stdout);
    let a = chars_of("active");
    exit_code == 0 && chars_eq(&t, &a)
}


/// What the install check reads of a path's metadata: whether it is a
/// regular file, and its Unix permission bits.
#[derive(Debug, Clone, Copy, PartialEq, Eq)]
pub struct FileMeta {
    pub is_file: bool,
    pub mode: u32,
}

/// An installed binary: the path exists, is a regular file and has the
/// owner-execute bit (`0o100`). `None` means the metadata could not be read.
pub fn installed_from_metadata(meta: Option<FileMeta>) -> (b: bool)
    ensures
        b == (meta is Some && meta->0.is_file && (meta->0.mode & 0o100u32) != 0),
{
    match meta {
        None => false,
        Some(m) => m.is_file && (m.mode & 0o100u32) != 0,
    }
}

} // verus!
