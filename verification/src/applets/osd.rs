//! On-screen-display overlays for brightness and volume: a glyph, a
//! fixed-width block bar and the level.
use vstd::prelude::*;

use crate::text::{push_repeat, repeat};

verus! {

/// Cells in an OSD bar.
pub const BAR_WIDTH: usize = 20;

/// The nearest integer to `a / b` (no input here lies half-way between two
/// integers).
pub open spec fn round_div(a: nat, b: nat) -> nat
    recommends
        b > 0,
{
    (2 * a + b) / (2 * b)
}

/// The bar: `filled` full blocks then empty blocks up to [`BAR_WIDTH`].
pub open spec fn bar(filled: nat) -> Seq<char> {
    repeat('\u{2588}', filled) + repeat('\u{2591}', (BAR_WIDTH - filled) as nat)
}

pub fn push_bar(s: &mut String, filled: usize)
    requires
        filled <= BAR_WIDTH,
    ensures
        final(s)@ == old(s)@ + bar(filled as nat),
{
    push_repeat(s, '\u{2588}', filled);
    push_repeat(s, '\u{2591}', BAR_WIDTH - filled);
}

} // verus!
