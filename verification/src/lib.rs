use vstd::prelude::*;

pub mod text;
pub mod keyed;
pub mod sway;
pub mod alert_emit;
pub mod applets;
pub mod bus;
pub mod clipd;
pub mod workers;

verus! {

} // verus!
