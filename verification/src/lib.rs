use vstd::prelude::*;

pub mod actions;
pub mod laws;
pub mod rand_draw;
pub mod schedules;
pub mod structs;
pub mod systems;
pub mod text;

verus! {

/// Accrued progress at or above this value makes a combatant a candidate
/// for the next turn.
pub const TURN_THRESHOLD: u16 = 100;

} // verus!
