use vstd::prelude::*;

verus! {

/// Monotonically accumulated turn progress; reset to zero exactly when the
/// combatant is chosen to act.
#[derive(Debug)]
pub struct TurnProgress {
    pub progress: u16,
}

/// Fixed per-tick increment added to a living combatant's turn progress.
#[derive(Debug)]
pub struct TurnSpeed {
    pub speed: u16,
}

/// Marker: this combatant is the current actor. At most one combatant
/// carries it at any instant after arbitration.
pub struct IsTurn;

/// Marker: this combatant is eligible for turn accrual, action, and being
/// attacked. Removed exactly once, when health drops to zero or below, and
/// never re-added.
pub struct IsAlive;

/// Stable identity of a combatant: numeric id (unique within a match) and a
/// display name. Immutable after spawn.
pub struct Player {
    pub id: u32,
    pub name: String,
}

/// Signed hit points; may go negative transiently before the mortality
/// check runs.
#[derive(Debug)]
pub struct Health {
    pub hp: i16,
}

/// A weapon: non-negative damage amount and a display name.
#[derive(Debug)]
pub struct Weapon {
    pub damage: u16,
    pub name: String,
}

/// All component data of one combatant. Marker components are present or
/// absent, as in the component store's marker queries.
pub struct Combatant {
    pub player: Player,
    pub weapon: Weapon,
    pub health: Health,
    pub speed: TurnSpeed,
    pub progress: TurnProgress,
    pub alive: Option<IsAlive>,
    pub turn: Option<IsTurn>,
}

/// Phase of the match, derived from the pending-action state and the
/// end-of-match event history.
#[derive(PartialEq, Eq, Structural, Clone, Copy, Debug)]
pub enum GameWorldState {
    /// Arbitration selected an actor and no action has been submitted yet.
    NeedAction,
    /// The match is running and no decision is awaited.
    Fighting,
    /// The end-of-match event has fired; every further tick fails.
    Done,
}

} // verus!
