use vstd::prelude::*;

verus! {

/// The action submitted by the external caller for the combatant that holds
/// the turn. Only `Attack` is resolved by the pipeline; `ChooseWeapon` and
/// `Heal` are accepted and consume the turn without an effect.
#[derive(PartialEq, Eq, Structural, Clone, Copy, Debug)]
pub enum ActionType {
    /// Attack the living, non-acting combatant with this id.
    Attack(u32),
    /// Switch to the weapon with this id (accepted, not resolved).
    ChooseWeapon(u32),
    /// Heal (accepted, not resolved).
    Heal,
    /// Explicitly do nothing with the turn.
    NoAction,
}

/// The kind of an action, as named by the external caller when submitting;
/// the target id is supplied separately.
#[derive(PartialEq, Eq, Structural, Clone, Copy, Debug)]
pub enum ActionKind {
    Attack,
    ChooseWeapon,
    Heal,
    NoAction,
}

/// Why a submitted action was rejected; the match state is unchanged on
/// every rejection.
#[derive(PartialEq, Eq, Structural, Clone, Copy, Debug)]
pub enum ActionError {
    /// No combatant is awaiting a decision.
    NoPendingAction,
    /// The action kind carries an id and none was supplied.
    MissingTarget,
    /// The target id does not name a living, non-acting combatant.
    InvalidTarget,
}

/// Returned by `tick` once the end-of-match event has fired.
#[derive(PartialEq, Eq, Structural, Clone, Copy, Debug)]
pub struct MatchEndedError;

/// Why a spawn request was rejected; the match state is unchanged on every
/// rejection.
#[derive(PartialEq, Eq, Structural, Clone, Copy, Debug)]
pub enum SpawnError {
    /// The match has already ended.
    MatchEnded,
    /// Every id has been handed out.
    RosterFull,
}

} // verus!
