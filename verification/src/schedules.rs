use vstd::prelude::*;

use crate::actions::{ActionError, ActionKind, ActionType, MatchEndedError, SpawnError};
use crate::structs::{Combatant, GameWorldState, Health, IsAlive, Player, TurnProgress, TurnSpeed,
    Weapon};
use crate::systems::{accrue_seq, alive_count, any_death, arbitration_grants, attack,
    attack_messages, attack_result, check_game_end, cleanup_seq, combatants_wf, death_messages,
    end_turn, end_turn_messages, grant_at, has_turn_holder, is_candidate, mortality_seq,
    progress_messages, race_for_turn, survivor_index, turn_holder, update_alive, valid_target,
    views_of};
use crate::text::{grant_message, victory_message};

verus! {

/// The abstract state of a match: the component store, the single-slot
/// pending action, the id of the combatant awaiting a decision, the
/// narration accumulated since the last drain, and whether the
/// end-of-match event has fired.
#[verifier::ext_equal]
pub struct WorldView {
    pub combatants: Seq<Combatant>,
    pub pending: Option<ActionType>,
    pub need: Option<u32>,
    pub messages: Seq<Seq<char>>,
    pub ended: bool,
}

/// Well-formedness of a match: the store is well-formed; a combatant
/// carries the turn marker exactly while a decision is awaited or an
/// accepted action is pending (never both); the awaited id names the turn
/// holder; turn holders are living; a pending attack names a living,
/// non-acting target; and an ended match awaits nothing.
pub open spec fn view_wf(v: WorldView) -> bool {
    &&& combatants_wf(v.combatants)
    &&& (has_turn_holder(v.combatants) <==> (v.need.is_some() || v.pending.is_some()))
    &&& !(v.need.is_some() && v.pending.is_some())
    &&& (v.need matches Some(id) ==> 1 <= id <= v.combatants.len() && v.combatants[id
        - 1].turn.is_some())
    &&& forall|i: int|
        0 <= i < v.combatants.len() && (#[trigger] v.combatants[i].turn).is_some()
            ==> v.combatants[i].alive.is_some()
    &&& (v.pending matches Some(a) ==> (a matches ActionType::Attack(t) ==> valid_target(
        v.combatants,
        t,
    )))
    &&& (v.ended ==> v.need.is_none() && v.pending.is_none())
}

/// The phase of a match, derived from the awaited decision and the
/// end-of-match history.
pub open spec fn spec_state(v: WorldView) -> GameWorldState {
    if v.ended {
        GameWorldState::Done
    } else if v.need.is_some() {
        GameWorldState::NeedAction
    } else {
        GameWorldState::Fighting
    }
}

/// The store after the attack-resolution stage runs on the pending
/// action: only a pending attack changes it.
pub open spec fn after_attack_stage(v: WorldView) -> Seq<Combatant> {
    match v.pending {
        Some(ActionType::Attack(t)) => attack_result(v.combatants, turn_holder(v.combatants), t),
        _ => v.combatants,
    }
}

/// The narration of the attack-resolution stage on the pending action.
pub open spec fn attack_stage_messages(v: WorldView) -> Seq<Seq<char>> {
    match v.pending {
        Some(ActionType::Attack(t)) => attack_messages(v.combatants, turn_holder(v.combatants), t),
        _ => Seq::<Seq<char>>::empty(),
    }
}

/// The end-of-match event fires on this resolving tick: someone dies at
/// the mortality check and exactly one living combatant remains. When
/// every combatant is dead at once there is no winner to name, so no
/// event fires and the match simply keeps rejecting nothing — ticks stay
/// legal and grant nothing, since nobody accrues.
pub open spec fn resolution_ends_match(v: WorldView) -> bool {
    any_death(after_attack_stage(v)) && alive_count(mortality_seq(after_attack_stage(v))) == 1
}

/// The name of the combatant the victory narration names: the survivor
/// after the mortality check.
pub open spec fn survivor_name(v: WorldView) -> Seq<char> {
    let s2 = mortality_seq(after_attack_stage(v));
    s2[survivor_index(s2)].player.name@
}

/// The match after the resolution stages run on a pending action: attack
/// resolution (for a pending attack), the mortality check, the
/// end-of-match check, and turn cleanup, with their narration in stage
/// order. Deterministic: every action-consuming tick is this function of
/// the state before it.
pub open spec fn resolve_view(v: WorldView) -> WorldView {
    let s1 = after_attack_stage(v);
    let s2 = mortality_seq(s1);
    let m3 = if resolution_ends_match(v) {
        seq![victory_message(survivor_name(v))]
    } else {
        Seq::<Seq<char>>::empty()
    };
    WorldView {
        combatants: cleanup_seq(s2),
        pending: None,
        need: None,
        messages: v.messages + attack_stage_messages(v) + death_messages(s1) + m3
            + end_turn_messages(s2),
        ended: v.ended || resolution_ends_match(v),
    }
}

/// How an arbitration tick relates the state before it to the state after
/// it: everyone living accrues speed as progress with the progress
/// narration; with no candidate nothing else changes, and otherwise some
/// candidate receives the turn, its id is awaited, and the grant is
/// narrated. The choice among several candidates is the weighted random
/// draw, so only membership in the candidates is stated.
pub open spec fn arbitration_view_rel(v: WorldView, v2: WorldView) -> bool {
    let acc = accrue_seq(v.combatants);
    &&& v2.pending.is_none()
    &&& v2.ended == v.ended
    &&& if (forall|k: int| 0 <= k < acc.len() ==> !is_candidate(#[trigger] acc[k])) {
        &&& v2.combatants == acc
        &&& v2.need.is_none()
        &&& v2.messages == v.messages + progress_messages(acc)
    } else {
        exists|j: int|
            {
                &&& #[trigger] arbitration_grants(v.combatants, v2.combatants, j)
                &&& v2.need == Some((j + 1) as u32)
                &&& v2.messages == v.messages + progress_messages(acc) + seq![
                    grant_message(acc[j].player.name@),
                ]
            }
    }
}

/// A freshly spawned combatant: the given id, name and health, the default
/// weapon and speed, no progress, living, without the turn.
pub open spec fn spawned_matches(c: Combatant, id: u32, name: Seq<char>, hp: i16) -> bool {
    &&& c.player.id == id
    &&& c.player.name@ == name
    &&& c.health.hp == hp
    &&& c.weapon.damage == DEFAULT_DAMAGE
    &&& c.weapon.name@ == "Kılıç"@
    &&& c.speed.speed == DEFAULT_SPEED
    &&& c.progress.progress == 0
    &&& c.alive.is_some()
    &&& c.turn.is_none()
}

/// An accepted submission: the action fills the single pending slot, the
/// awaited decision is cleared, and nothing else changes.
pub open spec fn accepted_with(v: WorldView, v2: WorldView, a: ActionType) -> bool {
    &&& v2.combatants == v.combatants
    &&& v2.messages == v.messages
    &&& v2.ended == v.ended
    &&& v2.need.is_none()
    &&& v2.pending == Some(a)
}

/// Damage of the weapon every combatant spawns with.
pub const DEFAULT_DAMAGE: u16 = 3;

/// Speed every combatant spawns with.
pub const DEFAULT_SPEED: u16 = 50;

/// A match: owns the component store, the narration queue, the pending
/// action slot and the awaited-decision slot, and exposes the tick
/// pipeline, spawning, action submission and the state queries.
pub struct GladoidGameWorld {
    combatants: Vec<Combatant>,
    pending_action: Option<ActionType>,
    need_action: Option<u32>,
    messages: Vec<String>,
    ended: bool,
}

impl View for GladoidGameWorld {
    type V = WorldView;

    closed spec fn view(&self) -> WorldView {
        WorldView {
            combatants: self.combatants@,
            pending: self.pending_action,
            need: self.need_action,
            messages: views_of(self.messages@),
            ended: self.ended,
        }
    }
}

impl GladoidGameWorld {
    /// The match invariant; established by `new` and preserved by every
    /// operation.
    pub open spec fn wf(self) -> bool {
        view_wf(self@)
    }

    /// Constructs an empty match, in progress, with no combatants.
    pub fn new() -> (w: GladoidGameWorld)
        ensures
            w.wf(),
            w@.combatants == Seq::<Combatant>::empty(),
            w@.pending.is_none(),
            w@.need.is_none(),
            w@.messages == Seq::<Seq<char>>::empty(),
            !w@.ended,
    {
        let w = GladoidGameWorld {
            combatants: Vec::new(),
            pending_action: None,
            need_action: None,
            messages: Vec::new(),
            ended: false,
        };
        proof {
            assert(w@.messages =~= Seq::<Seq<char>>::empty());
        }
        w
    }

    /// Whether a decision is awaited from the external caller.
    pub fn check_need_action(&self) -> (r: bool)
        ensures
            r == self@.need.is_some(),
    {
        self.need_action.is_some()
    }

    /// The id and name of the combatant a decision is awaited from, if
    /// any.
    pub fn check_need_action_from(&self) -> (r: Option<Player>)
        requires
            self.wf(),
        ensures
            self@.need.is_none() ==> r.is_none(),
            self@.need matches Some(id) ==> r matches Some(p) && p.id == id && p.name@
                == self@.combatants[id - 1].player.name@,
    {
        match self.need_action {
            None => None,
            Some(id) => {
                let idx = (id - 1) as usize;
                let name = self.combatants[idx].player.name.clone();
                Some(Player { id, name })
            },
        }
    }

    /// Whether the end-of-match event has fired.
    pub fn is_done(&self) -> (r: bool)
        ensures
            r == self@.ended,
    {
        self.ended
    }

    /// The phase of the match.
    pub fn get_state(&self) -> (r: GameWorldState)
        ensures
            r == spec_state(self@),
    {
        if self.ended {
            GameWorldState::Done
        } else if self.need_action.is_some() {
            GameWorldState::NeedAction
        } else {
            GameWorldState::Fighting
        }
    }

    /// The hit points of the combatant with this id, if it exists.
    pub fn get_health(&self, id: u32) -> (r: Option<i16>)
        ensures
            1 <= id <= self@.combatants.len() ==> r == Some(
                self@.combatants[id - 1].health.hp,
            ),
            !(1 <= id <= self@.combatants.len()) ==> r.is_none(),
    {
        if id >= 1 && (id as usize) <= self.combatants.len() {
            Some(self.combatants[(id - 1) as usize].health.hp)
        } else {
            None
        }
    }

    /// Whether the combatant with this id exists and is marked living.
    pub fn check_is_alive(&self, id: u32) -> (r: bool)
        ensures
            r == (1 <= id <= self@.combatants.len() && self@.combatants[id - 1].alive.is_some()),
    {
        if id >= 1 && (id as usize) <= self.combatants.len() {
            self.combatants[(id - 1) as usize].alive.is_some()
        } else {
            false
        }
    }

    /// Returns and clears all narration accumulated since the last drain,
    /// in emission order.
    pub fn get_game_messages(&mut self) -> (r: Vec<String>)
        requires
            old(self).wf(),
        ensures
            final(self).wf(),
            views_of(r@) == old(self)@.messages,
            final(self)@.messages == Seq::<Seq<char>>::empty(),
            final(self)@.combatants == old(self)@.combatants,
            final(self)@.pending == old(self)@.pending,
            final(self)@.need == old(self)@.need,
            final(self)@.ended == old(self)@.ended,
    {
        let mut out: Vec<String> = Vec::new();
        core::mem::swap(&mut out, &mut self.messages);
        proof {
            assert(self@.messages =~= Seq::<Seq<char>>::empty());
        }
        out
    }

    /// Adds a combatant with the given display name and starting health:
    /// default weapon, default speed, no progress, marked living. Its id
    /// is one more than the number of combatants before the call. Fails
    /// once the match has ended, or when every id has been handed out.
    pub fn spawn_player(&mut self, name: String, hp: i16) -> (r: Result<(), SpawnError>)
        requires
            old(self).wf(),
        ensures
            final(self).wf(),
            old(self)@.ended ==> r == Err::<(), SpawnError>(SpawnError::MatchEnded) && *final(self)
                == *old(self),
            !old(self)@.ended && old(self)@.combatants.len() == u32::MAX ==> r == Err::<
                (),
                SpawnError,
            >(SpawnError::RosterFull) && *final(self) == *old(self),
            !old(self)@.ended && old(self)@.combatants.len() < u32::MAX ==> {
                &&& r == Ok::<(), SpawnError>(())
                &&& final(self)@.combatants.len() == old(self)@.combatants.len() + 1
                &&& final(self)@.combatants.drop_last() == old(self)@.combatants
                &&& spawned_matches(
                    final(self)@.combatants.last(),
                    (old(self)@.combatants.len() + 1) as u32,
                    name@,
                    hp,
                )
                &&& final(self)@.pending == old(self)@.pending
                &&& final(self)@.need == old(self)@.need
                &&& final(self)@.messages == old(self)@.messages
                &&& final(self)@.ended == old(self)@.ended
            },
    {
        if self.ended {
            return Err(SpawnError::MatchEnded);
        }
        if self.combatants.len() >= u32::MAX as usize {
            return Err(SpawnError::RosterFull);
        }
        let ghost v0 = self@;
        let id: u32 = self.combatants.len() as u32 + 1;
        let combatant = Combatant {
            player: Player { id, name },
            weapon: Weapon { damage: DEFAULT_DAMAGE, name: String::from_str("Kılıç") },
            health: Health { hp },
            speed: TurnSpeed { speed: DEFAULT_SPEED },
            progress: TurnProgress { progress: 0 },
            alive: Some(IsAlive),
            turn: None,
        };
        self.combatants.push(combatant);
        proof {
            assert(self@.combatants.drop_last() =~= v0.combatants);
            assert forall|i: int|
                0 <= i < self@.combatants.len() implies (#[trigger] self@.combatants[i].player.id)
                == i + 1 by {
                if i < v0.combatants.len() {
                    assert(self@.combatants[i] == v0.combatants[i]);
                }
            }
            match v0.pending {
                Some(ActionType::Attack(t)) => {
                    assert(self@.combatants[t - 1] == v0.combatants[t - 1]);
                },
                _ => {},
            }
            match v0.need {
                Some(nid) => {
                    assert(self@.combatants[nid - 1] == v0.combatants[nid - 1]);
                },
                None => {},
            }
            if has_turn_holder(v0.combatants) {
                let h = choose|i: int|
                    0 <= i < v0.combatants.len() && (#[trigger] v0.combatants[i].turn).is_some();
                assert(self@.combatants[h].turn.is_some());
            }
        }
        Ok(())
    }

    /// Accepts exactly one action for the combatant a decision is awaited
    /// from, filling the single pending slot and clearing the awaited
    /// decision. Fails, leaving the match unchanged, when no decision is
    /// awaited, when `Attack` or `ChooseWeapon` comes without an id, or
    /// when an attack target does not name a living, non-acting
    /// combatant.
    pub fn insert_action(&mut self, kind: ActionKind, target_id: Option<u32>) -> (r: Result<
        (),
        ActionError,
    >)
        requires
            old(self).wf(),
        ensures
            final(self).wf(),
            old(self)@.need.is_none() ==> r == Err::<(), ActionError>(ActionError::NoPendingAction)
                && *final(self) == *old(self),
            old(self)@.need.is_some() ==> match kind {
                ActionKind::Attack => match target_id {
                    None => r == Err::<(), ActionError>(ActionError::MissingTarget) && *final(self)
                        == *old(self),
                    Some(t) => if valid_target(old(self)@.combatants, t) {
                        r == Ok::<(), ActionError>(()) && accepted_with(
                            old(self)@,
                            final(self)@,
                            ActionType::Attack(t),
                        )
                    } else {
                        r == Err::<(), ActionError>(ActionError::InvalidTarget) && *final(self)
                            == *old(self)
                    },
                },
                ActionKind::ChooseWeapon => match target_id {
                    None => r == Err::<(), ActionError>(ActionError::MissingTarget) && *final(self)
                        == *old(self),
                    Some(w) => r == Ok::<(), ActionError>(()) && accepted_with(
                        old(self)@,
                        final(self)@,
                        ActionType::ChooseWeapon(w),
                    ),
                },
                ActionKind::Heal => r == Ok::<(), ActionError>(()) && accepted_with(
                    old(self)@,
                    final(self)@,
                    ActionType::Heal,
                ),
                ActionKind::NoAction => r == Ok::<(), ActionError>(()) && accepted_with(
                    old(self)@,
                    final(self)@,
                    ActionType::NoAction,
                ),
            },
    {
        if self.need_action.is_none() {
            return Err(ActionError::NoPendingAction);
        }
        let action: ActionType = match kind {
            ActionKind::Attack => {
                match target_id {
                    None => {
                        return Err(ActionError::MissingTarget);
                    },
                    Some(t) => {
                        let mut ok = false;
                        if t >= 1 && (t as usize) <= self.combatants.len() {
                            let idx = (t - 1) as usize;
                            if self.combatants[idx].alive.is_some()
                                && self.combatants[idx].turn.is_none() {
                                ok = true;
                            }
                        }
                        if !ok {
                            return Err(ActionError::InvalidTarget);
                        }
                        ActionType::Attack(t)
                    },
                }
            },
            ActionKind::ChooseWeapon => {
                match target_id {
                    None => {
                        return Err(ActionError::MissingTarget);
                    },
                    Some(w) => ActionType::ChooseWeapon(w),
                }
            },
            ActionKind::Heal => ActionType::Heal,
            ActionKind::NoAction => ActionType::NoAction,
        };
        self.pending_action = Some(action);
        self.need_action = None;
        Ok(())
    }

    /// Advances the pipeline one step. Once the match has ended the call
    /// fails and nothing changes. With a pending action the resolution
    /// stages run (`resolve_view`): attack resolution, mortality check,
    /// end-of-match check, turn cleanup. While a decision is awaited and
    /// none has arrived the cycle is suspended and nothing changes.
    /// Otherwise arbitration runs (`arbitration_view_rel`): progress
    /// accrual and the grant of at most one turn.
    pub fn tick(&mut self) -> (r: Result<(), MatchEndedError>)
        requires
            old(self).wf(),
        ensures
            final(self).wf(),
            old(self)@.ended ==> r == Err::<(), MatchEndedError>(MatchEndedError) && *final(self)
                == *old(self),
            !old(self)@.ended ==> r == Ok::<(), MatchEndedError>(()),
            !old(self)@.ended && old(self)@.pending.is_some() ==> final(self)@ == resolve_view(
                old(self)@,
            ),
            !old(self)@.ended && old(self)@.pending.is_none() && old(self)@.need.is_some()
                ==> *final(self) == *old(self),
            !old(self)@.ended && old(self)@.pending.is_none() && old(self)@.need.is_none()
                ==> arbitration_view_rel(old(self)@, final(self)@),
    {
        if self.ended {
            return Err(MatchEndedError);
        }
        if self.pending_action.is_some() {
            let ghost v0 = self@;
            let ghost jh = turn_holder(v0.combatants);
            let action = self.pending_action;
            self.pending_action = None;
            match action {
                Some(ActionType::Attack(t)) => {
                    attack(&mut self.combatants, &mut self.messages, t);
                },
                _ => {},
            }
            let ghost s1 = self@.combatants;
            let ghost m_after_attack = self@.messages;
            proof {
                assert(m_after_attack =~= v0.messages + (match v0.pending {
                    Some(ActionType::Attack(t)) => attack_messages(v0.combatants, jh, t),
                    _ => Seq::<Seq<char>>::empty(),
                }));
            }
            let any_died = update_alive(&mut self.combatants, &mut self.messages);
            let ghost s2 = self@.combatants;
            if any_died {
                let over = check_game_end(&self.combatants, &mut self.messages);
                if over {
                    self.ended = true;
                }
            }
            end_turn(&mut self.combatants, &mut self.messages);
            self.need_action = None;
            proof {
                assert(self@ =~= resolve_view(v0));
            }
            Ok(())
        } else if self.need_action.is_some() {
            Ok(())
        } else {
            let ghost v0 = self@;
            let granted = race_for_turn(&mut self.combatants, &mut self.messages);
            self.need_action = granted;
            proof {
                let acc = accrue_seq(v0.combatants);
                match granted {
                    None => {
                        assert(self@.messages =~= v0.messages + progress_messages(acc));
                    },
                    Some(id) => {
                        let j = choose|j: int|
                            {
                                &&& #[trigger] arbitration_grants(v0.combatants, self@.combatants, j)
                                &&& id == j + 1
                                &&& views_of(self.messages@) == views_of(
                                    old(self).messages@,
                                ) + progress_messages(acc) + seq![
                                    grant_message(acc[j].player.name@),
                                ]
                            };
                        assert(self@.combatants == grant_at(acc, j));
                        assert(self@.combatants[j].turn.is_some());
                        assert(self@.combatants[j].alive.is_some());
                        assert(has_turn_holder(self@.combatants));
                        assert forall|i: int|
                            0 <= i < self@.combatants.len() && (
                            #[trigger] self@.combatants[i].turn).is_some() implies self@.combatants[i].alive.is_some() by {
                            assert(i == j);
                        }
                        assert(self@.messages =~= v0.messages + progress_messages(acc) + seq![
                            grant_message(acc[j].player.name@),
                        ]);
                    },
                }
            }
            Ok(())
        }
    }
}

} // verus!
