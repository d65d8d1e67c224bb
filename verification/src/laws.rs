use vstd::prelude::*;

use crate::actions::ActionType;
use crate::schedules::{after_attack_stage, arbitration_view_rel, attack_stage_messages,
    resolve_view, survivor_name, view_wf, WorldView};
use crate::structs::Combatant;
use crate::systems::{accrue_seq, alive_count, arbitration_grants, attack_damage, cleanup_seq,
    death_messages, end_turn_messages, grant_at, has_turn_holder, is_candidate, mortality_seq,
    turn_holder, valid_target};
use crate::text::victory_message;
use crate::TURN_THRESHOLD;

verus! {

/// Law: with no combatant reaching the threshold, an arbitration tick
/// grants nothing — no decision is awaited afterwards and no combatant
/// carries the turn marker. Applied tick after tick (`tick` relates
/// every arbitration step by `arbitration_view_rel`), a match in which
/// nobody ever reaches the threshold never sets the awaited decision and
/// never shows a turn marker.
pub proof fn lemma_no_candidate_no_turn(v: WorldView, v2: WorldView)
    requires
        view_wf(v),
        v.pending.is_none(),
        v.need.is_none(),
        arbitration_view_rel(v, v2),
        forall|k: int|
            0 <= k < accrue_seq(v.combatants).len() ==> (#[trigger] accrue_seq(
                v.combatants,
            )[k]).progress.progress < TURN_THRESHOLD,
    ensures
        v2.need.is_none(),
        !has_turn_holder(v2.combatants),
{
    let acc = accrue_seq(v.combatants);
    assert(forall|k: int| 0 <= k < acc.len() ==> !is_candidate(#[trigger] acc[k]));
    assert(v2.combatants == acc);
    assert forall|i: int|
        0 <= i < v2.combatants.len() implies (#[trigger] v2.combatants[i].turn).is_none() by {
        assert(v.combatants[i].turn.is_none());
    }
}

/// Law: a living combatant that arbitration did not grant the turn keeps
/// its accrued progress — afterwards it stands at exactly its progress
/// before the tick plus its speed (stated away from the top of the
/// counter range, where accrual saturates instead).
pub proof fn lemma_ungranted_accrues(v: WorldView, v2: WorldView, i: int)
    requires
        view_wf(v),
        v.pending.is_none(),
        v.need.is_none(),
        arbitration_view_rel(v, v2),
        0 <= i < v.combatants.len(),
        v.combatants[i].alive.is_some(),
        v.combatants[i].progress.progress + v.combatants[i].speed.speed <= u16::MAX,
        v2.combatants[i].turn.is_none(),
    ensures
        v2.combatants[i].progress.progress == v.combatants[i].progress.progress
            + v.combatants[i].speed.speed,
{
    let acc = accrue_seq(v.combatants);
    if exists|k: int| 0 <= k < acc.len() && is_candidate(#[trigger] acc[k]) {
        let j = choose|j: int|
            {
                &&& #[trigger] arbitration_grants(v.combatants, v2.combatants, j)
                &&& v2.need == Some((j + 1) as u32)
                &&& v2.messages == v.messages + crate::systems::progress_messages(acc) + seq![
                    crate::text::grant_message(acc[j].player.name@),
                ]
            };
        assert(v2.combatants == grant_at(acc, j));
        assert(i != j);
        assert(v2.combatants[i] == acc[i]);
    } else {
        assert(v2.combatants == acc);
    }
}

/// Law: when arbitration grants a turn, exactly one combatant carries the
/// turn marker afterwards, even when several candidates crossed the
/// threshold in the same tick.
pub proof fn lemma_exactly_one_turn(v: WorldView, v2: WorldView)
    requires
        view_wf(v),
        v.pending.is_none(),
        v.need.is_none(),
        arbitration_view_rel(v, v2),
        v2.need.is_some(),
    ensures
        exists|i: int| 0 <= i < v2.combatants.len() && (#[trigger] v2.combatants[i].turn).is_some(),
        forall|a: int, b: int|
            0 <= a < v2.combatants.len() && 0 <= b < v2.combatants.len() && (
            #[trigger] v2.combatants[a].turn).is_some() && (#[trigger] v2.combatants[b].turn).is_some()
                ==> a == b,
{
    let acc = accrue_seq(v.combatants);
    assert(!(forall|k: int| 0 <= k < acc.len() ==> !is_candidate(#[trigger] acc[k])));
    let j = choose|j: int|
        {
            &&& #[trigger] arbitration_grants(v.combatants, v2.combatants, j)
            &&& v2.need == Some((j + 1) as u32)
            &&& v2.messages == v.messages + crate::systems::progress_messages(acc) + seq![
                crate::text::grant_message(acc[j].player.name@),
            ]
        };
    assert(v2.combatants == grant_at(acc, j));
    assert(v2.combatants[j].turn.is_some());
    assert forall|a: int, b: int|
        0 <= a < v2.combatants.len() && 0 <= b < v2.combatants.len() && (
        #[trigger] v2.combatants[a].turn).is_some() && (
    #[trigger] v2.combatants[b].turn).is_some() implies a == b by {
        if a != j {
            assert(v2.combatants[a] == acc[a]);
            assert(v.combatants[a].turn.is_some());
            assert(false);
        }
        if b != j {
            assert(v2.combatants[b] == acc[b]);
            assert(v.combatants[b].turn.is_some());
            assert(false);
        }
    }
}

/// Law: one accepted attack applies its damage exactly once — the
/// resolving tick lowers the target's hit points by the attacker's
/// weapon damage, and nobody else's hit points change. (The other half
/// of single use is `insert_action`: once an action is accepted no
/// decision is awaited, so a second submission fails and changes
/// nothing.)
pub proof fn lemma_attack_applies_once(v: WorldView, t: u32)
    requires
        view_wf(v),
        v.pending == Some(ActionType::Attack(t)),
    ensures
        resolve_view(v).combatants[t - 1].health.hp == attack_damage(
            v.combatants[t - 1].health.hp,
            v.combatants[turn_holder(v.combatants)].weapon.damage,
        ),
        forall|i: int|
            0 <= i < v.combatants.len() && i != t - 1 ==> (#[trigger] resolve_view(
                v,
            ).combatants[i]).health.hp == v.combatants[i].health.hp,
{
    assert(valid_target(v.combatants, t));
}

/// Law: a combatant without the living marker can never be targeted, and
/// a resolving tick leaves it dead, without the turn marker, and with
/// its progress untouched — it is permanently excluded.
pub proof fn lemma_dead_excluded_resolution(v: WorldView, i: int)
    requires
        view_wf(v),
        v.pending.is_some(),
        0 <= i < v.combatants.len(),
        v.combatants[i].alive.is_none(),
    ensures
        !valid_target(v.combatants, (i + 1) as u32),
        resolve_view(v).combatants[i].alive.is_none(),
        resolve_view(v).combatants[i].turn.is_none(),
        resolve_view(v).combatants[i].progress == v.combatants[i].progress,
{
    match v.pending {
        Some(ActionType::Attack(t)) => {
            assert(valid_target(v.combatants, t));
            assert(t - 1 != i);
        },
        _ => {},
    }
}

/// Law: an arbitration tick leaves a combatant without the living marker
/// untouched — no accrual, no turn marker, and the granted decision is
/// never awaited from it.
pub proof fn lemma_dead_excluded_arbitration(v: WorldView, v2: WorldView, i: int)
    requires
        view_wf(v),
        v.pending.is_none(),
        v.need.is_none(),
        arbitration_view_rel(v, v2),
        0 <= i < v.combatants.len(),
        v.combatants[i].alive.is_none(),
    ensures
        v2.combatants[i] == v.combatants[i],
        v2.combatants[i].turn.is_none(),
        v2.need != Some((i + 1) as u32),
{
    let acc = accrue_seq(v.combatants);
    assert(acc[i] == v.combatants[i]);
    if exists|k: int| 0 <= k < acc.len() && is_candidate(#[trigger] acc[k]) {
        let j = choose|j: int|
            {
                &&& #[trigger] arbitration_grants(v.combatants, v2.combatants, j)
                &&& v2.need == Some((j + 1) as u32)
                &&& v2.messages == v.messages + crate::systems::progress_messages(acc) + seq![
                    crate::text::grant_message(acc[j].player.name@),
                ]
            };
        assert(v2.combatants == grant_at(acc, j));
        assert(is_candidate(acc[j]));
        assert(i != j);
        assert(v2.combatants[i] == acc[i]);
    } else {
        assert(v2.combatants == acc);
    }
}

/// Turn cleanup does not change who is living.
proof fn lemma_cleanup_keeps_alive_count(s: Seq<Combatant>)
    ensures
        alive_count(cleanup_seq(s)) == alive_count(s),
    decreases s.len(),
{
    if s.len() > 0 {
        lemma_cleanup_keeps_alive_count(s.drop_last());
        assert(cleanup_seq(s).drop_last() =~= cleanup_seq(s.drop_last()));
        assert(cleanup_seq(s).last() == crate::systems::cleanup_combatant(s.last()));
    }
}

/// Law: the end-of-match event fires exactly on a resolving tick whose
/// mortality check leaves one living combatant, and that tick appends
/// the victory narration naming the survivor exactly once. Afterwards
/// the match stays ended and `tick` rejects every further call
/// unchanged, so the event fires at most once per match and the victory
/// narration is drained exactly once.
pub proof fn lemma_match_end_narrated_once(v: WorldView)
    requires
        view_wf(v),
        !v.ended,
        v.pending.is_some(),
        resolve_view(v).ended,
    ensures
        alive_count(resolve_view(v).combatants) == 1,
        resolve_view(v).messages == v.messages + attack_stage_messages(v) + death_messages(
            after_attack_stage(v),
        ) + seq![victory_message(survivor_name(v))] + end_turn_messages(
            mortality_seq(after_attack_stage(v)),
        ),
{
    lemma_cleanup_keeps_alive_count(mortality_seq(after_attack_stage(v)));
}

} // verus!
