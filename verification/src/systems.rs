use vstd::prelude::*;
use vstd::pervasive::VecAdditionalExecFns;

use crate::structs::{Combatant, Health, IsTurn, Player, TurnProgress, TurnSpeed, Weapon};
use crate::text::{
    damage_message, death_message, end_turn_message, grant_message, hit_message,
    invalid_target_message, make_damage_message, make_death_message, make_end_turn_message,
    make_grant_message, make_hit_message, make_invalid_target_message, make_progress_message,
    make_victory_message, progress_message, victory_message,
};
use crate::TURN_THRESHOLD;

verus! {

/// Well-formedness of the component store: ids are the position plus one
/// (so lookups by id are direct), and at most one combatant carries the
/// turn marker.
pub open spec fn combatants_wf(s: Seq<Combatant>) -> bool {
    &&& s.len() <= u32::MAX
    &&& forall|i: int| 0 <= i < s.len() ==> (#[trigger] s[i].player.id) == i + 1
    &&& forall|i: int, j: int|
        0 <= i < s.len() && 0 <= j < s.len() && (#[trigger] s[i].turn).is_some() && (
        #[trigger] s[j].turn).is_some() ==> i == j
}

/// Some combatant carries the turn marker.
pub open spec fn has_turn_holder(s: Seq<Combatant>) -> bool {
    exists|i: int| 0 <= i < s.len() && (#[trigger] s[i].turn).is_some()
}

/// The position of the combatant carrying the turn marker (meaningful when
/// one exists; unique under well-formedness).
pub open spec fn turn_holder(s: Seq<Combatant>) -> int {
    choose|i: int| 0 <= i < s.len() && (#[trigger] s[i].turn).is_some()
}

/// Addition on progress counters, saturating at the top of the counter
/// range instead of overflowing.
pub open spec fn sat_add_u16(a: u16, b: u16) -> u16 {
    if a + b > u16::MAX {
        u16::MAX
    } else {
        (a + b) as u16
    }
}

/// One combatant after the accrual pass: living combatants gain their
/// speed as progress, everyone else is untouched.
pub open spec fn accrued_combatant(c: Combatant) -> Combatant {
    if c.alive.is_some() {
        Combatant {
            progress: TurnProgress { progress: sat_add_u16(c.progress.progress, c.speed.speed) },
            ..c
        }
    } else {
        c
    }
}

/// The store after the accrual pass.
pub open spec fn accrue_seq(s: Seq<Combatant>) -> Seq<Combatant> {
    s.map_values(|c: Combatant| accrued_combatant(c))
}

/// A candidate for the turn: living, with progress at or above the
/// threshold.
pub open spec fn is_candidate(c: Combatant) -> bool {
    c.alive.is_some() && c.progress.progress >= TURN_THRESHOLD
}

/// The store after position `j` receives the turn: its marker is set and
/// its progress is reset to zero; nobody else changes.
pub open spec fn grant_at(s: Seq<Combatant>, j: int) -> Seq<Combatant> {
    s.update(
        j,
        Combatant { progress: TurnProgress { progress: 0 }, turn: Some(IsTurn), ..s[j] },
    )
}

/// Arbitration granted the turn to position `j`: everyone living accrued,
/// `j` was a candidate afterwards and received the turn.
pub open spec fn arbitration_grants(s: Seq<Combatant>, s2: Seq<Combatant>, j: int) -> bool {
    let acc = accrue_seq(s);
    &&& 0 <= j < acc.len()
    &&& is_candidate(acc[j])
    &&& s2 == grant_at(acc, j)
}

/// The progress narration of the accrual pass, one entry per living
/// combatant, in store order.
pub open spec fn progress_messages(s: Seq<Combatant>) -> Seq<Seq<char>>
    decreases s.len(),
{
    if s.len() == 0 {
        Seq::empty()
    } else {
        progress_messages(s.drop_last()) + (if s.last().alive.is_some() {
            seq![progress_message(s.last().player.name@, s.last().progress.progress)]
        } else {
            Seq::empty()
        })
    }
}

/// The views of a batch of narration strings.
pub open spec fn views_of(ms: Seq<String>) -> Seq<Seq<char>> {
    ms.map_values(|m: String| m@)
}

/// A placeholder combatant, used only to swap a real one out of the store
/// for a field update.
fn blank_combatant() -> Combatant {
    Combatant {
        player: Player { id: 0, name: String::new() },
        weapon: Weapon { damage: 0, name: String::new() },
        health: Health { hp: 0 },
        speed: TurnSpeed { speed: 0 },
        progress: TurnProgress { progress: 0 },
        alive: None,
        turn: None,
    }
}

/// Sets the progress counter of the combatant at `i`.
fn set_progress(combatants: &mut Vec<Combatant>, i: usize, p: u16)
    requires
        i < old(combatants)@.len(),
    ensures
        final(combatants)@ == old(combatants)@.update(
            i as int,
            Combatant { progress: TurnProgress { progress: p }, ..old(combatants)@[i as int] },
        ),
{
    let ghost s0 = combatants@;
    let mut tmp = blank_combatant();
    combatants.set_and_swap(i, &mut tmp);
    tmp.progress.progress = p;
    combatants.set_and_swap(i, &mut tmp);
    proof {
        assert(combatants@ =~= s0.update(
            i as int,
            Combatant { progress: TurnProgress { progress: p }, ..s0[i as int] },
        ));
    }
}

/// Sets the turn marker of the combatant at `i` and resets its progress,
/// carrying out a grant decision.
fn set_granted(combatants: &mut Vec<Combatant>, i: usize)
    requires
        i < old(combatants)@.len(),
    ensures
        final(combatants)@ == grant_at(old(combatants)@, i as int),
{
    let ghost s0 = combatants@;
    let mut tmp = blank_combatant();
    combatants.set_and_swap(i, &mut tmp);
    tmp.progress.progress = 0;
    tmp.turn = Some(IsTurn);
    combatants.set_and_swap(i, &mut tmp);
    proof {
        assert(combatants@ =~= grant_at(s0, i as int));
    }
}

/// Removes the turn marker of the combatant at `i`.
fn clear_turn(combatants: &mut Vec<Combatant>, i: usize)
    requires
        i < old(combatants)@.len(),
    ensures
        final(combatants)@ == old(combatants)@.update(
            i as int,
            Combatant { turn: None, ..old(combatants)@[i as int] },
        ),
{
    let ghost s0 = combatants@;
    let mut tmp = blank_combatant();
    combatants.set_and_swap(i, &mut tmp);
    tmp.turn = None;
    combatants.set_and_swap(i, &mut tmp);
    proof {
        assert(combatants@ =~= s0.update(
            i as int,
            Combatant { turn: None, ..s0[i as int] },
        ));
    }
}

/// Removes the living marker of the combatant at `i`.
fn clear_alive(combatants: &mut Vec<Combatant>, i: usize)
    requires
        i < old(combatants)@.len(),
    ensures
        final(combatants)@ == old(combatants)@.update(
            i as int,
            Combatant { alive: None, ..old(combatants)@[i as int] },
        ),
{
    let ghost s0 = combatants@;
    let mut tmp = blank_combatant();
    combatants.set_and_swap(i, &mut tmp);
    tmp.alive = None;
    combatants.set_and_swap(i, &mut tmp);
    proof {
        assert(combatants@ =~= s0.update(
            i as int,
            Combatant { alive: None, ..s0[i as int] },
        ));
    }
}

/// Sets the hit points of the combatant at `i`.
fn set_hp(combatants: &mut Vec<Combatant>, i: usize, hp: i16)
    requires
        i < old(combatants)@.len(),
    ensures
        final(combatants)@ == old(combatants)@.update(
            i as int,
            Combatant { health: Health { hp }, ..old(combatants)@[i as int] },
        ),
{
    let ghost s0 = combatants@;
    let mut tmp = blank_combatant();
    combatants.set_and_swap(i, &mut tmp);
    tmp.health.hp = hp;
    combatants.set_and_swap(i, &mut tmp);
    proof {
        assert(combatants@ =~= s0.update(
            i as int,
            Combatant { health: Health { hp }, ..s0[i as int] },
        ));
    }
}

/// Pushing a narration string pushes its view.
proof fn lemma_views_push(ms: Seq<String>, m: String)
    ensures
        views_of(ms.push(m)) == views_of(ms).push(m@),
{
    assert(views_of(ms.push(m)) =~= views_of(ms).push(m@));
}

/// Unfolds one step of the progress narration over a prefix.
proof fn lemma_progress_messages_step(s: Seq<Combatant>, i: int)
    requires
        0 <= i < s.len(),
    ensures
        progress_messages(s.take(i + 1)) == progress_messages(s.take(i)) + (if s[
            i
        ].alive.is_some() {
            seq![progress_message(s[i].player.name@, s[i].progress.progress)]
        } else {
            Seq::<Seq<char>>::empty()
        }),
{
    assert(s.take(i + 1).drop_last() =~= s.take(i));
    assert(s.take(i + 1).last() == s[i]);
}

/// Each tick, adds every living combatant's speed to its progress
/// (saturating), emits the progress narration, and selects at most one
/// candidate (living, progress at or above the threshold) to receive the
/// turn. A single candidate is chosen outright; among several, one is
/// drawn at random with probability proportional to its progress. The
/// chosen combatant's progress resets to zero and its id is returned;
/// everyone else keeps the accrued progress.
pub fn race_for_turn(combatants: &mut Vec<Combatant>, messages: &mut Vec<String>) -> (granted:
    Option<u32>)
    requires
        combatants_wf(old(combatants)@),
        !has_turn_holder(old(combatants)@),
    ensures
        combatants_wf(final(combatants)@),
        match granted {
            None => {
                &&& final(combatants)@ == accrue_seq(old(combatants)@)
                &&& !has_turn_holder(final(combatants)@)
                &&& forall|k: int|
                    0 <= k < old(combatants)@.len() ==> !is_candidate(
                        #[trigger] accrue_seq(old(combatants)@)[k],
                    )
                &&& views_of(final(messages)@) == views_of(old(messages)@) + progress_messages(
                    accrue_seq(old(combatants)@),
                )
            },
            Some(id) => exists|j: int|
                {
                    &&& #[trigger] arbitration_grants(old(combatants)@, final(combatants)@, j)
                    &&& id == j + 1
                    &&& views_of(final(messages)@) == views_of(old(messages)@) + progress_messages(
                        accrue_seq(old(combatants)@),
                    ) + seq![grant_message(accrue_seq(old(combatants)@)[j].player.name@)]
                },
        },
{
    let ghost s0 = combatants@;
    let ghost acc = accrue_seq(s0);
    let ghost m0 = messages@;
    let n = combatants.len();
    let mut cand: Vec<usize> = Vec::new();
    let mut weights: Vec<u64> = Vec::new();
    let mut i: usize = 0;
    while i < n
        invariant
            n == s0.len(),
            combatants@.len() == n,
            i <= n,
            acc == accrue_seq(s0),
            acc.len() == n,
            combatants_wf(s0),
            forall|k: int| 0 <= k < i ==> combatants@[k] == acc[k],
            forall|k: int| i <= k < n ==> combatants@[k] == s0[k],
            cand@.len() == weights@.len(),
            cand@.len() <= i,
            forall|t: int|
                0 <= t < cand@.len() ==> (#[trigger] cand@[t]) < i && is_candidate(
                    acc[cand@[t] as int],
                ) && weights@[t] == acc[cand@[t] as int].progress.progress,
            forall|k: int|
                0 <= k < i && is_candidate(#[trigger] acc[k]) ==> exists|t: int|
                    0 <= t < cand@.len() && cand@[t] == k,
            views_of(messages@) == views_of(m0) + progress_messages(acc.take(i as int)),
        decreases n - i,
    {
        let ghost msgs_before = messages@;
        let ghost cand_before = cand@;
        if combatants[i].alive.is_some() {
            let p = combatants[i].progress.progress;
            let sp = combatants[i].speed.speed;
            let wide: u32 = p as u32 + sp as u32;
            let np: u16 = if wide > 65535 {
                65535
            } else {
                wide as u16
            };
            set_progress(combatants, i, np);
            proof {
                assert(combatants@[i as int] == acc[i as int]);
            }
            let msg = make_progress_message(&combatants[i].player.name, np);
            messages.push(msg);
            if np >= TURN_THRESHOLD {
                cand.push(i);
                weights.push(np as u64);
            }
            proof {
                lemma_views_push(msgs_before, messages@.last());
            }
        }
        proof {
            lemma_progress_messages_step(acc, i as int);
            assert(views_of(messages@) =~= views_of(m0) + progress_messages(
                acc.take(i as int + 1),
            ));
            assert forall|k: int|
                0 <= k < i + 1 && is_candidate(#[trigger] acc[k]) implies exists|t: int|
                0 <= t < cand@.len() && cand@[t] == k by {
                if k == i {
                    assert(cand@[cand@.len() - 1] == k);
                } else {
                    let t = choose|t: int| 0 <= t < cand_before.len() && cand_before[t] == k;
                    assert(cand@[t] == k);
                }
            }
        }
        i += 1;
    }
    proof {
        assert(acc.take(n as int) =~= acc);
        assert(combatants@ =~= acc);
    }
    if cand.len() == 0 {
        proof {
            assert(forall|k: int|
                0 <= k < n ==> !is_candidate(#[trigger] acc[k])) by {
                assert forall|k: int| 0 <= k < n implies !is_candidate(#[trigger] acc[k]) by {
                    if is_candidate(acc[k]) {
                        let t = choose|t: int| 0 <= t < cand@.len() && cand@[t] == k;
                        assert(false);
                    }
                }
            }
            assert forall|k: int|
                0 <= k < combatants@.len() implies (#[trigger] combatants@[k]).turn.is_none() by {
                assert(s0[k].turn.is_none());
            }
        }
        None
    } else {
        let j: usize = if cand.len() == 1 {
            cand[0]
        } else {
            proof {
                assert forall|t: int| 0 <= t < weights@.len() implies #[trigger] weights@[t]
                    <= 65535 by {
                    assert(cand@[t] < n);
                }
                assert forall|t: int| 0 <= t < weights@.len() implies #[trigger] weights@[t]
                    >= 1 by {
                    assert(cand@[t] < n);
                    assert(is_candidate(acc[cand@[t] as int]));
                }
                crate::rand_draw::lemma_seq_sum_bound(weights@, 65535);
                assert(crate::rand_draw::seq_sum(weights@) <= u64::MAX) by (nonlinear_arith)
                    requires
                        crate::rand_draw::seq_sum(weights@) <= 65535 * weights@.len(),
                        weights@.len() <= n,
                        n <= 4294967295,
                ;
            }
            let k = crate::rand_draw::draw_weighted_index(&weights);
            cand[k]
        };
        let ghost jj = j as int;
        proof {
            assert(is_candidate(acc[jj]));
        }
        set_granted(combatants, j);
        let msg = make_grant_message(&combatants[j].player.name);
        let ghost msgs_before = messages@;
        messages.push(msg);
        let id = combatants[j].player.id;
        proof {
            lemma_views_push(msgs_before, messages@.last());
            assert(arbitration_grants(s0, combatants@, jj));
            assert(id == jj + 1);
            assert(views_of(messages@) =~= views_of(m0) + progress_messages(acc) + seq![
                grant_message(acc[jj].player.name@),
            ]);
            assert forall|a: int, b: int|
                0 <= a < combatants@.len() && 0 <= b < combatants@.len() && (
                #[trigger] combatants@[a]).turn.is_some() && (
                #[trigger] combatants@[b]).turn.is_some() implies a == b by {
                if a != jj {
                    assert(s0[a].turn.is_none());
                }
                if b != jj {
                    assert(s0[b].turn.is_none());
                }
            }
        }
        Some(id)
    }
}

/// Hit points after taking `damage`, saturating at the bottom of the
/// health range instead of overflowing (health may go negative).
pub open spec fn attack_damage(hp: i16, damage: u16) -> i16 {
    if hp - damage < i16::MIN {
        i16::MIN
    } else {
        (hp - damage) as i16
    }
}

/// `id` names a living, non-acting combatant.
pub open spec fn valid_target(s: Seq<Combatant>, id: u32) -> bool {
    &&& 1 <= id <= s.len()
    &&& s[id - 1].alive.is_some()
    &&& s[id - 1].turn.is_none()
}

/// The store after the combatant at `j` attacks the combatant with id
/// `id`: the target loses the attacker's weapon damage in hit points. An
/// invalid target leaves the store untouched (the defensive fallback).
pub open spec fn attack_result(s: Seq<Combatant>, j: int, id: u32) -> Seq<Combatant> {
    if valid_target(s, id) {
        s.update(
            id - 1,
            Combatant {
                health: Health { hp: attack_damage(s[id - 1].health.hp, s[j].weapon.damage) },
                ..s[id - 1]
            },
        )
    } else {
        s
    }
}

/// The narration of an attack: strike and damage report, or the defensive
/// fallback message for an invalid target.
pub open spec fn attack_messages(s: Seq<Combatant>, j: int, id: u32) -> Seq<Seq<char>> {
    if valid_target(s, id) {
        seq![
            hit_message(s[j].player.name@, s[id - 1].player.name@, s[j].weapon.name@),
            damage_message(
                s[id - 1].player.name@,
                s[j].weapon.damage,
                attack_damage(s[id - 1].health.hp, s[j].weapon.damage),
            ),
        ]
    } else {
        seq![invalid_target_message(s[j].player.name@)]
    }
}

/// This combatant dies at the mortality check: still marked living, with
/// hit points at or below zero.
pub open spec fn dies(c: Combatant) -> bool {
    c.alive.is_some() && c.health.hp <= 0
}

/// One combatant after the mortality check.
pub open spec fn mortality_combatant(c: Combatant) -> Combatant {
    if dies(c) {
        Combatant { alive: None, ..c }
    } else {
        c
    }
}

/// The store after the mortality check: every living combatant with hit
/// points at or below zero loses the living marker.
pub open spec fn mortality_seq(s: Seq<Combatant>) -> Seq<Combatant> {
    s.map_values(|c: Combatant| mortality_combatant(c))
}

/// Some combatant dies at the mortality check.
pub open spec fn any_death(s: Seq<Combatant>) -> bool {
    exists|i: int| 0 <= i < s.len() && dies(#[trigger] s[i])
}

/// The mortality narration, one entry per dying combatant, in store order.
pub open spec fn death_messages(s: Seq<Combatant>) -> Seq<Seq<char>>
    decreases s.len(),
{
    if s.len() == 0 {
        Seq::empty()
    } else {
        death_messages(s.drop_last()) + (if dies(s.last()) {
            seq![death_message(s.last().player.name@)]
        } else {
            Seq::empty()
        })
    }
}

/// The number of combatants marked living.
pub open spec fn alive_count(s: Seq<Combatant>) -> nat
    decreases s.len(),
{
    if s.len() == 0 {
        0
    } else {
        alive_count(s.drop_last()) + (if s.last().alive.is_some() {
            1nat
        } else {
            0nat
        })
    }
}

/// The position of a combatant marked living (the survivor, when exactly
/// one is left).
pub open spec fn survivor_index(s: Seq<Combatant>) -> int {
    choose|i: int| 0 <= i < s.len() && (#[trigger] s[i].alive).is_some()
}

/// One combatant after turn cleanup.
pub open spec fn cleanup_combatant(c: Combatant) -> Combatant {
    Combatant { turn: None, ..c }
}

/// The store after turn cleanup: nobody carries the turn marker.
pub open spec fn cleanup_seq(s: Seq<Combatant>) -> Seq<Combatant> {
    s.map_values(|c: Combatant| cleanup_combatant(c))
}

/// The cleanup narration, one entry per combatant whose turn marker is
/// removed (at most one under well-formedness).
pub open spec fn end_turn_messages(s: Seq<Combatant>) -> Seq<Seq<char>>
    decreases s.len(),
{
    if s.len() == 0 {
        Seq::empty()
    } else {
        end_turn_messages(s.drop_last()) + (if s.last().turn.is_some() {
            seq![end_turn_message(s.last().player.name@)]
        } else {
            Seq::empty()
        })
    }
}

/// Unfolds one step of the mortality narration over a prefix.
proof fn lemma_death_messages_step(s: Seq<Combatant>, i: int)
    requires
        0 <= i < s.len(),
    ensures
        death_messages(s.take(i + 1)) == death_messages(s.take(i)) + (if dies(s[i]) {
            seq![death_message(s[i].player.name@)]
        } else {
            Seq::<Seq<char>>::empty()
        }),
{
    assert(s.take(i + 1).drop_last() =~= s.take(i));
    assert(s.take(i + 1).last() == s[i]);
}

/// Unfolds one step of the living count over a prefix.
proof fn lemma_alive_count_step(s: Seq<Combatant>, i: int)
    requires
        0 <= i < s.len(),
    ensures
        alive_count(s.take(i + 1)) == alive_count(s.take(i)) + (if s[i].alive.is_some() {
            1nat
        } else {
            0nat
        }),
{
    assert(s.take(i + 1).drop_last() =~= s.take(i));
    assert(s.take(i + 1).last() == s[i]);
}

/// Unfolds one step of the cleanup narration over a prefix.
proof fn lemma_end_turn_messages_step(s: Seq<Combatant>, i: int)
    requires
        0 <= i < s.len(),
    ensures
        end_turn_messages(s.take(i + 1)) == end_turn_messages(s.take(i)) + (if s[
            i
        ].turn.is_some() {
            seq![end_turn_message(s[i].player.name@)]
        } else {
            Seq::<Seq<char>>::empty()
        }),
{
    assert(s.take(i + 1).drop_last() =~= s.take(i));
    assert(s.take(i + 1).last() == s[i]);
}

/// A living count of one means there is a living combatant and every two
/// living positions coincide.
pub proof fn lemma_alive_count_one(s: Seq<Combatant>)
    requires
        alive_count(s) == 1,
    ensures
        exists|i: int| 0 <= i < s.len() && (#[trigger] s[i].alive).is_some(),
        forall|a: int, b: int|
            0 <= a < s.len() && 0 <= b < s.len() && (#[trigger] s[a].alive).is_some() && (
            #[trigger] s[b].alive).is_some() ==> a == b,
    decreases s.len(),
{
    lemma_alive_count_members(s);
}

/// The living count bounds which positions can be living: a count of zero
/// has none, and the count never undercounts two distinct living
/// positions.
proof fn lemma_alive_count_members(s: Seq<Combatant>)
    ensures
        alive_count(s) == 0 ==> forall|i: int|
            0 <= i < s.len() ==> (#[trigger] s[i].alive).is_none(),
        alive_count(s) >= 1 ==> exists|i: int| 0 <= i < s.len() && (#[trigger] s[i].alive).is_some(),
        alive_count(s) <= 1 ==> forall|a: int, b: int|
            0 <= a < s.len() && 0 <= b < s.len() && a != b && (#[trigger] s[a].alive).is_some() ==> (
            #[trigger] s[b].alive).is_none(),
    decreases s.len(),
{
    if s.len() > 0 {
        let p = s.drop_last();
        lemma_alive_count_members(p);
        if alive_count(s) == 0 {
            assert forall|i: int| 0 <= i < s.len() implies (#[trigger] s[i].alive).is_none() by {
                if i < s.len() - 1 {
                    assert(p[i].alive.is_none());
                    assert(s[i] == p[i]);
                }
            }
        }
        if alive_count(s) >= 1 {
            if s.last().alive.is_some() {
                assert(s[s.len() - 1].alive.is_some());
            } else {
                let w = choose|i: int| 0 <= i < p.len() && (#[trigger] p[i].alive).is_some();
                assert(s[w].alive.is_some());
            }
        }
        if alive_count(s) <= 1 {
            assert forall|a: int, b: int|
                0 <= a < s.len() && 0 <= b < s.len() && a != b && (
            #[trigger] s[a].alive).is_some() implies (#[trigger] s[b].alive).is_none() by {
                if s.last().alive.is_some() {
                    assert(alive_count(p) == 0);
                    if a < s.len() - 1 {
                        assert(p[a].alive.is_none());
                        assert(s[a] == p[a]);
                    } else {
                        assert(s[b] == p[b]);
                        assert(p[b].alive.is_none());
                    }
                } else {
                    if b == s.len() - 1 {
                        assert(s[b].alive.is_none());
                    } else if a == s.len() - 1 {
                        assert(s[a].alive.is_none());
                    } else {
                        assert(s[a] == p[a]);
                        assert(s[b] == p[b]);
                        assert(p[b].alive.is_none());
                    }
                }
            }
        }
    }
}

/// Resolves one attack: the combatant carrying the turn strikes the
/// combatant with id `target_id` for its weapon damage, with narration;
/// an invalid target draws the defensive fallback narration and no
/// damage.
pub fn attack(combatants: &mut Vec<Combatant>, messages: &mut Vec<String>, target_id: u32)
    requires
        combatants_wf(old(combatants)@),
        has_turn_holder(old(combatants)@),
    ensures
        combatants_wf(final(combatants)@),
        final(combatants)@ == attack_result(
            old(combatants)@,
            turn_holder(old(combatants)@),
            target_id,
        ),
        views_of(final(messages)@) == views_of(old(messages)@) + attack_messages(
            old(combatants)@,
            turn_holder(old(combatants)@),
            target_id,
        ),
{
    let ghost s0 = combatants@;
    let ghost m0 = messages@;
    let n = combatants.len();
    let mut ja: usize = 0;
    while ja < n
        invariant
            ja <= n,
            n == combatants@.len(),
            combatants@ == s0,
            has_turn_holder(s0),
            forall|k: int| 0 <= k < ja ==> (#[trigger] combatants@[k].turn).is_none(),
        ensures
            ja < n,
            combatants@ == s0,
            combatants@[ja as int].turn.is_some(),
        decreases n - ja,
    {
        if combatants[ja].turn.is_some() {
            break ;
        }
        proof {
            if ja + 1 == n {
                let h = choose|i: int| 0 <= i < s0.len() && (#[trigger] s0[i].turn).is_some();
                assert(s0[h].turn.is_some());
            }
        }
        ja += 1;
    }
    let ghost jh = turn_holder(s0);
    proof {
        assert(s0[jh].turn.is_some());
        assert(jh == ja as int);
    }
    let mut target_ok = false;
    let mut t: usize = 0;
    if target_id >= 1 && (target_id as usize) <= n {
        t = (target_id - 1) as usize;
        if combatants[t].alive.is_some() && combatants[t].turn.is_none() {
            target_ok = true;
        }
    }
    if target_ok {
        let dmg = combatants[ja].weapon.damage;
        let hp = combatants[t].health.hp;
        let wide: i32 = hp as i32 - dmg as i32;
        let nh: i16 = if wide < -32768 {
            -32768
        } else {
            wide as i16
        };
        let m1 = make_hit_message(
            &combatants[ja].player.name,
            &combatants[t].player.name,
            &combatants[ja].weapon.name,
        );
        messages.push(m1);
        proof {
            lemma_views_push(m0, messages@.last());
        }
        let ghost m_mid = messages@;
        let m2 = make_damage_message(&combatants[t].player.name, dmg, nh);
        messages.push(m2);
        set_hp(combatants, t, nh);
        proof {
            lemma_views_push(m_mid, messages@.last());
            assert(valid_target(s0, target_id));
            assert(combatants@ =~= attack_result(s0, jh, target_id));
            assert(views_of(messages@) =~= views_of(m0) + attack_messages(s0, jh, target_id));
        }
    } else {
        let m1 = make_invalid_target_message(&combatants[ja].player.name);
        messages.push(m1);
        proof {
            lemma_views_push(m0, messages@.last());
            assert(!valid_target(s0, target_id));
            assert(views_of(messages@) =~= views_of(m0) + attack_messages(s0, jh, target_id));
        }
    }
}

/// The mortality check: every living combatant with hit points at or
/// below zero loses the living marker, once and forever, with one
/// narration entry each. Returns whether anyone died.
pub fn update_alive(combatants: &mut Vec<Combatant>, messages: &mut Vec<String>) -> (any_died:
    bool)
    requires
        combatants_wf(old(combatants)@),
    ensures
        combatants_wf(final(combatants)@),
        final(combatants)@ == mortality_seq(old(combatants)@),
        views_of(final(messages)@) == views_of(old(messages)@) + death_messages(
            old(combatants)@,
        ),
        any_died == any_death(old(combatants)@),
{
    let ghost s0 = combatants@;
    let ghost m0 = messages@;
    let n = combatants.len();
    let mut any_died = false;
    let mut i: usize = 0;
    while i < n
        invariant
            i <= n,
            n == s0.len(),
            combatants@.len() == n,
            forall|k: int| 0 <= k < i ==> combatants@[k] == mortality_seq(s0)[k],
            forall|k: int| i <= k < n ==> combatants@[k] == s0[k],
            views_of(messages@) == views_of(m0) + death_messages(s0.take(i as int)),
            any_died == any_death(s0.take(i as int)),
        decreases n - i,
    {
        let ghost msgs_before = messages@;
        if combatants[i].alive.is_some() && combatants[i].health.hp <= 0 {
            let msg = make_death_message(&combatants[i].player.name);
            messages.push(msg);
            clear_alive(combatants, i);
            any_died = true;
            proof {
                lemma_views_push(msgs_before, messages@.last());
            }
        }
        proof {
            lemma_death_messages_step(s0, i as int);
            assert(views_of(messages@) =~= views_of(m0) + death_messages(s0.take(i as int + 1)));
            assert(s0.take(i as int + 1).drop_last() =~= s0.take(i as int));
            if any_death(s0.take(i as int + 1)) && !any_death(s0.take(i as int)) && !dies(
                s0[i as int],
            ) {
                let w = choose|w: int|
                    0 <= w < s0.take(i as int + 1).len() && dies(#[trigger] s0.take(i as int + 1)[w]);
                assert(dies(s0.take(i as int)[w]));
            }
            if dies(s0[i as int]) {
                assert(any_death(s0.take(i as int + 1)));
            }
        }
        i += 1;
    }
    proof {
        assert(s0.take(n as int) =~= s0);
        assert(combatants@ =~= mortality_seq(s0));
    }
    any_died
}

/// The end-of-match check: when exactly one living combatant remains, the
/// victory narration naming it is emitted and the match is reported
/// ended.
pub fn check_game_end(combatants: &Vec<Combatant>, messages: &mut Vec<String>) -> (ended: bool)
    ensures
        ended == (alive_count(combatants@) == 1),
        ended ==> views_of(final(messages)@) == views_of(old(messages)@) + seq![
            victory_message(combatants@[survivor_index(combatants@)].player.name@),
        ],
        !ended ==> final(messages)@ == old(messages)@,
{
    let ghost s0 = combatants@;
    let ghost m0 = messages@;
    let n = combatants.len();
    let mut cnt: usize = 0;
    let mut last: usize = 0;
    let mut i: usize = 0;
    while i < n
        invariant
            i <= n,
            n == s0.len(),
            combatants@ == s0,
            cnt <= i,
            cnt == alive_count(s0.take(i as int)),
            cnt >= 1 ==> last < i && s0[last as int].alive.is_some(),
        decreases n - i,
    {
        if combatants[i].alive.is_some() {
            cnt = cnt + 1;
            last = i;
        }
        proof {
            lemma_alive_count_step(s0, i as int);
        }
        i += 1;
    }
    proof {
        assert(s0.take(n as int) =~= s0);
    }
    if cnt == 1 {
        proof {
            lemma_alive_count_one(s0);
            let w = survivor_index(s0);
            assert(s0[w].alive.is_some());
            assert(w == last as int);
        }
        let msg = make_victory_message(&combatants[last].player.name);
        messages.push(msg);
        proof {
            lemma_views_push(m0, messages@.last());
            assert(views_of(messages@) =~= views_of(m0) + seq![
                victory_message(s0[survivor_index(s0)].player.name@),
            ]);
        }
        true
    } else {
        false
    }
}

/// Turn cleanup: removes the turn marker from whichever combatant holds
/// it, with one narration entry per removal.
pub fn end_turn(combatants: &mut Vec<Combatant>, messages: &mut Vec<String>)
    requires
        combatants_wf(old(combatants)@),
    ensures
        combatants_wf(final(combatants)@),
        final(combatants)@ == cleanup_seq(old(combatants)@),
        !has_turn_holder(final(combatants)@),
        views_of(final(messages)@) == views_of(old(messages)@) + end_turn_messages(
            old(combatants)@,
        ),
{
    let ghost s0 = combatants@;
    let ghost m0 = messages@;
    let n = combatants.len();
    let mut i: usize = 0;
    while i < n
        invariant
            i <= n,
            n == s0.len(),
            combatants@.len() == n,
            forall|k: int| 0 <= k < i ==> combatants@[k] == cleanup_seq(s0)[k],
            forall|k: int| i <= k < n ==> combatants@[k] == s0[k],
            views_of(messages@) == views_of(m0) + end_turn_messages(s0.take(i as int)),
        decreases n - i,
    {
        let ghost msgs_before = messages@;
        if combatants[i].turn.is_some() {
            let msg = make_end_turn_message(&combatants[i].player.name);
            messages.push(msg);
            clear_turn(combatants, i);
            proof {
                lemma_views_push(msgs_before, messages@.last());
            }
        }
        proof {
            lemma_end_turn_messages_step(s0, i as int);
            assert(views_of(messages@) =~= views_of(m0) + end_turn_messages(
                s0.take(i as int + 1),
            ));
        }
        i += 1;
    }
    proof {
        assert(s0.take(n as int) =~= s0);
        assert(combatants@ =~= cleanup_seq(s0));
    }
}

} // verus!
