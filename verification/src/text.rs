use vstd::prelude::*;
use vstd::string::*;

verus! {

/// The decimal digit character for `d` (meaningful for `0 <= d <= 9`).
pub open spec fn digit_char(d: nat) -> char {
    if d == 0 {
        '0'
    } else if d == 1 {
        '1'
    } else if d == 2 {
        '2'
    } else if d == 3 {
        '3'
    } else if d == 4 {
        '4'
    } else if d == 5 {
        '5'
    } else if d == 6 {
        '6'
    } else if d == 7 {
        '7'
    } else if d == 8 {
        '8'
    } else {
        '9'
    }
}

/// The decimal rendering of `n`, without a sign and without leading zeros
/// (a single `'0'` for zero).
pub open spec fn dec_digits(n: nat) -> Seq<char>
    decreases n,
{
    if n < 10 {
        seq![digit_char(n)]
    } else {
        dec_digits(n / 10).push(digit_char(n % 10))
    }
}

/// The decimal rendering of `v`, with a leading `'-'` when negative.
pub open spec fn int_digits(v: int) -> Seq<char> {
    if v < 0 {
        seq!['-'] + dec_digits((-v) as nat)
    } else {
        dec_digits(v as nat)
    }
}

/// The one-character string for the decimal digit `d`.
fn digit_to_str(d: u64) -> (r: &'static str)
    requires
        d < 10,
    ensures
        r@ == seq![digit_char(d as nat)],
{
    proof {
        reveal_strlit("0");
        reveal_strlit("1");
        reveal_strlit("2");
        reveal_strlit("3");
        reveal_strlit("4");
        reveal_strlit("5");
        reveal_strlit("6");
        reveal_strlit("7");
        reveal_strlit("8");
        reveal_strlit("9");
    }
    let r: &'static str = if d == 0 {
        "0"
    } else if d == 1 {
        "1"
    } else if d == 2 {
        "2"
    } else if d == 3 {
        "3"
    } else if d == 4 {
        "4"
    } else if d == 5 {
        "5"
    } else if d == 6 {
        "6"
    } else if d == 7 {
        "7"
    } else if d == 8 {
        "8"
    } else {
        "9"
    };
    proof {
        assert(r@ =~= seq![digit_char(d as nat)]);
    }
    r
}

/// Renders `n` in decimal.
pub fn u64_to_string(n: u64) -> (r: String)
    ensures
        r@ == dec_digits(n as nat),
    decreases n,
{
    if n < 10 {
        String::from_str(digit_to_str(n))
    } else {
        let mut s = u64_to_string(n / 10);
        s.append(digit_to_str(n % 10));
        proof {
            assert(s@ =~= dec_digits(n as nat));
        }
        s
    }
}

/// Renders `n` in decimal.
pub fn u16_to_string(n: u16) -> (r: String)
    ensures
        r@ == dec_digits(n as nat),
{
    u64_to_string(n as u64)
}

/// Renders `v` in decimal, with a leading minus sign when negative.
pub fn i16_to_string(v: i16) -> (r: String)
    ensures
        r@ == int_digits(v as int),
{
    if v < 0 {
        let mut s = String::from_str("-");
        let wide: i64 = v as i64;
        let abs: u64 = (-wide) as u64;
        let digits = u64_to_string(abs);
        s.append(digits.as_str());
        proof {
            reveal_strlit("-");
            assert(s@ =~= int_digits(v as int));
        }
        s
    } else {
        u64_to_string(v as u64)
    }
}

/// Narration for a progress update during arbitration.
pub open spec fn progress_message(name: Seq<char>, progress: u16) -> Seq<char> {
    name + " has "@ + dec_digits(progress as nat) + " progress for a turn."@
}

/// Narration for the grant decision of arbitration.
pub open spec fn grant_message(name: Seq<char>) -> Seq<char> {
    "Giving turn to "@ + name + "."@
}

/// Narration for a resolved strike.
pub open spec fn hit_message(attacker: Seq<char>, target: Seq<char>, weapon: Seq<char>) -> Seq<
    char,
> {
    attacker + " hit "@ + target + " in the head with a "@ + weapon + "."@
}

/// Narration reporting the damage taken and the remaining health.
pub open spec fn damage_message(target: Seq<char>, damage: u16, hp: i16) -> Seq<char> {
    target + " took "@ + dec_digits(damage as nat) + " damage. "@ + target + " has "@ + int_digits(
        hp as int,
    ) + " hp left"@
}

/// Narration of the defensive fallback when an attack names a target that
/// is no longer in the store.
pub open spec fn invalid_target_message(attacker: Seq<char>) -> Seq<char> {
    attacker + " Attacked someone that does not exist... Somehow."@
}

/// Narration for the turn cleanup.
pub open spec fn end_turn_message(name: Seq<char>) -> Seq<char> {
    "Removing turn from "@ + name + "..."@
}

/// Narration of a mortality transition.
pub open spec fn death_message(name: Seq<char>) -> Seq<char> {
    name + " died."@
}

/// Narration naming the survivor when the match ends.
pub open spec fn victory_message(name: Seq<char>) -> Seq<char> {
    name + " won."@
}

/// Builds the progress-update narration.
pub fn make_progress_message(name: &String, progress: u16) -> (r: String)
    ensures
        r@ == progress_message(name@, progress),
{
    let mut s = name.clone();
    s.append(" has ");
    let digits = u16_to_string(progress);
    s.append(digits.as_str());
    s.append(" progress for a turn.");
    s
}

/// Builds the grant narration.
pub fn make_grant_message(name: &String) -> (r: String)
    ensures
        r@ == grant_message(name@),
{
    let mut s = String::from_str("Giving turn to ");
    s.append(name.as_str());
    s.append(".");
    s
}

/// Builds the strike narration.
pub fn make_hit_message(attacker: &String, target: &String, weapon: &String) -> (r: String)
    ensures
        r@ == hit_message(attacker@, target@, weapon@),
{
    let mut s = attacker.clone();
    s.append(" hit ");
    s.append(target.as_str());
    s.append(" in the head with a ");
    s.append(weapon.as_str());
    s.append(".");
    s
}

/// Builds the damage-report narration.
pub fn make_damage_message(target: &String, damage: u16, hp: i16) -> (r: String)
    ensures
        r@ == damage_message(target@, damage, hp),
{
    let mut s = target.clone();
    s.append(" took ");
    let damage_digits = u16_to_string(damage);
    s.append(damage_digits.as_str());
    s.append(" damage. ");
    s.append(target.as_str());
    s.append(" has ");
    let hp_digits = i16_to_string(hp);
    s.append(hp_digits.as_str());
    s.append(" hp left");
    s
}

/// Builds the defensive-fallback narration.
pub fn make_invalid_target_message(attacker: &String) -> (r: String)
    ensures
        r@ == invalid_target_message(attacker@),
{
    let mut s = attacker.clone();
    s.append(" Attacked someone that does not exist... Somehow.");
    s
}

/// Builds the turn-cleanup narration.
pub fn make_end_turn_message(name: &String) -> (r: String)
    ensures
        r@ == end_turn_message(name@),
{
    let mut s = String::from_str("Removing turn from ");
    s.append(name.as_str());
    s.append("...");
    s
}

/// Builds the mortality narration.
pub fn make_death_message(name: &String) -> (r: String)
    ensures
        r@ == death_message(name@),
{
    let mut s = name.clone();
    s.append(" died.");
    s
}

/// Builds the victory narration.
pub fn make_victory_message(name: &String) -> (r: String)
    ensures
        r@ == victory_message(name@),
{
    let mut s = name.clone();
    s.append(" won.");
    s
}

} // verus!
