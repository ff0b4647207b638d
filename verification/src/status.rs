//! States that pets get into, and what these do at the end of a round.

use vstd::prelude::*;
use crate::effects;
use crate::elements;
use crate::log::{BattleLog, Log};
use crate::number;
use crate::number::{Overflow, push_int};
use crate::pet::{BattlePet, BattleSkill, Pet};
use crate::stats;
use crate::text;

verus! {

/// A pet after the health that freezing locks has been set anew: a twentieth of its health for
/// each layer, but never the last point; it has no more health than what is left usable.
pub open spec fn locked(p: Pet) -> Option<Pet> {
    let lock = stats::hp_part(p.hp, 5) * number::greater(p.freeze_layers, 0);
    if number::fits(lock) {
        let frozen = number::clamped(lock, 0, p.hp - 1);
        Some(
            Pet {
                frozen_hp_locked: frozen,
                cur_hp: number::lesser(p.cur_hp, number::greater(p.hp - frozen, 1)),
                ..p
            },
        )
    } else {
        None
    }
}

/// Sets the health that freezing locks anew.
pub fn recompute_frozen_hp_lock(pet: &mut BattlePet) -> (r: Result<(), Overflow>)
    requires
        old(pet)@.wf(),
    ensures
        (match r {
            Ok(_) => locked(old(pet)@) == Some(final(pet)@) && final(pet)@.follows(old(pet)@),
            Err(_) => locked(old(pet)@) is None && final(pet)@ == old(pet)@,
        }),
{
    let lock: i32 = number::product(
        stats::part_of_hp(pet.hp, 5),
        number::larger(pet.freeze_layers, 0),
    )?;
    let frozen: i32 = number::clamp(lock, 0, pet.hp - 1);
    let usable: i32 = number::larger(pet.hp - frozen, 1);
    pet.frozen_hp_locked = frozen;
    pet.cur_hp = number::smaller(pet.cur_hp, usable);
    Ok(())
}

/// A pet that leaves the field is rid of poison, burning and parasites, but neither of freezing
/// nor of a lesser form.
pub open spec fn cleansed(p: Pet) -> Pet {
    Pet { poison_layers: 0, burn_layers: 0, parasitic_layers: 0, ..p }
}

/// Takes poison, burning and parasites from a pet that leaves the field.
pub fn clear_switch_cleared_status(pet: &mut BattlePet)
    ensures
        final(pet)@ == cleansed(old(pet)@),
        old(pet)@.wf() ==> final(pet)@.follows(old(pet)@),
{
    pet.poison_layers = 0;
    pet.burn_layers = 0;
    pet.parasitic_layers = 0;
}

/// " 获得 n 层" and the name of the state.
pub open spec fn gained(p: Pet, n: int, what: Seq<char>) -> Seq<char> {
    p.name + " 获得 "@ + number::int_text(n) + what
}

fn gain_text(pet: &BattlePet, n: i32, what: &str) -> (r: String)
    ensures
        r@ == gained(pet@, n as int, what@),
{
    let mut m: String = pet.name.clone();
    m.append(" 获得 ");
    push_int(&mut m, n);
    m.append(what);
    m
}

/// "（当前可用上限 usable/hp）。" and a line feed.
pub open spec fn usable_text(p: Pet) -> Seq<char> {
    number::int_text(number::greater(p.hp - p.frozen_hp_locked, 1)) + "/"@ + number::int_text(p.hp)
        + "）。\n"@
}

pub fn push_usable(out: &mut String, pet: &BattlePet)
    requires
        pet@.wf(),
    ensures
        final(out)@ == old(out)@ + usable_text(pet@),
{
    let ghost before = out@;
    push_int(out, number::larger(pet.hp - pet.frozen_hp_locked, 1));
    out.append("/");
    push_int(out, pet.hp);
    out.append("）。\n");
    assert(out@ == before + usable_text(pet@));
}

/// Poison from a skill.
pub open spec fn poisoned(p: Pet, effect: Seq<char>, log: Log) -> Option<(Pet, Log)> {
    if text::has(effect, "中毒"@) && !p.has_element("毒"@) {
        let n = effects::layers(effect, "层中毒"@);
        if number::fits(p.poison_layers + n) {
            Some(
                (
                    Pet { poison_layers: p.poison_layers + n, ..p },
                    log.said(gained(p, n, " 层中毒。\n"@)),
                ),
            )
        } else {
            None
        }
    } else {
        Some((p, log))
    }
}

/// Burning from a skill.
pub open spec fn burned(p: Pet, effect: Seq<char>, log: Log) -> Option<(Pet, Log)> {
    if text::has(effect, "灼烧"@) && !p.has_element("火"@) {
        let n = effects::layers(effect, "层灼烧"@);
        if number::fits(p.burn_layers + n) {
            Some(
                (
                    Pet { burn_layers: p.burn_layers + n, ..p },
                    log.said(gained(p, n, " 层灼烧。\n"@)),
                ),
            )
        } else {
            None
        }
    } else {
        Some((p, log))
    }
}

/// Freezing from a skill.
pub open spec fn frozen(p: Pet, effect: Seq<char>, log: Log) -> Option<(Pet, Log)> {
    if text::has(effect, "冻结"@) && !p.has_element("冰"@) {
        let n = effects::layers(effect, "层冻结"@);
        if number::fits(p.freeze_layers + n) {
            match locked(Pet { freeze_layers: p.freeze_layers + n, ..p }) {
                Some(q) => Some(
                    (
                        q,
                        log.said(
                            gained(q, n, " 层冻结，冻结生命值 "@) + number::int_text(
                                q.frozen_hp_locked,
                            ) + "（当前可用上限 "@ + usable_text(q),
                        ),
                    ),
                ),
                None => None,
            }
        } else {
            None
        }
    } else {
        Some((p, log))
    }
}

/// Parasites from a skill.
pub open spec fn infested(p: Pet, effect: Seq<char>, log: Log) -> Option<(Pet, Log)> {
    if !text::has(effect, "寄生"@) {
        Some((p, log))
    } else if p.has_element("草"@) {
        Some((p, log.said(p.name + " 免疫寄生（草系免疫）。\n"@)))
    } else {
        let n = effects::layers(effect, "层寄生"@);
        if number::fits(p.parasitic_layers + n) {
            Some(
                (
                    Pet { parasitic_layers: p.parasitic_layers + n, ..p },
                    log.said(gained(p, n, " 层寄生。\n"@)),
                ),
            )
        } else {
            None
        }
    }
}

/// A lesser form from a skill, down to the least one.
pub open spec fn morphed(p: Pet, effect: Seq<char>, log: Log) -> (Pet, Log) {
    if !text::has(effect, "萌化"@) {
        (p, log)
    } else if p.morph_stage < 2 {
        let q = Pet { morph_stage: p.morph_stage + 1, ..p };
        let factor = elements::morph_factor(q.morph_stage);
        (
            q,
            log.said(
                q.name + " 受到萌化，当前形态阶段 "@ + number::int_text(q.morph_stage)
                    + "，种族值系数 "@ + number::int_text(factor / 10) + "."@ + number::int_text(
                    factor % 10,
                ) + "。\n"@,
            ),
        )
    } else {
        (p, log.said(p.name + " 已处于最低形态，萌化不再继续生效。\n"@))
    }
}

/// Every state that the text of a skill's effect names, in this order: poison, burning, freezing,
/// parasites, a lesser form.
#[verifier::opaque]
pub open spec fn afflicted(p: Pet, effect: Seq<char>, log: Log) -> Option<(Pet, Log)> {
    match poisoned(p, effect, log) {
        None => None,
        Some((p1, l1)) => match burned(p1, effect, l1) {
            None => None,
            Some((p2, l2)) => match frozen(p2, effect, l2) {
                None => None,
                Some((p3, l3)) => match infested(p3, effect, l3) {
                    None => None,
                    Some((p4, l4)) => Some(morphed(p4, effect, l4)),
                },
            },
        },
    }
}

fn apply_poison(defender: &mut BattlePet, effect: &str, log: &mut BattleLog) -> (r: Result<
    (),
    Overflow,
>)
    requires
        old(defender)@.wf(),
    ensures
        (match r {
            Ok(_) => poisoned(old(defender)@, effect@, old(log)@) == Some(
                (final(defender)@, final(log)@),
            ) && final(defender)@.follows(old(defender)@),
            Err(_) => poisoned(old(defender)@, effect@, old(log)@) is None,
        }),
{
    if text::contains(effect, "中毒") && !elements::is_immune_to_poison(defender) {
        let n: i32 = effects::layers_or_one(effect, "层中毒");
        defender.poison_layers = number::sum(defender.poison_layers, n)?;
        log.say(gain_text(defender, n, " 层中毒。\n"));
    }
    Ok(())
}

fn apply_burn(defender: &mut BattlePet, effect: &str, log: &mut BattleLog) -> (r: Result<
    (),
    Overflow,
>)
    requires
        old(defender)@.wf(),
    ensures
        (match r {
            Ok(_) => burned(old(defender)@, effect@, old(log)@) == Some(
                (final(defender)@, final(log)@),
            ) && final(defender)@.follows(old(defender)@),
            Err(_) => burned(old(defender)@, effect@, old(log)@) is None,
        }),
{
    if text::contains(effect, "灼烧") && !elements::is_immune_to_burn(defender) {
        let n: i32 = effects::layers_or_one(effect, "层灼烧");
        defender.burn_layers = number::sum(defender.burn_layers, n)?;
        log.say(gain_text(defender, n, " 层灼烧。\n"));
    }
    Ok(())
}

fn apply_freeze(defender: &mut BattlePet, effect: &str, log: &mut BattleLog) -> (r: Result<
    (),
    Overflow,
>)
    requires
        old(defender)@.wf(),
    ensures
        (match r {
            Ok(_) => frozen(old(defender)@, effect@, old(log)@) == Some(
                (final(defender)@, final(log)@),
            ) && final(defender)@.follows(old(defender)@),
            Err(_) => frozen(old(defender)@, effect@, old(log)@) is None,
        }),
{
    if text::contains(effect, "冻结") && !elements::is_immune_to_freeze(defender) {
        let n: i32 = effects::layers_or_one(effect, "层冻结");
        defender.freeze_layers = number::sum(defender.freeze_layers, n)?;
        recompute_frozen_hp_lock(defender)?;
        let mut m: String = gain_text(defender, n, " 层冻结，冻结生命值 ");
        push_int(&mut m, defender.frozen_hp_locked);
        m.append("（当前可用上限 ");
        push_usable(&mut m, defender);
        log.say(m);
    }
    Ok(())
}

fn apply_parasite(defender: &mut BattlePet, effect: &str, log: &mut BattleLog) -> (r: Result<
    (),
    Overflow,
>)
    requires
        old(defender)@.wf(),
    ensures
        (match r {
            Ok(_) => infested(old(defender)@, effect@, old(log)@) == Some(
                (final(defender)@, final(log)@),
            ) && final(defender)@.follows(old(defender)@),
            Err(_) => infested(old(defender)@, effect@, old(log)@) is None,
        }),
{
    if text::contains(effect, "寄生") {
        if elements::is_immune_to_parasite(defender) {
            let mut m: String = defender.name.clone();
            m.append(" 免疫寄生（草系免疫）。\n");
            log.say(m);
        } else {
            let n: i32 = effects::layers_or_one(effect, "层寄生");
            defender.parasitic_layers = number::sum(defender.parasitic_layers, n)?;
            log.say(gain_text(defender, n, " 层寄生。\n"));
        }
    }
    Ok(())
}

fn apply_morph(defender: &mut BattlePet, effect: &str, log: &mut BattleLog)
    requires
        old(defender)@.wf(),
    ensures
        (final(defender)@, final(log)@) == morphed(old(defender)@, effect@, old(log)@),
        final(defender)@.follows(old(defender)@),
{
    if text::contains(effect, "萌化") {
        let mut m: String = defender.name.clone();
        if defender.morph_stage < 2 {
            defender.morph_stage = defender.morph_stage + 1;
            let factor: i32 = elements::morph_stat_multiplier(defender);
            m.append(" 受到萌化，当前形态阶段 ");
            push_int(&mut m, defender.morph_stage as i32);
            m.append("，种族值系数 ");
            push_int(&mut m, factor / 10);
            m.append(".");
            push_int(&mut m, factor % 10);
            m.append("。\n");
        } else {
            m.append(" 已处于最低形态，萌化不再继续生效。\n");
        }
        log.say(m);
    }
}

/// Puts a pet into the states that a skill's effect names.
pub fn apply_status_from_skill(
    defender: &mut BattlePet,
    skill: &BattleSkill,
    log: &mut BattleLog,
) -> (r: Result<(), Overflow>)
    requires
        old(defender)@.wf(),
    ensures
        (match r {
            Ok(_) => afflicted(old(defender)@, skill@.effect, old(log)@) == Some(
                (final(defender)@, final(log)@),
            ) && final(defender)@.follows(old(defender)@),
            Err(_) => afflicted(old(defender)@, skill@.effect, old(log)@) is None,
        }),
{
    proof {
        reveal(afflicted);
    }
    let effect: &str = skill.effect.as_str();
    apply_poison(defender, effect, log)?;
    apply_burn(defender, effect, log)?;
    apply_freeze(defender, effect, log)?;
    apply_parasite(defender, effect, log)?;
    apply_morph(defender, effect, log);
    Ok(())
}

/// "name 受到state(n层)结算伤害 d，剩余 HP cur/hp" and a line feed.
pub open spec fn tick_text(p: Pet, state: Seq<char>, layers: int, dmg: int) -> Seq<char> {
    p.name + " 受到"@ + state + "("@ + number::int_text(layers) + "层)结算伤害 "@ + number::int_text(dmg)
        + "，剩余 HP "@ + number::int_text(p.cur_hp) + "/"@ + number::int_text(p.hp) + "\n"@
}

fn tick_message(pet: &BattlePet, state: &str, layers: i32, dmg: i32) -> (r: String)
    ensures
        r@ == tick_text(pet@, state@, layers as int, dmg as int),
{
    let mut m: String = pet.name.clone();
    m.append(" 受到");
    m.append(state);
    m.append("(");
    push_int(&mut m, layers);
    m.append("层)结算伤害 ");
    push_int(&mut m, dmg);
    m.append("，剩余 HP ");
    push_int(&mut m, pet.cur_hp);
    m.append("/");
    push_int(&mut m, pet.hp);
    m.append("\n");
    m
}

/// A pet that has lost `dmg` health, at least one point of it.
pub open spec fn hurt(p: Pet, dmg: int) -> Pet {
    Pet { cur_hp: number::greater(p.cur_hp - number::greater(dmg, 1), 0), ..p }
}

/// Poison at the end of a round: three hundredths of the health for each layer, times the type
/// factor of poison.
pub open spec fn poison_ticked(p: Pet, log: Log) -> (Pet, Log) {
    if p.poison_layers > 0 && p.alive() {
        let dmg = stats::tick(p, 3, p.poison_layers, "毒"@);
        let q = hurt(p, dmg);
        (q, log.said(tick_text(q, "中毒"@, q.poison_layers, number::greater(dmg, 1))))
    } else {
        (p, log)
    }
}

/// The layers of burning that are left after a round: half of them go, rounded up, at least one.
pub open spec fn burn_left(layers: int) -> int {
    number::greater(layers - number::greater((layers + 1) / 2, 1), 0)
}

/// Burning at the end of a round: two hundredths of the health for each layer, times the type
/// factor of fire; after that half of the layers go.
pub open spec fn burn_ticked(p: Pet, log: Log) -> Option<(Pet, Log)> {
    if p.burn_layers > 0 && p.alive() {
        if number::fits(p.burn_layers + 1) {
            let dmg = stats::tick(p, 2, p.burn_layers, "火"@);
            let q = hurt(p, dmg);
            Some(
                (
                    Pet { burn_layers: burn_left(p.burn_layers), ..q },
                    log.said(tick_text(q, "灼烧"@, q.burn_layers, number::greater(dmg, 1))),
                ),
            )
        } else {
            None
        }
    } else {
        Some((p, log))
    }
}

/// Parasites at the end of a round: six hundredths of the health for each layer, which the
/// opponent gains if it still stands, up to what it can use.
pub open spec fn parasite_ticked(p: Pet, opp: Pet, log: Log) -> Option<(Pet, Pet, Log)> {
    if p.parasitic_layers > 0 && p.alive() {
        let dmg = stats::hp_part(p.hp, 6) * number::greater(p.parasitic_layers, 1);
        let taken = number::greater(dmg, 1);
        if number::fits(dmg) && (opp.alive() ==> number::fits(opp.cur_hp + taken)) {
            let q = hurt(p, dmg);
            let fed = if opp.alive() {
                Pet {
                    cur_hp: number::greater(
                        number::lesser(opp.cur_hp + taken, opp.hp - opp.frozen_hp_locked),
                        1,
                    ),
                    ..opp
                }
            } else {
                opp
            };
            Some((q, fed, log.said(tick_text(q, "寄生"@, q.parasitic_layers, taken))))
        } else {
            None
        }
    } else {
        Some((p, opp, log))
    }
}

/// What the states of a pet do at the end of a round, in this order: poison, burning, parasites.
#[verifier::opaque]
pub open spec fn round_ended(p: Pet, opp: Pet, log: Log) -> Option<(Pet, Pet, Log)> {
    let (p1, l1) = poison_ticked(p, log);
    match burn_ticked(p1, l1) {
        None => None,
        Some((p2, l2)) => parasite_ticked(p2, opp, l2),
    }
}

/// Takes health from a pet, at least one point of it.
pub fn lose(pet: &mut BattlePet, dmg: i32)
    requires
        old(pet)@.wf(),
    ensures
        final(pet)@ == hurt(old(pet)@, dmg as int),
        final(pet)@.follows(old(pet)@),
{
    pet.cur_hp = number::larger(pet.cur_hp - number::larger(dmg, 1), 0);
}

fn tick_poison(pet: &mut BattlePet, log: &mut BattleLog)
    requires
        old(pet)@.wf(),
    ensures
        (final(pet)@, final(log)@) == poison_ticked(old(pet)@, old(log)@),
        final(pet)@.follows(old(pet)@),
{
    if pet.poison_layers > 0 && pet.cur_hp > 0 {
        let dmg: i32 = stats::status_tick(pet, 3, pet.poison_layers, "毒");
        lose(pet, dmg);
        log.say(tick_message(pet, "中毒", pet.poison_layers, number::larger(dmg, 1)));
    }
}

fn tick_burn(pet: &mut BattlePet, log: &mut BattleLog) -> (r: Result<(), Overflow>)
    requires
        old(pet)@.wf(),
    ensures
        (match r {
            Ok(_) => burn_ticked(old(pet)@, old(log)@) == Some((final(pet)@, final(log)@))
                && final(pet)@.follows(old(pet)@),
            Err(_) => burn_ticked(old(pet)@, old(log)@) is None,
        }),
{
    if pet.burn_layers > 0 && pet.cur_hp > 0 {
        let dmg: i32 = stats::status_tick(pet, 2, pet.burn_layers, "火");
        lose(pet, dmg);
        log.say(tick_message(pet, "灼烧", pet.burn_layers, number::larger(dmg, 1)));
        let decay: i32 = number::sum(pet.burn_layers, 1)? / 2;
        pet.burn_layers = number::larger(pet.burn_layers - number::larger(decay, 1), 0);
    }
    Ok(())
}

fn tick_parasite(pet: &mut BattlePet, opp: &mut BattlePet, log: &mut BattleLog) -> (r: Result<
    (),
    Overflow,
>)
    requires
        old(pet)@.wf(),
        old(opp)@.wf(),
    ensures
        (match r {
            Ok(_) => parasite_ticked(old(pet)@, old(opp)@, old(log)@) == Some(
                (final(pet)@, final(opp)@, final(log)@),
            ) && final(pet)@.follows(old(pet)@) && final(opp)@.follows(old(opp)@),
            Err(_) => parasite_ticked(old(pet)@, old(opp)@, old(log)@) is None,
        }),
{
    if pet.parasitic_layers > 0 && pet.cur_hp > 0 {
        let dmg: i32 = number::product(
            stats::part_of_hp(pet.hp, 6),
            number::larger(pet.parasitic_layers, 1),
        )?;
        let taken: i32 = number::larger(dmg, 1);
        lose(pet, dmg);
        log.say(tick_message(pet, "寄生", pet.parasitic_layers, taken));
        if opp.cur_hp > 0 {
            let fed: i32 = number::sum(opp.cur_hp, taken)?;
            opp.cur_hp = number::larger(number::smaller(fed, opp.hp - opp.frozen_hp_locked), 1);
        }
    }
    Ok(())
}

/// Lets the states of a pet do what they do at the end of a round.
pub fn apply_end_turn_status(
    pet: &mut BattlePet,
    opp: &mut BattlePet,
    log: &mut BattleLog,
) -> (r: Result<(), Overflow>)
    requires
        old(pet)@.wf(),
        old(opp)@.wf(),
    ensures
        (match r {
            Ok(_) => round_ended(old(pet)@, old(opp)@, old(log)@) == Some(
                (final(pet)@, final(opp)@, final(log)@),
            ) && final(pet)@.follows(old(pet)@) && final(opp)@.follows(old(opp)@),
            Err(_) => round_ended(old(pet)@, old(opp)@, old(log)@) is None,
        }),
{
    proof {
        reveal(round_ended);
    }
    tick_poison(pet, log);
    tick_burn(pet, log)?;
    tick_parasite(pet, opp, log)
}

} // verus!
