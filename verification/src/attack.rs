//! One use of a skill: what it costs, what it does, and what it leaves behind.

use vstd::prelude::*;
use crate::effects;
use crate::elements;
use crate::field;
use crate::log::{BattleLog, Log};
use crate::number;
use crate::number::{Overflow, push_int};
use crate::pet;
use crate::pet::{BattlePet, BattleSkill, DedicationBuff, Pet, Side, Skill, WeatherState};
use crate::stats;
use crate::status;
use crate::text;
use crate::weather;

verus! {

/// Whether what dedication adds up is for a skill of that name.
pub open spec fn dedicated(skill_name: Seq<char>) -> bool {
    skill_name == "啃咬"@ || skill_name == "虫群"@
}

/// Whether what dedication adds up is for a skill of that name.
pub fn dedication_applies_to_skill(skill_name: &str) -> (r: bool)
    ensures
        r == dedicated(skill_name@),
{
    text::same(skill_name, "啃咬") || text::same(skill_name, "虫群")
}

/// The skill that a pet uses when it is told to use one of that name: its first skill where it
/// does not know such a one.
pub open spec fn used_skill(p: Pet, chosen: Seq<char>) -> Skill {
    if p.knows(chosen) {
        p.skills[p.skill_index(chosen)]
    } else {
        p.skills[0]
    }
}

/// What came of one use of a skill.
pub struct Strike {
    pub attacker: Pet,
    pub defender: Pet,
    pub weather: Option<WeatherState>,
    pub log: Log,
    /// The name of the pet and the element of the skill, where the pet did act.
    pub tally: Option<(Seq<char>, Seq<char>)>,
}

/// What a use of a skill costs.
pub open spec fn actual_cost(skill: Skill, ded: DedicationBuff, weather: Option<WeatherState>) -> int {
    number::greater(
        effects::cost_in(skill, weather) - (if dedicated(skill.name) {
            ded.cost_reduction_times * 2
        } else {
            0
        }),
        0,
    )
}

/// Whether a pet has the energy for a use of a skill.
pub open spec fn can_pay(
    attacker: Pet,
    chosen: Seq<char>,
    ded: DedicationBuff,
    weather: Option<WeatherState>,
) -> bool {
    attacker.energy >= actual_cost(used_skill(attacker, chosen), ded, weather)
}

/// What is said of a use of a skill that cannot be paid for.
pub open spec fn unpaid_text(side: Side, attacker: Pet, skill: Skill) -> Seq<char> {
    side.letter() + "方 "@ + attacker.name + " 试图使用 ["@ + skill.name
        + "]，能量不足，行动失败。\n"@
}

/// The power of a use of a skill: its own, what entering the field added, and dedication's.
pub open spec fn actual_power(attacker: Pet, skill: Skill, ded: DedicationBuff) -> int {
    number::greater(skill.power, 0) + attacker.entry_bonus_power + (if dedicated(skill.name) {
        ded.power_bonus_times * 20
    } else {
        0
    })
}

/// How often a use of a skill hits.
pub open spec fn actual_hits(skill: Skill, ded: DedicationBuff) -> int {
    number::greater(
        effects::hits(skill.effect) + (if dedicated(skill.name) {
            ded.combo_bonus_times as int
        } else {
            0
        }),
        1,
    )
}

/// Whether a use of a skill takes health.
pub open spec fn is_damage(attacker: Pet, skill: Skill, ded: DedicationBuff) -> bool {
    (skill.category == "物攻"@ || skill.category == "魔攻"@) && actual_power(attacker, skill, ded)
        > 0
}

/// What a use of a skill takes from the defender in all.
pub open spec fn total_damage(
    attacker: Pet,
    defender: Pet,
    skill: Skill,
    ded: DedicationBuff,
    weather: Option<WeatherState>,
) -> int {
    if is_damage(attacker, skill, ded) {
        number::greater(
            stats::hit_damage(
                attacker,
                defender,
                skill,
                actual_power(attacker, skill, ded),
                weather,
            ) * actual_hits(skill, ded),
            0,
        )
    } else {
        0
    }
}

/// Whether all numbers of a use of a skill are in range.
pub open spec fn strike_fits(
    attacker: Pet,
    defender: Pet,
    skill: Skill,
    ded: DedicationBuff,
    weather: Option<WeatherState>,
) -> bool {
    &&& number::fits(actual_power(attacker, skill, ded))
    &&& number::fits(actual_hits(skill, ded))
    &&& number::fits(total_damage(attacker, defender, skill, ded, weather))
}

/// What is said of a use of a skill; `defender` is what the hit left of it.
pub open spec fn strike_text(
    side: Side,
    attacker: Pet,
    defender: Pet,
    skill: Skill,
    cost: int,
    damage: Option<int>,
) -> Seq<char> {
    let used = side.letter() + "方 "@ + attacker.name + " 使用 ["@ + skill.name + "]，消耗"@
        + number::int_text(cost);
    let factor = elements::type_factor(skill.element, defender.element1, defender.element2);
    let done = match damage {
        None => used + "能量，施加状态/效果。"@,
        Some(dmg) => if factor == 100 {
            used + "能量，造成 "@ + number::int_text(dmg) + " 伤害。"@
        } else {
            used + "能量，造成 "@ + number::int_text(dmg) + " 伤害(克制x"@ + number::int_text(
                factor / 100,
            ) + "."@ + number::int_text(factor / 10 % 10) + number::int_text(factor % 10) + ")。"@
        },
    };
    done + defender.name + " HP: "@ + number::int_text(defender.cur_hp) + "/"@ + number::int_text(
        defender.hp,
    ) + "\n"@
}

/// The hit of a use of a skill, and what is said of it.
#[verifier::opaque]
pub open spec fn hit(
    side: Side,
    attacker: Pet,
    defender: Pet,
    skill: Skill,
    ded: DedicationBuff,
    weather: Option<WeatherState>,
    cost: int,
    log: Log,
) -> Option<(Pet, Pet, Log)> {
    if strike_fits(attacker, defender, skill, ded, weather) {
        let dmg = total_damage(attacker, defender, skill, ded, weather);
        let att = Pet { entry_bonus_power: 0, ..attacker };
        let def = Pet { cur_hp: number::greater(defender.cur_hp - dmg, 0), ..defender };
        let told = log.said(
            strike_text(
                side,
                att,
                def,
                skill,
                cost,
                if is_damage(attacker, skill, ded) {
                    Some(dmg)
                } else {
                    None
                },
            ),
        );
        Some(
            (
                att,
                def,
                if def.cur_hp <= 0 {
                    told.said(def.name + " 倒下。\n"@)
                } else {
                    told
                },
            ),
        )
    } else {
        None
    }
}

/// The poison that dedication adds to a skill.
pub open spec fn dedication_poisoned(
    defender: Pet,
    skill: Skill,
    ded: DedicationBuff,
    log: Log,
) -> Option<(Pet, Log)> {
    if dedicated(skill.name) && ded.poison_bonus_times > 0 && !defender.has_element("毒"@) {
        let n = ded.poison_bonus_times * 2;
        if number::fits(n) && number::fits(defender.poison_layers + n) {
            Some(
                (
                    Pet { poison_layers: defender.poison_layers + n, ..defender },
                    log.said(
                        "奉献强化触发："@ + defender.name + " 额外获得 "@ + number::int_text(n)
                            + " 层中毒。\n"@,
                    ),
                ),
            )
        } else {
            None
        }
    } else {
        Some((defender, log))
    }
}

/// The health that dedication gives the attacker back, up to what it can use.
pub open spec fn dedication_healed(
    attacker: Pet,
    skill: Skill,
    ded: DedicationBuff,
    dmg: int,
    log: Log,
) -> Option<(Pet, Log)> {
    let heal = stats::lifesteal(dmg, ded.lifesteal_bonus_times as int);
    if dedicated(skill.name) && ded.lifesteal_bonus_times > 0 && attacker.alive() && heal > 0 {
        if number::fits(attacker.cur_hp + heal) {
            let att = Pet {
                cur_hp: number::lesser(
                    attacker.cur_hp + heal,
                    attacker.hp - attacker.frozen_hp_locked,
                ),
                ..attacker
            };
            Some(
                (
                    att,
                    log.said(
                        "奉献强化触发："@ + att.name + " 吸血 "@ + number::int_text(heal)
                            + "，HP "@ + number::int_text(att.cur_hp) + "/"@ + number::int_text(
                            att.hp,
                        ) + "。\n"@,
                    ),
                ),
            )
        } else {
            None
        }
    } else {
        Some((attacker, log))
    }
}

/// The energy that a skill of recovery gives.
pub open spec fn recovered(side: Side, attacker: Pet, effect: Seq<char>, log: Log) -> Option<
    (Pet, Log),
> {
    if text::has(effect, "恢复"@) {
        match field::energized(attacker.energy, 5, attacker.energy_cap) {
            Some(e) => {
                let att = Pet { energy: e, ..attacker };
                Some(
                    (
                        att,
                        log.said(
                            side.letter() + "方 "@ + att.name
                                + " 的恢复效果触发，回复 5 点能量（当前"@ + number::int_text(
                                att.energy,
                            ) + "）。\n"@,
                        ),
                    ),
                )
            },
            None => None,
        }
    } else {
        Some((attacker, log))
    }
}

/// A use of a skill that is paid for and hits: the hit, the states of its effect, what dedication
/// adds, recovery, the weather; a skill that had been charged is charged no more.
#[verifier::opaque]
pub open spec fn struck(
    side: Side,
    attacker: Pet,
    defender: Pet,
    skill: Skill,
    ded: DedicationBuff,
    sky: Option<WeatherState>,
    cost: int,
    log: Log,
) -> Option<Strike> {
    let dmg = total_damage(attacker, defender, skill, ded, sky);
    match hit(side, attacker, defender, skill, ded, sky, cost, log) {
        None => None,
        Some((a1, d1, l1)) => match status::afflicted(d1, skill.effect, l1) {
            None => None,
            Some((d2, l2)) => match dedication_poisoned(d2, skill, ded, l2) {
                None => None,
                Some((d3, l3)) => match dedication_healed(a1, skill, ded, dmg, l3) {
                    None => None,
                    Some((a2, l4)) => match recovered(side, a2, skill.effect, l4) {
                        None => None,
                        Some((a3, l5)) => {
                            let (sky2, l6) = weather::changed(sky, skill.effect, l5);
                            Some(
                                Strike {
                                    attacker: if attacker.charging_skill == Some(skill.name) {
                                        Pet { charging_skill: None, ..a3 }
                                    } else {
                                        a3
                                    },
                                    defender: d3,
                                    weather: sky2,
                                    log: l6,
                                    tally: Some((a3.name, skill.element)),
                                },
                            )
                        },
                    },
                },
            },
        },
    }
}

/// A use of a skill. It fails where the energy does not suffice. A skill that has to be charged is
/// only charged where it is not charged yet.
#[verifier::opaque]
pub open spec fn attack_resolved(
    side: Side,
    chosen: Seq<char>,
    attacker: Pet,
    defender: Pet,
    ded: DedicationBuff,
    sky: Option<WeatherState>,
    log: Log,
) -> Option<Strike> {
    let skill = used_skill(attacker, chosen);
    let cost = actual_cost(skill, ded, sky);
    let paid = Pet { energy: attacker.energy - cost, ..attacker };
    if dedicated(skill.name) && !number::fits(ded.cost_reduction_times * 2) {
        None
    } else if attacker.energy < cost {
        Some(
            Strike {
                attacker,
                defender,
                weather: sky,
                log: log.said(unpaid_text(side, attacker, skill)),
                tally: None,
            },
        )
    } else if text::has(skill.effect, "蓄力"@) && attacker.charging_skill != Some(skill.name) {
        let told = log.said(
            side.letter() + "方 "@ + attacker.name + " 使用 ["@ + skill.name
                + "] 进入蓄力状态，本回合不造成伤害。\n"@,
        );
        let (sky2, l2) = weather::changed(sky, skill.effect, told);
        Some(
            Strike {
                attacker: Pet { charging_skill: Some(skill.name), ..paid },
                defender,
                weather: sky2,
                log: l2,
                tally: Some((attacker.name, skill.element)),
            },
        )
    } else {
        struck(side, paid, defender, skill, ded, sky, cost, log)
    }
}

fn strike_message(
    side: Side,
    attacker: &BattlePet,
    defender: &BattlePet,
    skill: &BattleSkill,
    cost: i32,
    damage: Option<i32>,
) -> (r: String)
    ensures
        r@ == strike_text(
            side,
            attacker@,
            defender@,
            skill@,
            cost as int,
            match damage {
                Some(d) => Some(d as int),
                None => None,
            },
        ),
{
    let mut m: String = side.text().to_owned();
    m.append("方 ");
    m.append(attacker.name.as_str());
    m.append(" 使用 [");
    m.append(skill.name.as_str());
    m.append("]，消耗");
    push_int(&mut m, cost);
    match damage {
        None => {
            m.append("能量，施加状态/效果。");
        },
        Some(dmg) => {
            let factor: i32 = elements::type_multiplier(
                skill.element.as_str(),
                defender.element1.as_str(),
                &defender.element2,
            );
            m.append("能量，造成 ");
            push_int(&mut m, dmg);
            if factor == 100 {
                m.append(" 伤害。");
            } else {
                m.append(" 伤害(克制x");
                push_int(&mut m, factor / 100);
                m.append(".");
                push_int(&mut m, factor / 10 % 10);
                push_int(&mut m, factor % 10);
                m.append(")。");
            }
        },
    }
    m.append(defender.name.as_str());
    m.append(" HP: ");
    push_int(&mut m, defender.cur_hp);
    m.append("/");
    push_int(&mut m, defender.hp);
    m.append("\n");
    m
}

fn apply_hit(
    side: Side,
    attacker: &mut BattlePet,
    defender: &mut BattlePet,
    skill: &BattleSkill,
    ded: &DedicationBuff,
    sky: &Option<WeatherState>,
    cost: i32,
    log: &mut BattleLog,
) -> (r: Result<i32, Overflow>)
    requires
        old(attacker)@.wf(),
        old(defender)@.wf(),
        skill@.wf(),
        ded.wf(),
    ensures
        (match r {
            Ok(dmg) => hit(
                side,
                old(attacker)@,
                old(defender)@,
                skill@,
                *ded,
                *sky,
                cost as int,
                old(log)@,
            ) == Some((final(attacker)@, final(defender)@, final(log)@)) && dmg == total_damage(
                old(attacker)@,
                old(defender)@,
                skill@,
                *ded,
                *sky,
            ) && dmg >= 0 && final(attacker)@.follows(old(attacker)@) && final(defender)@.follows(
                old(defender)@,
            ),
            Err(_) => hit(
                side,
                old(attacker)@,
                old(defender)@,
                skill@,
                *ded,
                *sky,
                cost as int,
                old(log)@,
            ) is None,
        }),
{
    proof {
        reveal(hit);
    }
    let applies: bool = dedication_applies_to_skill(skill.name.as_str());
    let bonus: i32 = if applies {
        number::product(ded.power_bonus_times, 20)?
    } else {
        0
    };
    let own: i32 = number::sum(number::larger(skill.power, 0), attacker.entry_bonus_power)?;
    let power: i32 = number::sum(own, bonus)?;
    let damaging: bool = (text::same(skill.category.as_str(), "物攻") || text::same(
        skill.category.as_str(),
        "魔攻",
    )) && power > 0;
    let combo: i32 = if applies {
        ded.combo_bonus_times
    } else {
        0
    };
    let hit_count: i32 = number::larger(
        number::sum(effects::extract_multi_hit(skill.effect.as_str()), combo)?,
        1,
    );
    let dmg: i32 = if damaging {
        let one: i32 = stats::damage_of_hit(attacker, defender, skill, power, sky);
        assert(one * hit_count >= 0) by (nonlinear_arith)
            requires
                one >= 0,
                hit_count >= 0,
        ;
        number::larger(number::product(one, hit_count)?, 0)
    } else {
        0
    };
    defender.cur_hp = number::larger(defender.cur_hp - dmg, 0);
    attacker.entry_bonus_power = 0;
    log.say(
        strike_message(
            side,
            attacker,
            defender,
            skill,
            cost,
            if damaging {
                Some(dmg)
            } else {
                None
            },
        ),
    );
    if defender.cur_hp <= 0 {
        let mut m: String = defender.name.clone();
        m.append(" 倒下。\n");
        log.say(m);
    }
    Ok(dmg)
}

fn apply_dedication_poison(
    defender: &mut BattlePet,
    skill: &BattleSkill,
    ded: &DedicationBuff,
    log: &mut BattleLog,
) -> (r: Result<(), Overflow>)
    requires
        old(defender)@.wf(),
    ensures
        (match r {
            Ok(_) => dedication_poisoned(old(defender)@, skill@, *ded, old(log)@) == Some(
                (final(defender)@, final(log)@),
            ) && final(defender)@.follows(old(defender)@),
            Err(_) => dedication_poisoned(old(defender)@, skill@, *ded, old(log)@) is None,
        }),
{
    if dedication_applies_to_skill(skill.name.as_str()) && ded.poison_bonus_times > 0
        && !elements::is_immune_to_poison(defender) {
        let n: i32 = number::product(ded.poison_bonus_times, 2)?;
        defender.poison_layers = number::sum(defender.poison_layers, n)?;
        let mut m: String = "奉献强化触发：".to_owned();
        m.append(defender.name.as_str());
        m.append(" 额外获得 ");
        push_int(&mut m, n);
        m.append(" 层中毒。\n");
        log.say(m);
    }
    Ok(())
}

fn apply_dedication_heal(
    attacker: &mut BattlePet,
    skill: &BattleSkill,
    ded: &DedicationBuff,
    dmg: i32,
    log: &mut BattleLog,
) -> (r: Result<(), Overflow>)
    requires
        old(attacker)@.wf(),
        dmg >= 0,
    ensures
        (match r {
            Ok(_) => dedication_healed(old(attacker)@, skill@, *ded, dmg as int, old(log)@) == Some(
                (final(attacker)@, final(log)@),
            ) && final(attacker)@.follows(old(attacker)@),
            Err(_) => dedication_healed(
                old(attacker)@,
                skill@,
                *ded,
                dmg as int,
                old(log)@,
            ) is None,
        }),
{
    if dedication_applies_to_skill(skill.name.as_str()) && ded.lifesteal_bonus_times > 0
        && attacker.cur_hp > 0 {
        let heal: i32 = stats::lifesteal_heal(dmg, ded.lifesteal_bonus_times);
        if heal > 0 {
            let raised: i32 = number::sum(attacker.cur_hp, heal)?;
            attacker.cur_hp = number::smaller(raised, attacker.hp - attacker.frozen_hp_locked);
            let mut m: String = "奉献强化触发：".to_owned();
            m.append(attacker.name.as_str());
            m.append(" 吸血 ");
            push_int(&mut m, heal);
            m.append("，HP ");
            push_int(&mut m, attacker.cur_hp);
            m.append("/");
            push_int(&mut m, attacker.hp);
            m.append("。\n");
            log.say(m);
        }
    }
    Ok(())
}

fn apply_recovery(side: Side, attacker: &mut BattlePet, effect: &str, log: &mut BattleLog) -> (r: Result<
    (),
    Overflow,
>)
    requires
        old(attacker)@.wf(),
    ensures
        (match r {
            Ok(_) => recovered(side, old(attacker)@, effect@, old(log)@) == Some(
                (final(attacker)@, final(log)@),
            ) && final(attacker)@.follows(old(attacker)@),
            Err(_) => recovered(side, old(attacker)@, effect@, old(log)@) is None,
        }),
{
    if text::contains(effect, "恢复") {
        attacker.energy = field::add_energy_clamped(attacker.energy, 5, attacker.energy_cap)?;
        let mut m: String = side.text().to_owned();
        m.append("方 ");
        m.append(attacker.name.as_str());
        m.append(" 的恢复效果触发，回复 5 点能量（当前");
        push_int(&mut m, attacker.energy);
        m.append("）。\n");
        log.say(m);
    }
    Ok(())
}

/// The texts of a tally.
pub open spec fn tally_text(t: Option<(String, String)>) -> Option<(Seq<char>, Seq<char>)> {
    match t {
        Some((name, element)) => Some((name@, element@)),
        None => None,
    }
}

/// A use of a skill that cannot be paid for changes nothing but the log, and does not count; one
/// that can be paid for counts.
pub proof fn lemma_paid(
    side: Side,
    chosen: Seq<char>,
    attacker: Pet,
    defender: Pet,
    ded: DedicationBuff,
    sky: Option<WeatherState>,
    log: Log,
)
    ensures
        attack_resolved(side, chosen, attacker, defender, ded, sky, log) matches Some(st) ==> {
            if can_pay(attacker, chosen, ded, sky) {
                st.tally is Some
            } else {
                st.attacker == attacker && st.defender == defender && st.weather == sky
                    && st.tally is None && st.log == log.said(
                    unpaid_text(side, attacker, used_skill(attacker, chosen)),
                )
            }
        },
{
    reveal(attack_resolved);
    reveal(struck);
}

/// The part of a use of a skill that comes once it is paid for and hits.
fn strike(
    side: Side,
    attacker: &mut BattlePet,
    defender: &mut BattlePet,
    skill: &BattleSkill,
    dedication: &DedicationBuff,
    weather: &mut Option<WeatherState>,
    cost: i32,
    log: &mut BattleLog,
) -> (r: Result<(String, String), Overflow>)
    requires
        old(attacker)@.wf(),
        old(defender)@.wf(),
        skill@.wf(),
        dedication.wf(),
        weather::weather_wf(*old(weather)),
    ensures
        (match r {
            Ok(tally) => struck(
                side,
                old(attacker)@,
                old(defender)@,
                skill@,
                *dedication,
                *old(weather),
                cost as int,
                old(log)@,
            ) == Some(
                Strike {
                    attacker: final(attacker)@,
                    defender: final(defender)@,
                    weather: *final(weather),
                    log: final(log)@,
                    tally: Some((tally.0@, tally.1@)),
                },
            ) && final(attacker)@.follows(old(attacker)@) && final(defender)@.follows(
                old(defender)@,
            ) && weather::weather_wf(*final(weather)),
            Err(_) => struck(
                side,
                old(attacker)@,
                old(defender)@,
                skill@,
                *dedication,
                *old(weather),
                cost as int,
                old(log)@,
            ) is None,
        }),
{
    proof {
        reveal(struck);
    }
    let releasing: bool = pet::is_some_text(&attacker.charging_skill, skill.name.as_str());
    let dmg: i32 = apply_hit(side, attacker, defender, skill, dedication, weather, cost, log)?;
    status::apply_status_from_skill(defender, skill, log)?;
    apply_dedication_poison(defender, skill, dedication, log)?;
    apply_dedication_heal(attacker, skill, dedication, dmg, log)?;
    apply_recovery(side, attacker, skill.effect.as_str(), log)?;
    weather::apply_weather_from_skill(weather, skill, log);
    if releasing {
        attacker.charging_skill = None;
    }
    Ok((attacker.name.clone(), skill.element.clone()))
}

/// Lets a pet use a skill. Where it did act, be it that it charged the skill, its name and the
/// skill's element come back, so that the use can be counted.
pub fn resolve_one_attack(
    side: Side,
    chosen_skill: &str,
    attacker: &mut BattlePet,
    defender: &mut BattlePet,
    dedication: &DedicationBuff,
    weather: &mut Option<WeatherState>,
    log: &mut BattleLog,
) -> (r: Result<Option<(String, String)>, Overflow>)
    requires
        old(attacker)@.wf(),
        old(attacker)@.armed(),
        old(defender)@.wf(),
        dedication.wf(),
        weather::weather_wf(*old(weather)),
    ensures
        (match r {
            Ok(tally) => attack_resolved(
                side,
                chosen_skill@,
                old(attacker)@,
                old(defender)@,
                *dedication,
                *old(weather),
                old(log)@,
            ) == Some(
                Strike {
                    attacker: final(attacker)@,
                    defender: final(defender)@,
                    weather: *final(weather),
                    log: final(log)@,
                    tally: tally_text(tally),
                },
            ) && final(attacker)@.follows(old(attacker)@) && final(defender)@.follows(
                old(defender)@,
            ) && weather::weather_wf(*final(weather)),
            Err(_) => attack_resolved(
                side,
                chosen_skill@,
                old(attacker)@,
                old(defender)@,
                *dedication,
                *old(weather),
                old(log)@,
            ) is None,
        }),
{
    proof {
        reveal(attack_resolved);
    }
    let found: usize = attacker.find_skill(chosen_skill);
    let at: usize = if found < attacker.skills.len() {
        found
    } else {
        0
    };
    let skill: BattleSkill = attacker.skills[at].copy();
    assert(skill@ == attacker@.skills[at as int]);
    assert(skill@ == used_skill(attacker@, chosen_skill@));
    let applies: bool = dedication_applies_to_skill(skill.name.as_str());
    let base_cost: i32 = effects::calc_skill_cost(&skill, weather);
    let cost_down: i32 = if applies {
        number::product(dedication.cost_reduction_times, 2)?
    } else {
        0
    };
    let cost: i32 = number::larger(base_cost - cost_down, 0);
    if attacker.energy < cost {
        let mut m: String = side.text().to_owned();
        m.append("方 ");
        m.append(attacker.name.as_str());
        m.append(" 试图使用 [");
        m.append(skill.name.as_str());
        m.append("]，能量不足，行动失败。\n");
        log.say(m);
        return Ok(None);
    }
    attacker.energy = attacker.energy - cost;
    let releasing: bool = pet::is_some_text(&attacker.charging_skill, skill.name.as_str());
    if text::contains(skill.effect.as_str(), "蓄力") && !releasing {
        attacker.charging_skill = Some(skill.name.clone());
        let mut m: String = side.text().to_owned();
        m.append("方 ");
        m.append(attacker.name.as_str());
        m.append(" 使用 [");
        m.append(skill.name.as_str());
        m.append("] 进入蓄力状态，本回合不造成伤害。\n");
        log.say(m);
        weather::apply_weather_from_skill(weather, &skill, log);
        return Ok(Some((attacker.name.clone(), skill.element.clone())));
    }
    let tally: (String, String) = strike(
        side,
        attacker,
        defender,
        &skill,
        dedication,
        weather,
        cost,
        log,
    )?;
    Ok(Some(tally))
}

} // verus!
