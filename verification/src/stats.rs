//! The formulas that turn base values into stats, and stats into damage.

use vstd::prelude::*;
use crate::elements;
use crate::number;
use crate::number::Overflow;
use crate::pet::{BattlePet, BattleSkill, Pet, Skill, WeatherState};
use crate::single;
use crate::single::Single;
use crate::text;

verus! {

/// What a base value becomes: `per_ten / 10` of it and `half / 2`, the integer part of that,
/// times the magnification, the integer part again, and `flat`; at least one.
pub open spec fn grown(base: int, per_ten: int, half: int, magnification: Single, flat: int) -> int {
    let raw = single::plus(
        single::times(single::of_int(base), single::ratio(per_ten, 10)),
        single::ratio(half, 2),
    );
    let kept = single::capped(raw.floor());
    number::greater(
        single::capped(single::times(single::of_int(kept), magnification).floor()) + flat,
        1,
    )
}

/// The health of a pet, before the points of training.
pub open spec fn hp_formula(base: int, individual: int, magnification: Single) -> int {
    grown(base + individual * 3, 17, 141, magnification, 100)
}

/// Any other stat of a pet, before the points of training.
pub open spec fn stat_formula(base: int, individual: int, magnification: Single) -> int {
    grown(base + individual * 3, 11, 21, magnification, 50)
}

fn grow(base: i32, per_ten: u64, half: u64, magnification: Single, flat: i32) -> (r: Result<
    i32,
    Overflow,
>)
    requires
        base >= 1,
        10 <= per_ten < 20,
        16 <= half < 256,
        0 <= flat <= 100,
        magnification.within(-60, 60),
    ensures
        (match r {
            Ok(v) => v == grown(base as int, per_ten as int, half as int, magnification, flat as int),
            Err(_) => !number::fits(
                grown(base as int, per_ten as int, half as int, magnification, flat as int),
            ),
        }),
{
    let scaled: Single = single::product(single::whole(base), single::decimal(per_ten, 10));
    let kept: i32 = single::floor(single::sum(scaled, single::decimal(half, 2)));
    let v: i32 = single::floor(single::product(single::whole(kept), magnification));
    let sum: i32 = number::sum(v, flat)?;
    Ok(number::larger(sum, 1))
}

/// The health of a pet, before the points of training.
pub(crate) fn calculate_hp(base_hp: i32, individual_value: i32, magnification: Single) -> (r: Result<
    i32,
    Overflow,
>)
    requires
        1 <= base_hp + individual_value * 3 <= i32::MAX,
        number::fits(individual_value * 3),
        magnification.within(-60, 60),
    ensures
        (match r {
            Ok(v) => v == hp_formula(base_hp as int, individual_value as int, magnification),
            Err(_) => !number::fits(
                hp_formula(base_hp as int, individual_value as int, magnification),
            ),
        }),
{
    grow(base_hp + individual_value * 3, 17, 141, magnification, 100)
}

/// Any other stat of a pet, before the points of training.
pub(crate) fn calculate_stat(base_stat: i32, individual_value: i32, magnification: Single) -> (r: Result<
    i32,
    Overflow,
>)
    requires
        1 <= base_stat + individual_value * 3 <= i32::MAX,
        number::fits(individual_value * 3),
        magnification.within(-60, 60),
    ensures
        (match r {
            Ok(v) => v == stat_formula(base_stat as int, individual_value as int, magnification),
            Err(_) => !number::fits(
                stat_formula(base_stat as int, individual_value as int, magnification),
            ),
        }),
{
    grow(base_stat + individual_value * 3, 11, 21, magnification, 50)
}

/// A stat as it counts in battle: at least one, times what the pet's form and its nature make of
/// it.
pub open spec fn fighting_stat(stat: int, form: int, nature: int) -> Single {
    single::times(
        single::times(single::of_int(number::greater(stat, 1)), single::ratio(form, 10)),
        single::ratio(nature, 10),
    )
}

fn fight_with(stat: i32, form: i32, nature: i32) -> (r: Single)
    requires
        6 <= form <= 10,
        9 <= nature <= 11,
    ensures
        r == fighting_stat(stat as int, form as int, nature as int),
        r.within(-35, 18),
        r.wf(),
{
    single::product(
        single::product(single::whole(number::larger(stat, 1)), single::decimal(form as u64, 10)),
        single::decimal(nature as u64, 10),
    )
}

/// How fast a pet is in battle.
pub open spec fn speed_of(p: Pet) -> int {
    single::capped(
        fighting_stat(
            p.speed,
            elements::morph_factor(p.morph_stage),
            elements::nature_factor(p.nature, "速度"@),
        ).round(),
    )
}

/// How fast a pet is in battle.
pub fn effective_speed(pet: &BattlePet) -> (r: i32)
    ensures
        r == speed_of(pet@),
{
    single::round(
        fight_with(
            pet.speed,
            elements::morph_stat_multiplier(pet),
            elements::nature_multiplier(pet.nature.as_str(), "速度"),
        ),
    )
}

/// How many hundredths of its health a pet has left, to the nearest one.
pub open spec fn hp_hundredths(p: Pet) -> int {
    if p.hp <= 0 {
        0
    } else {
        single::capped(
            single::times(
                single::over(single::of_int(p.cur_hp), single::of_int(p.hp)),
                single::of_int(100),
            ).round(),
        )
    }
}

/// How many hundredths of its health a pet has left, to the nearest one.
pub fn hp_percent(pet: &BattlePet) -> (r: i32)
    requires
        pet@.cur_hp >= 0,
    ensures
        r == hp_hundredths(pet@),
{
    if pet.hp <= 0 {
        0
    } else {
        single::round(
            single::product(
                single::quotient(single::whole(pet.cur_hp), single::whole(pet.hp)),
                single::whole(100),
            ),
        )
    }
}

/// The integer part of `n` hundredths of a pet's health.
pub open spec fn hp_part(hp: int, n: int) -> int {
    single::capped(single::times(single::of_int(hp), single::ratio(n, 100)).floor())
}

/// The integer part of `n` hundredths of a pet's health.
pub fn part_of_hp(hp: i32, n: u64) -> (r: i32)
    requires
        hp >= 0,
        2 <= n <= 100,
    ensures
        r == hp_part(hp as int, n as int),
        r >= 0,
{
    single::floor(single::product(single::whole(hp), single::decimal(n, 100)))
}

/// What poison or burning takes at the end of a round: `n` hundredths of the health for each
/// layer, times the type factor of `element`.
pub open spec fn tick(p: Pet, n: int, layers: int, element: Seq<char>) -> int {
    single::capped(
        single::times(
            single::times(
                single::of_int(hp_part(p.hp, n)),
                single::of_int(number::greater(layers, 1)),
            ),
            single::ratio(elements::type_factor(element, p.element1, p.element2), 100),
        ).round(),
    )
}

/// What poison or burning takes at the end of a round.
pub fn status_tick(pet: &BattlePet, n: u64, layers: i32, element: &str) -> (r: i32)
    requires
        pet@.hp >= 0,
        2 <= n <= 100,
    ensures
        r == tick(pet@, n as int, layers as int, element@),
        r >= 0,
{
    let factor: i32 = elements::type_multiplier(element, pet.element1.as_str(), &pet.element2);
    let raw: Single = single::product(
        single::whole(part_of_hp(pet.hp, n)),
        single::whole(number::larger(layers, 1)),
    );
    assert(raw.mantissa > 0 ==> raw.within(-23, 41));
    single::round(single::product(raw, single::decimal(factor as u64, 100)))
}

/// The share of its damage that an attacker heals by: two tenths for each time, at most all.
pub open spec fn lifesteal(dmg: int, times: int) -> int {
    single::capped(
        single::times(
            single::of_int(dmg),
            single::at_most_one(single::times(single::ratio(2, 10), single::of_int(times))),
        ).round(),
    )
}

/// The share of its damage that an attacker heals by.
pub fn lifesteal_heal(dmg: i32, times: i32) -> (r: i32)
    requires
        dmg >= 0,
        times >= 1,
    ensures
        r == lifesteal(dmg as int, times as int),
        r >= 0,
{
    let share: Single = single::product(single::decimal(2, 10), single::whole(times));
    assert(share.within(-29, 104));
    let part: Single = single::lower_to_one(share);
    assert(part.within(-29, 8));
    single::round(single::product(single::whole(dmg), part))
}

/// Whether a skill is of one of the attacker's own elements.
pub open spec fn own_element_factor(attacker: Pet, skill: Skill) -> int {
    if attacker.has_element(skill.element) {
        15
    } else {
        10
    }
}

/// What one hit of a skill takes from the defender: attack over defence, nine tenths of that,
/// times the power, the type factor, the factor of the attacker's own element and that of the
/// weather; the integer part.
pub open spec fn hit_damage(
    attacker: Pet,
    defender: Pet,
    skill: Skill,
    power: int,
    weather: Option<WeatherState>,
) -> int {
    let magic = skill.category == "魔攻"@;
    let form = elements::morph_factor(attacker.morph_stage);
    let other_form = elements::morph_factor(defender.morph_stage);
    let attack = single::at_least_one(
        if magic {
            fighting_stat(
                attacker.matk,
                form,
                elements::nature_factor(attacker.nature, "特攻"@),
            )
        } else {
            fighting_stat(
                attacker.patk,
                form,
                elements::nature_factor(attacker.nature, "攻击"@),
            )
        },
    );
    let defence = single::at_least_one(
        if magic {
            fighting_stat(
                defender.mdef,
                other_form,
                elements::nature_factor(defender.nature, "特防"@),
            )
        } else {
            fighting_stat(
                defender.pdef,
                other_form,
                elements::nature_factor(defender.nature, "防御"@),
            )
        },
    );
    let type_factor = elements::type_factor(skill.element, defender.element1, defender.element2);
    let x1 = single::times(single::over(attack, defence), single::ratio(9, 10));
    let x2 = single::times(x1, single::of_int(power));
    let x3 = single::times(x2, single::ratio(type_factor, 100));
    let x4 = single::times(x3, single::ratio(own_element_factor(attacker, skill), 10));
    let x5 = single::times(
        x4,
        single::ratio(elements::weather_factor(weather, skill.element), 10),
    );
    single::capped(x5.floor())
}

/// What one hit of a skill takes from the defender.
pub fn damage_of_hit(
    attacker: &BattlePet,
    defender: &BattlePet,
    skill: &BattleSkill,
    power: i32,
    weather: &Option<WeatherState>,
) -> (r: i32)
    requires
        power >= 1,
    ensures
        r == hit_damage(attacker@, defender@, skill@, power as int, *weather),
        r >= 0,
{
    let form: i32 = elements::morph_stat_multiplier(attacker);
    let other_form: i32 = elements::morph_stat_multiplier(defender);
    let magic: bool = text::same(skill.category.as_str(), "魔攻");
    let attack: Single = single::raise_to_one(
        if magic {
            fight_with(
                attacker.matk,
                form,
                elements::nature_multiplier(attacker.nature.as_str(), "特攻"),
            )
        } else {
            fight_with(
                attacker.patk,
                form,
                elements::nature_multiplier(attacker.nature.as_str(), "攻击"),
            )
        },
    );
    let defence: Single = single::raise_to_one(
        if magic {
            fight_with(
                defender.mdef,
                other_form,
                elements::nature_multiplier(defender.nature.as_str(), "特防"),
            )
        } else {
            fight_with(
                defender.pdef,
                other_form,
                elements::nature_multiplier(defender.nature.as_str(), "防御"),
            )
        },
    );
    assert(attack.within(-23, 18));
    assert(defence.within(-23, 18));
    let type_factor: i32 = elements::type_multiplier(
        skill.element.as_str(),
        defender.element1.as_str(),
        &defender.element2,
    );
    let own: u64 = if attacker.is_element(skill.element.as_str()) {
        15
    } else {
        10
    };
    let sky: i32 = elements::weather_damage_multiplier(weather, skill);
    let x1: Single = single::product(single::quotient(attack, defence), single::decimal(9, 10));
    assert(x1.within(-71, 24));
    let x2: Single = single::product(x1, single::whole(power));
    assert(x2.within(-71, 57));
    let x3: Single = single::product(x2, single::decimal(type_factor as u64, 100));
    assert(x3.within(-77, 62));
    let x4: Single = single::product(x3, single::decimal(own, 10));
    assert(x4.within(-83, 67));
    let x5: Single = single::product(x4, single::decimal(sky as u64, 10));
    single::floor(x5)
}

} // verus!
