//! What comes of skills, states, marks and weather, told by what goes in and what comes out.

use vstd::prelude::*;
use crate::action;
use crate::attack;
use crate::camp;
use crate::camp::Camp;
use crate::dedication;
use crate::drafts;
use crate::effects;
use crate::elements;
use crate::field;
use crate::laws;
use crate::log::Log;
use crate::number;
use crate::pet;
use crate::pet::{
    Choice, DedicationBuff, NegativeImprint, NegativeImprintKind, Pet, PositiveImprint,
    PositiveImprintKind, Side, Skill, WeatherKind, WeatherState,
};
use crate::pet_battle_patch::{ElementSkillBanks, Patch};
use crate::random;
use crate::reading;
use crate::stats;
use crate::status;
use crate::text;
use crate::text::CharClass;
use crate::weather;

verus! {

// Numbers in effects.

/// A number that is written right in front of a word, behind something that is not a digit, is the
/// number of that word.
pub proof fn law_numbers_in_effects(front: Seq<char>, n: nat, word: Seq<char>, rest: Seq<char>)
    requires
        n <= i32::MAX,
        word.len() > 0,
        !text::is_digit(word[0]),
        reading::lacks(front, word[0]),
        front.len() > 0 ==> !text::is_digit(front.last()),
    ensures
        effects::number_before(front + number::nat_text(n) + word + rest, word) == Some(n as int),
        effects::layers(front + number::nat_text(n) + word + rest, word) == n,
{
    let digits = number::nat_text(n);
    let start = front + digits;
    reading::lemma_nat_text(n);
    assert forall|i: int| 0 <= i < digits.len() implies #[trigger] digits[i] != word[0] by {
        assert(text::is_digit(digits[i]));
    }
    reading::lemma_lacks(front, digits, word[0]);
    reading::lemma_around(start, word, rest, 0);
    let t = start + word + rest;
    assert(t.take(start.len() as int) == start);
    assert forall|i: int| start.len() - digits.len() <= i < start.len() implies CharClass::Digit.holds(
        #[trigger] start[i],
    ) by {
        assert(start[i] == digits[i - front.len()]);
    }
    if front.len() > 0 {
        assert(start[front.len() - 1] == front.last());
    }
    text::lemma_trail_unique(start, CharClass::Digit, digits.len() as int);
    assert(text::tail_run(start, CharClass::Digit) == digits);
    reading::law_numbers_are_read_back(n as int);
}

/// A word without a number in front of it counts once.
pub proof fn law_words_without_numbers(front: Seq<char>, word: Seq<char>, rest: Seq<char>)
    requires
        word.len() > 0,
        reading::lacks(front, word[0]),
        front.len() > 0 ==> !text::is_digit(front.last()),
    ensures
        effects::number_before(front + word + rest, word) is None,
        effects::layers(front + word + rest, word) == 1,
{
    reading::lemma_around(front, word, rest, 0);
    assert((front + word + rest).take(front.len() as int) == front);
    text::lemma_trail_unique(front, CharClass::Digit, 0);
}

/// How often a skill hits: the number in front of the word for a combo, at least once; twice where
/// the word has no number; once where the word is missing. A number of attacks, where the effect
/// gives one beside the word, goes before the number in front of it.
pub proof fn law_hits(front: Seq<char>, n: nat, rest: Seq<char>)
    requires
        n <= i32::MAX,
        reading::lacks(front, '连'),
        front.len() > 0 ==> !text::is_digit(front.last()),
    ensures
        ({
            let t = front + number::nat_text(n) + "连击"@ + rest;
            !text::has(t, "次攻击"@) ==> effects::hits(t) == number::greater(n as int, 1)
        }),
        ({
            let t = front + "连击"@ + rest;
            !text::has(t, "次攻击"@) ==> effects::hits(t) == 2
        }),
{
    reveal_strlit("连击");
    let digits = number::nat_text(n);
    law_numbers_in_effects(front, n, "连击"@, rest);
    law_words_without_numbers(front, "连击"@, rest);
    reading::lemma_has_within(front + digits, "连击"@, rest);
    reading::lemma_has_within(front, "连击"@, rest);
    text::lemma_position(front + digits + "连击"@ + rest, "次攻击"@);
    text::lemma_position(front + "连击"@ + rest, "次攻击"@);
}

/// A number of attacks beside the word for a combo is how often the skill hits.
pub proof fn law_attacks_are_hits(front: Seq<char>, n: nat, rest: Seq<char>)
    requires
        n <= i32::MAX,
        reading::lacks(front, '次'),
        front.len() > 0 ==> !text::is_digit(front.last()),
    ensures
        ({
            let t = front + number::nat_text(n) + "次攻击"@ + rest;
            effects::hits(t) == (if text::has(t, "连击"@) {
                number::greater(n as int, 1)
            } else {
                1
            })
        }),
{
    reveal_strlit("次攻击");
    law_numbers_in_effects(front, n, "次攻击"@, rest);
}

/// Without the word for a combo a skill hits once.
pub proof fn law_single_hits(effect: Seq<char>)
    requires
        !text::has(effect, "连击"@),
    ensures
        effects::hits(effect) == 1,
{
}

// Strikes.

/// What one hit of a skill takes.
pub open spec fn one_hit(
    attacker: Pet,
    defender: Pet,
    skill: Skill,
    bonus: int,
    sky: Option<WeatherState>,
) -> int {
    stats::hit_damage(
        attacker,
        defender,
        skill,
        skill.power + attacker.entry_bonus_power + bonus,
        sky,
    )
}

/// Whether a use of a skill is paid for and strikes: it has not to be charged first.
pub open spec fn strikes(
    attacker: Pet,
    chosen: Seq<char>,
    ded: DedicationBuff,
    sky: Option<WeatherState>,
) -> bool {
    let skill = attack::used_skill(attacker, chosen);
    &&& attack::can_pay(attacker, chosen, ded, sky)
    &&& !text::has(skill.effect, "蓄力"@) || attacker.charging_skill == Some(skill.name)
}

proof fn lemma_energy_is_no_matter(
    attacker: Pet,
    e: int,
    defender: Pet,
    skill: Skill,
    power: int,
    sky: Option<WeatherState>,
)
    ensures
        stats::hit_damage(Pet { energy: e, ..attacker }, defender, skill, power, sky)
            == stats::hit_damage(attacker, defender, skill, power, sky),
{
}

proof fn lemma_struck_health(
    side: Side,
    attacker: Pet,
    defender: Pet,
    skill: Skill,
    ded: DedicationBuff,
    sky: Option<WeatherState>,
    cost: int,
    log: Log,
)
    requires
        !text::has(skill.effect, "冻结"@),
    ensures
        attack::struck(side, attacker, defender, skill, ded, sky, cost, log) matches Some(st)
            ==> st.defender.cur_hp == number::greater(
            defender.cur_hp - attack::total_damage(attacker, defender, skill, ded, sky),
            0,
        ),
{
    reveal(attack::struck);
    reveal(attack::hit);
    reveal(status::afflicted);
}

/// A skill of attack takes from the defender what one hit takes, as often as it hits, and no more
/// than the health that is there. (A skill that freezes may lock more.)
pub proof fn law_strike_takes_health(
    side: Side,
    chosen: Seq<char>,
    attacker: Pet,
    defender: Pet,
    ded: DedicationBuff,
    sky: Option<WeatherState>,
    log: Log,
)
    requires
        attacker.wf(),
        attacker.armed(),
        strikes(attacker, chosen, ded, sky),
        ({
            let skill = attack::used_skill(attacker, chosen);
            &&& skill.category == "物攻"@ || skill.category == "魔攻"@
            &&& skill.power > 0
            &&& skill.name != "啃咬"@ && skill.name != "虫群"@
            &&& !text::has(skill.effect, "冻结"@)
        }),
    ensures
        attack::attack_resolved(side, chosen, attacker, defender, ded, sky, log) matches Some(st)
            ==> {
            let skill = attack::used_skill(attacker, chosen);
            let one = one_hit(attacker, defender, skill, 0, sky);
            st.defender.cur_hp == number::greater(
                defender.cur_hp - number::greater(one * effects::hits(skill.effect), 0),
                0,
            )
        },
{
    reveal(attack::attack_resolved);
    let skill = attack::used_skill(attacker, chosen);
    let cost = attack::actual_cost(skill, ded, sky);
    let paid = Pet { energy: attacker.energy - cost, ..attacker };
    pet_skill_wf(attacker, chosen);
    lemma_energy_is_no_matter(
        attacker,
        attacker.energy - cost,
        defender,
        skill,
        skill.power + attacker.entry_bonus_power,
        sky,
    );
    lemma_struck_health(side, paid, defender, skill, ded, sky, cost, log);
    lemma_hits_positive(skill.effect);
}

proof fn pet_skill_wf(p: Pet, chosen: Seq<char>)
    requires
        p.wf(),
        p.armed(),
    ensures
        attack::used_skill(p, chosen).wf(),
{
    pet::lemma_first_named(p.skills, chosen);
    let k = p.skill_index(chosen);
    if k < p.skills.len() {
        assert(p.skills[k].wf());
    } else {
        assert(p.skills[0].wf());
    }
}

proof fn lemma_hits_positive(effect: Seq<char>)
    ensures
        effects::hits(effect) >= 1,
{
}

proof fn lemma_struck_and_frozen(
    side: Side,
    attacker: Pet,
    defender: Pet,
    skill: Skill,
    ded: DedicationBuff,
    sky: Option<WeatherState>,
    cost: int,
    log: Log,
)
    requires
        defender.wf(),
        text::has(skill.effect, "冻结"@),
        !defender.has_element("冰"@),
    ensures
        attack::struck(side, attacker, defender, skill, ded, sky, cost, log) matches Some(st)
            ==> st.defender.cur_hp == number::lesser(
            number::greater(
                defender.cur_hp - attack::total_damage(attacker, defender, skill, ded, sky),
                0,
            ),
            defender.hp - st.defender.frozen_hp_locked,
        ),
{
    reveal(attack::struck);
    reveal(attack::hit);
    reveal(status::afflicted);
}

/// A skill of attack that freezes takes its damage first; then what freezing leaves is all that is
/// there.
pub proof fn law_freezing_strike(
    side: Side,
    chosen: Seq<char>,
    attacker: Pet,
    defender: Pet,
    ded: DedicationBuff,
    sky: Option<WeatherState>,
    log: Log,
)
    requires
        attacker.wf(),
        attacker.armed(),
        defender.wf(),
        !defender.has_element("冰"@),
        strikes(attacker, chosen, ded, sky),
        ({
            let skill = attack::used_skill(attacker, chosen);
            &&& skill.category == "物攻"@ || skill.category == "魔攻"@
            &&& skill.power > 0
            &&& skill.name != "啃咬"@ && skill.name != "虫群"@
            &&& text::has(skill.effect, "冻结"@)
        }),
    ensures
        attack::attack_resolved(side, chosen, attacker, defender, ded, sky, log) matches Some(st)
            ==> {
            let skill = attack::used_skill(attacker, chosen);
            let one = one_hit(attacker, defender, skill, 0, sky);
            st.defender.cur_hp == number::lesser(
                number::greater(
                    defender.cur_hp - number::greater(one * effects::hits(skill.effect), 0),
                    0,
                ),
                defender.hp - st.defender.frozen_hp_locked,
            )
        },
{
    reveal(attack::attack_resolved);
    let skill = attack::used_skill(attacker, chosen);
    let cost = attack::actual_cost(skill, ded, sky);
    let paid = Pet { energy: attacker.energy - cost, ..attacker };
    pet_skill_wf(attacker, chosen);
    lemma_energy_is_no_matter(
        attacker,
        attacker.energy - cost,
        defender,
        skill,
        skill.power + attacker.entry_bonus_power,
        sky,
    );
    lemma_struck_and_frozen(side, paid, defender, skill, ded, sky, cost, log);
    lemma_hits_positive(skill.effect);
}

/// A combo skill takes, for each hit that its effect gives, what one hit takes: as many as the
/// number in front of the word for a combo, or two where there is no number.
pub proof fn law_combo_strike(
    side: Side,
    chosen: Seq<char>,
    attacker: Pet,
    defender: Pet,
    ded: DedicationBuff,
    sky: Option<WeatherState>,
    log: Log,
    front: Seq<char>,
    n: nat,
    rest: Seq<char>,
)
    requires
        attacker.wf(),
        attacker.armed(),
        strikes(attacker, chosen, ded, sky),
        1 <= n <= i32::MAX,
        reading::lacks(front, '连'),
        front.len() > 0 ==> !text::is_digit(front.last()),
        ({
            let skill = attack::used_skill(attacker, chosen);
            &&& skill.category == "物攻"@ || skill.category == "魔攻"@
            &&& skill.power > 0
            &&& skill.name != "啃咬"@ && skill.name != "虫群"@
            &&& !text::has(skill.effect, "冻结"@)
            &&& !text::has(skill.effect, "次攻击"@)
        }),
    ensures
        attack::attack_resolved(side, chosen, attacker, defender, ded, sky, log) matches Some(st)
            ==> {
            let skill = attack::used_skill(attacker, chosen);
            let one = one_hit(attacker, defender, skill, 0, sky);
            &&& skill.effect == front + number::nat_text(n) + "连击"@ + rest
                ==> st.defender.cur_hp == number::greater(
                defender.cur_hp - number::greater(one * n, 0),
                0,
            )
            &&& skill.effect == front + "连击"@ + rest ==> st.defender.cur_hp == number::greater(
                defender.cur_hp - number::greater(one * 2, 0),
                0,
            )
        },
{
    law_strike_takes_health(side, chosen, attacker, defender, ded, sky, log);
    law_hits(front, n, rest);
}

/// What dedication has gathered matters for two skills only: for any other the outcome is the same
/// whatever it is.
pub proof fn law_dedication_is_for_two_skills(
    side: Side,
    chosen: Seq<char>,
    attacker: Pet,
    defender: Pet,
    x: DedicationBuff,
    y: DedicationBuff,
    sky: Option<WeatherState>,
    log: Log,
)
    requires
        attack::used_skill(attacker, chosen).name != "啃咬"@,
        attack::used_skill(attacker, chosen).name != "虫群"@,
    ensures
        attack::attack_resolved(side, chosen, attacker, defender, x, sky, log)
            == attack::attack_resolved(side, chosen, attacker, defender, y, sky, log),
{
    reveal(attack::attack_resolved);
    reveal(attack::struck);
    reveal(attack::hit);
}

proof fn lemma_dedicated_strike(
    side: Side,
    attacker: Pet,
    defender: Pet,
    skill: Skill,
    ded: DedicationBuff,
    sky: Option<WeatherState>,
    cost: int,
    log: Log,
)
    requires
        attacker.alive(),
        skill.name == "啃咬"@ || skill.name == "虫群"@,
        ded.poison_bonus_times >= 0,
        !text::has(skill.effect, "冻结"@),
        !text::has(skill.effect, "中毒"@),
        !text::has(skill.effect, "恢复"@),
    ensures
        attack::struck(side, attacker, defender, skill, ded, sky, cost, log) matches Some(st) ==> {
            let dmg = attack::total_damage(attacker, defender, skill, ded, sky);
            let heal = stats::lifesteal(dmg, ded.lifesteal_bonus_times as int);
            &&& st.attacker.energy == attacker.energy
            &&& st.defender.cur_hp == number::greater(defender.cur_hp - dmg, 0)
            &&& st.defender.poison_layers == defender.poison_layers + (if defender.has_element(
                "毒"@,
            ) {
                0
            } else {
                2 * ded.poison_bonus_times
            })
            &&& st.attacker.cur_hp == (if ded.lifesteal_bonus_times > 0 && heal > 0 {
                number::lesser(attacker.cur_hp + heal, attacker.hp - attacker.frozen_hp_locked)
            } else {
                attacker.cur_hp
            })
        },
{
    reveal(attack::struck);
    reveal(attack::hit);
    reveal(status::afflicted);
}

proof fn lemma_dedicated_damage(
    attacker: Pet,
    e: int,
    defender: Pet,
    skill: Skill,
    ded: DedicationBuff,
    sky: Option<WeatherState>,
)
    requires
        skill.name == "啃咬"@ || skill.name == "虫群"@,
        skill.category == "物攻"@ || skill.category == "魔攻"@,
        skill.power > 0,
        attacker.entry_bonus_power >= 0,
        ded.wf(),
        !text::has(skill.effect, "连击"@),
    ensures
        attack::total_damage(Pet { energy: e, ..attacker }, defender, skill, ded, sky)
            == number::greater(
            one_hit(attacker, defender, skill, 20 * ded.power_bonus_times, sky) * (1
                + ded.combo_bonus_times),
            0,
        ),
{
    let paid = Pet { energy: e, ..attacker };
    let power = skill.power + attacker.entry_bonus_power + 20 * ded.power_bonus_times;
    lemma_energy_is_no_matter(attacker, e, defender, skill, power, sky);
    assert(attack::actual_power(paid, skill, ded) == power);
    assert(attack::actual_hits(skill, ded) == 1 + ded.combo_bonus_times);
}

/// For the two skills of dedication each time counts: two points less cost, 20 more power, one hit
/// more, two layers of poison on a defender that is not immune, and two tenths of the damage back
/// as health, at most all of it.
pub proof fn law_dedication_strengthens(
    side: Side,
    chosen: Seq<char>,
    attacker: Pet,
    defender: Pet,
    ded: DedicationBuff,
    sky: Option<WeatherState>,
    log: Log,
)
    requires
        attacker.wf(),
        attacker.armed(),
        attacker.alive(),
        ded.wf(),
        strikes(attacker, chosen, ded, sky),
        ({
            let skill = attack::used_skill(attacker, chosen);
            &&& skill.name == "啃咬"@ || skill.name == "虫群"@
            &&& skill.category == "物攻"@ || skill.category == "魔攻"@
            &&& skill.power > 0
            &&& !text::has(skill.effect, "冻结"@)
            &&& !text::has(skill.effect, "中毒"@)
            &&& !text::has(skill.effect, "恢复"@)
            &&& !text::has(skill.effect, "连击"@)
        }),
    ensures
        attack::attack_resolved(side, chosen, attacker, defender, ded, sky, log) matches Some(st)
            ==> {
            let skill = attack::used_skill(attacker, chosen);
            let one = one_hit(attacker, defender, skill, 20 * ded.power_bonus_times, sky);
            let dmg = number::greater(one * (1 + ded.combo_bonus_times), 0);
            let heal = stats::lifesteal(dmg, ded.lifesteal_bonus_times as int);
            &&& st.attacker.energy == attacker.energy - number::greater(
                effects::cost_in(skill, sky) - 2 * ded.cost_reduction_times,
                0,
            )
            &&& st.defender.cur_hp == number::greater(defender.cur_hp - dmg, 0)
            &&& st.defender.poison_layers == defender.poison_layers + (if defender.has_element(
                "毒"@,
            ) {
                0
            } else {
                2 * ded.poison_bonus_times
            })
            &&& st.attacker.cur_hp == (if ded.lifesteal_bonus_times > 0 && heal > 0 {
                number::lesser(attacker.cur_hp + heal, attacker.hp - attacker.frozen_hp_locked)
            } else {
                attacker.cur_hp
            })
        },
{
    reveal(attack::attack_resolved);
    let skill = attack::used_skill(attacker, chosen);
    let cost = attack::actual_cost(skill, ded, sky);
    let paid = Pet { energy: attacker.energy - cost, ..attacker };
    lemma_dedicated_strike(side, paid, defender, skill, ded, sky, cost, log);
    lemma_dedicated_damage(attacker, attacker.energy - cost, defender, skill, ded, sky);
}

/// A skill of another category, or without power, takes no health; one that strikes uses up what
/// entering the field had added to the power.
pub proof fn law_harmless_skills(
    side: Side,
    chosen: Seq<char>,
    attacker: Pet,
    defender: Pet,
    ded: DedicationBuff,
    sky: Option<WeatherState>,
    log: Log,
)
    requires
        defender.cur_hp >= 0,
        strikes(attacker, chosen, ded, sky),
    ensures
        attack::attack_resolved(side, chosen, attacker, defender, ded, sky, log) matches Some(st)
            ==> {
            let skill = attack::used_skill(attacker, chosen);
            &&& st.attacker.entry_bonus_power == 0
            &&& skill.category != "物攻"@ && skill.category != "魔攻"@ && !text::has(
                skill.effect,
                "冻结"@,
            ) ==> st.defender.cur_hp == defender.cur_hp
        },
{
    reveal(attack::attack_resolved);
    let skill = attack::used_skill(attacker, chosen);
    let cost = attack::actual_cost(skill, ded, sky);
    let paid = Pet { energy: attacker.energy - cost, ..attacker };
    lemma_bonus_is_spent(side, paid, defender, skill, ded, sky, cost, log);
    if !text::has(skill.effect, "冻结"@) {
        lemma_struck_health(side, paid, defender, skill, ded, sky, cost, log);
    }
}

proof fn lemma_bonus_is_spent(
    side: Side,
    attacker: Pet,
    defender: Pet,
    skill: Skill,
    ded: DedicationBuff,
    sky: Option<WeatherState>,
    cost: int,
    log: Log,
)
    ensures
        attack::struck(side, attacker, defender, skill, ded, sky, cost, log) matches Some(st)
            ==> st.attacker.entry_bonus_power == 0,
{
    reveal(attack::struck);
    reveal(attack::hit);
}

// States.

/// Every state that an effect names is laid on the defender, with its number of layers, one where
/// there is no number; a pet of the element is spared; a lesser form goes one step at a time.
pub proof fn law_states_are_laid(p: Pet, effect: Seq<char>, log: Log)
    ensures
        status::afflicted(p, effect, log) matches Some(r) ==> {
            &&& r.0.poison_layers == p.poison_layers + (if text::has(effect, "中毒"@)
                && p.element1 != "毒"@ && p.element2 != Some("毒"@) {
                effects::layers(effect, "层中毒"@)
            } else {
                0
            })
            &&& r.0.burn_layers == p.burn_layers + (if text::has(effect, "灼烧"@) && p.element1
                != "火"@ && p.element2 != Some("火"@) {
                effects::layers(effect, "层灼烧"@)
            } else {
                0
            })
            &&& r.0.freeze_layers == p.freeze_layers + (if text::has(effect, "冻结"@) && p.element1
                != "冰"@ && p.element2 != Some("冰"@) {
                effects::layers(effect, "层冻结"@)
            } else {
                0
            })
            &&& r.0.parasitic_layers == p.parasitic_layers + (if text::has(effect, "寄生"@)
                && p.element1 != "草"@ && p.element2 != Some("草"@) {
                effects::layers(effect, "层寄生"@)
            } else {
                0
            })
            &&& r.0.morph_stage == (if text::has(effect, "萌化"@) && p.morph_stage < 2 {
                p.morph_stage + 1
            } else {
                p.morph_stage
            })
            &&& r.0.energy == p.energy
            &&& r.0.charging_skill == p.charging_skill
            &&& !text::has(effect, "冻结"@) ==> r.0.cur_hp == p.cur_hp
        },
{
    reveal(status::afflicted);
}

/// A skill that strikes lays its states on the defender, and none on the attacker.
pub proof fn law_strikes_lay_states(
    side: Side,
    chosen: Seq<char>,
    attacker: Pet,
    defender: Pet,
    ded: DedicationBuff,
    sky: Option<WeatherState>,
    log: Log,
)
    requires
        strikes(attacker, chosen, ded, sky),
        attack::used_skill(attacker, chosen).name != "啃咬"@,
        attack::used_skill(attacker, chosen).name != "虫群"@,
    ensures
        attack::attack_resolved(side, chosen, attacker, defender, ded, sky, log) matches Some(st)
            ==> {
            let effect = attack::used_skill(attacker, chosen).effect;
            &&& st.defender.poison_layers == defender.poison_layers + (if text::has(effect, "中毒"@)
                && !defender.has_element("毒"@) {
                effects::layers(effect, "层中毒"@)
            } else {
                0
            })
            &&& st.defender.burn_layers == defender.burn_layers + (if text::has(effect, "灼烧"@)
                && !defender.has_element("火"@) {
                effects::layers(effect, "层灼烧"@)
            } else {
                0
            })
            &&& st.defender.freeze_layers == defender.freeze_layers + (if text::has(effect, "冻结"@)
                && !defender.has_element("冰"@) {
                effects::layers(effect, "层冻结"@)
            } else {
                0
            })
            &&& st.defender.parasitic_layers == defender.parasitic_layers + (if text::has(
                effect,
                "寄生"@,
            ) && !defender.has_element("草"@) {
                effects::layers(effect, "层寄生"@)
            } else {
                0
            })
            &&& st.defender.morph_stage == (if text::has(effect, "萌化"@) && defender.morph_stage
                < 2 {
                defender.morph_stage + 1
            } else {
                defender.morph_stage
            })
            &&& st.attacker.poison_layers == attacker.poison_layers
            &&& st.attacker.burn_layers == attacker.burn_layers
            &&& st.attacker.freeze_layers == attacker.freeze_layers
            &&& st.attacker.parasitic_layers == attacker.parasitic_layers
            &&& st.attacker.morph_stage == attacker.morph_stage
            &&& st.defender.energy == defender.energy
        },
{
    reveal(attack::attack_resolved);
    reveal(attack::struck);
    reveal(attack::hit);
    let skill = attack::used_skill(attacker, chosen);
    let paid = Pet {
        energy: attacker.energy - attack::actual_cost(skill, ded, sky),
        ..attacker
    };
    match attack::hit(
        side,
        paid,
        defender,
        skill,
        ded,
        sky,
        attack::actual_cost(skill, ded, sky),
        log,
    ) {
        None => {},
        Some((a1, d1, l1)) => {
            law_states_are_laid(d1, skill.effect, l1);
        },
    }
}

/// What freezing locks of the health: a twentieth of it for each layer, cut to an integer first, but
/// never the last point; health above what is left is lost.
pub proof fn law_freezing_locks(p: Pet)
    requires
        p.wf(),
    ensures
        status::locked(p) matches Some(q) ==> {
            let wanted = stats::hp_part(p.hp, 5) * p.freeze_layers;
            &&& wanted < p.hp ==> q.frozen_hp_locked == number::greater(wanted, 0)
            &&& wanted >= p.hp ==> q.frozen_hp_locked == p.hp - 1
            &&& q.cur_hp == number::lesser(p.cur_hp, p.hp - q.frozen_hp_locked)
        },
{
}

/// Whether freezing locks of a pet what its layers lock: a twentieth of its health, cut to an
/// integer, for each layer, but not the last point; and no more health is there than what is left.
pub open spec fn is_locked(p: Pet) -> bool {
    let wanted = stats::hp_part(p.hp, 5) * p.freeze_layers;
    &&& wanted < p.hp ==> p.frozen_hp_locked == number::greater(wanted, 0)
    &&& wanted >= p.hp ==> p.frozen_hp_locked == p.hp - 1
    &&& p.cur_hp <= p.hp - p.frozen_hp_locked
}

/// New layers of freezing lock health at once, be they from a skill or from a blizzard, and take it
/// where there is more than what is left.
pub proof fn law_freezing_locks_at_once(
    p: Pet,
    effect: Seq<char>,
    w: WeatherState,
    other: Pet,
    log: Log,
)
    requires
        p.wf(),
        !p.has_element("冰"@),
        w.kind == WeatherKind::Blizzard,
    ensures
        text::has(effect, "冻结"@) ==> (status::afflicted(p, effect, log) matches Some(r)
            ==> is_locked(r.0) && r.0.cur_hp == number::lesser(
            p.cur_hp,
            p.hp - r.0.frozen_hp_locked,
        )),
        weather::weather_ended(Some(w), p, other, log) matches Some(r) ==> is_locked(r.1)
            && r.1.cur_hp == number::lesser(p.cur_hp, p.hp - r.1.frozen_hp_locked),
        weather::weather_ended(Some(w), other, p, log) matches Some(r) ==> is_locked(r.2)
            && r.2.cur_hp == number::lesser(p.cur_hp, p.hp - r.2.frozen_hp_locked),
{
    reveal(status::afflicted);
    effects::lemma_number_before(effect, "层冻结"@);
}

// Weather.

/// The weather that a text names: rain, else a sandstorm, else a blizzard, each under its own name
/// and for eight rounds. A text that names none leaves the weather as it is.
pub proof fn law_weather_is_named(w: Option<WeatherState>, effect: Seq<char>, log: Log)
    ensures
        text::has(effect, "下雨"@) ==> weather::changed(w, effect, log).0 == Some(
            WeatherState { kind: WeatherKind::Rain, remain_turns: 8 },
        ),
        !text::has(effect, "下雨"@) && text::has(effect, "沙暴"@) ==> weather::changed(
            w,
            effect,
            log,
        ).0 == Some(WeatherState { kind: WeatherKind::Sandstorm, remain_turns: 8 }),
        !text::has(effect, "下雨"@) && !text::has(effect, "沙暴"@) && text::has(effect, "暴风雪"@)
            ==> weather::changed(w, effect, log).0 == Some(
            WeatherState { kind: WeatherKind::Blizzard, remain_turns: 8 },
        ),
        !text::has(effect, "下雨"@) && !text::has(effect, "沙暴"@) && !text::has(effect, "暴风雪"@)
            ==> weather::changed(w, effect, log) == (w, log),
{
}

/// What is said of new weather is its name.
pub proof fn law_weather_is_told(w: Option<WeatherState>, effect: Seq<char>, log: Log)
    ensures
        text::has(effect, "暴风雪"@) && !text::has(effect, "下雨"@) && !text::has(effect, "沙暴"@)
            ==> weather::changed(w, effect, log).1.history == log.history + ("天气变为 ["@
            + "暴风雪"@ + "]，持续 8 回合。\n"@),
        text::has(effect, "沙暴"@) && !text::has(effect, "下雨"@) ==> weather::changed(
            w,
            effect,
            log,
        ).1.history == log.history + ("天气变为 ["@ + "沙暴"@ + "]，持续 8 回合。\n"@),
        text::has(effect, "下雨"@) ==> weather::changed(w, effect, log).1.history == log.history + (
        "天气变为 ["@ + "下雨"@ + "]，持续 8 回合。\n"@),
{
}

/// A skill that is paid for brings the weather that its effect names, whether it strikes or is only
/// charged; any other use leaves the weather as it is.
pub proof fn law_skills_bring_weather(
    side: Side,
    chosen: Seq<char>,
    attacker: Pet,
    defender: Pet,
    ded: DedicationBuff,
    sky: Option<WeatherState>,
    log: Log,
)
    ensures
        attack::attack_resolved(side, chosen, attacker, defender, ded, sky, log) matches Some(st)
            ==> {
            let effect = attack::used_skill(attacker, chosen).effect;
            st.weather == (if !attack::can_pay(attacker, chosen, ded, sky) {
                sky
            } else if text::has(effect, "下雨"@) {
                Some(WeatherState { kind: WeatherKind::Rain, remain_turns: 8 })
            } else if text::has(effect, "沙暴"@) {
                Some(WeatherState { kind: WeatherKind::Sandstorm, remain_turns: 8 })
            } else if text::has(effect, "暴风雪"@) {
                Some(WeatherState { kind: WeatherKind::Blizzard, remain_turns: 8 })
            } else {
                sky
            })
        },
{
    reveal(attack::attack_resolved);
    reveal(attack::struck);
}

/// A blizzard gives two layers of freezing, at the end of a round, to each fighter that is not of
/// ice; other weather does nothing to the fighters. The weather is then one round nearer its end.
pub proof fn law_weather_acts(w: Option<WeatherState>, a: Pet, b: Pet, log: Log)
    ensures
        weather::weather_ended(w, a, b, log) matches Some(r) ==> {
            let cold = w matches Some(x) && x.kind == WeatherKind::Blizzard;
            &&& cold && !a.has_element("冰"@) ==> r.1.freeze_layers == a.freeze_layers + 2
            &&& cold && !b.has_element("冰"@) ==> r.2.freeze_layers == b.freeze_layers + 2
            &&& !cold || a.has_element("冰"@) ==> r.1 == a
            &&& !cold || b.has_element("冰"@) ==> r.2 == b
            &&& w is None ==> r.0 is None && r.3 == log
            &&& w matches Some(x) ==> if x.remain_turns > 1 {
                r.0 matches Some(y) && y.kind == x.kind && y.remain_turns == x.remain_turns - 1
            } else {
                r.0 is None
            }
        },
{
}

/// Rain strengthens skills of water by half, and nothing else changes damage by the weather.
pub proof fn law_rain(sky: Option<WeatherState>, element: Seq<char>)
    ensures
        elements::weather_factor(sky, element) == (if element == "水"@ && (sky matches Some(w)
            && w.kind == WeatherKind::Rain) {
            15int
        } else {
            10
        }),
{
}

// Marks.

/// The mark that hurts, after an effect: thorns or descent, each under its own name and with its
/// number of layers. Layers of the kind that lies there add up, another kind takes its place.
pub open spec fn negative_after(slot: Option<NegativeImprint>, effect: Seq<char>) -> Option<
    NegativeImprint,
> {
    let thorns = effects::layers(effect, "层棘刺"@);
    let descent = effects::layers(effect, "层降灵"@);
    if text::has(effect, "降灵"@) && descent > 0 {
        let more = if !(text::has(effect, "棘刺"@) && thorns > 0) && (slot matches Some(i) && i.kind
            == NegativeImprintKind::Descend) {
            slot->0.layers as int
        } else {
            0
        };
        Some(NegativeImprint { kind: NegativeImprintKind::Descend, layers: (descent + more) as i32 })
    } else if text::has(effect, "棘刺"@) && thorns > 0 {
        let more = if slot matches Some(i) && i.kind == NegativeImprintKind::Thorn {
            slot->0.layers as int
        } else {
            0
        };
        Some(NegativeImprint { kind: NegativeImprintKind::Thorn, layers: (thorns + more) as i32 })
    } else {
        slot
    }
}

/// The mark that helps, after an effect: charge or photosynthesis.
pub open spec fn positive_after(slot: Option<PositiveImprint>, effect: Seq<char>) -> Option<
    PositiveImprint,
> {
    let charge = effects::layers(effect, "层蓄电"@);
    let photo = effects::layers(effect, "层光合"@);
    if text::has(effect, "光合"@) && photo > 0 {
        let more = if !(text::has(effect, "蓄电"@) && charge > 0) && (slot matches Some(i) && i.kind
            == PositiveImprintKind::Photosynthesis) {
            slot->0.layers as int
        } else {
            0
        };
        Some(
            PositiveImprint {
                kind: PositiveImprintKind::Photosynthesis,
                layers: (photo + more) as i32,
            },
        )
    } else if text::has(effect, "蓄电"@) && charge > 0 {
        let more = if slot matches Some(i) && i.kind == PositiveImprintKind::Charge {
            slot->0.layers as int
        } else {
            0
        };
        Some(PositiveImprint { kind: PositiveImprintKind::Charge, layers: (charge + more) as i32 })
    } else {
        slot
    }
}

proof fn lemma_marked(
    effect: Seq<char>,
    negative: Option<NegativeImprint>,
    positive: Option<PositiveImprint>,
    log: Log,
)
    ensures
        field::marked_by(effect, negative, positive, log) matches Some(r) ==> r.0 == negative_after(
            negative,
            effect,
        ) && r.1 == positive_after(positive, effect),
{
    effects::lemma_number_before(effect, "层棘刺"@);
    effects::lemma_number_before(effect, "层降灵"@);
    effects::lemma_number_before(effect, "层蓄电"@);
    effects::lemma_number_before(effect, "层光合"@);
}

/// A skill that is paid for lays the marks that hurt on the side of the opponent and those that help
/// on its own side; the mark that hurts on its own side and the one that helps on the other stay as
/// they are. A use counts for the own side, and for nobody else.
pub proof fn law_marks_are_laid(
    side: Side,
    chosen: Seq<char>,
    own: Camp,
    opp: Camp,
    table: Map<Seq<char>, Patch>,
    sky: Option<WeatherState>,
    log: Log,
)
    requires
        own.fielded(),
        own.fighter().knows(chosen),
        attack::can_pay(own.fighter(), chosen, own.dedication, sky),
    ensures
        action::skill_used(side, chosen, own, opp, table, sky, log) matches Some(t) ==> {
            let skill = own.fighter().skills[own.fighter().skill_index(chosen)];
            &&& t.opp.negative == negative_after(opp.negative, skill.effect)
            &&& t.own.positive == positive_after(own.positive, skill.effect)
            &&& t.own.negative == own.negative
            &&& t.opp.positive == opp.positive
            &&& t.own.banks == field::tallied(
                table,
                t.own.team,
                own.fighter().name,
                skill.element,
                own.banks,
            )
            &&& t.opp.banks == opp.banks
            &&& t.own.active == own.active
            &&& t.opp.active == opp.active
            &&& t.own.bank == own.bank
            &&& t.own.dedication == own.dedication
        },
{
    reveal(action::skill_used);
    reveal(field::field_marked);
    attack::lemma_paid(
        side,
        chosen,
        own.fighter(),
        opp.fighter(),
        own.dedication,
        sky,
        log,
    );
    laws::law_uses_count(
        side,
        chosen,
        own.fighter(),
        opp.fighter(),
        own.dedication,
        sky,
        log,
    );
    match attack::attack_resolved(
        side,
        chosen,
        own.fighter(),
        opp.fighter(),
        own.dedication,
        sky,
        log,
    ) {
        None => {},
        Some(st) => {
            lemma_skills_stay(
                side,
                chosen,
                own.fighter(),
                opp.fighter(),
                own.dedication,
                sky,
                log,
            );
            lemma_marked(
                own.fighter().skills[own.fighter().skill_index(chosen)].effect,
                opp.negative,
                own.positive,
                st.log,
            );
        },
    }
}

proof fn lemma_skills_stay(
    side: Side,
    chosen: Seq<char>,
    attacker: Pet,
    defender: Pet,
    ded: DedicationBuff,
    sky: Option<WeatherState>,
    log: Log,
)
    ensures
        attack::attack_resolved(side, chosen, attacker, defender, ded, sky, log) matches Some(st)
            ==> st.attacker.skills == attacker.skills && st.attacker.name == attacker.name
            && st.attacker.entry_leave_immune == attacker.entry_leave_immune
            && st.defender.skills == defender.skills,
{
    reveal(attack::attack_resolved);
    reveal(attack::struck);
    reveal(attack::hit);
    reveal(status::afflicted);
}

/// A use of ice, fire or earth that a standing pet of the team waits for raises the count of that
/// element by one, and no other.
pub proof fn law_waited_uses_count(
    table: Map<Seq<char>, Patch>,
    team: Seq<Pet>,
    attacker: Seq<char>,
    element: Seq<char>,
    banks: ElementSkillBanks,
    i: int,
)
    requires
        0 <= i < team.len(),
        field::waits_for(table, team[i], attacker, element),
    ensures
        ({
            let after = field::tallied(table, team, attacker, element, banks);
            &&& element == "冰"@ ==> after.ice == number::lesser(banks.ice + 1, i32::MAX as int)
                && after.fire == banks.fire && after.earth == banks.earth
            &&& element == "火"@ ==> after.fire == number::lesser(banks.fire + 1, i32::MAX as int)
                && after.ice == banks.ice && after.earth == banks.earth
            &&& element == "地"@ ==> after.earth == number::lesser(banks.earth + 1, i32::MAX as int)
                && after.ice == banks.ice && after.fire == banks.fire
            &&& element != "冰"@ && element != "火"@ && element != "地"@ ==> after == banks
        }),
{
    reveal(field::tallied);
    reveal_strlit("冰");
    reveal_strlit("火");
    reveal_strlit("地");
    assert("冰"@[0] == '冰' && "火"@[0] == '火' && "地"@[0] == '地');
}

/// A pet waits for an element while it stands and its patch has a rule for it; one whose rule leaves
/// its own uses out waits for those of others only.
pub proof fn law_waiting(
    table: Map<Seq<char>, Patch>,
    receiver: Pet,
    attacker: Seq<char>,
    element: Seq<char>,
)
    ensures
        field::waits_for(table, receiver, attacker, element) <==> {
            &&& receiver.cur_hp > 0
            &&& table.contains_key(receiver.name)
            &&& table[receiver.name].per_element is Some
            &&& table[receiver.name].per_element->0.element == element
            &&& table[receiver.name].per_element->0.exclude_self ==> receiver.name != attacker
        },
{
}

// Entering.

/// What meets a pet without a patch that enters: thorns take six hundredths of its health for each
/// layer, at least a point; descent takes a point of energy for each layer; charge adds ten to its
/// power for each layer. It is fresh on the field.
pub proof fn law_marks_meet_entry(
    side: Side,
    p: Pet,
    negative: Option<NegativeImprint>,
    positive: Option<PositiveImprint>,
    table: Map<Seq<char>, Patch>,
    bank: int,
    banks: ElementSkillBanks,
    log: Log,
)
    requires
        p.wf(),
        !table.contains_key(p.name),
        field::negative_wf(negative),
        field::positive_wf(positive),
    ensures
        field::entered(side, p, negative, positive, table, bank, banks, log) matches Some(r) ==> {
            let q = status::locked(p)->0;
            &&& r.0.entry_leave_immune
            &&& r.0.cur_hp == (match negative {
                Some(m) if m.kind == NegativeImprintKind::Thorn => number::greater(
                    q.cur_hp - number::greater(stats::hp_part(p.hp, 6) * m.layers, 1),
                    0,
                ),
                _ => q.cur_hp,
            })
            &&& r.0.energy == (match negative {
                Some(m) if m.kind == NegativeImprintKind::Descend => number::greater(
                    p.energy - m.layers,
                    0,
                ),
                _ => p.energy,
            })
            &&& r.0.entry_bonus_power == (match positive {
                Some(m) if m.kind == PositiveImprintKind::Charge => 10 * m.layers,
                _ => p.entry_bonus_power,
            })
        },
{
    reveal(field::entered);
}

/// A pet that settles a count when it enters gains the energy of its patch for each time that was
/// counted, between nothing and its limit.
pub proof fn law_settling_gives_energy(
    side: Side,
    p: Pet,
    positive: Option<PositiveImprint>,
    table: Map<Seq<char>, Patch>,
    bank: int,
    banks: ElementSkillBanks,
    log: Log,
)
    requires
        p.wf(),
        table.contains_key(p.name),
        bank >= 0,
        banks.wf(),
    ensures
        field::entered(side, p, None, positive, table, bank, banks, log) matches Some(r) ==> {
            let patch = table[p.name];
            &&& patch.per_element is None && patch.per_ally_counter is Some && number::fits(
                patch.per_ally_counter->0 * bank,
            ) ==> r.0.energy == number::clamped(
                p.energy + patch.per_ally_counter->0 * bank,
                0,
                p.energy_cap,
            ) && r.1 == 0
            &&& patch.per_ally_counter is None && patch.per_element is Some && number::fits(
                patch.per_element->0.energy_per_use * banks.of(patch.per_element->0.element),
            ) ==> r.0.energy == number::clamped(
                p.energy + patch.per_element->0.energy_per_use * banks.of(
                    patch.per_element->0.element,
                ),
                0,
                p.energy_cap,
            ) && r.2.of(patch.per_element->0.element) == 0 && r.1 == bank
            &&& patch.per_ally_counter is None && patch.per_element is None ==> r.0.energy
                == p.energy && r.1 == bank && r.2 == banks
        },
{
    reveal(field::entered);
    let patch = table[p.name];
    if patch.per_ally_counter is Some {
        let per = patch.per_ally_counter->0 as int;
        assert(per == 0 || bank == 0 ==> per * bank == 0) by (nonlinear_arith);
    }
    if patch.per_element is Some {
        let per = patch.per_element->0.energy_per_use;
        let n = banks.of(patch.per_element->0.element);
        assert(per == 0 || n == 0 ==> per * n == 0) by (nonlinear_arith);
    }
}

/// A pet that settles a count when it enters gains its energy before descent takes some of it.
pub proof fn law_settling_goes_before_descent(
    side: Side,
    p: Pet,
    mark: NegativeImprint,
    table: Map<Seq<char>, Patch>,
    bank: int,
    banks: ElementSkillBanks,
    log: Log,
)
    requires
        p.wf(),
        table.contains_key(p.name),
        table[p.name].per_element is None,
        table[p.name].per_ally_counter is Some,
        bank >= 0,
        number::fits(table[p.name].per_ally_counter->0 * bank),
        mark.kind == NegativeImprintKind::Descend,
        mark.layers > 0,
    ensures
        field::entered(side, p, Some(mark), None, table, bank, banks, log) matches Some(r) ==> {
            let gain = table[p.name].per_ally_counter->0 * bank;
            r.0.energy == number::greater(
                number::clamped(p.energy + gain, 0, p.energy_cap) - mark.layers,
                0,
            )
        },
{
    reveal(field::entered);
    let per = table[p.name].per_ally_counter->0 as int;
    assert(per == 0 || bank == 0 ==> per * bank == 0) by (nonlinear_arith);
}

// Leaving and coming in.

proof fn lemma_has_tail(t: Seq<char>, whole: Seq<char>, part: Seq<char>)
    requires
        part.is_suffix_of(whole),
        text::has(t, whole),
    ensures
        text::has(t, part),
{
    let i = choose|i: int| text::occurs_at(t, whole, i);
    let d = whole.len() - part.len();
    assert(t.subrange(i, i + whole.len()) == whole);
    assert(t.subrange(i + d, i + d + part.len()) == whole.subrange(d, whole.len() as int));
    assert(text::occurs_at(t, part, i + d));
}

/// A used skill takes its pet off the field exactly where its effect says so with one of three
/// words, the pet is not fresh on the field, and another can come in: the first that can, or, for an
/// escape, one of them. Else nothing happens but that it may be told of.
pub proof fn law_leaving_the_field(
    side: Side,
    used: Seq<char>,
    own: Camp,
    opp: Pet,
    table: Map<Seq<char>, Patch>,
    sky: Option<WeatherState>,
    seed: u64,
    log: Log,
)
    requires
        own.fielded(),
        own.team.len() <= usize::MAX,
    ensures
        action::left(side, used, own, opp, table, sky, seed, log) matches Some(sc) ==> {
            let p = own.fighter();
            let effect = p.skills[p.skill_index(used)].effect;
            let others = camp::reserves(own.team, own.active);
            let goes = p.knows(used) && (text::has(effect, "折返"@) || text::has(effect, "脱离"@)
                || text::has(effect, "返场"@)) && !p.entry_leave_immune && others.len() > 0;
            &&& !goes ==> sc.own == own && sc.opp == opp && sc.weather == sky
            &&& goes && !text::has(effect, "紧急脱离"@) ==> sc.own.active == others[0]
            &&& goes ==> others.contains(sc.own.active as usize) && sc.own.active != own.active
        },
{
    reveal(action::left);
    reveal(action::brought_in);
    reveal_strlit("脱离");
    reveal_strlit("紧急脱离");
    let p = own.fighter();
    let effect = p.skills[p.skill_index(used)].effect;
    let others = camp::reserves(own.team, own.active);
    assert("脱离"@.is_suffix_of("紧急脱离"@));
    if text::has(effect, "紧急脱离"@) {
        lemma_has_tail(effect, "紧急脱离"@, "脱离"@);
    }
    if others.len() > 0 {
        let k = random::drawn(seed, others.len() as int);
        assert(0 <= k < others.len());
        laws::law_reserves(own.team, own.active, k);
        laws::law_reserves(own.team, own.active, 0);
        assert(others.contains(others[k]));
        assert(others.contains(others[0]));
    }
}

/// The pet that comes in takes the place of the fighter, which loses poison, burning and parasites
/// and keeps its health and energy; no other pet of the team changes.
pub proof fn law_coming_in(
    side: Side,
    own: Camp,
    opp: Pet,
    idx: int,
    msg: Seq<char>,
    table: Map<Seq<char>, Patch>,
    sky: Option<WeatherState>,
    log: Log,
)
    requires
        own.fielded(),
        0 <= idx < own.team.len(),
        idx != own.active,
    ensures
        action::brought_in(side, own, opp, idx, msg, table, sky, log) matches Some(sc) ==> {
            let gone = sc.own.team[own.active];
            &&& gone == (Pet {
                poison_layers: 0,
                burn_layers: 0,
                parasitic_layers: 0,
                ..own.fighter()
            })
            &&& sc.own.active == idx
            &&& sc.own.team.len() == own.team.len()
            &&& gone.poison_layers == 0 && gone.burn_layers == 0 && gone.parasitic_layers == 0
            &&& gone.energy == own.fighter().energy && gone.cur_hp == own.fighter().cur_hp
            &&& gone.freeze_layers == own.fighter().freeze_layers && gone.morph_stage
                == own.fighter().morph_stage
            &&& forall|i: int|
                0 <= i < own.team.len() && i != idx && i != own.active ==> #[trigger] sc.own.team[i]
                    == own.team[i]
            &&& sc.own.negative == own.negative && sc.own.positive == own.positive
            &&& sc.own.life == own.life
            &&& sc.own.dedication == own.dedication
        },
{
    reveal(action::brought_in);
}

/// What a swift skill does on entry: the first one that can be paid for is used, while both fighters
/// stand; without one nothing happens.
pub proof fn law_swift(
    side: Side,
    p: Pet,
    opp: Pet,
    ded: DedicationBuff,
    sky: Option<WeatherState>,
    log: Log,
    i: int,
)
    requires
        0 <= i <= p.skills.len(),
        forall|j: int|
            0 <= j < i ==> !(text::has((#[trigger] p.skills[j]).effect, "迅捷"@) && p.energy
                >= effects::cost_in(p.skills[j], sky)),
        i < p.skills.len() ==> text::has(p.skills[i].effect, "迅捷"@) && p.energy
            >= effects::cost_in(p.skills[i], sky),
    ensures
        ({
            let done = action::swift(side, p, opp, ded, sky, log);
            if i < p.skills.len() && p.cur_hp > 0 && opp.cur_hp > 0 {
                done == attack::attack_resolved(
                    side,
                    p.skills[i].name,
                    p,
                    opp,
                    ded,
                    sky,
                    log.said(
                        side.letter() + "方 "@ + p.name + " 触发迅捷，自动使用 ["@
                            + p.skills[i].name + "]。\n"@,
                    ),
                )
            } else {
                done matches Some(st) && st.attacker == p && st.defender == opp && st.weather == sky
                    && st.log == log && st.tally is None
            }
        }),
{
    lemma_swift_from(p, sky, 0, i);
}

proof fn lemma_swift_from(p: Pet, sky: Option<WeatherState>, from: int, i: int)
    requires
        0 <= from <= i <= p.skills.len(),
        forall|j: int|
            0 <= j < i ==> !(text::has((#[trigger] p.skills[j]).effect, "迅捷"@) && p.energy
                >= effects::cost_in(p.skills[j], sky)),
        i < p.skills.len() ==> text::has(p.skills[i].effect, "迅捷"@) && p.energy
            >= effects::cost_in(p.skills[i], sky),
    ensures
        action::swift_from(p, sky, from) == (if i < p.skills.len() {
            Some(i)
        } else {
            None
        }),
    decreases i - from,
{
    if from < i {
        assert(!(text::has(p.skills[from].effect, "迅捷"@) && p.energy >= effects::cost_in(
            p.skills[from],
            sky,
        )));
        lemma_swift_from(p, sky, from + 1, i);
    }
}

/// A pet that comes in enters the field and then uses its swift skill: on the opponent, for its own
/// side's counts.
pub proof fn law_entry_then_swift(
    side: Side,
    own: Camp,
    opp: Pet,
    idx: int,
    msg: Seq<char>,
    table: Map<Seq<char>, Patch>,
    sky: Option<WeatherState>,
    log: Log,
)
    requires
        own.fielded(),
        0 <= idx < own.team.len(),
        idx != own.active,
    ensures
        action::brought_in(side, own, opp, idx, msg, table, sky, log) matches Some(sc) ==> {
            let came = Pet { charging_skill: None, ..own.team[idx] };
            field::entered(
                side,
                came,
                own.negative,
                own.positive,
                table,
                own.bank,
                own.banks,
                log.said(msg),
            ) matches Some(e)
                && action::swift(side, e.0, opp, own.dedication, sky, e.3) matches Some(
                st,
            ) && sc.opp == st.defender && sc.own.fighter() == st.attacker && sc.weather
                == st.weather && sc.log == st.log && sc.own.bank == e.1 && sc.own.banks == (
            match st.tally {
                Some(t) => field::tallied(table, sc.own.team, t.0, t.1, e.2),
                None => e.2,
            })
        },
{
    reveal(action::brought_in);
}

proof fn lemma_target_found(team: Seq<Pet>, active: int, name: Seq<char>, from: int)
    requires
        0 <= from,
    ensures
        camp::target_from(team, active, name, from) matches Some(i) ==> from <= i < team.len()
            && i != active && team[i].cur_hp > 0 && team[i].name == name && forall|j: int|
            from <= j < i ==> !(j != active && (#[trigger] team[j]).cur_hp > 0 && team[j].name
                == name),
        camp::target_from(team, active, name, from) is None ==> forall|j: int|
            from <= j < team.len() ==> !(j != active && (#[trigger] team[j]).cur_hp > 0
                && team[j].name == name),
    decreases team.len() - from,
{
    if from < team.len() {
        lemma_target_found(team, active, name, from + 1);
    }
}

/// A switch brings in the first other pet of that name that stands, and fails where there is none.
pub proof fn law_switch(
    side: Side,
    target: Seq<char>,
    own: Camp,
    opp: Camp,
    table: Map<Seq<char>, Patch>,
    sky: Option<WeatherState>,
    log: Log,
)
    requires
        own.fielded(),
    ensures
        action::switch_executed(side, target, own, opp, table, sky, log) matches Some(t) ==> {
            let can = |j: int|
                0 <= j < own.team.len() && j != own.active && own.team[j].cur_hp > 0
                    && own.team[j].name == target;
            &&& (exists|j: int| #[trigger] can(j)) ==> can(t.own.active) && forall|j: int|
                0 <= j < t.own.active ==> !#[trigger] can(j)
            &&& !(exists|j: int| #[trigger] can(j)) ==> t.own == own && t.opp == opp && t.weather
                == sky
        },
{
    reveal(action::switch_executed);
    lemma_target_found(own.team, own.active, target, 0);
    match camp::switch_target(own.team, own.active, target) {
        None => {},
        Some(idx) => {
            law_coming_in(
                side,
                own,
                opp.fighter(),
                idx,
                side.letter() + "方选择换宠，上场："@ + own.team[idx].name + "。\n"@,
                table,
                sky,
                log,
            );
        },
    }
    let can = |j: int|
        0 <= j < own.team.len() && j != own.active && own.team[j].cur_hp > 0 && own.team[j].name
            == target;
    assert forall|j: int| #[trigger] can(j) implies camp::switch_target(
        own.team,
        own.active,
        target,
    ) is Some by {
        assert(own.team[j].cur_hp > 0);
    }
    if camp::switch_target(own.team, own.active, target) is Some {
        assert(can(camp::switch_target(own.team, own.active, target)->0));
    }
}

/// Charging gives a fighter that stands five points of energy, up to its limit, and changes nothing
/// else but that it is no longer fresh on the field.
pub proof fn law_charging(
    side: Side,
    own: Camp,
    opp: Camp,
    table: Map<Seq<char>, Patch>,
    sky: Option<WeatherState>,
    leave_seed: u64,
    gain_seed: u64,
    log: Log,
)
    requires
        own.wf(),
        own.fielded(),
    ensures
        action::executed(
            side,
            Choice::Charge,
            own,
            opp,
            table,
            sky,
            leave_seed,
            gain_seed,
            log,
        ) matches Some(t) ==> {
            let p = own.fighter();
            &&& t.opp == opp
            &&& t.weather == sky
            &&& p.cur_hp > 0 ==> t.own == own.with_fighter(
                Pet {
                    energy: if p.energy + 5 <= p.energy_cap {
                        p.energy + 5
                    } else {
                        p.energy_cap
                    },
                    entry_leave_immune: false,
                    ..p
                },
            )
            &&& p.cur_hp <= 0 ==> t.own == own
        },
{
    assert(own.team[own.active].wf());
}

/// A skill that is paid for is followed by what takes its pet off the field and by what it adds to
/// dedication; whoever fights then is not fresh on the field any more.
pub proof fn law_turn_with_a_skill(
    side: Side,
    chosen: Seq<char>,
    own: Camp,
    opp: Camp,
    table: Map<Seq<char>, Patch>,
    sky: Option<WeatherState>,
    leave_seed: u64,
    gain_seed: u64,
    log: Log,
)
    requires
        own.fielded(),
        opp.fielded(),
        own.team.len() <= usize::MAX,
        attack::can_pay(own.fighter(), chosen, own.dedication, sky),
    ensures
        action::executed(
            side,
            Choice::UseSkill(chosen),
            own,
            opp,
            table,
            sky,
            leave_seed,
            gain_seed,
            log,
        ) matches Some(t) ==> {
            let p = own.fighter();
            let effect = p.skills[p.skill_index(chosen)].effect;
            let others = camp::reserves(own.team, own.active);
            let goes = p.knows(chosen) && (text::has(effect, "折返"@) || text::has(effect, "脱离"@)
                || text::has(effect, "返场"@)) && !p.entry_leave_immune && others.len() > 0;
            &&& !goes ==> t.own.active == own.active
            &&& goes && !text::has(effect, "紧急脱离"@) ==> t.own.active == others[0]
            &&& goes ==> others.contains(t.own.active as usize)
            &&& !t.own.fighter().entry_leave_immune
            &&& t.opp.active == opp.active
            &&& t.own.life == own.life && t.opp.life == opp.life
        },
{
    reveal(action::skill_executed);
    reveal(action::skill_used);
    lemma_skills_stay(
        side,
        chosen,
        own.fighter(),
        opp.fighter(),
        own.dedication,
        sky,
        log,
    );
    attack::lemma_paid(side, chosen, own.fighter(), opp.fighter(), own.dedication, sky, log);
    match action::skill_used(side, chosen, own, opp, table, sky, log) {
        None => {},
        Some(t) => {
            lemma_same_reserves(own.team, t.own.team, own.active, 0);
            law_leaving_the_field(
                side,
                chosen,
                t.own,
                t.opp.fighter(),
                table,
                t.weather,
                leave_seed,
                t.log,
            );
            lemma_left_fielded(
                side,
                chosen,
                t.own,
                t.opp.fighter(),
                table,
                t.weather,
                leave_seed,
                t.log,
            );
        },
    }
}

proof fn lemma_left_fielded(
    side: Side,
    used: Seq<char>,
    own: Camp,
    opp: Pet,
    table: Map<Seq<char>, Patch>,
    sky: Option<WeatherState>,
    seed: u64,
    log: Log,
)
    requires
        own.fielded(),
        own.team.len() <= usize::MAX,
    ensures
        action::left(side, used, own, opp, table, sky, seed, log) matches Some(sc)
            ==> sc.own.fielded() && sc.own.life == own.life,
{
    reveal(action::left);
    reveal(action::brought_in);
    let others = camp::reserves(own.team, own.active);
    if others.len() > 0 {
        let k = random::drawn(seed, others.len() as int);
        assert(0 <= k < others.len());
        laws::law_reserves(own.team, own.active, k);
        laws::law_reserves(own.team, own.active, 0);
    }
}

proof fn lemma_same_reserves(x: Seq<Pet>, y: Seq<Pet>, active: int, from: int)
    requires
        x.len() == y.len(),
        0 <= from,
        forall|i: int| 0 <= i < x.len() && i != active ==> #[trigger] x[i] == y[i],
    ensures
        camp::reserves_from(x, active, from) == camp::reserves_from(y, active, from),
    decreases x.len() - from,
{
    if from < x.len() {
        lemma_same_reserves(x, y, active, from + 1);
        assert(from != active ==> x[from] == y[from]);
    }
}

// Dedication.

pub open spec fn one_if(b: bool) -> int {
    if b {
        1
    } else {
        0
    }
}

/// A used skill of dedication adds one time of each kind that its effect names, and one of a kind
/// that is drawn where it asks for that; any other skill adds nothing.
pub proof fn law_dedication_is_gathered(
    side: Side,
    p: Pet,
    used: Seq<char>,
    d: DedicationBuff,
    seed: u64,
    log: Log,
)
    ensures
        dedication::dedication_gained(side, p, used, d, seed, log) matches Some(r) ==> {
            let effect = p.skills[p.skill_index(used)].effect;
            let on = p.knows(used) && text::has(effect, "奉献"@);
            let drawn = if on && text::has(effect, "随机奉献"@) {
                random::drawn(seed, 5)
            } else {
                -1
            };
            &&& r.0.power_bonus_times == d.power_bonus_times + one_if(
                on && text::has(effect, "威力+20"@),
            ) + one_if(drawn == 0)
            &&& r.0.poison_bonus_times == d.poison_bonus_times + one_if(
                on && (text::has(effect, "附加 2 层中毒"@) || text::has(effect, "获得2层中毒"@)),
            ) + one_if(drawn == 1)
            &&& r.0.lifesteal_bonus_times == d.lifesteal_bonus_times + one_if(
                on && (text::has(effect, "10%吸血"@) || text::has(effect, "20%吸血"@)),
            ) + one_if(drawn == 2)
            &&& r.0.combo_bonus_times == d.combo_bonus_times + one_if(
                on && text::has(effect, "连击数+1"@),
            ) + one_if(drawn == 3)
            &&& r.0.cost_reduction_times == d.cost_reduction_times + one_if(
                on && text::has(effect, "能耗-2"@),
            ) + one_if(drawn == 4)
        },
{
    reveal(dedication::dedication_gained);
    reveal_with_fuel(dedication::granted, 6);
    if p.knows(used) {
        let k = random::drawn(seed, 5);
        assert(0 <= k < 5);
    }
}

/// What a skill of attack that is paid for adds to dedication, it adds for its side.
pub proof fn law_turns_gather_dedication(
    side: Side,
    chosen: Seq<char>,
    own: Camp,
    opp: Camp,
    table: Map<Seq<char>, Patch>,
    sky: Option<WeatherState>,
    leave_seed: u64,
    gain_seed: u64,
    log: Log,
)
    requires
        own.fielded(),
        opp.fielded(),
        own.team.len() <= usize::MAX,
        attack::can_pay(own.fighter(), chosen, own.dedication, sky),
        own.fighter().knows(chosen),
        ({
            let effect = own.fighter().skills[own.fighter().skill_index(chosen)].effect;
            &&& !text::has(effect, "折返"@)
            &&& !text::has(effect, "脱离"@)
            &&& !text::has(effect, "返场"@)
            &&& !text::has(effect, "随机奉献"@)
        }),
    ensures
        action::executed(
            side,
            Choice::UseSkill(chosen),
            own,
            opp,
            table,
            sky,
            leave_seed,
            gain_seed,
            log,
        ) matches Some(t) ==> {
            let effect = own.fighter().skills[own.fighter().skill_index(chosen)].effect;
            let on = text::has(effect, "奉献"@);
            &&& t.own.dedication.power_bonus_times == own.dedication.power_bonus_times + one_if(
                on && text::has(effect, "威力+20"@),
            )
            &&& t.own.dedication.combo_bonus_times == own.dedication.combo_bonus_times + one_if(
                on && text::has(effect, "连击数+1"@),
            )
            &&& t.own.dedication.cost_reduction_times == own.dedication.cost_reduction_times
                + one_if(on && text::has(effect, "能耗-2"@))
            &&& t.opp.dedication == opp.dedication
            &&& t.opp.negative == negative_after(opp.negative, effect)
            &&& t.own.positive == positive_after(own.positive, effect)
            &&& t.own.negative == own.negative
            &&& t.opp.positive == opp.positive
        },
{
    reveal(action::skill_executed);
    law_marks_are_laid(side, chosen, own, opp, table, sky, log);
    match action::skill_used(side, chosen, own, opp, table, sky, log) {
        None => {},
        Some(t) => {
            lemma_used_skills_stay(side, chosen, own, opp, table, sky, log);
            law_leaving_the_field(
                side,
                chosen,
                t.own,
                t.opp.fighter(),
                table,
                t.weather,
                leave_seed,
                t.log,
            );
            match action::left(
                side,
                chosen,
                t.own,
                t.opp.fighter(),
                table,
                t.weather,
                leave_seed,
                t.log,
            ) {
                None => {},
                Some(sc) => {
                    let acted = action::settled_in(sc.own);
                    law_dedication_is_gathered(
                        side,
                        acted.fighter(),
                        chosen,
                        acted.dedication,
                        gain_seed,
                        sc.log,
                    );
                },
            }
        },
    }
}

proof fn lemma_used_skills_stay(
    side: Side,
    chosen: Seq<char>,
    own: Camp,
    opp: Camp,
    table: Map<Seq<char>, Patch>,
    sky: Option<WeatherState>,
    log: Log,
)
    requires
        own.fielded(),
    ensures
        action::skill_used(side, chosen, own, opp, table, sky, log) matches Some(t)
            ==> t.own.fighter().skills == own.fighter().skills && t.own.team.len() == own.team.len()
            && t.own.active == own.active && t.opp.dedication == opp.dedication,
{
    reveal(action::skill_used);
    lemma_skills_stay(
        side,
        chosen,
        own.fighter(),
        opp.fighter(),
        own.dedication,
        sky,
        log,
    );
}

// The skill that is used, and what it costs.

/// The skill that is used is the first of the name that was chosen, or the first of all where the
/// pet has none of that name.
pub proof fn law_skill_by_name(p: Pet, chosen: Seq<char>, i: int)
    requires
        0 <= i < p.skills.len(),
    ensures
        p.skills[i].name == chosen && (forall|k: int|
            0 <= k < i ==> (#[trigger] p.skills[k]).name != chosen)
                ==> attack::used_skill(p, chosen)
            == p.skills[i] && p.knows(chosen) && p.skill_index(chosen) == i,
        (forall|k: int| 0 <= k < p.skills.len() ==> (#[trigger] p.skills[k]).name != chosen)
            ==> attack::used_skill(p, chosen) == p.skills[0] && !p.knows(chosen),
{
    pet::lemma_first_named(p.skills, chosen);
    let m = pet::first_named(p.skills, chosen);
    if p.skills[i].name == chosen && forall|k: int|
        0 <= k < i ==> (#[trigger] p.skills[k]).name != chosen {
        pet::lemma_first_named_is(p.skills, chosen, i);
    }
    if forall|k: int| 0 <= k < p.skills.len() ==> (#[trigger] p.skills[k]).name != chosen {
        pet::lemma_first_named_is(p.skills, chosen, p.skills.len() as int);
    }
}

/// A skill that dedication is not for costs what it says; in a sandstorm one of earth costs half of
/// that, rounded up. With that much energy it is used, and the energy is spent; with less nothing
/// changes.
pub proof fn law_cost(
    side: Side,
    chosen: Seq<char>,
    attacker: Pet,
    defender: Pet,
    ded: DedicationBuff,
    sky: Option<WeatherState>,
    log: Log,
)
    requires
        ({
            let skill = attack::used_skill(attacker, chosen);
            &&& skill.cost >= 0
            &&& skill.name != "啃咬"@ && skill.name != "虫群"@
            &&& !text::has(skill.effect, "恢复"@)
        }),
    ensures
        attack::attack_resolved(side, chosen, attacker, defender, ded, sky, log) matches Some(st)
            ==> {
            let skill = attack::used_skill(attacker, chosen);
            let dusty = sky matches Some(w) && w.kind is Sandstorm && skill.element == "地"@;
            let cost = if dusty {
                (skill.cost + 1) / 2
            } else {
                skill.cost
            };
            &&& attacker.energy >= cost ==> st.attacker.energy == attacker.energy - cost && st.tally
                == Some((attacker.name, skill.element))
            &&& attacker.energy < cost ==> st.attacker == attacker && st.defender == defender
                && st.tally is None && st.weather == sky
        },
{
    reveal(attack::attack_resolved);
    reveal(attack::struck);
    reveal(attack::hit);
}

/// A defender that a hit brings down is told of as fallen, behind the hit; one that stands is not.
pub proof fn law_falling_is_told(
    side: Side,
    attacker: Pet,
    defender: Pet,
    skill: Skill,
    ded: DedicationBuff,
    sky: Option<WeatherState>,
    cost: int,
    log: Log,
)
    ensures
        attack::hit(side, attacker, defender, skill, ded, sky, cost, log) matches Some(r) ==> {
            let fallen = defender.name + " 倒下。\n"@;
            &&& r.1.cur_hp <= 0 ==> r.2.deltas.len() == log.deltas.len() + 2 && r.2.deltas.last()
                == fallen && fallen.is_suffix_of(r.2.history)
            &&& r.1.cur_hp > 0 ==> r.2.deltas.len() == log.deltas.len() + 1
            &&& log.history.is_prefix_of(r.2.history)
        },
{
    reveal(attack::hit);
}

/// Where a skill is an escape each pet that can come in may: there is a seed from which it does.
pub proof fn law_escape_is_drawn(own: Camp, effect: Seq<char>, k: int)
    requires
        text::has(effect, "紧急脱离"@),
        0 <= k < camp::reserves(own.team, own.active).len() <= 0xffff_ffff,
    ensures
        exists|seed: u64| #[trigger]
            action::next_in(own, effect, seed) == camp::reserves(own.team, own.active)[k],
{
    let seed = drafts::lemma_seed_for(k, camp::reserves(own.team, own.active).len() as int);
    assert(action::next_in(own, effect, seed) == camp::reserves(own.team, own.active)[k]);
}

/// A turn with a skill that takes nobody off the field leaves both fighters and the weather as the
/// use of the skill has left them; nobody else of either side changes.
pub proof fn law_turn_is_the_strike(
    side: Side,
    chosen: Seq<char>,
    own: Camp,
    opp: Camp,
    table: Map<Seq<char>, Patch>,
    sky: Option<WeatherState>,
    leave_seed: u64,
    gain_seed: u64,
    log: Log,
)
    requires
        own.fielded(),
        opp.fielded(),
        own.team.len() <= usize::MAX,
        attack::can_pay(own.fighter(), chosen, own.dedication, sky),
        ({
            let effect = own.fighter().skills[own.fighter().skill_index(chosen)].effect;
            &&& !text::has(effect, "折返"@)
            &&& !text::has(effect, "脱离"@)
            &&& !text::has(effect, "返场"@)
        }),
    ensures
        action::executed(
            side,
            Choice::UseSkill(chosen),
            own,
            opp,
            table,
            sky,
            leave_seed,
            gain_seed,
            log,
        ) matches Some(t) ==> {
            &&& attack::attack_resolved(
                side,
                chosen,
                own.fighter(),
                opp.fighter(),
                own.dedication,
                sky,
                log,
            ) matches Some(st)
            &&& t.own.fighter() == (Pet { entry_leave_immune: false, ..st.attacker })
            &&& t.opp.fighter() == st.defender
            &&& t.weather == st.weather
            &&& t.own.active == own.active && t.opp.active == opp.active
            &&& t.own.team.len() == own.team.len() && t.opp.team.len() == opp.team.len()
            &&& forall|i: int|
                0 <= i < own.team.len() && i != own.active ==> #[trigger] t.own.team[i]
                    == own.team[i]
            &&& forall|i: int|
                0 <= i < opp.team.len() && i != opp.active ==> #[trigger] t.opp.team[i]
                    == opp.team[i]
        },
{
    reveal(action::skill_executed);
    attack::lemma_paid(side, chosen, own.fighter(), opp.fighter(), own.dedication, sky, log);
    assert(action::skill_used(side, chosen, own, opp, table, sky, log) matches Some(t) ==> {
        &&& attack::attack_resolved(
            side,
            chosen,
            own.fighter(),
            opp.fighter(),
            own.dedication,
            sky,
            log,
        ) matches Some(st)
        &&& t.own.fighter() == st.attacker
        &&& t.own.team == own.team.update(own.active, st.attacker)
        &&& t.opp.team == opp.team.update(opp.active, st.defender)
        &&& t.weather == st.weather
        &&& t.own.active == own.active && t.opp.active == opp.active
    }) by {
        reveal(action::skill_used);
    }
    match action::skill_used(side, chosen, own, opp, table, sky, log) {
        None => {},
        Some(t) => {
            lemma_used_skills_stay(side, chosen, own, opp, table, sky, log);
            law_leaving_the_field(
                side,
                chosen,
                t.own,
                t.opp.fighter(),
                table,
                t.weather,
                leave_seed,
                t.log,
            );
        },
    }
}

// Nothing fails without need.

/// Whether the layers that an effect adds to those of a pet, and the health that freezing locks by
/// them, are in range.
pub open spec fn layers_fit(p: Pet, effect: Seq<char>) -> bool {
    &&& number::fits(p.poison_layers + effects::layers(effect, "层中毒"@))
    &&& number::fits(p.burn_layers + effects::layers(effect, "层灼烧"@))
    &&& number::fits(p.freeze_layers + effects::layers(effect, "层冻结"@))
    &&& number::fits(p.parasitic_layers + effects::layers(effect, "层寄生"@))
    &&& number::fits(
        stats::hp_part(p.hp, 5) * number::greater(
            p.freeze_layers + effects::layers(effect, "层冻结"@),
            0,
        ),
    )
}

/// A skill that dedication is not for can be used whenever its damage and the layers that it lays
/// are in range.
pub proof fn law_skills_can_be_used(
    side: Side,
    chosen: Seq<char>,
    attacker: Pet,
    defender: Pet,
    ded: DedicationBuff,
    sky: Option<WeatherState>,
    log: Log,
)
    requires
        attacker.wf(),
        attacker.armed(),
        defender.wf(),
        number::fits(attacker.energy_cap + 5),
        ({
            let skill = attack::used_skill(attacker, chosen);
            let one = one_hit(attacker, defender, skill, 0, sky);
            &&& skill.name != "啃咬"@ && skill.name != "虫群"@
            &&& number::fits(skill.power + attacker.entry_bonus_power)
            &&& number::fits(effects::hits(skill.effect))
            &&& number::fits(one * effects::hits(skill.effect))
            &&& layers_fit(defender, skill.effect)
        }),
    ensures
        attack::attack_resolved(side, chosen, attacker, defender, ded, sky, log) is Some,
{
    reveal(attack::attack_resolved);
    let skill = attack::used_skill(attacker, chosen);
    let cost = attack::actual_cost(skill, ded, sky);
    let paid = Pet { energy: attacker.energy - cost, ..attacker };
    pet_skill_wf(attacker, chosen);
    lemma_energy_is_no_matter(
        attacker,
        attacker.energy - cost,
        defender,
        skill,
        skill.power + attacker.entry_bonus_power,
        sky,
    );
    lemma_hits_positive(skill.effect);
    if attacker.energy >= cost {
        lemma_strike_lands(side, paid, defender, skill, ded, sky, cost, log);
    }
}

proof fn lemma_strike_lands(
    side: Side,
    attacker: Pet,
    defender: Pet,
    skill: Skill,
    ded: DedicationBuff,
    sky: Option<WeatherState>,
    cost: int,
    log: Log,
)
    requires
        attacker.energy >= 0,
        number::fits(attacker.energy + 5),
        attack::strike_fits(attacker, defender, skill, ded, sky),
        layers_fit(defender, skill.effect),
        skill.name != "啃咬"@ && skill.name != "虫群"@,
    ensures
        attack::struck(side, attacker, defender, skill, ded, sky, cost, log) is Some,
{
    reveal(attack::struck);
    reveal(attack::hit);
    match attack::hit(side, attacker, defender, skill, ded, sky, cost, log) {
        None => {},
        Some((a1, d1, l1)) => {
            lemma_states_can_be_laid(d1, skill.effect, l1);
        },
    }
}

proof fn lemma_states_can_be_laid(p: Pet, effect: Seq<char>, log: Log)
    requires
        layers_fit(p, effect),
    ensures
        status::afflicted(p, effect, log) is Some,
{
    reveal(status::afflicted);
}

/// A pet without a patch can always enter, as long as what freezing locks and what the marks do are
/// in range.
pub proof fn law_pets_can_enter(
    side: Side,
    p: Pet,
    negative: Option<NegativeImprint>,
    positive: Option<PositiveImprint>,
    table: Map<Seq<char>, Patch>,
    bank: int,
    banks: ElementSkillBanks,
    log: Log,
)
    requires
        !table.contains_key(p.name),
        number::fits(stats::hp_part(p.hp, 5) * number::greater(p.freeze_layers, 0)),
        negative matches Some(m) ==> number::fits(stats::hp_part(p.hp, 6) * m.layers),
        positive matches Some(m) ==> number::fits(10 * m.layers),
    ensures
        field::entered(side, p, negative, positive, table, bank, banks, log) matches Some(r)
            && r.1 == bank && r.2 == banks,
{
    reveal(field::entered);
}

/// A fighter can always charge, as long as its energy is in range.
pub proof fn law_charging_succeeds(
    side: Side,
    own: Camp,
    opp: Camp,
    table: Map<Seq<char>, Patch>,
    sky: Option<WeatherState>,
    leave_seed: u64,
    gain_seed: u64,
    log: Log,
)
    requires
        number::fits(own.fighter().energy + 5),
    ensures
        action::executed(
            side,
            Choice::Charge,
            own,
            opp,
            table,
            sky,
            leave_seed,
            gain_seed,
            log,
        ) is Some,
{
}

/// A pet without a patch and without a swift skill can always be brought in, as long as what freezing
/// locks and what the marks do are in range.
pub proof fn law_switch_succeeds(
    side: Side,
    own: Camp,
    opp: Camp,
    idx: int,
    table: Map<Seq<char>, Patch>,
    sky: Option<WeatherState>,
    log: Log,
)
    requires
        own.fielded(),
        opp.fielded(),
        0 <= idx < own.team.len(),
        idx != own.active,
        own.team[idx].cur_hp > 0,
        forall|j: int|
            0 <= j < own.team.len() && j != idx ==> (#[trigger] own.team[j]).name
                != own.team[idx].name,
        !table.contains_key(own.team[idx].name),
        forall|i: int|
            0 <= i < own.team[idx].skills.len() ==> !text::has(
                (#[trigger] own.team[idx].skills[i]).effect,
                "迅捷"@,
            ),
        ({
            let p = own.team[idx];
            &&& number::fits(stats::hp_part(p.hp, 5) * number::greater(p.freeze_layers, 0))
            &&& own.negative matches Some(m) ==> number::fits(stats::hp_part(p.hp, 6) * m.layers)
            &&& own.positive matches Some(m) ==> number::fits(10 * m.layers)
        }),
    ensures
        action::switch_executed(side, own.team[idx].name, own, opp, table, sky, log) matches Some(t)
            && t.own.active == idx && t.opp == opp && t.weather == sky,
{
    reveal(action::switch_executed);
    reveal(action::brought_in);
    let name = own.team[idx].name;
    assert(opp.team.update(opp.active, opp.fighter()) =~= opp.team);
    lemma_target_found(own.team, own.active, name, 0);
    match camp::switch_target(own.team, own.active, name) {
        None => {
            assert(own.team[idx].cur_hp > 0);
        },
        Some(i) => {
            assert(i == idx) by {
                if i != idx {
                    assert(own.team[i].name == name);
                }
            }
            let msg = side.letter() + "方选择换宠，上场："@ + own.team[idx].name + "。\n"@;
            let came = action::exchanged(own, idx);
            law_pets_can_enter(
                side,
                came.fighter(),
                own.negative,
                own.positive,
                table,
                own.bank,
                own.banks,
                log.said(msg),
            );
            match field::entered(
                side,
                came.fighter(),
                came.negative,
                came.positive,
                table,
                came.bank,
                came.banks,
                log.said(msg),
            ) {
                None => {},
                Some((p, bank, banks, l2)) => {
                    assert(p.skills == own.team[idx].skills) by {
                        reveal(field::entered);
                    }
                    law_swift(side, p, opp.fighter(), own.dedication, sky, l2, p.skills.len() as int);
                },
            }
        },
    }
}

} // verus!
