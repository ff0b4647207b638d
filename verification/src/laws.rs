//! The rules of the battle, as facts about what its parts do.

use vstd::prelude::*;
use crate::action;
use crate::attack;
use crate::camp;
use crate::camp::Camp;
use crate::decide;
use crate::effects;
use crate::elements;
use crate::field;
use crate::log::Log;
use crate::number;
use crate::pet;
use crate::pet::{
    Choice, DedicationBuff, NegativeImprint, NegativeImprintKind, Pet, PositiveImprint,
    PositiveImprintKind, Side, Skill, WeatherKind, WeatherState,
};
use crate::pet_battle_patch;
use crate::pet_battle_patch::{BankRule, ElementSkillBanks, Patch};
use crate::report;
use crate::stats;
use crate::status;
use crate::team;
use crate::text;
use crate::weather;

verus! {

// Legal decisions.

/// Charging is legal in every round.
pub proof fn law_charge_is_legal(team: Seq<Pet>, active: int, sky: Option<WeatherState>)
    ensures
        decide::invalid_reason(team, active, Choice::Charge, sky) is None,
{
}

/// A skill whose cost in the weather is more than the energy of the fighter is not legal, and one
/// that it knows and can pay for is.
pub proof fn law_energy_decides(
    team: Seq<Pet>,
    active: int,
    name: Seq<char>,
    sky: Option<WeatherState>,
)
    requires
        team[active].knows(name),
    ensures
        decide::invalid_reason(team, active, Choice::UseSkill(name), sky) is None <==> team[active].energy
            >= effects::cost_in(team[active].skills[team[active].skill_index(name)], sky),
{
}

/// Whether skills of one name share element and cost, and so cost the same in any weather.
pub open spec fn unambiguous(p: Pet) -> bool {
    forall|i: int, j: int|
        0 <= i < p.skills.len() && 0 <= j < p.skills.len() && (#[trigger] p.skills[i]).name == (
        #[trigger] p.skills[j]).name ==> p.skills[i].element == p.skills[j].element
            && p.skills[i].cost == p.skills[j].cost
}

proof fn lemma_target_from(team: Seq<Pet>, active: int, name: Seq<char>, from: int, i: int)
    requires
        0 <= from <= i < team.len(),
        camp::is_reserve(team, active, i),
        team[i].name == name,
    ensures
        camp::target_from(team, active, name, from) is Some,
    decreases i - from,
{
    if from < i {
        lemma_target_from(team, active, name, from + 1, i);
    }
}

proof fn lemma_reserves_from(team: Seq<Pet>, active: int, from: int)
    requires
        0 <= from,
        team.len() <= usize::MAX,
    ensures
        forall|k: int|
            0 <= k < camp::reserves_from(team, active, from).len() ==> {
                let i = #[trigger] camp::reserves_from(team, active, from)[k];
                from <= i < team.len() && camp::is_reserve(team, active, i as int)
            },
    decreases team.len() - from,
{
    if from < team.len() {
        lemma_reserves_from(team, active, from + 1);
        let rest = camp::reserves_from(team, active, from + 1);
        if camp::is_reserve(team, active, from) {
            assert forall|k: int| 0 <= k < camp::reserves_from(team, active, from).len() implies {
                let i = #[trigger] camp::reserves_from(team, active, from)[k];
                from <= i < team.len() && camp::is_reserve(team, active, i as int)
            } by {
                if k > 0 {
                    assert(camp::reserves_from(team, active, from)[k] == rest[k - 1]);
                }
            }
        }
    }
}

/// The pets that can come in are those that stand, the fighter left out.
pub proof fn law_reserves(team: Seq<Pet>, active: int, k: int)
    requires
        team.len() <= usize::MAX,
        0 <= k < camp::reserves(team, active).len(),
    ensures
        camp::reserves(team, active)[k] < team.len(),
        camp::is_reserve(team, active, camp::reserves(team, active)[k] as int),
{
    lemma_reserves_from(team, active, 0);
}

/// Bringing in a pet that stands is legal, under its name.
pub proof fn law_reserve_is_legal(team: Seq<Pet>, active: int, i: int, sky: Option<WeatherState>)
    requires
        0 <= i < team.len(),
        camp::is_reserve(team, active, i),
    ensures
        decide::invalid_reason(team, active, Choice::Switch(team[i].name), sky) is None,
{
    lemma_target_from(team, active, team[i].name, 0, i);
}

proof fn lemma_affordable_from(p: Pet, sky: Option<WeatherState>, from: int)
    requires
        0 <= from,
    ensures
        decide::affordable_from(p, sky, from) matches Some(i) ==> from <= i < p.skills.len()
            && p.energy >= effects::cost_in(p.skills[i], sky),
    decreases p.skills.len() - from,
{
    if from < p.skills.len() {
        lemma_affordable_from(p, sky, from + 1);
    }
}

/// A skill that the fighter has and can pay for is legal, under its name.
pub proof fn law_affordable_is_legal(
    team: Seq<Pet>,
    active: int,
    i: int,
    sky: Option<WeatherState>,
)
    requires
        unambiguous(team[active]),
        0 <= i < team[active].skills.len(),
        team[active].energy >= effects::cost_in(team[active].skills[i], sky),
    ensures
        decide::invalid_reason(
            team,
            active,
            Choice::UseSkill(team[active].skills[i].name),
            sky,
        ) is None,
{
    let p = team[active];
    let name = p.skills[i].name;
    pet::lemma_first_named(p.skills, name);
    let k = p.skill_index(name);
    if k > i {
        assert(p.skills[i].name != name);
    }
    assert(p.skills[k].name == p.skills[i].name);
}

/// What a side does whose decision was not legal is legal, whatever it replies when it is asked
/// again.
pub proof fn law_redecided_is_legal(
    team: Seq<Pet>,
    active: int,
    choice: Choice,
    reply: Option<Seq<char>>,
    sky: Option<WeatherState>,
)
    requires
        0 <= active < team.len() <= usize::MAX,
        unambiguous(team[active]),
    ensures
        decide::invalid_reason(
            team,
            active,
            decide::redecided(team, active, choice, reply, sky),
            sky,
        ) is None,
{
    let own = team[active];
    lemma_reserves_from(team, active, 0);
    lemma_affordable_from(own, sky, 0);
    let r = camp::reserves(team, active);
    if r.len() > 0 {
        assert(camp::is_reserve(team, active, r[0] as int));
        law_reserve_is_legal(team, active, r[0] as int, sky);
    } else {
        match decide::affordable_from(own, sky, 0) {
            Some(i) => law_affordable_is_legal(team, active, i, sky),
            None => {},
        }
    }
}

// Who acts first.

/// A skill of defence does not act first for having countered.
pub proof fn law_defence_waits(own: Pet, name: Seq<char>, opp_choice: Choice, opp: Pet)
    requires
        own.skills[own.skill_index(name)].category == "防御"@,
    ensures
        !decide::counters_first(own, Choice::UseSkill(name), opp_choice, opp),
{
}

/// Any other skill that counters acts first, whatever its speed, unless it is countered that way
/// itself.
pub proof fn law_counter_acts_first(a: Pet, a_name: Seq<char>, b: Pet, b_choice: Choice)
    requires
        decide::counters(a, Choice::UseSkill(a_name), b_choice, b),
        a.skills[a.skill_index(a_name)].category != "防御"@,
        !decide::counters_first(b, b_choice, Choice::UseSkill(a_name), a),
    ensures
        decide::a_first(a, Choice::UseSkill(a_name), b, b_choice),
        !decide::a_first(b, b_choice, a, Choice::UseSkill(a_name)),
{
}

/// Where no counter decides, what acts further ahead acts first; where that is even, the faster
/// fighter does; where that is even too, side A.
pub proof fn law_order(a: Pet, a_choice: Choice, b: Pet, b_choice: Choice)
    requires
        decide::counters_first(a, a_choice, b_choice, b) == decide::counters_first(
            b,
            b_choice,
            a_choice,
            a,
        ),
    ensures
        decide::choice_priority(a, a_choice) > decide::choice_priority(b, b_choice)
            ==> decide::a_first(a, a_choice, b, b_choice),
        decide::choice_priority(a, a_choice) < decide::choice_priority(b, b_choice)
            ==> !decide::a_first(a, a_choice, b, b_choice),
        decide::choice_priority(a, a_choice) == decide::choice_priority(b, b_choice)
            ==> decide::a_first(a, a_choice, b, b_choice) == (stats::speed_of(a)
            >= stats::speed_of(b)),
{
}

/// Each word for a counter counts by itself, whatever else the effect says: a skill with the word
/// for attacks counters physical and magical attacks, one with the word for defence counters skills
/// of defence, and one with the word for states counters skills of that category.
pub proof fn law_counter_words(own: Pet, mine: Seq<char>, theirs: Seq<char>, opp: Pet)
    requires
        own.knows(mine),
    ensures
        ({
            let effect = own.skills[own.skill_index(mine)].effect;
            let category = decide::category_of(opp, theirs);
            let success = decide::counters(
                own,
                Choice::UseSkill(mine),
                Choice::UseSkill(theirs),
                opp,
            );
            &&& text::has(effect, "应对攻击"@) && (category == "物攻"@ || category == "魔攻"@)
                ==> success
            &&& text::has(effect, "应对防御"@) && category == "防御"@ ==> success
            &&& text::has(effect, "应对状态"@) && category == "状态"@ ==> success
        }),
{
}

proof fn lemma_has_part(t: Seq<char>, whole: Seq<char>, part: Seq<char>)
    requires
        part.is_prefix_of(whole),
        text::has(t, whole),
    ensures
        text::has(t, part),
{
    let i = choose|i: int| text::occurs_at(t, whole, i);
    assert(t.subrange(i, i + whole.len()) == whole);
    assert(t.subrange(i, i + part.len()) == whole.subrange(0, part.len() as int));
    assert(text::occurs_at(t, part, i));
}

/// A pet is countered only while both sides use skills, and only by a skill that says so.
pub proof fn law_counter_needs_skills(own: Pet, own_choice: Choice, opp_choice: Choice, opp: Pet)
    requires
        decide::counters(own, own_choice, opp_choice, opp),
    ensures
        own_choice is UseSkill,
        opp_choice is UseSkill,
        text::has(
            own.skills[own.skill_index(own_choice->UseSkill_0)].effect,
            "应对"@,
        ),
{
    reveal_strlit("应对");
    reveal_strlit("应对攻击");
    reveal_strlit("应对防御");
    reveal_strlit("应对状态");
    let effect = own.skills[own.skill_index(own_choice->UseSkill_0)].effect;
    assert("应对"@.is_prefix_of("应对攻击"@));
    assert("应对"@.is_prefix_of("应对防御"@));
    assert("应对"@.is_prefix_of("应对状态"@));
    if text::has(effect, "应对攻击"@) {
        lemma_has_part(effect, "应对攻击"@, "应对"@);
    } else if text::has(effect, "应对防御"@) {
        lemma_has_part(effect, "应对防御"@, "应对"@);
    } else {
        lemma_has_part(effect, "应对状态"@, "应对"@);
    }
}

// Elements.

/// Against one element an attack has the factor 2, 0.5 or 1.
pub proof fn law_one_element(attack: Seq<char>, def: Seq<char>)
    ensures
        elements::type_factor(attack, def, None) == (if elements::strong_against(attack).contains(
            def,
        ) {
            200int
        } else if elements::resisted_by(attack).contains(def) {
            50
        } else {
            100
        }),
{
}

/// Against two elements an attack has the factor 3 where both are weak, and 0.25 where both
/// resist; these two factors come about in no other way.
pub proof fn law_two_elements(attack: Seq<char>, def1: Seq<char>, def2: Option<Seq<char>>)
    ensures
        elements::type_factor(attack, def1, def2) == 300 <==> def2 is Some
            && elements::strong_against(attack).contains(def1) && elements::strong_against(
            attack,
        ).contains(def2->0),
        elements::type_factor(attack, def1, def2) == 25 ==> def2 is Some && elements::resisted_by(
            attack,
        ).contains(def1) && elements::resisted_by(attack).contains(def2->0),
        def2 is Some && elements::resisted_by(attack).contains(def1) && elements::resisted_by(
            attack,
        ).contains(def2->0) ==> elements::type_factor(attack, def1, def2) == 25
            || elements::type_factor(attack, def1, def2) == 300,
{
}

// Leaving and entering.

/// A pet that leaves the field loses poison, burning and parasites; freezing, a lesser form, its
/// health and its energy stay with it.
pub proof fn law_leaving(p: Pet)
    ensures
        ({
            let q = status::cleansed(p);
            &&& q.poison_layers == 0
            &&& q.burn_layers == 0
            &&& q.parasitic_layers == 0
            &&& q.freeze_layers == p.freeze_layers
            &&& q.frozen_hp_locked == p.frozen_hp_locked
            &&& q.morph_stage == p.morph_stage
            &&& q.cur_hp == p.cur_hp
            &&& q.energy == p.energy
            &&& q.same_being(p)
        }),
{
}

/// An exchange of pets gives nobody energy or health and takes none, and leaves the marks, the
/// dedication, the counts and the life of the side as they are.
pub proof fn law_exchange(own: Camp, idx: int)
    requires
        own.fielded(),
        0 <= idx < own.team.len(),
    ensures
        ({
            let came = action::exchanged(own, idx);
            &&& came.negative == own.negative
            &&& came.positive == own.positive
            &&& came.dedication == own.dedication
            &&& came.bank == own.bank
            &&& came.banks == own.banks
            &&& came.life == own.life
            &&& came.team.len() == own.team.len()
            &&& came.active == idx
            &&& forall|i: int|
                0 <= i < own.team.len() ==> (#[trigger] came.team[i]).energy == own.team[i].energy
                    && came.team[i].cur_hp == own.team[i].cur_hp && came.team[i].freeze_layers
                    == own.team[i].freeze_layers && came.team[i].morph_stage
                    == own.team[i].morph_stage
        }),
{
}

/// Bringing in a pet leaves the marks on both sides as they are, and the life.
pub proof fn law_switch_keeps_marks(
    side: Side,
    target: Seq<char>,
    own: Camp,
    opp: Camp,
    table: Map<Seq<char>, Patch>,
    sky: Option<WeatherState>,
    log: Log,
)
    ensures
        action::switch_executed(side, target, own, opp, table, sky, log) matches Some(t) ==> {
            &&& t.own.negative == own.negative
            &&& t.own.positive == own.positive
            &&& t.opp.negative == opp.negative
            &&& t.opp.positive == opp.positive
            &&& t.own.life == own.life
            &&& t.opp.life == opp.life
        },
{
    reveal(action::switch_executed);
    reveal(action::brought_in);
}

/// A switch to a pet that is not there or does not stand changes nothing but the log.
pub proof fn law_failed_switch(
    side: Side,
    target: Seq<char>,
    own: Camp,
    opp: Camp,
    table: Map<Seq<char>, Patch>,
    sky: Option<WeatherState>,
    log: Log,
)
    requires
        camp::switch_target(own.team, own.active, target) is None,
    ensures
        action::switch_executed(side, target, own, opp, table, sky, log) matches Some(t) && t.own
            == own && t.opp == opp && t.weather == sky,
{
    reveal(action::switch_executed);
}

/// A skill that cannot be paid for changes nothing but the log.
pub proof fn law_unpaid_attack(
    side: Side,
    chosen: Seq<char>,
    attacker: Pet,
    defender: Pet,
    ded: DedicationBuff,
    sky: Option<WeatherState>,
    log: Log,
)
    requires
        attacker.energy < attack::actual_cost(attack::used_skill(attacker, chosen), ded, sky),
    ensures
        attack::attack_resolved(side, chosen, attacker, defender, ded, sky, log) matches Some(st)
            ==> st.attacker == attacker && st.defender == defender && st.weather == sky && st.tally
            is None,
{
    attack::lemma_paid(side, chosen, attacker, defender, ded, sky, log);
}

/// A skill needs enough energy to be released, and without it has none of its effects: a decision
/// to use a skill that cannot be paid for does nothing but say that the action failed. No marks are
/// laid, no pet leaves the field, nothing counts and nothing is added to dedication. Only the fighter
/// has had its turn, and is no longer fresh on the field.
pub proof fn law_unpaid_turn(
    side: Side,
    chosen: Seq<char>,
    own: Camp,
    opp: Camp,
    table: Map<Seq<char>, Patch>,
    sky: Option<WeatherState>,
    leave_seed: u64,
    gain_seed: u64,
    log: Log,
)
    requires
        own.fighter().energy < attack::actual_cost(
            attack::used_skill(own.fighter(), chosen),
            own.dedication,
            sky,
        ),
    ensures
        action::executed(
            side,
            Choice::UseSkill(chosen),
            own,
            opp,
            table,
            sky,
            leave_seed,
            gain_seed,
            log,
        ) matches Some(t) ==> {
            &&& t.own == action::settled_in(own)
            &&& t.opp == opp
            &&& t.weather == sky
            &&& t.log == log.said(
                attack::unpaid_text(
                    side,
                    own.fighter(),
                    attack::used_skill(own.fighter(), chosen),
                ),
            )
        },
{
    reveal(action::skill_executed);
    reveal(action::skill_used);
    attack::lemma_paid(side, chosen, own.fighter(), opp.fighter(), own.dedication, sky, log);
}

/// A pet brings freezing and a lesser form back to the field; what freezing locks of its health is
/// set anew when it enters.
pub proof fn law_entering(
    side: Side,
    p: Pet,
    negative: Option<NegativeImprint>,
    positive: Option<PositiveImprint>,
    table: Map<Seq<char>, Patch>,
    bank: int,
    banks: ElementSkillBanks,
    log: Log,
)
    ensures
        field::entered(side, p, negative, positive, table, bank, banks, log) matches Some(r) ==> {
            &&& r.0.freeze_layers == p.freeze_layers
            &&& r.0.morph_stage == p.morph_stage
            &&& status::locked(p) matches Some(q) && r.0.frozen_hp_locked == q.frozen_hp_locked
        },
{
    reveal(field::entered);
}

// Uses of skills.

/// A use of a skill counts exactly where it was paid for, be it that the skill strikes or that it
/// is only charged: under the name of the pet and the element of the skill.
pub proof fn law_uses_count(
    side: Side,
    chosen: Seq<char>,
    attacker: Pet,
    defender: Pet,
    ded: DedicationBuff,
    sky: Option<WeatherState>,
    log: Log,
)
    ensures
        attack::attack_resolved(side, chosen, attacker, defender, ded, sky, log) matches Some(st)
            ==> {
            let skill = attack::used_skill(attacker, chosen);
            st.tally == (if attacker.energy < attack::actual_cost(skill, ded, sky) {
                None
            } else {
                Some((attacker.name, skill.element))
            })
        },
{
    reveal(attack::attack_resolved);
    reveal(attack::struck);
    reveal(attack::hit);
}

/// A use of a skill takes what it costs from the energy of the pet; a skill of recovery that
/// strikes gives five points back, up to the limit.
pub proof fn law_uses_are_paid(
    side: Side,
    chosen: Seq<char>,
    attacker: Pet,
    defender: Pet,
    ded: DedicationBuff,
    sky: Option<WeatherState>,
    log: Log,
)
    requires
        attacker.energy >= attack::actual_cost(attack::used_skill(attacker, chosen), ded, sky),
    ensures
        attack::attack_resolved(side, chosen, attacker, defender, ded, sky, log) matches Some(st)
            ==> {
            let skill = attack::used_skill(attacker, chosen);
            let left = attacker.energy - attack::actual_cost(skill, ded, sky);
            let strikes = !text::has(skill.effect, "蓄力"@) || attacker.charging_skill == Some(
                skill.name,
            );
            st.attacker.energy == (if strikes && text::has(skill.effect, "恢复"@) {
                number::clamped(left + 5, 0, attacker.energy_cap)
            } else {
                left
            })
        },
{
    reveal(attack::attack_resolved);
    reveal(attack::struck);
    reveal(attack::hit);
}

/// The first use of a skill that has to be charged hurts nobody: the pet is held to the skill.
pub proof fn law_charging_up(
    side: Side,
    chosen: Seq<char>,
    attacker: Pet,
    defender: Pet,
    ded: DedicationBuff,
    sky: Option<WeatherState>,
    log: Log,
)
    requires
        attacker.energy >= attack::actual_cost(attack::used_skill(attacker, chosen), ded, sky),
        text::has(attack::used_skill(attacker, chosen).effect, "蓄力"@),
        attacker.charging_skill != Some(attack::used_skill(attacker, chosen).name),
    ensures
        attack::attack_resolved(side, chosen, attacker, defender, ded, sky, log) matches Some(st)
            ==> st.defender == defender && st.attacker.charging_skill == Some(
            attack::used_skill(attacker, chosen).name,
        ),
{
    reveal(attack::attack_resolved);
}

/// The second use of a skill that has to be charged strikes, and the pet is free again.
pub proof fn law_charged_strike(
    side: Side,
    chosen: Seq<char>,
    attacker: Pet,
    defender: Pet,
    ded: DedicationBuff,
    sky: Option<WeatherState>,
    log: Log,
)
    requires
        attacker.energy >= attack::actual_cost(attack::used_skill(attacker, chosen), ded, sky),
        attacker.charging_skill == Some(attack::used_skill(attacker, chosen).name),
    ensures
        attack::attack_resolved(side, chosen, attacker, defender, ded, sky, log) matches Some(st)
            ==> st.attacker.charging_skill is None,
{
    reveal(attack::attack_resolved);
    reveal(attack::struck);
    reveal(attack::hit);
}

/// A pet that has charged a skill uses it, whatever is decided, unless it is taken off the field.
pub proof fn law_charged_skill_is_used(p: Pet, skill: Seq<char>, choice: Choice)
    requires
        p.charging_skill == Some(skill),
    ensures
        choice is Switch ==> decide::held_to_charge(p, choice) == choice,
        choice !is Switch ==> decide::held_to_charge(p, choice) == Choice::UseSkill(skill),
{
}

/// A pet is immune to the states of its own elements: poison for a pet of poison, burning for one
/// of fire, freezing for one of ice, parasites for one of grass.
pub proof fn law_immunity(p: Pet, effect: Seq<char>, log: Log)
    ensures
        status::afflicted(p, effect, log) matches Some(r) ==> {
            &&& p.has_element("毒"@) ==> r.0.poison_layers == p.poison_layers
            &&& p.has_element("火"@) ==> r.0.burn_layers == p.burn_layers
            &&& p.has_element("冰"@) ==> r.0.freeze_layers == p.freeze_layers
            &&& p.has_element("草"@) ==> r.0.parasitic_layers == p.parasitic_layers
        },
{
    reveal(status::afflicted);
}

// Marks.

/// Layers of a mark of the kind that lies there add up; another kind takes its place.
pub proof fn law_negative_marks(slot: NegativeImprint, kind: NegativeImprintKind, n: int)
    requires
        1 <= n <= i32::MAX,
        slot.kind == kind ==> number::fits(slot.layers + n),
    ensures
        field::negative_set(Some(slot), kind, n) == Some(
            Some(
                NegativeImprint {
                    kind,
                    layers: (if slot.kind == kind {
                        slot.layers + n
                    } else {
                        n
                    }) as i32,
                },
            ),
        ),
{
}

/// Layers of a mark of the kind that lies there add up; another kind takes its place.
pub proof fn law_positive_marks(slot: PositiveImprint, kind: PositiveImprintKind, n: int)
    requires
        1 <= n <= i32::MAX,
        slot.kind == kind ==> number::fits(slot.layers + n),
    ensures
        field::positive_set(Some(slot), kind, n) == Some(
            Some(
                PositiveImprint {
                    kind,
                    layers: (if slot.kind == kind {
                        slot.layers + n
                    } else {
                        n
                    }) as i32,
                },
            ),
        ),
{
}

// States.

/// Of the layers of burning one half remains after a round, rounded down.
pub proof fn law_burning_fades(layers: int)
    requires
        layers > 0,
    ensures
        status::burn_left(layers) == layers / 2,
        status::burn_left(layers) < layers,
{
}

/// Poison takes health from a pet that stands, at least a point, and does not fade.
pub proof fn law_poison_bites(p: Pet, log: Log)
    requires
        p.wf(),
        p.alive(),
        p.poison_layers > 0,
    ensures
        ({
            let (q, _) = status::poison_ticked(p, log);
            q.cur_hp < p.cur_hp && q.poison_layers == p.poison_layers && q.follows(p)
        }),
{
}

/// What freezing locks is never the last point of health.
pub proof fn law_freezing_leaves_a_point(p: Pet)
    requires
        p.wf(),
        p.alive(),
    ensures
        status::locked(p) matches Some(q) ==> q.alive() && q.frozen_hp_locked < q.hp,
{
}

// Weather.

/// The weather after `n` rounds in which nothing changes it.
pub open spec fn weather_after(w: Option<WeatherState>, n: nat, log: Log) -> Option<WeatherState>
    decreases n,
{
    if n == 0 {
        w
    } else {
        match weather_after(w, (n - 1) as nat, log) {
            Some(x) => weather::passed(x, log).0,
            None => None,
        }
    }
}

/// Weather that a skill has brought lasts for eight rounds.
pub proof fn law_weather_lasts(w: Option<WeatherState>, effect: Seq<char>, n: nat, log: Log)
    requires
        weather::named_weather(effect) is Some,
    ensures
        weather_after(weather::changed(w, effect, log).0, n, log) == (if n < 8 {
            Some(
                WeatherState {
                    kind: weather::named_weather(effect)->0,
                    remain_turns: (8 - n) as i32,
                },
            )
        } else {
            None
        }),
    decreases n,
{
    if n > 0 {
        law_weather_lasts(w, effect, (n - 1) as nat, log);
    }
}

/// In a sandstorm a skill of earth costs half, rounded up; no other cost changes with the weather.
pub proof fn law_sandstorm_halves(skill: Skill, sky: Option<WeatherState>)
    requires
        skill.wf(),
    ensures
        effects::cost_in(skill, sky) <= skill.cost,
        (sky matches Some(w) && w.kind == WeatherKind::Sandstorm && skill.element == "地"@)
            ==> effects::cost_in(skill, sky) == (skill.cost + 1) / 2,
        !(sky matches Some(w) && w.kind == WeatherKind::Sandstorm && skill.element == "地"@)
            ==> effects::cost_in(skill, sky) == skill.cost,
{
}

// Counts that patches settle.

/// A pet that settles the count of successful counters leaves it at zero when it enters.
pub proof fn law_counters_are_settled(
    side: Side,
    p: Pet,
    negative: Option<NegativeImprint>,
    positive: Option<PositiveImprint>,
    table: Map<Seq<char>, Patch>,
    bank: int,
    banks: ElementSkillBanks,
    log: Log,
)
    requires
        pet_battle_patch::settles_counters(table, p.name),
        bank >= 0,
    ensures
        field::entered(side, p, negative, positive, table, bank, banks, log) matches Some(r) ==> r.1
            == 0,
{
    reveal(field::entered);
}

/// A pet that settles the count of an element leaves it at zero when it enters.
pub proof fn law_uses_are_settled(
    side: Side,
    p: Pet,
    negative: Option<NegativeImprint>,
    positive: Option<PositiveImprint>,
    table: Map<Seq<char>, Patch>,
    bank: int,
    banks: ElementSkillBanks,
    log: Log,
    patch: Patch,
    rule: BankRule,
)
    requires
        pet_battle_patch::patch_of(table, p.name) == Some(patch),
        patch.per_element == Some(rule),
        banks.wf(),
    ensures
        field::entered(side, p, negative, positive, table, bank, banks, log) matches Some(r)
            ==> r.2.of(rule.element) == 0,
{
    reveal(field::entered);
}

/// A pet without a patch leaves the counts as they are when it enters.
pub proof fn law_unpatched_entry(
    side: Side,
    p: Pet,
    negative: Option<NegativeImprint>,
    positive: Option<PositiveImprint>,
    table: Map<Seq<char>, Patch>,
    bank: int,
    banks: ElementSkillBanks,
    log: Log,
)
    requires
        pet_battle_patch::patch_of(table, p.name) is None,
    ensures
        field::entered(side, p, negative, positive, table, bank, banks, log) matches Some(r) ==> r.1
            == bank && r.2 == banks,
{
    reveal(field::entered);
}

/// A use of an element counts only where a pet of the team waits for it; one that leaves its own
/// uses out does not count them.
pub proof fn law_own_uses_left_out(
    table: Map<Seq<char>, Patch>,
    team: Seq<Pet>,
    attacker: Seq<char>,
    element: Seq<char>,
    banks: ElementSkillBanks,
)
    requires
        forall|i: int|
            0 <= i < team.len() ==> ((#[trigger] pet_battle_patch::patch_of(table, team[i].name)
                matches Some(q) && q.per_element matches Some(rule) && rule.element == element)
                ==> pet_battle_patch::patch_of(table, team[i].name)->0.per_element->0.exclude_self
                && team[i].name == attacker),
    ensures
        field::tallied(table, team, attacker, element, banks) == banks,
{
    reveal(field::tallied);
    if field::counts(table, team, attacker, element) {
        let i = choose|i: int|
            0 <= i < team.len() && #[trigger] field::waits_for(table, team[i], attacker, element);
        assert(pet_battle_patch::patch_of(table, team[i].name) is Some);
    }
}

// The patch at the start.

/// A patch leaves the energy between zero and the limit, and a limit of at least one; where it
/// allows more than usual without naming a limit, that is 99.
pub proof fn law_patch(p: Pet, patch: Patch)
    requires
        p.wf(),
    ensures
        ({
            let q = team::patched(p, Some(patch));
            &&& q.wf()
            &&& patch.allow_over_max_energy && patch.energy_cap is None ==> q.energy_cap == 99
            &&& !patch.allow_over_max_energy && patch.energy_cap is None ==> q.energy_cap
                == p.energy_cap
            &&& patch.initial_energy matches Some(n) ==> 0 <= n <= q.energy_cap ==> q.energy == n
        }),
{
}

// The winner.

/// Where the sums are in range there is always a winner, and the side with more life wins.
pub proof fn law_no_draw(a_life: int, b_life: int, a: Seq<Pet>, b: Seq<Pet>)
    requires
        number::fits(report::total_hp(a)),
        number::fits(report::total_hp(b)),
        number::fits(report::total_energy(a)),
        number::fits(report::total_energy(b)),
    ensures
        report::winner(a_life, b_life, a, b) is Some,
        a_life > b_life ==> report::winner(a_life, b_life, a, b) == Some(Side::A),
        a_life < b_life ==> report::winner(a_life, b_life, a, b) == Some(Side::B),
{
}

/// Exchanging the sides exchanges the winner, unless life, health and energy are all even.
pub proof fn law_winner_is_fair(a_life: int, b_life: int, a: Seq<Pet>, b: Seq<Pet>)
    requires
        a_life != b_life || report::total_hp(a) != report::total_hp(b) || report::total_energy(a)
            != report::total_energy(b),
    ensures
        report::winner(b_life, a_life, b, a) == (match report::winner(a_life, b_life, a, b) {
            Some(side) => Some(side.opponent()),
            None => None,
        }),
{
}

} // verus!
