//! Decisions: how they are read, when they are legal, and who acts first on them.

use vstd::prelude::*;
use crate::camp;
use crate::effects;
use crate::number;
use crate::number::push_int;
use crate::pet;
use crate::pet::{BattlePet, Choice, Decision, Pet, WeatherState};
use crate::stats;
use crate::text;
use crate::text::CharClass;

verus! {

/// The first line of a reply, without white space, quotation marks and backquotes around it.
pub open spec fn normal_name(raw: Seq<char>) -> Seq<char> {
    let line = if text::lines_of(raw).len() > 0 {
        text::lines_of(raw)[0]
    } else {
        seq![]
    };
    text::trimmed_of(
        text::trimmed_of(text::trimmed(line), CharClass::Only('"')),
        CharClass::Only('`'),
    )
}

/// The first line of a reply, without white space, quotation marks and backquotes around it.
pub fn normalize_skill_name(raw: &str) -> (r: String)
    ensures
        r@ == normal_name(raw@),
{
    let all: Vec<String> = text::lines(raw);
    if all.len() == 0 {
        assert(text::lines_of(raw@).len() == 0);
        return text::trim_of(
            text::trim_of(text::trim(String::new().as_str()), CharClass::Only('"')),
            CharClass::Only('`'),
        ).to_owned();
    }
    assert(text::lines_of(raw@)[0] == all@[0]@);
    text::trim_of(
        text::trim_of(text::trim(all[0].as_str()), CharClass::Only('"')),
        CharClass::Only('`'),
    ).to_owned()
}

/// What a reply decides: to charge, to bring in the pet it names, to use the skill it names, or
/// else, where it is not the name of a skill either, to use the first skill.
pub open spec fn parsed_decision(raw: Seq<char>, own: Pet) -> Choice {
    let t = normal_name(raw);
    if text::trimmed(t) == "CHARGE"@ {
        Choice::Charge
    } else if "SWITCH:"@.is_prefix_of(t) {
        Choice::Switch(text::trimmed(t.skip("SWITCH:"@.len() as int)))
    } else if "SKILL:"@.is_prefix_of(t) {
        Choice::UseSkill(text::trimmed(t.skip("SKILL:"@.len() as int)))
    } else if own.knows(t) {
        Choice::UseSkill(t)
    } else {
        Choice::UseSkill(own.skills[0].name)
    }
}

/// Reads what a reply decides.
pub fn parse_decision(raw: &str, own: &BattlePet) -> (r: Decision)
    requires
        own@.armed(),
    ensures
        r@ == parsed_decision(raw@, own@),
{
    let t: String = normalize_skill_name(raw);
    if text::same(text::trim(t.as_str()), "CHARGE") {
        return Decision::Charge;
    }
    if let Some(rest) = text::strip_prefix(t.as_str(), "SWITCH:") {
        return Decision::Switch(text::trim(rest).to_owned());
    }
    if let Some(rest) = text::strip_prefix(t.as_str(), "SKILL:") {
        return Decision::UseSkill(text::trim(rest).to_owned());
    }
    if own.find_skill(t.as_str()) < own.skills.len() {
        return Decision::UseSkill(t);
    }
    assert(own@.skills[0] == own.skills@[0]@);
    Decision::UseSkill(own.skills[0].name.clone())
}

/// What a side decides at first: what the reply says, or to use the first skill where none came.
pub open spec fn first_decision(reply: Option<Seq<char>>, own: Pet) -> Choice {
    match reply {
        Some(raw) => parsed_decision(raw, own),
        None => Choice::UseSkill(own.skills[0].name),
    }
}

/// Reads what a side decides at first.
pub fn initial_decision(reply: &Option<String>, own: &BattlePet) -> (r: Decision)
    requires
        own@.armed(),
    ensures
        r@ == first_decision(pet::opt_text(*reply), own@),
{
    match reply {
        Some(raw) => parse_decision(raw.as_str(), own),
        None => {
            assert(own@.skills[0] == own.skills@[0]@);
            Decision::UseSkill(own.skills[0].name.clone())
        },
    }
}

/// A pet that has charged a skill uses that skill, unless it is taken off the field.
pub open spec fn held_to_charge(p: Pet, choice: Choice) -> Choice {
    match p.charging_skill {
        Some(skill) => match choice {
            Choice::Switch(_) => choice,
            _ => Choice::UseSkill(skill),
        },
        None => choice,
    }
}

/// Holds a pet to the skill that it has charged.
pub fn enforce_charging_constraint(pet: &BattlePet, decision: &mut Decision)
    ensures
        final(decision)@ == held_to_charge(pet@, old(decision)@),
{
    if let Some(skill) = &pet.charging_skill {
        let free: bool = match decision {
            Decision::Switch(_) => true,
            _ => false,
        };
        if !free {
            *decision = Decision::UseSkill(skill.clone());
        }
    }
}

/// How far ahead a skill acts: the number after the words for it in its effect.
pub open spec fn priority_of(p: Pet, name: Seq<char>) -> int {
    if !p.knows(name) {
        0
    } else {
        let effect = p.skills[p.skill_index(name)].effect;
        match text::after(effect, "先手+"@) {
            Some(rest) => match number::parsed_int(text::head_run(rest, CharClass::Digit)) {
                Some(n) => n,
                None => 0,
            },
            None => 0,
        }
    }
}

/// How far ahead a skill acts.
pub fn skill_priority(pet: &BattlePet, skill_name: &str) -> (r: i32)
    ensures
        r == priority_of(pet@, skill_name@),
{
    let at: usize = pet.find_skill(skill_name);
    if at >= pet.skills.len() {
        return 0;
    }
    let effect: &str = pet.skills[at].effect.as_str();
    assert(effect@ == pet@.skills[at as int].effect);
    match text::text_after(effect, "先手+") {
        Some(rest) => match number::parse_int(text::leading(rest, CharClass::Digit)) {
            Some(n) => n,
            None => 0,
        },
        None => 0,
    }
}

/// How far ahead a decision acts: bringing in a pet goes before nearly everything.
pub open spec fn choice_priority(p: Pet, choice: Choice) -> int {
    match choice {
        Choice::UseSkill(skill) => priority_of(p, skill),
        Choice::Switch(_) => 99,
        Choice::Charge => 0,
    }
}

fn decision_priority(pet: &BattlePet, decision: &Decision) -> (r: i32)
    ensures
        r == choice_priority(pet@, decision@),
{
    match decision {
        Decision::UseSkill(skill) => skill_priority(pet, skill.as_str()),
        Decision::Switch(_) => 99,
        Decision::Charge => 0,
    }
}

/// The category of the skill of that name; that of a physical attack where the pet does not know
/// it.
pub open spec fn category_of(p: Pet, name: Seq<char>) -> Seq<char> {
    if p.knows(name) {
        p.skills[p.skill_index(name)].category
    } else {
        "物攻"@
    }
}

/// Whether a skill of that effect counters a skill of that category. As the rules that the sides are
/// told have it (`BATTLE_RULES`, 应对触发规则), each of the three words for a counter counts by
/// itself, so that an effect with two of them counters skills of either kind.
pub open spec fn effect_counters(effect: Seq<char>, category: Seq<char>) -> bool {
    ||| text::has(effect, "应对攻击"@) && (category == "物攻"@ || category == "魔攻"@)
    ||| text::has(effect, "应对防御"@) && category == "防御"@
    ||| text::has(effect, "应对状态"@) && category == "状态"@
}

/// Whether a pet's decision counters that of its opponent: both use skills, and the one counters
/// skills of the category of the other.
pub open spec fn counters(own: Pet, own_choice: Choice, opp_choice: Choice, opp: Pet) -> bool {
    match (own_choice, opp_choice) {
        (Choice::UseSkill(mine), Choice::UseSkill(theirs)) => own.knows(mine) && effect_counters(
            own.skills[own.skill_index(mine)].effect,
            category_of(opp, theirs),
        ),
        _ => false,
    }
}

/// Whether a successful counter lets its pet act first: not where it is a skill of defence.
pub open spec fn counters_first(own: Pet, own_choice: Choice, opp_choice: Choice, opp: Pet) -> bool {
    &&& counters(own, own_choice, opp_choice, opp)
    &&& own_choice matches Choice::UseSkill(mine)
    &&& own.skills[own.skill_index(mine)].category != "防御"@
}

/// Whether a pet's decision counters that of its opponent.
pub fn counter_triggered(
    self_pet: &BattlePet,
    self_decision: &Decision,
    opp_decision: &Decision,
    opp_pet: &BattlePet,
) -> (r: bool)
    ensures
        r == counters(self_pet@, self_decision@, opp_decision@, opp_pet@),
{
    let (mine, theirs): (&String, &String) = match (self_decision, opp_decision) {
        (Decision::UseSkill(a), Decision::UseSkill(b)) => (a, b),
        _ => {
            return false;
        },
    };
    let at: usize = self_pet.find_skill(mine.as_str());
    if at >= self_pet.skills.len() {
        return false;
    }
    let effect: &str = self_pet.skills[at].effect.as_str();
    assert(effect@ == self_pet@.skills[at as int].effect);
    let opp_at: usize = opp_pet.find_skill(theirs.as_str());
    let category: &str = if opp_at < opp_pet.skills.len() {
        opp_pet.skills[opp_at].category.as_str()
    } else {
        "物攻"
    };
    assert(category@ == category_of(opp_pet@, theirs@));
    (text::contains(effect, "应对攻击") && (text::same(category, "物攻") || text::same(
        category,
        "魔攻",
    ))) || (text::contains(effect, "应对防御") && text::same(category, "防御")) || (text::contains(
        effect,
        "应对状态",
    ) && text::same(category, "状态"))
}

/// Whether a successful counter lets its pet act first.
pub fn counter_grants_act_priority(
    self_pet: &BattlePet,
    self_decision: &Decision,
    opp_decision: &Decision,
    opp_pet: &BattlePet,
) -> (r: bool)
    ensures
        r == counters_first(self_pet@, self_decision@, opp_decision@, opp_pet@),
{
    if !counter_triggered(self_pet, self_decision, opp_decision, opp_pet) {
        return false;
    }
    match self_decision {
        Decision::UseSkill(mine) => {
            let at: usize = self_pet.find_skill(mine.as_str());
            if at < self_pet.skills.len() {
                assert(self_pet@.skills[at as int] == self_pet.skills@[at as int]@);
                !text::same(self_pet.skills[at].category.as_str(), "防御")
            } else {
                false
            }
        },
        _ => false,
    }
}

/// Whether side A acts first: a counter that goes first decides, then how far ahead the decisions
/// act, then speed, and side A where all is even.
pub open spec fn a_first(a: Pet, a_choice: Choice, b: Pet, b_choice: Choice) -> bool {
    let a_counter = counters_first(a, a_choice, b_choice, b);
    let b_counter = counters_first(b, b_choice, a_choice, a);
    if a_counter != b_counter {
        a_counter
    } else if choice_priority(a, a_choice) != choice_priority(b, b_choice) {
        choice_priority(a, a_choice) > choice_priority(b, b_choice)
    } else {
        stats::speed_of(a) >= stats::speed_of(b)
    }
}

/// Whether side A acts first.
pub fn acts_first(a: &BattlePet, a_decision: &Decision, b: &BattlePet, b_decision: &Decision) -> (r: bool)
    ensures
        r == a_first(a@, a_decision@, b@, b_decision@),
{
    let a_counter: bool = counter_grants_act_priority(a, a_decision, b_decision, b);
    let b_counter: bool = counter_grants_act_priority(b, b_decision, a_decision, a);
    if a_counter && !b_counter {
        return true;
    }
    if b_counter && !a_counter {
        return false;
    }
    let a_priority: i32 = decision_priority(a, a_decision);
    let b_priority: i32 = decision_priority(b, b_decision);
    if a_priority == b_priority {
        stats::effective_speed(a) >= stats::effective_speed(b)
    } else {
        a_priority > b_priority
    }
}

/// Why a decision is not legal, where it is not: the pet to bring in is not there or does not
/// stand, the fighter does not know the skill, or its energy does not suffice.
pub open spec fn invalid_reason(
    team: Seq<Pet>,
    active: int,
    choice: Choice,
    sky: Option<WeatherState>,
) -> Option<Seq<char>> {
    match choice {
        Choice::Charge => None,
        Choice::Switch(target) => if camp::switch_target(team, active, target) is None {
            Some("切换目标 ["@ + target + "] 不存在或已倒下"@)
        } else {
            None
        },
        Choice::UseSkill(name) => {
            let own = team[active];
            let skill = own.skills[own.skill_index(name)];
            if !own.knows(name) {
                Some("技能 ["@ + name + "] 不存在"@)
            } else if own.energy < effects::cost_in(skill, sky) {
                Some(
                    "技能 ["@ + skill.name + "] 能量不足("@ + number::int_text(own.energy) + "<"@
                        + number::int_text(effects::cost_in(skill, sky)) + ")"@,
                )
            } else {
                None
            }
        },
    }
}

/// Why a decision is not legal, where it is not.
pub fn decision_invalid_reason(
    own_team: &Vec<BattlePet>,
    own_active: usize,
    decision: &Decision,
    weather: &Option<WeatherState>,
) -> (r: Option<String>)
    requires
        own_active < own_team.len(),
        own_team@[own_active as int]@.wf(),
    ensures
        pet::opt_text(r) == invalid_reason(
            pet::pets_of(own_team@),
            own_active as int,
            decision@,
            *weather,
        ),
{
    match decision {
        Decision::Charge => None,
        Decision::Switch(target) => {
            if camp::find_switch_target(own_team, own_active, target.as_str()).is_none() {
                let mut m: String = "切换目标 [".to_owned();
                m.append(target.as_str());
                m.append("] 不存在或已倒下");
                Some(m)
            } else {
                None
            }
        },
        Decision::UseSkill(name) => {
            let own: &BattlePet = &own_team[own_active];
            assert(own@ == pet::pets_of(own_team@)[own_active as int]);
            let at: usize = own.find_skill(name.as_str());
            if at >= own.skills.len() {
                let mut m: String = "技能 [".to_owned();
                m.append(name.as_str());
                m.append("] 不存在");
                return Some(m);
            }
            assert(own@.skills[at as int] == own.skills@[at as int]@);
            let cost: i32 = effects::calc_skill_cost(&own.skills[at], weather);
            if own.energy < cost {
                let mut m: String = "技能 [".to_owned();
                m.append(own.skills[at].name.as_str());
                m.append("] 能量不足(");
                push_int(&mut m, own.energy);
                m.append("<");
                push_int(&mut m, cost);
                m.append(")");
                Some(m)
            } else {
                None
            }
        },
    }
}

/// To bring in the first pet that can come in.
pub open spec fn fallback_switch(team: Seq<Pet>, active: int) -> Option<Choice> {
    let r = camp::reserves(team, active);
    if r.len() > 0 {
        Some(Choice::Switch(team[r[0] as int].name))
    } else {
        None
    }
}

/// To bring in the first pet that can come in.
pub fn first_valid_switch_decision(team: &Vec<BattlePet>, active: usize) -> (r: Option<Decision>)
    ensures
        (match r {
            Some(d) => fallback_switch(pet::pets_of(team@), active as int) == Some(d@),
            None => fallback_switch(pet::pets_of(team@), active as int) is None,
        }),
{
    let r: Vec<usize> = camp::reserve_indices(team, active);
    if r.len() > 0 {
        assert(r@[0] < team.len());
        Some(Decision::Switch(team[r[0]].name.clone()))
    } else {
        None
    }
}

/// The place of the first skill from `i` on that can be paid for.
pub open spec fn affordable_from(p: Pet, sky: Option<WeatherState>, i: int) -> Option<int>
    decreases p.skills.len() - i,
{
    if i < 0 || i >= p.skills.len() {
        None
    } else if p.energy >= effects::cost_in(p.skills[i], sky) {
        Some(i)
    } else {
        affordable_from(p, sky, i + 1)
    }
}

/// To use the first skill that can be paid for, or to charge where there is none.
pub open spec fn fallback_skill(p: Pet, sky: Option<WeatherState>) -> Choice {
    match affordable_from(p, sky, 0) {
        Some(i) => Choice::UseSkill(p.skills[i].name),
        None => Choice::Charge,
    }
}

/// To use the first skill that can be paid for, or to charge where there is none.
pub fn first_valid_skill_decision(own: &BattlePet, weather: &Option<WeatherState>) -> (r: Decision)
    requires
        own@.wf(),
    ensures
        r@ == fallback_skill(own@, *weather),
{
    let mut i: usize = 0;
    while i < own.skills.len()
        invariant
            i <= own.skills.len(),
            own@.wf(),
            affordable_from(own@, *weather, 0) == affordable_from(own@, *weather, i as int),
        decreases own.skills.len() - i,
    {
        assert(own@.skills[i as int] == own.skills@[i as int]@);
        if own.energy >= effects::calc_skill_cost(&own.skills[i], weather) {
            return Decision::UseSkill(own.skills[i].name.clone());
        }
        i = i + 1;
    }
    Decision::Charge
}

/// What a side does whose decision was not legal: what its second reply says, if that is legal,
/// else the first pet that can comes in, else the fighter uses the first skill it can pay for, or
/// charges. A reply that did not come leaves the first decision.
pub open spec fn redecided(
    team: Seq<Pet>,
    active: int,
    choice: Choice,
    reply: Option<Seq<char>>,
    sky: Option<WeatherState>,
) -> Choice {
    let own = team[active];
    let next = held_to_charge(
        own,
        match reply {
            Some(raw) => parsed_decision(raw, own),
            None => choice,
        },
    );
    if invalid_reason(team, active, next, sky) is None {
        next
    } else {
        match fallback_switch(team, active) {
            Some(c) => c,
            None => fallback_skill(own, sky),
        }
    }
}

/// Settles what a side does whose decision was not legal.
pub fn redecide(
    own_team: &Vec<BattlePet>,
    own_active: usize,
    decision: &Decision,
    reply: &Option<String>,
    weather: &Option<WeatherState>,
) -> (r: Decision)
    requires
        own_active < own_team.len(),
        own_team@[own_active as int]@.wf(),
        own_team@[own_active as int]@.armed(),
    ensures
        r@ == redecided(
            pet::pets_of(own_team@),
            own_active as int,
            decision@,
            pet::opt_text(*reply),
            *weather,
        ),
{
    let own: &BattlePet = &own_team[own_active];
    assert(own@ == pet::pets_of(own_team@)[own_active as int]);
    let mut next: Decision = match reply {
        Some(raw) => parse_decision(raw.as_str(), own),
        None => decision.copy(),
    };
    enforce_charging_constraint(own, &mut next);
    if decision_invalid_reason(own_team, own_active, &next, weather).is_none() {
        return next;
    }
    match first_valid_switch_decision(own_team, own_active) {
        Some(d) => d,
        None => first_valid_skill_decision(own, weather),
    }
}

/// A decision as it stands in a report.
pub open spec fn choice_text(choice: Choice) -> Seq<char> {
    match choice {
        Choice::UseSkill(s) => "SKILL:"@ + s,
        Choice::Switch(s) => "SWITCH:"@ + s,
        Choice::Charge => "CHARGE"@,
    }
}

/// A decision as it stands in a report.
pub fn decision_to_text(decision: &Decision) -> (r: String)
    ensures
        r@ == choice_text(decision@),
{
    match decision {
        Decision::UseSkill(s) => {
            let mut m: String = "SKILL:".to_owned();
            m.append(s.as_str());
            m
        },
        Decision::Switch(s) => {
            let mut m: String = "SWITCH:".to_owned();
            m.append(s.as_str());
            m
        },
        Decision::Charge => "CHARGE".to_owned(),
    }
}

} // verus!
