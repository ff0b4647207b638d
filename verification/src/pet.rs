//! Pets, their skills, and what lies on a side of the field.

use vstd::prelude::*;
use crate::text;

verus! {

/// The level that every pet fights at.
pub const PVP_DEFAULT_LEVEL: i32 = 60;

/// The energy a pet starts with, and the usual limit of it.
pub const MAX_ENERGY: i32 = 10;

/// The energy that charging gives.
pub const CHARGE_ENERGY_GAIN: i32 = 5;

/// One of the two sides of a battle.
#[derive(Debug, Clone, Copy, PartialEq, Eq, Structural)]
pub enum Side {
    A,
    B,
}

impl Side {
    /// The letter of the side.
    pub open spec fn letter(self) -> Seq<char> {
        match self {
            Side::A => "A"@,
            Side::B => "B"@,
        }
    }

    /// The letter of the side.
    pub fn text(self) -> (r: &'static str)
        ensures
            r@ == self.letter(),
    {
        match self {
            Side::A => "A",
            Side::B => "B",
        }
    }

    /// The other side.
    pub open spec fn opponent(self) -> Side {
        match self {
            Side::A => Side::B,
            Side::B => Side::A,
        }
    }
}

/// A skill as it is used in battle.
#[derive(Debug)]
pub struct BattleSkill {
    pub name: String,
    pub element: String,
    pub category: String,
    pub cost: i32,
    pub power: i32,
    pub effect: String,
}

/// A skill, by its texts and numbers.
pub struct Skill {
    pub name: Seq<char>,
    pub element: Seq<char>,
    pub category: Seq<char>,
    pub cost: int,
    pub power: int,
    pub effect: Seq<char>,
}

impl View for BattleSkill {
    type V = Skill;

    open spec fn view(&self) -> Skill {
        Skill {
            name: self.name@,
            element: self.element@,
            category: self.category@,
            cost: self.cost as int,
            power: self.power as int,
            effect: self.effect@,
        }
    }
}

impl BattleSkill {
    /// A copy of the skill.
    pub fn copy(&self) -> (r: BattleSkill)
        ensures
            r == *self,
    {
        BattleSkill {
            name: self.name.clone(),
            element: self.element.clone(),
            category: self.category.clone(),
            cost: self.cost,
            power: self.power,
            effect: self.effect.clone(),
        }
    }
}

/// The points that training added to each stat.
#[derive(Debug, Clone, Copy)]
pub struct EffortValues {
    pub hp: i32,
    pub patk: i32,
    pub matk: i32,
    pub pdef: i32,
    pub mdef: i32,
    pub speed: i32,
}

/// A pet in battle.
#[derive(Debug)]
pub struct BattlePet {
    pub name: String,
    pub level: i32,
    pub nature: String,
    pub ability: String,
    pub ability_desc: String,
    pub element1: String,
    pub element2: Option<String>,
    pub hp: i32,
    pub cur_hp: i32,
    pub speed: i32,
    pub patk: i32,
    pub pdef: i32,
    pub matk: i32,
    pub mdef: i32,
    pub energy: i32,
    /// The limit of the energy: usually `MAX_ENERGY`, more where a patch allows it.
    pub energy_cap: i32,
    pub poison_layers: i32,
    pub burn_layers: i32,
    pub freeze_layers: i32,
    pub parasitic_layers: i32,
    pub frozen_hp_locked: i32,
    pub charging_skill: Option<String>,
    pub entry_bonus_power: i32,
    pub entry_leave_immune: bool,
    pub morph_stage: u8,
    pub effort: EffortValues,
    pub skills: Vec<BattleSkill>,
}

/// A pet in battle, by its texts and numbers.
pub struct Pet {
    pub name: Seq<char>,
    pub level: int,
    pub nature: Seq<char>,
    pub ability: Seq<char>,
    pub ability_desc: Seq<char>,
    pub element1: Seq<char>,
    pub element2: Option<Seq<char>>,
    pub hp: int,
    pub cur_hp: int,
    pub speed: int,
    pub patk: int,
    pub pdef: int,
    pub matk: int,
    pub mdef: int,
    pub energy: int,
    pub energy_cap: int,
    pub poison_layers: int,
    pub burn_layers: int,
    pub freeze_layers: int,
    pub parasitic_layers: int,
    pub frozen_hp_locked: int,
    pub charging_skill: Option<Seq<char>>,
    pub entry_bonus_power: int,
    pub entry_leave_immune: bool,
    pub morph_stage: int,
    pub effort: EffortValues,
    pub skills: Seq<Skill>,
}

/// The text of an optional string.
pub open spec fn opt_text(o: Option<String>) -> Option<Seq<char>> {
    match o {
        Some(s) => Some(s@),
        None => None,
    }
}

pub open spec fn skills_of(v: Seq<BattleSkill>) -> Seq<Skill> {
    v.map_values(|s: BattleSkill| s@)
}

pub open spec fn pets_of(v: Seq<BattlePet>) -> Seq<Pet> {
    v.map_values(|p: BattlePet| p@)
}

impl View for BattlePet {
    type V = Pet;

    open spec fn view(&self) -> Pet {
        Pet {
            name: self.name@,
            level: self.level as int,
            nature: self.nature@,
            ability: self.ability@,
            ability_desc: self.ability_desc@,
            element1: self.element1@,
            element2: opt_text(self.element2),
            hp: self.hp as int,
            cur_hp: self.cur_hp as int,
            speed: self.speed as int,
            patk: self.patk as int,
            pdef: self.pdef as int,
            matk: self.matk as int,
            mdef: self.mdef as int,
            energy: self.energy as int,
            energy_cap: self.energy_cap as int,
            poison_layers: self.poison_layers as int,
            burn_layers: self.burn_layers as int,
            freeze_layers: self.freeze_layers as int,
            parasitic_layers: self.parasitic_layers as int,
            frozen_hp_locked: self.frozen_hp_locked as int,
            charging_skill: opt_text(self.charging_skill),
            entry_bonus_power: self.entry_bonus_power as int,
            entry_leave_immune: self.entry_leave_immune,
            morph_stage: self.morph_stage as int,
            effort: self.effort,
            skills: skills_of(self.skills@),
        }
    }
}

impl Skill {
    /// No skill costs less than nothing or hits with less than nothing.
    pub open spec fn wf(self) -> bool {
        self.cost >= 0 && self.power >= 0
    }
}

impl Pet {
    /// What holds of a pet at every moment of a battle: its energy lies between zero and its
    /// limit, its health between zero and what freezing leaves usable of it, freezing never takes
    /// the last point, and no counter is negative.
    pub open spec fn wf(self) -> bool {
        &&& self.hp >= 1
        &&& 0 <= self.frozen_hp_locked < self.hp
        &&& 0 <= self.cur_hp <= self.hp - self.frozen_hp_locked
        &&& self.energy_cap >= 1
        &&& 0 <= self.energy <= self.energy_cap
        &&& self.poison_layers >= 0
        &&& self.burn_layers >= 0
        &&& self.freeze_layers >= 0
        &&& self.parasitic_layers >= 0
        &&& self.entry_bonus_power >= 0
        &&& 0 <= self.morph_stage <= 2
        &&& forall|i: int| 0 <= i < self.skills.len() ==> (#[trigger] self.skills[i]).wf()
    }

    /// Whether the pet is the same as `before` in all that a battle does not change: what it is
    /// called, what it is, its greatest health and energy, its stats and its skills.
    pub open spec fn same_being(self, before: Pet) -> bool {
        &&& self.name == before.name
        &&& self.level == before.level
        &&& self.nature == before.nature
        &&& self.ability == before.ability
        &&& self.ability_desc == before.ability_desc
        &&& self.element1 == before.element1
        &&& self.element2 == before.element2
        &&& self.hp == before.hp
        &&& self.speed == before.speed
        &&& self.patk == before.patk
        &&& self.pdef == before.pdef
        &&& self.matk == before.matk
        &&& self.mdef == before.mdef
        &&& self.energy_cap == before.energy_cap
        &&& self.effort == before.effort
        &&& self.skills == before.skills
    }

    /// Whether the pet can have come of `before` in a battle: it is the same being, and well
    /// formed.
    pub open spec fn follows(self, before: Pet) -> bool {
        self.wf() && self.same_being(before)
    }

    /// Whether the pet has a skill at all.
    pub open spec fn armed(self) -> bool {
        self.skills.len() > 0
    }

    /// Whether the pet still stands.
    pub open spec fn alive(self) -> bool {
        self.cur_hp > 0
    }

    /// Whether `e` is one of the pet's elements.
    pub open spec fn has_element(self, e: Seq<char>) -> bool {
        self.element1 == e || self.element2 == Some(e)
    }

    /// The place of the first skill of that name; the number of skills where there is none.
    pub open spec fn skill_index(self, name: Seq<char>) -> int {
        first_named(self.skills, name)
    }

    /// Whether the pet knows a skill of that name.
    pub open spec fn knows(self, name: Seq<char>) -> bool {
        self.skill_index(name) < self.skills.len()
    }
}

/// The place of the first skill of that name; the length of `s` where there is none.
pub open spec fn first_named(s: Seq<Skill>, name: Seq<char>) -> int
    decreases s.len(),
{
    if s.len() == 0 || s[0].name == name {
        0
    } else {
        1 + first_named(s.drop_first(), name)
    }
}

pub proof fn lemma_first_named(s: Seq<Skill>, name: Seq<char>)
    ensures
        0 <= first_named(s, name) <= s.len(),
        first_named(s, name) < s.len() ==> s[first_named(s, name)].name == name,
        forall|i: int| 0 <= i < first_named(s, name) ==> (#[trigger] s[i]).name != name,
    decreases s.len(),
{
    if s.len() > 0 && s[0].name != name {
        let u = s.drop_first();
        lemma_first_named(u, name);
        assert forall|i: int| 0 <= i < first_named(s, name) implies (#[trigger] s[i]).name
            != name by {
            if i > 0 {
                assert(s[i] == u[i - 1]);
            }
        }
    }
}

pub proof fn lemma_first_named_is(s: Seq<Skill>, name: Seq<char>, n: int)
    requires
        0 <= n <= s.len(),
        n < s.len() ==> s[n].name == name,
        forall|i: int| 0 <= i < n ==> (#[trigger] s[i]).name != name,
    ensures
        first_named(s, name) == n,
{
    lemma_first_named(s, name);
    let m = first_named(s, name);
    if m < n {
        assert(s[m].name == name);
    }
    if n < m {
        assert(s[n].name != name);
    }
}

/// Whether two optional texts are the same.
pub fn is_some_text(o: &Option<String>, s: &str) -> (r: bool)
    ensures
        r == (opt_text(*o) == Some(s@)),
{
    match o {
        Some(x) => text::same(x.as_str(), s),
        None => false,
    }
}

impl BattlePet {
    /// A copy of the pet.
    pub fn copy(&self) -> (r: BattlePet)
        ensures
            r@ == self@,
    {
        let mut skills: Vec<BattleSkill> = Vec::new();
        let mut i: usize = 0;
        while i < self.skills.len()
            invariant
                i <= self.skills.len(),
                skills@ == self.skills@.take(i as int),
            decreases self.skills.len() - i,
        {
            skills.push(self.skills[i].copy());
            i = i + 1;
        }
        assert(skills@ == self.skills@);
        BattlePet {
            name: self.name.clone(),
            level: self.level,
            nature: self.nature.clone(),
            ability: self.ability.clone(),
            ability_desc: self.ability_desc.clone(),
            element1: self.element1.clone(),
            element2: self.element2.clone(),
            hp: self.hp,
            cur_hp: self.cur_hp,
            speed: self.speed,
            patk: self.patk,
            pdef: self.pdef,
            matk: self.matk,
            mdef: self.mdef,
            energy: self.energy,
            energy_cap: self.energy_cap,
            poison_layers: self.poison_layers,
            burn_layers: self.burn_layers,
            freeze_layers: self.freeze_layers,
            parasitic_layers: self.parasitic_layers,
            frozen_hp_locked: self.frozen_hp_locked,
            charging_skill: self.charging_skill.clone(),
            entry_bonus_power: self.entry_bonus_power,
            entry_leave_immune: self.entry_leave_immune,
            morph_stage: self.morph_stage,
            effort: self.effort,
            skills,
        }
    }

    /// Whether `e` is one of the pet's elements.
    pub fn is_element(&self, e: &str) -> (r: bool)
        ensures
            r == self@.has_element(e@),
    {
        text::same(self.element1.as_str(), e) || is_some_text(&self.element2, e)
    }

    /// The place of the first skill of that name; the number of skills where there is none.
    pub fn find_skill(&self, name: &str) -> (n: usize)
        ensures
            n == self@.skill_index(name@),
            n <= self.skills.len(),
            n < self.skills.len() ==> self.skills@[n as int].name@ == name@,
    {
        let mut n: usize = 0;
        while n < self.skills.len() && !text::same(self.skills[n].name.as_str(), name)
            invariant
                n <= self.skills.len(),
                forall|i: int| 0 <= i < n ==> (#[trigger] self@.skills[i]).name != name@,
            decreases self.skills.len() - n,
        {
            n = n + 1;
        }
        proof {
            lemma_first_named_is(self@.skills, name@, n as int);
        }
        n
    }
}

/// What a side wants to do in a round.
#[derive(Debug)]
pub enum Decision {
    UseSkill(String),
    Switch(String),
    Charge,
}

/// A decision, by its text.
pub enum Choice {
    UseSkill(Seq<char>),
    Switch(Seq<char>),
    Charge,
}

impl View for Decision {
    type V = Choice;

    open spec fn view(&self) -> Choice {
        match self {
            Decision::UseSkill(s) => Choice::UseSkill(s@),
            Decision::Switch(s) => Choice::Switch(s@),
            Decision::Charge => Choice::Charge,
        }
    }
}

impl Decision {
    /// A copy of the decision.
    pub fn copy(&self) -> (r: Decision)
        ensures
            r@ == self@,
    {
        match self {
            Decision::UseSkill(s) => Decision::UseSkill(s.clone()),
            Decision::Switch(s) => Decision::Switch(s.clone()),
            Decision::Charge => Decision::Charge,
        }
    }
}

#[derive(Debug, Clone, Copy, PartialEq, Eq, Structural)]
pub enum WeatherKind {
    Rain,
    Sandstorm,
    Blizzard,
}

/// The weather, and for how many more rounds it lasts.
#[derive(Debug, Clone, Copy)]
pub struct WeatherState {
    pub kind: WeatherKind,
    pub remain_turns: i32,
}

#[derive(Debug, Clone, Copy, PartialEq, Eq, Structural)]
pub enum NegativeImprintKind {
    Thorn,
    Descend,
}

/// A mark on a side of the field that hurts whoever enters there.
#[derive(Debug, Clone, Copy)]
pub struct NegativeImprint {
    pub kind: NegativeImprintKind,
    pub layers: i32,
}

#[derive(Debug, Clone, Copy, PartialEq, Eq, Structural)]
pub enum PositiveImprintKind {
    Charge,
    Photosynthesis,
}

/// A mark on a side of the field that helps whoever stands there.
#[derive(Debug, Clone, Copy)]
pub struct PositiveImprint {
    pub kind: PositiveImprintKind,
    pub layers: i32,
}

/// What dedication has added up for a side, each as a number of times.
#[derive(Debug, Clone, Copy)]
pub struct DedicationBuff {
    pub power_bonus_times: i32,
    pub poison_bonus_times: i32,
    pub lifesteal_bonus_times: i32,
    pub combo_bonus_times: i32,
    pub cost_reduction_times: i32,
}

impl DedicationBuff {
    /// No time is negative.
    pub open spec fn wf(self) -> bool {
        &&& self.power_bonus_times >= 0
        &&& self.poison_bonus_times >= 0
        &&& self.lifesteal_bonus_times >= 0
        &&& self.combo_bonus_times >= 0
        &&& self.cost_reduction_times >= 0
    }

    pub open spec fn none() -> DedicationBuff {
        DedicationBuff {
            power_bonus_times: 0,
            poison_bonus_times: 0,
            lifesteal_bonus_times: 0,
            combo_bonus_times: 0,
            cost_reduction_times: 0,
        }
    }
}

impl Default for DedicationBuff {
    fn default() -> (r: Self)
        ensures
            r == DedicationBuff::none(),
    {
        DedicationBuff {
            power_bonus_times: 0,
            poison_bonus_times: 0,
            lifesteal_bonus_times: 0,
            combo_bonus_times: 0,
            cost_reduction_times: 0,
        }
    }
}

} // verus!
