//! Teams: how they are written down, drafted at random, and made ready for battle.

use vstd::prelude::*;
use crate::elements;
use crate::named;
use crate::number;
use crate::number::Overflow;
use crate::number::push_nat;
use crate::pet;
use crate::pet::{
    BattlePet, BattleSkill, EffortValues, MAX_ENERGY, PVP_DEFAULT_LEVEL, Pet, Side, Skill,
};
use crate::pet_battle_patch;
use crate::pet_battle_patch::{Patch, PetBattlePatchEntry, PetBattlePatchTable};
use crate::random;
use crate::random::{rand_index, shuffle_indices};
use crate::single;
use crate::single::Single;
use crate::stats;
use crate::text;

verus! {

/// The individual value that every pet fights with.
pub const PVP_DEFAULT_INDIVIDUAL_VALUE: i32 = 0;

/// The least and the greatest base of the points of training, and what they are multiplied by.
pub const PVP_EFFORT_BASE_MIN: i32 = 7;

pub const PVP_EFFORT_BASE_MAX: i32 = 10;

pub const PVP_EFFORT_MULTIPLIER: i32 = 4;

/// A skill as it is on record, with its cost and power as texts.
#[derive(Debug)]
pub struct SkillDetailLite {
    pub name: String,
    pub element: String,
    pub category: String,
    pub cost: String,
    pub power: String,
    pub effect: String,
}

/// A pet as it is on record, with its base values.
#[derive(Debug)]
pub struct PetJsonLite {
    pub name: String,
    pub element: String,
    pub element2: Option<String>,
    pub ability: String,
    pub ability_desc: String,
    pub hp: i32,
    pub speed: i32,
    pub physical_attack: i32,
    pub physical_defense: i32,
    pub magic_attack: i32,
    pub magic_defense: i32,
    pub skills: Vec<String>,
    pub skill_details: Vec<SkillDetailLite>,
}

/// A skill on record, by its texts.
pub struct Detail {
    pub name: Seq<char>,
    pub element: Seq<char>,
    pub category: Seq<char>,
    pub cost: Seq<char>,
    pub power: Seq<char>,
    pub effect: Seq<char>,
}

/// A pet on record, by its texts and numbers.
pub struct Species {
    pub name: Seq<char>,
    pub element: Seq<char>,
    pub element2: Option<Seq<char>>,
    pub ability: Seq<char>,
    pub ability_desc: Seq<char>,
    pub hp: int,
    pub speed: int,
    pub physical_attack: int,
    pub physical_defense: int,
    pub magic_attack: int,
    pub magic_defense: int,
    pub skills: Seq<Seq<char>>,
    pub details: Seq<Detail>,
}

impl View for SkillDetailLite {
    type V = Detail;

    open spec fn view(&self) -> Detail {
        Detail {
            name: self.name@,
            element: self.element@,
            category: self.category@,
            cost: self.cost@,
            power: self.power@,
            effect: self.effect@,
        }
    }
}

impl View for PetJsonLite {
    type V = Species;

    open spec fn view(&self) -> Species {
        Species {
            name: self.name@,
            element: self.element@,
            element2: pet::opt_text(self.element2),
            ability: self.ability@,
            ability_desc: self.ability_desc@,
            hp: self.hp as int,
            speed: self.speed as int,
            physical_attack: self.physical_attack as int,
            physical_defense: self.physical_defense as int,
            magic_attack: self.magic_attack as int,
            magic_defense: self.magic_defense as int,
            skills: text::texts(self.skills@),
            details: self.skill_details@.map_values(|d: SkillDetailLite| d@),
        }
    }
}

/// The pets of a list, by their texts and numbers.
pub open spec fn species_of(v: Seq<PetJsonLite>) -> Seq<Species> {
    v.map_values(|p: PetJsonLite| p@)
}

/// One place in a team: a pet, its nature and the skills it is to use.
#[derive(Debug)]
pub struct TeamEntry {
    pub pet: String,
    pub nature: String,
    pub skills: Vec<String>,
}

/// One place in a team, by its texts.
#[verifier::ext_equal]
pub struct Entry {
    pub pet: Seq<char>,
    pub nature: Seq<char>,
    pub skills: Seq<Seq<char>>,
}

impl View for TeamEntry {
    type V = Entry;

    open spec fn view(&self) -> Entry {
        Entry { pet: self.pet@, nature: self.nature@, skills: text::texts(self.skills@) }
    }
}

/// The places of a team, by their texts.
pub open spec fn entries_of(v: Seq<TeamEntry>) -> Seq<Entry> {
    v.map_values(|e: TeamEntry| e@)
}

// Numbers on record.

/// The 32 low bits of a number, as a signed number.
pub fn i32_of_i64(value: i64) -> (r: i32)
    ensures
        (r - value) % 0x1_0000_0000 == 0,
        number::fits(value as int) ==> r == value,
{
    let r: i32 = #[verifier::truncate]
    (value as i32);
    assert((r - value) % 0x1_0000_0000 == 0 && (-0x8000_0000 <= value <= 0x7fff_ffff ==> r
        == value)) by (bit_vector)
        requires
            r == value as i32,
    ;
    r
}

/// The 32 low bits of a number, as a signed number.
pub fn i32_of_u64(value: u64) -> (r: i32)
    ensures
        (r - value) % 0x1_0000_0000 == 0,
        number::fits(value as int) ==> r == value,
{
    let r: i32 = #[verifier::truncate]
    (value as i32);
    assert((r - value) % 0x1_0000_0000 == 0 && (value <= 0x7fff_ffff ==> r == value))
        by (bit_vector)
        requires
            r == value as i32,
    ;
    r
}

/// The number that a text writes, white space around it aside; zero where it writes none.
pub fn i32_of_text(value: &str) -> (r: i32)
    ensures
        r == (match number::parsed_int(text::trimmed(value@)) {
            Some(n) => n,
            None => 0,
        }),
{
    match number::parse_int(text::trim(value)) {
        Some(n) => n,
        None => 0,
    }
}

/// The power that a text writes: 60 where it writes no number, and never less than zero.
pub open spec fn power_in(t: Seq<char>) -> int {
    number::greater(
        match number::parsed_int(t) {
            Some(n) => n,
            None => 60,
        },
        0,
    )
}

/// The power that a text writes.
pub fn parse_power(s: &str) -> (r: i32)
    ensures
        r == power_in(s@),
{
    match number::parse_int(s) {
        Some(n) => number::larger(n, 0),
        None => 60,
    }
}

/// The cost that a text writes: 2 where it writes no number, and never less than zero.
pub open spec fn cost_on_record(t: Seq<char>) -> int {
    number::greater(
        match number::parsed_int(t) {
            Some(n) => n,
            None => 2,
        },
        0,
    )
}

/// The cost that a text writes.
pub fn parse_cost(s: &str) -> (r: i32)
    ensures
        r == cost_on_record(s@),
{
    match number::parse_int(s) {
        Some(n) => number::larger(n, 0),
        None => 2,
    }
}

// The pets on record.

/// Takes a pet into the pool, if it has a skill at all.
pub fn take_in(pool: &mut Vec<PetJsonLite>, pet: PetJsonLite)
    ensures
        final(pool)@ == (if pet@.skills.len() > 0 {
            old(pool)@.push(pet)
        } else {
            old(pool)@
        }),
{
    if pet.skills.len() > 0 {
        pool.push(pet);
    }
}

/// The pool, or the complaint that it is empty.
pub fn usable_pool(pool: Vec<PetJsonLite>) -> (r: Result<Vec<PetJsonLite>, String>)
    ensures
        (match r {
            Ok(v) => v == pool && pool.len() > 0,
            Err(m) => pool.len() == 0 && m@ == "data/pets 中没有可用精灵数据"@,
        }),
{
    if pool.len() == 0 {
        return Err("data/pets 中没有可用精灵数据".to_owned());
    }
    Ok(pool)
}

/// The pets of a pool, found by their names.
pub struct PetIndex<'a> {
    pets: &'a Vec<PetJsonLite>,
}

/// The pets of a list, each under its name.
pub open spec fn species_pairs(v: Seq<PetJsonLite>) -> Seq<(Seq<char>, Species)> {
    v.map_values(|p: PetJsonLite| (p@.name, p@))
}

impl<'a> View for PetIndex<'a> {
    type V = Map<Seq<char>, Species>;

    closed spec fn view(&self) -> Map<Seq<char>, Species> {
        named::map_of(species_pairs(self.pets@))
    }
}

/// Finds the pets of a pool by their names; of two pets of one name the later one counts.
pub fn build_pet_index(pets: &Vec<PetJsonLite>) -> (r: PetIndex<'_>)
    ensures
        r@ == named::map_of(species_pairs(pets@)),
{
    PetIndex { pets }
}

impl<'a> PetIndex<'a> {
    /// The pet of that name.
    pub fn get(&self, name: &str) -> (r: Option<&PetJsonLite>)
        ensures
            (match r {
                Some(p) => self@.contains_key(name@) && self@[name@] == p@ && p@.name == name@,
                None => !self@.contains_key(name@),
            }),
    {
        let mut i: usize = self.pets.len();
        let ghost pairs = species_pairs(self.pets@);
        while i > 0
            invariant
                i <= self.pets.len(),
                pairs == species_pairs(self.pets@),
                forall|j: int| i <= j < pairs.len() ==> (#[trigger] pairs[j]).0 != name@,
            decreases i,
        {
            i = i - 1;
            if text::same(self.pets[i].name.as_str(), name) {
                proof {
                    assert(pairs[i as int].0 == name@);
                    named::lemma_map_of_last(pairs, name@, i as int);
                }
                return Some(&self.pets[i]);
            }
        }
        proof {
            named::lemma_map_of_none(pairs, name@);
        }
        None
    }
}

// Training.

/// Points of training with those of the stat number `i` set.
pub open spec fn with_effort(e: EffortValues, i: int, value: int) -> EffortValues {
    if i == 0 {
        EffortValues { hp: value as i32, ..e }
    } else if i == 1 {
        EffortValues { patk: value as i32, ..e }
    } else if i == 2 {
        EffortValues { matk: value as i32, ..e }
    } else if i == 3 {
        EffortValues { pdef: value as i32, ..e }
    } else if i == 4 {
        EffortValues { mdef: value as i32, ..e }
    } else {
        EffortValues { speed: value as i32, ..e }
    }
}

pub open spec fn no_effort() -> EffortValues {
    EffortValues { hp: 0, patk: 0, matk: 0, pdef: 0, mdef: 0, speed: 0 }
}

/// The points that are drawn for one stat.
pub open spec fn effort_drawn(seed: u64) -> int {
    (PVP_EFFORT_BASE_MIN + random::drawn(seed, PVP_EFFORT_BASE_MAX - PVP_EFFORT_BASE_MIN + 1))
        * PVP_EFFORT_MULTIPLIER
}

/// Points of training with those of the stats `order[k..n]` drawn, and the seed that is left.
pub open spec fn efforts_drawn(e: EffortValues, order: Seq<usize>, k: int, n: int, seed: u64) -> (
    EffortValues,
    u64,
)
    decreases n - k,
{
    if k >= n {
        (e, seed)
    } else {
        efforts_drawn(
            with_effort(e, order[k] as int, effort_drawn(seed)),
            order,
            k + 1,
            n,
            random::stepped(seed),
        )
    }
}

pub open spec fn six() -> Seq<usize> {
    seq![0usize, 1, 2, 3, 4, 5]
}

/// The points of training that are drawn from a seed, for one to three stats, and the seed that
/// is left.
pub open spec fn trained(seed: u64) -> (EffortValues, u64) {
    let n = random::drawn(seed, 3) + 1;
    let (order, rest) = random::shuffled(six(), random::stepped(seed));
    efforts_drawn(no_effort(), order, 0, n, rest)
}

/// What any points of training that were drawn satisfy: none for the stat, or 28 to 40 in steps
/// of 4.
pub open spec fn effort_ok(v: int) -> bool {
    v == 0 || (28 <= v <= 40 && v % 4 == 0)
}

pub open spec fn efforts_ok(e: EffortValues) -> bool {
    &&& effort_ok(e.hp as int)
    &&& effort_ok(e.patk as int)
    &&& effort_ok(e.matk as int)
    &&& effort_ok(e.pdef as int)
    &&& effort_ok(e.mdef as int)
    &&& effort_ok(e.speed as int)
}

pub open spec fn raised(v: i32) -> int {
    if v > 0 {
        1
    } else {
        0
    }
}

/// How many stats the points of training raise.
pub open spec fn stats_raised(e: EffortValues) -> int {
    raised(e.hp) + raised(e.patk) + raised(e.matk) + raised(e.pdef) + raised(e.mdef) + raised(
        e.speed,
    )
}

/// The points for the stat number `i`.
pub open spec fn effort_at(e: EffortValues, i: int) -> i32 {
    if i == 0 {
        e.hp
    } else if i == 1 {
        e.patk
    } else if i == 2 {
        e.matk
    } else if i == 3 {
        e.pdef
    } else if i == 4 {
        e.mdef
    } else {
        e.speed
    }
}

proof fn lemma_efforts_drawn(e: EffortValues, order: Seq<usize>, k: int, n: int, seed: u64)
    requires
        0 <= k <= n <= order.len(),
        order.no_duplicates(),
        forall|i: int| 0 <= i < order.len() ==> (#[trigger] order[i]) < 6,
        forall|i: int| k <= i < order.len() ==> effort_at(e, (#[trigger] order[i]) as int) == 0,
        efforts_ok(e),
    ensures
        efforts_ok(efforts_drawn(e, order, k, n, seed).0),
        stats_raised(efforts_drawn(e, order, k, n, seed).0) == stats_raised(e) + n - k,
    decreases n - k,
{
    if k < n {
        let v = effort_drawn(seed);
        let e2 = with_effort(e, order[k] as int, v);
        assert(order[k] < 6 && effort_at(e, order[k] as int) == 0);
        assert(effort_ok(v) && v > 0);
        assert forall|i: int| k + 1 <= i < order.len() implies effort_at(
            e2,
            (#[trigger] order[i]) as int,
        ) == 0 by {
            assert(order[i] != order[k]);
            assert(order[i] < 6);
        }
        lemma_efforts_drawn(e2, order, k + 1, n, random::stepped(seed));
    }
}

/// Training raises one to three stats, each by 28 to 40 points in steps of 4, and no other.
pub proof fn lemma_trained(seed: u64)
    ensures
        efforts_ok(trained(seed).0),
        1 <= stats_raised(trained(seed).0) <= 3,
{
    let n = random::drawn(seed, 3) + 1;
    let (order, rest) = random::shuffled(six(), random::stepped(seed));
    assert(six().no_duplicates());
    random::lemma_shuffled_apart(six(), random::stepped(seed));
    assert forall|i: int| 0 <= i < order.len() implies (#[trigger] order[i]) < 6 by {
        assert(order.contains(order[i]));
        assert(six().contains(order[i]));
    }
    lemma_efforts_drawn(no_effort(), order, 0, n, rest);
}

/// Draws the points of training of a pet.
pub fn random_effort_values(seed: &mut u64) -> (r: EffortValues)
    ensures
        (r, *final(seed)) == trained(*old(seed)),
        efforts_ok(r),
{
    let n: usize = rand_index(seed, 3) + 1;
    let mut order: Vec<usize> = vec![0usize, 1, 2, 3, 4, 5];
    assert(order@ == six());
    shuffle_indices(&mut order, seed);
    let mut e: EffortValues = EffortValues { hp: 0, patk: 0, matk: 0, pdef: 0, mdef: 0, speed: 0 };
    let mut k: usize = 0;
    while k < n
        invariant
            k <= n <= 3,
            order.len() == 6,
            efforts_drawn(e, order@, k as int, n as int, *seed) == trained(*old(seed)),
        decreases n - k,
    {
        let at: usize = order[k];
        let step: usize = rand_index(seed, 4);
        let value: i32 = (PVP_EFFORT_BASE_MIN + step as i32) * PVP_EFFORT_MULTIPLIER;
        if at == 0 {
            e.hp = value;
        } else if at == 1 {
            e.patk = value;
        } else if at == 2 {
            e.matk = value;
        } else if at == 3 {
            e.pdef = value;
        } else if at == 4 {
            e.mdef = value;
        } else {
            e.speed = value;
        }
        k = k + 1;
    }
    proof {
        lemma_trained(*old(seed));
    }
    e
}

// Making pets ready.

/// The place of the first skill of that name; the length of `s` where there is none.
pub open spec fn first_detail(s: Seq<Detail>, name: Seq<char>) -> int
    decreases s.len(),
{
    if s.len() == 0 || s[0].name == name {
        0
    } else {
        1 + first_detail(s.drop_first(), name)
    }
}

proof fn lemma_first_detail(s: Seq<Detail>, name: Seq<char>, n: int)
    requires
        0 <= n <= s.len(),
        n < s.len() ==> s[n].name == name,
        forall|i: int| 0 <= i < n ==> (#[trigger] s[i]).name != name,
    ensures
        first_detail(s, name) == n,
    decreases s.len(),
{
    if n > 0 {
        assert(s[0].name != name);
        let u = s.drop_first();
        assert forall|i: int| 0 <= i < n - 1 implies (#[trigger] u[i]).name != name by {
            assert(u[i] == s[i + 1]);
        }
        lemma_first_detail(u, name, n - 1);
    }
}

/// The skill of that name as it is on record; a plain physical attack where it is not.
pub open spec fn skill_of(details: Seq<Detail>, name: Seq<char>) -> Skill {
    let i = first_detail(details, name);
    if i < details.len() {
        Skill {
            name,
            element: details[i].element,
            category: details[i].category,
            cost: cost_on_record(details[i].cost),
            power: power_in(details[i].power),
            effect: details[i].effect,
        }
    } else {
        Skill { name, element: "普通"@, category: "物攻"@, cost: 2, power: 60, effect: seq![] }
    }
}

fn build_skill(details: &Vec<SkillDetailLite>, name: &str) -> (r: BattleSkill)
    ensures
        r@ == skill_of(details@.map_values(|d: SkillDetailLite| d@), name@),
        r@.wf(),
{
    let ghost ds = details@.map_values(|d: SkillDetailLite| d@);
    let mut i: usize = 0;
    while i < details.len()
        invariant
            i <= details.len(),
            ds == details@.map_values(|d: SkillDetailLite| d@),
            forall|j: int| 0 <= j < i ==> (#[trigger] ds[j]).name != name@,
        decreases details.len() - i,
    {
        if text::same(details[i].name.as_str(), name) {
            proof {
                lemma_first_detail(ds, name@, i as int);
            }
            return BattleSkill {
                name: name.to_owned(),
                element: details[i].element.clone(),
                category: details[i].category.clone(),
                cost: parse_cost(details[i].cost.as_str()),
                power: parse_power(details[i].power.as_str()),
                effect: details[i].effect.clone(),
            };
        }
        i = i + 1;
    }
    proof {
        lemma_first_detail(ds, name@, i as int);
    }
    let r = BattleSkill {
        name: name.to_owned(),
        element: "普通".to_owned(),
        category: "物攻".to_owned(),
        cost: 2,
        power: 60,
        effect: String::new(),
    };
    assert(r@.effect == Seq::<char>::empty());
    r
}

/// The magnification that every pet fights with.
pub open spec fn default_magnification() -> Single {
    single::ratio(1, 1)
}

/// The health that a pet of that base value fights with, after that training.
pub open spec fn trained_hp(base: int, effort: int) -> int {
    stats::hp_formula(
        number::greater(base, 1),
        PVP_DEFAULT_INDIVIDUAL_VALUE as int,
        default_magnification(),
    ) + effort
}

/// The stat that a pet of that base value fights with, after that training.
pub open spec fn trained_stat(base: int, effort: int) -> int {
    stats::stat_formula(
        number::greater(base, 1),
        PVP_DEFAULT_INDIVIDUAL_VALUE as int,
        default_magnification(),
    ) + effort
}

/// The health that a pet of that base value fights with, after that training.
pub fn train_hp(base: i32, effort: i32) -> (r: Result<i32, Overflow>)
    requires
        effort >= 0,
    ensures
        (match r {
            Ok(v) => v == trained_hp(base as int, effort as int) && v >= 1,
            Err(_) => !number::fits(trained_hp(base as int, effort as int)),
        }),
{
    let v: i32 = stats::calculate_hp(
        number::larger(base, 1),
        PVP_DEFAULT_INDIVIDUAL_VALUE,
        single::decimal(1, 1),
    )?;
    number::sum(v, effort)
}

/// The stat that a pet of that base value fights with, after that training.
pub fn train_stat(base: i32, effort: i32) -> (r: Result<i32, Overflow>)
    requires
        effort >= 0,
    ensures
        (match r {
            Ok(v) => v == trained_stat(base as int, effort as int),
            Err(_) => !number::fits(trained_stat(base as int, effort as int)),
        }),
{
    let v: i32 = stats::calculate_stat(
        number::larger(base, 1),
        PVP_DEFAULT_INDIVIDUAL_VALUE,
        single::decimal(1, 1),
    )?;
    number::sum(v, effort)
}

/// The second element of a pet on record: none where nothing but white space stands there.
pub open spec fn second_element(e: Option<Seq<char>>) -> Option<Seq<char>> {
    match e {
        Some(t) => if text::trimmed(t).len() > 0 {
            Some(text::trimmed(t))
        } else {
            None
        },
        None => None,
    }
}

/// A pet at the start of a battle, before its patch.
pub open spec fn fresh(sp: Species, nature: Seq<char>, skills: Seq<Seq<char>>, e: EffortValues) -> Pet {
    Pet {
        name: sp.name,
        level: PVP_DEFAULT_LEVEL as int,
        nature: elements::normal_nature(nature),
        ability: sp.ability,
        ability_desc: sp.ability_desc,
        element1: sp.element,
        element2: second_element(sp.element2),
        hp: trained_hp(sp.hp, e.hp as int),
        cur_hp: trained_hp(sp.hp, e.hp as int),
        speed: trained_stat(sp.speed, e.speed as int),
        patk: trained_stat(sp.physical_attack, e.patk as int),
        pdef: trained_stat(sp.physical_defense, e.pdef as int),
        matk: trained_stat(sp.magic_attack, e.matk as int),
        mdef: trained_stat(sp.magic_defense, e.mdef as int),
        energy: MAX_ENERGY as int,
        energy_cap: MAX_ENERGY as int,
        poison_layers: 0,
        burn_layers: 0,
        freeze_layers: 0,
        parasitic_layers: 0,
        frozen_hp_locked: 0,
        charging_skill: None,
        entry_bonus_power: 0,
        entry_leave_immune: false,
        morph_stage: 0,
        effort: e,
        skills: skills.map_values(|name: Seq<char>| skill_of(sp.details, name)),
    }
}

/// Whether every stat of the pet is in the range of the numbers it is kept in.
pub open spec fn stats_fit(p: Pet) -> bool {
    &&& number::fits(p.hp)
    &&& number::fits(p.speed)
    &&& number::fits(p.patk)
    &&& number::fits(p.pdef)
    &&& number::fits(p.matk)
    &&& number::fits(p.mdef)
}

fn build_battle_pet(
    sp: &PetJsonLite,
    nature: &str,
    skill_names: &Vec<String>,
    effort: EffortValues,
) -> (r: Result<BattlePet, Overflow>)
    requires
        efforts_ok(effort),
    ensures
        (match r {
            Ok(p) => p@ == fresh(sp@, nature@, text::texts(skill_names@), effort) && p@.wf()
                && stats_fit(p@),
            Err(_) => !stats_fit(fresh(sp@, nature@, text::texts(skill_names@), effort)),
        }),
{
    let mut skills: Vec<BattleSkill> = Vec::new();
    let ghost wanted = text::texts(skill_names@).map_values(
        |name: Seq<char>| skill_of(sp@.details, name),
    );
    let mut i: usize = 0;
    while i < skill_names.len()
        invariant
            i <= skill_names.len(),
            wanted == text::texts(skill_names@).map_values(
                |name: Seq<char>| skill_of(sp@.details, name),
            ),
            pet::skills_of(skills@) == wanted.take(i as int),
            forall|j: int| 0 <= j < i ==> (#[trigger] wanted[j]).wf(),
        decreases skill_names.len() - i,
    {
        let ghost before = skills@;
        let s: BattleSkill = build_skill(&sp.skill_details, skill_names[i].as_str());
        assert(s@ == wanted[i as int]);
        skills.push(s);
        assert(pet::skills_of(skills@) == pet::skills_of(before).push(s@));
        i = i + 1;
    }
    assert(pet::skills_of(skills@) == wanted);
    let hp: i32 = train_hp(sp.hp, effort.hp)?;
    let patk: i32 = train_stat(sp.physical_attack, effort.patk)?;
    let pdef: i32 = train_stat(sp.physical_defense, effort.pdef)?;
    let matk: i32 = train_stat(sp.magic_attack, effort.matk)?;
    let mdef: i32 = train_stat(sp.magic_defense, effort.mdef)?;
    let speed: i32 = train_stat(sp.speed, effort.speed)?;
    let element2: Option<String> = match &sp.element2 {
        Some(t) => {
            let t: &str = text::trim(t.as_str());
            if t.unicode_len() > 0 {
                Some(t.to_owned())
            } else {
                None
            }
        },
        None => None,
    };
    Ok(
        BattlePet {
            name: sp.name.clone(),
            level: PVP_DEFAULT_LEVEL,
            nature: elements::normalize_nature_name(nature),
            ability: sp.ability.clone(),
            ability_desc: sp.ability_desc.clone(),
            element1: sp.element.clone(),
            element2,
            hp,
            cur_hp: hp,
            speed,
            patk,
            pdef,
            matk,
            mdef,
            energy: MAX_ENERGY,
            energy_cap: MAX_ENERGY,
            poison_layers: 0,
            burn_layers: 0,
            freeze_layers: 0,
            parasitic_layers: 0,
            frozen_hp_locked: 0,
            charging_skill: None,
            entry_bonus_power: 0,
            entry_leave_immune: false,
            morph_stage: 0,
            effort,
            skills,
        },
    )
}

/// A pet with its patch: other energy at the start, another limit of it, or both. The energy
/// stays between zero and the limit, and the limit is at least one.
pub open spec fn patched(p: Pet, patch: Option<Patch>) -> Pet {
    match patch {
        None => p,
        Some(q) => {
            let energy = match q.initial_energy {
                Some(n) => n as int,
                None => p.energy,
            };
            let cap = if q.allow_over_max_energy {
                number::greater(
                    match q.energy_cap {
                        Some(n) => n as int,
                        None => 99,
                    },
                    1,
                )
            } else {
                match q.energy_cap {
                    Some(n) => number::greater(n as int, 1),
                    None => p.energy_cap,
                }
            };
            Pet { energy: number::clamped(energy, 0, cap), energy_cap: cap, ..p }
        },
    }
}

/// Applies a patch to a pet.
pub fn apply_pet_battle_patch(pet: &mut BattlePet, patch: Option<&PetBattlePatchEntry>)
    requires
        old(pet)@.energy_cap >= 0,
    ensures
        final(pet)@ == patched(
            old(pet)@,
            match patch {
                Some(q) => Some(q@),
                None => None,
            },
        ),
        old(pet)@.wf() ==> final(pet)@.wf(),
{
    let q: &PetBattlePatchEntry = match patch {
        Some(q) => q,
        None => {
            return ;
        },
    };
    if let Some(n) = q.initial_energy {
        pet.energy = n;
    }
    if q.allow_over_max_energy {
        pet.energy_cap = match q.energy_cap {
            Some(n) => number::larger(n, 1),
            None => 99,
        };
    } else if let Some(n) = q.energy_cap {
        pet.energy_cap = number::larger(n, 1);
    }
    pet.energy = number::clamp(pet.energy, 0, pet.energy_cap);
}

/// What comes of making a team ready.
#[verifier::ext_equal]
pub enum Built {
    Team(Seq<Pet>),
    /// A pet is not on record; the complaint about it.
    Unknown(Seq<char>),
    /// A stat is out of range.
    TooLarge,
}

/// The seed of a side, from the time.
pub open spec fn side_seed(side: Side, clock: u64) -> u64 {
    match side {
        Side::A => clock ^ 65u64,
        Side::B => clock ^ 66u64,
    }
}

/// Makes the places of a team ready from the place `i` on, after the pets `ready`.
pub open spec fn built_from(
    entries: Seq<Entry>,
    i: int,
    ready: Seq<Pet>,
    index: Map<Seq<char>, Species>,
    side: Side,
    patches: Map<Seq<char>, Patch>,
    seed: u64,
) -> Built
    decreases entries.len() - i,
{
    if i >= entries.len() {
        Built::Team(ready)
    } else if !index.contains_key(entries[i].pet) {
        Built::Unknown(side.letter() + " 方精灵不存在: "@ + entries[i].pet)
    } else {
        let (effort, rest) = trained(seed);
        let p = fresh(index[entries[i].pet], entries[i].nature, entries[i].skills, effort);
        if !stats_fit(p) {
            Built::TooLarge
        } else {
            built_from(
                entries,
                i + 1,
                ready.push(patched(p, pet_battle_patch::patch_of(patches, p.name))),
                index,
                side,
                patches,
                rest,
            )
        }
    }
}

/// Makes a team ready: each pet with its skills, training drawn from the seed of the side, and
/// its patch.
pub open spec fn built(
    entries: Seq<Entry>,
    index: Map<Seq<char>, Species>,
    side: Side,
    patches: Map<Seq<char>, Patch>,
    clock: u64,
) -> Built {
    built_from(entries, 0, seq![], index, side, patches, side_seed(side, clock))
}

/// Why a team was not made ready.
#[derive(Debug)]
pub enum TeamError {
    /// A pet is not on record.
    Unknown(String),
    /// A stat is out of range.
    TooLarge,
}

/// Makes a team ready for battle.
#[verifier::loop_isolation(false)]
pub fn build_battle_team(
    raw_team: &Vec<TeamEntry>,
    pet_index: &PetIndex<'_>,
    side: Side,
    pet_patches: &PetBattlePatchTable,
    clock: u64,
) -> (r: Result<Vec<BattlePet>, TeamError>)
    ensures
        ({
            let b = built(entries_of(raw_team@), pet_index@, side, pet_patches@, clock);
            match r {
                Ok(team) => {
                    &&& b == Built::Team(pet::pets_of(team@))
                    &&& team.len() == raw_team.len()
                    &&& forall|i: int|
                        0 <= i < team.len() ==> (#[trigger] team@[i])@.wf() && team@[i]@.alive()
                            && team@[i]@.skills.len() == raw_team@[i]@.skills.len()
                },
                Err(TeamError::Unknown(m)) => b == Built::Unknown(m@),
                Err(TeamError::TooLarge) => b == Built::TooLarge,
            }
        }),
{
    let mut out: Vec<BattlePet> = Vec::new();
    let mut seed: u64 = match side {
        Side::A => clock ^ 65u64,
        Side::B => clock ^ 66u64,
    };
    let ghost entries = entries_of(raw_team@);
    let mut i: usize = 0;
    assert(pet::pets_of(out@) == Seq::<Pet>::empty());
    while i < raw_team.len()
        invariant
            i <= raw_team.len(),
            out.len() == i,
            built_from(
                entries,
                i as int,
                pet::pets_of(out@),
                pet_index@,
                side,
                pet_patches@,
                seed,
            ) == built(entries, pet_index@, side, pet_patches@, clock),
            forall|j: int|
                0 <= j < i ==> (#[trigger] out@[j])@.wf() && out@[j]@.alive()
                    && out@[j]@.skills.len() == raw_team@[j]@.skills.len(),
        decreases raw_team.len() - i,
    {
        let entry: &TeamEntry = &raw_team[i];
        assert(entry@ == entries[i as int]);
        let sp: &PetJsonLite = match pet_index.get(entry.pet.as_str()) {
            Some(sp) => sp,
            None => {
                let mut m: String = side.text().to_owned();
                m.append(" 方精灵不存在: ");
                m.append(entry.pet.as_str());
                return Err(TeamError::Unknown(m));
            },
        };
        let effort: EffortValues = random_effort_values(&mut seed);
        let mut p: BattlePet = match build_battle_pet(
            sp,
            entry.nature.as_str(),
            &entry.skills,
            effort,
        ) {
            Ok(p) => p,
            Err(_) => {
                return Err(TeamError::TooLarge);
            },
        };
        let patch: Option<&PetBattlePatchEntry> = pet_patches.get(p.name.as_str());
        let ghost before = out@;
        apply_pet_battle_patch(&mut p, patch);
        out.push(p);
        assert(pet::pets_of(out@) == pet::pets_of(before).push(p@));
        i = i + 1;
    }
    Ok(out)
}

// Teams in text.

/// The place of a team that a line writes: a pet, a nature behind an at sign or the neutral one,
/// and behind a colon four skills with commas between them; or the complaint about the line.
pub open spec fn parsed_line(line: Seq<char>, side_name: Seq<char>) -> Result<Entry, Seq<char>> {
    match text::split_once_at(line, ':') {
        None => Err(side_name + " 行格式错误："@ + line),
        Some((left, right)) => {
            let token = text::trimmed(left);
            let skills = text::trimmed_parts(text::pieces(right, ','));
            if skills.len() != 4 {
                Err(side_name + " 的精灵 "@ + token + " 需要 4 个技能"@)
            } else {
                match text::split_once_at(token, '@') {
                    Some((name, nature)) => Ok(
                        Entry {
                            pet: text::trimmed(name),
                            nature: elements::normal_nature(text::trimmed(nature)),
                            skills,
                        },
                    ),
                    None => Ok(Entry { pet: token, nature: "认真"@, skills }),
                }
            }
        },
    }
}

fn parse_line(line: &str, side_name: &str) -> (r: Result<TeamEntry, String>)
    ensures
        (match r {
            Ok(e) => parsed_line(line@, side_name@) == Ok::<Entry, Seq<char>>(e@),
            Err(m) => parsed_line(line@, side_name@) == Err::<Entry, Seq<char>>(m@),
        }),
{
    let (left, right): (&str, &str) = match text::split_once(line, ':') {
        Some(p) => p,
        None => {
            let mut m: String = side_name.to_owned();
            m.append(" 行格式错误：");
            m.append(line);
            return Err(m);
        },
    };
    let token: &str = text::trim(left);
    let skills: Vec<String> = text::trim_parts(&text::split(right, ','));
    assert(skills.len() == text::texts(skills@).len());
    if skills.len() != 4 {
        let mut m: String = side_name.to_owned();
        m.append(" 的精灵 ");
        m.append(token);
        m.append(" 需要 4 个技能");
        return Err(m);
    }
    match text::split_once(token, '@') {
        Some((name, nature)) => Ok(
            TeamEntry {
                pet: text::trim(name).to_owned(),
                nature: elements::normalize_nature_name(text::trim(nature)),
                skills,
            },
        ),
        None => Ok(TeamEntry { pet: token.to_owned(), nature: "认真".to_owned(), skills }),
    }
}

/// The places that the lines from `i` on write, after the places `done`; or the complaint about
/// the first line that writes none.
pub open spec fn parsed_lines(
    lines: Seq<Seq<char>>,
    side_name: Seq<char>,
    i: int,
    done: Seq<Entry>,
) -> Result<Seq<Entry>, Seq<char>>
    decreases lines.len() - i,
{
    if i >= lines.len() {
        Ok(done)
    } else {
        match parsed_line(lines[i], side_name) {
            Ok(e) => parsed_lines(lines, side_name, i + 1, done.push(e)),
            Err(m) => Err(m),
        }
    }
}

/// The team that a text writes, one place in each of six lines, empty lines aside; or the
/// complaint about it.
pub open spec fn parsed_team(raw: Seq<char>, side_name: Seq<char>) -> Result<Seq<Entry>, Seq<char>> {
    let lines = text::trimmed_parts(text::lines_of(raw));
    if lines.len() != 6 {
        Err(side_name + " 阵容需要 6 行，当前 "@ + number::nat_text(lines.len()))
    } else {
        parsed_lines(lines, side_name, 0, seq![])
    }
}

/// Reads the team that a text writes.
pub fn parse_fixed_team(raw: &str, side_name: &str) -> (r: Result<Vec<TeamEntry>, String>)
    ensures
        (match r {
            Ok(v) => parsed_team(raw@, side_name@) == Ok::<Seq<Entry>, Seq<char>>(entries_of(v@))
                && v.len() == 6 && forall|i: int|
                0 <= i < 6 ==> (#[trigger] v@[i])@.skills.len() == 4,
            Err(m) => parsed_team(raw@, side_name@) == Err::<Seq<Entry>, Seq<char>>(m@),
        }),
{
    let lines: Vec<String> = text::trim_parts(&text::lines(raw));
    let ghost ls = text::texts(lines@);
    assert(ls.len() == lines.len());
    if lines.len() != 6 {
        let mut m: String = side_name.to_owned();
        m.append(" 阵容需要 6 行，当前 ");
        push_nat(&mut m, lines.len() as u128);
        return Err(m);
    }
    let mut out: Vec<TeamEntry> = Vec::new();
    let mut i: usize = 0;
    assert(entries_of(out@) == Seq::<Entry>::empty());
    while i < lines.len()
        invariant
            i <= lines.len() == 6,
            out.len() == i,
            ls == text::texts(lines@),
            parsed_lines(ls, side_name@, i as int, entries_of(out@)) == parsed_team(
                raw@,
                side_name@,
            ),
            forall|j: int| 0 <= j < i ==> (#[trigger] out@[j])@.skills.len() == 4,
        decreases lines.len() - i,
    {
        assert(ls[i as int] == lines@[i as int]@);
        match parse_line(lines[i].as_str(), side_name) {
            Ok(e) => {
                let ghost before = out@;
                out.push(e);
                assert(entries_of(out@) == entries_of(before).push(e@));
            },
            Err(m) => {
                return Err(m);
            },
        }
        i = i + 1;
    }
    Ok(out)
}

// Teams at random.

/// The numbers below `n`, in order.
pub open spec fn upto(n: int) -> Seq<usize> {
    Seq::new(n as nat, |i: int| i as usize)
}

/// A pet with four of its skills, taken from the first four places of `order`.
pub open spec fn drafted_pet(sp: Species, order: Seq<usize>) -> Entry {
    Entry {
        pet: sp.name,
        nature: "认真"@,
        skills: Seq::new(4, |i: int| sp.skills[order[i] as int]),
    }
}

/// Draws a pet with four skills from the pool, in at most `tries` tries; the seed that is left
/// comes with it.
#[verifier::opaque]
pub open spec fn drafted(pool: Seq<Species>, tries: int, seed: u64) -> (Option<Entry>, u64)
    decreases tries,
{
    if tries <= 0 {
        (None, seed)
    } else {
        let sp = pool[random::drawn(seed, pool.len() as int)];
        if sp.skills.len() < 4 {
            drafted(pool, tries - 1, random::stepped(seed))
        } else {
            let (order, rest) = random::shuffled(
                upto(sp.skills.len() as int),
                random::stepped(seed),
            );
            (Some(drafted_pet(sp, order)), rest)
        }
    }
}

/// Draws `n` more pets, after those in `done`.
pub open spec fn drafted_team(pool: Seq<Species>, n: int, done: Seq<Entry>, seed: u64) -> (
    Seq<Entry>,
    u64,
)
    decreases n,
{
    if n <= 0 {
        (done, seed)
    } else {
        match drafted(pool, 64, seed) {
            (Some(e), rest) => drafted_team(pool, n - 1, done.push(e), rest),
            (None, rest) => drafted_team(pool, n - 1, done, rest),
        }
    }
}

/// Whether a place holds a pet of the pool with four of its skills, from four different places.
#[verifier::opaque]
pub open spec fn draft_ok(pool: Seq<Species>, e: Entry) -> bool {
    exists|k: int, order: Seq<usize>|
        {
            &&& 0 <= k < pool.len()
            &&& order.no_duplicates()
            &&& order.len() >= 4
            &&& forall|i: int| 0 <= i < 4 ==> (#[trigger] order[i]) < pool[k].skills.len()
            &&& e == #[trigger] drafted_pet(pool[k], order)
        }
}

/// A pet that was drawn has four of its skills, from four different places.
pub proof fn lemma_drafted(pool: Seq<Species>, tries: int, seed: u64)
    requires
        pool.len() > 0,
        forall|i: int| 0 <= i < pool.len() ==> (#[trigger] pool[i]).skills.len() <= usize::MAX,
    ensures
        drafted(pool, tries, seed).0 matches Some(e) ==> draft_ok(pool, e),
    decreases tries,
{
    reveal(drafted);
    if tries > 0 {
        let k = random::drawn(seed, pool.len() as int);
        assert(0 <= k < pool.len());
        let sp = pool[k];
        if sp.skills.len() < 4 {
            lemma_drafted(pool, tries - 1, random::stepped(seed));
        } else {
            let all = upto(sp.skills.len() as int);
            let order = random::shuffled(all, random::stepped(seed)).0;
            assert(all.no_duplicates());
            random::lemma_shuffled_apart(all, random::stepped(seed));
            assert forall|i: int| 0 <= i < 4 implies (#[trigger] order[i]) < pool[k].skills.len() by {
                assert(order.contains(order[i]));
                assert(all.contains(order[i]));
            }
            assert(drafted(pool, tries, seed).0 == Some(drafted_pet(pool[k], order)));
            reveal(draft_ok);
        }
    }
}

proof fn lemma_draft_skills(pool: Seq<Species>, e: Entry)
    requires
        draft_ok(pool, e),
    ensures
        e.skills.len() == 4,
{
    reveal(draft_ok);
}

/// A team that was drawn holds pets of the pool, each with four of its skills, from four
/// different places.
pub proof fn lemma_drafted_team(pool: Seq<Species>, n: int, done: Seq<Entry>, seed: u64)
    requires
        pool.len() > 0,
        forall|i: int| 0 <= i < pool.len() ==> (#[trigger] pool[i]).skills.len() <= usize::MAX,
        forall|i: int| 0 <= i < done.len() ==> draft_ok(pool, #[trigger] done[i]),
    ensures
        forall|i: int|
            0 <= i < drafted_team(pool, n, done, seed).0.len() ==> draft_ok(
                pool,
                #[trigger] drafted_team(pool, n, done, seed).0[i],
            ),
    decreases n,
{
    if n > 0 {
        lemma_drafted(pool, 64, seed);
        let (picked, rest) = drafted(pool, 64, seed);
        match picked {
            Some(e) => {
                lemma_drafted_team(pool, n - 1, done.push(e), rest);
                assert(drafted_team(pool, n, done, seed) == drafted_team(
                    pool,
                    n - 1,
                    done.push(e),
                    rest,
                ));
            },
            None => {
                lemma_drafted_team(pool, n - 1, done, rest);
                assert(drafted_team(pool, n, done, seed) == drafted_team(pool, n - 1, done, rest));
            },
        }
    }
}

fn list_upto(n: usize) -> (r: Vec<usize>)
    ensures
        r@ == upto(n as int),
        r@.no_duplicates(),
{
    let mut r: Vec<usize> = Vec::new();
    let mut i: usize = 0;
    while i < n
        invariant
            i <= n,
            r@ == upto(i as int),
        decreases n - i,
    {
        r.push(i);
        i = i + 1;
    }
    r
}

fn draft_skills(p: &PetJsonLite, seed: &mut u64) -> (r: TeamEntry)
    requires
        p.skills.len() >= 4,
    ensures
        ({
            let (order, rest) = random::shuffled(upto(p@.skills.len() as int), *old(seed));
            r@ == drafted_pet(p@, order) && *final(seed) == rest
        }),
{
    let mut order: Vec<usize> = list_upto(p.skills.len());
    proof {
        random::lemma_shuffled_apart(order@, *seed);
    }
    let ghost all = order@;
    shuffle_indices(&mut order, seed);
    let mut skills: Vec<String> = Vec::new();
    let mut j: usize = 0;
    while j < 4
        invariant
            j <= 4,
            order.len() == p.skills.len() >= 4,
            all == upto(p.skills.len() as int),
            forall|x: usize| order@.contains(x) <==> all.contains(x),
            text::texts(skills@) == Seq::new(j as nat, |i: int| p@.skills[order@[i] as int]),
        decreases 4 - j,
    {
        assert(order@.contains(order@[j as int]));
        let at: usize = order[j];
        assert(all.contains(at));
        let ghost before = skills@;
        skills.push(p.skills[at].clone());
        assert(text::texts(skills@) == text::texts(before).push(p@.skills[at as int]));
        j = j + 1;
    }
    TeamEntry { pet: p.name.clone(), nature: "认真".to_owned(), skills }
}

fn draft_pet(pool: &Vec<PetJsonLite>, seed: &mut u64) -> (r: Option<TeamEntry>)
    requires
        pool.len() > 0,
    ensures
        drafted(species_of(pool@), 64, *old(seed)).1 == *final(seed),
        (match r {
            Some(e) => drafted(species_of(pool@), 64, *old(seed)).0 == Some(e@),
            None => drafted(species_of(pool@), 64, *old(seed)).0 is None,
        }),
{
    let ghost sps = species_of(pool@);
    let mut tries: usize = 64;
    while tries > 0
        invariant
            tries <= 64,
            pool.len() > 0,
            sps == species_of(pool@),
            drafted(sps, tries as int, *seed) == drafted(sps, 64, *old(seed)),
        decreases tries,
    {
        reveal(drafted);
        let k: usize = rand_index(seed, pool.len());
        let p: &PetJsonLite = &pool[k];
        assert(p@ == sps[k as int]);
        if p.skills.len() >= 4 {
            return Some(draft_skills(p, seed));
        }
        tries = tries - 1;
    }
    reveal(drafted);
    None
}

fn draft_team(pool: &Vec<PetJsonLite>, seed: &mut u64) -> (r: Vec<TeamEntry>)
    requires
        pool.len() > 0,
    ensures
        (entries_of(r@), *final(seed)) == drafted_team(species_of(pool@), 6, seq![], *old(seed)),
{
    let mut out: Vec<TeamEntry> = Vec::new();
    let mut n: usize = 6;
    assert(entries_of(out@) == Seq::<Entry>::empty());
    while n > 0
        invariant
            n <= 6,
            pool.len() > 0,
            drafted_team(species_of(pool@), n as int, entries_of(out@), *seed) == drafted_team(
                species_of(pool@),
                6,
                seq![],
                *old(seed),
            ),
        decreases n,
    {
        if let Some(e) = draft_pet(pool, seed) {
            let ghost before = out@;
            out.push(e);
            assert(entries_of(out@) == entries_of(before).push(e@));
        }
        n = n - 1;
    }
    out
}

/// Draws two teams of six pets from the pool; or the complaint that this did not succeed.
pub fn generate_random_teams(pet_pool: &Vec<PetJsonLite>, clock: u64) -> (r: Result<
    (Vec<TeamEntry>, Vec<TeamEntry>),
    String,
>)
    requires
        pet_pool.len() > 0,
    ensures
        ({
            let (a, rest) = drafted_team(species_of(pet_pool@), 6, seq![], clock);
            let (b, _) = drafted_team(species_of(pet_pool@), 6, seq![], rest);
            match r {
                Ok((team_a, team_b)) => {
                    &&& entries_of(team_a@) == a
                    &&& entries_of(team_b@) == b
                    &&& team_a.len() == 6
                    &&& team_b.len() == 6
                    &&& forall|i: int| 0 <= i < 6 ==> (#[trigger] team_a@[i])@.skills.len() == 4
                    &&& forall|i: int| 0 <= i < 6 ==> (#[trigger] team_b@[i])@.skills.len() == 4
                },
                Err(m) => (a.len() != 6 || b.len() != 6) && m@
                    == "随机组队失败，请检查 data/pets 是否存在足够数据"@,
            }
        }),
{
    let mut seed: u64 = clock;
    let a: Vec<TeamEntry> = draft_team(pet_pool, &mut seed);
    let b: Vec<TeamEntry> = draft_team(pet_pool, &mut seed);
    assert(entries_of(a@).len() == a.len() && entries_of(b@).len() == b.len());
    if a.len() != 6 || b.len() != 6 {
        return Err("随机组队失败，请检查 data/pets 是否存在足够数据".to_owned());
    }
    proof {
        let pool = species_of(pet_pool@);
        assert forall|i: int| 0 <= i < pool.len() implies (#[trigger] pool[i]).skills.len()
            <= usize::MAX by {
            assert(pool[i].skills.len() == pet_pool@[i].skills.len());
        }
        lemma_drafted_team(pool, 6, seq![], clock);
        let (da, rest) = drafted_team(pool, 6, seq![], clock);
        let db = drafted_team(pool, 6, seq![], rest).0;
        lemma_drafted_team(pool, 6, seq![], rest);
        assert forall|i: int| 0 <= i < 6 implies (#[trigger] a@[i])@.skills.len() == 4 by {
            assert(entries_of(a@)[i] == da[i]);
            lemma_draft_skills(pool, drafted_team(pool, 6, seq![], clock).0[i]);
        }
        assert forall|i: int| 0 <= i < 6 implies (#[trigger] b@[i])@.skills.len() == 4 by {
            assert(entries_of(b@)[i] == db[i]);
            lemma_draft_skills(pool, drafted_team(pool, 6, seq![], rest).0[i]);
        }
    }
    Ok((a, b))
}

} // verus!
