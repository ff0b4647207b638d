//! What the record of a battle says of teams and pets, and who has won.

use vstd::prelude::*;
use crate::number;
use crate::number::Overflow;
use crate::pet;
use crate::pet::{BattlePet, BattleSkill, Pet, Side, Skill};
use crate::replay;
use crate::replay::{
    Frame, InitialState, PetInitialState, PetStatusSnapshot, RoundReport, SkillView,
    StatusEffectView,
};
use crate::text;

verus! {

/// A skill as it is shown, by its texts and numbers.
pub struct ShownSkill {
    pub name: Seq<char>,
    pub element: Seq<char>,
    pub category: Seq<char>,
    pub cost: int,
    pub power: int,
}

/// A pet as it was at the start, by its texts and numbers.
#[verifier::ext_equal]
pub struct ShownPet {
    pub name: Seq<char>,
    pub level: int,
    pub element: Seq<char>,
    pub element2: Option<Seq<char>>,
    pub ability: Seq<char>,
    pub hp_max: int,
    pub energy_max: int,
    pub speed: int,
    pub patk: int,
    pub pdef: int,
    pub matk: int,
    pub mdef: int,
    pub skills: Seq<ShownSkill>,
}

impl View for SkillView {
    type V = ShownSkill;

    open spec fn view(&self) -> ShownSkill {
        ShownSkill {
            name: self.name@,
            element: self.element@,
            category: self.category@,
            cost: self.cost as int,
            power: self.power as int,
        }
    }
}

impl View for PetInitialState {
    type V = ShownPet;

    open spec fn view(&self) -> ShownPet {
        ShownPet {
            name: self.name@,
            level: self.level as int,
            element: self.element@,
            element2: pet::opt_text(self.element2),
            ability: self.ability@,
            hp_max: self.hp_max as int,
            energy_max: self.energy_max as int,
            speed: self.speed as int,
            patk: self.patk as int,
            pdef: self.pdef as int,
            matk: self.matk as int,
            mdef: self.mdef as int,
            skills: self.skills@.map_values(|s: SkillView| s@),
        }
    }
}

/// A skill as it is shown.
pub open spec fn shown_skill(s: Skill) -> ShownSkill {
    ShownSkill {
        name: s.name,
        element: s.element,
        category: s.category,
        cost: s.cost,
        power: s.power,
    }
}

/// A pet as it is shown.
pub open spec fn shown_pet(p: Pet) -> ShownPet {
    ShownPet {
        name: p.name,
        level: p.level,
        element: p.element1,
        element2: p.element2,
        ability: p.ability,
        hp_max: p.hp,
        energy_max: p.energy_cap,
        speed: p.speed,
        patk: p.patk,
        pdef: p.pdef,
        matk: p.matk,
        mdef: p.mdef,
        skills: p.skills.map_values(|s: Skill| shown_skill(s)),
    }
}

/// A team as it is shown.
pub open spec fn shown_team(team: Seq<Pet>) -> Seq<ShownPet> {
    team.map_values(|p: Pet| shown_pet(p))
}

pub open spec fn shown_of(v: Seq<PetInitialState>) -> Seq<ShownPet> {
    v.map_values(|p: PetInitialState| p@)
}

fn show_skills(skills: &Vec<BattleSkill>) -> (r: Vec<SkillView>)
    ensures
        r@.map_values(|s: SkillView| s@) == pet::skills_of(skills@).map_values(
            |s: Skill| shown_skill(s),
        ),
{
    let mut r: Vec<SkillView> = Vec::new();
    let ghost wanted = pet::skills_of(skills@).map_values(|s: Skill| shown_skill(s));
    let mut i: usize = 0;
    while i < skills.len()
        invariant
            i <= skills.len(),
            wanted == pet::skills_of(skills@).map_values(|s: Skill| shown_skill(s)),
            r@.map_values(|s: SkillView| s@) == wanted.take(i as int),
        decreases skills.len() - i,
    {
        let ghost before = r@;
        let v = SkillView {
            name: skills[i].name.clone(),
            element: skills[i].element.clone(),
            category: skills[i].category.clone(),
            cost: skills[i].cost,
            power: skills[i].power,
        };
        assert(v@ == wanted[i as int]);
        r.push(v);
        assert(r@.map_values(|s: SkillView| s@) == before.map_values(|s: SkillView| s@).push(v@));
        i = i + 1;
    }
    assert(wanted.take(i as int) == wanted);
    r
}

/// A team as it is shown.
pub fn build_initial_team_state(team: &Vec<BattlePet>) -> (r: Vec<PetInitialState>)
    ensures
        shown_of(r@) == shown_team(pet::pets_of(team@)),
{
    let mut r: Vec<PetInitialState> = Vec::new();
    let ghost wanted = shown_team(pet::pets_of(team@));
    let mut i: usize = 0;
    while i < team.len()
        invariant
            i <= team.len(),
            wanted == shown_team(pet::pets_of(team@)),
            shown_of(r@) == wanted.take(i as int),
        decreases team.len() - i,
    {
        let ghost before = r@;
        let p: &BattlePet = &team[i];
        let v = PetInitialState {
            name: p.name.clone(),
            level: p.level,
            element: p.element1.clone(),
            element2: p.element2.clone(),
            ability: p.ability.clone(),
            hp_max: p.hp,
            energy_max: p.energy_cap,
            speed: p.speed,
            patk: p.patk,
            pdef: p.pdef,
            matk: p.matk,
            mdef: p.mdef,
            skills: show_skills(&p.skills),
        };
        assert(v@ =~= shown_pet(p@));
        assert(v@ == wanted[i as int]);
        r.push(v);
        assert(shown_of(r@) == shown_of(before).push(v@));
        i = i + 1;
    }
    assert(wanted.take(i as int) == wanted);
    r
}

/// Both teams as they are shown.
pub fn initial_state(team_a: &Vec<BattlePet>, team_b: &Vec<BattlePet>) -> (r: InitialState)
    ensures
        shown_of(r.team_a@) == shown_team(pet::pets_of(team_a@)),
        shown_of(r.team_b@) == shown_team(pet::pets_of(team_b@)),
{
    InitialState {
        team_a: build_initial_team_state(team_a),
        team_b: build_initial_team_state(team_b),
    }
}

/// One thing that lies on a pet: its name and its layers.
pub struct Lying {
    pub name: Seq<char>,
    pub layers: int,
}

/// What lies on a fighter.
#[verifier::ext_equal]
pub struct Snapshot {
    pub side: Seq<char>,
    pub pet: Seq<char>,
    pub effects: Seq<Lying>,
}

impl View for StatusEffectView {
    type V = Lying;

    open spec fn view(&self) -> Lying {
        Lying { name: self.name@, layers: self.layers as int }
    }
}

impl View for PetStatusSnapshot {
    type V = Snapshot;

    open spec fn view(&self) -> Snapshot {
        Snapshot {
            side: self.side@,
            pet: self.pet@,
            effects: self.effects@.map_values(|e: StatusEffectView| e@),
        }
    }
}

pub open spec fn snapshots_of(v: Seq<PetStatusSnapshot>) -> Seq<Snapshot> {
    v.map_values(|s: PetStatusSnapshot| s@)
}

/// A list with one more thing that lies on a pet, if it has any layers.
pub open spec fn with_lying(done: Seq<Lying>, name: Seq<char>, layers: int) -> Seq<Lying> {
    if layers > 0 {
        done.push(Lying { name, layers })
    } else {
        done
    }
}

/// What lies on a pet: poison, burns, frost and parasites, in this order.
pub open spec fn lying_on(p: Pet) -> Seq<Lying> {
    with_lying(
        with_lying(
            with_lying(with_lying(seq![], "中毒"@, p.poison_layers), "灼烧"@, p.burn_layers),
            "冻结"@,
            p.freeze_layers,
        ),
        "寄生"@,
        p.parasitic_layers,
    )
}

fn add_lying(out: &mut Vec<StatusEffectView>, name: &str, layers: i32)
    ensures
        final(out)@.map_values(|e: StatusEffectView| e@) == with_lying(
            old(out)@.map_values(|e: StatusEffectView| e@),
            name@,
            layers as int,
        ),
{
    if layers > 0 {
        out.push(StatusEffectView { name: name.to_owned(), layers });
        assert(out@.map_values(|e: StatusEffectView| e@) == old(out)@.map_values(
            |e: StatusEffectView| e@,
        ).push(Lying { name: name@, layers: layers as int }));
    }
}

/// What lies on a pet.
pub fn collect_effects(pet: &BattlePet) -> (r: Vec<StatusEffectView>)
    ensures
        r@.map_values(|e: StatusEffectView| e@) == lying_on(pet@),
{
    let mut out: Vec<StatusEffectView> = Vec::new();
    assert(out@.map_values(|e: StatusEffectView| e@) == Seq::<Lying>::empty());
    add_lying(&mut out, "中毒", pet.poison_layers);
    add_lying(&mut out, "灼烧", pet.burn_layers);
    add_lying(&mut out, "冻结", pet.freeze_layers);
    add_lying(&mut out, "寄生", pet.parasitic_layers);
    out
}

/// What lies on the fighters of both sides.
pub open spec fn snapshots(a: Pet, b: Pet) -> Seq<Snapshot> {
    seq![
        Snapshot { side: "A"@, pet: a.name, effects: lying_on(a) },
        Snapshot { side: "B"@, pet: b.name, effects: lying_on(b) },
    ]
}

/// What lies on the fighters of both sides.
pub fn snapshot_status_effects(a: &BattlePet, b: &BattlePet) -> (r: Vec<PetStatusSnapshot>)
    ensures
        snapshots_of(r@) == snapshots(a@, b@),
{
    let mut r: Vec<PetStatusSnapshot> = Vec::new();
    r.push(
        PetStatusSnapshot {
            side: "A".to_owned(),
            pet: a.name.clone(),
            effects: collect_effects(a),
        },
    );
    r.push(
        PetStatusSnapshot {
            side: "B".to_owned(),
            pet: b.name.clone(),
            effects: collect_effects(b),
        },
    );
    assert(snapshots_of(r@) =~= snapshots(a@, b@));
    r
}

/// The record of a round, by its texts and numbers.
#[verifier::ext_equal]
pub struct Round {
    pub round: int,
    pub round_label: Seq<char>,
    pub acting_order: Seq<char>,
    pub decision_a: Seq<char>,
    pub decision_b: Seq<char>,
    pub active_a: Seq<char>,
    pub active_b: Seq<char>,
    pub hp_a_max: int,
    pub hp_b_max: int,
    pub energy_a_max: int,
    pub energy_b_max: int,
    pub hp_a_before: int,
    pub hp_b_before: int,
    pub hp_a_after: int,
    pub hp_b_after: int,
    pub energy_a_before: int,
    pub energy_b_before: int,
    pub energy_a_after: int,
    pub energy_b_after: int,
    pub life_a_after: int,
    pub life_b_after: int,
    pub alive_a: Seq<Seq<char>>,
    pub alive_b: Seq<Seq<char>>,
    pub status_effects: Seq<Snapshot>,
    pub events: Seq<Frame>,
}

impl View for RoundReport {
    type V = Round;

    open spec fn view(&self) -> Round {
        Round {
            round: self.round as int,
            round_label: self.round_label@,
            acting_order: self.acting_order@,
            decision_a: self.decision_a@,
            decision_b: self.decision_b@,
            active_a: self.active_a@,
            active_b: self.active_b@,
            hp_a_max: self.hp_a_max as int,
            hp_b_max: self.hp_b_max as int,
            energy_a_max: self.energy_a_max as int,
            energy_b_max: self.energy_b_max as int,
            hp_a_before: self.hp_a_before as int,
            hp_b_before: self.hp_b_before as int,
            hp_a_after: self.hp_a_after as int,
            hp_b_after: self.hp_b_after as int,
            energy_a_before: self.energy_a_before as int,
            energy_b_before: self.energy_b_before as int,
            energy_a_after: self.energy_a_after as int,
            energy_b_after: self.energy_b_after as int,
            life_a_after: self.life_a_after as int,
            life_b_after: self.life_b_after as int,
            alive_a: text::texts(self.alive_a@),
            alive_b: text::texts(self.alive_b@),
            status_effects: snapshots_of(self.status_effects@),
            events: replay::frames_of(self.events@),
        }
    }
}

pub open spec fn rounds_of(v: Seq<RoundReport>) -> Seq<Round> {
    v.map_values(|r: RoundReport| r@)
}

/// The names of the pets that stand, in the order of the team.
pub open spec fn standing(team: Seq<Pet>) -> Seq<Seq<char>>
    decreases team.len(),
{
    if team.len() == 0 {
        seq![]
    } else if team.last().alive() {
        standing(team.drop_last()).push(team.last().name)
    } else {
        standing(team.drop_last())
    }
}

/// The names of the pets that stand.
pub fn alive_pet_names(team: &Vec<BattlePet>) -> (r: Vec<String>)
    ensures
        text::texts(r@) == standing(pet::pets_of(team@)),
{
    let mut r: Vec<String> = Vec::new();
    let ghost ps = pet::pets_of(team@);
    let mut i: usize = 0;
    assert(text::texts(r@) == standing(ps.take(0)));
    while i < team.len()
        invariant
            i <= team.len(),
            ps == pet::pets_of(team@),
            text::texts(r@) == standing(ps.take(i as int)),
        decreases team.len() - i,
    {
        let ghost before = r@;
        assert(ps.take(i + 1).drop_last() == ps.take(i as int));
        assert(ps.take(i + 1).last() == team@[i as int]@);
        if team[i].cur_hp > 0 {
            r.push(team[i].name.clone());
            assert(text::texts(r@) == text::texts(before).push(team@[i as int].name@));
        }
        i = i + 1;
    }
    assert(ps.take(i as int) == ps);
    r
}

/// The health of a team, all its pets together.
pub open spec fn total_hp(team: Seq<Pet>) -> int
    decreases team.len(),
{
    if team.len() == 0 {
        0
    } else {
        total_hp(team.drop_last()) + number::greater(team.last().cur_hp, 0)
    }
}

/// The energy of a team, all its pets together.
pub open spec fn total_energy(team: Seq<Pet>) -> int
    decreases team.len(),
{
    if team.len() == 0 {
        0
    } else {
        total_energy(team.drop_last()) + number::greater(team.last().energy, 0)
    }
}

proof fn lemma_totals_grow(team: Seq<Pet>, i: int)
    requires
        0 <= i <= team.len(),
    ensures
        0 <= total_hp(team.take(i)) <= total_hp(team),
        0 <= total_energy(team.take(i)) <= total_energy(team),
    decreases team.len(),
{
    if i < team.len() {
        lemma_totals_grow(team.drop_last(), i);
        assert(team.drop_last().take(i) == team.take(i));
    } else {
        assert(team.take(i) == team);
        if i > 0 {
            lemma_totals_grow(team.drop_last(), i - 1);
        }
    }
}

/// The health of a team, all its pets together.
pub fn team_total_hp(team: &Vec<BattlePet>) -> (r: Result<i32, Overflow>)
    ensures
        (match r {
            Ok(n) => n == total_hp(pet::pets_of(team@)),
            Err(_) => !number::fits(total_hp(pet::pets_of(team@))),
        }),
{
    let ghost ps = pet::pets_of(team@);
    let mut n: i32 = 0;
    let mut i: usize = 0;
    assert(ps.take(0).len() == 0);
    while i < team.len()
        invariant
            i <= team.len(),
            ps == pet::pets_of(team@),
            n == total_hp(ps.take(i as int)),
        decreases team.len() - i,
    {
        proof {
            assert(ps.take(i + 1).drop_last() == ps.take(i as int));
            assert(ps.take(i + 1).last() == team@[i as int]@);
            lemma_totals_grow(ps, i + 1);
            lemma_totals_grow(ps, i as int);
        }
        n = number::sum(n, number::larger(team[i].cur_hp, 0))?;
        i = i + 1;
    }
    assert(ps.take(i as int) == ps);
    Ok(n)
}

/// The energy of a team, all its pets together.
pub fn team_total_energy(team: &Vec<BattlePet>) -> (r: Result<i32, Overflow>)
    ensures
        (match r {
            Ok(n) => n == total_energy(pet::pets_of(team@)),
            Err(_) => !number::fits(total_energy(pet::pets_of(team@))),
        }),
{
    let ghost ps = pet::pets_of(team@);
    let mut n: i32 = 0;
    let mut i: usize = 0;
    assert(ps.take(0).len() == 0);
    while i < team.len()
        invariant
            i <= team.len(),
            ps == pet::pets_of(team@),
            n == total_energy(ps.take(i as int)),
        decreases team.len() - i,
    {
        proof {
            assert(ps.take(i + 1).drop_last() == ps.take(i as int));
            assert(ps.take(i + 1).last() == team@[i as int]@);
            lemma_totals_grow(ps, i + 1);
            lemma_totals_grow(ps, i as int);
        }
        n = number::sum(n, number::larger(team[i].energy, 0))?;
        i = i + 1;
    }
    assert(ps.take(i as int) == ps);
    Ok(n)
}

/// Who wins: the side with more life, else with more health, else with more energy, else side A;
/// nobody where a sum that has to be compared is out of range.
pub open spec fn winner(a_life: int, b_life: int, a: Seq<Pet>, b: Seq<Pet>) -> Option<Side> {
    if a_life != b_life {
        Some(
            if a_life > b_life {
                Side::A
            } else {
                Side::B
            },
        )
    } else if !number::fits(total_hp(a)) || !number::fits(total_hp(b)) {
        None
    } else if total_hp(a) != total_hp(b) {
        Some(
            if total_hp(a) > total_hp(b) {
                Side::A
            } else {
                Side::B
            },
        )
    } else if !number::fits(total_energy(a)) || !number::fits(total_energy(b)) {
        None
    } else if total_energy(a) < total_energy(b) {
        Some(Side::B)
    } else {
        Some(Side::A)
    }
}

/// Who wins. There is no draw.
pub fn resolve_winner_no_draw(
    a_life: i32,
    b_life: i32,
    team_a: &Vec<BattlePet>,
    team_b: &Vec<BattlePet>,
) -> (r: Result<Side, Overflow>)
    ensures
        (match r {
            Ok(side) => winner(
                a_life as int,
                b_life as int,
                pet::pets_of(team_a@),
                pet::pets_of(team_b@),
            ) == Some(side),
            Err(_) => winner(
                a_life as int,
                b_life as int,
                pet::pets_of(team_a@),
                pet::pets_of(team_b@),
            ) is None,
        }),
{
    if a_life != b_life {
        return Ok(
            if a_life > b_life {
                Side::A
            } else {
                Side::B
            },
        );
    }
    let a_hp: i32 = team_total_hp(team_a)?;
    let b_hp: i32 = team_total_hp(team_b)?;
    if a_hp != b_hp {
        return Ok(
            if a_hp > b_hp {
                Side::A
            } else {
                Side::B
            },
        );
    }
    let a_energy: i32 = team_total_energy(team_a)?;
    let b_energy: i32 = team_total_energy(team_b)?;
    if a_energy < b_energy {
        return Ok(Side::B);
    }
    Ok(Side::A)
}

} // verus!
