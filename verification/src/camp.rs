//! One side of a battle: its team, who of it fights, and what the side has gathered.

use vstd::prelude::*;
use crate::field;
use crate::pet;
use crate::pet::{BattlePet, DedicationBuff, NegativeImprint, Pet, PositiveImprint};
use crate::pet_battle_patch::ElementSkillBanks;
use crate::text;

verus! {

/// A side of a battle.
#[derive(Debug)]
pub struct SideState {
    pub team: Vec<BattlePet>,
    /// The place of the pet that fights.
    pub active: usize,
    pub life: i32,
    pub negative_imprint: Option<NegativeImprint>,
    pub positive_imprint: Option<PositiveImprint>,
    pub dedication: DedicationBuff,
    /// How many counters of allies have succeeded since the count was last settled.
    pub ally_counter_bank: i32,
    pub element_banks: ElementSkillBanks,
}

/// A side of a battle, by its texts and numbers.
pub struct Camp {
    pub team: Seq<Pet>,
    pub active: int,
    pub life: int,
    pub negative: Option<NegativeImprint>,
    pub positive: Option<PositiveImprint>,
    pub dedication: DedicationBuff,
    pub bank: int,
    pub banks: ElementSkillBanks,
}

impl View for SideState {
    type V = Camp;

    open spec fn view(&self) -> Camp {
        Camp {
            team: pet::pets_of(self.team@),
            active: self.active as int,
            life: self.life as int,
            negative: self.negative_imprint,
            positive: self.positive_imprint,
            dedication: self.dedication,
            bank: self.ally_counter_bank as int,
            banks: self.element_banks,
        }
    }
}

/// Whether two teams are made up of the same pets, in the same places.
pub open spec fn same_pets(team: Seq<Pet>, before: Seq<Pet>) -> bool {
    &&& team.len() == before.len()
    &&& forall|i: int| 0 <= i < team.len() ==> (#[trigger] team[i]).same_being(before[i])
}

impl Camp {
    /// What holds of a side at every moment of a battle: its pets are well formed and have
    /// skills, and no mark or count is negative.
    pub open spec fn wf(self) -> bool {
        &&& forall|i: int|
            0 <= i < self.team.len() ==> (#[trigger] self.team[i]).wf() && self.team[i].armed()
        &&& field::negative_wf(self.negative)
        &&& field::positive_wf(self.positive)
        &&& self.dedication.wf()
        &&& self.bank >= 0
        &&& self.banks.wf()
    }

    /// Whether there is a pet that fights.
    pub open spec fn fielded(self) -> bool {
        0 <= self.active < self.team.len()
    }

    /// The pet that fights.
    pub open spec fn fighter(self) -> Pet {
        self.team[self.active]
    }

    /// Whether the side can have come of `before` in a turn: it is well formed, a pet of it
    /// fights, its life is the same, and so are its pets, in the same places.
    pub open spec fn follows(self, before: Camp) -> bool {
        &&& self.wf()
        &&& self.fielded()
        &&& self.life == before.life
        &&& same_pets(self.team, before.team)
    }

    /// The side with another pet in the place of the one that fights.
    pub open spec fn with_fighter(self, p: Pet) -> Camp {
        Camp { team: self.team.update(self.active, p), ..self }
    }
}

/// Putting another pet in a place of a team puts it there in the models too.
pub proof fn lemma_team_update(v: Seq<BattlePet>, i: int, p: BattlePet)
    requires
        0 <= i < v.len(),
    ensures
        pet::pets_of(v.update(i, p)) == pet::pets_of(v).update(i, p@),
{
    assert(pet::pets_of(v.update(i, p)) =~= pet::pets_of(v).update(i, p@));
}

/// Whether the pet in place `i` can come in for the one in place `active`.
pub open spec fn is_reserve(team: Seq<Pet>, active: int, i: int) -> bool {
    i != active && team[i].alive()
}

/// The place of the first pet from `i` on that is called `name` and can come in.
pub open spec fn target_from(team: Seq<Pet>, active: int, name: Seq<char>, i: int) -> Option<int>
    decreases team.len() - i,
{
    if i < 0 || i >= team.len() {
        None
    } else if is_reserve(team, active, i) && team[i].name == name {
        Some(i)
    } else {
        target_from(team, active, name, i + 1)
    }
}

/// The place of the pet that a switch to `name` brings in.
pub open spec fn switch_target(team: Seq<Pet>, active: int, name: Seq<char>) -> Option<int> {
    target_from(team, active, name, 0)
}

/// The places from `i` on of the pets that can come in.
pub open spec fn reserves_from(team: Seq<Pet>, active: int, i: int) -> Seq<usize>
    decreases team.len() - i,
{
    if i < 0 || i >= team.len() {
        seq![]
    } else if is_reserve(team, active, i) {
        seq![i as usize] + reserves_from(team, active, i + 1)
    } else {
        reserves_from(team, active, i + 1)
    }
}

/// The places of the pets that can come in.
pub open spec fn reserves(team: Seq<Pet>, active: int) -> Seq<usize> {
    reserves_from(team, active, 0)
}

/// The place of the pet that a switch to that name brings in.
pub fn find_switch_target(team: &Vec<BattlePet>, active: usize, target_name: &str) -> (r: Option<
    usize,
>)
    ensures
        (match r {
            Some(i) => switch_target(pet::pets_of(team@), active as int, target_name@) == Some(
                i as int,
            ) && i < team.len() && i != active && team@[i as int]@.alive(),
            None => switch_target(pet::pets_of(team@), active as int, target_name@) is None,
        }),
{
    let mut i: usize = 0;
    let ghost pets = pet::pets_of(team@);
    while i < team.len()
        invariant
            i <= team.len(),
            pets == pet::pets_of(team@),
            switch_target(pets, active as int, target_name@) == target_from(
                pets,
                active as int,
                target_name@,
                i as int,
            ),
        decreases team.len() - i,
    {
        assert(pets[i as int] == team@[i as int]@);
        if i != active && team[i].cur_hp > 0 && text::same(team[i].name.as_str(), target_name) {
            return Some(i);
        }
        i = i + 1;
    }
    None
}

/// The places of the pets that can come in.
pub fn reserve_indices(team: &Vec<BattlePet>, active: usize) -> (r: Vec<usize>)
    ensures
        r@ == reserves(pet::pets_of(team@), active as int),
        forall|k: int|
            0 <= k < r.len() ==> (#[trigger] r@[k]) < team.len() && r@[k] != active
                && team@[r@[k] as int]@.alive(),
{
    let mut out: Vec<usize> = Vec::new();
    let mut i: usize = 0;
    let ghost pets = pet::pets_of(team@);
    assert(Seq::<usize>::empty() + reserves(pets, active as int) == reserves(pets, active as int));
    while i < team.len()
        invariant
            i <= team.len(),
            pets == pet::pets_of(team@),
            reserves(pets, active as int) == out@ + reserves_from(pets, active as int, i as int),
            forall|k: int|
                0 <= k < out.len() ==> (#[trigger] out@[k]) < team.len() && out@[k] != active
                    && team@[out@[k] as int]@.alive(),
        decreases team.len() - i,
    {
        assert(pets[i as int] == team@[i as int]@);
        if i != active && team[i].cur_hp > 0 {
            let ghost before = out@;
            let ghost rest = reserves_from(pets, active as int, i + 1);
            out.push(i);
            assert(before + (seq![i] + rest) == before.push(i) + rest);
        }
        i = i + 1;
    }
    assert(out@ + Seq::<usize>::empty() == out@);
    out
}

/// The place of the first pet from `i` on that still stands.
pub open spec fn alive_from(team: Seq<Pet>, i: int) -> Option<int>
    decreases team.len() - i,
{
    if i < 0 || i >= team.len() {
        None
    } else if team[i].alive() {
        Some(i)
    } else {
        alive_from(team, i + 1)
    }
}

/// The place of the first pet that still stands.
pub fn first_alive_index(team: &Vec<BattlePet>) -> (r: Option<usize>)
    ensures
        (match r {
            Some(i) => alive_from(pet::pets_of(team@), 0) == Some(i as int) && i < team.len()
                && team@[i as int]@.alive(),
            None => alive_from(pet::pets_of(team@), 0) is None,
        }),
{
    let mut i: usize = 0;
    let ghost pets = pet::pets_of(team@);
    while i < team.len()
        invariant
            i <= team.len(),
            pets == pet::pets_of(team@),
            alive_from(pets, 0) == alive_from(pets, i as int),
        decreases team.len() - i,
    {
        assert(pets[i as int] == team@[i as int]@);
        if team[i].cur_hp > 0 {
            return Some(i);
        }
        i = i + 1;
    }
    None
}

} // verus!
