//! Patches: what single pets have of their own, beyond the common rules.

use vstd::prelude::*;
use crate::named;
use crate::text;

verus! {

/// The file that patches are read from.
pub const DEFAULT_PATCH_PATH: &'static str = "data/pet-battle-patch.json";

/// How often a side has used skills of an element, counted for ice, fire and earth. A pet whose
/// patch has a rule for the element settles the count when it enters, and sets it to zero.
#[derive(Debug, Clone, Copy)]
pub struct ElementSkillBanks {
    pub ice: i32,
    pub fire: i32,
    pub earth: i32,
}

impl ElementSkillBanks {
    pub open spec fn zero() -> ElementSkillBanks {
        ElementSkillBanks { ice: 0, fire: 0, earth: 0 }
    }

    /// No count is negative.
    pub open spec fn wf(self) -> bool {
        self.ice >= 0 && self.fire >= 0 && self.earth >= 0
    }

    /// The count for an element; zero for one that is not counted.
    pub open spec fn of(self, element: Seq<char>) -> int {
        if element == "冰"@ {
            self.ice as int
        } else if element == "火"@ {
            self.fire as int
        } else if element == "地"@ {
            self.earth as int
        } else {
            0
        }
    }

    /// The counts after that for `element` has become `n`.
    pub open spec fn with(self, element: Seq<char>, n: int) -> ElementSkillBanks {
        if element == "冰"@ {
            ElementSkillBanks { ice: n as i32, ..self }
        } else if element == "火"@ {
            ElementSkillBanks { fire: n as i32, ..self }
        } else if element == "地"@ {
            ElementSkillBanks { earth: n as i32, ..self }
        } else {
            self
        }
    }

    /// The count for an element.
    pub fn count(&self, element: &str) -> (r: i32)
        ensures
            r == self.of(element@),
    {
        if text::same(element, "冰") {
            self.ice
        } else if text::same(element, "火") {
            self.fire
        } else if text::same(element, "地") {
            self.earth
        } else {
            0
        }
    }

    /// Makes `n` the count for an element.
    pub fn set_count(&mut self, element: &str, n: i32)
        ensures
            *final(self) == old(self).with(element@, n as int),
    {
        if text::same(element, "冰") {
            self.ice = n;
        } else if text::same(element, "火") {
            self.fire = n;
        } else if text::same(element, "地") {
            self.earth = n;
        }
    }
}

impl Default for ElementSkillBanks {
    fn default() -> (r: Self)
        ensures
            r == ElementSkillBanks::zero(),
    {
        ElementSkillBanks { ice: 0, fire: 0, earth: 0 }
    }
}

/// Energy that a pet gains when it enters, for each counted use of an element.
#[derive(Debug, Clone)]
pub struct ElementSkillBankRule {
    pub element: String,
    pub energy_per_use: i32,
    /// Whether the pet's own uses of the element are left out of the count.
    pub exclude_self_as_attacker: bool,
}

/// The energy per use where a patch does not give it.
pub fn default_energy_per_element_use() -> (r: i32)
    ensures
        r == 3,
{
    3
}

/// The patch of one pet.
#[derive(Debug, Clone)]
pub struct PetBattlePatchEntry {
    pub pet_name: String,
    pub initial_energy: Option<i32>,
    /// Whether the energy may go beyond the usual limit; `energy_cap` is then the limit, or 99.
    pub allow_over_max_energy: bool,
    pub energy_cap: Option<i32>,
    /// On entry: the energy rises by this for each counted successful counter of an ally, and the
    /// count becomes zero.
    pub on_entry_energy_per_prior_ally_counter: Option<i32>,
    /// On entry: the energy rises by the rule's amount for each counted use of its element, and
    /// the count becomes zero.
    pub on_entry_per_element_skill_bank: Option<ElementSkillBankRule>,
}

/// A rule on element uses, by its text and numbers.
pub struct BankRule {
    pub element: Seq<char>,
    pub energy_per_use: int,
    pub exclude_self: bool,
}

/// The patch of one pet, by its texts and numbers.
pub struct Patch {
    pub pet_name: Seq<char>,
    pub initial_energy: Option<i32>,
    pub allow_over_max_energy: bool,
    pub energy_cap: Option<i32>,
    pub per_ally_counter: Option<i32>,
    pub per_element: Option<BankRule>,
}

impl View for ElementSkillBankRule {
    type V = BankRule;

    open spec fn view(&self) -> BankRule {
        BankRule {
            element: self.element@,
            energy_per_use: self.energy_per_use as int,
            exclude_self: self.exclude_self_as_attacker,
        }
    }
}

impl View for PetBattlePatchEntry {
    type V = Patch;

    open spec fn view(&self) -> Patch {
        Patch {
            pet_name: self.pet_name@,
            initial_energy: self.initial_energy,
            allow_over_max_energy: self.allow_over_max_energy,
            energy_cap: self.energy_cap,
            per_ally_counter: self.on_entry_energy_per_prior_ally_counter,
            per_element: match self.on_entry_per_element_skill_bank {
                Some(rule) => Some(rule@),
                None => None,
            },
        }
    }
}

/// The patches of all pets that have one.
#[derive(Debug, Clone)]
pub struct PetBattlePatchTable {
    entries: Vec<PetBattlePatchEntry>,
}

/// Patches, each under the name of its pet.
pub open spec fn patch_pairs(es: Seq<PetBattlePatchEntry>) -> Seq<(Seq<char>, Patch)> {
    es.map_values(|e: PetBattlePatchEntry| (e@.pet_name, e@))
}

/// The patch of a pet, if it has one.
pub open spec fn patch_of(table: Map<Seq<char>, Patch>, pet_name: Seq<char>) -> Option<Patch> {
    if table.contains_key(pet_name) {
        Some(table[pet_name])
    } else {
        None
    }
}

/// Whether a pet settles the count of successful counters when it enters.
pub open spec fn settles_counters(table: Map<Seq<char>, Patch>, pet_name: Seq<char>) -> bool {
    patch_of(table, pet_name) matches Some(p) && p.per_ally_counter is Some
}

impl View for PetBattlePatchTable {
    type V = Map<Seq<char>, Patch>;

    closed spec fn view(&self) -> Map<Seq<char>, Patch> {
        named::map_of(patch_pairs(self.entries@))
    }
}

impl PetBattlePatchTable {
    /// The table of the given patches; of two patches of one pet the later one counts.
    pub fn from_entries(entries: Vec<PetBattlePatchEntry>) -> (r: Self)
        ensures
            r@ == named::map_of(patch_pairs(entries@)),
    {
        PetBattlePatchTable { entries }
    }

    /// The table that was loaded, or one without patches where loading failed.
    pub fn load_or_empty(loaded: Result<PetBattlePatchTable, String>) -> (r: Self)
        ensures
            (match loaded {
                Ok(table) => r@ == table@,
                Err(_) => r@ == Map::<Seq<char>, Patch>::empty(),
            }),
    {
        match loaded {
            Ok(table) => table,
            Err(_) => PetBattlePatchTable { entries: Vec::new() },
        }
    }

    /// The patch of a pet.
    pub fn get(&self, pet_name: &str) -> (r: Option<&PetBattlePatchEntry>)
        ensures
            (match r {
                Some(e) => patch_of(self@, pet_name@) == Some(e@) && e@.pet_name == pet_name@,
                None => patch_of(self@, pet_name@) is None,
            }),
    {
        let mut i: usize = self.entries.len();
        let ghost pairs = patch_pairs(self.entries@);
        while i > 0
            invariant
                i <= self.entries.len(),
                pairs == patch_pairs(self.entries@),
                forall|j: int| i <= j < pairs.len() ==> (#[trigger] pairs[j]).0 != pet_name@,
            decreases i,
        {
            i = i - 1;
            if text::same(self.entries[i].pet_name.as_str(), pet_name) {
                proof {
                    assert(pairs[i as int].0 == pet_name@);
                    named::lemma_map_of_last(pairs, pet_name@, i as int);
                }
                return Some(&self.entries[i]);
            }
        }
        proof {
            named::lemma_map_of_none(pairs, pet_name@);
        }
        None
    }

    /// Whether the pet settles the count of successful counters when it enters; such a pet adds
    /// nothing to that count itself.
    pub fn is_ally_counter_bank_receiver(&self, pet_name: &str) -> (r: bool)
        ensures
            r == settles_counters(self@, pet_name@),
    {
        match self.get(pet_name) {
            Some(e) => e.on_entry_energy_per_prior_ally_counter.is_some(),
            None => false,
        }
    }
}

} // verus!
