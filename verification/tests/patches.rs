use roco_battle::field::{
    apply_element_skill_bank_on_entry, apply_entry_effects, tally_element_skill_use_for_side,
    team_should_tally_element_skill_use,
};
use roco_battle::log::BattleLog;
use roco_battle::pet::{BattlePet, BattleSkill, EffortValues, Side};
use roco_battle::pet_battle_patch::{
    default_energy_per_element_use, ElementSkillBankRule, ElementSkillBanks, PetBattlePatchEntry, PetBattlePatchTable,
    DEFAULT_PATCH_PATH,
};

fn skill(name: &str, element: &str, category: &str, cost: i32, power: i32, effect: &str) -> BattleSkill {
    BattleSkill {
        name: name.to_string(),
        element: element.to_string(),
        category: category.to_string(),
        cost,
        power,
        effect: effect.to_string(),
    }
}

fn pet(name: &str) -> BattlePet {
    BattlePet {
        name: name.to_string(),
        level: 60,
        nature: "认真".to_string(),
        ability: String::new(),
        ability_desc: String::new(),
        element1: "普通".to_string(),
        element2: None,
        hp: 300,
        cur_hp: 300,
        speed: 100,
        patk: 100,
        pdef: 100,
        matk: 100,
        mdef: 100,
        energy: 10,
        energy_cap: 10,
        poison_layers: 0,
        burn_layers: 0,
        freeze_layers: 0,
        parasitic_layers: 0,
        frozen_hp_locked: 0,
        charging_skill: None,
        entry_bonus_power: 0,
        entry_leave_immune: false,
        morph_stage: 0,
        effort: EffortValues { hp: 0, patk: 0, matk: 0, pdef: 0, mdef: 0, speed: 0 },
        skills: vec![skill("撞击", "普通", "物攻", 2, 60, "")],
    }
}

fn patch(name: &str) -> PetBattlePatchEntry {
    PetBattlePatchEntry {
        pet_name: name.to_string(),
        initial_energy: None,
        allow_over_max_energy: false,
        energy_cap: None,
        on_entry_energy_per_prior_ally_counter: None,
        on_entry_per_element_skill_bank: None,
    }
}

fn rule(element: &str, energy: i32, exclude: bool) -> Option<ElementSkillBankRule> {
    Some(ElementSkillBankRule {
        element: element.to_string(),
        energy_per_use: energy,
        exclude_self_as_attacker: exclude,
    })
}

fn enter(p: &mut BattlePet, table: &PetBattlePatchTable, bank: &mut i32, banks: &mut ElementSkillBanks) -> String {
    let mut log = BattleLog::new();
    apply_entry_effects(Side::A, p, None, None, table, bank, banks, &mut log).unwrap();
    log.history
}

#[test]
fn the_later_patch_of_a_name_counts() {
    let table = PetBattlePatchTable::from_entries(vec![
        PetBattlePatchEntry { initial_energy: Some(1), ..patch("甲") },
        patch("乙"),
        PetBattlePatchEntry { initial_energy: Some(2), ..patch("甲") },
    ]);
    assert_eq!(table.get("甲").unwrap().initial_energy, Some(2));
    assert_eq!(table.get("乙").unwrap().initial_energy, None);
    assert!(table.get("丙").is_none());
    assert!(PetBattlePatchTable::load_or_empty(Ok(table)).get("甲").is_some());
    assert!(PetBattlePatchTable::load_or_empty(Err("坏了".to_string())).get("甲").is_none());
}

#[test]
fn defaults() {
    assert_eq!(DEFAULT_PATCH_PATH, "data/pet-battle-patch.json");
    assert_eq!(default_energy_per_element_use(), 3);
    let b = ElementSkillBanks::default();
    assert_eq!((b.ice, b.fire, b.earth), (0, 0, 0));
}

#[test]
fn successful_counters_are_settled_on_entry() {
    let table = PetBattlePatchTable::from_entries(vec![PetBattlePatchEntry {
        on_entry_energy_per_prior_ally_counter: Some(2),
        ..patch("甲")
    }]);
    assert!(table.is_ally_counter_bank_receiver("甲"));
    assert!(!table.is_ally_counter_bank_receiver("乙"));
    let (mut bank, mut banks) = (3, ElementSkillBanks::default());
    let mut p = pet("甲");
    p.energy = 1;
    assert_eq!(
        enter(&mut p, &table, &mut bank, &mut banks),
        "A方 甲 入场：己方应对成功累计 3 次，按特性回复 6 能量（当前7）。\n"
    );
    assert_eq!((p.energy, bank), (7, 0));
    assert_eq!(enter(&mut p, &table, &mut bank, &mut banks), "");
    bank = 5;
    let mut q = pet("乙");
    assert_eq!(enter(&mut q, &table, &mut bank, &mut banks), "");
    assert_eq!(bank, 5);
}

#[test]
fn a_patch_that_gives_nothing_still_clears_its_count() {
    let table = PetBattlePatchTable::from_entries(vec![PetBattlePatchEntry {
        on_entry_energy_per_prior_ally_counter: Some(0),
        on_entry_per_element_skill_bank: rule("冰", 0, false),
        ..patch("甲")
    }]);
    let (mut bank, mut banks) = (3, ElementSkillBanks { ice: 2, fire: 1, earth: 0 });
    let mut p = pet("甲");
    assert_eq!(enter(&mut p, &table, &mut bank, &mut banks), "");
    assert_eq!((bank, banks.ice, banks.fire), (0, 0, 1));
}

#[test]
fn gains_stop_at_the_limits() {
    let table = PetBattlePatchTable::from_entries(vec![PetBattlePatchEntry {
        on_entry_energy_per_prior_ally_counter: Some(-5),
        ..patch("甲")
    }]);
    let (mut bank, mut banks) = (3, ElementSkillBanks::default());
    let mut p = pet("甲");
    enter(&mut p, &table, &mut bank, &mut banks);
    assert_eq!(p.energy, 0);
    let table = PetBattlePatchTable::from_entries(vec![PetBattlePatchEntry {
        on_entry_energy_per_prior_ally_counter: Some(i32::MAX),
        ..patch("甲")
    }]);
    bank = i32::MAX;
    let mut log = BattleLog::new();
    let r = apply_entry_effects(Side::A, &mut p, None, None, &table, &mut bank, &mut banks, &mut log);
    assert!(r.is_ok() && p.energy == 10);
    bank = 1;
    let r = apply_entry_effects(Side::A, &mut p, None, None, &table, &mut bank, &mut banks, &mut log);
    assert!(r.is_err());
}

#[test]
fn uses_of_an_element_are_settled_on_entry() {
    let e = PetBattlePatchEntry { on_entry_per_element_skill_bank: rule("火", 3, false), ..patch("甲") };
    let mut banks = ElementSkillBanks { ice: 1, fire: 2, earth: 3 };
    let mut p = pet("甲");
    p.energy = 0;
    let mut log = BattleLog::new();
    apply_element_skill_bank_on_entry(Side::B, &mut p, &e, &mut banks, &mut log).unwrap();
    assert_eq!((p.energy, banks.ice, banks.fire, banks.earth), (6, 1, 0, 3));
    assert_eq!(log.history, "B方 甲 入场：己方火系技能累计 2 次，按特性回复 6 能量（当前6）。\n");
    let e = PetBattlePatchEntry { on_entry_per_element_skill_bank: rule("水", 3, false), ..patch("甲") };
    apply_element_skill_bank_on_entry(Side::B, &mut p, &e, &mut banks, &mut log).unwrap();
    assert_eq!((p.energy, banks.ice, banks.earth), (6, 1, 3));
}

#[test]
fn uses_count_where_a_pet_waits_for_them() {
    let table = PetBattlePatchTable::from_entries(vec![
        PetBattlePatchEntry { on_entry_per_element_skill_bank: rule("地", 3, true), ..patch("甲") },
        PetBattlePatchEntry { on_entry_per_element_skill_bank: rule("水", 3, false), ..patch("乙") },
    ]);
    let mut team = vec![pet("甲"), pet("乙")];
    assert!(team_should_tally_element_skill_use(&table, &team, "乙", "地"));
    // its own uses are left out
    assert!(!team_should_tally_element_skill_use(&table, &team, "甲", "地"));
    // no pet waits for it, or it is not one of the three
    assert!(!team_should_tally_element_skill_use(&table, &team, "乙", "火"));
    assert!(!team_should_tally_element_skill_use(&table, &team, "甲", "水"));
    let mut banks = ElementSkillBanks::default();
    tally_element_skill_use_for_side(&team, "乙", "地", &mut banks, &table);
    tally_element_skill_use_for_side(&team, "甲", "地", &mut banks, &table);
    assert_eq!((banks.ice, banks.fire, banks.earth), (0, 0, 1));
    banks.earth = i32::MAX;
    tally_element_skill_use_for_side(&team, "乙", "地", &mut banks, &table);
    assert_eq!(banks.earth, i32::MAX);
    // a fallen pet waits for nothing
    team[0].cur_hp = 0;
    assert!(!team_should_tally_element_skill_use(&table, &team, "乙", "地"));
}
