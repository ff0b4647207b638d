use roco_battle::action::{execute_decision, process_leave_keywords, trigger_swift_on_entry};
use roco_battle::attack::{dedication_applies_to_skill, resolve_one_attack};
use roco_battle::camp::{find_switch_target, first_alive_index, reserve_indices, SideState};
use roco_battle::dedication::{add_dedication_by_index, apply_dedication_gain_from_effect, dedication_kind_name};
use roco_battle::effects::{calc_skill_cost, extract_layers, extract_multi_hit};
use roco_battle::elements::{
    is_immune_to_burn, is_immune_to_freeze, is_immune_to_parasite, is_immune_to_poison, normalize_nature_name,
    type_chart,
};
use roco_battle::field::{
    add_energy_clamped, apply_entry_effects, apply_field_imprint_from_skill, apply_positive_imprint_end_turn,
    set_negative_imprint, set_positive_imprint,
};
use roco_battle::log::BattleLog;
use roco_battle::number::Overflow;
use roco_battle::pet::{
    BattlePet, BattleSkill, Decision, DedicationBuff, EffortValues, NegativeImprint, NegativeImprintKind,
    PositiveImprint, PositiveImprintKind, Side, WeatherKind, WeatherState,
};
use roco_battle::pet_battle_patch::{ElementSkillBanks, PetBattlePatchTable};
use roco_battle::status::{
    apply_end_turn_status, apply_status_from_skill, clear_switch_cleared_status, recompute_frozen_hp_lock,
};
use roco_battle::weather::{apply_weather_end_turn, apply_weather_from_skill};

fn skill(name: &str, element: &str, category: &str, cost: i32, power: i32, effect: &str) -> BattleSkill {
    BattleSkill {
        name: name.to_string(),
        element: element.to_string(),
        category: category.to_string(),
        cost,
        power,
        effect: effect.to_string(),
    }
}

fn pet(name: &str) -> BattlePet {
    BattlePet {
        name: name.to_string(),
        level: 60,
        nature: "认真".to_string(),
        ability: String::new(),
        ability_desc: String::new(),
        element1: "普通".to_string(),
        element2: None,
        hp: 300,
        cur_hp: 300,
        speed: 100,
        patk: 100,
        pdef: 100,
        matk: 100,
        mdef: 100,
        energy: 10,
        energy_cap: 10,
        poison_layers: 0,
        burn_layers: 0,
        freeze_layers: 0,
        parasitic_layers: 0,
        frozen_hp_locked: 0,
        charging_skill: None,
        entry_bonus_power: 0,
        entry_leave_immune: false,
        morph_stage: 0,
        effort: EffortValues { hp: 0, patk: 0, matk: 0, pdef: 0, mdef: 0, speed: 0 },
        skills: vec![skill("撞击", "普通", "物攻", 2, 60, "")],
    }
}

fn knowing(name: &str, s: BattleSkill) -> BattlePet {
    let mut p = pet(name);
    p.skills = vec![s];
    p
}

fn side_of(team: Vec<BattlePet>) -> SideState {
    SideState {
        team,
        active: 0,
        life: 4,
        negative_imprint: None,
        positive_imprint: None,
        dedication: DedicationBuff::default(),
        ally_counter_bank: 0,
        element_banks: ElementSkillBanks::default(),
    }
}

fn no_patches() -> PetBattlePatchTable {
    PetBattlePatchTable::from_entries(Vec::new())
}

// Effects in text.

#[test]
fn layers_are_the_digits_in_front_of_the_word() {
    assert_eq!(extract_layers("使敌方获得3层中毒", "层中毒"), Some(3));
    assert_eq!(extract_layers("12层灼烧，3层灼烧", "层灼烧"), Some(12));
    assert_eq!(extract_layers("层中毒", "层中毒"), None);
    assert_eq!(extract_layers("几层中毒", "层中毒"), None);
    assert_eq!(extract_layers("没有", "层中毒"), None);
    assert_eq!(extract_layers("99999999999层中毒", "层中毒"), None);
    assert_eq!(extract_layers("-5层中毒", "层中毒"), Some(5));
}

#[test]
fn hits_of_a_skill() {
    assert_eq!(extract_multi_hit("造成伤害"), 1);
    assert_eq!(extract_multi_hit("3次攻击"), 1);
    assert_eq!(extract_multi_hit("连击：3次攻击"), 3);
    assert_eq!(extract_multi_hit("4连击"), 4);
    assert_eq!(extract_multi_hit("0连击"), 1);
    assert_eq!(extract_multi_hit("连击"), 2);
}

#[test]
fn costs_in_a_sandstorm() {
    let sand = Some(WeatherState { kind: WeatherKind::Sandstorm, remain_turns: 2 });
    let rain = Some(WeatherState { kind: WeatherKind::Rain, remain_turns: 2 });
    let s = skill("落石", "地", "物攻", 5, 60, "");
    assert_eq!(calc_skill_cost(&s, &sand), 3);
    assert_eq!(calc_skill_cost(&s, &rain), 5);
    assert_eq!(calc_skill_cost(&s, &None), 5);
    assert_eq!(calc_skill_cost(&skill("水枪", "水", "物攻", 5, 60, ""), &sand), 5);
    assert_eq!(calc_skill_cost(&skill("重压", "地", "物攻", i32::MAX, 60, ""), &sand), 1073741824);
}

// Elements and natures.

#[test]
fn rows_of_the_chart() {
    let row = type_chart("武");
    assert_eq!(row.strong, vec!["普通", "地", "冰", "恶", "机械"]);
    assert_eq!(row.resist, vec!["毒", "虫", "翼", "萌", "幽", "幻"]);
    let row = type_chart("无");
    assert!(row.strong.is_empty() && row.resist.is_empty());
    let row = type_chart("不存在");
    assert!(row.strong.is_empty() && row.resist.is_empty());
}

#[test]
fn natures_are_normalized() {
    assert_eq!(normalize_nature_name(" 胆小 "), "胆小");
    assert_eq!(normalize_nature_name("浮躁"), "浮躁");
    assert_eq!(normalize_nature_name("勇猛"), "认真");
    assert_eq!(normalize_nature_name(""), "认真");
}

#[test]
fn elements_make_immune() {
    let mut p = pet("甲");
    assert!(!is_immune_to_poison(&p) && !is_immune_to_burn(&p) && !is_immune_to_freeze(&p) && !is_immune_to_parasite(&p));
    p.element1 = "毒".to_string();
    p.element2 = Some("火".to_string());
    assert!(is_immune_to_poison(&p) && is_immune_to_burn(&p));
    p.element1 = "冰".to_string();
    p.element2 = Some("草".to_string());
    assert!(is_immune_to_freeze(&p) && is_immune_to_parasite(&p));
}

// States.

#[test]
fn states_of_an_effect() {
    let mut d = pet("乙");
    let mut log = BattleLog::new();
    let s = skill("毒雾", "毒", "状态", 2, 0, "3层中毒，灼烧，2层冻结，4层寄生，萌化");
    apply_status_from_skill(&mut d, &s, &mut log).unwrap();
    assert_eq!(d.poison_layers, 3);
    assert_eq!(d.burn_layers, 1);
    assert_eq!(d.freeze_layers, 2);
    assert_eq!(d.parasitic_layers, 4);
    assert_eq!(d.morph_stage, 1);
    // a twentieth of 300 for each layer
    assert_eq!(d.frozen_hp_locked, 30);
    assert_eq!(d.cur_hp, 270);
    assert_eq!(
        log.history,
        "乙 获得 3 层中毒。\n乙 获得 1 层灼烧。\n乙 获得 2 层冻结，冻结生命值 30（当前可用上限 270/300）。\n\
         乙 获得 4 层寄生。\n乙 受到萌化，当前形态阶段 1，种族值系数 0.8。\n"
    );
    apply_status_from_skill(&mut d, &skill("变", "萌", "状态", 2, 0, "萌化"), &mut log).unwrap();
    assert!(log.history.ends_with("乙 受到萌化，当前形态阶段 2，种族值系数 0.6。\n"));
    apply_status_from_skill(&mut d, &skill("变", "萌", "状态", 2, 0, "萌化"), &mut log).unwrap();
    assert!(log.history.ends_with("乙 已处于最低形态，萌化不再继续生效。\n"));
    assert_eq!(d.morph_stage, 2);
}

#[test]
fn immune_pets_are_spared() {
    let mut d = pet("乙");
    d.element1 = "毒".to_string();
    d.element2 = Some("草".to_string());
    let mut log = BattleLog::new();
    let s = skill("毒雾", "毒", "状态", 2, 0, "3层中毒，4层寄生");
    apply_status_from_skill(&mut d, &s, &mut log).unwrap();
    assert_eq!((d.poison_layers, d.parasitic_layers), (0, 0));
    assert_eq!(log.history, "乙 免疫寄生（草系免疫）。\n");
    let mut d = pet("丙");
    d.element1 = "火".to_string();
    d.element2 = Some("冰".to_string());
    apply_status_from_skill(&mut d, &skill("双", "普通", "状态", 2, 0, "灼烧，冻结"), &mut log).unwrap();
    assert_eq!((d.burn_layers, d.freeze_layers), (0, 0));
}

#[test]
fn layers_out_of_range_are_refused() {
    let mut d = pet("乙");
    d.poison_layers = i32::MAX;
    let mut log = BattleLog::new();
    assert!(matches!(apply_status_from_skill(&mut d, &skill("毒", "毒", "状态", 2, 0, "中毒"), &mut log), Err(Overflow)));
}

#[test]
fn poison_burning_and_parasites_at_the_end_of_a_round() {
    let mut p = pet("甲");
    let mut o = pet("乙");
    o.cur_hp = 100;
    p.poison_layers = 2;
    p.burn_layers = 5;
    p.parasitic_layers = 1;
    let mut log = BattleLog::new();
    apply_end_turn_status(&mut p, &mut o, &mut log).unwrap();
    // 9 * 2 of poison, 6 * 5 of burning, 18 of parasites
    assert_eq!(p.cur_hp, 300 - 18 - 30 - 18);
    assert_eq!(o.cur_hp, 118);
    assert_eq!((p.poison_layers, p.burn_layers, p.parasitic_layers), (2, 2, 1));
    assert_eq!(
        log.history,
        "甲 受到中毒(2层)结算伤害 18，剩余 HP 282/300\n甲 受到灼烧(5层)结算伤害 30，剩余 HP 252/300\n\
         甲 受到寄生(1层)结算伤害 18，剩余 HP 234/300\n"
    );
}

#[test]
fn burning_fades_by_half_rounded_up() {
    let mut log = BattleLog::new();
    for (before, after) in [(1, 0), (2, 1), (3, 1), (4, 2), (7, 3)] {
        let mut p = pet("甲");
        let mut o = pet("乙");
        p.burn_layers = before;
        apply_end_turn_status(&mut p, &mut o, &mut log).unwrap();
        assert_eq!(p.burn_layers, after);
    }
}

#[test]
fn a_tick_takes_a_point_at_least() {
    let mut p = pet("甲");
    p.hp = 10;
    p.cur_hp = 10;
    p.poison_layers = 1;
    let mut log = BattleLog::new();
    let mut o = pet("乙");
    apply_end_turn_status(&mut p, &mut o, &mut log).unwrap();
    assert_eq!(p.cur_hp, 9);
    assert_eq!(log.history, "甲 受到中毒(1层)结算伤害 1，剩余 HP 9/10\n");
}

#[test]
fn a_fallen_pet_does_not_tick() {
    let mut p = pet("甲");
    p.cur_hp = 0;
    p.poison_layers = 3;
    let mut o = pet("乙");
    let mut log = BattleLog::new();
    apply_end_turn_status(&mut p, &mut o, &mut log).unwrap();
    assert_eq!(log.history, "");
}

#[test]
fn freezing_never_locks_the_last_point() {
    let mut p = pet("甲");
    p.freeze_layers = 1000;
    recompute_frozen_hp_lock(&mut p).unwrap();
    assert_eq!(p.frozen_hp_locked, 299);
    assert_eq!(p.cur_hp, 1);
    p.freeze_layers = i32::MAX;
    assert!(recompute_frozen_hp_lock(&mut p).is_err());
}

#[test]
fn leaving_clears_some_states_only() {
    let mut p = pet("甲");
    p.poison_layers = 1;
    p.burn_layers = 2;
    p.parasitic_layers = 3;
    p.freeze_layers = 4;
    p.morph_stage = 1;
    p.energy = 3;
    clear_switch_cleared_status(&mut p);
    assert_eq!((p.poison_layers, p.burn_layers, p.parasitic_layers), (0, 0, 0));
    assert_eq!((p.freeze_layers, p.morph_stage, p.energy), (4, 1, 3));
}

// Weather.

#[test]
fn weather_lasts_for_eight_rounds() {
    let mut w = None;
    let mut log = BattleLog::new();
    apply_weather_from_skill(&mut w, &skill("祈雨", "水", "状态", 2, 0, "使天气变为下雨"), &mut log);
    assert_eq!(log.history, "天气变为 [下雨]，持续 8 回合。\n");
    let (mut a, mut b) = (pet("甲"), pet("乙"));
    for left in (1..8).rev() {
        apply_weather_end_turn(&mut w, &mut a, &mut b, &mut log).unwrap();
        let x = w.unwrap();
        assert!(x.kind == WeatherKind::Rain && x.remain_turns == left);
    }
    apply_weather_end_turn(&mut w, &mut a, &mut b, &mut log).unwrap();
    assert!(w.is_none());
    assert!(log.history.ends_with("天气效果结束。\n"));
}

#[test]
fn a_blizzard_freezes_both_sides() {
    let mut w = Some(WeatherState { kind: WeatherKind::Blizzard, remain_turns: 2 });
    let (mut a, mut b) = (pet("甲"), pet("乙"));
    b.element2 = Some("冰".to_string());
    let mut log = BattleLog::new();
    apply_weather_end_turn(&mut w, &mut a, &mut b, &mut log).unwrap();
    assert_eq!((a.freeze_layers, b.freeze_layers), (2, 0));
    assert_eq!((a.frozen_hp_locked, a.cur_hp), (30, 270));
    assert_eq!(
        log.history,
        "暴风雪：双方各获得2层冻结（冰系免疫）。\n甲 的冻结生命值提升至 30（当前可用上限 270/300）。\n"
    );
}

#[test]
fn the_first_weather_that_an_effect_names_counts() {
    let mut w = Some(WeatherState { kind: WeatherKind::Rain, remain_turns: 1 });
    let mut log = BattleLog::new();
    apply_weather_from_skill(&mut w, &skill("变天", "冰", "状态", 2, 0, "暴风雪，沙暴"), &mut log);
    assert!(w.unwrap().kind == WeatherKind::Sandstorm);
    apply_weather_from_skill(&mut w, &skill("无", "冰", "状态", 2, 0, ""), &mut log);
    assert_eq!(w.unwrap().remain_turns, 8);
}

// Marks.

#[test]
fn marks_add_up_or_replace() {
    let mut slot = None;
    set_negative_imprint(&mut slot, NegativeImprintKind::Thorn, 2).unwrap();
    set_negative_imprint(&mut slot, NegativeImprintKind::Thorn, 3).unwrap();
    assert_eq!(slot.unwrap().layers, 5);
    set_negative_imprint(&mut slot, NegativeImprintKind::Descend, 1).unwrap();
    assert!(slot.unwrap().kind == NegativeImprintKind::Descend && slot.unwrap().layers == 1);
    set_negative_imprint(&mut slot, NegativeImprintKind::Thorn, 0).unwrap();
    assert!(slot.unwrap().kind == NegativeImprintKind::Descend);
    assert!(set_negative_imprint(&mut slot, NegativeImprintKind::Descend, i32::MAX).is_err());
    let mut slot = None;
    set_positive_imprint(&mut slot, PositiveImprintKind::Charge, 2).unwrap();
    set_positive_imprint(&mut slot, PositiveImprintKind::Photosynthesis, 4).unwrap();
    assert!(slot.unwrap().kind == PositiveImprintKind::Photosynthesis && slot.unwrap().layers == 4);
}

#[test]
fn marks_of_an_effect() {
    let p = knowing("甲", skill("布阵", "草", "状态", 2, 0, "2层棘刺，蓄电"));
    let (mut neg, mut pos) = (None, None);
    let mut log = BattleLog::new();
    apply_field_imprint_from_skill(&p, "布阵", &mut neg, &mut pos, &mut log).unwrap();
    assert!(neg.unwrap().kind == NegativeImprintKind::Thorn && neg.unwrap().layers == 2);
    assert!(pos.unwrap().kind == PositiveImprintKind::Charge && pos.unwrap().layers == 1);
    assert_eq!(
        log.history,
        "场地印记：对方获得 2 层棘刺（入场受伤）。\n场地印记：本方获得 1 层蓄电（入场首回合威力+10/层）。\n"
    );
    let q = knowing("甲", skill("布阵", "草", "状态", 2, 0, "降灵，3层光合"));
    apply_field_imprint_from_skill(&q, "布阵", &mut neg, &mut pos, &mut log).unwrap();
    assert!(log.history.ends_with(
        "场地印记：对方获得 1 层降灵（入场扣能）。\n场地印记：本方获得 3 层光合（回合结束每层回复1点能量）。\n"
    ));
    apply_field_imprint_from_skill(&q, "没有", &mut neg, &mut pos, &mut log).unwrap();
    assert!(neg.unwrap().layers == 1 && pos.unwrap().layers == 3);
}

#[test]
fn marks_meet_whoever_enters() {
    let mut p = pet("甲");
    let mut log = BattleLog::new();
    let (mut bank, mut banks) = (0, ElementSkillBanks::default());
    apply_entry_effects(
        Side::A,
        &mut p,
        Some(NegativeImprint { kind: NegativeImprintKind::Thorn, layers: 2 }),
        Some(PositiveImprint { kind: PositiveImprintKind::Charge, layers: 3 }),
        &no_patches(),
        &mut bank,
        &mut banks,
        &mut log,
    )
    .unwrap();
    assert_eq!((p.cur_hp, p.entry_bonus_power, p.entry_leave_immune), (264, 30, true));
    assert_eq!(
        log.history,
        "A方 甲 入场触发棘刺(2层)，受伤 36，HP 264/300\nA方 甲 入场触发蓄电(3层)，本回合技能威力+30\n"
    );
    let mut q = pet("乙");
    apply_entry_effects(
        Side::B,
        &mut q,
        Some(NegativeImprint { kind: NegativeImprintKind::Descend, layers: 12 }),
        None,
        &no_patches(),
        &mut bank,
        &mut banks,
        &mut log,
    )
    .unwrap();
    assert_eq!(q.energy, 0);
    assert!(log.history.ends_with("B方 乙 入场触发降灵(12层)，能量降至 0\n"));
}

#[test]
fn photosynthesis_gives_energy() {
    let mut p = pet("甲");
    p.energy = 4;
    let mut log = BattleLog::new();
    let mark = Some(PositiveImprint { kind: PositiveImprintKind::Photosynthesis, layers: 3 });
    apply_positive_imprint_end_turn(Side::A, &mut p, mark, &mut log).unwrap();
    assert_eq!(p.energy, 7);
    assert_eq!(log.history, "A方 甲 触发光合(3层)，回复 3 点能量（当前7）。\n");
    apply_positive_imprint_end_turn(Side::A, &mut p, mark, &mut log).unwrap();
    apply_positive_imprint_end_turn(Side::A, &mut p, mark, &mut log).unwrap();
    assert_eq!(p.energy, 10);
    assert_eq!(add_energy_clamped(3, -5, 10).unwrap(), 0);
    assert!(add_energy_clamped(i32::MAX, 1, 10).is_err());
}

// Uses of skills.

fn attack(a: &mut BattlePet, d: &mut BattlePet, name: &str, ded: &DedicationBuff, log: &mut BattleLog) -> Option<(String, String)> {
    let mut sky = None;
    resolve_one_attack(Side::A, name, a, d, ded, &mut sky, log).unwrap()
}

#[test]
fn a_strike() {
    let (mut a, mut d) = (pet("甲"), pet("乙"));
    let mut log = BattleLog::new();
    let none = DedicationBuff::default();
    let tally = attack(&mut a, &mut d, "撞击", &none, &mut log);
    assert_eq!(tally, Some(("甲".to_string(), "普通".to_string())));
    assert_eq!((a.energy, d.cur_hp), (8, 219));
    assert_eq!(log.history, "A方 甲 使用 [撞击]，消耗2能量，造成 81 伤害。乙 HP: 219/300\n");
    // an unknown skill: the first one
    attack(&mut a, &mut d, "没有", &none, &mut log);
    assert_eq!(d.cur_hp, 138);
    d.element1 = "地".to_string();
    attack(&mut a, &mut d, "撞击", &none, &mut log);
    assert!(log.history.ends_with("A方 甲 使用 [撞击]，消耗2能量，造成 40 伤害(克制x0.50)。乙 HP: 98/300\n"));
    d.cur_hp = 10;
    attack(&mut a, &mut d, "撞击", &none, &mut log);
    assert!(log.history.ends_with("乙 HP: 0/300\n乙 倒下。\n"));
}

#[test]
fn a_skill_without_energy_fails() {
    let (mut a, mut d) = (pet("甲"), pet("乙"));
    a.energy = 1;
    let mut log = BattleLog::new();
    let tally = attack(&mut a, &mut d, "撞击", &DedicationBuff::default(), &mut log);
    assert_eq!(tally, None);
    assert_eq!((a.energy, d.cur_hp), (1, 300));
    assert_eq!(log.history, "A方 甲 试图使用 [撞击]，能量不足，行动失败。\n");
}

#[test]
fn a_charged_skill_strikes_the_second_time() {
    let mut a = knowing("甲", skill("日光", "草", "魔攻", 3, 80, "蓄力，下回合释放"));
    let mut d = pet("乙");
    let mut log = BattleLog::new();
    let none = DedicationBuff::default();
    let tally = attack(&mut a, &mut d, "日光", &none, &mut log);
    assert_eq!(tally, Some(("甲".to_string(), "草".to_string())));
    assert_eq!(a.charging_skill, Some("日光".to_string()));
    assert_eq!((a.energy, d.cur_hp), (7, 300));
    assert_eq!(log.history, "A方 甲 使用 [日光] 进入蓄力状态，本回合不造成伤害。\n");
    attack(&mut a, &mut d, "日光", &none, &mut log);
    assert_eq!(a.charging_skill, None);
    assert_eq!((a.energy, d.cur_hp), (4, 228));
}

#[test]
fn a_skill_of_no_power_applies_effects() {
    let mut a = knowing("甲", skill("休养", "普通", "状态", 2, 0, "恢复"));
    let mut d = pet("乙");
    let mut log = BattleLog::new();
    attack(&mut a, &mut d, "休养", &DedicationBuff::default(), &mut log);
    assert_eq!(a.energy, 10);
    assert_eq!(
        log.history,
        "A方 甲 使用 [休养]，消耗2能量，施加状态/效果。乙 HP: 300/300\nA方 甲 的恢复效果触发，回复 5 点能量（当前10）。\n"
    );
}

#[test]
fn what_entering_added_is_spent_on_a_strike() {
    let (mut a, mut d) = (pet("甲"), pet("乙"));
    a.entry_bonus_power = 40;
    let mut log = BattleLog::new();
    attack(&mut a, &mut d, "撞击", &DedicationBuff::default(), &mut log);
    assert_eq!(d.cur_hp, 300 - 135);
    assert_eq!(a.entry_bonus_power, 0);
}

#[test]
fn dedication_strengthens_two_skills() {
    assert!(dedication_applies_to_skill("啃咬") && dedication_applies_to_skill("虫群"));
    assert!(!dedication_applies_to_skill("撞击"));
    let mut a = knowing("甲", skill("啃咬", "虫", "物攻", 3, 40, ""));
    a.cur_hp = 100;
    let mut d = pet("乙");
    let ded = DedicationBuff {
        power_bonus_times: 1,
        poison_bonus_times: 2,
        lifesteal_bonus_times: 1,
        combo_bonus_times: 1,
        cost_reduction_times: 1,
    };
    let mut log = BattleLog::new();
    attack(&mut a, &mut d, "啃咬", &ded, &mut log);
    // (40 + 20) * 0.9 for each of two hits, a fifth of it back
    assert_eq!(a.energy, 9);
    assert_eq!(d.cur_hp, 300 - 108);
    assert_eq!(d.poison_layers, 4);
    assert_eq!(a.cur_hp, 122);
    assert_eq!(
        log.history,
        "A方 甲 使用 [啃咬]，消耗1能量，造成 108 伤害。乙 HP: 192/300\n奉献强化触发：乙 额外获得 4 层中毒。\n\
         奉献强化触发：甲 吸血 22，HP 122/300。\n"
    );
}

#[test]
fn overflowing_strikes_are_refused() {
    let mut a = knowing("甲", skill("重击", "普通", "物攻", 0, i32::MAX, ""));
    a.entry_bonus_power = 1;
    let mut d = pet("乙");
    let mut sky = None;
    let mut log = BattleLog::new();
    let r = resolve_one_attack(Side::A, "重击", &mut a, &mut d, &DedicationBuff::default(), &mut sky, &mut log);
    assert!(matches!(r, Err(Overflow)));
}

// Dedication.

#[test]
fn dedication_of_an_effect() {
    let p = knowing("甲", skill("献身", "虫", "状态", 2, 0, "奉献：威力+20，获得2层中毒，10%吸血，连击数+1，能耗-2"));
    let mut d = DedicationBuff::default();
    let mut log = BattleLog::new();
    apply_dedication_gain_from_effect(Side::B, &p, "献身", &mut d, 1, &mut log).unwrap();
    assert_eq!(
        (d.power_bonus_times, d.poison_bonus_times, d.lifesteal_bonus_times, d.combo_bonus_times, d.cost_reduction_times),
        (1, 1, 1, 1, 1)
    );
    assert_eq!(log.history, "B方 甲 获得奉献强化：威力+20、附加2层中毒、20%吸血、连击数+1、能耗-2。\n");
    apply_dedication_gain_from_effect(Side::B, &p, "没有", &mut d, 1, &mut log).unwrap();
    assert_eq!(d.power_bonus_times, 1);
}

#[test]
fn dedication_at_random() {
    let p = knowing("甲", skill("献身", "虫", "状态", 2, 0, "随机奉献"));
    for seed in 0..50u64 {
        let mut d = DedicationBuff::default();
        let mut log = BattleLog::new();
        apply_dedication_gain_from_effect(Side::A, &p, "献身", &mut d, seed, &mut log).unwrap();
        let idx = ((seed.wrapping_mul(6364136223846793005).wrapping_add(1) >> 32) as usize) % 5;
        let mut want = DedicationBuff::default();
        add_dedication_by_index(&mut want, idx).unwrap();
        assert_eq!(
            [d.power_bonus_times, d.poison_bonus_times, d.lifesteal_bonus_times, d.combo_bonus_times, d.cost_reduction_times],
            [
                want.power_bonus_times,
                want.poison_bonus_times,
                want.lifesteal_bonus_times,
                want.combo_bonus_times,
                want.cost_reduction_times
            ]
        );
        assert_eq!(log.history, format!("A方 甲 触发随机奉献，获得 {}。\n", dedication_kind_name(idx)));
    }
    let mut full = DedicationBuff { power_bonus_times: i32::MAX, ..DedicationBuff::default() };
    assert!(add_dedication_by_index(&mut full, 0).is_err());
}

// Decisions carried out.

fn run(decision: &Decision, own: &mut SideState, opp: &mut SideState, log: &mut BattleLog) {
    let mut sky = None;
    execute_decision(Side::A, decision, own, opp, &no_patches(), &mut sky, 3, 5, log).unwrap();
}

#[test]
fn a_skill_that_is_not_paid_for_does_nothing() {
    let mut own = side_of(vec![
        knowing("甲", skill("荆棘", "草", "状态", 3, 0, "2层棘刺，光合，折返，奉献：威力+20")),
        pet("丙"),
    ]);
    own.team[0].energy = 0;
    own.team[0].entry_leave_immune = true;
    let mut opp = side_of(vec![pet("乙")]);
    let mut log = BattleLog::new();
    run(&Decision::UseSkill("荆棘".to_string()), &mut own, &mut opp, &mut log);
    assert!(opp.negative_imprint.is_none() && own.positive_imprint.is_none());
    assert_eq!((own.active, own.team[0].energy, opp.team[0].cur_hp), (0, 0, 300));
    assert_eq!(own.dedication.power_bonus_times, 0);
    assert!(!own.team[0].entry_leave_immune);
    assert_eq!(log.history, "A方 甲 试图使用 [荆棘]，能量不足，行动失败。\n");
    // paid for, it does all of it
    own.team[0].energy = 3;
    run(&Decision::UseSkill("荆棘".to_string()), &mut own, &mut opp, &mut log);
    assert_eq!(opp.negative_imprint.unwrap().layers, 2);
    assert_eq!(own.positive_imprint.unwrap().layers, 1);
    assert_eq!((own.active, own.team[0].energy), (1, 0));
}

#[test]
fn the_history_grows_by_what_is_streamed() {
    let mut own = side_of(vec![knowing("甲", skill("毒雾", "毒", "物攻", 1, 60, "中毒，棘刺，折返，下雨")), pet("丙")]);
    let mut opp = side_of(vec![pet("乙")]);
    let mut log = BattleLog::new();
    run(&Decision::UseSkill("毒雾".to_string()), &mut own, &mut opp, &mut log);
    assert_eq!(log.deltas.len(), 5);
    assert_eq!(log.history, log.deltas.concat());
}

#[test]
fn charging_gives_energy() {
    let mut own = side_of(vec![pet("甲")]);
    let mut opp = side_of(vec![pet("乙")]);
    own.team[0].energy = 2;
    own.team[0].entry_leave_immune = true;
    let mut log = BattleLog::new();
    run(&Decision::Charge, &mut own, &mut opp, &mut log);
    assert_eq!((own.team[0].energy, own.team[0].entry_leave_immune), (7, false));
    assert_eq!(log.history, "A方 甲 使用 [回能]，回复 5 点能量（当前7）。\n");
    own.team[0].cur_hp = 0;
    run(&Decision::Charge, &mut own, &mut opp, &mut log);
    assert_eq!(own.team[0].energy, 7);
}

#[test]
fn switching_exchanges_the_fighter() {
    let mut own = side_of(vec![pet("甲"), pet("丙")]);
    let mut opp = side_of(vec![pet("乙")]);
    own.team[0].poison_layers = 2;
    own.team[0].freeze_layers = 1;
    own.team[1].charging_skill = Some("撞击".to_string());
    own.negative_imprint = Some(NegativeImprint { kind: NegativeImprintKind::Thorn, layers: 1 });
    let mut log = BattleLog::new();
    run(&Decision::Switch("丙".to_string()), &mut own, &mut opp, &mut log);
    assert_eq!(own.active, 1);
    assert_eq!((own.team[0].poison_layers, own.team[0].freeze_layers), (0, 1));
    assert_eq!(own.team[1].charging_skill, None);
    assert_eq!(own.team[1].cur_hp, 282);
    assert_eq!(own.negative_imprint.unwrap().layers, 1);
    assert_eq!(log.history, "A方选择换宠，上场：丙。\nA方 丙 入场触发棘刺(1层)，受伤 18，HP 282/300\n");
}

#[test]
fn a_switch_to_nobody_fails() {
    let mut own = side_of(vec![pet("甲"), pet("丙")]);
    own.team[1].cur_hp = 0;
    let mut opp = side_of(vec![pet("乙")]);
    let mut log = BattleLog::new();
    run(&Decision::Switch("丙".to_string()), &mut own, &mut opp, &mut log);
    assert_eq!(own.active, 0);
    assert_eq!(log.history, "A方尝试换宠到 [丙] 失败（不存在或已倒下），本回合行动失败。\n");
}

#[test]
fn a_swift_skill_is_used_on_entry() {
    let mut own = side_of(vec![pet("甲"), knowing("丙", skill("突袭", "普通", "物攻", 1, 60, "迅捷"))]);
    let mut opp = side_of(vec![pet("乙")]);
    let mut log = BattleLog::new();
    run(&Decision::Switch("丙".to_string()), &mut own, &mut opp, &mut log);
    assert_eq!(opp.team[0].cur_hp, 219);
    assert_eq!(
        log.history,
        "A方选择换宠，上场：丙。\nA方 丙 触发迅捷，自动使用 [突袭]。\n\
         A方 丙 使用 [突袭]，消耗1能量，造成 81 伤害。乙 HP: 219/300\n"
    );
    let mut p = pet("丁");
    let mut q = pet("戊");
    let mut sky = None;
    let r = trigger_swift_on_entry(Side::A, &mut p, &mut q, &DedicationBuff::default(), &mut sky, &mut log).unwrap();
    assert_eq!(r, None);
}

#[test]
fn a_skill_that_takes_its_pet_off_the_field() {
    let mut own = side_of(vec![knowing("甲", skill("回旋", "普通", "物攻", 1, 60, "折返")), pet("丙"), pet("丁")]);
    let mut opp = side_of(vec![pet("乙")]);
    let mut log = BattleLog::new();
    run(&Decision::UseSkill("回旋".to_string()), &mut own, &mut opp, &mut log);
    assert_eq!(own.active, 1);
    assert!(log.history.ends_with("A方因 [回旋] 触发离场，上场：丙。\n"));
    // one that has only just entered stays
    let mut own = side_of(vec![knowing("甲", skill("回旋", "普通", "物攻", 1, 60, "折返")), pet("丙")]);
    own.team[0].entry_leave_immune = true;
    run(&Decision::UseSkill("回旋".to_string()), &mut own, &mut opp, &mut log);
    assert_eq!(own.active, 0);
    assert!(log.history.ends_with("A方 甲 处于入场首回合，离场词条未触发。\n"));
    assert!(!own.team[0].entry_leave_immune);
    // an escape goes to a pet that is drawn
    for seed in 0..20u64 {
        let mut own = side_of(vec![knowing("甲", skill("逃", "普通", "物攻", 1, 60, "紧急脱离")), pet("丙"), pet("丁")]);
        let mut q = pet("乙");
        let mut sky = None;
        let mut log = BattleLog::new();
        process_leave_keywords(Side::A, "逃", &mut own, &mut q, &mut sky, &no_patches(), seed, &mut log).unwrap();
        let drawn = ((seed.wrapping_mul(6364136223846793005).wrapping_add(1) >> 32) as usize) % 2;
        assert_eq!(own.active, 1 + drawn);
    }
}

#[test]
fn nobody_to_come_in() {
    let mut own = side_of(vec![knowing("甲", skill("回旋", "普通", "物攻", 1, 60, "折返")), pet("丙")]);
    own.team[1].cur_hp = 0;
    let mut opp = side_of(vec![pet("乙")]);
    let mut log = BattleLog::new();
    run(&Decision::UseSkill("回旋".to_string()), &mut own, &mut opp, &mut log);
    assert_eq!(own.active, 0);
}

// Teams on the field.

#[test]
fn who_can_come_in() {
    let mut team = vec![pet("甲"), pet("乙"), pet("乙"), pet("丙")];
    team[1].cur_hp = 0;
    assert_eq!(find_switch_target(&team, 0, "乙"), Some(2));
    assert_eq!(find_switch_target(&team, 2, "乙"), None);
    assert_eq!(find_switch_target(&team, 0, "甲"), None);
    assert_eq!(reserve_indices(&team, 0), vec![2, 3]);
    assert_eq!(first_alive_index(&team), Some(0));
    team[0].cur_hp = 0;
    assert_eq!(first_alive_index(&team), Some(2));
    team[2].cur_hp = 0;
    team[3].cur_hp = 0;
    assert_eq!(first_alive_index(&team), None);
    assert_eq!(reserve_indices(&team, 0), Vec::<usize>::new());
}
