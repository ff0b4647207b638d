use roco_battle::history::{compact_recent_dynamics, observed_enemy_intel, recent_round_history};
use roco_battle::pet::{
    BattlePet, BattleSkill, EffortValues, NegativeImprint, NegativeImprintKind, PositiveImprint, PositiveImprintKind,
    Side, WeatherKind, WeatherState,
};
use roco_battle::prompt::{
    action_prompt, battle_rule_prompt, effort_summary, negative_imprint_summary, pet_element_summary,
    pet_status_summary, positive_imprint_summary, weather_summary, Marks,
};

fn skill(name: &str, element: &str, category: &str, cost: i32, power: i32, effect: &str) -> BattleSkill {
    BattleSkill {
        name: name.to_string(),
        element: element.to_string(),
        category: category.to_string(),
        cost,
        power,
        effect: effect.to_string(),
    }
}

fn pet(name: &str) -> BattlePet {
    BattlePet {
        name: name.to_string(),
        level: 60,
        nature: "认真".to_string(),
        ability: String::new(),
        ability_desc: String::new(),
        element1: "普通".to_string(),
        element2: None,
        hp: 300,
        cur_hp: 300,
        speed: 100,
        patk: 100,
        pdef: 100,
        matk: 100,
        mdef: 100,
        energy: 10,
        energy_cap: 10,
        poison_layers: 0,
        burn_layers: 0,
        freeze_layers: 0,
        parasitic_layers: 0,
        frozen_hp_locked: 0,
        charging_skill: None,
        entry_bonus_power: 0,
        entry_leave_immune: false,
        morph_stage: 0,
        effort: EffortValues { hp: 0, patk: 0, matk: 0, pdef: 0, mdef: 0, speed: 0 },
        skills: vec![skill("撞击", "普通", "物攻", 2, 60, "")],
    }
}

fn no_marks() -> Marks {
    Marks { negative: None, positive: None }
}

#[test]
fn the_rules_are_told() {
    let rules = battle_rule_prompt();
    assert!(rules.starts_with("你是洛克王国PVP对战决策器。你必须严格遵守以下规则并只做一行动作决策：\n1) 只允许输出一行"));
    assert!(rules.ends_with("\n无 -> strong:[] resist:[]\n12) 目标是最大化本方胜率。"));
    assert_eq!(rules.lines().count(), 38);
    assert!(rules.contains("\n- 换下场后会清除：中毒、灼烧、寄生。\n"));
}

#[test]
fn short_descriptions() {
    let none = EffortValues { hp: 0, patk: 0, matk: 0, pdef: 0, mdef: 0, speed: 0 };
    assert_eq!(effort_summary(&none), "无");
    assert_eq!(effort_summary(&EffortValues { hp: 28, speed: 40, ..none }), "生命+28、速度+40");
    assert_eq!(
        effort_summary(&EffortValues { hp: 1, patk: 2, matk: 3, pdef: 4, mdef: 5, speed: 6 }),
        "生命+1、物攻+2、魔攻+3、物防+4、魔防+5、速度+6"
    );
    assert_eq!(weather_summary(&None), "无");
    assert_eq!(weather_summary(&Some(WeatherState { kind: WeatherKind::Blizzard, remain_turns: 3 })), "暴风雪(剩余3回合)");
    assert_eq!(negative_imprint_summary(None), "无");
    assert_eq!(
        negative_imprint_summary(Some(NegativeImprint { kind: NegativeImprintKind::Thorn, layers: 2 })),
        "棘刺x2"
    );
    assert_eq!(
        negative_imprint_summary(Some(NegativeImprint { kind: NegativeImprintKind::Descend, layers: 2 })),
        "降灵x2"
    );
    assert_eq!(positive_imprint_summary(None), "无");
    assert_eq!(
        positive_imprint_summary(Some(PositiveImprint { kind: PositiveImprintKind::Charge, layers: 1 })),
        "蓄电x1"
    );
    assert_eq!(
        positive_imprint_summary(Some(PositiveImprint { kind: PositiveImprintKind::Photosynthesis, layers: 1 })),
        "光合x1"
    );
    let mut p = pet("甲");
    assert_eq!(pet_status_summary(&p), "无");
    assert_eq!(pet_element_summary(&p), "普通");
    p.poison_layers = 1;
    p.burn_layers = 2;
    p.freeze_layers = 3;
    p.parasitic_layers = 4;
    p.morph_stage = 2;
    p.frozen_hp_locked = 45;
    assert_eq!(pet_status_summary(&p), "中毒1、灼烧2、冻结3、寄生4、萌化阶段2、冻结锁血45");
    p.element2 = Some("火".to_string());
    assert_eq!(pet_element_summary(&p), "普通/火");
    p.element2 = Some(" ".to_string());
    assert_eq!(pet_element_summary(&p), "普通");
}

#[test]
fn the_whole_text_in_the_first_round() {
    let mut own = pet("甲");
    own.skills = vec![skill("撞击", "普通", "物攻", 2, 60, ""), skill("日光", "草", "魔攻", 9, 120, " 蓄力 ")];
    own.energy = 5;
    own.ability = " 特性 ".to_string();
    let mut fallen = pet("丙");
    fallen.cur_hp = 0;
    let mut mate = pet("丁");
    mate.ability_desc = "描述".to_string();
    let team = vec![own, fallen, mate];
    let mut opp = pet("乙");
    opp.cur_hp = 100;
    opp.element2 = Some("水".to_string());
    let text = action_prompt(
        Side::A,
        &team,
        0,
        &opp,
        &None,
        &Marks { negative: Some(NegativeImprint { kind: NegativeImprintKind::Thorn, layers: 1 }), positive: None },
        &no_marks(),
        "\n【回合 1】\n",
        1,
    );
    let want = "你是A方决策AI。每回合仅输出一行合法动作：SKILL:技能名 / SWITCH:精灵名 / CHARGE。\n\
                ### 状态快照 ###\n\
                R1 | 天气:无\n我方: 甲(普通) 300/300(100%) EN:5 SPD:100 [特性:特性]\n敌方: 乙(普通/水) HP:33% EN:10\n\
                ### 敌方情报摘要 ###\n\
                - 我方印记: 负面=棘刺x1 正面=无\n- 敌方印记(可见): 负面=无 正面=无\n\
                ### 我方全队完整情报(仅R1提供) ###\n\
                - *1: 甲 [普通] HP 300/300 EN5 SPD100 特性:特性(无) 技能:撞击(60/物攻/耗2)，日光(120/魔攻/耗9/蓄力)\n\
                - 2: 丙 [普通] HP 0/300 EN10 SPD100 特性:无(无) 技能:撞击(60/物攻/耗2)\n\
                - 3: 丁 [普通] HP 300/300 EN10 SPD100 特性:无(描述) 技能:撞击(60/物攻/耗2)\n\
                - 敌方已出战精灵: 无\n- 敌方已展示技能: 无\n\
                ### 可用技能 ###\n\
                - 撞击|属性:普通|分类:物攻|能耗:2|威力:60|\n\
                ### 不可用技能 ###\n\
                日光\n\
                ### 可切换精灵 ###\n\
                丁\n\
                ### 最近动态 ###\n\
                无\n\
                ### 合法动作 ###\n\
                SKILL:撞击 | SWITCH:丁 | CHARGE";
    assert_eq!(text, want);
}

#[test]
fn the_whole_text_in_a_later_round() {
    let mut own = pet("甲");
    own.energy = 0;
    let mut mate = pet("丁");
    mate.ability = "勇".to_string();
    mate.cur_hp = 0;
    let team = vec![mate, own];
    let sky = Some(WeatherState { kind: WeatherKind::Rain, remain_turns: 4 });
    let log = "\n【回合 1】\nA方 乙 使用 [水枪]，消耗2能量，造成 5 伤害。甲 HP: 295/300\n\n【回合 2】\n";
    let text = action_prompt(Side::B, &team, 1, &pet("乙"), &sky, &no_marks(), &no_marks(), log, 2);
    let want = "你是B方决策AI。每回合仅输出一行合法动作：SKILL:技能名 / SWITCH:精灵名 / CHARGE。\n\
                ### 状态快照 ###\n\
                R2 | 天气:下雨(剩余4回合)\n我方: 甲(普通) 300/300(100%) EN:0 SPD:100 [特性:无]\n敌方: 乙(普通) HP:100% EN:10\n\
                ### 敌方情报摘要 ###\n\
                - 我方印记: 负面=无 正面=无\n- 敌方印记(可见): 负面=无 正面=无\n\
                ### 后备选择 ###\n\
                1. 丁(普通) 0/300 EN:10 SPD:100 [特性:勇]\n\
                - 敌方已出战精灵: 无\n- 敌方已展示技能: 水枪\n\
                ### 可用技能 ###\n\
                无（当前能量不足，建议换宠）\n\
                ### 不可用技能 ###\n\
                撞击\n\
                ### 可切换精灵 ###\n\
                无\n\
                ### 最近动态 ###\n\
                R1: A方 乙 使用 [水枪]，消耗2能量，造成 5 伤害。甲 HP: 295/300\n\
                ### 合法动作 ###\n\
                CHARGE";
    assert_eq!(text, want);
}

#[test]
fn hidden_facts_do_not_show() {
    let team = vec![pet("甲")];
    let ask = |opp: &BattlePet| action_prompt(Side::A, &team, 0, opp, &None, &no_marks(), &no_marks(), "", 3);
    let seen = ask(&pet("乙"));
    let mut other = pet("乙");
    other.nature = "胆小".to_string();
    other.speed = 999;
    other.patk = 999;
    other.effort.hp = 40;
    other.ability = "隐藏".to_string();
    other.skills = vec![skill("秘技", "火", "魔攻", 1, 200, "先手+3")];
    assert_eq!(seen, ask(&other));
    other.energy = 3;
    assert_ne!(seen, ask(&other));
}

#[test]
fn what_was_seen_of_the_enemy() {
    let log = "B方 乙 使用 [水枪]，造成 5 伤害\nA方 甲 使用 [火苗]，造成 5 伤害\nB方 乙 使用 [ 撞击 ]\nB方 乙 使用 [水枪]\n\
               B方 上场：丙。。\nB方 上场：丙\nB方 上场：。\nB方 使用 [没完";
    assert_eq!(observed_enemy_intel(Side::A, log), "- 敌方已出战精灵: 丙\n- 敌方已展示技能: 水枪，撞击");
    assert_eq!(observed_enemy_intel(Side::B, log), "- 敌方已出战精灵: 无\n- 敌方已展示技能: 火苗");
    assert_eq!(observed_enemy_intel(Side::B, ""), "- 敌方已出战精灵: 无\n- 敌方已展示技能: 无");
}

#[test]
fn the_last_rounds() {
    let log = "开场\n\n【回合 1】\na\n\n【回合 2】\nb\n\n【回合 3】\nc\n";
    assert_eq!(recent_round_history(log, 2), "【回合 2】\nb\n\n【回合 3】\nc");
    assert_eq!(recent_round_history(log, 3), "【回合 1】\na\n\n【回合 2】\nb\n\n【回合 3】\nc");
    assert_eq!(recent_round_history(log, 9), "【回合 1】\na\n\n【回合 2】\nb\n\n【回合 3】\nc");
    assert_eq!(recent_round_history(log, 0), "无");
    assert_eq!(recent_round_history(" \n", 2), "无");
    assert_eq!(recent_round_history(" 开场\n", 2), " 开场\n");
    assert_eq!(recent_round_history("【回合 1】\na\n【回合 2】\nb", 1), "【回合 2】\nb");
    assert_eq!(recent_round_history("【回合 1】\na\n【回合 2】\nb", 2), "【回合 1】\na\n【回合 2】\nb");
}

#[test]
fn the_last_rounds_in_short() {
    let log = "开场\n\n【回合 1】\na\n\n【回合 2】\n b \nc\n";
    assert_eq!(compact_recent_dynamics(log, 5, 8), "R1: a\nR2: b\nR2: c");
    assert_eq!(compact_recent_dynamics(log, 1, 8), "R2: b\nR2: c");
    assert_eq!(compact_recent_dynamics(log, 5, 2), "R1: a\nR2: b");
    assert_eq!(compact_recent_dynamics("开场\nx", 5, 8), "开场\nx");
    assert_eq!(compact_recent_dynamics("\n【回合 1】\n", 5, 8), "无");
    assert_eq!(compact_recent_dynamics("", 5, 8), "无");
}
