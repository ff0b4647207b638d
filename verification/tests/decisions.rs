use roco_battle::decide::{
    acts_first, counter_grants_act_priority, counter_triggered, decision_invalid_reason, decision_to_text,
    enforce_charging_constraint, first_valid_skill_decision, first_valid_switch_decision, initial_decision,
    normalize_skill_name, parse_decision, redecide, skill_priority,
};
use roco_battle::number::{parse_int, push_int, push_nat};
use roco_battle::pet::{BattlePet, BattleSkill, Decision, EffortValues, Side, WeatherKind, WeatherState};
use roco_battle::prompt::{action_prompt, Marks};

fn skill(name: &str, element: &str, category: &str, cost: i32, power: i32, effect: &str) -> BattleSkill {
    BattleSkill {
        name: name.to_string(),
        element: element.to_string(),
        category: category.to_string(),
        cost,
        power,
        effect: effect.to_string(),
    }
}

fn pet(name: &str) -> BattlePet {
    BattlePet {
        name: name.to_string(),
        level: 60,
        nature: "认真".to_string(),
        ability: String::new(),
        ability_desc: String::new(),
        element1: "普通".to_string(),
        element2: None,
        hp: 300,
        cur_hp: 300,
        speed: 100,
        patk: 100,
        pdef: 100,
        matk: 100,
        mdef: 100,
        energy: 10,
        energy_cap: 10,
        poison_layers: 0,
        burn_layers: 0,
        freeze_layers: 0,
        parasitic_layers: 0,
        frozen_hp_locked: 0,
        charging_skill: None,
        entry_bonus_power: 0,
        entry_leave_immune: false,
        morph_stage: 0,
        effort: EffortValues { hp: 0, patk: 0, matk: 0, pdef: 0, mdef: 0, speed: 0 },
        skills: vec![skill("撞击", "普通", "物攻", 2, 60, "")],
    }
}

fn with_skills(name: &str, skills: Vec<BattleSkill>) -> BattlePet {
    let mut p = pet(name);
    p.skills = skills;
    p
}

fn text(d: &Decision) -> String {
    decision_to_text(d)
}

fn uses(name: &str) -> Decision {
    Decision::UseSkill(name.to_string())
}

#[test]
fn replies_are_read() {
    let p = with_skills("甲", vec![skill("撞击", "普通", "物攻", 2, 60, ""), skill("水枪", "水", "魔攻", 2, 60, "")]);
    assert_eq!(text(&parse_decision("SKILL:水枪", &p)), "SKILL:水枪");
    assert_eq!(text(&parse_decision("  SKILL: 水枪 \n解释", &p)), "SKILL:水枪");
    assert_eq!(text(&parse_decision("SWITCH: 乙", &p)), "SWITCH:乙");
    assert_eq!(text(&parse_decision("CHARGE", &p)), "CHARGE");
    assert_eq!(text(&parse_decision("`CHARGE`", &p)), "CHARGE");
    assert_eq!(text(&parse_decision("\"SKILL:水枪\"", &p)), "SKILL:水枪");
    assert_eq!(text(&parse_decision("水枪", &p)), "SKILL:水枪");
    assert_eq!(text(&parse_decision("不知道", &p)), "SKILL:撞击");
    assert_eq!(text(&parse_decision("", &p)), "SKILL:撞击");
    assert_eq!(text(&parse_decision("SKILL:没有", &p)), "SKILL:没有");
    assert_eq!(text(&parse_decision("skill:水枪", &p)), "SKILL:撞击");
}

#[test]
fn names_in_replies_are_normalized() {
    assert_eq!(normalize_skill_name(" \"水枪\" "), "水枪");
    assert_eq!(normalize_skill_name("\"`水枪`\""), "水枪");
    assert_eq!(normalize_skill_name("`\"水枪\"`"), "\"水枪\"");
    assert_eq!(normalize_skill_name("水枪\r\n第二行"), "水枪");
    assert_eq!(normalize_skill_name(""), "");
}

#[test]
fn written_decisions_are_read_back() {
    let p = pet("甲");
    for d in [uses("水枪"), uses(""), Decision::Switch("乙".to_string()), Decision::Switch(String::new()), Decision::Charge] {
        assert_eq!(text(&parse_decision(&decision_to_text(&d), &p)), text(&d));
    }
}

#[test]
fn no_reply_means_the_first_skill() {
    let p = pet("甲");
    assert_eq!(text(&initial_decision(&None, &p)), "SKILL:撞击");
    assert_eq!(text(&initial_decision(&Some("CHARGE".to_string()), &p)), "CHARGE");
}

#[test]
fn a_charged_skill_binds() {
    let mut p = pet("甲");
    let mut d = Decision::Charge;
    enforce_charging_constraint(&p, &mut d);
    assert_eq!(text(&d), "CHARGE");
    p.charging_skill = Some("日光".to_string());
    enforce_charging_constraint(&p, &mut d);
    assert_eq!(text(&d), "SKILL:日光");
    let mut d = Decision::Switch("乙".to_string());
    enforce_charging_constraint(&p, &mut d);
    assert_eq!(text(&d), "SWITCH:乙");
}

#[test]
fn priorities() {
    let p = with_skills(
        "甲",
        vec![
            skill("快", "普通", "物攻", 2, 60, "先手+12，造成伤害"),
            skill("慢", "普通", "物攻", 2, 60, "先手+"),
            skill("平", "普通", "物攻", 2, 60, "先手-1"),
            skill("大", "普通", "物攻", 2, 60, "先手+99999999999"),
        ],
    );
    assert_eq!(skill_priority(&p, "快"), 12);
    assert_eq!(skill_priority(&p, "慢"), 0);
    assert_eq!(skill_priority(&p, "平"), 0);
    assert_eq!(skill_priority(&p, "大"), 0);
    assert_eq!(skill_priority(&p, "没有"), 0);
}

#[test]
fn counters() {
    let own = with_skills(
        "甲",
        vec![
            skill("反击", "普通", "物攻", 2, 60, "应对攻击：伤害翻倍"),
            skill("破防", "普通", "物攻", 2, 60, "应对防御"),
            skill("识破", "普通", "状态", 2, 0, "应对状态"),
            skill("格挡", "普通", "防御", 2, 0, "应对攻击"),
            skill("空", "普通", "物攻", 2, 60, "应对"),
            skill("反制", "普通", "状态", 2, 0, "应对攻击，应对防御"),
            skill("全", "普通", "状态", 2, 0, "应对状态；应对防御；应对攻击"),
        ],
    );
    let opp = with_skills(
        "乙",
        vec![
            skill("打", "普通", "物攻", 2, 60, ""),
            skill("法", "普通", "魔攻", 2, 60, ""),
            skill("守", "普通", "防御", 2, 0, ""),
            skill("态", "普通", "状态", 2, 0, ""),
        ],
    );
    let hit = |mine: &str, theirs: &str| counter_triggered(&own, &uses(mine), &uses(theirs), &opp);
    assert!(hit("反击", "打") && hit("反击", "法") && !hit("反击", "守") && !hit("反击", "态"));
    assert!(!hit("破防", "打") && hit("破防", "守"));
    assert!(hit("识破", "态") && !hit("识破", "打"));
    assert!(!hit("空", "打"));
    // each word counts by itself
    assert!(hit("反制", "打") && hit("反制", "法") && hit("反制", "守") && !hit("反制", "态"));
    assert!(hit("全", "打") && hit("全", "法") && hit("全", "守") && hit("全", "态"));
    assert!(counter_grants_act_priority(&own, &uses("反制"), &uses("守"), &opp));
    // an unknown skill counts as a physical attack
    assert!(hit("反击", "没有"));
    assert!(!hit("没有", "打"));
    assert!(!counter_triggered(&own, &uses("反击"), &Decision::Charge, &opp));
    assert!(!counter_triggered(&own, &Decision::Charge, &uses("打"), &opp));
    assert!(counter_grants_act_priority(&own, &uses("反击"), &uses("打"), &opp));
    assert!(hit("格挡", "打") && !counter_grants_act_priority(&own, &uses("格挡"), &uses("打"), &opp));
}

#[test]
fn who_acts_first() {
    let slow = |skills| {
        let mut p = with_skills("甲", skills);
        p.speed = 10;
        p
    };
    let fast = |skills| {
        let mut p = with_skills("乙", skills);
        p.speed = 500;
        p
    };
    let plain = || skill("打", "普通", "物攻", 2, 60, "");
    // speed, and side A where all is even
    assert!(!acts_first(&slow(vec![plain()]), &uses("打"), &fast(vec![plain()]), &uses("打")));
    assert!(acts_first(&pet("甲"), &uses("撞击"), &pet("乙"), &uses("撞击")));
    // how far ahead a decision acts comes before speed
    let ahead = || skill("快", "普通", "物攻", 2, 60, "先手+1");
    assert!(acts_first(&slow(vec![ahead()]), &uses("快"), &fast(vec![plain()]), &uses("打")));
    assert!(acts_first(&slow(vec![plain()]), &Decision::Switch("丙".to_string()), &fast(vec![ahead()]), &uses("快")));
    assert!(!acts_first(&slow(vec![plain()]), &Decision::Charge, &fast(vec![ahead()]), &uses("快")));
    // a counter comes before both, unless it is a skill of defence
    let counter = || skill("反", "普通", "物攻", 2, 60, "应对攻击");
    let block = || skill("挡", "普通", "防御", 2, 0, "应对攻击");
    assert!(acts_first(&slow(vec![counter()]), &uses("反"), &fast(vec![ahead()]), &uses("快")));
    assert!(!acts_first(&slow(vec![block()]), &uses("挡"), &fast(vec![plain()]), &uses("打")));
    // two counters cancel out
    assert!(!acts_first(&slow(vec![counter()]), &uses("反"), &fast(vec![counter()]), &uses("反")));
}

#[test]
fn reasons_against_a_decision() {
    let mut team = vec![with_skills("甲", vec![skill("落石", "地", "物攻", 5, 60, "")]), pet("乙")];
    team[0].energy = 4;
    let reason = |team: &Vec<BattlePet>, d: &Decision, w: &Option<WeatherState>| decision_invalid_reason(team, 0, d, w);
    assert_eq!(reason(&team, &Decision::Charge, &None), None);
    assert_eq!(reason(&team, &uses("没有"), &None), Some("技能 [没有] 不存在".to_string()));
    assert_eq!(reason(&team, &uses("落石"), &None), Some("技能 [落石] 能量不足(4<5)".to_string()));
    let sand = Some(WeatherState { kind: WeatherKind::Sandstorm, remain_turns: 1 });
    assert_eq!(reason(&team, &uses("落石"), &sand), None);
    assert_eq!(reason(&team, &Decision::Switch("乙".to_string()), &None), None);
    assert_eq!(
        reason(&team, &Decision::Switch("甲".to_string()), &None),
        Some("切换目标 [甲] 不存在或已倒下".to_string())
    );
    team[1].cur_hp = 0;
    assert_eq!(
        reason(&team, &Decision::Switch("乙".to_string()), &None),
        Some("切换目标 [乙] 不存在或已倒下".to_string())
    );
}

#[test]
fn second_decisions() {
    let mut team = vec![
        with_skills("甲", vec![skill("重击", "普通", "物攻", 9, 90, ""), skill("轻击", "普通", "物攻", 1, 30, "")]),
        pet("乙"),
    ];
    team[0].energy = 3;
    let first = uses("重击");
    let again = |team: &Vec<BattlePet>, reply: Option<&str>| {
        text(&redecide(team, 0, &first, &reply.map(|s| s.to_string()), &None))
    };
    // a legal reply
    assert_eq!(again(&team, Some("SKILL:轻击")), "SKILL:轻击");
    assert_eq!(again(&team, Some("CHARGE")), "CHARGE");
    // an illegal one, or none: the first pet that can comes in
    assert_eq!(again(&team, Some("SKILL:重击")), "SWITCH:乙");
    assert_eq!(again(&team, None), "SWITCH:乙");
    // nobody can: the first skill that can be paid for
    team[1].cur_hp = 0;
    assert_eq!(again(&team, Some("SWITCH:乙")), "SKILL:轻击");
    // none can: charge
    team[0].energy = 0;
    assert_eq!(again(&team, None), "CHARGE");
    // a charged skill binds here too
    team[0].energy = 10;
    team[0].charging_skill = Some("重击".to_string());
    assert_eq!(again(&team, Some("SKILL:轻击")), "SKILL:重击");
}

#[test]
fn fallbacks() {
    let mut team = vec![pet("甲"), pet("乙"), pet("丙")];
    team[1].cur_hp = 0;
    assert_eq!(text(&first_valid_switch_decision(&team, 0).unwrap()), "SWITCH:丙");
    team[2].cur_hp = 0;
    assert!(first_valid_switch_decision(&team, 0).is_none());
    assert_eq!(text(&first_valid_skill_decision(&team[0], &None)), "SKILL:撞击");
    team[0].energy = 1;
    assert_eq!(text(&first_valid_skill_decision(&team[0], &None)), "CHARGE");
}

#[test]
fn offered_actions_are_legal() {
    let mut own = with_skills(
        "甲",
        vec![
            skill("重击", "普通", "物攻", 9, 90, ""),
            skill("轻击", "普通", "物攻", 1, 30, ""),
            skill("落石", "地", "物攻", 6, 30, ""),
        ],
    );
    own.energy = 3;
    let mut fallen = pet("乙");
    fallen.cur_hp = 0;
    let team = vec![own, fallen, pet("丙")];
    let sand = Some(WeatherState { kind: WeatherKind::Sandstorm, remain_turns: 1 });
    let none = || Marks { negative: None, positive: None };
    let prompt = action_prompt(Side::A, &team, 0, &pet("丁"), &sand, &none(), &none(), "", 1);
    let offers: Vec<&str> = prompt.lines().last().unwrap().split(" | ").collect();
    assert_eq!(offers, vec!["SKILL:轻击", "SKILL:落石", "SWITCH:丙", "CHARGE"]);
    for offer in offers {
        let d = parse_decision(offer, &team[0]);
        assert_eq!(text(&d), offer);
        assert_eq!(decision_invalid_reason(&team, 0, &d, &sand), None);
    }
}

#[test]
fn numbers_are_written_and_read() {
    for n in [0, 7, -7, 10, 12345, i32::MAX, i32::MIN] {
        let mut s = String::new();
        push_int(&mut s, n);
        assert_eq!(s, n.to_string());
        assert_eq!(parse_int(&s), Some(n));
    }
    let mut s = "x".to_string();
    push_nat(&mut s, u128::MAX);
    assert_eq!(s, format!("x{}", u128::MAX));
    for t in ["", "+", "-", "1a", " 1", "2147483648", "-2147483649", "１"] {
        assert_eq!(parse_int(t), t.parse::<i32>().ok());
    }
    for t in ["+5", "-0", "007", "2147483647", "-2147483648"] {
        assert_eq!(parse_int(t), t.parse::<i32>().ok());
    }
}
