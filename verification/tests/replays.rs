use roco_battle::pet::{BattlePet, BattleSkill, EffortValues, Side};
use roco_battle::replay::{
    classify_event_frame, events_to_frames, infer_anim_id, parse_bracket_name, parse_damage_amount, parse_multiplier,
    parse_side, parse_target_name, parse_target_side, report_path, REPORT_DIR,
};
use roco_battle::report::{
    alive_pet_names, build_initial_team_state, collect_effects, initial_state, resolve_winner_no_draw,
    snapshot_status_effects, team_total_energy, team_total_hp,
};

fn skill(name: &str, element: &str, category: &str, cost: i32, power: i32, effect: &str) -> BattleSkill {
    BattleSkill {
        name: name.to_string(),
        element: element.to_string(),
        category: category.to_string(),
        cost,
        power,
        effect: effect.to_string(),
    }
}

fn pet(name: &str) -> BattlePet {
    BattlePet {
        name: name.to_string(),
        level: 60,
        nature: "认真".to_string(),
        ability: String::new(),
        ability_desc: String::new(),
        element1: "普通".to_string(),
        element2: None,
        hp: 300,
        cur_hp: 300,
        speed: 100,
        patk: 100,
        pdef: 100,
        matk: 100,
        mdef: 100,
        energy: 10,
        energy_cap: 10,
        poison_layers: 0,
        burn_layers: 0,
        freeze_layers: 0,
        parasitic_layers: 0,
        frozen_hp_locked: 0,
        charging_skill: None,
        entry_bonus_power: 0,
        entry_leave_immune: false,
        morph_stage: 0,
        effort: EffortValues { hp: 0, patk: 0, matk: 0, pdef: 0, mdef: 0, speed: 0 },
        skills: vec![skill("撞击", "普通", "物攻", 2, 60, "")],
    }
}

fn some(s: &str) -> Option<String> {
    Some(s.to_string())
}

#[test]
fn a_strike_is_read() {
    let line = "B方 乙 使用 [水枪]，消耗2能量，造成 120 伤害(克制x2.00)。甲 HP: 30/300";
    let f = classify_event_frame(line);
    assert_eq!(f.event_type, "DAMAGE");
    assert_eq!(f.source, some("B"));
    assert_eq!(f.target_side, some("A"));
    assert_eq!(f.target, some("甲"));
    assert_eq!(f.skill, some("水枪"));
    assert_eq!(f.anim_id, some("skill:水枪"));
    assert_eq!(f.amount, Some(120));
    assert_eq!(f.multiplier, some("2.00"));
    assert_eq!(f.multiplier.unwrap().parse::<f32>().unwrap(), 2.0);
    assert_eq!(f.text, line);
}

#[test]
fn kinds_of_events() {
    let kind = |s: &str| classify_event_frame(s).event_type;
    assert_eq!(kind("A方 甲 使用 [日光] 进入蓄力状态，本回合不造成伤害。"), "CHARGE_START");
    assert_eq!(kind("A方 甲 使用 [回能]，回复 5 点能量（当前7）。"), "ENERGY_CHANGE");
    assert_eq!(kind("A方 甲 触发光合(3层)，回复 3 点能量（当前7）。"), "ENERGY_CHANGE");
    assert_eq!(kind("A方 甲 使用 [毒雾]，消耗2能量，施加状态/效果。乙 HP: 300/300"), "APPLY_EFFECT");
    assert_eq!(kind("乙 获得 3 层中毒。"), "STATUS_APPLY");
    assert_eq!(kind("甲 受到中毒(2层)结算伤害 18，剩余 HP 282/300"), "STATUS_TICK");
    assert_eq!(kind("乙 倒下。"), "FAINT");
    assert_eq!(kind("A方选择换宠，上场：丙。"), "SWITCH");
    assert_eq!(kind("天气变为 [下雨]，持续 8 回合。"), "TEXT");
}

#[test]
fn parts_of_a_line() {
    assert_eq!(parse_side("A方和B方"), some("A"));
    assert_eq!(parse_side("B方"), some("B"));
    assert_eq!(parse_side("乙 倒下。"), None);
    assert_eq!(parse_target_side("A方", &some("B")), some("A"));
    assert_eq!(parse_target_side("x", &some("A")), some("B"));
    assert_eq!(parse_target_side("x", &None), None);
    assert_eq!(parse_target_side("x", &some("C")), None);
    assert_eq!(parse_bracket_name("x[a]b[c]"), some("a"));
    assert_eq!(parse_bracket_name("x[a"), None);
    assert_eq!(parse_bracket_name("]x"), None);
    assert_eq!(parse_bracket_name("[]"), some(""));
    assert_eq!(parse_damage_amount("造成 12x"), Some(12));
    assert_eq!(parse_damage_amount("造成 x"), None);
    assert_eq!(parse_damage_amount("造成 99999999999"), None);
    assert_eq!(parse_damage_amount("x"), None);
    assert_eq!(parse_multiplier("克制x0.25)"), some("0.25"));
    assert_eq!(parse_multiplier("克制x3)"), some("3"));
    assert_eq!(parse_multiplier("克制x.5"), some(".5"));
    assert_eq!(parse_multiplier("克制x5."), some("5."));
    assert_eq!(parse_multiplier("克制x."), None);
    assert_eq!(parse_multiplier("克制x1.2.3"), None);
    assert_eq!(parse_multiplier("克制xy"), None);
    assert_eq!(parse_multiplier("x"), None);
    assert_eq!(parse_target_name("一。二。 甲 HP: 1/2"), some("甲"));
    assert_eq!(parse_target_name("甲 HP: 1/2"), None);
    assert_eq!(parse_target_name("一。 HP: 1/2"), None);
    assert_eq!(parse_target_name("一。甲"), None);
    assert_eq!(infer_anim_id("SWITCH", &None), some("switch:default"));
    assert_eq!(infer_anim_id("FAINT", &some("a")), some("faint:default"));
    assert_eq!(infer_anim_id("DAMAGE", &None), None);
    assert_eq!(infer_anim_id("CHARGE_START", &some("a")), some("skill:a"));
    assert_eq!(infer_anim_id("TEXT", &some("a")), None);
}

#[test]
fn decimals_are_those_that_can_be_read() {
    for t in ["1", "1.", ".1", "1.1", ".", "1.1.1", "..", "00.50", "7.25"] {
        let line = format!("克制x{t})");
        assert_eq!(parse_multiplier(&line).is_some(), t.parse::<f32>().is_ok());
    }
}

#[test]
fn one_frame_for_each_line() {
    let lines = vec!["乙 倒下。".to_string(), "x".to_string()];
    let frames = events_to_frames(&lines);
    assert_eq!(frames.len(), 2);
    assert_eq!((frames[0].event_type.as_str(), frames[1].event_type.as_str()), ("FAINT", "TEXT"));
    assert_eq!(frames[0].anim_id, some("faint:default"));
    assert_eq!(frames[1].text, "x");
}

#[test]
fn where_records_are_kept() {
    assert_eq!(report_path(1700000000123), "data/battle-reports/battle-report-1700000000123.json");
    assert!(report_path(0).starts_with(REPORT_DIR));
}

#[test]
fn teams_are_shown() {
    let mut p = pet("甲");
    p.element2 = some("火");
    let shown = build_initial_team_state(&vec![p]);
    let s = &shown[0];
    assert_eq!((s.name.as_str(), s.level, s.element.as_str(), s.element2.as_deref()), ("甲", 60, "普通", Some("火")));
    assert_eq!((s.hp_max, s.energy_max, s.speed, s.patk), (300, 10, 100, 100));
    assert_eq!((s.skills[0].name.as_str(), s.skills[0].cost, s.skills[0].power), ("撞击", 2, 60));
    let both = initial_state(&vec![pet("甲")], &vec![pet("乙"), pet("丙")]);
    assert_eq!((both.team_a.len(), both.team_b.len()), (1, 2));
    assert_eq!(both.team_b[1].name, "丙");
}

#[test]
fn what_lies_on_pets_is_shown() {
    let mut p = pet("甲");
    assert!(collect_effects(&p).is_empty());
    p.burn_layers = 2;
    p.parasitic_layers = 1;
    let e = collect_effects(&p);
    assert_eq!(e.iter().map(|x| (x.name.as_str(), x.layers)).collect::<Vec<_>>(), vec![("灼烧", 2), ("寄生", 1)]);
    let s = snapshot_status_effects(&p, &pet("乙"));
    assert_eq!((s[0].side.as_str(), s[0].pet.as_str(), s[0].effects.len()), ("A", "甲", 2));
    assert_eq!((s[1].side.as_str(), s[1].pet.as_str(), s[1].effects.len()), ("B", "乙", 0));
}

#[test]
fn the_winner() {
    let team = |hp: i32, energy: i32| {
        let mut p = pet("甲");
        p.cur_hp = hp;
        p.energy = energy;
        vec![p, pet("乙")]
    };
    let win = |la, lb, a: &Vec<BattlePet>, b: &Vec<BattlePet>| resolve_winner_no_draw(la, lb, a, b).unwrap();
    assert!(win(2, 1, &team(0, 0), &team(300, 10)) == Side::A);
    assert!(win(0, 1, &team(300, 10), &team(0, 0)) == Side::B);
    assert!(win(1, 1, &team(10, 0), &team(9, 10)) == Side::A);
    assert!(win(1, 1, &team(9, 10), &team(10, 0)) == Side::B);
    assert!(win(1, 1, &team(9, 4), &team(9, 5)) == Side::B);
    assert!(win(1, 1, &team(9, 5), &team(9, 4)) == Side::A);
    assert!(win(1, 1, &team(9, 5), &team(9, 5)) == Side::A);
}

#[test]
fn sums_of_teams() {
    let mut team = vec![pet("甲"), pet("乙")];
    team[1].cur_hp = 0;
    team[1].energy = 3;
    assert_eq!((team_total_hp(&team).unwrap(), team_total_energy(&team).unwrap()), (300, 13));
    assert_eq!(alive_pet_names(&team), vec!["甲"]);
    team[0].cur_hp = i32::MAX;
    team[1].cur_hp = 1;
    assert!(team_total_hp(&team).is_err());
    assert!(resolve_winner_no_draw(1, 1, &team, &vec![pet("丙")]).is_err());
    team[0].energy = i32::MAX;
    assert!(team_total_energy(&team).is_err());
}
