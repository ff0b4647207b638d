use roco_battle::battle::{choose_teams, saved_message, setup_mode_text, AiBattleSetupMode, Battle, Phase, Request, MAX_ROUNDS, START_LIFE};
use roco_battle::decide::decision_invalid_reason;
use roco_battle::pet::{BattlePet, BattleSkill, EffortValues, Side};
use roco_battle::pet_battle_patch::{PetBattlePatchEntry, PetBattlePatchTable};
use roco_battle::report::initial_state;
use roco_battle::team::PetJsonLite;

fn skill(name: &str, element: &str, category: &str, cost: i32, power: i32, effect: &str) -> BattleSkill {
    BattleSkill {
        name: name.to_string(),
        element: element.to_string(),
        category: category.to_string(),
        cost,
        power,
        effect: effect.to_string(),
    }
}

fn pet(name: &str) -> BattlePet {
    BattlePet {
        name: name.to_string(),
        level: 60,
        nature: "认真".to_string(),
        ability: String::new(),
        ability_desc: String::new(),
        element1: "普通".to_string(),
        element2: None,
        hp: 300,
        cur_hp: 300,
        speed: 100,
        patk: 100,
        pdef: 100,
        matk: 100,
        mdef: 100,
        energy: 10,
        energy_cap: 10,
        poison_layers: 0,
        burn_layers: 0,
        freeze_layers: 0,
        parasitic_layers: 0,
        frozen_hp_locked: 0,
        charging_skill: None,
        entry_bonus_power: 0,
        entry_leave_immune: false,
        morph_stage: 0,
        effort: EffortValues { hp: 0, patk: 0, matk: 0, pdef: 0, mdef: 0, speed: 0 },
        skills: vec![skill("撞击", "普通", "物攻", 2, 60, "")],
    }
}

fn no_patches() -> PetBattlePatchTable {
    PetBattlePatchTable::from_entries(Vec::new())
}

fn named(name: &str, speed: i32, skills: Vec<BattleSkill>) -> BattlePet {
    let mut p = pet(name);
    p.speed = speed;
    p.skills = skills;
    p
}

fn some(s: &str) -> Option<String> {
    Some(s.to_string())
}

struct Lcg(u64);

impl Lcg {
    fn below(&mut self, n: u64) -> u64 {
        self.0 = self.0.wrapping_mul(6364136223846793005).wrapping_add(1442695040888963407);
        (self.0 >> 33) % n
    }
}

#[test]
fn the_first_round() {
    let patches = no_patches();
    let a = vec![named("甲", 200, vec![skill("撞击", "普通", "物攻", 2, 60, "")])];
    let b = vec![named("乙", 100, vec![skill("撞击", "普通", "物攻", 2, 60, "")])];
    let mut battle = Battle::begin(a, b, &patches).unwrap();
    assert_eq!(
        battle.take_deltas(),
        vec![
            "=== 对战开始（程序结算，AI仅决策）===\n",
            "规则载入完成：AI 已在决策前获得完整对战规则摘要。\n",
            "PVP等级已统一：所有精灵等级设为 60 级。\n",
            "\n【回合 1】\n",
        ]
    );
    assert_eq!(battle.log.history, "\n【回合 1】\n");
    assert_eq!((battle.a.life, battle.b.life, battle.round), (START_LIFE, START_LIFE, 1));
    match battle.request() {
        Request::Ask { side, with_rules, prompt } => {
            assert!(side == Side::A && with_rules);
            assert!(prompt.starts_with("你是A方决策AI。"));
        }
        _ => panic!("side A is to be asked"),
    }
    battle.reply(some("SKILL:撞击"), &patches);
    match battle.request() {
        Request::Ask { side, with_rules, .. } => assert!(side == Side::B && with_rules),
        _ => panic!("side B is to be asked"),
    }
    battle.reply(some("CHARGE"), &patches);
    assert!(matches!(battle.request(), Request::Act));
    battle.act(&patches, 1, 2).unwrap();
    assert_eq!(battle.b.team[0].cur_hp, 219);
    assert!(matches!(battle.request(), Request::Act));
    battle.act(&patches, 3, 4).unwrap();
    // the next round has begun
    assert_eq!(battle.round, 2);
    match battle.request() {
        Request::Ask { side, with_rules, .. } => assert!(side == Side::A && !with_rules),
        _ => panic!("side A is to be asked"),
    }
    let r = &battle.rounds[0];
    assert_eq!((r.round, r.round_label.as_str(), r.acting_order.as_str()), (1, "回合1", "A_then_B"));
    assert_eq!((r.decision_a.as_str(), r.decision_b.as_str()), ("SKILL:撞击", "CHARGE"));
    assert_eq!((r.active_a.as_str(), r.active_b.as_str()), ("甲", "乙"));
    assert_eq!((r.hp_a_before, r.hp_a_after, r.hp_b_before, r.hp_b_after), (300, 300, 300, 219));
    assert_eq!((r.energy_a_before, r.energy_a_after, r.energy_b_before, r.energy_b_after), (10, 8, 10, 10));
    assert_eq!((r.life_a_after, r.life_b_after), (4, 4));
    assert_eq!((r.hp_a_max, r.hp_b_max, r.energy_a_max, r.energy_b_max), (300, 300, 10, 10));
    assert_eq!((r.alive_a.clone(), r.alive_b.clone()), (vec!["甲".to_string()], vec!["乙".to_string()]));
    assert_eq!(r.status_effects.len(), 2);
    assert_eq!(r.events.len(), 2);
    assert_eq!(r.events[0].text, "A方 甲 使用 [撞击]，消耗2能量，造成 81 伤害。乙 HP: 219/300");
    assert_eq!((r.events[0].event_type.as_str(), r.events[0].amount), ("DAMAGE", Some(81)));
    assert_eq!(r.events[1].event_type, "ENERGY_CHANGE");
}

#[test]
fn an_illegal_decision_is_asked_again() {
    let patches = no_patches();
    let mut weak = named("甲", 200, vec![skill("重击", "普通", "物攻", 9, 90, ""), skill("轻击", "普通", "物攻", 1, 30, "")]);
    weak.energy = 3;
    let b = vec![named("乙", 100, vec![skill("撞击", "普通", "物攻", 2, 60, "")])];
    let mut battle = Battle::begin(vec![weak], b, &patches).unwrap();
    battle.reply(some("SKILL:重击"), &patches);
    battle.reply(None, &patches);
    // side B did not reply: its first skill
    match battle.request() {
        Request::Ask { side, with_rules, .. } => assert!(side == Side::A && !with_rules),
        _ => panic!("side A is to be asked again"),
    }
    assert!(battle.log.history.ends_with("A方 甲 的行动非法（技能 [重击] 能量不足(3<9)），触发重新决策。\n"));
    // the complaint is not streamed
    assert!(!battle.take_deltas().iter().any(|d| d.contains("非法")));
    battle.reply(some("SKILL:轻击"), &patches);
    battle.act(&patches, 1, 1).unwrap();
    battle.act(&patches, 1, 1).unwrap();
    let r = &battle.rounds[0];
    assert_eq!((r.decision_a.as_str(), r.decision_b.as_str()), ("SKILL:轻击", "SKILL:撞击"));
    assert_eq!(r.events[0].text, "A方 甲 的行动非法（技能 [重击] 能量不足(3<9)），触发重新决策。");
}

#[test]
fn a_fallen_fighter_does_not_act() {
    let patches = no_patches();
    let a = vec![named("甲", 200, vec![skill("必杀", "普通", "物攻", 1, 900, "")])];
    let b = vec![
        named("乙", 100, vec![skill("撞击", "普通", "物攻", 2, 60, "")]),
        named("丙", 100, vec![skill("撞击", "普通", "物攻", 2, 60, "")]),
    ];
    let mut battle = Battle::begin(a, b, &patches).unwrap();
    battle.take_deltas();
    battle.reply(some("必杀"), &patches);
    battle.reply(some("撞击"), &patches);
    battle.act(&patches, 1, 1).unwrap();
    assert_eq!((battle.a.life, battle.b.life), (4, 3));
    assert_eq!(battle.a.team[0].cur_hp, 300);
    let deltas = battle.take_deltas();
    assert!(deltas.contains(&"B方损失1点生命值，剩余 3\n".to_string()));
    // the loss is streamed, not part of the history
    assert!(!battle.log.history.contains("损失"));
    // the next pet stands in, without entering
    assert_eq!((battle.b.active, battle.round), (1, 2));
    assert_eq!(battle.rounds[0].alive_b, vec!["丙"]);
    battle.reply(some("必杀"), &patches);
    battle.reply(some("撞击"), &patches);
    battle.act(&patches, 1, 1).unwrap();
    // nobody stands: it is over, though life is left
    assert!(matches!(battle.request(), Request::Over));
    assert_eq!((battle.b.life, battle.round), (2, 2));
}

#[test]
fn a_whole_battle_is_decided_by_life() {
    let patches = no_patches();
    let a = vec![named("甲", 200, vec![skill("必杀", "普通", "物攻", 0, 900, "")])];
    let b: Vec<BattlePet> = (0..6).map(|i| named(&format!("乙{i}"), 100, vec![skill("撞击", "普通", "物攻", 2, 60, "")])).collect();
    let first = initial_state(&a, &b);
    let mut battle = Battle::begin(a, b, &patches).unwrap();
    let mut steps = 0;
    loop {
        match battle.request() {
            Request::Ask { .. } => battle.reply(None, &patches),
            Request::Act => battle.act(&patches, steps, steps).unwrap(),
            Request::Over => break,
        }
        steps += 1;
    }
    assert_eq!((battle.a.life, battle.b.life), (4, 0));
    assert_eq!(battle.round, 4);
    battle.take_deltas();
    let (report, deltas) = battle.conclude(AiBattleSetupMode::Fixed, 123, first).unwrap();
    assert_eq!(deltas, vec!["\n=== 对战结束：A 方获胜 ===\n"]);
    assert_eq!((report.schema_version.as_str(), report.started_at_ms, report.setup_mode.as_str()), ("2.0", 123, "Fixed"));
    assert_eq!((report.winner.as_str(), report.final_life_a, report.final_life_b), ("A", 4, 0));
    assert_eq!((report.rounds.len(), report.initial_state.team_b.len()), (4, 6));
}

#[test]
fn the_last_round_ends_a_battle() {
    let patches = no_patches();
    let idle = |name: &str| named(name, 100, vec![skill("歇", "普通", "状态", 0, 0, "")]);
    let mut battle = Battle::begin(vec![idle("甲")], vec![idle("乙")], &patches).unwrap();
    loop {
        match battle.request() {
            Request::Ask { .. } => battle.reply(some("CHARGE"), &patches),
            Request::Act => battle.act(&patches, 1, 1).unwrap(),
            Request::Over => break,
        }
    }
    assert_eq!((battle.round, battle.rounds.len() as i32), (MAX_ROUNDS, MAX_ROUNDS));
    let (report, deltas) = battle.conclude(AiBattleSetupMode::Random, 1, initial_state(&vec![], &vec![])).unwrap();
    // all is even
    assert_eq!((report.winner.as_str(), report.setup_mode.as_str()), ("A", "Random"));
    assert_eq!(deltas.last().unwrap(), "\n=== 对战结束：A 方获胜 ===\n");
}

#[test]
fn counters_are_counted_for_later() {
    let patches = PetBattlePatchTable::from_entries(vec![PetBattlePatchEntry {
        pet_name: "丙".to_string(),
        initial_energy: None,
        allow_over_max_energy: false,
        energy_cap: None,
        on_entry_energy_per_prior_ally_counter: Some(2),
        on_entry_per_element_skill_bank: None,
    }]);
    let counter = || skill("反击", "普通", "物攻", 1, 10, "应对攻击");
    let mut receiver = named("丙", 100, vec![counter()]);
    receiver.energy = 1;
    let a = vec![named("甲", 10, vec![counter()]), receiver];
    let b = vec![named("乙", 100, vec![skill("撞击", "普通", "物攻", 0, 10, "")])];
    let mut battle = Battle::begin(a, b, &patches).unwrap();
    battle.reply(some("反击"), &patches);
    battle.reply(some("撞击"), &patches);
    assert_eq!((battle.a.ally_counter_bank, battle.b.ally_counter_bank), (1, 0));
    battle.act(&patches, 1, 1).unwrap();
    battle.act(&patches, 1, 1).unwrap();
    // the counter acted first, against greater speed
    assert_eq!(battle.rounds[0].acting_order, "A_then_B");
    battle.reply(some("SWITCH:丙"), &patches);
    battle.reply(some("撞击"), &patches);
    battle.act(&patches, 1, 1).unwrap();
    assert_eq!((battle.a.ally_counter_bank, battle.a.team[1].energy), (0, 3));
    battle.act(&patches, 1, 1).unwrap();
    // the one that settles the count adds nothing to it
    battle.reply(some("反击"), &patches);
    battle.reply(some("撞击"), &patches);
    assert_eq!(battle.a.ally_counter_bank, 0);
}

#[test]
fn a_charged_skill_holds_its_pet() {
    let patches = no_patches();
    let a = vec![named("甲", 200, vec![skill("歇", "普通", "状态", 0, 0, ""), skill("日光", "草", "魔攻", 1, 80, "蓄力")])];
    let b = vec![named("乙", 100, vec![skill("歇", "普通", "状态", 0, 0, "")])];
    let mut battle = Battle::begin(a, b, &patches).unwrap();
    for reply in ["日光", "歇"] {
        battle.reply(some(reply), &patches);
        battle.reply(some("歇"), &patches);
        battle.act(&patches, 1, 1).unwrap();
        battle.act(&patches, 1, 1).unwrap();
    }
    assert_eq!(battle.rounds[1].decision_a, "SKILL:日光");
    assert_eq!(battle.b.team[0].cur_hp, 228);
}

#[test]
fn random_battles_keep_to_the_rules() {
    let effects = [
        "", "2层中毒", "3层灼烧", "2层冻结", "寄生", "萌化", "下雨", "沙暴", "暴风雪", "棘刺", "降灵", "2层蓄电", "光合",
        "迅捷", "折返", "紧急脱离", "恢复", "蓄力", "连击", "先手+1", "应对攻击", "应对防御", "奉献：威力+20", "随机奉献",
    ];
    let elements = ["普通", "草", "火", "水", "地", "冰", "毒", "虫"];
    let categories = ["物攻", "魔攻", "防御", "状态"];
    for start in 0..12u64 {
        let mut r = Lcg(start);
        let mut team = |side: &str| -> Vec<BattlePet> {
            (0..6)
                .map(|i| {
                    let mut p = pet(&format!("{side}{i}"));
                    p.speed = 50 + r.below(300) as i32;
                    p.element1 = elements[r.below(8) as usize].to_string();
                    if r.below(2) == 0 {
                        p.element2 = Some(elements[r.below(8) as usize].to_string());
                    }
                    p.skills = (0..4)
                        .map(|k| {
                            let name = if r.below(9) == 0 { "啃咬".to_string() } else { format!("{side}{i}技{k}") };
                            skill(
                                &name,
                                elements[r.below(8) as usize],
                                categories[r.below(4) as usize],
                                r.below(6) as i32,
                                r.below(100) as i32,
                                effects[r.below(effects.len() as u64) as usize],
                            )
                        })
                        .collect();
                    p
                })
                .collect()
        };
        let (a, b) = (team("甲"), team("乙"));
        let patches = no_patches();
        let mut battle = Battle::begin(a, b, &patches).unwrap();
        let mut told = [0, 0];
        let mut steps = 0;
        let mut history = battle.log.history.clone();
        loop {
            match battle.request() {
                Request::Ask { side, with_rules, prompt } => {
                    if with_rules {
                        told[if side == Side::A { 0 } else { 1 }] += 1;
                    }
                    let offers: Vec<&str> = prompt.lines().last().unwrap().split(" | ").collect();
                    let reply = match r.below(8) {
                        0 => None,
                        1 => some("胡言乱语"),
                        2 => some("SKILL:没有"),
                        3 => some("SWITCH:没有"),
                        _ => some(offers[r.below(offers.len() as u64) as usize]),
                    };
                    battle.reply(reply, &patches);
                }
                Request::Act => {
                    if let Phase::Act(orders) = &battle.phase {
                        let own = if orders.mover() == Side::A { &battle.a } else { &battle.b };
                        assert_eq!(decision_invalid_reason(&own.team, own.active, orders.decision(), &battle.weather), None);
                    }
                    let (x, y) = (r.below(u32::MAX as u64), r.below(u32::MAX as u64));
                    battle.act(&patches, x, y).unwrap();
                }
                Request::Over => break,
            }
            steps += 1;
            assert!(steps <= 6 * MAX_ROUNDS);
            assert!(battle.log.history.starts_with(&history));
            history = battle.log.history.clone();
            for p in battle.a.team.iter().chain(battle.b.team.iter()) {
                assert!(0 <= p.energy && p.energy <= p.energy_cap);
                assert!(0 <= p.cur_hp && p.cur_hp <= p.hp - p.frozen_hp_locked);
                assert!(p.frozen_hp_locked < p.hp);
            }
        }
        assert_eq!(told, [1, 1]);
        for (i, rec) in battle.rounds.iter().enumerate() {
            assert_eq!(rec.round, i as i32 + 1);
        }
        let over = battle.a.life == 0
            || battle.b.life == 0
            || battle.round == MAX_ROUNDS
            || battle.a.team.iter().all(|p| p.cur_hp == 0)
            || battle.b.team.iter().all(|p| p.cur_hp == 0);
        assert!(over);
        assert!(battle.conclude(AiBattleSetupMode::Random, 1, initial_state(&vec![], &vec![])).is_ok());
    }
}

#[test]
fn teams_of_either_kind() {
    assert_eq!(setup_mode_text(AiBattleSetupMode::Random), "Random");
    assert_eq!(setup_mode_text(AiBattleSetupMode::Fixed), "Fixed");
    let pool = vec![PetJsonLite {
        name: "甲".to_string(),
        element: "水".to_string(),
        element2: None,
        ability: String::new(),
        ability_desc: String::new(),
        hp: 1,
        speed: 1,
        physical_attack: 1,
        physical_defense: 1,
        magic_attack: 1,
        magic_defense: 1,
        skills: vec!["a".to_string(), "b".to_string(), "c".to_string(), "d".to_string()],
        skill_details: Vec::new(),
    }];
    let (a, b) = choose_teams(AiBattleSetupMode::Random, &pool, "", "", 5).unwrap();
    assert_eq!((a.len(), b.len(), a[0].pet.as_str()), (6, 6, "甲"));
    let good = "甲:a,b,c,d\n".repeat(6);
    let (a, b) = choose_teams(AiBattleSetupMode::Fixed, &pool, &good, &good, 5).unwrap();
    assert_eq!((a.len(), b.len()), (6, 6));
    assert_eq!(choose_teams(AiBattleSetupMode::Fixed, &pool, "", "", 5).unwrap_err(), "AI A 阵容需要 6 行，当前 0");
    assert_eq!(choose_teams(AiBattleSetupMode::Fixed, &pool, &good, "", 5).unwrap_err(), "AI B 阵容需要 6 行，当前 0");
}

#[test]
fn a_saved_record_is_told() {
    assert_eq!(saved_message("data/x.json"), "结构化战报已保存：data/x.json\n");
}

#[test]
fn an_overflow_ends_the_turn() {
    let patches = no_patches();
    let mut strong = named("甲", 200, vec![skill("重击", "普通", "物攻", 0, i32::MAX, "")]);
    strong.entry_bonus_power = 1;
    let b = vec![named("乙", 100, vec![skill("歇", "普通", "状态", 0, 0, "")])];
    let mut battle = Battle::begin(vec![strong], b, &patches).unwrap();
    battle.reply(some("重击"), &patches);
    battle.reply(some("歇"), &patches);
    assert!(battle.act(&patches, 1, 1).is_err());
}
