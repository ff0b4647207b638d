use roco_battle::number::Overflow;
use roco_battle::pet::Side;
use roco_battle::pet_battle_patch::{PetBattlePatchEntry, PetBattlePatchTable};
use roco_battle::random::{rand_index, shuffle_indices};
use roco_battle::team::{
    build_battle_team, build_pet_index, generate_random_teams, i32_of_i64, i32_of_text, i32_of_u64, parse_cost,
    parse_fixed_team, parse_power, random_effort_values, take_in, train_hp, usable_pool, PetJsonLite, SkillDetailLite,
    TeamEntry, TeamError,
};

fn record(name: &str, skills: &[&str]) -> PetJsonLite {
    PetJsonLite {
        name: name.to_string(),
        element: "水".to_string(),
        element2: None,
        ability: "特".to_string(),
        ability_desc: "性".to_string(),
        hp: 100,
        speed: 90,
        physical_attack: 80,
        physical_defense: 70,
        magic_attack: 60,
        magic_defense: 50,
        skills: skills.iter().map(|s| s.to_string()).collect(),
        skill_details: Vec::new(),
    }
}

fn entry(pet: &str, skills: &[&str]) -> TeamEntry {
    TeamEntry { pet: pet.to_string(), nature: "认真".to_string(), skills: skills.iter().map(|s| s.to_string()).collect() }
}

fn no_patches() -> PetBattlePatchTable {
    PetBattlePatchTable::from_entries(Vec::new())
}

fn patch(name: &str) -> PetBattlePatchEntry {
    PetBattlePatchEntry {
        pet_name: name.to_string(),
        initial_energy: None,
        allow_over_max_energy: false,
        energy_cap: None,
        on_entry_energy_per_prior_ally_counter: None,
        on_entry_per_element_skill_bank: None,
    }
}

#[test]
fn numbers_on_record() {
    assert_eq!(parse_power("80"), 80);
    assert_eq!(parse_power("-80"), 0);
    assert_eq!(parse_power("—"), 60);
    assert_eq!(parse_power(" 80"), 60);
    assert_eq!(parse_cost("3"), 3);
    assert_eq!(parse_cost("-3"), 0);
    assert_eq!(parse_cost(""), 2);
    assert_eq!(i32_of_text(" 12 "), 12);
    assert_eq!(i32_of_text("十二"), 0);
    assert_eq!(i32_of_i64(-7), -7);
    assert_eq!(i32_of_i64(1 << 31), i32::MIN);
    assert_eq!(i32_of_i64(i64::MIN), 0);
    assert_eq!(i32_of_u64(7), 7);
    assert_eq!(i32_of_u64(u64::MAX), -1);
    for v in [0i64, 5, -5, 1 << 40, -(1 << 40) + 3, i64::MAX, i64::MIN + 9] {
        assert_eq!(i32_of_i64(v), v as i32);
        assert_eq!(i32_of_u64(v as u64), v as u64 as i32);
    }
}

#[test]
fn only_pets_with_skills_are_taken_in() {
    let mut pool = Vec::new();
    take_in(&mut pool, record("甲", &["a"]));
    take_in(&mut pool, record("乙", &[]));
    assert_eq!(pool.len(), 1);
    assert!(usable_pool(pool).is_ok());
    assert_eq!(usable_pool(Vec::new()).unwrap_err(), "data/pets 中没有可用精灵数据");
}

#[test]
fn the_later_record_of_a_name_counts() {
    let mut second = record("甲", &["b"]);
    second.hp = 7;
    let pool = vec![record("甲", &["a"]), record("乙", &["a"]), second];
    let index = build_pet_index(&pool);
    assert_eq!(index.get("甲").unwrap().hp, 7);
    assert_eq!(index.get("乙").unwrap().hp, 100);
    assert!(index.get("丙").is_none());
}

#[test]
fn training_raises_one_to_three_stats() {
    let mut seed = 12345u64;
    let mut counts = [0; 4];
    for _ in 0..500 {
        let e = random_effort_values(&mut seed);
        let all = [e.hp, e.patk, e.matk, e.pdef, e.mdef, e.speed];
        for v in all {
            assert!(v == 0 || [28, 32, 36, 40].contains(&v));
        }
        counts[all.iter().filter(|v| **v > 0).count()] += 1;
    }
    assert_eq!(counts[0], 0);
    assert!(counts[1] > 0 && counts[2] > 0 && counts[3] > 0);
}

/// The same draws, step by step.
fn effort_by_hand(seed: &mut u64) -> [i32; 6] {
    let n = rand_index(seed, 3) + 1;
    let mut order = [0usize, 1, 2, 3, 4, 5];
    for i in (1..6).rev() {
        let j = rand_index(seed, i + 1);
        order.swap(i, j);
    }
    let mut out = [0; 6];
    for idx in order.iter().take(n) {
        out[*idx] = (7 + rand_index(seed, 4) as i32) * 4;
    }
    out
}

#[test]
fn training_follows_the_seed() {
    for start in [0u64, 1, 42, u64::MAX, 987654321] {
        let (mut s, mut t) = (start, start);
        let e = random_effort_values(&mut s);
        assert_eq!([e.hp, e.patk, e.matk, e.pdef, e.mdef, e.speed], effort_by_hand(&mut t));
        assert_eq!(s, t);
    }
}

#[test]
fn draws_and_shuffles() {
    let mut seed = 42u64;
    let next = 42u64.wrapping_mul(6364136223846793005).wrapping_add(1);
    assert_eq!(rand_index(&mut seed, 10), ((next >> 32) as usize) % 10);
    assert_eq!(seed, next);
    let mut v: Vec<usize> = (0..20).collect();
    shuffle_indices(&mut v, &mut seed);
    assert_ne!(v, (0..20).collect::<Vec<_>>());
    let mut w = v.clone();
    w.sort();
    assert_eq!(w, (0..20).collect::<Vec<_>>());
    let before = seed;
    let mut one = vec![5usize];
    shuffle_indices(&mut one, &mut seed);
    assert_eq!((one, seed), (vec![5], before));
}

#[test]
fn a_team_is_made_ready() {
    let mut rec = record("甲", &["水枪", "撞击"]);
    rec.element2 = Some(" 火 ".to_string());
    rec.skill_details = vec![SkillDetailLite {
        name: "水枪".to_string(),
        element: "水".to_string(),
        category: "魔攻".to_string(),
        cost: "3".to_string(),
        power: "85".to_string(),
        effect: "先手+1".to_string(),
    }];
    let pool = vec![rec];
    let index = build_pet_index(&pool);
    let mut e = entry("甲", &["水枪", "没有"]);
    e.nature = " 胆小 ".to_string();
    let team = build_battle_team(&vec![e], &index, Side::A, &no_patches(), 1000).unwrap();
    let p = &team[0];
    let mut seed = 1000u64 ^ 65;
    let effort = effort_by_hand(&mut seed);
    assert_eq!(p.hp, 340 + effort[0]);
    assert_eq!(p.patk, 148 + effort[1]);
    assert_eq!(p.matk, 126 + effort[2]);
    assert_eq!(p.pdef, 137 + effort[3]);
    assert_eq!(p.mdef, 115 + effort[4]);
    assert_eq!(p.speed, 159 + effort[5]);
    assert_eq!((p.cur_hp, p.level, p.energy, p.energy_cap), (p.hp, 60, 10, 10));
    assert_eq!((p.nature.as_str(), p.element1.as_str(), p.element2.as_deref()), ("胆小", "水", Some("火")));
    assert_eq!((p.ability.as_str(), p.ability_desc.as_str()), ("特", "性"));
    let s = &p.skills[0];
    assert_eq!((s.name.as_str(), s.cost, s.power, s.category.as_str(), s.effect.as_str()), ("水枪", 3, 85, "魔攻", "先手+1"));
    let s = &p.skills[1];
    assert_eq!((s.name.as_str(), s.element.as_str(), s.category.as_str(), s.cost, s.power), ("没有", "普通", "物攻", 2, 60));
    assert_eq!(s.effect, "");
}

#[test]
fn blank_second_elements_are_none() {
    let mut rec = record("甲", &["a"]);
    rec.element2 = Some("  ".to_string());
    rec.hp = -5;
    let pool = vec![rec];
    let team = build_battle_team(&vec![entry("甲", &["a"])], &build_pet_index(&pool), Side::B, &no_patches(), 1).unwrap();
    assert_eq!(team[0].element2, None);
    // the least base value is one
    assert_eq!(team[0].hp - team[0].effort.hp, 172);
}

#[test]
fn unknown_pets_and_absurd_stats_are_refused() {
    let pool = vec![record("甲", &["a"])];
    let index = build_pet_index(&pool);
    match build_battle_team(&vec![entry("甲", &["a"]), entry("乙", &["a"])], &index, Side::B, &no_patches(), 1) {
        Err(TeamError::Unknown(m)) => assert_eq!(m, "B 方精灵不存在: 乙"),
        _ => panic!("expected a complaint"),
    }
    let mut rec = record("甲", &["a"]);
    rec.hp = i32::MAX;
    let pool = vec![rec];
    let index = build_pet_index(&pool);
    let r = build_battle_team(&vec![entry("甲", &["a"])], &index, Side::A, &no_patches(), 1);
    assert!(matches!(r, Err(TeamError::TooLarge)));
    assert!(matches!(train_hp(i32::MAX, 0), Err(Overflow)));
}

#[test]
fn patches_change_the_energy() {
    let pool = vec![record("甲", &["a"])];
    let index = build_pet_index(&pool);
    let energy = |p: PetBattlePatchEntry| {
        let table = PetBattlePatchTable::from_entries(vec![p]);
        let t = build_battle_team(&vec![entry("甲", &["a"])], &index, Side::A, &table, 9).unwrap();
        (t[0].energy, t[0].energy_cap)
    };
    assert_eq!(energy(patch("乙")), (10, 10));
    assert_eq!(energy(patch("甲")), (10, 10));
    assert_eq!(energy(PetBattlePatchEntry { initial_energy: Some(4), ..patch("甲") }), (4, 10));
    assert_eq!(energy(PetBattlePatchEntry { initial_energy: Some(40), ..patch("甲") }), (10, 10));
    assert_eq!(energy(PetBattlePatchEntry { initial_energy: Some(-4), ..patch("甲") }), (0, 10));
    let over = |cap, e| PetBattlePatchEntry { allow_over_max_energy: true, energy_cap: cap, initial_energy: e, ..patch("甲") };
    assert_eq!(energy(over(None, Some(40))), (40, 99));
    assert_eq!(energy(over(Some(20), Some(40))), (20, 20));
    assert_eq!(energy(over(Some(0), None)), (1, 1));
    assert_eq!(energy(PetBattlePatchEntry { energy_cap: Some(5), ..patch("甲") }), (5, 5));
    assert_eq!(energy(PetBattlePatchEntry { energy_cap: Some(-5), ..patch("甲") }), (1, 1));
}

#[test]
fn teams_are_read_from_text() {
    let line = "火花:火苗,撞击,抓挠,吼叫";
    let text = format!("{line}\n\n  水蓝蓝@胆小 : 水枪 , 撞击,抓挠,,吼叫 \n{line}\r\n{line}\n{line}\n甲@勇猛:a,b,c,d");
    let team = parse_fixed_team(&text, "AI A").unwrap();
    assert_eq!(team.len(), 6);
    assert_eq!((team[0].pet.as_str(), team[0].nature.as_str()), ("火花", "认真"));
    assert_eq!(team[0].skills, vec!["火苗", "撞击", "抓挠", "吼叫"]);
    assert_eq!((team[1].pet.as_str(), team[1].nature.as_str()), ("水蓝蓝", "胆小"));
    assert_eq!(team[1].skills, vec!["水枪", "撞击", "抓挠", "吼叫"]);
    assert_eq!((team[5].pet.as_str(), team[5].nature.as_str()), ("甲", "认真"));
}

#[test]
fn teams_in_text_are_complained_about() {
    let six = |last: &str| format!("{}{last}", "甲:a,b,c,d\n".repeat(5));
    assert_eq!(parse_fixed_team("", "AI A").unwrap_err(), "AI A 阵容需要 6 行，当前 0");
    assert_eq!(parse_fixed_team("甲:a,b,c,d\n\n乙", "AI B").unwrap_err(), "AI B 阵容需要 6 行，当前 2");
    assert_eq!(parse_fixed_team(&six("乙 a,b,c,d"), "AI A").unwrap_err(), "AI A 行格式错误：乙 a,b,c,d");
    assert_eq!(parse_fixed_team(&six("乙@胆小 :a,b,c"), "AI A").unwrap_err(), "AI A 的精灵 乙@胆小 需要 4 个技能");
    assert_eq!(parse_fixed_team(&six("乙:a,b,c,d,e"), "AI A").unwrap_err(), "AI A 的精灵 乙 需要 4 个技能");
}

#[test]
fn random_teams_hold_four_different_skills_each() {
    let names: Vec<String> = (0..9).map(|i| format!("技{i}")).collect();
    let refs: Vec<&str> = names.iter().map(|s| s.as_str()).collect();
    let pool = vec![record("甲", &refs), record("乙", &refs[..4]), record("丙", &refs[..3])];
    for clock in 0..200u64 {
        let (a, b) = generate_random_teams(&pool, clock).unwrap();
        assert_eq!((a.len(), b.len()), (6, 6));
        for e in a.iter().chain(b.iter()) {
            assert!(e.pet == "甲" || e.pet == "乙");
            assert_eq!(e.nature, "认真");
            let mut s = e.skills.clone();
            s.sort();
            s.dedup();
            assert_eq!(s.len(), 4);
        }
    }
}

#[test]
fn a_poor_pool_gives_no_teams() {
    let pool = vec![record("丙", &["a", "b", "c"])];
    assert_eq!(generate_random_teams(&pool, 5).unwrap_err(), "随机组队失败，请检查 data/pets 是否存在足够数据");
}
