use roco_battle::elements::{morph_stat_multiplier, nature_multiplier, type_multiplier, weather_damage_multiplier};
use roco_battle::pet::{BattlePet, BattleSkill, EffortValues, WeatherKind, WeatherState};
use roco_battle::stats::{damage_of_hit, effective_speed, hp_percent, status_tick};

fn skill(name: &str, element: &str, category: &str, cost: i32, power: i32, effect: &str) -> BattleSkill {
    BattleSkill {
        name: name.to_string(),
        element: element.to_string(),
        category: category.to_string(),
        cost,
        power,
        effect: effect.to_string(),
    }
}

fn pet(name: &str) -> BattlePet {
    BattlePet {
        name: name.to_string(),
        level: 60,
        nature: "认真".to_string(),
        ability: String::new(),
        ability_desc: String::new(),
        element1: "普通".to_string(),
        element2: None,
        hp: 300,
        cur_hp: 300,
        speed: 100,
        patk: 100,
        pdef: 100,
        matk: 100,
        mdef: 100,
        energy: 10,
        energy_cap: 10,
        poison_layers: 0,
        burn_layers: 0,
        freeze_layers: 0,
        parasitic_layers: 0,
        frozen_hp_locked: 0,
        charging_skill: None,
        entry_bonus_power: 0,
        entry_leave_immune: false,
        morph_stage: 0,
        effort: EffortValues { hp: 0, patk: 0, matk: 0, pdef: 0, mdef: 0, speed: 0 },
        skills: vec![skill("撞击", "普通", "物攻", 2, 60, "")],
    }
}

struct Lcg(u64);

impl Lcg {
    fn below(&mut self, n: u64) -> u64 {
        self.0 = self.0.wrapping_mul(6364136223846793005).wrapping_add(1442695040888963407);
        (self.0 >> 33) % n
    }
}

const NATURES: [&str; 6] = ["胆小", "固执", "保守", "大胆", "慎重", "认真"];
const ELEMENTS: [&str; 8] = ["普通", "草", "火", "水", "机械", "幽", "龙", "武"];

fn nature_f32(nature: &str, stat: &str) -> f32 {
    match (nature, stat) {
        ("胆小", "速度") | ("固执", "攻击") | ("保守", "特攻") | ("大胆", "防御") | ("慎重", "特防") => 1.1,
        ("胆小", "攻击") | ("固执", "特攻") | ("保守", "攻击") | ("大胆", "攻击") | ("慎重", "特攻") => 0.9,
        _ => 1.0,
    }
}

fn morph_f32(stage: u8) -> f32 {
    match stage {
        1 => 0.8,
        2 => 0.6,
        _ => 1.0,
    }
}

fn random_pet(r: &mut Lcg) -> BattlePet {
    let mut p = pet("甲");
    p.nature = NATURES[r.below(6) as usize].to_string();
    p.element1 = ELEMENTS[r.below(8) as usize].to_string();
    p.element2 = if r.below(2) == 0 { None } else { Some(ELEMENTS[r.below(8) as usize].to_string()) };
    p.speed = r.below(900) as i32;
    p.patk = r.below(900) as i32;
    p.pdef = r.below(900) as i32;
    p.matk = r.below(900) as i32;
    p.mdef = r.below(900) as i32;
    p.hp = 1 + r.below(2000) as i32;
    p.cur_hp = r.below(p.hp as u64 + 1) as i32;
    p.morph_stage = r.below(3) as u8;
    p
}

#[test]
fn damage_is_that_of_single_precision() {
    let mut r = Lcg(7);
    for _ in 0..20000 {
        let a = random_pet(&mut r);
        let d = random_pet(&mut r);
        let magic = r.below(2) == 0;
        let element = ELEMENTS[r.below(8) as usize];
        let s = skill("技", element, if magic { "魔攻" } else { "物攻" }, 1, 0, "");
        let power = 1 + r.below(300) as i32;
        let rain = r.below(2) == 0;
        let sky = if rain { Some(WeatherState { kind: WeatherKind::Rain, remain_turns: 3 }) } else { None };
        let (x, y, up, down) = if magic { (a.matk, d.mdef, "特攻", "特防") } else { (a.patk, d.pdef, "攻击", "防御") };
        let atk = (x.max(1) as f32 * morph_f32(a.morph_stage) * nature_f32(&a.nature, up)).max(1.0);
        let def = (y.max(1) as f32 * morph_f32(d.morph_stage) * nature_f32(&d.nature, down)).max(1.0);
        let type_mul = type_multiplier(element, &d.element1, &d.element2) as f32 / 100.0;
        let stab = if a.element1 == element || a.element2.as_deref() == Some(element) { 1.5 } else { 1.0 };
        let weather_mul = if rain && element == "水" { 1.5 } else { 1.0 };
        let want = ((atk / def) * 0.9 * (power as f32) * type_mul * stab * weather_mul).floor() as i32;
        assert_eq!(damage_of_hit(&a, &d, &s, power, &sky), want);
    }
}

#[test]
fn speed_is_that_of_single_precision() {
    let mut r = Lcg(8);
    for _ in 0..5000 {
        let p = random_pet(&mut r);
        let want = ((p.speed.max(1) as f32) * morph_f32(p.morph_stage) * nature_f32(&p.nature, "速度")).round() as i32;
        assert_eq!(effective_speed(&p), want);
    }
}

#[test]
fn percentages_are_those_of_single_precision() {
    let mut r = Lcg(9);
    for _ in 0..5000 {
        let p = random_pet(&mut r);
        let want = ((p.cur_hp as f32 / p.hp as f32) * 100.0).round() as i32;
        assert_eq!(hp_percent(&p), want);
    }
}

#[test]
fn ticks_are_those_of_single_precision() {
    let mut r = Lcg(10);
    for _ in 0..5000 {
        let p = random_pet(&mut r);
        let layers = 1 + r.below(30) as i32;
        let mul = type_multiplier("毒", &p.element1, &p.element2) as f32 / 100.0;
        let want = (((p.hp as f32) * 0.03).floor() as f32 * layers as f32 * mul).round() as i32;
        assert_eq!(status_tick(&p, 3, layers, "毒"), want);
        let mul = type_multiplier("火", &p.element1, &p.element2) as f32 / 100.0;
        let want = (((p.hp as f32) * 0.02).floor() as f32 * layers as f32 * mul).round() as i32;
        assert_eq!(status_tick(&p, 2, layers, "火"), want);
    }
}

#[test]
fn a_plain_hit() {
    // 100 / 100 * 0.9 * 60, with the bonus of the own element
    let a = pet("甲");
    let d = pet("乙");
    assert_eq!(damage_of_hit(&a, &d, &a.skills[0], 60, &None), 81);
    let s = skill("水枪", "水", "魔攻", 2, 60, "");
    assert_eq!(damage_of_hit(&a, &d, &s, 60, &None), 54);
    let rain = Some(WeatherState { kind: WeatherKind::Rain, remain_turns: 8 });
    assert_eq!(damage_of_hit(&a, &d, &s, 60, &rain), 81);
}

#[test]
fn factors_in_tenths_and_hundredths() {
    let mut p = pet("甲");
    assert_eq!(morph_stat_multiplier(&p), 10);
    p.morph_stage = 1;
    assert_eq!(morph_stat_multiplier(&p), 8);
    p.morph_stage = 2;
    assert_eq!(morph_stat_multiplier(&p), 6);
    assert_eq!(nature_multiplier("胆小", "速度"), 11);
    assert_eq!(nature_multiplier("胆小", "攻击"), 9);
    assert_eq!(nature_multiplier("胆小", "特攻"), 10);
    assert_eq!(nature_multiplier("认真", "速度"), 10);
    assert_eq!(nature_multiplier("不存在", "速度"), 10);
    let water = skill("水枪", "水", "魔攻", 2, 60, "");
    let rain = Some(WeatherState { kind: WeatherKind::Rain, remain_turns: 1 });
    let sand = Some(WeatherState { kind: WeatherKind::Sandstorm, remain_turns: 1 });
    assert_eq!(weather_damage_multiplier(&rain, &water), 15);
    assert_eq!(weather_damage_multiplier(&sand, &water), 10);
    assert_eq!(weather_damage_multiplier(&None, &water), 10);
    assert_eq!(weather_damage_multiplier(&rain, &p.skills[0]), 10);
}

#[test]
fn one_and_two_elements() {
    let some = |s: &str| Some(s.to_string());
    // one element
    assert_eq!(type_multiplier("水", "火", &None), 200);
    assert_eq!(type_multiplier("水", "草", &None), 50);
    assert_eq!(type_multiplier("水", "普通", &None), 100);
    // two elements
    assert_eq!(type_multiplier("水", "火", &some("地")), 300);
    assert_eq!(type_multiplier("水", "草", &some("冰")), 25);
    assert_eq!(type_multiplier("水", "火", &some("普通")), 200);
    assert_eq!(type_multiplier("水", "草", &some("普通")), 50);
    assert_eq!(type_multiplier("水", "火", &some("草")), 200);
    // the same element twice
    assert_eq!(type_multiplier("水", "火", &some("火")), 300);
    // no element of that name
    assert_eq!(type_multiplier("风", "火", &some("地")), 100);
    assert_eq!(type_multiplier("无", "火", &None), 100);
}

#[test]
fn full_and_empty_health() {
    let mut p = pet("甲");
    assert_eq!(hp_percent(&p), 100);
    p.cur_hp = 0;
    assert_eq!(hp_percent(&p), 0);
    p.cur_hp = 1;
    assert_eq!(hp_percent(&p), 0);
    p.cur_hp = 2;
    assert_eq!(hp_percent(&p), 1);
    p.hp = 0;
    assert_eq!(hp_percent(&p), 0);
}
