//! What a side is told before it decides.

use vstd::prelude::*;
use crate::camp;
use crate::effects;
use crate::history;
use crate::history::{compact_recent_dynamics, names_or_none, observed_enemy_intel};
use crate::number;
use crate::number::{push_int, push_nat};
use crate::pet;
use crate::pet::{
    BattlePet, BattleSkill, EffortValues, NegativeImprint, NegativeImprintKind, Pet,
    PositiveImprint, PositiveImprintKind, Side, Skill, WeatherState,
};
use crate::stats;
use crate::text;
use crate::weather;

verus! {

/// The rules of the battle, as they are told to whoever decides.
pub const BATTLE_RULES: &'static str = "你是洛克王国PVP对战决策器。你必须严格遵守以下规则并只做一行动作决策：\n\
1) 只允许输出一行：SKILL:技能名 或 SWITCH:精灵名 或 CHARGE，禁止解释。\n\
2) 回合制；每回合只能行动一次；换宠也算行动。\n\
3) 先手规则：先比较先手+X，再比较速度；非防御类技能在应对成功时可抢先出手；防御类技能即使应对成功也不因此抢先，仍按先手+X与速度排序。\n\
4) 能量规则：技能需要足够能量才能释放；恢复类效果可回能；每只精灵默认满能量(10)；换宠不重置能量；CHARGE为每回合可用独立回能指令。\n\
5) 属性克制：单克制2.0，单抵抗0.5；双属性双克制3.0，双属性双抵抗0.25。\n\
6) 伤害核心：攻击/防御×0.9×威力×克制×本系加成，并受天气/词条影响。\n\
7) 状态与词条按战报与规则结算（中毒/灼烧/冻结/寄生/萌化/印记/天气等）。\n\
   - 换下场后会清除：中毒、灼烧、寄生。\n\
   - 换下场后不会清除：冻结、萌化。\n\
   - 场地印记默认不会因换宠自动清除；仅在技能效果明确写“清除印记/覆盖印记”时改变。\n\
8) 信息可见性限制：你不能直接知道敌方隐藏信息（性格、努力值、未登场精灵等），只能基于当前可见状态和历史观测推断。\n\
9) 若某技能当前能量不足则视为非法选择，不得输出该技能。\n\
10) 应对触发规则：\n\
   - 你的技能效果含“应对攻击”时，对手本回合若使用分类为“物攻”或“魔攻”的技能，则应对成功。\n\
   - 你的技能效果含“应对防御”时，对手本回合若使用分类为“防御”的技能，则应对成功。\n\
   - 你的技能效果含“应对状态”时，对手本回合若使用分类为“状态”的技能，则应对成功。\n\
11) 属性克制表（攻击属性 -> strong(克制), resist(被抵抗)）：\n\
   普通 -> strong:[] resist:[地,幽,机械]\n\
   草 -> strong:[水,光,地] resist:[火,龙,毒,虫,翼,机械]\n\
   火 -> strong:[草,冰,虫,机械] resist:[水,地,龙]\n\
   水 -> strong:[火,地,机械] resist:[草,冰,龙]\n\
   光 -> strong:[幽,恶] resist:[草,冰]\n\
   地 -> strong:[火,冰,电,毒] resist:[草,武]\n\
   冰 -> strong:[草,地,龙,翼] resist:[火,冰,机械]\n\
   龙 -> strong:[龙] resist:[机械]\n\
   电 -> strong:[水,翼] resist:[草,地,龙,电]\n\
   毒 -> strong:[草,萌] resist:[地,毒,幽,机械]\n\
   虫 -> strong:[草,恶,幻] resist:[火,毒,武,翼,萌,幽,机械]\n\
   武 -> strong:[普通,地,冰,恶,机械] resist:[毒,虫,翼,萌,幽,幻]\n\
   翼 -> strong:[草,虫,武] resist:[地,龙,电,机械]\n\
   萌 -> strong:[龙,武,恶] resist:[火,毒,机械]\n\
   幽 -> strong:[光,幽,幻] resist:[普通,恶]\n\
   恶 -> strong:[毒,萌,幽] resist:[光,武,恶]\n\
   机械 -> strong:[地,冰,萌] resist:[火,水,电,机械]\n\
   幻 -> strong:[毒,武] resist:[光,机械,幻]\n\
   无 -> strong:[] resist:[]\n\
12) 目标是最大化本方胜率。";

/// The rules of the battle, as they are told to whoever decides.
pub fn battle_rule_prompt() -> (r: &'static str)
    ensures
        r@ == BATTLE_RULES@,
{
    BATTLE_RULES
}

// Short descriptions.

/// A list with one more part, a name and a number, if the number is positive.
pub open spec fn with_count(done: Seq<Seq<char>>, name: Seq<char>, n: int) -> Seq<Seq<char>> {
    if n > 0 {
        done.push(name + number::int_text(n))
    } else {
        done
    }
}

fn add_count(parts: &mut Vec<String>, name: &str, n: i32)
    ensures
        text::texts(final(parts)@) == with_count(text::texts(old(parts)@), name@, n as int),
{
    if n > 0 {
        let mut m: String = name.to_owned();
        push_int(&mut m, n);
        parts.push(m);
        assert(text::texts(parts@) == text::texts(old(parts)@).push(m@));
    }
}

/// The training of a pet.
pub open spec fn effort_text(e: EffortValues) -> Seq<char> {
    let none: Seq<Seq<char>> = seq![];
    let p = with_count(none, "生命+"@, e.hp as int);
    let p = with_count(p, "物攻+"@, e.patk as int);
    let p = with_count(p, "魔攻+"@, e.matk as int);
    let p = with_count(p, "物防+"@, e.pdef as int);
    let p = with_count(p, "魔防+"@, e.mdef as int);
    let p = with_count(p, "速度+"@, e.speed as int);
    history::named_or_none(p, "、"@)
}

/// The training of a pet.
pub fn effort_summary(e: &EffortValues) -> (r: String)
    ensures
        r@ == effort_text(*e),
{
    let mut parts: Vec<String> = Vec::new();
    assert(text::texts(parts@) == Seq::<Seq<char>>::empty());
    add_count(&mut parts, "生命+", e.hp);
    add_count(&mut parts, "物攻+", e.patk);
    add_count(&mut parts, "魔攻+", e.matk);
    add_count(&mut parts, "物防+", e.pdef);
    add_count(&mut parts, "魔防+", e.mdef);
    add_count(&mut parts, "速度+", e.speed);
    names_or_none(&parts, "、")
}

/// The weather and how long it lasts.
pub open spec fn weather_text(w: Option<WeatherState>) -> Seq<char> {
    match w {
        None => "无"@,
        Some(w) => weather::kind_text(w.kind) + "(剩余"@ + number::int_text(w.remain_turns as int)
            + "回合)"@,
    }
}

/// The weather and how long it lasts.
pub fn weather_summary(w: &Option<WeatherState>) -> (r: String)
    ensures
        r@ == weather_text(*w),
{
    match w {
        None => "无".to_owned(),
        Some(w) => {
            let mut m: String = weather::kind_name(w.kind).to_owned();
            m.append("(剩余");
            push_int(&mut m, w.remain_turns);
            m.append("回合)");
            m
        },
    }
}

/// A mark that hurts, with its layers.
pub open spec fn negative_text(imprint: Option<NegativeImprint>) -> Seq<char> {
    match imprint {
        None => "无"@,
        Some(i) => (match i.kind {
            NegativeImprintKind::Thorn => "棘刺"@,
            NegativeImprintKind::Descend => "降灵"@,
        }) + "x"@ + number::int_text(i.layers as int),
    }
}

/// A mark that hurts, with its layers.
pub fn negative_imprint_summary(imprint: Option<NegativeImprint>) -> (r: String)
    ensures
        r@ == negative_text(imprint),
{
    match imprint {
        None => "无".to_owned(),
        Some(i) => {
            let kind: &str = match i.kind {
                NegativeImprintKind::Thorn => "棘刺",
                NegativeImprintKind::Descend => "降灵",
            };
            let mut m: String = kind.to_owned();
            m.append("x");
            push_int(&mut m, i.layers);
            m
        },
    }
}

/// A mark that helps, with its layers.
pub open spec fn positive_text(imprint: Option<PositiveImprint>) -> Seq<char> {
    match imprint {
        None => "无"@,
        Some(i) => (match i.kind {
            PositiveImprintKind::Charge => "蓄电"@,
            PositiveImprintKind::Photosynthesis => "光合"@,
        }) + "x"@ + number::int_text(i.layers as int),
    }
}

/// A mark that helps, with its layers.
pub fn positive_imprint_summary(imprint: Option<PositiveImprint>) -> (r: String)
    ensures
        r@ == positive_text(imprint),
{
    match imprint {
        None => "无".to_owned(),
        Some(i) => {
            let kind: &str = match i.kind {
                PositiveImprintKind::Charge => "蓄电",
                PositiveImprintKind::Photosynthesis => "光合",
            };
            let mut m: String = kind.to_owned();
            m.append("x");
            push_int(&mut m, i.layers);
            m
        },
    }
}

/// All that lies on a pet.
pub open spec fn status_text(p: Pet) -> Seq<char> {
    let none: Seq<Seq<char>> = seq![];
    let t = with_count(none, "中毒"@, p.poison_layers);
    let t = with_count(t, "灼烧"@, p.burn_layers);
    let t = with_count(t, "冻结"@, p.freeze_layers);
    let t = with_count(t, "寄生"@, p.parasitic_layers);
    let t = with_count(t, "萌化阶段"@, p.morph_stage);
    let t = with_count(t, "冻结锁血"@, p.frozen_hp_locked);
    history::named_or_none(t, "、"@)
}

/// All that lies on a pet.
pub fn pet_status_summary(pet: &BattlePet) -> (r: String)
    ensures
        r@ == status_text(pet@),
{
    let mut parts: Vec<String> = Vec::new();
    assert(text::texts(parts@) == Seq::<Seq<char>>::empty());
    add_count(&mut parts, "中毒", pet.poison_layers);
    add_count(&mut parts, "灼烧", pet.burn_layers);
    add_count(&mut parts, "冻结", pet.freeze_layers);
    add_count(&mut parts, "寄生", pet.parasitic_layers);
    add_count(&mut parts, "萌化阶段", pet.morph_stage as i32);
    add_count(&mut parts, "冻结锁血", pet.frozen_hp_locked);
    names_or_none(&parts, "、")
}

/// The elements of a pet.
pub open spec fn element_text(p: Pet) -> Seq<char> {
    match p.element2 {
        Some(e) => if text::trimmed(e).len() == 0 {
            p.element1
        } else {
            p.element1 + "/"@ + e
        },
        None => p.element1,
    }
}

/// The elements of a pet.
pub fn pet_element_summary(pet: &BattlePet) -> (r: String)
    ensures
        r@ == element_text(pet@),
{
    match &pet.element2 {
        Some(e) => {
            if text::trim(e.as_str()).unicode_len() == 0 {
                pet.element1.clone()
            } else {
                let mut m: String = pet.element1.clone();
                m.append("/");
                m.append(e.as_str());
                m
            }
        },
        None => pet.element1.clone(),
    }
}

/// A text without white space around it, or the word for none.
pub open spec fn trimmed_or_none(t: Seq<char>) -> Seq<char> {
    if text::trimmed(t).len() == 0 {
        "无"@
    } else {
        text::trimmed(t)
    }
}

fn trim_or_none<'a>(s: &'a str) -> (r: &'a str)
    ensures
        r@ == trimmed_or_none(s@),
{
    let t: &'a str = text::trim(s);
    if t.unicode_len() == 0 {
        "无"
    } else {
        t
    }
}

// The skills.

/// A skill in full.
pub open spec fn skill_line(s: Skill, sky: Option<WeatherState>) -> Seq<char> {
    "- "@ + s.name + "|属性:"@ + s.element + "|分类:"@ + s.category + "|能耗:"@ + number::int_text(
        effects::cost_in(s, sky),
    ) + "|威力:"@ + number::int_text(s.power) + "|"@ + s.effect
}

fn describe_skill(s: &BattleSkill, sky: &Option<WeatherState>) -> (r: String)
    requires
        s@.wf(),
    ensures
        r@ == skill_line(s@, *sky),
{
    let mut m: String = "- ".to_owned();
    m.append(s.name.as_str());
    m.append("|属性:");
    m.append(s.element.as_str());
    m.append("|分类:");
    m.append(s.category.as_str());
    m.append("|能耗:");
    push_int(&mut m, effects::calc_skill_cost(s, sky));
    m.append("|威力:");
    push_int(&mut m, s.power);
    m.append("|");
    m.append(s.effect.as_str());
    m
}

/// Whether the pet can pay for its skill number `i`.
pub open spec fn affords(p: Pet, sky: Option<WeatherState>, i: int) -> bool {
    p.energy >= effects::cost_in(p.skills[i], sky)
}

/// The first `n` skills, in full, as far as the pet can pay for them.
pub open spec fn usable_lines(p: Pet, sky: Option<WeatherState>, n: int) -> Seq<Seq<char>>
    decreases n,
{
    if n <= 0 {
        seq![]
    } else if affords(p, sky, n - 1) {
        usable_lines(p, sky, n - 1).push(skill_line(p.skills[n - 1], sky))
    } else {
        usable_lines(p, sky, n - 1)
    }
}

/// The names of the first `n` skills, as far as the pet cannot pay for them.
pub open spec fn blocked_names(p: Pet, sky: Option<WeatherState>, n: int) -> Seq<Seq<char>>
    decreases n,
{
    if n <= 0 {
        seq![]
    } else if affords(p, sky, n - 1) {
        blocked_names(p, sky, n - 1)
    } else {
        blocked_names(p, sky, n - 1).push(p.skills[n - 1].name)
    }
}

/// The actions that use one of the first `n` skills, as far as the pet can pay for them.
pub open spec fn skill_actions(p: Pet, sky: Option<WeatherState>, n: int) -> Seq<Seq<char>>
    decreases n,
{
    if n <= 0 {
        seq![]
    } else if affords(p, sky, n - 1) {
        skill_actions(p, sky, n - 1).push("SKILL:"@ + p.skills[n - 1].name)
    } else {
        skill_actions(p, sky, n - 1)
    }
}

fn sort_skills(p: &BattlePet, sky: &Option<WeatherState>) -> (r: (
    Vec<String>,
    Vec<String>,
    Vec<String>,
))
    requires
        p@.wf(),
    ensures
        text::texts(r.0@) == usable_lines(p@, *sky, p@.skills.len() as int),
        text::texts(r.1@) == blocked_names(p@, *sky, p@.skills.len() as int),
        text::texts(r.2@) == skill_actions(p@, *sky, p@.skills.len() as int),
{
    let mut lines: Vec<String> = Vec::new();
    let mut blocked: Vec<String> = Vec::new();
    let mut actions: Vec<String> = Vec::new();
    let mut n: usize = 0;
    while n < p.skills.len()
        invariant
            n <= p.skills.len(),
            p@.wf(),
            text::texts(lines@) == usable_lines(p@, *sky, n as int),
            text::texts(blocked@) == blocked_names(p@, *sky, n as int),
            text::texts(actions@) == skill_actions(p@, *sky, n as int),
        decreases p.skills.len() - n,
    {
        let s: &BattleSkill = &p.skills[n];
        assert(s@ == p@.skills[n as int]);
        if p.energy >= effects::calc_skill_cost(s, sky) {
            let ghost (l0, a0) = (lines@, actions@);
            let line: String = describe_skill(s, sky);
            lines.push(line);
            assert(text::texts(lines@) == text::texts(l0).push(line@));
            let mut m: String = "SKILL:".to_owned();
            m.append(s.name.as_str());
            actions.push(m);
            assert(text::texts(actions@) == text::texts(a0).push(m@));
        } else {
            let ghost b0 = blocked@;
            blocked.push(s.name.clone());
            assert(text::texts(blocked@) == text::texts(b0).push(s.name@));
        }
        n = n + 1;
    }
    (lines, blocked, actions)
}

// The team.

/// The names of the pets that can come in.
pub open spec fn reserve_names(team: Seq<Pet>, active: int) -> Seq<Seq<char>> {
    camp::reserves(team, active).map_values(|i: usize| team[i as int].name)
}

fn names_in_reserve(team: &Vec<BattlePet>, active: usize) -> (r: Vec<String>)
    ensures
        text::texts(r@) == reserve_names(pet::pets_of(team@), active as int),
{
    let places: Vec<usize> = camp::reserve_indices(team, active);
    let ghost wanted = reserve_names(pet::pets_of(team@), active as int);
    let mut r: Vec<String> = Vec::new();
    let mut i: usize = 0;
    while i < places.len()
        invariant
            i <= places.len(),
            wanted == reserve_names(pet::pets_of(team@), active as int),
            places@ == camp::reserves(pet::pets_of(team@), active as int),
            forall|k: int| 0 <= k < places.len() ==> (#[trigger] places@[k]) < team.len(),
            text::texts(r@) == wanted.take(i as int),
        decreases places.len() - i,
    {
        let ghost before = r@;
        let at: usize = places[i];
        assert(wanted[i as int] == team@[at as int].name@);
        r.push(team[at].name.clone());
        assert(text::texts(r@) == text::texts(before).push(wanted[i as int]));
        i = i + 1;
    }
    assert(wanted.take(i as int) == wanted);
    r
}

/// A list of names, each with a word in front.
pub open spec fn prefixed(word: Seq<char>, names: Seq<Seq<char>>) -> Seq<Seq<char>> {
    names.map_values(|name: Seq<char>| word + name)
}

/// All that the side may do: use a skill that its fighter can pay for, bring in a pet that stands,
/// or charge.
pub open spec fn legal_actions(team: Seq<Pet>, active: int, sky: Option<WeatherState>) -> Seq<
    Seq<char>,
> {
    (skill_actions(team[active], sky, team[active].skills.len() as int) + prefixed(
        "SWITCH:"@,
        reserve_names(team, active),
    )).push("CHARGE"@)
}

fn add_switches(actions: &mut Vec<String>, names: &Vec<String>)
    ensures
        text::texts(final(actions)@) == (text::texts(old(actions)@) + prefixed(
            "SWITCH:"@,
            text::texts(names@),
        )).push("CHARGE"@),
{
    let ghost start = text::texts(actions@);
    let ghost more = prefixed("SWITCH:"@, text::texts(names@));
    let mut i: usize = 0;
    assert(start + more.take(0) == start);
    while i < names.len()
        invariant
            i <= names.len(),
            more == prefixed("SWITCH:"@, text::texts(names@)),
            text::texts(actions@) == start + more.take(i as int),
        decreases names.len() - i,
    {
        let ghost before = actions@;
        let mut m: String = "SWITCH:".to_owned();
        m.append(names[i].as_str());
        assert(m@ == more[i as int]);
        actions.push(m);
        assert(text::texts(actions@) == text::texts(before).push(more[i as int]));
        assert(start + more.take(i + 1) == (start + more.take(i as int)).push(more[i as int]));
        i = i + 1;
    }
    assert(more.take(i as int) == more);
    let ghost before = actions@;
    actions.push("CHARGE".to_owned());
    assert(text::texts(actions@) == text::texts(before).push("CHARGE"@));
}

/// A skill in short.
pub open spec fn skill_brief(s: Skill, sky: Option<WeatherState>) -> Seq<char> {
    let effect = if text::trimmed(s.effect).len() == 0 {
        seq![]
    } else {
        "/"@ + text::trimmed(s.effect)
    };
    s.name + "("@ + number::int_text(s.power) + "/"@ + s.category + "/耗"@ + number::int_text(
        effects::cost_in(s, sky),
    ) + effect + ")"@
}

fn brief_skill(s: &BattleSkill, sky: &Option<WeatherState>) -> (r: String)
    requires
        s@.wf(),
    ensures
        r@ == skill_brief(s@, *sky),
{
    let mut m: String = s.name.clone();
    m.append("(");
    push_int(&mut m, s.power);
    m.append("/");
    m.append(s.category.as_str());
    m.append("/耗");
    push_int(&mut m, effects::calc_skill_cost(s, sky));
    let effect: &str = text::trim(s.effect.as_str());
    if effect.unicode_len() > 0 {
        let mut e: String = "/".to_owned();
        e.append(effect);
        m.append(e.as_str());
    } else {
        assert(m@ + Seq::<char>::empty() == m@);
    }
    m.append(")");
    m
}

/// The skills of a pet, in short.
pub open spec fn skills_brief(p: Pet, sky: Option<WeatherState>) -> Seq<char> {
    text::joined(p.skills.map_values(|s: Skill| skill_brief(s, sky)), "，"@)
}

fn brief_skills(p: &BattlePet, sky: &Option<WeatherState>) -> (r: String)
    requires
        p@.wf(),
    ensures
        r@ == skills_brief(p@, *sky),
{
    let ghost wanted = p@.skills.map_values(|s: Skill| skill_brief(s, *sky));
    let mut parts: Vec<String> = Vec::new();
    let mut i: usize = 0;
    while i < p.skills.len()
        invariant
            i <= p.skills.len(),
            p@.wf(),
            wanted == p@.skills.map_values(|s: Skill| skill_brief(s, *sky)),
            text::texts(parts@) == wanted.take(i as int),
        decreases p.skills.len() - i,
    {
        let ghost before = parts@;
        assert(p@.skills[i as int] == p.skills@[i as int]@);
        let b: String = brief_skill(&p.skills[i], sky);
        assert(b@ == wanted[i as int]);
        parts.push(b);
        assert(text::texts(parts@) == text::texts(before).push(b@));
        i = i + 1;
    }
    assert(wanted.take(i as int) == wanted);
    text::join(&parts, "，")
}

/// The pet in place `i` of the team, in full, with a star if it is the fighter.
pub open spec fn member_line(team: Seq<Pet>, active: int, sky: Option<WeatherState>, i: int) -> Seq<
    char,
> {
    let p = team[i];
    "- "@ + (if i == active {
        "*"@
    } else {
        ""@
    }) + number::nat_text((i + 1) as nat) + ": "@ + p.name + " ["@ + element_text(p) + "] HP "@
        + number::int_text(p.cur_hp) + "/"@ + number::int_text(p.hp) + " EN"@ + number::int_text(
        p.energy,
    ) + " SPD"@ + number::int_text(p.speed) + " 特性:"@ + trimmed_or_none(p.ability) + "("@
        + trimmed_or_none(p.ability_desc) + ") 技能:"@ + skills_brief(p, sky)
}

fn describe_member(team: &Vec<BattlePet>, active: usize, sky: &Option<WeatherState>, i: usize) -> (r:
    String)
    requires
        i < team.len(),
        team@[i as int]@.wf(),
    ensures
        r@ == member_line(pet::pets_of(team@), active as int, *sky, i as int),
{
    let p: &BattlePet = &team[i];
    assert(p@ == pet::pets_of(team@)[i as int]);
    let mut m: String = "- ".to_owned();
    m.append(
        if i == active {
            "*"
        } else {
            ""
        },
    );
    push_nat(&mut m, i as u128 + 1);
    m.append(": ");
    m.append(p.name.as_str());
    m.append(" [");
    m.append(pet_element_summary(p).as_str());
    m.append("] HP ");
    push_int(&mut m, p.cur_hp);
    m.append("/");
    push_int(&mut m, p.hp);
    m.append(" EN");
    push_int(&mut m, p.energy);
    m.append(" SPD");
    push_int(&mut m, p.speed);
    m.append(" 特性:");
    m.append(trim_or_none(p.ability.as_str()));
    m.append("(");
    m.append(trim_or_none(p.ability_desc.as_str()));
    m.append(") 技能:");
    m.append(brief_skills(p, sky).as_str());
    m
}

/// The team in full, a line for each pet.
pub open spec fn team_lines(team: Seq<Pet>, active: int, sky: Option<WeatherState>) -> Seq<Seq<char>> {
    Seq::new(team.len(), |i: int| member_line(team, active, sky, i))
}

fn describe_team(team: &Vec<BattlePet>, active: usize, sky: &Option<WeatherState>) -> (r: Vec<
    String,
>)
    requires
        forall|i: int| 0 <= i < team.len() ==> (#[trigger] team@[i])@.wf(),
    ensures
        text::texts(r@) == team_lines(pet::pets_of(team@), active as int, *sky),
{
    let ghost wanted = team_lines(pet::pets_of(team@), active as int, *sky);
    let mut r: Vec<String> = Vec::new();
    let mut i: usize = 0;
    while i < team.len()
        invariant
            i <= team.len(),
            forall|i: int| 0 <= i < team.len() ==> (#[trigger] team@[i])@.wf(),
            wanted == team_lines(pet::pets_of(team@), active as int, *sky),
            text::texts(r@) == wanted.take(i as int),
        decreases team.len() - i,
    {
        let ghost before = r@;
        assert(team@[i as int]@.wf());
        let line: String = describe_member(team, active, sky, i);
        assert(line@ == wanted[i as int]);
        r.push(line);
        assert(text::texts(r@) == text::texts(before).push(line@));
        i = i + 1;
    }
    assert(wanted.take(i as int) == wanted);
    r
}

/// A pet that does not fight at the moment, in short, behind its number.
pub open spec fn bench_line(p: Pet, n: nat) -> Seq<char> {
    let ability = if text::trimmed(p.ability).len() == 0 {
        seq![]
    } else {
        " [特性:"@ + text::trimmed(p.ability) + "]"@
    };
    number::nat_text(n) + ". "@ + p.name + "("@ + element_text(p) + ") "@ + number::int_text(
        p.cur_hp,
    ) + "/"@ + number::int_text(p.hp) + " EN:"@ + number::int_text(p.energy) + " SPD:"@
        + number::int_text(p.speed) + ability
}

fn describe_bench(p: &BattlePet, n: usize) -> (r: String)
    ensures
        r@ == bench_line(p@, n as nat),
{
    let mut m: String = String::new();
    push_nat(&mut m, n as u128);
    assert(m@ == number::nat_text(n as nat));
    m.append(". ");
    m.append(p.name.as_str());
    m.append("(");
    m.append(pet_element_summary(p).as_str());
    m.append(") ");
    push_int(&mut m, p.cur_hp);
    m.append("/");
    push_int(&mut m, p.hp);
    m.append(" EN:");
    push_int(&mut m, p.energy);
    m.append(" SPD:");
    push_int(&mut m, p.speed);
    let ability: &str = text::trim(p.ability.as_str());
    if ability.unicode_len() > 0 {
        let mut a: String = " [特性:".to_owned();
        a.append(ability);
        a.append("]");
        m.append(a.as_str());
    } else {
        assert(m@ + Seq::<char>::empty() == m@);
    }
    m
}

/// The first `n` pets of the team in short, the fighter left out.
pub open spec fn bench_lines(team: Seq<Pet>, active: int, n: int) -> Seq<Seq<char>>
    decreases n,
{
    if n <= 0 {
        seq![]
    } else {
        let front = bench_lines(team, active, n - 1);
        if n - 1 == active {
            front
        } else {
            front.push(bench_line(team[n - 1], front.len() + 1))
        }
    }
}

fn describe_benches(team: &Vec<BattlePet>, active: usize) -> (r: Vec<String>)
    ensures
        text::texts(r@) == bench_lines(pet::pets_of(team@), active as int, team.len() as int),
{
    let ghost ps = pet::pets_of(team@);
    let mut r: Vec<String> = Vec::new();
    let mut i: usize = 0;
    while i < team.len()
        invariant
            i <= team.len(),
            r.len() <= i,
            ps == pet::pets_of(team@),
            text::texts(r@) == bench_lines(ps, active as int, i as int),
        decreases team.len() - i,
    {
        assert(ps[i as int] == team@[i as int]@);
        if i != active {
            let ghost before = r@;
            assert(text::texts(r@).len() == r.len());
            let line: String = describe_bench(&team[i], r.len() + 1);
            r.push(line);
            assert(text::texts(r@) == text::texts(before).push(line@));
        }
        i = i + 1;
    }
    r
}

// The whole.

/// The marks on one side of the field.
pub struct Marks {
    pub negative: Option<NegativeImprint>,
    pub positive: Option<PositiveImprint>,
}

/// The state of the battle in short.
pub open spec fn snapshot_text(own: Pet, opp: Pet, sky: Option<WeatherState>, round: int) -> Seq<char> {
    "R"@ + number::int_text(round) + " | 天气:"@ + weather_text(sky) + "\n我方: "@ + own.name + "("@
        + element_text(own) + ") "@ + number::int_text(own.cur_hp) + "/"@ + number::int_text(own.hp)
        + "("@ + number::int_text(stats::hp_hundredths(own)) + "%) EN:"@ + number::int_text(
        own.energy,
    ) + " SPD:"@ + number::int_text(own.speed) + " [特性:"@ + trimmed_or_none(own.ability)
        + "]\n敌方: "@ + opp.name + "("@ + element_text(opp) + ") HP:"@ + number::int_text(
        stats::hp_hundredths(opp),
    ) + "% EN:"@ + number::int_text(opp.energy)
}

fn describe_snapshot(own: &BattlePet, opp: &BattlePet, sky: &Option<WeatherState>, round: i32) -> (r:
    String)
    requires
        own@.wf(),
        opp@.wf(),
    ensures
        r@ == snapshot_text(own@, opp@, *sky, round as int),
{
    let mut m: String = "R".to_owned();
    push_int(&mut m, round);
    m.append(" | 天气:");
    m.append(weather_summary(sky).as_str());
    m.append("\n我方: ");
    m.append(own.name.as_str());
    m.append("(");
    m.append(pet_element_summary(own).as_str());
    m.append(") ");
    push_int(&mut m, own.cur_hp);
    m.append("/");
    push_int(&mut m, own.hp);
    m.append("(");
    push_int(&mut m, stats::hp_percent(own));
    m.append("%) EN:");
    push_int(&mut m, own.energy);
    m.append(" SPD:");
    push_int(&mut m, own.speed);
    m.append(" [特性:");
    m.append(trim_or_none(own.ability.as_str()));
    m.append("]\n敌方: ");
    m.append(opp.name.as_str());
    m.append("(");
    m.append(pet_element_summary(opp).as_str());
    m.append(") HP:");
    push_int(&mut m, stats::hp_percent(opp));
    m.append("% EN:");
    push_int(&mut m, opp.energy);
    m
}

/// The marks of both sides.
pub open spec fn marks_text(own: Marks, enemy: Marks) -> Seq<char> {
    "- 我方印记: 负面="@ + negative_text(own.negative) + " 正面="@ + positive_text(own.positive)
        + "\n- 敌方印记(可见): 负面="@ + negative_text(enemy.negative) + " 正面="@ + positive_text(
        enemy.positive,
    )
}

fn describe_marks(own: &Marks, enemy: &Marks) -> (r: String)
    ensures
        r@ == marks_text(*own, *enemy),
{
    let mut m: String = "- 我方印记: 负面=".to_owned();
    m.append(negative_imprint_summary(own.negative).as_str());
    m.append(" 正面=");
    m.append(positive_imprint_summary(own.positive).as_str());
    m.append("\n- 敌方印记(可见): 负面=");
    m.append(negative_imprint_summary(enemy.negative).as_str());
    m.append(" 正面=");
    m.append(positive_imprint_summary(enemy.positive).as_str());
    m
}

/// The own team: in full in the first round, the pets behind the fighter in short later.
pub open spec fn team_text(team: Seq<Pet>, active: int, sky: Option<WeatherState>, round: int) -> Seq<
    char,
> {
    if round <= 1 {
        "### 我方全队完整情报(仅R1提供) ###\n"@ + text::joined(team_lines(team, active, sky), "\n"@)
    } else {
        "### 后备选择 ###\n"@ + history::named_or_none(
            bench_lines(team, active, team.len() as int),
            "\n"@,
        )
    }
}

fn describe_own_team(
    team: &Vec<BattlePet>,
    active: usize,
    sky: &Option<WeatherState>,
    round: i32,
) -> (r: String)
    requires
        forall|i: int| 0 <= i < team.len() ==> (#[trigger] team@[i])@.wf(),
    ensures
        r@ == team_text(pet::pets_of(team@), active as int, *sky, round as int),
{
    if round <= 1 {
        let mut m: String = "### 我方全队完整情报(仅R1提供) ###\n".to_owned();
        m.append(text::join(&describe_team(team, active, sky), "\n").as_str());
        m
    } else {
        let mut m: String = "### 后备选择 ###\n".to_owned();
        m.append(names_or_none(&describe_benches(team, active), "\n").as_str());
        m
    }
}

/// Who is asked, in which round.
pub open spec fn address_text(side: Side) -> Seq<char> {
    "你是"@ + side.letter()
        + "方决策AI。每回合仅输出一行合法动作：SKILL:技能名 / SWITCH:精灵名 / CHARGE。"@
}

/// The skills that the fighter can pay for.
pub open spec fn usable_text(p: Pet, sky: Option<WeatherState>) -> Seq<char> {
    let lines = usable_lines(p, sky, p.skills.len() as int);
    if lines.len() == 0 {
        "无（当前能量不足，建议换宠）"@
    } else {
        text::joined(lines, "\n"@)
    }
}

/// What a side is told in front of its decision: the state of the battle as it can see it, and
/// all that it may do.
#[verifier::opaque]
pub open spec fn prompt_text(
    side: Side,
    team: Seq<Pet>,
    active: int,
    opp: Pet,
    sky: Option<WeatherState>,
    own_marks: Marks,
    enemy_marks: Marks,
    log: Seq<char>,
    round: int,
) -> Seq<char> {
    let own = team[active];
    let n = own.skills.len() as int;
    text::joined(
        seq![
            address_text(side),
            "### 状态快照 ###"@,
            snapshot_text(own, opp, sky, round),
            "### 敌方情报摘要 ###"@,
            marks_text(own_marks, enemy_marks),
            team_text(team, active, sky, round),
            history::intel(side, log),
            "### 可用技能 ###"@,
            usable_text(own, sky),
            "### 不可用技能 ###"@,
            history::named_or_none(blocked_names(own, sky, n), "，"@),
            "### 可切换精灵 ###"@,
            history::named_or_none(reserve_names(team, active), ", "@),
            "### 最近动态 ###"@,
            history::compact(log, 5, 8),
            "### 合法动作 ###"@,
            text::joined(legal_actions(team, active, sky), " | "@),
        ],
        "\n"@,
    )
}

/// What a side is told in front of its decision.
pub fn action_prompt(
    side: Side,
    own_team: &Vec<BattlePet>,
    active_index: usize,
    opp: &BattlePet,
    sky: &Option<WeatherState>,
    own_marks: &Marks,
    enemy_marks: &Marks,
    log: &str,
    round: i32,
) -> (r: String)
    requires
        active_index < own_team.len(),
        forall|i: int| 0 <= i < own_team.len() ==> (#[trigger] own_team@[i])@.wf(),
        opp@.wf(),
    ensures
        r@ == prompt_text(
            side,
            pet::pets_of(own_team@),
            active_index as int,
            opp@,
            *sky,
            *own_marks,
            *enemy_marks,
            log@,
            round as int,
        ),
{
    let own: &BattlePet = &own_team[active_index];
    assert(own_team@[active_index as int]@.wf());
    assert(own@ == pet::pets_of(own_team@)[active_index as int]);
    let (lines, blocked, actions) = sort_skills(own, sky);
    let mut actions: Vec<String> = actions;
    let names: Vec<String> = names_in_reserve(own_team, active_index);
    add_switches(&mut actions, &names);
    let mut address: String = "你是".to_owned();
    address.append(side.text());
    address.append("方决策AI。每回合仅输出一行合法动作：SKILL:技能名 / SWITCH:精灵名 / CHARGE。");
    assert(lines.len() == text::texts(lines@).len());
    let usable: String = if lines.len() == 0 {
        "无（当前能量不足，建议换宠）".to_owned()
    } else {
        text::join(&lines, "\n")
    };
    let mut parts: Vec<String> = Vec::new();
    parts.push(address);
    parts.push("### 状态快照 ###".to_owned());
    parts.push(describe_snapshot(own, opp, sky, round));
    parts.push("### 敌方情报摘要 ###".to_owned());
    parts.push(describe_marks(own_marks, enemy_marks));
    parts.push(describe_own_team(own_team, active_index, sky, round));
    parts.push(observed_enemy_intel(side, log));
    parts.push("### 可用技能 ###".to_owned());
    parts.push(usable);
    parts.push("### 不可用技能 ###".to_owned());
    parts.push(names_or_none(&blocked, "，"));
    parts.push("### 可切换精灵 ###".to_owned());
    parts.push(names_or_none(&names, ", "));
    parts.push("### 最近动态 ###".to_owned());
    parts.push(compact_recent_dynamics(log, 5, 8));
    parts.push("### 合法动作 ###".to_owned());
    parts.push(text::join(&actions, " | "));
    proof {
        reveal(prompt_text);
        let team = pet::pets_of(own_team@);
        let a = active_index as int;
        assert(text::texts(parts@) =~= seq![
            address_text(side),
            "### 状态快照 ###"@,
            snapshot_text(own@, opp@, *sky, round as int),
            "### 敌方情报摘要 ###"@,
            marks_text(*own_marks, *enemy_marks),
            team_text(team, a, *sky, round as int),
            history::intel(side, log@),
            "### 可用技能 ###"@,
            usable_text(own@, *sky),
            "### 不可用技能 ###"@,
            history::named_or_none(
                blocked_names(own@, *sky, own@.skills.len() as int),
                "，"@,
            ),
            "### 可切换精灵 ###"@,
            history::named_or_none(reserve_names(team, a), ", "@),
            "### 最近动态 ###"@,
            history::compact(log@, 5, 8),
            "### 合法动作 ###"@,
            text::joined(legal_actions(team, a, *sky), " | "@),
        ]);
    }
    text::join(&parts, "\n")
}

} // verus!
