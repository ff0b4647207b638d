//! Elements and natures: what is strong against what, and whom it makes stronger.

use vstd::prelude::*;
use crate::pet::{BattlePet, BattleSkill, WeatherKind, WeatherState};
use crate::pet;
use crate::text;

verus! {

/// The elements that an attack of element `t` is strong against.
pub open spec fn strong_against(t: Seq<char>) -> Seq<Seq<char>> {
    if t == "普通"@ {
        seq![]
    } else if t == "草"@ {
        seq!["水"@, "光"@, "地"@]
    } else if t == "火"@ {
        seq!["草"@, "冰"@, "虫"@, "机械"@]
    } else if t == "水"@ {
        seq!["火"@, "地"@, "机械"@]
    } else if t == "光"@ {
        seq!["幽"@, "恶"@]
    } else if t == "地"@ {
        seq!["火"@, "冰"@, "电"@, "毒"@]
    } else if t == "冰"@ {
        seq!["草"@, "地"@, "龙"@, "翼"@]
    } else if t == "龙"@ {
        seq!["龙"@]
    } else if t == "电"@ {
        seq!["水"@, "翼"@]
    } else if t == "毒"@ {
        seq!["草"@, "萌"@]
    } else if t == "虫"@ {
        seq!["草"@, "恶"@, "幻"@]
    } else if t == "武"@ {
        seq!["普通"@, "地"@, "冰"@, "恶"@, "机械"@]
    } else if t == "翼"@ {
        seq!["草"@, "虫"@, "武"@]
    } else if t == "萌"@ {
        seq!["龙"@, "武"@, "恶"@]
    } else if t == "幽"@ {
        seq!["光"@, "幽"@, "幻"@]
    } else if t == "恶"@ {
        seq!["毒"@, "萌"@, "幽"@]
    } else if t == "机械"@ {
        seq!["地"@, "冰"@, "萌"@]
    } else if t == "幻"@ {
        seq!["毒"@, "武"@]
    } else if t == "无"@ {
        seq![]
    } else {
        seq![]
    }
}

/// The elements that resist an attack of element `t`.
pub open spec fn resisted_by(t: Seq<char>) -> Seq<Seq<char>> {
    if t == "普通"@ {
        seq!["地"@, "幽"@, "机械"@]
    } else if t == "草"@ {
        seq!["火"@, "龙"@, "毒"@, "虫"@, "翼"@, "机械"@]
    } else if t == "火"@ {
        seq!["水"@, "地"@, "龙"@]
    } else if t == "水"@ {
        seq!["草"@, "冰"@, "龙"@]
    } else if t == "光"@ {
        seq!["草"@, "冰"@]
    } else if t == "地"@ {
        seq!["草"@, "武"@]
    } else if t == "冰"@ {
        seq!["火"@, "冰"@, "机械"@]
    } else if t == "龙"@ {
        seq!["机械"@]
    } else if t == "电"@ {
        seq!["草"@, "地"@, "龙"@, "电"@]
    } else if t == "毒"@ {
        seq!["地"@, "毒"@, "幽"@, "机械"@]
    } else if t == "虫"@ {
        seq!["火"@, "毒"@, "武"@, "翼"@, "萌"@, "幽"@, "机械"@]
    } else if t == "武"@ {
        seq!["毒"@, "虫"@, "翼"@, "萌"@, "幽"@, "幻"@]
    } else if t == "翼"@ {
        seq!["地"@, "龙"@, "电"@, "机械"@]
    } else if t == "萌"@ {
        seq!["火"@, "毒"@, "机械"@]
    } else if t == "幽"@ {
        seq!["普通"@, "恶"@]
    } else if t == "恶"@ {
        seq!["光"@, "武"@, "恶"@]
    } else if t == "机械"@ {
        seq!["火"@, "水"@, "电"@, "机械"@]
    } else if t == "幻"@ {
        seq!["光"@, "机械"@, "幻"@]
    } else if t == "无"@ {
        seq![]
    } else {
        seq![]
    }
}

/// What an element is strong against, and what resists it.
pub struct TypeEffect {
    pub strong: Vec<&'static str>,
    pub resist: Vec<&'static str>,
}

/// The texts of a list of string slices.
pub open spec fn slice_texts(v: Seq<&'static str>) -> Seq<Seq<char>> {
    v.map_values(|s: &'static str| s@)
}

impl TypeEffect {
    pub fn new(strong: Vec<&'static str>, resist: Vec<&'static str>) -> (r: Self)
        ensures
            r.strong == strong,
            r.resist == resist,
    {
        TypeEffect { strong, resist }
    }
}

/// The row of the type chart for an attacking element; an element that the chart does not know is
/// strong against nothing, and nothing resists it.
pub fn type_chart(attack_type: &str) -> (r: TypeEffect)
    ensures
        slice_texts(r.strong@) == strong_against(attack_type@),
        slice_texts(r.resist@) == resisted_by(attack_type@),
{
    let r: TypeEffect = if text::same(attack_type, "普通") {
        TypeEffect::new(Vec::new(), vec!["地", "幽", "机械"])
    } else if text::same(attack_type, "草") {
        TypeEffect::new(vec!["水", "光", "地"], vec!["火", "龙", "毒", "虫", "翼", "机械"])
    } else if text::same(attack_type, "火") {
        TypeEffect::new(vec!["草", "冰", "虫", "机械"], vec!["水", "地", "龙"])
    } else if text::same(attack_type, "水") {
        TypeEffect::new(vec!["火", "地", "机械"], vec!["草", "冰", "龙"])
    } else if text::same(attack_type, "光") {
        TypeEffect::new(vec!["幽", "恶"], vec!["草", "冰"])
    } else if text::same(attack_type, "地") {
        TypeEffect::new(vec!["火", "冰", "电", "毒"], vec!["草", "武"])
    } else if text::same(attack_type, "冰") {
        TypeEffect::new(vec!["草", "地", "龙", "翼"], vec!["火", "冰", "机械"])
    } else if text::same(attack_type, "龙") {
        TypeEffect::new(vec!["龙"], vec!["机械"])
    } else if text::same(attack_type, "电") {
        TypeEffect::new(vec!["水", "翼"], vec!["草", "地", "龙", "电"])
    } else if text::same(attack_type, "毒") {
        TypeEffect::new(vec!["草", "萌"], vec!["地", "毒", "幽", "机械"])
    } else if text::same(attack_type, "虫") {
        TypeEffect::new(vec!["草", "恶", "幻"], vec!["火", "毒", "武", "翼", "萌", "幽", "机械"])
    } else if text::same(attack_type, "武") {
        TypeEffect::new(vec!["普通", "地", "冰", "恶", "机械"], vec!["毒", "虫", "翼", "萌", "幽", "幻"])
    } else if text::same(attack_type, "翼") {
        TypeEffect::new(vec!["草", "虫", "武"], vec!["地", "龙", "电", "机械"])
    } else if text::same(attack_type, "萌") {
        TypeEffect::new(vec!["龙", "武", "恶"], vec!["火", "毒", "机械"])
    } else if text::same(attack_type, "幽") {
        TypeEffect::new(vec!["光", "幽", "幻"], vec!["普通", "恶"])
    } else if text::same(attack_type, "恶") {
        TypeEffect::new(vec!["毒", "萌", "幽"], vec!["光", "武", "恶"])
    } else if text::same(attack_type, "机械") {
        TypeEffect::new(vec!["地", "冰", "萌"], vec!["火", "水", "电", "机械"])
    } else if text::same(attack_type, "幻") {
        TypeEffect::new(vec!["毒", "武"], vec!["光", "机械", "幻"])
    } else if text::same(attack_type, "无") {
        TypeEffect::new(Vec::new(), Vec::new())
    } else {
        TypeEffect::new(Vec::new(), Vec::new())
    };
    r
}

/// How much more a pet of nature `nature` has of one stat and less of another: the stat that
/// gains, then the stat that loses.
pub open spec fn nature_stats(nature: Seq<char>) -> Option<(Seq<char>, Seq<char>)> {
    if nature == "胆小"@ {
        Some(("速度"@, "攻击"@))
    } else if nature == "急躁"@ {
        Some(("速度"@, "防御"@))
    } else if nature == "天真"@ {
        Some(("速度"@, "特防"@))
    } else if nature == "开朗"@ {
        Some(("速度"@, "特攻"@))
    } else if nature == "固执"@ {
        Some(("攻击"@, "特攻"@))
    } else if nature == "勇敢"@ {
        Some(("攻击"@, "速度"@))
    } else if nature == "调皮"@ {
        Some(("攻击"@, "特防"@))
    } else if nature == "孤独"@ {
        Some(("攻击"@, "防御"@))
    } else if nature == "保守"@ {
        Some(("特攻"@, "攻击"@))
    } else if nature == "冷静"@ {
        Some(("特攻"@, "速度"@))
    } else if nature == "马虎"@ {
        Some(("特攻"@, "特防"@))
    } else if nature == "稳重"@ {
        Some(("特攻"@, "防御"@))
    } else if nature == "淘气"@ {
        Some(("防御"@, "特攻"@))
    } else if nature == "大胆"@ {
        Some(("防御"@, "攻击"@))
    } else if nature == "悠闲"@ {
        Some(("防御"@, "速度"@))
    } else if nature == "沉着"@ {
        Some(("特防"@, "攻击"@))
    } else if nature == "慎重"@ {
        Some(("特防"@, "特攻"@))
    } else if nature == "温顺"@ {
        Some(("特防"@, "防御"@))
    } else if nature == "狂妄"@ {
        Some(("特防"@, "速度"@))
    } else {
        None
    }
}

fn nature_row(nature: &str) -> (r: Option<(&'static str, &'static str)>)
    ensures
        (match r {
            Some((up, down)) => nature_stats(nature@) == Some((up@, down@)),
            None => nature_stats(nature@) is None,
        }),
{
    if text::same(nature, "胆小") {
        Some(("速度", "攻击"))
    } else if text::same(nature, "急躁") {
        Some(("速度", "防御"))
    } else if text::same(nature, "天真") {
        Some(("速度", "特防"))
    } else if text::same(nature, "开朗") {
        Some(("速度", "特攻"))
    } else if text::same(nature, "固执") {
        Some(("攻击", "特攻"))
    } else if text::same(nature, "勇敢") {
        Some(("攻击", "速度"))
    } else if text::same(nature, "调皮") {
        Some(("攻击", "特防"))
    } else if text::same(nature, "孤独") {
        Some(("攻击", "防御"))
    } else if text::same(nature, "保守") {
        Some(("特攻", "攻击"))
    } else if text::same(nature, "冷静") {
        Some(("特攻", "速度"))
    } else if text::same(nature, "马虎") {
        Some(("特攻", "特防"))
    } else if text::same(nature, "稳重") {
        Some(("特攻", "防御"))
    } else if text::same(nature, "淘气") {
        Some(("防御", "特攻"))
    } else if text::same(nature, "大胆") {
        Some(("防御", "攻击"))
    } else if text::same(nature, "悠闲") {
        Some(("防御", "速度"))
    } else if text::same(nature, "沉着") {
        Some(("特防", "攻击"))
    } else if text::same(nature, "慎重") {
        Some(("特防", "特攻"))
    } else if text::same(nature, "温顺") {
        Some(("特防", "防御"))
    } else if text::same(nature, "狂妄") {
        Some(("特防", "速度"))
    } else {
        None
    }
}

/// Whether there is a nature of that name.
pub open spec fn known_nature(n: Seq<char>) -> bool {
    ||| n == "胆小"@
    ||| n == "急躁"@
    ||| n == "天真"@
    ||| n == "开朗"@
    ||| n == "固执"@
    ||| n == "勇敢"@
    ||| n == "调皮"@
    ||| n == "孤独"@
    ||| n == "保守"@
    ||| n == "冷静"@
    ||| n == "马虎"@
    ||| n == "稳重"@
    ||| n == "淘气"@
    ||| n == "大胆"@
    ||| n == "悠闲"@
    ||| n == "沉着"@
    ||| n == "慎重"@
    ||| n == "温顺"@
    ||| n == "狂妄"@
    ||| n == "认真"@
    ||| n == "实干"@
    ||| n == "坦率"@
    ||| n == "害羞"@
    ||| n == "浮躁"@
}

/// The nature of that name, white space around it aside; the neutral one where there is none.
pub open spec fn normal_nature(raw: Seq<char>) -> Seq<char> {
    if known_nature(text::trimmed(raw)) {
        text::trimmed(raw)
    } else {
        "认真"@
    }
}

/// The nature of that name, white space around it aside; the neutral one where there is none.
pub fn normalize_nature_name(raw: &str) -> (r: String)
    ensures
        r@ == normal_nature(raw@),
{
    let n: &str = text::trim(raw);
    if text::same(n, "胆小") || text::same(n, "急躁") || text::same(n, "天真") || text::same(n, "开朗")
        || text::same(n, "固执") || text::same(n, "勇敢") || text::same(n, "调皮") || text::same(n, "孤独")
        || text::same(n, "保守") || text::same(n, "冷静") || text::same(n, "马虎") || text::same(n, "稳重")
        || text::same(n, "淘气") || text::same(n, "大胆") || text::same(n, "悠闲") || text::same(n, "沉着")
        || text::same(n, "慎重") || text::same(n, "温顺") || text::same(n, "狂妄") || text::same(n, "认真")
        || text::same(n, "实干") || text::same(n, "坦率") || text::same(n, "害羞") || text::same(n, "浮躁") {
        n.to_owned()
    } else {
        "认真".to_owned()
    }
}

pub open spec fn count_of(first: bool, second: bool) -> int {
    (if first {
        1int
    } else {
        0
    }) + (if second {
        1int
    } else {
        0
    })
}

/// The factor of an attack of element `attack` against a pet of one or two elements, in
/// hundredths: 300 or 25 only where both of two elements are weak or resist.
pub open spec fn type_factor(attack: Seq<char>, def1: Seq<char>, def2: Option<Seq<char>>) -> int {
    let strong = count_of(
        strong_against(attack).contains(def1),
        def2 is Some && strong_against(attack).contains(def2->0),
    );
    let resist = count_of(
        resisted_by(attack).contains(def1),
        def2 is Some && resisted_by(attack).contains(def2->0),
    );
    if strong == 2 {
        300
    } else if resist == 2 {
        25
    } else if strong == 1 {
        200
    } else if resist == 1 {
        50
    } else {
        100
    }
}

fn listed(v: &Vec<&'static str>, s: &str) -> (r: bool)
    ensures
        r == slice_texts(v@).contains(s@),
{
    let mut i: usize = 0;
    while i < v.len()
        invariant
            i <= v.len(),
            forall|j: int| 0 <= j < i ==> slice_texts(v@)[j] != s@,
        decreases v.len() - i,
    {
        if text::same(v[i], s) {
            assert(slice_texts(v@)[i as int] == s@);
            return true;
        }
        i = i + 1;
    }
    false
}

/// The factor of an attack against a pet of one or two elements, in hundredths.
pub fn type_multiplier(attack_type: &str, def1: &str, def2: &Option<String>) -> (r: i32)
    ensures
        r == type_factor(attack_type@, def1@, pet::opt_text(*def2)),
        r == 300 || r == 200 || r == 100 || r == 50 || r == 25,
{
    let row: TypeEffect = type_chart(attack_type);
    let mut strong: i32 = if listed(&row.strong, def1) {
        1
    } else {
        0
    };
    let mut resist: i32 = if listed(&row.resist, def1) {
        1
    } else {
        0
    };
    if let Some(d) = def2 {
        if listed(&row.strong, d.as_str()) {
            strong = strong + 1;
        }
        if listed(&row.resist, d.as_str()) {
            resist = resist + 1;
        }
    }
    if strong == 2 {
        300
    } else if resist == 2 {
        25
    } else if strong == 1 {
        200
    } else if resist == 1 {
        50
    } else {
        100
    }
}

/// What a nature makes of a stat, in tenths.
pub open spec fn nature_factor(nature: Seq<char>, stat: Seq<char>) -> int {
    match nature_stats(nature) {
        Some((up, down)) => if up == stat {
            11
        } else if down == stat {
            9
        } else {
            10
        },
        None => 10,
    }
}

/// What a nature makes of a stat, in tenths.
pub fn nature_multiplier(nature: &str, stat: &str) -> (r: i32)
    ensures
        r == nature_factor(nature@, stat@),
        9 <= r <= 11,
{
    match nature_row(nature) {
        Some((up, down)) => {
            if text::same(up, stat) {
                11
            } else if text::same(down, stat) {
                9
            } else {
                10
            }
        },
        None => 10,
    }
}

/// What is left of the stats of a pet that was turned into a lesser form, in tenths.
pub open spec fn morph_factor(stage: int) -> int {
    if stage == 1 {
        8
    } else if stage == 2 {
        6
    } else {
        10
    }
}

/// What is left of the stats of a pet that was turned into a lesser form, in tenths.
pub fn morph_stat_multiplier(pet: &BattlePet) -> (r: i32)
    ensures
        r == morph_factor(pet@.morph_stage),
        6 <= r <= 10,
{
    if pet.morph_stage == 1 {
        8
    } else if pet.morph_stage == 2 {
        6
    } else {
        10
    }
}

/// What the weather makes of a skill's damage, in tenths.
pub open spec fn weather_factor(weather: Option<WeatherState>, skill_element: Seq<char>) -> int {
    if weather matches Some(w) && w.kind == WeatherKind::Rain && skill_element == "水"@ {
        15
    } else {
        10
    }
}

/// What the weather makes of a skill's damage, in tenths.
pub fn weather_damage_multiplier(weather: &Option<WeatherState>, skill: &BattleSkill) -> (r: i32)
    ensures
        r == weather_factor(*weather, skill@.element),
        r == 10 || r == 15,
{
    if let Some(w) = weather {
        if w.kind == WeatherKind::Rain && text::same(skill.element.as_str(), "水") {
            return 15;
        }
    }
    10
}

/// Poison does nothing to a pet of the poison element.
pub fn is_immune_to_poison(p: &BattlePet) -> (r: bool)
    ensures
        r == p@.has_element("毒"@),
{
    p.is_element("毒")
}

/// Burning does nothing to a pet of the fire element.
pub fn is_immune_to_burn(p: &BattlePet) -> (r: bool)
    ensures
        r == p@.has_element("火"@),
{
    p.is_element("火")
}

/// Freezing does nothing to a pet of the ice element.
pub fn is_immune_to_freeze(p: &BattlePet) -> (r: bool)
    ensures
        r == p@.has_element("冰"@),
{
    p.is_element("冰")
}

/// Parasites do nothing to a pet of the grass element.
pub fn is_immune_to_parasite(p: &BattlePet) -> (r: bool)
    ensures
        r == p@.has_element("草"@),
{
    p.is_element("草")
}

} // verus!
