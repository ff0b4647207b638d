//! The tables of the game, entry by entry: which element is strong against which, and which stats
//! a nature raises and lowers.

use vstd::prelude::*;
use crate::elements;
use crate::text;

verus! {

// Elements.

/// No two elements have the same name.
proof fn lemma_element_names()
    ensures
        "草"@ != "普通"@,
        "火"@ != "普通"@,
        "火"@ != "草"@,
        "水"@ != "普通"@,
        "水"@ != "草"@,
        "水"@ != "火"@,
        "光"@ != "普通"@,
        "光"@ != "草"@,
        "光"@ != "火"@,
        "光"@ != "水"@,
        "地"@ != "普通"@,
        "地"@ != "草"@,
        "地"@ != "火"@,
        "地"@ != "水"@,
        "地"@ != "光"@,
        "冰"@ != "普通"@,
        "冰"@ != "草"@,
        "冰"@ != "火"@,
        "冰"@ != "水"@,
        "冰"@ != "光"@,
        "冰"@ != "地"@,
        "龙"@ != "普通"@,
        "龙"@ != "草"@,
        "龙"@ != "火"@,
        "龙"@ != "水"@,
        "龙"@ != "光"@,
        "龙"@ != "地"@,
        "龙"@ != "冰"@,
        "电"@ != "普通"@,
        "电"@ != "草"@,
        "电"@ != "火"@,
        "电"@ != "水"@,
        "电"@ != "光"@,
        "电"@ != "地"@,
        "电"@ != "冰"@,
        "电"@ != "龙"@,
        "毒"@ != "普通"@,
        "毒"@ != "草"@,
        "毒"@ != "火"@,
        "毒"@ != "水"@,
        "毒"@ != "光"@,
        "毒"@ != "地"@,
        "毒"@ != "冰"@,
        "毒"@ != "龙"@,
        "毒"@ != "电"@,
        "虫"@ != "普通"@,
        "虫"@ != "草"@,
        "虫"@ != "火"@,
        "虫"@ != "水"@,
        "虫"@ != "光"@,
        "虫"@ != "地"@,
        "虫"@ != "冰"@,
        "虫"@ != "龙"@,
        "虫"@ != "电"@,
        "虫"@ != "毒"@,
        "武"@ != "普通"@,
        "武"@ != "草"@,
        "武"@ != "火"@,
        "武"@ != "水"@,
        "武"@ != "光"@,
        "武"@ != "地"@,
        "武"@ != "冰"@,
        "武"@ != "龙"@,
        "武"@ != "电"@,
        "武"@ != "毒"@,
        "武"@ != "虫"@,
        "翼"@ != "普通"@,
        "翼"@ != "草"@,
        "翼"@ != "火"@,
        "翼"@ != "水"@,
        "翼"@ != "光"@,
        "翼"@ != "地"@,
        "翼"@ != "冰"@,
        "翼"@ != "龙"@,
        "翼"@ != "电"@,
        "翼"@ != "毒"@,
        "翼"@ != "虫"@,
        "翼"@ != "武"@,
        "萌"@ != "普通"@,
        "萌"@ != "草"@,
        "萌"@ != "火"@,
        "萌"@ != "水"@,
        "萌"@ != "光"@,
        "萌"@ != "地"@,
        "萌"@ != "冰"@,
        "萌"@ != "龙"@,
        "萌"@ != "电"@,
        "萌"@ != "毒"@,
        "萌"@ != "虫"@,
        "萌"@ != "武"@,
        "萌"@ != "翼"@,
        "幽"@ != "普通"@,
        "幽"@ != "草"@,
        "幽"@ != "火"@,
        "幽"@ != "水"@,
        "幽"@ != "光"@,
        "幽"@ != "地"@,
        "幽"@ != "冰"@,
        "幽"@ != "龙"@,
        "幽"@ != "电"@,
        "幽"@ != "毒"@,
        "幽"@ != "虫"@,
        "幽"@ != "武"@,
        "幽"@ != "翼"@,
        "幽"@ != "萌"@,
        "恶"@ != "普通"@,
        "恶"@ != "草"@,
        "恶"@ != "火"@,
        "恶"@ != "水"@,
        "恶"@ != "光"@,
        "恶"@ != "地"@,
        "恶"@ != "冰"@,
        "恶"@ != "龙"@,
        "恶"@ != "电"@,
        "恶"@ != "毒"@,
        "恶"@ != "虫"@,
        "恶"@ != "武"@,
        "恶"@ != "翼"@,
        "恶"@ != "萌"@,
        "恶"@ != "幽"@,
        "机械"@ != "普通"@,
        "机械"@ != "草"@,
        "机械"@ != "火"@,
        "机械"@ != "水"@,
        "机械"@ != "光"@,
        "机械"@ != "地"@,
        "机械"@ != "冰"@,
        "机械"@ != "龙"@,
        "机械"@ != "电"@,
        "机械"@ != "毒"@,
        "机械"@ != "虫"@,
        "机械"@ != "武"@,
        "机械"@ != "翼"@,
        "机械"@ != "萌"@,
        "机械"@ != "幽"@,
        "机械"@ != "恶"@,
        "幻"@ != "普通"@,
        "幻"@ != "草"@,
        "幻"@ != "火"@,
        "幻"@ != "水"@,
        "幻"@ != "光"@,
        "幻"@ != "地"@,
        "幻"@ != "冰"@,
        "幻"@ != "龙"@,
        "幻"@ != "电"@,
        "幻"@ != "毒"@,
        "幻"@ != "虫"@,
        "幻"@ != "武"@,
        "幻"@ != "翼"@,
        "幻"@ != "萌"@,
        "幻"@ != "幽"@,
        "幻"@ != "恶"@,
        "幻"@ != "机械"@,
        "无"@ != "普通"@,
        "无"@ != "草"@,
        "无"@ != "火"@,
        "无"@ != "水"@,
        "无"@ != "光"@,
        "无"@ != "地"@,
        "无"@ != "冰"@,
        "无"@ != "龙"@,
        "无"@ != "电"@,
        "无"@ != "毒"@,
        "无"@ != "虫"@,
        "无"@ != "武"@,
        "无"@ != "翼"@,
        "无"@ != "萌"@,
        "无"@ != "幽"@,
        "无"@ != "恶"@,
        "无"@ != "机械"@,
        "无"@ != "幻"@,
{
    reveal_strlit("普通");
    reveal_strlit("草");
    reveal_strlit("火");
    reveal_strlit("水");
    reveal_strlit("光");
    reveal_strlit("地");
    reveal_strlit("冰");
    reveal_strlit("龙");
    reveal_strlit("电");
    reveal_strlit("毒");
    reveal_strlit("虫");
    reveal_strlit("武");
    reveal_strlit("翼");
    reveal_strlit("萌");
    reveal_strlit("幽");
    reveal_strlit("恶");
    reveal_strlit("机械");
    reveal_strlit("幻");
    reveal_strlit("无");
    assert("普通"@[0] == '普');
    assert("草"@[0] == '草');
    assert("火"@[0] == '火');
    assert("水"@[0] == '水');
    assert("光"@[0] == '光');
    assert("地"@[0] == '地');
    assert("冰"@[0] == '冰');
    assert("龙"@[0] == '龙');
    assert("电"@[0] == '电');
    assert("毒"@[0] == '毒');
    assert("虫"@[0] == '虫');
    assert("武"@[0] == '武');
    assert("翼"@[0] == '翼');
    assert("萌"@[0] == '萌');
    assert("幽"@[0] == '幽');
    assert("恶"@[0] == '恶');
    assert("机械"@[0] == '机');
    assert("幻"@[0] == '幻');
    assert("无"@[0] == '无');
}

proof fn lemma_normal(def: Seq<char>)
    ensures
        !elements::strong_against("普通"@).contains(def),
        elements::resisted_by("普通"@).contains(def) == (def == "地"@ || def == "幽"@ || def == "机械"@),
{
    lemma_element_names();
    let strong = elements::strong_against("普通"@);
    let resist = elements::resisted_by("普通"@);
    assert(strong.len() == 0 && resist.len() == 3);
    assert(resist[0] == "地"@);
    assert(resist[1] == "幽"@);
    assert(resist[2] == "机械"@);
}

proof fn lemma_grass(def: Seq<char>)
    ensures
        elements::strong_against("草"@).contains(def) == (def == "水"@ || def == "光"@ || def == "地"@),
        elements::resisted_by("草"@).contains(def) == (def == "火"@ || def == "龙"@ || def == "毒"@
            || def == "虫"@ || def == "翼"@ || def == "机械"@),
{
    lemma_element_names();
    let strong = elements::strong_against("草"@);
    let resist = elements::resisted_by("草"@);
    assert(strong.len() == 3 && resist.len() == 6);
    assert(strong[0] == "水"@);
    assert(strong[1] == "光"@);
    assert(strong[2] == "地"@);
    assert(resist[0] == "火"@);
    assert(resist[1] == "龙"@);
    assert(resist[2] == "毒"@);
    assert(resist[3] == "虫"@);
    assert(resist[4] == "翼"@);
    assert(resist[5] == "机械"@);
}

proof fn lemma_fire(def: Seq<char>)
    ensures
        elements::strong_against("火"@).contains(def) == (def == "草"@ || def == "冰"@
            || def == "虫"@ || def == "机械"@),
        elements::resisted_by("火"@).contains(def) == (def == "水"@ || def == "地"@ || def == "龙"@),
{
    lemma_element_names();
    let strong = elements::strong_against("火"@);
    let resist = elements::resisted_by("火"@);
    assert(strong.len() == 4 && resist.len() == 3);
    assert(strong[0] == "草"@);
    assert(strong[1] == "冰"@);
    assert(strong[2] == "虫"@);
    assert(strong[3] == "机械"@);
    assert(resist[0] == "水"@);
    assert(resist[1] == "地"@);
    assert(resist[2] == "龙"@);
}

proof fn lemma_water(def: Seq<char>)
    ensures
        elements::strong_against("水"@).contains(def) == (def == "火"@ || def == "地"@
            || def == "机械"@),
        elements::resisted_by("水"@).contains(def) == (def == "草"@ || def == "冰"@ || def == "龙"@),
{
    lemma_element_names();
    let strong = elements::strong_against("水"@);
    let resist = elements::resisted_by("水"@);
    assert(strong.len() == 3 && resist.len() == 3);
    assert(strong[0] == "火"@);
    assert(strong[1] == "地"@);
    assert(strong[2] == "机械"@);
    assert(resist[0] == "草"@);
    assert(resist[1] == "冰"@);
    assert(resist[2] == "龙"@);
}

proof fn lemma_light(def: Seq<char>)
    ensures
        elements::strong_against("光"@).contains(def) == (def == "幽"@ || def == "恶"@),
        elements::resisted_by("光"@).contains(def) == (def == "草"@ || def == "冰"@),
{
    lemma_element_names();
    let strong = elements::strong_against("光"@);
    let resist = elements::resisted_by("光"@);
    assert(strong.len() == 2 && resist.len() == 2);
    assert(strong[0] == "幽"@);
    assert(strong[1] == "恶"@);
    assert(resist[0] == "草"@);
    assert(resist[1] == "冰"@);
}

proof fn lemma_earth(def: Seq<char>)
    ensures
        elements::strong_against("地"@).contains(def) == (def == "火"@ || def == "冰"@
            || def == "电"@ || def == "毒"@),
        elements::resisted_by("地"@).contains(def) == (def == "草"@ || def == "武"@),
{
    lemma_element_names();
    let strong = elements::strong_against("地"@);
    let resist = elements::resisted_by("地"@);
    assert(strong.len() == 4 && resist.len() == 2);
    assert(strong[0] == "火"@);
    assert(strong[1] == "冰"@);
    assert(strong[2] == "电"@);
    assert(strong[3] == "毒"@);
    assert(resist[0] == "草"@);
    assert(resist[1] == "武"@);
}

proof fn lemma_ice(def: Seq<char>)
    ensures
        elements::strong_against("冰"@).contains(def) == (def == "草"@ || def == "地"@
            || def == "龙"@ || def == "翼"@),
        elements::resisted_by("冰"@).contains(def) == (def == "火"@ || def == "冰"@ || def == "机械"@),
{
    lemma_element_names();
    let strong = elements::strong_against("冰"@);
    let resist = elements::resisted_by("冰"@);
    assert(strong.len() == 4 && resist.len() == 3);
    assert(strong[0] == "草"@);
    assert(strong[1] == "地"@);
    assert(strong[2] == "龙"@);
    assert(strong[3] == "翼"@);
    assert(resist[0] == "火"@);
    assert(resist[1] == "冰"@);
    assert(resist[2] == "机械"@);
}

proof fn lemma_dragon(def: Seq<char>)
    ensures
        elements::strong_against("龙"@).contains(def) == (def == "龙"@),
        elements::resisted_by("龙"@).contains(def) == (def == "机械"@),
{
    lemma_element_names();
    let strong = elements::strong_against("龙"@);
    let resist = elements::resisted_by("龙"@);
    assert(strong.len() == 1 && resist.len() == 1);
    assert(strong[0] == "龙"@);
    assert(resist[0] == "机械"@);
}

proof fn lemma_electric(def: Seq<char>)
    ensures
        elements::strong_against("电"@).contains(def) == (def == "水"@ || def == "翼"@),
        elements::resisted_by("电"@).contains(def) == (def == "草"@ || def == "地"@ || def == "龙"@
            || def == "电"@),
{
    lemma_element_names();
    let strong = elements::strong_against("电"@);
    let resist = elements::resisted_by("电"@);
    assert(strong.len() == 2 && resist.len() == 4);
    assert(strong[0] == "水"@);
    assert(strong[1] == "翼"@);
    assert(resist[0] == "草"@);
    assert(resist[1] == "地"@);
    assert(resist[2] == "龙"@);
    assert(resist[3] == "电"@);
}

proof fn lemma_poison(def: Seq<char>)
    ensures
        elements::strong_against("毒"@).contains(def) == (def == "草"@ || def == "萌"@),
        elements::resisted_by("毒"@).contains(def) == (def == "地"@ || def == "毒"@ || def == "幽"@
            || def == "机械"@),
{
    lemma_element_names();
    let strong = elements::strong_against("毒"@);
    let resist = elements::resisted_by("毒"@);
    assert(strong.len() == 2 && resist.len() == 4);
    assert(strong[0] == "草"@);
    assert(strong[1] == "萌"@);
    assert(resist[0] == "地"@);
    assert(resist[1] == "毒"@);
    assert(resist[2] == "幽"@);
    assert(resist[3] == "机械"@);
}

proof fn lemma_bug(def: Seq<char>)
    ensures
        elements::strong_against("虫"@).contains(def) == (def == "草"@ || def == "恶"@ || def == "幻"@),
        elements::resisted_by("虫"@).contains(def) == (def == "火"@ || def == "毒"@ || def == "武"@
            || def == "翼"@ || def == "萌"@ || def == "幽"@ || def == "机械"@),
{
    lemma_element_names();
    let strong = elements::strong_against("虫"@);
    let resist = elements::resisted_by("虫"@);
    assert(strong.len() == 3 && resist.len() == 7);
    assert(strong[0] == "草"@);
    assert(strong[1] == "恶"@);
    assert(strong[2] == "幻"@);
    assert(resist[0] == "火"@);
    assert(resist[1] == "毒"@);
    assert(resist[2] == "武"@);
    assert(resist[3] == "翼"@);
    assert(resist[4] == "萌"@);
    assert(resist[5] == "幽"@);
    assert(resist[6] == "机械"@);
}

proof fn lemma_martial(def: Seq<char>)
    ensures
        elements::strong_against("武"@).contains(def) == (def == "普通"@ || def == "地"@
            || def == "冰"@ || def == "恶"@ || def == "机械"@),
        elements::resisted_by("武"@).contains(def) == (def == "毒"@ || def == "虫"@ || def == "翼"@
            || def == "萌"@ || def == "幽"@ || def == "幻"@),
{
    lemma_element_names();
    let strong = elements::strong_against("武"@);
    let resist = elements::resisted_by("武"@);
    assert(strong.len() == 5 && resist.len() == 6);
    assert(strong[0] == "普通"@);
    assert(strong[1] == "地"@);
    assert(strong[2] == "冰"@);
    assert(strong[3] == "恶"@);
    assert(strong[4] == "机械"@);
    assert(resist[0] == "毒"@);
    assert(resist[1] == "虫"@);
    assert(resist[2] == "翼"@);
    assert(resist[3] == "萌"@);
    assert(resist[4] == "幽"@);
    assert(resist[5] == "幻"@);
}

proof fn lemma_wing(def: Seq<char>)
    ensures
        elements::strong_against("翼"@).contains(def) == (def == "草"@ || def == "虫"@ || def == "武"@),
        elements::resisted_by("翼"@).contains(def) == (def == "地"@ || def == "龙"@ || def == "电"@
            || def == "机械"@),
{
    lemma_element_names();
    let strong = elements::strong_against("翼"@);
    let resist = elements::resisted_by("翼"@);
    assert(strong.len() == 3 && resist.len() == 4);
    assert(strong[0] == "草"@);
    assert(strong[1] == "虫"@);
    assert(strong[2] == "武"@);
    assert(resist[0] == "地"@);
    assert(resist[1] == "龙"@);
    assert(resist[2] == "电"@);
    assert(resist[3] == "机械"@);
}

proof fn lemma_cute(def: Seq<char>)
    ensures
        elements::strong_against("萌"@).contains(def) == (def == "龙"@ || def == "武"@ || def == "恶"@),
        elements::resisted_by("萌"@).contains(def) == (def == "火"@ || def == "毒"@ || def == "机械"@),
{
    lemma_element_names();
    let strong = elements::strong_against("萌"@);
    let resist = elements::resisted_by("萌"@);
    assert(strong.len() == 3 && resist.len() == 3);
    assert(strong[0] == "龙"@);
    assert(strong[1] == "武"@);
    assert(strong[2] == "恶"@);
    assert(resist[0] == "火"@);
    assert(resist[1] == "毒"@);
    assert(resist[2] == "机械"@);
}

proof fn lemma_ghost(def: Seq<char>)
    ensures
        elements::strong_against("幽"@).contains(def) == (def == "光"@ || def == "幽"@ || def == "幻"@),
        elements::resisted_by("幽"@).contains(def) == (def == "普通"@ || def == "恶"@),
{
    lemma_element_names();
    let strong = elements::strong_against("幽"@);
    let resist = elements::resisted_by("幽"@);
    assert(strong.len() == 3 && resist.len() == 2);
    assert(strong[0] == "光"@);
    assert(strong[1] == "幽"@);
    assert(strong[2] == "幻"@);
    assert(resist[0] == "普通"@);
    assert(resist[1] == "恶"@);
}

proof fn lemma_evil(def: Seq<char>)
    ensures
        elements::strong_against("恶"@).contains(def) == (def == "毒"@ || def == "萌"@ || def == "幽"@),
        elements::resisted_by("恶"@).contains(def) == (def == "光"@ || def == "武"@ || def == "恶"@),
{
    lemma_element_names();
    let strong = elements::strong_against("恶"@);
    let resist = elements::resisted_by("恶"@);
    assert(strong.len() == 3 && resist.len() == 3);
    assert(strong[0] == "毒"@);
    assert(strong[1] == "萌"@);
    assert(strong[2] == "幽"@);
    assert(resist[0] == "光"@);
    assert(resist[1] == "武"@);
    assert(resist[2] == "恶"@);
}

proof fn lemma_machine(def: Seq<char>)
    ensures
        elements::strong_against("机械"@).contains(def) == (def == "地"@ || def == "冰"@
            || def == "萌"@),
        elements::resisted_by("机械"@).contains(def) == (def == "火"@ || def == "水"@ || def == "电"@
            || def == "机械"@),
{
    lemma_element_names();
    let strong = elements::strong_against("机械"@);
    let resist = elements::resisted_by("机械"@);
    assert(strong.len() == 3 && resist.len() == 4);
    assert(strong[0] == "地"@);
    assert(strong[1] == "冰"@);
    assert(strong[2] == "萌"@);
    assert(resist[0] == "火"@);
    assert(resist[1] == "水"@);
    assert(resist[2] == "电"@);
    assert(resist[3] == "机械"@);
}

proof fn lemma_dream(def: Seq<char>)
    ensures
        elements::strong_against("幻"@).contains(def) == (def == "毒"@ || def == "武"@),
        elements::resisted_by("幻"@).contains(def) == (def == "光"@ || def == "机械"@ || def == "幻"@),
{
    lemma_element_names();
    let strong = elements::strong_against("幻"@);
    let resist = elements::resisted_by("幻"@);
    assert(strong.len() == 2 && resist.len() == 3);
    assert(strong[0] == "毒"@);
    assert(strong[1] == "武"@);
    assert(resist[0] == "光"@);
    assert(resist[1] == "机械"@);
    assert(resist[2] == "幻"@);
}

proof fn lemma_none(def: Seq<char>)
    ensures
        !elements::strong_against("无"@).contains(def),
        !elements::resisted_by("无"@).contains(def),
{
    lemma_element_names();
    let strong = elements::strong_against("无"@);
    let resist = elements::resisted_by("无"@);
    assert(strong.len() == 0 && resist.len() == 0);
}

/// The factor of an attack against a pet of one element, in hundredths, for every attacking element.
pub proof fn law_chart(def: Seq<char>)
    ensures
        elements::type_factor("普通"@, def, None) == (if def == "地"@ || def == "幽"@ || def == "机械"@ {
            50int
        } else {
            100int
        }),
        elements::type_factor("草"@, def, None) == (if def == "水"@ || def == "光"@ || def == "地"@ {
            200int
        } else if def == "火"@ || def == "龙"@ || def == "毒"@ || def == "虫"@ || def == "翼"@
            || def == "机械"@ {
            50int
        } else {
            100int
        }),
        elements::type_factor("火"@, def, None) == (if def == "草"@ || def == "冰"@ || def == "虫"@
            || def == "机械"@ {
            200int
        } else if def == "水"@ || def == "地"@ || def == "龙"@ {
            50int
        } else {
            100int
        }),
        elements::type_factor("水"@, def, None) == (if def == "火"@ || def == "地"@ || def == "机械"@ {
            200int
        } else if def == "草"@ || def == "冰"@ || def == "龙"@ {
            50int
        } else {
            100int
        }),
        elements::type_factor("光"@, def, None) == (if def == "幽"@ || def == "恶"@ {
            200int
        } else if def == "草"@ || def == "冰"@ {
            50int
        } else {
            100int
        }),
        elements::type_factor("地"@, def, None) == (if def == "火"@ || def == "冰"@ || def == "电"@
            || def == "毒"@ {
            200int
        } else if def == "草"@ || def == "武"@ {
            50int
        } else {
            100int
        }),
        elements::type_factor("冰"@, def, None) == (if def == "草"@ || def == "地"@ || def == "龙"@
            || def == "翼"@ {
            200int
        } else if def == "火"@ || def == "冰"@ || def == "机械"@ {
            50int
        } else {
            100int
        }),
        elements::type_factor("龙"@, def, None) == (if def == "龙"@ {
            200int
        } else if def == "机械"@ {
            50int
        } else {
            100int
        }),
        elements::type_factor("电"@, def, None) == (if def == "水"@ || def == "翼"@ {
            200int
        } else if def == "草"@ || def == "地"@ || def == "龙"@ || def == "电"@ {
            50int
        } else {
            100int
        }),
        elements::type_factor("毒"@, def, None) == (if def == "草"@ || def == "萌"@ {
            200int
        } else if def == "地"@ || def == "毒"@ || def == "幽"@ || def == "机械"@ {
            50int
        } else {
            100int
        }),
        elements::type_factor("虫"@, def, None) == (if def == "草"@ || def == "恶"@ || def == "幻"@ {
            200int
        } else if def == "火"@ || def == "毒"@ || def == "武"@ || def == "翼"@ || def == "萌"@
            || def == "幽"@ || def == "机械"@ {
            50int
        } else {
            100int
        }),
        elements::type_factor("武"@, def, None) == (if def == "普通"@ || def == "地"@ || def == "冰"@
            || def == "恶"@ || def == "机械"@ {
            200int
        } else if def == "毒"@ || def == "虫"@ || def == "翼"@ || def == "萌"@ || def == "幽"@
            || def == "幻"@ {
            50int
        } else {
            100int
        }),
        elements::type_factor("翼"@, def, None) == (if def == "草"@ || def == "虫"@ || def == "武"@ {
            200int
        } else if def == "地"@ || def == "龙"@ || def == "电"@ || def == "机械"@ {
            50int
        } else {
            100int
        }),
        elements::type_factor("萌"@, def, None) == (if def == "龙"@ || def == "武"@ || def == "恶"@ {
            200int
        } else if def == "火"@ || def == "毒"@ || def == "机械"@ {
            50int
        } else {
            100int
        }),
        elements::type_factor("幽"@, def, None) == (if def == "光"@ || def == "幽"@ || def == "幻"@ {
            200int
        } else if def == "普通"@ || def == "恶"@ {
            50int
        } else {
            100int
        }),
        elements::type_factor("恶"@, def, None) == (if def == "毒"@ || def == "萌"@ || def == "幽"@ {
            200int
        } else if def == "光"@ || def == "武"@ || def == "恶"@ {
            50int
        } else {
            100int
        }),
        elements::type_factor("机械"@, def, None) == (if def == "地"@ || def == "冰"@ || def == "萌"@ {
            200int
        } else if def == "火"@ || def == "水"@ || def == "电"@ || def == "机械"@ {
            50int
        } else {
            100int
        }),
        elements::type_factor("幻"@, def, None) == (if def == "毒"@ || def == "武"@ {
            200int
        } else if def == "光"@ || def == "机械"@ || def == "幻"@ {
            50int
        } else {
            100int
        }),
        elements::type_factor("无"@, def, None) == 100,
{
    lemma_element_names();
    lemma_normal(def);
    lemma_grass(def);
    lemma_fire(def);
    lemma_water(def);
    lemma_light(def);
    lemma_earth(def);
    lemma_ice(def);
    lemma_dragon(def);
    lemma_electric(def);
    lemma_poison(def);
    lemma_bug(def);
    lemma_martial(def);
    lemma_wing(def);
    lemma_cute(def);
    lemma_ghost(def);
    lemma_evil(def);
    lemma_machine(def);
    lemma_dream(def);
    lemma_none(def);
}

/// An attack of no element that the chart knows has the factor 1 against everything.
pub proof fn law_unknown_element(attack: Seq<char>, def1: Seq<char>, def2: Option<Seq<char>>)
    requires
        attack != "普通"@,
        attack != "草"@,
        attack != "火"@,
        attack != "水"@,
        attack != "光"@,
        attack != "地"@,
        attack != "冰"@,
        attack != "龙"@,
        attack != "电"@,
        attack != "毒"@,
        attack != "虫"@,
        attack != "武"@,
        attack != "翼"@,
        attack != "萌"@,
        attack != "幽"@,
        attack != "恶"@,
        attack != "机械"@,
        attack != "幻"@,
        attack != "无"@,
    ensures
        elements::type_factor(attack, def1, def2) == 100,
{
}

/// What an attack is strong against does not resist it.
proof fn lemma_strong_or_resisted(attack: Seq<char>, def: Seq<char>)
    ensures
        !(elements::strong_against(attack).contains(def) && elements::resisted_by(attack).contains(
            def,
        )),
{
    lemma_element_names();
    if attack == "普通"@ {
        lemma_normal(def);
    } else if attack == "草"@ {
        lemma_grass(def);
    } else if attack == "火"@ {
        lemma_fire(def);
    } else if attack == "水"@ {
        lemma_water(def);
    } else if attack == "光"@ {
        lemma_light(def);
    } else if attack == "地"@ {
        lemma_earth(def);
    } else if attack == "冰"@ {
        lemma_ice(def);
    } else if attack == "龙"@ {
        lemma_dragon(def);
    } else if attack == "电"@ {
        lemma_electric(def);
    } else if attack == "毒"@ {
        lemma_poison(def);
    } else if attack == "虫"@ {
        lemma_bug(def);
    } else if attack == "武"@ {
        lemma_martial(def);
    } else if attack == "翼"@ {
        lemma_wing(def);
    } else if attack == "萌"@ {
        lemma_cute(def);
    } else if attack == "幽"@ {
        lemma_ghost(def);
    } else if attack == "恶"@ {
        lemma_evil(def);
    } else if attack == "机械"@ {
        lemma_machine(def);
    } else if attack == "幻"@ {
        lemma_dream(def);
    } else if attack == "无"@ {
        lemma_none(def);
    }
}

/// The factor against two elements comes of the factors against each: 3 where both are 2, 0.25
/// where both are 0.5, else 2 where one is 2, else 0.5 where one is 0.5, else 1. The order of the two
/// does not matter.
pub proof fn law_second_element(attack: Seq<char>, def1: Seq<char>, def2: Seq<char>)
    ensures
        ({
            let x = elements::type_factor(attack, def1, None);
            let y = elements::type_factor(attack, def2, None);
            elements::type_factor(attack, def1, Some(def2)) == (if x == 200 && y == 200 {
                300
            } else if x == 50 && y == 50 {
                25
            } else if x == 200 || y == 200 {
                200
            } else if x == 50 || y == 50 {
                50
            } else {
                100int
            })
        }),
        elements::type_factor(attack, def1, Some(def2)) == elements::type_factor(
            attack,
            def2,
            Some(def1),
        ),
{
    lemma_strong_or_resisted(attack, def1);
    lemma_strong_or_resisted(attack, def2);
}

// Natures.

/// No two natures that change stats have the same name.
proof fn lemma_nature_names()
    ensures
        "急躁"@ != "胆小"@,
        "天真"@ != "胆小"@,
        "天真"@ != "急躁"@,
        "开朗"@ != "胆小"@,
        "开朗"@ != "急躁"@,
        "开朗"@ != "天真"@,
        "固执"@ != "胆小"@,
        "固执"@ != "急躁"@,
        "固执"@ != "天真"@,
        "固执"@ != "开朗"@,
        "勇敢"@ != "胆小"@,
        "勇敢"@ != "急躁"@,
        "勇敢"@ != "天真"@,
        "勇敢"@ != "开朗"@,
        "勇敢"@ != "固执"@,
        "调皮"@ != "胆小"@,
        "调皮"@ != "急躁"@,
        "调皮"@ != "天真"@,
        "调皮"@ != "开朗"@,
        "调皮"@ != "固执"@,
        "调皮"@ != "勇敢"@,
        "孤独"@ != "胆小"@,
        "孤独"@ != "急躁"@,
        "孤独"@ != "天真"@,
        "孤独"@ != "开朗"@,
        "孤独"@ != "固执"@,
        "孤独"@ != "勇敢"@,
        "孤独"@ != "调皮"@,
        "保守"@ != "胆小"@,
        "保守"@ != "急躁"@,
        "保守"@ != "天真"@,
        "保守"@ != "开朗"@,
        "保守"@ != "固执"@,
        "保守"@ != "勇敢"@,
        "保守"@ != "调皮"@,
        "保守"@ != "孤独"@,
        "冷静"@ != "胆小"@,
        "冷静"@ != "急躁"@,
        "冷静"@ != "天真"@,
        "冷静"@ != "开朗"@,
        "冷静"@ != "固执"@,
        "冷静"@ != "勇敢"@,
        "冷静"@ != "调皮"@,
        "冷静"@ != "孤独"@,
        "冷静"@ != "保守"@,
        "马虎"@ != "胆小"@,
        "马虎"@ != "急躁"@,
        "马虎"@ != "天真"@,
        "马虎"@ != "开朗"@,
        "马虎"@ != "固执"@,
        "马虎"@ != "勇敢"@,
        "马虎"@ != "调皮"@,
        "马虎"@ != "孤独"@,
        "马虎"@ != "保守"@,
        "马虎"@ != "冷静"@,
        "稳重"@ != "胆小"@,
        "稳重"@ != "急躁"@,
        "稳重"@ != "天真"@,
        "稳重"@ != "开朗"@,
        "稳重"@ != "固执"@,
        "稳重"@ != "勇敢"@,
        "稳重"@ != "调皮"@,
        "稳重"@ != "孤独"@,
        "稳重"@ != "保守"@,
        "稳重"@ != "冷静"@,
        "稳重"@ != "马虎"@,
        "淘气"@ != "胆小"@,
        "淘气"@ != "急躁"@,
        "淘气"@ != "天真"@,
        "淘气"@ != "开朗"@,
        "淘气"@ != "固执"@,
        "淘气"@ != "勇敢"@,
        "淘气"@ != "调皮"@,
        "淘气"@ != "孤独"@,
        "淘气"@ != "保守"@,
        "淘气"@ != "冷静"@,
        "淘气"@ != "马虎"@,
        "淘气"@ != "稳重"@,
        "大胆"@ != "胆小"@,
        "大胆"@ != "急躁"@,
        "大胆"@ != "天真"@,
        "大胆"@ != "开朗"@,
        "大胆"@ != "固执"@,
        "大胆"@ != "勇敢"@,
        "大胆"@ != "调皮"@,
        "大胆"@ != "孤独"@,
        "大胆"@ != "保守"@,
        "大胆"@ != "冷静"@,
        "大胆"@ != "马虎"@,
        "大胆"@ != "稳重"@,
        "大胆"@ != "淘气"@,
        "悠闲"@ != "胆小"@,
        "悠闲"@ != "急躁"@,
        "悠闲"@ != "天真"@,
        "悠闲"@ != "开朗"@,
        "悠闲"@ != "固执"@,
        "悠闲"@ != "勇敢"@,
        "悠闲"@ != "调皮"@,
        "悠闲"@ != "孤独"@,
        "悠闲"@ != "保守"@,
        "悠闲"@ != "冷静"@,
        "悠闲"@ != "马虎"@,
        "悠闲"@ != "稳重"@,
        "悠闲"@ != "淘气"@,
        "悠闲"@ != "大胆"@,
        "沉着"@ != "胆小"@,
        "沉着"@ != "急躁"@,
        "沉着"@ != "天真"@,
        "沉着"@ != "开朗"@,
        "沉着"@ != "固执"@,
        "沉着"@ != "勇敢"@,
        "沉着"@ != "调皮"@,
        "沉着"@ != "孤独"@,
        "沉着"@ != "保守"@,
        "沉着"@ != "冷静"@,
        "沉着"@ != "马虎"@,
        "沉着"@ != "稳重"@,
        "沉着"@ != "淘气"@,
        "沉着"@ != "大胆"@,
        "沉着"@ != "悠闲"@,
        "慎重"@ != "胆小"@,
        "慎重"@ != "急躁"@,
        "慎重"@ != "天真"@,
        "慎重"@ != "开朗"@,
        "慎重"@ != "固执"@,
        "慎重"@ != "勇敢"@,
        "慎重"@ != "调皮"@,
        "慎重"@ != "孤独"@,
        "慎重"@ != "保守"@,
        "慎重"@ != "冷静"@,
        "慎重"@ != "马虎"@,
        "慎重"@ != "稳重"@,
        "慎重"@ != "淘气"@,
        "慎重"@ != "大胆"@,
        "慎重"@ != "悠闲"@,
        "慎重"@ != "沉着"@,
        "温顺"@ != "胆小"@,
        "温顺"@ != "急躁"@,
        "温顺"@ != "天真"@,
        "温顺"@ != "开朗"@,
        "温顺"@ != "固执"@,
        "温顺"@ != "勇敢"@,
        "温顺"@ != "调皮"@,
        "温顺"@ != "孤独"@,
        "温顺"@ != "保守"@,
        "温顺"@ != "冷静"@,
        "温顺"@ != "马虎"@,
        "温顺"@ != "稳重"@,
        "温顺"@ != "淘气"@,
        "温顺"@ != "大胆"@,
        "温顺"@ != "悠闲"@,
        "温顺"@ != "沉着"@,
        "温顺"@ != "慎重"@,
        "狂妄"@ != "胆小"@,
        "狂妄"@ != "急躁"@,
        "狂妄"@ != "天真"@,
        "狂妄"@ != "开朗"@,
        "狂妄"@ != "固执"@,
        "狂妄"@ != "勇敢"@,
        "狂妄"@ != "调皮"@,
        "狂妄"@ != "孤独"@,
        "狂妄"@ != "保守"@,
        "狂妄"@ != "冷静"@,
        "狂妄"@ != "马虎"@,
        "狂妄"@ != "稳重"@,
        "狂妄"@ != "淘气"@,
        "狂妄"@ != "大胆"@,
        "狂妄"@ != "悠闲"@,
        "狂妄"@ != "沉着"@,
        "狂妄"@ != "慎重"@,
        "狂妄"@ != "温顺"@,
{
    reveal_strlit("胆小");
    reveal_strlit("急躁");
    reveal_strlit("天真");
    reveal_strlit("开朗");
    reveal_strlit("固执");
    reveal_strlit("勇敢");
    reveal_strlit("调皮");
    reveal_strlit("孤独");
    reveal_strlit("保守");
    reveal_strlit("冷静");
    reveal_strlit("马虎");
    reveal_strlit("稳重");
    reveal_strlit("淘气");
    reveal_strlit("大胆");
    reveal_strlit("悠闲");
    reveal_strlit("沉着");
    reveal_strlit("慎重");
    reveal_strlit("温顺");
    reveal_strlit("狂妄");
    assert("胆小"@[0] == '胆' && "胆小"@[1] == '小');
    assert("急躁"@[0] == '急' && "急躁"@[1] == '躁');
    assert("天真"@[0] == '天' && "天真"@[1] == '真');
    assert("开朗"@[0] == '开' && "开朗"@[1] == '朗');
    assert("固执"@[0] == '固' && "固执"@[1] == '执');
    assert("勇敢"@[0] == '勇' && "勇敢"@[1] == '敢');
    assert("调皮"@[0] == '调' && "调皮"@[1] == '皮');
    assert("孤独"@[0] == '孤' && "孤独"@[1] == '独');
    assert("保守"@[0] == '保' && "保守"@[1] == '守');
    assert("冷静"@[0] == '冷' && "冷静"@[1] == '静');
    assert("马虎"@[0] == '马' && "马虎"@[1] == '虎');
    assert("稳重"@[0] == '稳' && "稳重"@[1] == '重');
    assert("淘气"@[0] == '淘' && "淘气"@[1] == '气');
    assert("大胆"@[0] == '大' && "大胆"@[1] == '胆');
    assert("悠闲"@[0] == '悠' && "悠闲"@[1] == '闲');
    assert("沉着"@[0] == '沉' && "沉着"@[1] == '着');
    assert("慎重"@[0] == '慎' && "慎重"@[1] == '重');
    assert("温顺"@[0] == '温' && "温顺"@[1] == '顺');
    assert("狂妄"@[0] == '狂' && "狂妄"@[1] == '妄');
}

/// What each nature makes of each stat, in tenths: it raises one stat and lowers another.
pub proof fn law_natures(stat: Seq<char>)
    ensures
        elements::nature_factor("胆小"@, stat) == (if stat == "速度"@ {
            11int
        } else if stat == "攻击"@ {
            9
        } else {
            10
        }),
        elements::nature_factor("急躁"@, stat) == (if stat == "速度"@ {
            11int
        } else if stat == "防御"@ {
            9
        } else {
            10
        }),
        elements::nature_factor("天真"@, stat) == (if stat == "速度"@ {
            11int
        } else if stat == "特防"@ {
            9
        } else {
            10
        }),
        elements::nature_factor("开朗"@, stat) == (if stat == "速度"@ {
            11int
        } else if stat == "特攻"@ {
            9
        } else {
            10
        }),
        elements::nature_factor("固执"@, stat) == (if stat == "攻击"@ {
            11int
        } else if stat == "特攻"@ {
            9
        } else {
            10
        }),
        elements::nature_factor("勇敢"@, stat) == (if stat == "攻击"@ {
            11int
        } else if stat == "速度"@ {
            9
        } else {
            10
        }),
        elements::nature_factor("调皮"@, stat) == (if stat == "攻击"@ {
            11int
        } else if stat == "特防"@ {
            9
        } else {
            10
        }),
        elements::nature_factor("孤独"@, stat) == (if stat == "攻击"@ {
            11int
        } else if stat == "防御"@ {
            9
        } else {
            10
        }),
        elements::nature_factor("保守"@, stat) == (if stat == "特攻"@ {
            11int
        } else if stat == "攻击"@ {
            9
        } else {
            10
        }),
        elements::nature_factor("冷静"@, stat) == (if stat == "特攻"@ {
            11int
        } else if stat == "速度"@ {
            9
        } else {
            10
        }),
        elements::nature_factor("马虎"@, stat) == (if stat == "特攻"@ {
            11int
        } else if stat == "特防"@ {
            9
        } else {
            10
        }),
        elements::nature_factor("稳重"@, stat) == (if stat == "特攻"@ {
            11int
        } else if stat == "防御"@ {
            9
        } else {
            10
        }),
        elements::nature_factor("淘气"@, stat) == (if stat == "防御"@ {
            11int
        } else if stat == "特攻"@ {
            9
        } else {
            10
        }),
        elements::nature_factor("大胆"@, stat) == (if stat == "防御"@ {
            11int
        } else if stat == "攻击"@ {
            9
        } else {
            10
        }),
        elements::nature_factor("悠闲"@, stat) == (if stat == "防御"@ {
            11int
        } else if stat == "速度"@ {
            9
        } else {
            10
        }),
        elements::nature_factor("沉着"@, stat) == (if stat == "特防"@ {
            11int
        } else if stat == "攻击"@ {
            9
        } else {
            10
        }),
        elements::nature_factor("慎重"@, stat) == (if stat == "特防"@ {
            11int
        } else if stat == "特攻"@ {
            9
        } else {
            10
        }),
        elements::nature_factor("温顺"@, stat) == (if stat == "特防"@ {
            11int
        } else if stat == "防御"@ {
            9
        } else {
            10
        }),
        elements::nature_factor("狂妄"@, stat) == (if stat == "特防"@ {
            11int
        } else if stat == "速度"@ {
            9
        } else {
            10
        }),
{
    lemma_nature_names();
}

/// Any other nature leaves every stat as it is.
pub proof fn law_neutral_natures(nature: Seq<char>, stat: Seq<char>)
    requires
        nature != "胆小"@,
        nature != "急躁"@,
        nature != "天真"@,
        nature != "开朗"@,
        nature != "固执"@,
        nature != "勇敢"@,
        nature != "调皮"@,
        nature != "孤独"@,
        nature != "保守"@,
        nature != "冷静"@,
        nature != "马虎"@,
        nature != "稳重"@,
        nature != "淘气"@,
        nature != "大胆"@,
        nature != "悠闲"@,
        nature != "沉着"@,
        nature != "慎重"@,
        nature != "温顺"@,
        nature != "狂妄"@,
    ensures
        elements::nature_factor(nature, stat) == 10,
{
}

/// The natures that there are: these are kept, white space around them aside, and anything else
/// becomes the neutral one.
pub proof fn law_known_natures(raw: Seq<char>)
    ensures
        ({
            let n = text::trimmed(raw);
            let known = n == "胆小"@
                || n == "急躁"@
                || n == "天真"@
                || n == "开朗"@
                || n == "固执"@
                || n == "勇敢"@
                || n == "调皮"@
                || n == "孤独"@
                || n == "保守"@
                || n == "冷静"@
                || n == "马虎"@
                || n == "稳重"@
                || n == "淘气"@
                || n == "大胆"@
                || n == "悠闲"@
                || n == "沉着"@
                || n == "慎重"@
                || n == "温顺"@
                || n == "狂妄"@
                || n == "认真"@
                || n == "实干"@
                || n == "坦率"@
                || n == "害羞"@
                || n == "浮躁"@;
            elements::normal_nature(raw) == (if known {
                n
            } else {
                "认真"@
            })
        }),
{
}

} // verus!
