//! Dedication: what some skills add up for their side.

use vstd::prelude::*;
use crate::log::{BattleLog, Log};
use crate::number;
use crate::number::Overflow;
use crate::pet::{BattlePet, DedicationBuff, Pet, Side};
use crate::random;
use crate::text;

verus! {

/// One more time of the kind with that number.
pub open spec fn added(d: DedicationBuff, idx: int) -> Option<DedicationBuff> {
    if idx == 0 {
        if number::fits(d.power_bonus_times + 1) {
            Some(DedicationBuff { power_bonus_times: (d.power_bonus_times + 1) as i32, ..d })
        } else {
            None
        }
    } else if idx == 1 {
        if number::fits(d.poison_bonus_times + 1) {
            Some(DedicationBuff { poison_bonus_times: (d.poison_bonus_times + 1) as i32, ..d })
        } else {
            None
        }
    } else if idx == 2 {
        if number::fits(d.lifesteal_bonus_times + 1) {
            Some(
                DedicationBuff { lifesteal_bonus_times: (d.lifesteal_bonus_times + 1) as i32, ..d },
            )
        } else {
            None
        }
    } else if idx == 3 {
        if number::fits(d.combo_bonus_times + 1) {
            Some(DedicationBuff { combo_bonus_times: (d.combo_bonus_times + 1) as i32, ..d })
        } else {
            None
        }
    } else {
        if number::fits(d.cost_reduction_times + 1) {
            Some(DedicationBuff { cost_reduction_times: (d.cost_reduction_times + 1) as i32, ..d })
        } else {
            None
        }
    }
}

/// The name of the kind with that number.
pub open spec fn kind_text(idx: int) -> Seq<char> {
    if idx == 0 {
        "威力+20"@
    } else if idx == 1 {
        "附加2层中毒"@
    } else if idx == 2 {
        "20%吸血"@
    } else if idx == 3 {
        "连击数+1"@
    } else {
        "能耗-2"@
    }
}

/// Adds one more time of the kind with that number.
pub fn add_dedication_by_index(d: &mut DedicationBuff, idx: usize) -> (r: Result<(), Overflow>)
    requires
        old(d).wf(),
    ensures
        (match r {
            Ok(_) => added(*old(d), idx as int) == Some(*final(d)) && final(d).wf(),
            Err(_) => added(*old(d), idx as int) is None && *final(d) == *old(d),
        }),
{
    match idx {
        0 => {
            d.power_bonus_times = number::sum(d.power_bonus_times, 1)?;
        },
        1 => {
            d.poison_bonus_times = number::sum(d.poison_bonus_times, 1)?;
        },
        2 => {
            d.lifesteal_bonus_times = number::sum(d.lifesteal_bonus_times, 1)?;
        },
        3 => {
            d.combo_bonus_times = number::sum(d.combo_bonus_times, 1)?;
        },
        _ => {
            d.cost_reduction_times = number::sum(d.cost_reduction_times, 1)?;
        },
    }
    Ok(())
}

/// The name of the kind with that number.
pub fn dedication_kind_name(idx: usize) -> (r: &'static str)
    ensures
        r@ == kind_text(idx as int),
{
    match idx {
        0 => "威力+20",
        1 => "附加2层中毒",
        2 => "20%吸血",
        3 => "连击数+1",
        _ => "能耗-2",
    }
}

/// Whether the effect of a skill names the kind of dedication with that number.
pub open spec fn grants(effect: Seq<char>, idx: int) -> bool {
    if idx == 0 {
        text::has(effect, "威力+20"@)
    } else if idx == 1 {
        text::has(effect, "附加 2 层中毒"@) || text::has(effect, "获得2层中毒"@)
    } else if idx == 2 {
        text::has(effect, "10%吸血"@) || text::has(effect, "20%吸血"@)
    } else if idx == 3 {
        text::has(effect, "连击数+1"@)
    } else {
        text::has(effect, "能耗-2"@)
    }
}

/// One more time of each of the first `n` kinds that the effect names, and the names of these.
pub open spec fn granted(d: DedicationBuff, effect: Seq<char>, n: int) -> Option<
    (DedicationBuff, Seq<Seq<char>>),
>
    decreases n,
{
    if n <= 0 {
        Some((d, seq![]))
    } else {
        match granted(d, effect, n - 1) {
            None => None,
            Some((d1, names)) => if grants(effect, n - 1) {
                match added(d1, n - 1) {
                    None => None,
                    Some(d2) => Some((d2, names.push(kind_text(n - 1)))),
                }
            } else {
                Some((d1, names))
            },
        }
    }
}

/// A kind of dedication that is drawn, where the effect asks for that.
pub open spec fn random_granted(
    side: Side,
    p: Pet,
    effect: Seq<char>,
    d: DedicationBuff,
    seed: u64,
    log: Log,
) -> Option<(DedicationBuff, Log)> {
    if text::has(effect, "随机奉献"@) {
        let idx = random::drawn(seed, 5);
        match added(d, idx) {
            None => None,
            Some(d1) => Some(
                (
                    d1,
                    log.said(
                        side.letter() + "方 "@ + p.name + " 触发随机奉献，获得 "@ + kind_text(idx)
                            + "。\n"@,
                    ),
                ),
            ),
        }
    } else {
        Some((d, log))
    }
}

/// What the effect of a skill adds to dedication.
pub open spec fn effect_granted(
    side: Side,
    p: Pet,
    effect: Seq<char>,
    d: DedicationBuff,
    seed: u64,
    log: Log,
) -> Option<(DedicationBuff, Log)> {
    if !text::has(effect, "奉献"@) {
        Some((d, log))
    } else {
        match random_granted(side, p, effect, d, seed, log) {
            None => None,
            Some((d1, l1)) => match granted(d1, effect, 5) {
                None => None,
                Some((d2, names)) => Some(
                    (
                        d2,
                        if names.len() > 0 {
                            l1.said(
                                side.letter() + "方 "@ + p.name + " 获得奉献强化："@ + text::joined(
                                    names,
                                    "、"@,
                                ) + "。\n"@,
                            )
                        } else {
                            l1
                        },
                    ),
                ),
            },
        }
    }
}

/// What a used skill adds to dedication; a skill that the pet does not know adds nothing.
#[verifier::opaque]
pub open spec fn dedication_gained(
    side: Side,
    p: Pet,
    used: Seq<char>,
    d: DedicationBuff,
    seed: u64,
    log: Log,
) -> Option<(DedicationBuff, Log)> {
    if p.knows(used) {
        effect_granted(side, p, p.skills[p.skill_index(used)].effect, d, seed, log)
    } else {
        Some((d, log))
    }
}

fn is_granted(effect: &str, idx: usize) -> (r: bool)
    ensures
        r == grants(effect@, idx as int),
{
    match idx {
        0 => text::contains(effect, "威力+20"),
        1 => text::contains(effect, "附加 2 层中毒") || text::contains(effect, "获得2层中毒"),
        2 => text::contains(effect, "10%吸血") || text::contains(effect, "20%吸血"),
        3 => text::contains(effect, "连击数+1"),
        _ => text::contains(effect, "能耗-2"),
    }
}

proof fn lemma_granted_stops(d: DedicationBuff, effect: Seq<char>, i: int, n: int)
    requires
        i <= n,
        granted(d, effect, i) is None,
    ensures
        granted(d, effect, n) is None,
    decreases n - i,
{
    if i < n {
        lemma_granted_stops(d, effect, i, n - 1);
        if i == n - 1 {
            assert(granted(d, effect, n) is None);
        }
    }
}

fn grant(d: &mut DedicationBuff, effect: &str) -> (r: Result<Vec<String>, Overflow>)
    requires
        old(d).wf(),
    ensures
        (match r {
            Ok(names) => granted(*old(d), effect@, 5) == Some((*final(d), text::texts(names@)))
                && final(d).wf(),
            Err(_) => granted(*old(d), effect@, 5) is None,
        }),
{
    let mut names: Vec<String> = Vec::new();
    let mut i: usize = 0;
    assert(text::texts(names@) == Seq::<Seq<char>>::empty());
    while i < 5
        invariant
            i <= 5,
            d.wf(),
            granted(*old(d), effect@, i as int) == Some((*d, text::texts(names@))),
        decreases 5 - i,
    {
        if is_granted(effect, i) {
            let ghost before = text::texts(names@);
            match add_dedication_by_index(d, i) {
                Ok(_) => {},
                Err(e) => {
                    proof {
                        lemma_granted_stops(*old(d), effect@, i + 1, 5);
                    }
                    return Err(e);
                },
            }
            names.push(dedication_kind_name(i).to_owned());
            assert(text::texts(names@) == before.push(kind_text(i as int)));
        }
        i = i + 1;
    }
    Ok(names)
}

/// Lets a used skill add to dedication; `seed` is what a kind is drawn from.
pub fn apply_dedication_gain_from_effect(
    side: Side,
    pet: &BattlePet,
    used_skill_name: &str,
    dedication: &mut DedicationBuff,
    seed: u64,
    log: &mut BattleLog,
) -> (r: Result<(), Overflow>)
    requires
        old(dedication).wf(),
    ensures
        (match r {
            Ok(_) => dedication_gained(
                side,
                pet@,
                used_skill_name@,
                *old(dedication),
                seed,
                old(log)@,
            ) == Some((*final(dedication), final(log)@)) && final(dedication).wf(),
            Err(_) => dedication_gained(
                side,
                pet@,
                used_skill_name@,
                *old(dedication),
                seed,
                old(log)@,
            ) is None,
        }),
{
    proof {
        reveal(dedication_gained);
    }
    let at: usize = pet.find_skill(used_skill_name);
    if at >= pet.skills.len() {
        return Ok(());
    }
    let effect: &str = pet.skills[at].effect.as_str();
    if !text::contains(effect, "奉献") {
        return Ok(());
    }
    if text::contains(effect, "随机奉献") {
        let mut s: u64 = seed;
        let idx: usize = random::rand_index(&mut s, 5);
        add_dedication_by_index(dedication, idx)?;
        let mut m: String = side.text().to_owned();
        m.append("方 ");
        m.append(pet.name.as_str());
        m.append(" 触发随机奉献，获得 ");
        m.append(dedication_kind_name(idx));
        m.append("。\n");
        log.say(m);
    }
    let gains: Vec<String> = grant(dedication, effect)?;
    if gains.len() > 0 {
        let mut m: String = side.text().to_owned();
        m.append("方 ");
        m.append(pet.name.as_str());
        m.append(" 获得奉献强化：");
        let list: String = text::join(&gains, "、");
        m.append(list.as_str());
        m.append("。\n");
        log.say(m);
    }
    Ok(())
}

} // verus!
