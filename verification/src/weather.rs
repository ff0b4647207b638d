//! The weather: where it comes from, what it does, and when it ends.

use vstd::prelude::*;
use crate::elements;
use crate::log::{BattleLog, Log};
use crate::number;
use crate::number::{Overflow, push_int};
use crate::pet::{BattlePet, BattleSkill, Pet, WeatherKind, WeatherState};
use crate::status;
use crate::text;

verus! {

/// Weather that is there lasts for at least one more round.
pub open spec fn weather_wf(weather: Option<WeatherState>) -> bool {
    weather matches Some(w) ==> w.remain_turns >= 1
}

/// The name of a kind of weather.
pub open spec fn kind_text(kind: WeatherKind) -> Seq<char> {
    match kind {
        WeatherKind::Rain => "下雨"@,
        WeatherKind::Sandstorm => "沙暴"@,
        WeatherKind::Blizzard => "暴风雪"@,
    }
}

/// The name of a kind of weather.
pub fn kind_name(kind: WeatherKind) -> (r: &'static str)
    ensures
        r@ == kind_text(kind),
{
    match kind {
        WeatherKind::Rain => "下雨",
        WeatherKind::Sandstorm => "沙暴",
        WeatherKind::Blizzard => "暴风雪",
    }
}

/// The weather that the text of a skill's effect names.
pub open spec fn named_weather(effect: Seq<char>) -> Option<WeatherKind> {
    if text::has(effect, "下雨"@) {
        Some(WeatherKind::Rain)
    } else if text::has(effect, "沙暴"@) {
        Some(WeatherKind::Sandstorm)
    } else if text::has(effect, "暴风雪"@) {
        Some(WeatherKind::Blizzard)
    } else {
        None
    }
}

/// The weather after a skill; new weather lasts for eight rounds.
pub open spec fn changed(weather: Option<WeatherState>, effect: Seq<char>, log: Log) -> (
    Option<WeatherState>,
    Log,
) {
    match named_weather(effect) {
        Some(kind) => (
            Some(WeatherState { kind, remain_turns: 8 }),
            log.said("天气变为 ["@ + kind_text(kind) + "]，持续 8 回合。\n"@),
        ),
        None => (weather, log),
    }
}

/// Lets a skill change the weather.
pub fn apply_weather_from_skill(
    weather: &mut Option<WeatherState>,
    skill: &BattleSkill,
    log: &mut BattleLog,
)
    ensures
        (*final(weather), final(log)@) == changed(*old(weather), skill@.effect, old(log)@),
        weather_wf(*old(weather)) ==> weather_wf(*final(weather)),
{
    let effect: &str = skill.effect.as_str();
    let new_weather: Option<WeatherKind> = if text::contains(effect, "下雨") {
        Some(WeatherKind::Rain)
    } else if text::contains(effect, "沙暴") {
        Some(WeatherKind::Sandstorm)
    } else if text::contains(effect, "暴风雪") {
        Some(WeatherKind::Blizzard)
    } else {
        None
    };
    if let Some(kind) = new_weather {
        *weather = Some(WeatherState { kind, remain_turns: 8 });
        let mut m: String = "天气变为 [".to_owned();
        m.append(kind_name(kind));
        m.append("]，持续 8 回合。\n");
        log.say(m);
    }
}

/// A pet at the end of a round in a blizzard: two more layers of freezing, unless it is immune.
pub open spec fn chilled(p: Pet) -> Option<Pet> {
    if p.has_element("冰"@) {
        Some(p)
    } else if number::fits(p.freeze_layers + 2) {
        status::locked(Pet { freeze_layers: p.freeze_layers + 2, ..p })
    } else {
        None
    }
}

/// What is said where freezing has come to lock another amount of health.
pub open spec fn lock_told(before: Pet, p: Pet, log: Log) -> Log {
    if p.frozen_hp_locked != before.frozen_hp_locked {
        log.said(
            p.name + " 的冻结生命值提升至 "@ + number::int_text(p.frozen_hp_locked)
                + "（当前可用上限 "@ + status::usable_text(p),
        )
    } else {
        log
    }
}

/// A blizzard at the end of a round.
pub open spec fn blizzard(a: Pet, b: Pet, log: Log) -> Option<(Pet, Pet, Log)> {
    match (chilled(a), chilled(b)) {
        (Some(a1), Some(b1)) => Some(
            (
                a1,
                b1,
                lock_told(
                    b,
                    b1,
                    lock_told(
                        a,
                        a1,
                        log.said("暴风雪：双方各获得2层冻结（冰系免疫）。\n"@),
                    ),
                ),
            ),
        ),
        _ => None,
    }
}

/// The weather, one round on.
pub open spec fn passed(w: WeatherState, log: Log) -> (Option<WeatherState>, Log) {
    if w.remain_turns - 1 <= 0 {
        (None, log.said("天气效果结束。\n"@))
    } else {
        (Some(WeatherState { remain_turns: (w.remain_turns - 1) as i32, ..w }), log)
    }
}

/// What the weather does at the end of a round.
pub open spec fn weather_ended(weather: Option<WeatherState>, a: Pet, b: Pet, log: Log) -> Option<
    (Option<WeatherState>, Pet, Pet, Log),
> {
    match weather {
        None => Some((weather, a, b, log)),
        Some(w) => {
            let struck = if w.kind == WeatherKind::Blizzard {
                blizzard(a, b, log)
            } else {
                Some((a, b, log))
            };
            match struck {
                None => None,
                Some((a1, b1, l1)) => {
                    let (w2, l2) = passed(w, l1);
                    Some((w2, a1, b1, l2))
                },
            }
        },
    }
}

fn chill(pet: &mut BattlePet) -> (r: Result<bool, Overflow>)
    requires
        old(pet)@.wf(),
    ensures
        (match r {
            Ok(moved) => chilled(old(pet)@) == Some(final(pet)@) && final(pet)@.follows(old(pet)@) && moved == (
            final(pet)@.frozen_hp_locked != old(pet)@.frozen_hp_locked),
            Err(_) => chilled(old(pet)@) is None,
        }),
{
    if elements::is_immune_to_freeze(pet) {
        return Ok(false);
    }
    let before: i32 = pet.frozen_hp_locked;
    pet.freeze_layers = number::sum(pet.freeze_layers, 2)?;
    status::recompute_frozen_hp_lock(pet)?;
    Ok(pet.frozen_hp_locked != before)
}

fn tell_lock(pet: &BattlePet, moved: bool, log: &mut BattleLog, Ghost(before): Ghost<Pet>)
    requires
        pet@.wf(),
        moved == (pet@.frozen_hp_locked != before.frozen_hp_locked),
    ensures
        final(log)@ == lock_told(before, pet@, old(log)@),
{
    if moved {
        let mut m: String = pet.name.clone();
        m.append(" 的冻结生命值提升至 ");
        push_int(&mut m, pet.frozen_hp_locked);
        m.append("（当前可用上限 ");
        status::push_usable(&mut m, pet);
        log.say(m);
    }
}

/// Lets the weather do what it does at the end of a round.
pub fn apply_weather_end_turn(
    weather: &mut Option<WeatherState>,
    a: &mut BattlePet,
    b: &mut BattlePet,
    log: &mut BattleLog,
) -> (r: Result<(), Overflow>)
    requires
        old(a)@.wf(),
        old(b)@.wf(),
        weather_wf(*old(weather)),
    ensures
        (match r {
            Ok(_) => weather_ended(*old(weather), old(a)@, old(b)@, old(log)@) == Some(
                (*final(weather), final(a)@, final(b)@, final(log)@),
            ) && final(a)@.follows(old(a)@) && final(b)@.follows(old(b)@) && weather_wf(*final(weather)),
            Err(_) => weather_ended(*old(weather), old(a)@, old(b)@, old(log)@) is None,
        }),
{
    if let Some(w) = *weather {
        if w.kind == WeatherKind::Blizzard {
            let a_moved: bool = chill(a)?;
            let b_moved: bool = chill(b)?;
            log.say("暴风雪：双方各获得2层冻结（冰系免疫）。\n".to_owned());
            tell_lock(a, a_moved, log, Ghost(old(a)@));
            tell_lock(b, b_moved, log, Ghost(old(b)@));
        }
        if w.remain_turns - 1 <= 0 {
            *weather = None;
            log.say("天气效果结束。\n".to_owned());
        } else {
            *weather = Some(WeatherState { kind: w.kind, remain_turns: w.remain_turns - 1 });
        }
    }
    Ok(())
}

} // verus!
