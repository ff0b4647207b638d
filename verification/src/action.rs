//! What a side does in a round: it uses a skill, brings in another pet, or charges.

use vstd::prelude::*;
use crate::attack;
use crate::attack::Strike;
use crate::camp;
use crate::camp::{Camp, SideState};
use crate::dedication;
use crate::effects;
use crate::field;
use crate::log::{BattleLog, Log};
use crate::number;
use crate::number::{Overflow, push_int};
use crate::pet::{
    BattlePet, CHARGE_ENERGY_GAIN, Choice, Decision, DedicationBuff, Pet, Side, WeatherState,
};
use crate::pet_battle_patch::{Patch, PetBattlePatchTable};
use crate::random;
use crate::status;
use crate::text;
use crate::weather;

verus! {

/// The place of the first skill from `i` on that is used on entry and can be paid for.
pub open spec fn swift_from(p: Pet, sky: Option<WeatherState>, i: int) -> Option<int>
    decreases p.skills.len() - i,
{
    if i < 0 || i >= p.skills.len() {
        None
    } else if text::has(p.skills[i].effect, "迅捷"@) && p.energy >= effects::cost_in(
        p.skills[i],
        sky,
    ) {
        Some(i)
    } else {
        swift_from(p, sky, i + 1)
    }
}

/// What a pet does of itself when it enters: it uses its first swift skill that it can pay for,
/// if both it and its opponent stand.
pub open spec fn swift(
    side: Side,
    p: Pet,
    opp: Pet,
    ded: DedicationBuff,
    sky: Option<WeatherState>,
    log: Log,
) -> Option<Strike> {
    let idle = Strike { attacker: p, defender: opp, weather: sky, log, tally: None };
    if !opp.alive() || !p.alive() {
        Some(idle)
    } else {
        match swift_from(p, sky, 0) {
            None => Some(idle),
            Some(i) => attack::attack_resolved(
                side,
                p.skills[i].name,
                p,
                opp,
                ded,
                sky,
                log.said(
                    side.letter() + "方 "@ + p.name + " 触发迅捷，自动使用 ["@ + p.skills[i].name
                        + "]。\n"@,
                ),
            ),
        }
    }
}

fn first_swift(pet: &BattlePet, sky: &Option<WeatherState>) -> (r: Option<usize>)
    requires
        pet@.wf(),
    ensures
        (match r {
            Some(i) => swift_from(pet@, *sky, 0) == Some(i as int) && i < pet.skills.len(),
            None => swift_from(pet@, *sky, 0) is None,
        }),
{
    let mut i: usize = 0;
    while i < pet.skills.len()
        invariant
            i <= pet.skills.len(),
            pet@.wf(),
            swift_from(pet@, *sky, 0) == swift_from(pet@, *sky, i as int),
        decreases pet.skills.len() - i,
    {
        assert(pet@.skills[i as int] == pet.skills@[i as int]@);
        if text::contains(pet.skills[i].effect.as_str(), "迅捷") && pet.energy
            >= effects::calc_skill_cost(&pet.skills[i], sky) {
            return Some(i);
        }
        i = i + 1;
    }
    None
}

/// Lets a pet that has entered use a swift skill.
pub fn trigger_swift_on_entry(
    side: Side,
    pet: &mut BattlePet,
    opp: &mut BattlePet,
    dedication: &DedicationBuff,
    weather: &mut Option<WeatherState>,
    log: &mut BattleLog,
) -> (r: Result<Option<(String, String)>, Overflow>)
    requires
        old(pet)@.wf(),
        old(opp)@.wf(),
        dedication.wf(),
        weather::weather_wf(*old(weather)),
    ensures
        (match r {
            Ok(tally) => swift(side, old(pet)@, old(opp)@, *dedication, *old(weather), old(log)@)
                == Some(
                Strike {
                    attacker: final(pet)@,
                    defender: final(opp)@,
                    weather: *final(weather),
                    log: final(log)@,
                    tally: attack::tally_text(tally),
                },
            ) && final(pet)@.follows(old(pet)@) && final(opp)@.follows(old(opp)@)
                && weather::weather_wf(*final(weather)),
            Err(_) => swift(
                side,
                old(pet)@,
                old(opp)@,
                *dedication,
                *old(weather),
                old(log)@,
            ) is None,
        }),
{
    if opp.cur_hp <= 0 || pet.cur_hp <= 0 {
        return Ok(None);
    }
    match first_swift(pet, weather) {
        None => Ok(None),
        Some(i) => {
            let name: String = pet.skills[i].name.clone();
            assert(pet@.skills[i as int].name == name@);
            let mut m: String = side.text().to_owned();
            m.append("方 ");
            m.append(pet.name.as_str());
            m.append(" 触发迅捷，自动使用 [");
            m.append(name.as_str());
            m.append("]。\n");
            log.say(m);
            attack::resolve_one_attack(side, name.as_str(), pet, opp, dedication, weather, log)
        },
    }
}

/// A side, its opponent's pet, the weather and the log, after something has happened.
pub struct Scene {
    pub own: Camp,
    pub opp: Pet,
    pub weather: Option<WeatherState>,
    pub log: Log,
}

/// The side with a use of a skill counted.
pub open spec fn with_tally(
    own: Camp,
    tally: Option<(Seq<char>, Seq<char>)>,
    table: Map<Seq<char>, Patch>,
) -> Camp {
    match tally {
        Some((name, element)) => Camp {
            banks: field::tallied(table, own.team, name, element, own.banks),
            ..own
        },
        None => own,
    }
}

/// The side after the pet in place `idx` has taken the place of the one that fought, before it
/// enters.
pub open spec fn exchanged(own: Camp, idx: int) -> Camp {
    let cleared = own.team.update(own.active, status::cleansed(own.team[own.active]));
    Camp {
        team: cleared.update(idx, Pet { charging_skill: None, ..cleared[idx] }),
        active: idx,
        ..own
    }
}

/// The pet in place `idx` comes in: `msg` is said, it enters the field, and it may use a swift
/// skill, which counts.
#[verifier::opaque]
pub open spec fn brought_in(
    side: Side,
    own: Camp,
    opp: Pet,
    idx: int,
    msg: Seq<char>,
    table: Map<Seq<char>, Patch>,
    sky: Option<WeatherState>,
    log: Log,
) -> Option<Scene> {
    let came = exchanged(own, idx);
    match field::entered(
        side,
        came.fighter(),
        came.negative,
        came.positive,
        table,
        came.bank,
        came.banks,
        log.said(msg),
    ) {
        None => None,
        Some((p, bank, banks, l2)) => {
            let settled = Camp { bank, banks, ..came.with_fighter(p) };
            match swift(side, p, opp, settled.dedication, sky, l2) {
                None => None,
                Some(st) => Some(
                    Scene {
                        own: with_tally(settled.with_fighter(st.attacker), st.tally, table),
                        opp: st.defender,
                        weather: st.weather,
                        log: st.log,
                    },
                ),
            }
        },
    }
}

fn exchange(own: &mut SideState, idx: usize)
    requires
        old(own)@.wf(),
        old(own)@.fielded(),
        idx < old(own).team.len(),
    ensures
        final(own)@ == exchanged(old(own)@, idx as int),
        final(own)@.wf(),
        final(own)@.fielded(),
{
    let at: usize = own.active;
    let ghost t0 = own.team@;
    status::clear_switch_cleared_status(&mut own.team[at]);
    let ghost t1 = own.team@;
    proof {
        camp::lemma_team_update(t0, at as int, t1[at as int]);
    }
    own.active = idx;
    own.team[idx].charging_skill = None;
    proof {
        camp::lemma_team_update(t1, idx as int, own.team@[idx as int]);
    }
}

fn bring_in(
    side: Side,
    own: &mut SideState,
    opp: &mut BattlePet,
    idx: usize,
    msg: String,
    pet_patches: &PetBattlePatchTable,
    weather: &mut Option<WeatherState>,
    log: &mut BattleLog,
) -> (r: Result<(), Overflow>)
    requires
        old(own)@.wf(),
        old(own)@.fielded(),
        idx < old(own).team.len(),
        old(opp)@.wf(),
        weather::weather_wf(*old(weather)),
    ensures
        (match r {
            Ok(_) => brought_in(
                side,
                old(own)@,
                old(opp)@,
                idx as int,
                msg@,
                pet_patches@,
                *old(weather),
                old(log)@,
            ) == Some(
                Scene {
                    own: final(own)@,
                    opp: final(opp)@,
                    weather: *final(weather),
                    log: final(log)@,
                },
            ) && final(own)@.follows(old(own)@) && final(opp)@.follows(old(opp)@)
                && weather::weather_wf(*final(weather)),
            Err(_) => brought_in(
                side,
                old(own)@,
                old(opp)@,
                idx as int,
                msg@,
                pet_patches@,
                *old(weather),
                old(log)@,
            ) is None,
        }),
{
    proof {
        reveal(brought_in);
    }
    exchange(own, idx);
    log.say(msg);
    let ghost came = own@;
    let ghost t0 = own.team@;
    assert(came.fighter() == t0[idx as int]@);
    field::apply_entry_effects(
        side,
        &mut own.team[idx],
        own.negative_imprint,
        own.positive_imprint,
        pet_patches,
        &mut own.ally_counter_bank,
        &mut own.element_banks,
        log,
    )?;
    let ghost t1 = own.team@;
    proof {
        camp::lemma_team_update(t0, idx as int, t1[idx as int]);
    }
    let ghost settled = own@;
    let swift_tally: Option<(String, String)> = trigger_swift_on_entry(
        side,
        &mut own.team[idx],
        opp,
        &own.dedication,
        weather,
        log,
    )?;
    proof {
        camp::lemma_team_update(t1, idx as int, own.team@[idx as int]);
    }
    if let Some((name, element)) = swift_tally {
        field::tally_element_skill_use_for_side(
            &own.team,
            name.as_str(),
            element.as_str(),
            &mut own.element_banks,
            pet_patches,
        );
    }
    Ok(())
}

/// Both sides, the weather and the log, after something has happened.
pub struct Turn {
    pub own: Camp,
    pub opp: Camp,
    pub weather: Option<WeatherState>,
    pub log: Log,
}

/// The fighter of a side uses a skill: the use itself, its count, and its marks on the field. A use
/// that cannot be paid for is told of, and does nothing: as the rules that the sides are told have
/// it, a skill needs enough energy to be released (`BATTLE_RULES`, 技能需要足够能量才能释放).
#[verifier::opaque]
pub open spec fn skill_used(
    side: Side,
    chosen: Seq<char>,
    own: Camp,
    opp: Camp,
    table: Map<Seq<char>, Patch>,
    sky: Option<WeatherState>,
    log: Log,
) -> Option<Turn> {
    match attack::attack_resolved(
        side,
        chosen,
        own.fighter(),
        opp.fighter(),
        own.dedication,
        sky,
        log,
    ) {
        None => None,
        Some(st) => if st.tally is None {
            Some(Turn { own, opp, weather: sky, log: st.log })
        } else {
            let counted = with_tally(own.with_fighter(st.attacker), st.tally, table);
            match field::field_marked(
                counted.fighter(),
                chosen,
                opp.negative,
                counted.positive,
                st.log,
            ) {
                None => None,
                Some((negative, positive, l2)) => Some(
                    Turn {
                        own: Camp { positive, ..counted },
                        opp: Camp { negative, ..opp.with_fighter(st.defender) },
                        weather: st.weather,
                        log: l2,
                    },
                ),
            }
        },
    }
}

/// Whether the effect of a skill takes its pet off the field.
pub open spec fn takes_leave(effect: Seq<char>) -> bool {
    text::has(effect, "折返"@) || text::has(effect, "脱离"@) || text::has(effect, "返场"@)
        || text::has(effect, "紧急脱离"@)
}

/// The place of the pet that comes in where a skill takes its pet off the field: the first that
/// can, or one that is drawn where the skill is an escape.
pub open spec fn next_in(own: Camp, effect: Seq<char>, seed: u64) -> int {
    let r = camp::reserves(own.team, own.active);
    if text::has(effect, "紧急脱离"@) {
        r[random::drawn(seed, r.len() as int)] as int
    } else {
        r[0] as int
    }
}

/// What follows a used skill that takes its pet off the field: another pet comes in, unless the
/// pet has only just entered or no other can.
#[verifier::opaque]
pub open spec fn left(
    side: Side,
    used: Seq<char>,
    own: Camp,
    opp: Pet,
    table: Map<Seq<char>, Patch>,
    sky: Option<WeatherState>,
    seed: u64,
    log: Log,
) -> Option<Scene> {
    let p = own.fighter();
    let skill = p.skills[p.skill_index(used)];
    let stay = Scene { own, opp, weather: sky, log };
    if !p.knows(used) || !takes_leave(skill.effect) {
        Some(stay)
    } else if p.entry_leave_immune {
        Some(
            Scene {
                log: log.said(
                    side.letter() + "方 "@ + p.name + " 处于入场首回合，离场词条未触发。\n"@,
                ),
                ..stay
            },
        )
    } else if camp::reserves(own.team, own.active).len() == 0 {
        Some(stay)
    } else {
        let idx = next_in(own, skill.effect, seed);
        brought_in(
            side,
            own,
            opp,
            idx,
            side.letter() + "方因 ["@ + skill.name + "] 触发离场，上场："@ + own.team[idx].name
                + "。\n"@,
            table,
            sky,
            log,
        )
    }
}

/// A side that has acted is no longer fresh on the field.
pub open spec fn settled_in(own: Camp) -> Camp {
    own.with_fighter(Pet { entry_leave_immune: false, ..own.fighter() })
}

/// The decision to use a skill, carried out. A skill that was not paid for was not released, so it
/// neither takes its pet off the field nor adds to dedication: both are effects of the skill.
#[verifier::opaque]
pub open spec fn skill_executed(
    side: Side,
    chosen: Seq<char>,
    own: Camp,
    opp: Camp,
    table: Map<Seq<char>, Patch>,
    sky: Option<WeatherState>,
    leave_seed: u64,
    gain_seed: u64,
    log: Log,
) -> Option<Turn> {
    match skill_used(side, chosen, own, opp, table, sky, log) {
        None => None,
        Some(t) => if !attack::can_pay(own.fighter(), chosen, own.dedication, sky) {
            Some(Turn { own: settled_in(t.own), ..t })
        } else {
            match left(
                side,
                chosen,
                t.own,
                t.opp.fighter(),
                table,
                t.weather,
                leave_seed,
                t.log,
            ) {
                None => None,
                Some(sc) => {
                    let acted = settled_in(sc.own);
                    match dedication::dedication_gained(
                        side,
                        acted.fighter(),
                        chosen,
                        acted.dedication,
                        gain_seed,
                        sc.log,
                    ) {
                        None => None,
                        Some((d, l2)) => Some(
                            Turn {
                                own: Camp { dedication: d, ..acted },
                                opp: t.opp.with_fighter(sc.opp),
                                weather: sc.weather,
                                log: l2,
                            },
                        ),
                    }
                },
            }
        },
    }
}

/// The decision to bring in another pet, carried out.
#[verifier::opaque]
pub open spec fn switch_executed(
    side: Side,
    target: Seq<char>,
    own: Camp,
    opp: Camp,
    table: Map<Seq<char>, Patch>,
    sky: Option<WeatherState>,
    log: Log,
) -> Option<Turn> {
    match camp::switch_target(own.team, own.active, target) {
        None => Some(
            Turn {
                own,
                opp,
                weather: sky,
                log: log.said(
                    side.letter() + "方尝试换宠到 ["@ + target
                        + "] 失败（不存在或已倒下），本回合行动失败。\n"@,
                ),
            },
        ),
        Some(idx) => match brought_in(
            side,
            own,
            opp.fighter(),
            idx,
            side.letter() + "方选择换宠，上场："@ + own.team[idx].name + "。\n"@,
            table,
            sky,
            log,
        ) {
            None => None,
            Some(sc) => Some(
                Turn {
                    own: sc.own,
                    opp: opp.with_fighter(sc.opp),
                    weather: sc.weather,
                    log: sc.log,
                },
            ),
        },
    }
}

/// The decision to charge, carried out: the fighter gains energy, if it stands.
pub open spec fn charge_executed(side: Side, own: Camp, log: Log) -> Option<(Camp, Log)> {
    let p = own.fighter();
    if !p.alive() {
        Some((own, log))
    } else {
        match field::energized(p.energy, CHARGE_ENERGY_GAIN as int, p.energy_cap) {
            None => None,
            Some(e) => Some(
                (
                    own.with_fighter(Pet { energy: e, entry_leave_immune: false, ..p }),
                    log.said(
                        side.letter() + "方 "@ + p.name + " 使用 [回能]，回复 "@ + number::int_text(
                            CHARGE_ENERGY_GAIN as int,
                        ) + " 点能量（当前"@ + number::int_text(e) + "）。\n"@,
                    ),
                ),
            ),
        }
    }
}

/// A decision, carried out.
pub open spec fn executed(
    side: Side,
    choice: Choice,
    own: Camp,
    opp: Camp,
    table: Map<Seq<char>, Patch>,
    sky: Option<WeatherState>,
    leave_seed: u64,
    gain_seed: u64,
    log: Log,
) -> Option<Turn> {
    match choice {
        Choice::UseSkill(chosen) => skill_executed(
            side,
            chosen,
            own,
            opp,
            table,
            sky,
            leave_seed,
            gain_seed,
            log,
        ),
        Choice::Switch(target) => switch_executed(side, target, own, opp, table, sky, log),
        Choice::Charge => match charge_executed(side, own, log) {
            None => None,
            Some((own2, l2)) => Some(Turn { own: own2, opp, weather: sky, log: l2 }),
        },
    }
}

/// Lets the fighter use a skill, and says whether it was paid for.
fn use_skill(
    side: Side,
    chosen: &str,
    own: &mut SideState,
    opp: &mut SideState,
    pet_patches: &PetBattlePatchTable,
    weather: &mut Option<WeatherState>,
    log: &mut BattleLog,
) -> (r: Result<bool, Overflow>)
    requires
        old(own)@.wf(),
        old(own)@.fielded(),
        old(opp)@.wf(),
        old(opp)@.fielded(),
        weather::weather_wf(*old(weather)),
    ensures
        (match r {
            Ok(paid) => skill_used(
                side,
                chosen@,
                old(own)@,
                old(opp)@,
                pet_patches@,
                *old(weather),
                old(log)@,
            ) == Some(
                Turn {
                    own: final(own)@,
                    opp: final(opp)@,
                    weather: *final(weather),
                    log: final(log)@,
                },
            ) && final(own)@.follows(old(own)@) && final(opp)@.follows(old(opp)@)
                && weather::weather_wf(*final(weather)) && paid == attack::can_pay(
                old(own)@.fighter(),
                chosen@,
                old(own)@.dedication,
                *old(weather),
            ),
            Err(_) => skill_used(
                side,
                chosen@,
                old(own)@,
                old(opp)@,
                pet_patches@,
                *old(weather),
                old(log)@,
            ) is None,
        }),
{
    proof {
        reveal(skill_used);
        attack::lemma_paid(
            side,
            chosen@,
            own@.fighter(),
            opp@.fighter(),
            own@.dedication,
            *weather,
            log@,
        );
    }
    let at: usize = own.active;
    let opp_at: usize = opp.active;
    let ghost t0 = own.team@;
    let ghost u0 = opp.team@;
    assert(own@.fighter() == t0[at as int]@);
    assert(opp@.fighter() == u0[opp_at as int]@);
    let tally: Option<(String, String)> = attack::resolve_one_attack(
        side,
        chosen,
        &mut own.team[at],
        &mut opp.team[opp_at],
        &own.dedication,
        weather,
        log,
    )?;
    proof {
        camp::lemma_team_update(t0, at as int, own.team@[at as int]);
        camp::lemma_team_update(u0, opp_at as int, opp.team@[opp_at as int]);
    }
    let (name, element): (String, String) = match tally {
        Some(t) => t,
        None => {
            assert(own@.team == old(own)@.team);
            assert(opp@.team == old(opp)@.team);
            return Ok(false);
        },
    };
    field::tally_element_skill_use_for_side(
        &own.team,
        name.as_str(),
        element.as_str(),
        &mut own.element_banks,
        pet_patches,
    );
    assert(own@.fighter() == own.team@[at as int]@);
    field::apply_field_imprint_from_skill(
        &own.team[at],
        chosen,
        &mut opp.negative_imprint,
        &mut own.positive_imprint,
        log,
    )?;
    Ok(true)
}

/// Takes the pet off the field whose skill says so.
pub fn process_leave_keywords(
    side: Side,
    used_skill_name: &str,
    own: &mut SideState,
    opp_active_pet: &mut BattlePet,
    weather: &mut Option<WeatherState>,
    pet_patches: &PetBattlePatchTable,
    seed: u64,
    log: &mut BattleLog,
) -> (r: Result<(), Overflow>)
    requires
        old(own)@.wf(),
        old(own)@.fielded(),
        old(opp_active_pet)@.wf(),
        weather::weather_wf(*old(weather)),
    ensures
        (match r {
            Ok(_) => left(
                side,
                used_skill_name@,
                old(own)@,
                old(opp_active_pet)@,
                pet_patches@,
                *old(weather),
                seed,
                old(log)@,
            ) == Some(
                Scene {
                    own: final(own)@,
                    opp: final(opp_active_pet)@,
                    weather: *final(weather),
                    log: final(log)@,
                },
            ) && final(own)@.follows(old(own)@) && final(opp_active_pet)@.follows(
                old(opp_active_pet)@,
            ) && weather::weather_wf(*final(weather)),
            Err(_) => left(
                side,
                used_skill_name@,
                old(own)@,
                old(opp_active_pet)@,
                pet_patches@,
                *old(weather),
                seed,
                old(log)@,
            ) is None,
        }),
{
    proof {
        reveal(left);
    }
    let at: usize = own.active;
    assert(own@.fighter() == own.team@[at as int]@);
    let which: usize = own.team[at].find_skill(used_skill_name);
    if which >= own.team[at].skills.len() {
        return Ok(());
    }
    assert(own@.fighter().skills[which as int] == own.team@[at as int].skills@[which as int]@);
    let skill_name: String = own.team[at].skills[which].name.clone();
    let effect: String = own.team[at].skills[which].effect.clone();
    if !(text::contains(effect.as_str(), "折返") || text::contains(effect.as_str(), "脱离")
        || text::contains(effect.as_str(), "返场") || text::contains(effect.as_str(), "紧急脱离"))
    {
        return Ok(());
    }
    if own.team[at].entry_leave_immune {
        let mut m: String = side.text().to_owned();
        m.append("方 ");
        m.append(own.team[at].name.as_str());
        m.append(" 处于入场首回合，离场词条未触发。\n");
        log.say(m);
        return Ok(());
    }
    let candidates: Vec<usize> = camp::reserve_indices(&own.team, at);
    if candidates.len() == 0 {
        return Ok(());
    }
    let idx: usize = if text::contains(effect.as_str(), "紧急脱离") {
        let mut s: u64 = seed;
        let drawn: usize = random::rand_index(&mut s, candidates.len());
        candidates[drawn]
    } else {
        candidates[0]
    };
    let mut m: String = side.text().to_owned();
    m.append("方因 [");
    m.append(skill_name.as_str());
    m.append("] 触发离场，上场：");
    m.append(own.team[idx].name.as_str());
    m.append("。\n");
    assert(own@.team[idx as int].name == own.team@[idx as int].name@);
    bring_in(side, own, opp_active_pet, idx, m, pet_patches, weather, log)
}

fn execute_skill(
    side: Side,
    chosen: &str,
    own: &mut SideState,
    opp: &mut SideState,
    pet_patches: &PetBattlePatchTable,
    weather: &mut Option<WeatherState>,
    leave_seed: u64,
    gain_seed: u64,
    log: &mut BattleLog,
) -> (r: Result<(), Overflow>)
    requires
        old(own)@.wf(),
        old(own)@.fielded(),
        old(opp)@.wf(),
        old(opp)@.fielded(),
        weather::weather_wf(*old(weather)),
    ensures
        (match r {
            Ok(_) => skill_executed(
                side,
                chosen@,
                old(own)@,
                old(opp)@,
                pet_patches@,
                *old(weather),
                leave_seed,
                gain_seed,
                old(log)@,
            ) == Some(
                Turn {
                    own: final(own)@,
                    opp: final(opp)@,
                    weather: *final(weather),
                    log: final(log)@,
                },
            ) && final(own)@.follows(old(own)@) && final(opp)@.follows(old(opp)@)
                && weather::weather_wf(*final(weather)),
            Err(_) => skill_executed(
                side,
                chosen@,
                old(own)@,
                old(opp)@,
                pet_patches@,
                *old(weather),
                leave_seed,
                gain_seed,
                old(log)@,
            ) is None,
        }),
{
    proof {
        reveal(skill_executed);
    }
    let paid: bool = use_skill(side, chosen, own, opp, pet_patches, weather, log)?;
    if paid {
        let opp_at: usize = opp.active;
        let ghost u0 = opp.team@;
        assert(opp@.fighter() == u0[opp_at as int]@);
        process_leave_keywords(
            side,
            chosen,
            own,
            &mut opp.team[opp_at],
            weather,
            pet_patches,
            leave_seed,
            log,
        )?;
        proof {
            camp::lemma_team_update(u0, opp_at as int, opp.team@[opp_at as int]);
        }
    }
    let at: usize = own.active;
    let ghost t0 = own.team@;
    assert(own@.fighter() == t0[at as int]@);
    own.team[at].entry_leave_immune = false;
    proof {
        camp::lemma_team_update(t0, at as int, own.team@[at as int]);
    }
    if !paid {
        return Ok(());
    }
    assert(own@.fighter() == own.team@[at as int]@);
    dedication::apply_dedication_gain_from_effect(
        side,
        &own.team[at],
        chosen,
        &mut own.dedication,
        gain_seed,
        log,
    )
}

fn execute_switch(
    side: Side,
    target_name: &str,
    own: &mut SideState,
    opp: &mut SideState,
    pet_patches: &PetBattlePatchTable,
    weather: &mut Option<WeatherState>,
    log: &mut BattleLog,
) -> (r: Result<(), Overflow>)
    requires
        old(own)@.wf(),
        old(own)@.fielded(),
        old(opp)@.wf(),
        old(opp)@.fielded(),
        weather::weather_wf(*old(weather)),
    ensures
        (match r {
            Ok(_) => switch_executed(
                side,
                target_name@,
                old(own)@,
                old(opp)@,
                pet_patches@,
                *old(weather),
                old(log)@,
            ) == Some(
                Turn {
                    own: final(own)@,
                    opp: final(opp)@,
                    weather: *final(weather),
                    log: final(log)@,
                },
            ) && final(own)@.follows(old(own)@) && final(opp)@.follows(old(opp)@)
                && weather::weather_wf(*final(weather)),
            Err(_) => switch_executed(
                side,
                target_name@,
                old(own)@,
                old(opp)@,
                pet_patches@,
                *old(weather),
                old(log)@,
            ) is None,
        }),
{
    proof {
        reveal(switch_executed);
    }
    match camp::find_switch_target(&own.team, own.active, target_name) {
        Some(idx) => {
            let mut m: String = side.text().to_owned();
            m.append("方选择换宠，上场：");
            m.append(own.team[idx].name.as_str());
            m.append("。\n");
            assert(own@.team[idx as int].name == own.team@[idx as int].name@);
            let opp_at: usize = opp.active;
            let ghost u0 = opp.team@;
            assert(opp@.fighter() == u0[opp_at as int]@);
            bring_in(side, own, &mut opp.team[opp_at], idx, m, pet_patches, weather, log)?;
            proof {
                camp::lemma_team_update(u0, opp_at as int, opp.team@[opp_at as int]);
            }
            Ok(())
        },
        None => {
            let mut m: String = side.text().to_owned();
            m.append("方尝试换宠到 [");
            m.append(target_name);
            m.append("] 失败（不存在或已倒下），本回合行动失败。\n");
            log.say(m);
            Ok(())
        },
    }
}

fn execute_charge(side: Side, own: &mut SideState, log: &mut BattleLog) -> (r: Result<
    (),
    Overflow,
>)
    requires
        old(own)@.wf(),
        old(own)@.fielded(),
    ensures
        (match r {
            Ok(_) => charge_executed(side, old(own)@, old(log)@) == Some((final(own)@, final(log)@))
                && final(own)@.follows(old(own)@),
            Err(_) => charge_executed(side, old(own)@, old(log)@) is None,
        }),
{
    let at: usize = own.active;
    let ghost t0 = own.team@;
    assert(own@.fighter() == t0[at as int]@);
    if own.team[at].cur_hp > 0 {
        let energy: i32 = field::add_energy_clamped(
            own.team[at].energy,
            CHARGE_ENERGY_GAIN,
            own.team[at].energy_cap,
        )?;
        own.team[at].energy = energy;
        own.team[at].entry_leave_immune = false;
        proof {
            assert(own.team@ =~= t0.update(at as int, own.team@[at as int]));
            camp::lemma_team_update(t0, at as int, own.team@[at as int]);
        }
        let mut m: String = side.text().to_owned();
        m.append("方 ");
        m.append(own.team[at].name.as_str());
        m.append(" 使用 [回能]，回复 ");
        push_int(&mut m, CHARGE_ENERGY_GAIN);
        m.append(" 点能量（当前");
        push_int(&mut m, energy);
        m.append("）。\n");
        log.say(m);
    } else {
        assert(own@.with_fighter(own@.fighter()).team =~= own@.team);
    }
    Ok(())
}

/// Carries out what a side has decided. The seeds are what a pet that comes in, and a kind of
/// dedication, are drawn from.
pub fn execute_decision(
    side: Side,
    decision: &Decision,
    own: &mut SideState,
    opp: &mut SideState,
    pet_patches: &PetBattlePatchTable,
    weather: &mut Option<WeatherState>,
    leave_seed: u64,
    gain_seed: u64,
    log: &mut BattleLog,
) -> (r: Result<(), Overflow>)
    requires
        old(own)@.wf(),
        old(own)@.fielded(),
        old(opp)@.wf(),
        old(opp)@.fielded(),
        weather::weather_wf(*old(weather)),
    ensures
        (match r {
            Ok(_) => executed(
                side,
                decision@,
                old(own)@,
                old(opp)@,
                pet_patches@,
                *old(weather),
                leave_seed,
                gain_seed,
                old(log)@,
            ) == Some(
                Turn {
                    own: final(own)@,
                    opp: final(opp)@,
                    weather: *final(weather),
                    log: final(log)@,
                },
            ) && final(own)@.follows(old(own)@) && final(opp)@.follows(old(opp)@)
                && weather::weather_wf(*final(weather)),
            Err(_) => executed(
                side,
                decision@,
                old(own)@,
                old(opp)@,
                pet_patches@,
                *old(weather),
                leave_seed,
                gain_seed,
                old(log)@,
            ) is None,
        }),
{
    match decision {
        Decision::UseSkill(skill) => execute_skill(
            side,
            skill.as_str(),
            own,
            opp,
            pet_patches,
            weather,
            leave_seed,
            gain_seed,
            log,
        ),
        Decision::Switch(target_name) => execute_switch(
            side,
            target_name.as_str(),
            own,
            opp,
            pet_patches,
            weather,
            log,
        ),
        Decision::Charge => execute_charge(side, own, log),
    }
}

} // verus!
