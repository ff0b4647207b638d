//! Marks on the field, and what happens to a pet that enters it.

use vstd::prelude::*;
use crate::effects;
use crate::log::{BattleLog, Log};
use crate::number;
use crate::number::{Overflow, push_int};
use crate::pet;
use crate::pet::{
    BattlePet, NegativeImprint, NegativeImprintKind, Pet, PositiveImprint, PositiveImprintKind,
    Side,
};
use crate::pet_battle_patch;
use crate::pet_battle_patch::{ElementSkillBanks, Patch, PetBattlePatchEntry, PetBattlePatchTable};
use crate::stats;
use crate::status;
use crate::text;

verus! {

/// A mark has at least one layer.
pub open spec fn negative_wf(slot: Option<NegativeImprint>) -> bool {
    slot matches Some(i) ==> i.layers >= 1
}

/// A mark has at least one layer.
pub open spec fn positive_wf(slot: Option<PositiveImprint>) -> bool {
    slot matches Some(i) ==> i.layers >= 1
}

/// The mark on a side after `n` layers of `kind` have been put there: layers of one kind add up,
/// another kind takes the place of what was there.
pub open spec fn negative_set(
    slot: Option<NegativeImprint>,
    kind: NegativeImprintKind,
    n: int,
) -> Option<Option<NegativeImprint>> {
    if n <= 0 {
        Some(slot)
    } else if slot matches Some(i) && i.kind == kind {
        if number::fits(slot->0.layers + n) {
            Some(Some(NegativeImprint { kind, layers: (slot->0.layers + n) as i32 }))
        } else {
            None
        }
    } else {
        Some(Some(NegativeImprint { kind, layers: n as i32 }))
    }
}

/// The mark on a side after `n` layers of `kind` have been put there.
pub open spec fn positive_set(
    slot: Option<PositiveImprint>,
    kind: PositiveImprintKind,
    n: int,
) -> Option<Option<PositiveImprint>> {
    if n <= 0 {
        Some(slot)
    } else if slot matches Some(i) && i.kind == kind {
        if number::fits(slot->0.layers + n) {
            Some(Some(PositiveImprint { kind, layers: (slot->0.layers + n) as i32 }))
        } else {
            None
        }
    } else {
        Some(Some(PositiveImprint { kind, layers: n as i32 }))
    }
}

/// Puts layers of a mark on a side.
pub fn set_negative_imprint(
    slot: &mut Option<NegativeImprint>,
    kind: NegativeImprintKind,
    layers: i32,
) -> (r: Result<(), Overflow>)
    ensures
        (match r {
            Ok(_) => negative_set(*old(slot), kind, layers as int) == Some(*final(slot)) && (
            negative_wf(*old(slot)) ==> negative_wf(*final(slot))),
            Err(_) => negative_set(*old(slot), kind, layers as int) is None && *final(slot) == *old(slot),
        }),
{
    if layers <= 0 {
        return Ok(());
    }
    if let Some(i) = *slot {
        if i.kind == kind {
            *slot = Some(NegativeImprint { kind, layers: number::sum(i.layers, layers)? });
            return Ok(());
        }
    }
    *slot = Some(NegativeImprint { kind, layers });
    Ok(())
}

/// Puts layers of a mark on a side.
pub fn set_positive_imprint(
    slot: &mut Option<PositiveImprint>,
    kind: PositiveImprintKind,
    layers: i32,
) -> (r: Result<(), Overflow>)
    ensures
        (match r {
            Ok(_) => positive_set(*old(slot), kind, layers as int) == Some(*final(slot)) && (
            positive_wf(*old(slot)) ==> positive_wf(*final(slot))),
            Err(_) => positive_set(*old(slot), kind, layers as int) is None && *final(slot) == *old(slot),
        }),
{
    if layers <= 0 {
        return Ok(());
    }
    if let Some(i) = *slot {
        if i.kind == kind {
            *slot = Some(PositiveImprint { kind, layers: number::sum(i.layers, layers)? });
            return Ok(());
        }
    }
    *slot = Some(PositiveImprint { kind, layers });
    Ok(())
}

/// One kind of harmful mark, where the effect names it.
pub open spec fn negative_marked(
    slot: Option<NegativeImprint>,
    kind: NegativeImprintKind,
    effect: Seq<char>,
    word: Seq<char>,
    counted: Seq<char>,
    tail: Seq<char>,
    log: Log,
) -> Option<(Option<NegativeImprint>, Log)> {
    if text::has(effect, word) {
        let n = effects::layers(effect, counted);
        match negative_set(slot, kind, n) {
            Some(s) => Some(
                (s, log.said("场地印记：对方获得 "@ + number::int_text(n) + tail)),
            ),
            None => None,
        }
    } else {
        Some((slot, log))
    }
}

/// One kind of helpful mark, where the effect names it.
pub open spec fn positive_marked(
    slot: Option<PositiveImprint>,
    kind: PositiveImprintKind,
    effect: Seq<char>,
    word: Seq<char>,
    counted: Seq<char>,
    tail: Seq<char>,
    log: Log,
) -> Option<(Option<PositiveImprint>, Log)> {
    if text::has(effect, word) {
        let n = effects::layers(effect, counted);
        match positive_set(slot, kind, n) {
            Some(s) => Some(
                (s, log.said("场地印记：本方获得 "@ + number::int_text(n) + tail)),
            ),
            None => None,
        }
    } else {
        Some((slot, log))
    }
}

/// The marks that the text of a skill's effect names: thorns and descent on the opponent's side,
/// charge and photosynthesis on the own side.
pub open spec fn marked_by(
    effect: Seq<char>,
    opp_negative: Option<NegativeImprint>,
    own_positive: Option<PositiveImprint>,
    log: Log,
) -> Option<(Option<NegativeImprint>, Option<PositiveImprint>, Log)> {
    match negative_marked(
        opp_negative,
        NegativeImprintKind::Thorn,
        effect,
        "棘刺"@,
        "层棘刺"@,
        " 层棘刺（入场受伤）。\n"@,
        log,
    ) {
        None => None,
        Some((n1, l1)) => match negative_marked(
            n1,
            NegativeImprintKind::Descend,
            effect,
            "降灵"@,
            "层降灵"@,
            " 层降灵（入场扣能）。\n"@,
            l1,
        ) {
            None => None,
            Some((n2, l2)) => match positive_marked(
                own_positive,
                PositiveImprintKind::Charge,
                effect,
                "蓄电"@,
                "层蓄电"@,
                " 层蓄电（入场首回合威力+10/层）。\n"@,
                l2,
            ) {
                None => None,
                Some((p1, l3)) => match positive_marked(
                    p1,
                    PositiveImprintKind::Photosynthesis,
                    effect,
                    "光合"@,
                    "层光合"@,
                    " 层光合（回合结束每层回复1点能量）。\n"@,
                    l3,
                ) {
                    None => None,
                    Some((p2, l4)) => Some((n2, p2, l4)),
                },
            },
        },
    }
}

/// The marks that a used skill puts on the field; a skill that the pet does not know puts none.
#[verifier::opaque]
pub open spec fn field_marked(
    attacker: Pet,
    used: Seq<char>,
    opp_negative: Option<NegativeImprint>,
    own_positive: Option<PositiveImprint>,
    log: Log,
) -> Option<(Option<NegativeImprint>, Option<PositiveImprint>, Log)> {
    if attacker.knows(used) {
        marked_by(
            attacker.skills[attacker.skill_index(used)].effect,
            opp_negative,
            own_positive,
            log,
        )
    } else {
        Some((opp_negative, own_positive, log))
    }
}

fn mark_negative(
    slot: &mut Option<NegativeImprint>,
    kind: NegativeImprintKind,
    effect: &str,
    word: &str,
    counted: &str,
    tail: &str,
    log: &mut BattleLog,
) -> (r: Result<(), Overflow>)
    ensures
        (match r {
            Ok(_) => negative_marked(
                *old(slot),
                kind,
                effect@,
                word@,
                counted@,
                tail@,
                old(log)@,
            ) == Some((*final(slot), final(log)@)) && (negative_wf(*old(slot)) ==> negative_wf(
                *final(slot),
            )),
            Err(_) => negative_marked(
                *old(slot),
                kind,
                effect@,
                word@,
                counted@,
                tail@,
                old(log)@,
            ) is None,
        }),
{
    if text::contains(effect, word) {
        let n: i32 = effects::layers_or_one(effect, counted);
        set_negative_imprint(slot, kind, n)?;
        let mut m: String = "场地印记：对方获得 ".to_owned();
        push_int(&mut m, n);
        m.append(tail);
        log.say(m);
    }
    Ok(())
}

fn mark_positive(
    slot: &mut Option<PositiveImprint>,
    kind: PositiveImprintKind,
    effect: &str,
    word: &str,
    counted: &str,
    tail: &str,
    log: &mut BattleLog,
) -> (r: Result<(), Overflow>)
    ensures
        (match r {
            Ok(_) => positive_marked(
                *old(slot),
                kind,
                effect@,
                word@,
                counted@,
                tail@,
                old(log)@,
            ) == Some((*final(slot), final(log)@)) && (positive_wf(*old(slot)) ==> positive_wf(
                *final(slot),
            )),
            Err(_) => positive_marked(
                *old(slot),
                kind,
                effect@,
                word@,
                counted@,
                tail@,
                old(log)@,
            ) is None,
        }),
{
    if text::contains(effect, word) {
        let n: i32 = effects::layers_or_one(effect, counted);
        set_positive_imprint(slot, kind, n)?;
        let mut m: String = "场地印记：本方获得 ".to_owned();
        push_int(&mut m, n);
        m.append(tail);
        log.say(m);
    }
    Ok(())
}

/// Lets a used skill put its marks on the field.
pub fn apply_field_imprint_from_skill(
    attacker: &BattlePet,
    used_skill_name: &str,
    opp_negative_imprint: &mut Option<NegativeImprint>,
    own_positive_imprint: &mut Option<PositiveImprint>,
    log: &mut BattleLog,
) -> (r: Result<(), Overflow>)
    requires
        negative_wf(*old(opp_negative_imprint)),
        positive_wf(*old(own_positive_imprint)),
    ensures
        (match r {
            Ok(_) => field_marked(
                attacker@,
                used_skill_name@,
                *old(opp_negative_imprint),
                *old(own_positive_imprint),
                old(log)@,
            ) == Some((*final(opp_negative_imprint), *final(own_positive_imprint), final(log)@))
                && negative_wf(*final(opp_negative_imprint)) && positive_wf(
                *final(own_positive_imprint),
            ),
            Err(_) => field_marked(
                attacker@,
                used_skill_name@,
                *old(opp_negative_imprint),
                *old(own_positive_imprint),
                old(log)@,
            ) is None,
        }),
{
    proof {
        reveal(field_marked);
    }
    let at: usize = attacker.find_skill(used_skill_name);
    if at >= attacker.skills.len() {
        return Ok(());
    }
    let effect: &str = attacker.skills[at].effect.as_str();
    mark_negative(
        opp_negative_imprint,
        NegativeImprintKind::Thorn,
        effect,
        "棘刺",
        "层棘刺",
        " 层棘刺（入场受伤）。\n",
        log,
    )?;
    mark_negative(
        opp_negative_imprint,
        NegativeImprintKind::Descend,
        effect,
        "降灵",
        "层降灵",
        " 层降灵（入场扣能）。\n",
        log,
    )?;
    mark_positive(
        own_positive_imprint,
        PositiveImprintKind::Charge,
        effect,
        "蓄电",
        "层蓄电",
        " 层蓄电（入场首回合威力+10/层）。\n",
        log,
    )?;
    mark_positive(
        own_positive_imprint,
        PositiveImprintKind::Photosynthesis,
        effect,
        "光合",
        "层光合",
        " 层光合（回合结束每层回复1点能量）。\n",
        log,
    )
}

/// Energy that rose by `delta`, kept between zero and the limit.
pub open spec fn energized(current: int, delta: int, cap: int) -> Option<int> {
    if number::fits(current + delta) {
        Some(number::clamped(current + delta, 0, cap))
    } else {
        None
    }
}

/// Energy that rose by `delta`, kept between zero and the limit.
pub fn add_energy_clamped(current: i32, delta: i32, cap: i32) -> (r: Result<i32, Overflow>)
    requires
        cap >= 0,
    ensures
        (match r {
            Ok(v) => energized(current as int, delta as int, cap as int) == Some(v as int) && 0 <= v
                <= cap,
            Err(_) => energized(current as int, delta as int, cap as int) is None,
        }),
{
    let raised: i32 = number::sum(current, delta)?;
    Ok(number::clamp(raised, 0, cap))
}

/// `a * b`, or the end of the range of a 32-bit signed integer that it lies beyond.
pub open spec fn saturated_product(a: int, b: int) -> int {
    number::clamped(a * b, i32::MIN as int, i32::MAX as int)
}

fn saturating_product(a: i32, b: i32) -> (r: i32)
    ensures
        r == saturated_product(a as int, b as int),
{
    assert(-0x4000_0000_0000_0000 <= a * b <= 0x4000_0000_0000_0000) by (nonlinear_arith)
        requires
            -0x8000_0000 <= a <= 0x7fff_ffff,
            -0x8000_0000 <= b <= 0x7fff_ffff,
    ;
    let p: i64 = a as i64 * b as i64;
    if p > 0x7fff_ffff {
        i32::MAX
    } else if p < -0x8000_0000 {
        i32::MIN
    } else {
        p as i32
    }
}

/// "X方 name 入场：己方what累计 n 次，按特性回复 g 能量（当前e）。" and a line feed.
pub open spec fn settle_text(side: Side, p: Pet, what: Seq<char>, n: int, gain: int) -> Seq<char> {
    side.letter() + "方 "@ + p.name + " 入场：己方"@ + what + "累计 "@ + number::int_text(n)
        + " 次，按特性回复 "@ + number::int_text(gain) + " 能量（当前"@ + number::int_text(p.energy)
        + "）。\n"@
}

fn settle_message(side: Side, pet: &BattlePet, what: &str, n: i32, gain: i32) -> (r: String)
    ensures
        r@ == settle_text(side, pet@, what@, n as int, gain as int),
{
    let mut m: String = side.text().to_owned();
    m.append("方 ");
    m.append(pet.name.as_str());
    m.append(" 入场：己方");
    m.append(what);
    m.append("累计 ");
    push_int(&mut m, n);
    m.append(" 次，按特性回复 ");
    push_int(&mut m, gain);
    m.append(" 能量（当前");
    push_int(&mut m, pet.energy);
    m.append("）。\n");
    m
}

/// The count of successful counters, settled by a pet that enters: `per` energy for each, and the
/// count is zero.
pub open spec fn counters_settled(side: Side, p: Pet, per: int, bank: int, log: Log) -> Option<
    (Pet, int, Log),
> {
    if bank <= 0 {
        Some((p, bank, log))
    } else if per == 0 {
        Some((p, 0, log))
    } else {
        let gain = saturated_product(per, bank);
        match energized(p.energy, gain, p.energy_cap) {
            Some(e) => {
                let q = Pet { energy: e, ..p };
                Some((q, 0, log.said(settle_text(side, q, "应对成功"@, bank, gain))))
            },
            None => None,
        }
    }
}

/// The count of uses of an element, settled by a pet that enters: the rule's energy for each, and
/// the count is zero.
pub open spec fn uses_settled(
    side: Side,
    p: Pet,
    patch: Patch,
    banks: ElementSkillBanks,
    log: Log,
) -> Option<(Pet, ElementSkillBanks, Log)> {
    match patch.per_element {
        None => Some((p, banks, log)),
        Some(rule) => {
            let count = banks.of(rule.element);
            if count <= 0 {
                Some((p, banks, log))
            } else if rule.energy_per_use == 0 {
                Some((p, banks.with(rule.element, 0), log))
            } else {
                let gain = saturated_product(rule.energy_per_use, count);
                match energized(p.energy, gain, p.energy_cap) {
                    Some(e) => {
                        let q = Pet { energy: e, ..p };
                        Some(
                            (
                                q,
                                banks.with(rule.element, 0),
                                log.said(
                                    settle_text(side, q, rule.element + "系技能"@, count, gain),
                                ),
                            ),
                        )
                    },
                    None => None,
                }
            }
        },
    }
}

fn settle_counters(
    side: Side,
    pet: &mut BattlePet,
    per: i32,
    bank: &mut i32,
    log: &mut BattleLog,
) -> (r: Result<(), Overflow>)
    requires
        old(pet)@.wf(),
        *old(bank) >= 0,
    ensures
        (match r {
            Ok(_) => counters_settled(side, old(pet)@, per as int, *old(bank) as int, old(log)@)
                == Some((final(pet)@, *final(bank) as int, final(log)@)) && final(pet)@.follows(old(pet)@)
                && *final(bank) >= 0,
            Err(_) => counters_settled(
                side,
                old(pet)@,
                per as int,
                *old(bank) as int,
                old(log)@,
            ) is None,
        }),
{
    if *bank > 0 {
        if per != 0 {
            let gain: i32 = saturating_product(per, *bank);
            pet.energy = add_energy_clamped(pet.energy, gain, pet.energy_cap)?;
            log.say(settle_message(side, pet, "应对成功", *bank, gain));
        }
        *bank = 0;
    }
    Ok(())
}

/// Settles the count of uses of an element for a pet that enters.
pub fn apply_element_skill_bank_on_entry(
    side: Side,
    pet: &mut BattlePet,
    entry: &PetBattlePatchEntry,
    elem_banks: &mut ElementSkillBanks,
    log: &mut BattleLog,
) -> (r: Result<(), Overflow>)
    requires
        old(pet)@.wf(),
        old(elem_banks).wf(),
    ensures
        (match r {
            Ok(_) => uses_settled(side, old(pet)@, entry@, *old(elem_banks), old(log)@) == Some(
                (final(pet)@, *final(elem_banks), final(log)@),
            ) && final(pet)@.follows(old(pet)@) && final(elem_banks).wf(),
            Err(_) => uses_settled(side, old(pet)@, entry@, *old(elem_banks), old(log)@) is None,
        }),
{
    if let Some(rule) = &entry.on_entry_per_element_skill_bank {
        let count: i32 = elem_banks.count(rule.element.as_str());
        if count > 0 {
            if rule.energy_per_use != 0 {
                let gain: i32 = saturating_product(rule.energy_per_use, count);
                pet.energy = add_energy_clamped(pet.energy, gain, pet.energy_cap)?;
                let mut what: String = rule.element.clone();
                what.append("系技能");
                log.say(settle_message(side, pet, what.as_str(), count, gain));
            }
            elem_banks.set_count(rule.element.as_str(), 0);
        }
    }
    Ok(())
}

/// What a pet's patch does when it enters.
pub open spec fn patch_settled(
    side: Side,
    p: Pet,
    table: Map<Seq<char>, Patch>,
    bank: int,
    banks: ElementSkillBanks,
    log: Log,
) -> Option<(Pet, int, ElementSkillBanks, Log)> {
    match pet_battle_patch::patch_of(table, p.name) {
        None => Some((p, bank, banks, log)),
        Some(patch) => {
            let first = match patch.per_ally_counter {
                Some(per) => counters_settled(side, p, per as int, bank, log),
                None => Some((p, bank, log)),
            };
            match first {
                None => None,
                Some((p1, bank1, l1)) => match uses_settled(side, p1, patch, banks, l1) {
                    None => None,
                    Some((p2, banks2, l2)) => Some((p2, bank1, banks2, l2)),
                },
            }
        },
    }
}

/// What the harmful mark of a side does to a pet that enters there.
pub open spec fn negative_met(
    side: Side,
    p: Pet,
    negative: Option<NegativeImprint>,
    log: Log,
) -> Option<(Pet, Log)> {
    match negative {
        Some(neg) if neg.layers > 0 => match neg.kind {
            NegativeImprintKind::Thorn => {
                let dmg = stats::hp_part(p.hp, 6) * neg.layers;
                if number::fits(dmg) {
                    let q = status::hurt(p, dmg);
                    Some(
                        (
                            q,
                            log.said(
                                side.letter() + "方 "@ + q.name + " 入场触发棘刺("@
                                    + number::int_text(neg.layers as int) + "层)，受伤 "@
                                    + number::int_text(number::greater(dmg, 1)) + "，HP "@
                                    + number::int_text(q.cur_hp) + "/"@ + number::int_text(q.hp)
                                    + "\n"@,
                            ),
                        ),
                    )
                } else {
                    None
                }
            },
            NegativeImprintKind::Descend => {
                let q = Pet { energy: number::greater(p.energy - neg.layers, 0), ..p };
                Some(
                    (
                        q,
                        log.said(
                            side.letter() + "方 "@ + q.name + " 入场触发降灵("@ + number::int_text(
                                neg.layers as int,
                            ) + "层)，能量降至 "@ + number::int_text(q.energy) + "\n"@,
                        ),
                    ),
                )
            },
        },
        _ => Some((p, log)),
    }
}

/// What the helpful mark of a side does for a pet that enters there.
pub open spec fn positive_met(
    side: Side,
    p: Pet,
    positive: Option<PositiveImprint>,
    log: Log,
) -> Option<(Pet, Log)> {
    match positive {
        Some(pos) if pos.kind == PositiveImprintKind::Charge && pos.layers > 0 => {
            if number::fits(10 * pos.layers) {
                let q = Pet { entry_bonus_power: 10 * pos.layers, ..p };
                Some(
                    (
                        q,
                        log.said(
                            side.letter() + "方 "@ + q.name + " 入场触发蓄电("@ + number::int_text(
                                pos.layers as int,
                            ) + "层)，本回合技能威力+"@ + number::int_text(q.entry_bonus_power)
                                + "\n"@,
                        ),
                    ),
                )
            } else {
                None
            }
        },
        _ => Some((p, log)),
    }
}

/// What happens to a pet that enters the field: the health that freezing locks is set anew, its
/// patch settles what it counts, it is safe from leaving for this round, and the marks of its
/// side meet it.
#[verifier::opaque]
pub open spec fn entered(
    side: Side,
    p: Pet,
    negative: Option<NegativeImprint>,
    positive: Option<PositiveImprint>,
    table: Map<Seq<char>, Patch>,
    bank: int,
    banks: ElementSkillBanks,
    log: Log,
) -> Option<(Pet, int, ElementSkillBanks, Log)> {
    match status::locked(p) {
        None => None,
        Some(p1) => match patch_settled(side, p1, table, bank, banks, log) {
            None => None,
            Some((p2, bank2, banks2, l2)) => {
                let p3 = Pet { entry_leave_immune: true, ..p2 };
                match negative_met(side, p3, negative, l2) {
                    None => None,
                    Some((p4, l4)) => match positive_met(side, p4, positive, l4) {
                        None => None,
                        Some((p5, l5)) => Some((p5, bank2, banks2, l5)),
                    },
                }
            },
        },
    }
}

fn settle_patch(
    side: Side,
    pet: &mut BattlePet,
    pet_patches: &PetBattlePatchTable,
    ally_counter_bank: &mut i32,
    element_banks: &mut ElementSkillBanks,
    log: &mut BattleLog,
) -> (r: Result<(), Overflow>)
    requires
        old(pet)@.wf(),
        *old(ally_counter_bank) >= 0,
        old(element_banks).wf(),
    ensures
        (match r {
            Ok(_) => patch_settled(
                side,
                old(pet)@,
                pet_patches@,
                *old(ally_counter_bank) as int,
                *old(element_banks),
                old(log)@,
            ) == Some(
                (final(pet)@, *final(ally_counter_bank) as int, *final(element_banks), final(log)@),
            ) && final(pet)@.follows(old(pet)@) && *final(ally_counter_bank) >= 0 && final(element_banks).wf(),
            Err(_) => patch_settled(
                side,
                old(pet)@,
                pet_patches@,
                *old(ally_counter_bank) as int,
                *old(element_banks),
                old(log)@,
            ) is None,
        }),
{
    if let Some(entry) = pet_patches.get(pet.name.as_str()) {
        if let Some(per) = entry.on_entry_energy_per_prior_ally_counter {
            settle_counters(side, pet, per, ally_counter_bank, log)?;
        }
        apply_element_skill_bank_on_entry(side, pet, entry, element_banks, log)?;
    }
    Ok(())
}

fn meet_negative(
    side: Side,
    pet: &mut BattlePet,
    negative_imprint: Option<NegativeImprint>,
    log: &mut BattleLog,
) -> (r: Result<(), Overflow>)
    requires
        old(pet)@.wf(),
    ensures
        (match r {
            Ok(_) => negative_met(side, old(pet)@, negative_imprint, old(log)@) == Some(
                (final(pet)@, final(log)@),
            ) && final(pet)@.follows(old(pet)@),
            Err(_) => negative_met(side, old(pet)@, negative_imprint, old(log)@) is None,
        }),
{
    if let Some(neg) = negative_imprint {
        if neg.layers > 0 {
            let mut m: String = side.text().to_owned();
            m.append("方 ");
            m.append(pet.name.as_str());
            match neg.kind {
                NegativeImprintKind::Thorn => {
                    let dmg: i32 = number::product(stats::part_of_hp(pet.hp, 6), neg.layers)?;
                    status::lose(pet, dmg);
                    m.append(" 入场触发棘刺(");
                    push_int(&mut m, neg.layers);
                    m.append("层)，受伤 ");
                    push_int(&mut m, number::larger(dmg, 1));
                    m.append("，HP ");
                    push_int(&mut m, pet.cur_hp);
                    m.append("/");
                    push_int(&mut m, pet.hp);
                    m.append("\n");
                },
                NegativeImprintKind::Descend => {
                    pet.energy = number::larger(pet.energy - neg.layers, 0);
                    m.append(" 入场触发降灵(");
                    push_int(&mut m, neg.layers);
                    m.append("层)，能量降至 ");
                    push_int(&mut m, pet.energy);
                    m.append("\n");
                },
            }
            log.say(m);
        }
    }
    Ok(())
}

fn meet_positive(
    side: Side,
    pet: &mut BattlePet,
    positive_imprint: Option<PositiveImprint>,
    log: &mut BattleLog,
) -> (r: Result<(), Overflow>)
    requires
        old(pet)@.wf(),
    ensures
        (match r {
            Ok(_) => positive_met(side, old(pet)@, positive_imprint, old(log)@) == Some(
                (final(pet)@, final(log)@),
            ) && final(pet)@.follows(old(pet)@),
            Err(_) => positive_met(side, old(pet)@, positive_imprint, old(log)@) is None,
        }),
{
    if let Some(pos) = positive_imprint {
        if pos.kind == PositiveImprintKind::Charge && pos.layers > 0 {
            pet.entry_bonus_power = number::product(10, pos.layers)?;
            let mut m: String = side.text().to_owned();
            m.append("方 ");
            m.append(pet.name.as_str());
            m.append(" 入场触发蓄电(");
            push_int(&mut m, pos.layers);
            m.append("层)，本回合技能威力+");
            push_int(&mut m, pet.entry_bonus_power);
            m.append("\n");
            log.say(m);
        }
    }
    Ok(())
}

/// Lets a pet enter the field.
pub fn apply_entry_effects(
    side: Side,
    pet: &mut BattlePet,
    negative_imprint: Option<NegativeImprint>,
    positive_imprint: Option<PositiveImprint>,
    pet_patches: &PetBattlePatchTable,
    ally_counter_bank: &mut i32,
    element_banks: &mut ElementSkillBanks,
    log: &mut BattleLog,
) -> (r: Result<(), Overflow>)
    requires
        old(pet)@.wf(),
        *old(ally_counter_bank) >= 0,
        old(element_banks).wf(),
    ensures
        (match r {
            Ok(_) => entered(
                side,
                old(pet)@,
                negative_imprint,
                positive_imprint,
                pet_patches@,
                *old(ally_counter_bank) as int,
                *old(element_banks),
                old(log)@,
            ) == Some(
                (final(pet)@, *final(ally_counter_bank) as int, *final(element_banks), final(log)@),
            ) && final(pet)@.follows(old(pet)@) && *final(ally_counter_bank) >= 0 && final(element_banks).wf(),
            Err(_) => entered(
                side,
                old(pet)@,
                negative_imprint,
                positive_imprint,
                pet_patches@,
                *old(ally_counter_bank) as int,
                *old(element_banks),
                old(log)@,
            ) is None,
        }),
{
    proof {
        reveal(entered);
    }
    status::recompute_frozen_hp_lock(pet)?;
    settle_patch(side, pet, pet_patches, ally_counter_bank, element_banks, log)?;
    pet.entry_leave_immune = true;
    meet_negative(side, pet, negative_imprint, log)?;
    meet_positive(side, pet, positive_imprint, log)
}

/// Whether a pet of the team waits for uses of that element by that pet.
pub open spec fn waits_for(
    table: Map<Seq<char>, Patch>,
    receiver: Pet,
    attacker_name: Seq<char>,
    element: Seq<char>,
) -> bool {
    &&& receiver.alive()
    &&& pet_battle_patch::patch_of(table, receiver.name) matches Some(patch)
    &&& patch.per_element matches Some(rule)
    &&& rule.element == element
    &&& !rule.exclude_self || receiver.name != attacker_name
}

/// Whether a use of a skill of `element` by `attacker_name` counts for its side.
pub open spec fn counts(
    table: Map<Seq<char>, Patch>,
    team: Seq<Pet>,
    attacker_name: Seq<char>,
    element: Seq<char>,
) -> bool {
    &&& element == "冰"@ || element == "火"@ || element == "地"@
    &&& exists|i: int|
        0 <= i < team.len() && #[trigger] waits_for(table, team[i], attacker_name, element)
}

/// The counts of a side after a use of a skill of `element` by `attacker_name`.
#[verifier::opaque]
pub open spec fn tallied(
    table: Map<Seq<char>, Patch>,
    team: Seq<Pet>,
    attacker_name: Seq<char>,
    element: Seq<char>,
    banks: ElementSkillBanks,
) -> ElementSkillBanks {
    if counts(table, team, attacker_name, element) {
        banks.with(element, number::lesser(banks.of(element) + 1, i32::MAX as int))
    } else {
        banks
    }
}

fn waits(
    pet_patches: &PetBattlePatchTable,
    receiver: &BattlePet,
    attacker_name: &str,
    element: &str,
) -> (r: bool)
    ensures
        r == waits_for(pet_patches@, receiver@, attacker_name@, element@),
{
    if receiver.cur_hp <= 0 {
        return false;
    }
    if let Some(entry) = pet_patches.get(receiver.name.as_str()) {
        if let Some(rule) = &entry.on_entry_per_element_skill_bank {
            return text::same(rule.element.as_str(), element) && (!rule.exclude_self_as_attacker
                || !text::same(receiver.name.as_str(), attacker_name));
        }
    }
    false
}

/// Whether a use of a skill of that element by that pet counts for its side.
#[verifier::loop_isolation(false)]
pub fn team_should_tally_element_skill_use(
    pet_patches: &PetBattlePatchTable,
    team: &Vec<BattlePet>,
    attacker_name: &str,
    skill_element: &str,
) -> (r: bool)
    ensures
        r == counts(pet_patches@, pet::pets_of(team@), attacker_name@, skill_element@),
{
    if !text::same(skill_element, "冰") && !text::same(skill_element, "火") && !text::same(
        skill_element,
        "地",
    ) {
        return false;
    }
    let mut i: usize = 0;
    let ghost pets = pet::pets_of(team@);
    while i < team.len()
        invariant
            i <= team.len(),
            pets == pet::pets_of(team@),
            forall|j: int|
                0 <= j < i ==> !#[trigger] waits_for(
                    pet_patches@,
                    pets[j],
                    attacker_name@,
                    skill_element@,
                ),
        decreases team.len() - i,
    {
        if waits(pet_patches, &team[i], attacker_name, skill_element) {
            assert(waits_for(pet_patches@, pets[i as int], attacker_name@, skill_element@));
            return true;
        }
        i = i + 1;
    }
    false
}

/// Counts a use of a skill for its side, if it counts.
pub fn tally_element_skill_use_for_side(
    own_team: &Vec<BattlePet>,
    attacker_name: &str,
    skill_element: &str,
    banks: &mut ElementSkillBanks,
    pet_patches: &PetBattlePatchTable,
)
    requires
        old(banks).wf(),
    ensures
        *final(banks) == tallied(
            pet_patches@,
            pet::pets_of(own_team@),
            attacker_name@,
            skill_element@,
            *old(banks),
        ),
        final(banks).wf(),
{
    proof {
        reveal(tallied);
    }
    if team_should_tally_element_skill_use(pet_patches, own_team, attacker_name, skill_element) {
        let n: i32 = banks.count(skill_element);
        banks.set_count(
            skill_element,
            if n < i32::MAX {
                n + 1
            } else {
                n
            },
        );
    }
}

/// What the helpful mark of a side does for its pet at the end of a round.
pub open spec fn photosynthesized(
    side: Side,
    p: Pet,
    positive: Option<PositiveImprint>,
    log: Log,
) -> Option<(Pet, Log)> {
    match positive {
        Some(i) if i.kind == PositiveImprintKind::Photosynthesis && i.layers > 0 && p.alive() => {
            match energized(p.energy, i.layers as int, p.energy_cap) {
                Some(e) => {
                    let q = Pet { energy: e, ..p };
                    Some(
                        (
                            q,
                            log.said(
                                side.letter() + "方 "@ + q.name + " 触发光合("@ + number::int_text(
                                    i.layers as int,
                                ) + "层)，回复 "@ + number::int_text(i.layers as int)
                                    + " 点能量（当前"@ + number::int_text(q.energy) + "）。\n"@,
                            ),
                        ),
                    )
                },
                None => None,
            }
        },
        _ => Some((p, log)),
    }
}

/// Lets the helpful mark of a side do what it does at the end of a round.
pub fn apply_positive_imprint_end_turn(
    side: Side,
    pet: &mut BattlePet,
    imprint: Option<PositiveImprint>,
    log: &mut BattleLog,
) -> (r: Result<(), Overflow>)
    requires
        old(pet)@.wf(),
    ensures
        (match r {
            Ok(_) => photosynthesized(side, old(pet)@, imprint, old(log)@) == Some(
                (final(pet)@, final(log)@),
            ) && final(pet)@.follows(old(pet)@),
            Err(_) => photosynthesized(side, old(pet)@, imprint, old(log)@) is None,
        }),
{
    if let Some(i) = imprint {
        if i.kind == PositiveImprintKind::Photosynthesis && i.layers > 0 && pet.cur_hp > 0 {
            pet.energy = add_energy_clamped(pet.energy, i.layers, pet.energy_cap)?;
            let mut m: String = side.text().to_owned();
            m.append("方 ");
            m.append(pet.name.as_str());
            m.append(" 触发光合(");
            push_int(&mut m, i.layers);
            m.append("层)，回复 ");
            push_int(&mut m, i.layers);
            m.append(" 点能量（当前");
            push_int(&mut m, pet.energy);
            m.append("）。\n");
            log.say(m);
        }
    }
    Ok(())
}

} // verus!
