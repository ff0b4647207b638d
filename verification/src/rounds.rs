//! A round of a battle, told by what goes in and what comes out.

use vstd::prelude::*;
use crate::battle;
use crate::battle::{Fight, Plans, Stage, Wish};
use crate::camp;
use crate::camp::Camp;
use crate::decide;
use crate::effects;
use crate::field;
use crate::log::Log;
use crate::number;
use crate::outcomes;
use crate::pet;
use crate::pet::{
    Choice, Pet, PositiveImprint, PositiveImprintKind, Side, WeatherKind, WeatherState,
};
use crate::pet_battle_patch::Patch;
use crate::reading;
use crate::stats;
use crate::status;
use crate::text;
use crate::weather;

verus! {

// Turns.

/// After the first turn of a round the other side is next, whichever side moved first, as long as
/// the fighters of both sides stand: the round is not closed, and nothing is put on record.
pub proof fn law_both_sides_act(
    f: Fight,
    table: Map<Seq<char>, Patch>,
    leave_seed: u64,
    gain_seed: u64,
    plans: Plans,
    g: Fight,
    h: Fight,
)
    requires
        f.stage == Stage::Act(plans),
        !plans.second,
        battle::carried_out(f, plans, table, leave_seed, gain_seed) == Some(h),
        h.a.fighter().cur_hp > 0,
        h.b.fighter().cur_hp > 0,
        battle::acted(f, table, leave_seed, gain_seed) == Some(g),
    ensures
        ({
            let next = Plans { second: true, ..plans };
            &&& g.stage == Stage::Act(next) || g.stage == Stage::AskAgain(next)
            &&& next.mover() == plans.mover().opponent()
            &&& g.rounds == f.rounds
            &&& g.round == f.round
            &&& g.a == h.a && g.b == h.b && g.weather == h.weather
        }),
{
    reveal(battle::turn_begun);
    reveal(battle::carried_out);
}

/// The round is closed and put on record once both sides have acted, or a fighter has fallen.
pub proof fn law_round_is_closed(
    f: Fight,
    table: Map<Seq<char>, Patch>,
    leave_seed: u64,
    gain_seed: u64,
    plans: Plans,
    g: Fight,
    h: Fight,
)
    requires
        f.stage == Stage::Act(plans),
        battle::carried_out(f, plans, table, leave_seed, gain_seed) == Some(h),
        plans.second || h.a.fighter().cur_hp <= 0 || h.b.fighter().cur_hp <= 0,
        battle::acted(f, table, leave_seed, gain_seed) == Some(g),
    ensures
        g.rounds.len() == f.rounds.len() + 1,
        f.rounds.is_prefix_of(g.rounds),
        g.stage is AskA || g.stage is Over,
        g.round == (if g.stage is AskA {
            f.round + 1
        } else {
            f.round
        }),
{
    reveal(battle::carried_out);
    reveal(battle::round_closed);
    reveal(battle::aftermath);
    reveal(battle::round_opened);
}

/// The side whose turn it is acts, and acts on its opponent: the first turn belongs to the side that
/// goes first and the second to the other.
pub proof fn law_the_mover_acts(
    f: Fight,
    plans: Plans,
    table: Map<Seq<char>, Patch>,
    leave_seed: u64,
    gain_seed: u64,
)
    ensures
        ({
            let a_moves = plans.a_first != plans.second;
            let (side, own, opp, choice) = if a_moves {
                (Side::A, f.a, f.b, plans.a)
            } else {
                (Side::B, f.b, f.a, plans.b)
            };
            let done = crate::action::executed(
                side,
                choice,
                own,
                opp,
                table,
                f.weather,
                leave_seed,
                gain_seed,
                f.log,
            );
            match battle::carried_out(f, plans, table, leave_seed, gain_seed) {
                None => done is None,
                Some(g) => {
                    &&& done matches Some(t) && g.weather == t.weather && g.log == t.log
                    &&& a_moves ==> g.a == done->0.own && g.b == done->0.opp
                    &&& !a_moves ==> g.b == done->0.own && g.a == done->0.opp
                    &&& g.round == f.round && g.rounds == f.rounds && g.opening == f.opening
                },
            }
        }),
{
    reveal(battle::carried_out);
}

/// A side that charges in its turn gains five points of energy for its fighter, whichever side it
/// is; the other side stays as it is.
pub proof fn law_charging_turn(
    f: Fight,
    plans: Plans,
    table: Map<Seq<char>, Patch>,
    leave_seed: u64,
    gain_seed: u64,
)
    requires
        f.a.wf() && f.a.fielded() && f.a.fighter().cur_hp > 0,
        f.b.wf() && f.b.fielded() && f.b.fighter().cur_hp > 0,
    ensures
        battle::carried_out(f, plans, table, leave_seed, gain_seed) matches Some(g) ==> {
            let a_moves = plans.a_first != plans.second;
            &&& a_moves && plans.a == Choice::Charge ==> g.b == f.b && g.a.fighter().energy
                == number::lesser(f.a.fighter().energy + 5, f.a.fighter().energy_cap)
            &&& !a_moves && plans.b == Choice::Charge ==> g.a == f.a && g.b.fighter().energy
                == number::lesser(f.b.fighter().energy + 5, f.b.fighter().energy_cap)
        },
{
    law_the_mover_acts(f, plans, table, leave_seed, gain_seed);
    outcomes::law_charging(
        Side::A,
        f.a,
        f.b,
        table,
        f.weather,
        leave_seed,
        gain_seed,
        f.log,
    );
    outcomes::law_charging(
        Side::B,
        f.b,
        f.a,
        table,
        f.weather,
        leave_seed,
        gain_seed,
        f.log,
    );
}

// The end of a round.

/// What a fighter goes through at the end of a round, and what comes of it: `p` before, `q` after,
/// `foe` the fighter on the other side before, in the weather `sky`, under the mark `mark`.
pub open spec fn settled(
    p: Pet,
    q: Pet,
    foe: Pet,
    sky: Option<WeatherState>,
    mark: Option<PositiveImprint>,
) -> bool {
    let cold = (sky matches Some(w) && w.kind == WeatherKind::Blizzard) && !p.has_element("冰"@);
    let ill = p.poison_layers > 0 || p.burn_layers > 0 || p.parasitic_layers > 0;
    &&& p.cur_hp > 0 && ill && foe.parasitic_layers == 0 ==> q.cur_hp < p.cur_hp
    &&& !ill && foe.parasitic_layers == 0 && !cold ==> q.cur_hp == p.cur_hp
    &&& !ill && foe.parasitic_layers == 0 && p.cur_hp > 0 ==> q.cur_hp > 0
    &&& q.cur_hp > 0 && p.burn_layers > 0 ==> q.burn_layers == p.burn_layers / 2
    &&& p.burn_layers == 0 ==> q.burn_layers == 0
    &&& q.poison_layers == p.poison_layers
    &&& q.parasitic_layers == p.parasitic_layers
    &&& q.freeze_layers == p.freeze_layers + (if cold {
        2int
    } else {
        0
    })
    &&& q.morph_stage == p.morph_stage
    &&& q.charging_skill == p.charging_skill
    &&& q.energy == (match mark {
        Some(m) if m.kind == PositiveImprintKind::Photosynthesis && q.cur_hp > 0 => number::lesser(
            p.energy + m.layers,
            p.energy_cap,
        ),
        _ => p.energy,
    })
    &&& q.same_being(p)
}

/// What the states of a fighter do to it, and to the fighter on the other side.
proof fn lemma_states(p: Pet, foe: Pet, log: Log)
    requires
        p.wf(),
        foe.wf(),
    ensures
        status::round_ended(p, foe, log) matches Some(r) ==> {
            let ill = p.poison_layers > 0 || p.burn_layers > 0 || p.parasitic_layers > 0;
            &&& r.0.wf() && r.1.wf()
            &&& r.0.same_being(p) && r.1.same_being(foe)
            &&& p.cur_hp > 0 && ill ==> r.0.cur_hp < p.cur_hp
            &&& !ill || p.cur_hp == 0 ==> r.0 == p && r.1 == foe
            &&& r.0.cur_hp > 0 && p.burn_layers > 0 ==> r.0.burn_layers == p.burn_layers / 2
            &&& p.burn_layers == 0 ==> r.0.burn_layers == 0
            &&& r.0.poison_layers == p.poison_layers
            &&& r.0.parasitic_layers == p.parasitic_layers
            &&& r.0.freeze_layers == p.freeze_layers
            &&& r.0.morph_stage == p.morph_stage
            &&& r.0.charging_skill == p.charging_skill
            &&& r.0.energy == p.energy
            &&& p.parasitic_layers == 0 ==> r.1 == foe
            &&& r.1 == (Pet { cur_hp: r.1.cur_hp, ..foe })
            &&& r.1.cur_hp > 0 <==> foe.cur_hp > 0
        },
{
    reveal(status::round_ended);
}

proof fn lemma_weather_end(w: Option<WeatherState>, a: Pet, b: Pet, log: Log)
    requires
        a.wf(),
        b.wf(),
    ensures
        weather::weather_ended(w, a, b, log) matches Some(r) ==> {
            let cold = w matches Some(x) && x.kind == WeatherKind::Blizzard;
            &&& r.1.wf() && r.2.wf()
            &&& chilled_only(a, r.1, cold && !a.has_element("冰"@))
            &&& chilled_only(b, r.2, cold && !b.has_element("冰"@))
        },
{
}

spec fn chilled_only(p: Pet, q: Pet, cold: bool) -> bool {
    &&& q.same_being(p)
    &&& q.freeze_layers == p.freeze_layers + (if cold {
        2int
    } else {
        0
    })
    &&& !cold ==> q == p
    &&& q.cur_hp <= p.cur_hp
    &&& q.cur_hp > 0 <==> p.cur_hp > 0
    &&& q.poison_layers == p.poison_layers
    &&& q.burn_layers == p.burn_layers
    &&& q.parasitic_layers == p.parasitic_layers
    &&& q.morph_stage == p.morph_stage
    &&& q.charging_skill == p.charging_skill
    &&& q.energy == p.energy
}

proof fn lemma_mark_end(side: Side, p: Pet, mark: Option<PositiveImprint>, log: Log)
    requires
        p.wf(),
        field::positive_wf(mark),
    ensures
        field::photosynthesized(side, p, mark, log) matches Some(r) ==> {
            &&& r.0 == (Pet { energy: r.0.energy, ..p })
            &&& r.0.energy == (match mark {
                Some(m) if m.kind == PositiveImprintKind::Photosynthesis && p.cur_hp > 0 => {
                    number::lesser(p.energy + m.layers, p.energy_cap)
                },
                _ => p.energy,
            })
        },
{
}

/// At the end of a round both fighters go through the weather, their states and the mark that helps
/// their side: poison, burning and parasites take health from a fighter that stands, half of the
/// layers of burning go, a blizzard freezes, photosynthesis gives energy; a fighter that nothing
/// touches keeps its health. The weather is one round nearer its end, and a side whose fighter has
/// fallen loses a point of life.
pub proof fn law_round_end(f: Fight, plans: Plans)
    requires
        f.a.wf() && f.a.fielded(),
        f.b.wf() && f.b.fielded(),
    ensures
        battle::round_closed(f, plans) matches Some(g) ==> {
            &&& g.a.active == f.a.active && g.b.active == f.b.active
            &&& settled(
                f.a.fighter(),
                g.a.fighter(),
                f.b.fighter(),
                f.weather,
                f.a.positive,
            )
            &&& settled(
                f.b.fighter(),
                g.b.fighter(),
                f.a.fighter(),
                f.weather,
                f.b.positive,
            )
            &&& g.weather == (match f.weather {
                Some(w) if w.remain_turns > 1 => Some(
                    WeatherState { kind: w.kind, remain_turns: (w.remain_turns - 1) as i32 },
                ),
                _ => None,
            })
            &&& g.a.life == f.a.life - (if g.a.fighter().cur_hp > 0 {
                0int
            } else {
                1
            })
            &&& g.b.life == f.b.life - (if g.b.fighter().cur_hp > 0 {
                0int
            } else {
                1
            })
            &&& g.a.negative == f.a.negative && g.a.positive == f.a.positive
            &&& g.b.negative == f.b.negative && g.b.positive == f.b.positive
        },
{
    reveal(battle::round_closed);
    reveal(battle::aftermath);
    let (a, b) = (f.a.fighter(), f.b.fighter());
    assert(f.a.team[f.a.active].wf() && f.b.team[f.b.active].wf());
    lemma_weather_end(f.weather, a, b, f.log);
    match weather::weather_ended(f.weather, a, b, f.log) {
        None => {},
        Some((w, a1, b1, l1)) => {
            lemma_states(a1, b1, l1);
            match status::round_ended(a1, b1, l1) {
                None => {},
                Some((a2, b2, l2)) => {
                    lemma_states(b2, a2, l2);
                    match status::round_ended(b2, a2, l2) {
                        None => {},
                        Some((b3, a3, l3)) => {
                            lemma_mark_end(Side::A, a3, f.a.positive, l3);
                            match field::photosynthesized(Side::A, a3, f.a.positive, l3) {
                                None => {},
                                Some((a4, l4)) => {
                                    lemma_mark_end(Side::B, b3, f.b.positive, l4);
                                },
                            }
                        },
                    }
                },
            }
        },
    }
}

/// What parasites take from a fighter its foe gains, up to what it can use: six hundredths of the
/// health for each layer, at least a point.
pub proof fn law_parasites_feed(f: Fight, plans: Plans)
    requires
        f.a.wf() && f.a.fielded() && f.a.fighter().cur_hp > 0,
        f.b.wf() && f.b.fielded() && f.b.fighter().cur_hp > 0,
        f.weather is None,
    ensures
        battle::round_closed(f, plans) matches Some(g) ==> {
            let (a, b) = (f.a.fighter(), f.b.fighter());
            let from_a = number::greater(stats::hp_part(a.hp, 6) * a.parasitic_layers, 1);
            let from_b = number::greater(stats::hp_part(b.hp, 6) * b.parasitic_layers, 1);
            &&& only_parasites(a) && untouched(b) ==> g.a.fighter().cur_hp == number::greater(
                a.cur_hp - from_a,
                0,
            ) && g.b.fighter().cur_hp == number::lesser(
                b.cur_hp + from_a,
                b.hp - b.frozen_hp_locked,
            )
            &&& only_parasites(b) && untouched(a) ==> g.b.fighter().cur_hp == number::greater(
                b.cur_hp - from_b,
                0,
            ) && g.a.fighter().cur_hp == number::lesser(
                a.cur_hp + from_b,
                a.hp - a.frozen_hp_locked,
            )
        },
{
    reveal(battle::round_closed);
    reveal(battle::aftermath);
    reveal(status::round_ended);
    assert(f.a.team[f.a.active].wf() && f.b.team[f.b.active].wf());
}

pub open spec fn untouched(p: Pet) -> bool {
    p.poison_layers == 0 && p.burn_layers == 0 && p.parasitic_layers == 0
}

pub open spec fn only_parasites(p: Pet) -> bool {
    p.poison_layers == 0 && p.burn_layers == 0 && p.parasitic_layers > 0
}

/// What poison and burning take at the end of a round, each alone: for each layer three and two
/// hundredths of the health, times the factor of their element, at least a point.
pub proof fn law_poison_and_burning(f: Fight, plans: Plans)
    requires
        f.a.wf() && f.a.fielded() && f.a.fighter().cur_hp > 0,
        f.b.wf() && f.b.fielded() && f.b.fighter().cur_hp > 0,
        f.weather is None,
        f.a.fighter().parasitic_layers == 0,
        f.b.fighter().parasitic_layers == 0,
    ensures
        battle::round_closed(f, plans) matches Some(g) ==> ticked(
            f.a.fighter(),
            g.a.fighter(),
        ) && ticked(f.b.fighter(), g.b.fighter()),
{
    reveal(battle::round_closed);
    reveal(battle::aftermath);
    reveal(status::round_ended);
    assert(f.a.team[f.a.active].wf() && f.b.team[f.b.active].wf());
}

/// What poison alone, or burning alone, has made of a fighter.
pub open spec fn ticked(p: Pet, q: Pet) -> bool {
    &&& p.poison_layers > 0 && p.burn_layers == 0 ==> q.cur_hp == number::greater(
        p.cur_hp - number::greater(stats::tick(p, 3, p.poison_layers, "毒"@), 1),
        0,
    )
    &&& p.burn_layers > 0 && p.poison_layers == 0 ==> q.cur_hp == number::greater(
        p.cur_hp - number::greater(stats::tick(p, 2, p.burn_layers, "火"@), 1),
        0,
    )
}

/// What the states of a fighter take from it at the end of a round: poison, burning and parasites,
/// each at least a point where it lies on the fighter.
pub open spec fn taken(p: Pet) -> int {
    (if p.poison_layers > 0 {
        number::greater(stats::tick(p, 3, p.poison_layers, "毒"@), 1)
    } else {
        0
    }) + (if p.burn_layers > 0 {
        number::greater(stats::tick(p, 2, p.burn_layers, "火"@), 1)
    } else {
        0
    }) + (if p.parasitic_layers > 0 {
        number::greater(stats::hp_part(p.hp, 6) * p.parasitic_layers, 1)
    } else {
        0
    })
}

proof fn lemma_losses(p: Pet, foe: Pet, log: Log)
    requires
        p.wf(),
    ensures
        status::round_ended(p, foe, log) matches Some(r) ==> r.0.cur_hp == number::greater(
            p.cur_hp - taken(p),
            0,
        ),
{
    reveal(status::round_ended);
    let (p1, l1) = status::poison_ticked(p, log);
    assert(stats::tick(p1, 2, p.burn_layers, "火"@) == stats::tick(p, 2, p.burn_layers, "火"@));
}

/// What lies on a fighter takes its health together at the end of a round, whatever it is, as long
/// as nothing feeds it and no blizzard blows.
pub proof fn law_losses_add_up(f: Fight, plans: Plans)
    requires
        f.a.wf() && f.a.fielded(),
        f.b.wf() && f.b.fielded(),
        f.weather matches Some(w) ==> w.kind != WeatherKind::Blizzard,
    ensures
        battle::round_closed(f, plans) matches Some(g) ==> {
            let (a, b) = (f.a.fighter(), f.b.fighter());
            &&& b.parasitic_layers == 0 ==> g.a.fighter().cur_hp == number::greater(
                a.cur_hp - taken(a),
                0,
            )
            &&& a.parasitic_layers == 0 ==> g.b.fighter().cur_hp == number::greater(
                b.cur_hp - taken(b),
                0,
            )
        },
{
    reveal(battle::round_closed);
    reveal(battle::aftermath);
    let (a, b) = (f.a.fighter(), f.b.fighter());
    assert(f.a.team[f.a.active].wf() && f.b.team[f.b.active].wf());
    lemma_weather_end(f.weather, a, b, f.log);
    match weather::weather_ended(f.weather, a, b, f.log) {
        None => {},
        Some((w, a1, b1, l1)) => {
            lemma_states(a1, b1, l1);
            lemma_losses(a1, b1, l1);
            match status::round_ended(a1, b1, l1) {
                None => {},
                Some((a2, b2, l2)) => {
                    lemma_states(b2, a2, l2);
                    lemma_losses(b2, a2, l2);
                    match status::round_ended(b2, a2, l2) {
                        None => {},
                        Some((b3, a3, l3)) => {
                            lemma_mark_end(Side::A, a3, f.a.positive, l3);
                            match field::photosynthesized(Side::A, a3, f.a.positive, l3) {
                                None => {},
                                Some((a4, l4)) => {
                                    lemma_mark_end(Side::B, b3, f.b.positive, l4);
                                },
                            }
                        },
                    }
                },
            }
        },
    }
}

// Decisions.

/// What a side replies is what it has decided, when it says so in the proper form: first side A,
/// then side B. A side that does not reply uses its first skill.
pub proof fn law_replies_are_decisions(
    f: Fight,
    choice: Choice,
    table: Map<Seq<char>, Patch>,
)
    requires
        reading::plain_choice(choice),
    ensures
        f.stage is AskA ==> battle::replied(f, Some(decide::choice_text(choice)), table).stage
            == Stage::AskB(choice),
        f.stage is AskA ==> battle::replied(f, None, table).stage == Stage::AskB(
            Choice::UseSkill(f.a.fighter().skills[0].name),
        ),
{
    reading::law_decisions_are_read_back(choice, f.a.fighter());
}

/// The plans that a stage holds.
pub open spec fn plans_of(stage: Stage) -> Option<Plans> {
    match stage {
        Stage::AskAgain(p) => Some(p),
        Stage::Act(p) => Some(p),
        _ => None,
    }
}

/// Once side B has replied too, both decisions stand as plans, but for a fighter that has charged a
/// skill and is not taken off the field: it uses that skill.
pub proof fn law_plans_hold_decisions(
    f: Fight,
    a_choice: Choice,
    b_choice: Choice,
    table: Map<Seq<char>, Patch>,
)
    requires
        f.stage == Stage::AskB(a_choice),
        reading::plain_choice(b_choice),
    ensures
        ({
            let g = battle::replied(f, Some(decide::choice_text(b_choice)), table);
            &&& plans_of(g.stage) matches Some(p)
            &&& !p.second
            &&& p.a == bound(f.a.fighter(), a_choice)
            &&& p.b == bound(f.b.fighter(), b_choice)
        }),
        ({
            let g = battle::replied(f, None, table);
            &&& plans_of(g.stage) matches Some(p)
            &&& p.b == bound(
                f.b.fighter(),
                Choice::UseSkill(f.b.fighter().skills[0].name),
            )
        }),
{
    reveal(battle::both_decided);
    reveal(battle::turn_begun);
    reading::law_decisions_are_read_back(b_choice, f.b.fighter());
}

/// What a fighter does that has perhaps charged a skill.
pub open spec fn bound(p: Pet, choice: Choice) -> Choice {
    if p.charging_skill is Some && choice !is Switch {
        Choice::UseSkill(p.charging_skill->0)
    } else {
        choice
    }
}

/// Whether a decision counters another, by the words of its effect.
pub open spec fn beats(own: Pet, own_choice: Choice, opp: Pet, opp_choice: Choice) -> bool {
    &&& own_choice is UseSkill && opp_choice is UseSkill
    &&& own.knows(own_choice->UseSkill_0)
    &&& ({
        let effect = own.skills[own.skill_index(own_choice->UseSkill_0)].effect;
        let category = if opp.knows(opp_choice->UseSkill_0) {
            opp.skills[opp.skill_index(opp_choice->UseSkill_0)].category
        } else {
            "物攻"@
        };
        ||| text::has(effect, "应对攻击"@) && (category == "物攻"@ || category == "魔攻"@)
        ||| text::has(effect, "应对防御"@) && category == "防御"@
        ||| text::has(effect, "应对状态"@) && category == "状态"@
    })
}

/// Who moves first, once both have decided: a counter of a skill that is not one of defence, unless
/// the other side has one too; else what acts further ahead; else the faster fighter; else side A.
pub proof fn law_who_moves_first(
    f: Fight,
    a_choice: Choice,
    reply: Option<Seq<char>>,
    table: Map<Seq<char>, Patch>,
)
    requires
        f.stage == Stage::AskB(a_choice),
    ensures
        plans_of(battle::replied(f, reply, table).stage) matches Some(p) && {
            let (a, b) = (f.a.fighter(), f.b.fighter());
            let a_jumps = beats(a, p.a, b, p.b) && a.skills[a.skill_index(
                p.a->UseSkill_0,
            )].category != "防御"@;
            let b_jumps = beats(b, p.b, a, p.a) && b.skills[b.skill_index(
                p.b->UseSkill_0,
            )].category != "防御"@;
            let (x, y) = (ahead(a, p.a), ahead(b, p.b));
            &&& a_jumps && !b_jumps ==> p.a_first
            &&& b_jumps && !a_jumps ==> !p.a_first
            &&& a_jumps == b_jumps && x > y ==> p.a_first
            &&& a_jumps == b_jumps && x < y ==> !p.a_first
            &&& a_jumps == b_jumps && x == y ==> p.a_first == (stats::speed_of(a)
                >= stats::speed_of(b))
        },
{
    reveal(battle::both_decided);
    reveal(battle::turn_begun);
}

/// How far ahead a decision acts: the number that the effect of a skill gives, 99 for bringing in a
/// pet, nothing for charging.
pub open spec fn ahead(p: Pet, choice: Choice) -> int {
    match choice {
        Choice::UseSkill(name) => decide::priority_of(p, name),
        Choice::Switch(_) => 99,
        Choice::Charge => 0,
    }
}

/// How far ahead a skill acts is the number behind the words for it.
pub proof fn law_priority(
    p: Pet,
    name: Seq<char>,
    front: Seq<char>,
    n: nat,
    rest: Seq<char>,
)
    requires
        n <= i32::MAX,
        p.knows(name),
        reading::lacks(front, '先'),
        rest.len() > 0 ==> !text::is_digit(rest[0]),
    ensures
        p.skills[p.skill_index(name)].effect == front + "先手+"@ + (number::nat_text(n) + rest)
            ==> decide::priority_of(p, name) == n,
        !text::has(p.skills[p.skill_index(name)].effect, "先手+"@) ==> decide::priority_of(p, name)
            == 0,
{
    reveal_strlit("先手+");
    let digits = number::nat_text(n);
    reading::lemma_around(front, "先手+"@, digits + rest, 0);
    reading::lemma_nat_text(n);
    assert forall|i: int| 0 <= i < digits.len() implies text::CharClass::Digit.holds(
        #[trigger] digits[i],
    ) by {
        assert(text::is_digit(digits[i]));
    }
    reading::lemma_run(digits, rest, text::CharClass::Digit);
    reading::law_numbers_are_read_back(n as int);
    text::lemma_position(p.skills[p.skill_index(name)].effect, "先手+"@);
}

/// A counter of one side alone is counted for that side, unless its fighter settles that count
/// itself; where both counter, or none, nothing is counted. Nothing else of the sides changes when
/// they decide.
pub proof fn law_counters_are_counted(
    f: Fight,
    a_choice: Choice,
    reply: Option<Seq<char>>,
    table: Map<Seq<char>, Patch>,
)
    requires
        f.stage == Stage::AskB(a_choice),
        f.a.bank <= i32::MAX,
        f.b.bank <= i32::MAX,
    ensures
        ({
            let g = battle::replied(f, reply, table);
            plans_of(g.stage) matches Some(p) && {
                let (a, b) = (f.a.fighter(), f.b.fighter());
                let (x, y) = (beats(a, p.a, b, p.b), beats(b, p.b, a, p.a));
                &&& g.a.bank == (if x && !y && !settles(table, a) {
                    number::lesser(f.a.bank + 1, i32::MAX as int)
                } else {
                    f.a.bank
                })
                &&& g.b.bank == (if y && !x && !settles(table, b) {
                    number::lesser(f.b.bank + 1, i32::MAX as int)
                } else {
                    f.b.bank
                })
                &&& g.a == (Camp { bank: g.a.bank, ..f.a })
                &&& g.b == (Camp { bank: g.b.bank, ..f.b })
                &&& g.weather == f.weather && g.round == f.round && g.rounds == f.rounds
            }
        }),
{
    reveal(battle::both_decided);
    reveal(battle::turn_begun);
}

/// Whether a pet settles the count of successful counters when it enters.
pub open spec fn settles(table: Map<Seq<char>, Patch>, p: Pet) -> bool {
    table.contains_key(p.name) && table[p.name].per_ally_counter is Some
}

/// A decision that may not be carried out is told of and asked for again; one that may is carried
/// out next. Whose turn it is does not change by that.
pub proof fn law_turns_begin_by_the_rules(f: Fight, plans: Plans)
    ensures
        ({
            let g = battle::turn_begun(f, plans);
            let own = if plans.a_first != plans.second {
                f.a
            } else {
                f.b
            };
            let choice = if plans.a_first != plans.second {
                plans.a
            } else {
                plans.b
            };
            let legal = decide::invalid_reason(own.team, own.active, choice, f.weather) is None;
            &&& legal ==> g == (Fight { stage: Stage::Act(plans), ..f })
            &&& !legal ==> g.stage == Stage::AskAgain(plans) && g.log.deltas == f.log.deltas && g
                == (Fight { stage: g.stage, log: g.log, ..f })
        }),
{
    reveal(battle::turn_begun);
}

/// Who is asked: side A, then side B, then whoever may not do what it wants in its turn.
pub proof fn law_who_is_asked(f: Fight)
    ensures
        f.stage is AskA ==> (battle::wished(f) matches Wish::Ask { side, with_rules, .. } && side
            == Side::A && with_rules == !f.a_told),
        f.stage is AskB ==> (battle::wished(f) matches Wish::Ask { side, with_rules, .. } && side
            == Side::B && with_rules == !f.b_told),
        f.stage matches Stage::AskAgain(p) ==> (battle::wished(f) matches Wish::Ask {
            side,
            with_rules,
            ..
        } && !with_rules && side == (if p.a_first != p.second {
            Side::A
        } else {
            Side::B
        })),
        f.stage is Act <==> battle::wished(f) is Act,
        f.stage is Over <==> battle::wished(f) is Over,
{
}

/// A reply that nobody has asked for, and an action that nobody is to take, change nothing.
pub proof fn law_out_of_turn(
    f: Fight,
    reply: Option<Seq<char>>,
    table: Map<Seq<char>, Patch>,
    leave_seed: u64,
    gain_seed: u64,
)
    ensures
        f.stage is Act || f.stage is Over ==> battle::replied(f, reply, table) == f,
        f.stage !is Act ==> battle::acted(f, table, leave_seed, gain_seed) == Some(f),
{
}

// Legal decisions.

/// What a side may do: charge at any time; bring in a pet if one of that name stands behind the
/// fighter; use a skill that the fighter knows if it has the energy for the first of that name.
pub proof fn law_what_is_legal(team: Seq<Pet>, active: int, name: Seq<char>, sky: Option<WeatherState>)
    requires
        0 <= active < team.len(),
    ensures
        decide::invalid_reason(team, active, Choice::Charge, sky) is None,
        decide::invalid_reason(team, active, Choice::Switch(name), sky) is None <==> exists|j: int|
            #[trigger] may_come_in(team, active, name, j),
        decide::invalid_reason(team, active, Choice::UseSkill(name), sky) is None
            <==> exists|i: int|
            #[trigger] may_be_used(team[active], name, sky, i),
{
    lemma_target(team, active, name, 0);
    let p = team[active];
    pet::lemma_first_named(p.skills, name);
    let m = p.skill_index(name);
    match camp::switch_target(team, active, name) {
        Some(j) => {
            assert(may_come_in(team, active, name, j));
        },
        None => {},
    }
    if p.knows(name) && p.energy >= effects::cost_in(p.skills[m], sky) {
        assert(may_be_used(p, name, sky, m));
    }
    assert forall|i: int| #[trigger] may_be_used(p, name, sky, i) implies i == m by {
        pet::lemma_first_named_is(p.skills, name, i);
    }
}

/// Whether the pet in place `j` has that name and stands behind the fighter.
pub open spec fn may_come_in(team: Seq<Pet>, active: int, name: Seq<char>, j: int) -> bool {
    0 <= j < team.len() && j != active && team[j].cur_hp > 0 && team[j].name == name
}

/// Whether skill number `i` is the first of that name and the pet has the energy for it.
pub open spec fn may_be_used(p: Pet, name: Seq<char>, sky: Option<WeatherState>, i: int) -> bool {
    &&& 0 <= i < p.skills.len() && p.skills[i].name == name
    &&& forall|k: int| 0 <= k < i ==> (#[trigger] p.skills[k]).name != name
    &&& p.energy >= effects::cost_in(p.skills[i], sky)
}

proof fn lemma_target(team: Seq<Pet>, active: int, name: Seq<char>, from: int)
    requires
        0 <= from,
    ensures
        camp::target_from(team, active, name, from) matches Some(j) ==> may_come_in(
            team,
            active,
            name,
            j,
        ),
        camp::target_from(team, active, name, from) is None ==> forall|j: int|
            from <= j ==> !#[trigger] may_come_in(team, active, name, j),
    decreases team.len() - from,
{
    if from < team.len() {
        lemma_target(team, active, name, from + 1);
        assert(may_come_in(team, active, name, from) <==> camp::is_reserve(team, active, from)
            && team[from].name == name);
    }
}

// A decision that may not be carried out.

/// A side that is asked again and replies properly with what it may do does that. The other side's
/// decision stays, and so does whose turn it is.
pub proof fn law_second_reply_counts(
    f: Fight,
    plans: Plans,
    choice: Choice,
    table: Map<Seq<char>, Patch>,
)
    requires
        f.stage == Stage::AskAgain(plans),
        reading::plain_choice(choice),
    ensures
        ({
            let a_moves = plans.a_first != plans.second;
            let own = if a_moves {
                f.a
            } else {
                f.b
            };
            let legal = decide::invalid_reason(own.team, own.active, choice, f.weather) is None;
            let free = own.fighter().charging_skill is None || choice is Switch;
            let g = battle::replied(f, Some(decide::choice_text(choice)), table);
            &&& legal && free ==> g == (Fight {
                stage: Stage::Act(
                    if a_moves {
                        Plans { a: choice, ..plans }
                    } else {
                        Plans { b: choice, ..plans }
                    },
                ),
                ..f
            })
        }),
{
    reading::law_decisions_are_read_back(choice, f.a.fighter());
    reading::law_decisions_are_read_back(choice, f.b.fighter());
}

proof fn lemma_first_reserve(team: Seq<Pet>, active: int, from: int)
    requires
        0 <= from,
        team.len() <= usize::MAX,
    ensures
        ({
            let r = camp::reserves_from(team, active, from);
            &&& r.len() == 0 ==> forall|i: int|
                from <= i < team.len() ==> i == active || (#[trigger] team[i]).cur_hp <= 0
            &&& r.len() > 0 ==> from <= r[0] < team.len() && r[0] != active
                && team[r[0] as int].cur_hp > 0 && forall|i: int|
                from <= i < r[0] ==> i == active || (#[trigger] team[i]).cur_hp <= 0
        }),
    decreases team.len() - from,
{
    if from < team.len() {
        lemma_first_reserve(team, active, from + 1);
    }
}

proof fn lemma_first_affordable(p: Pet, sky: Option<WeatherState>, from: int)
    requires
        0 <= from,
    ensures
        match decide::affordable_from(p, sky, from) {
            Some(i) => from <= i < p.skills.len() && p.energy >= effects::cost_in(p.skills[i], sky)
                && forall|k: int|
                from <= k < i ==> p.energy < effects::cost_in(#[trigger] p.skills[k], sky),
            None => forall|k: int|
                from <= k < p.skills.len() ==> p.energy < effects::cost_in(
                    #[trigger] p.skills[k],
                    sky,
                ),
        },
    decreases p.skills.len() - from,
{
    if from < p.skills.len() {
        lemma_first_affordable(p, sky, from + 1);
    }
}

/// A side that may not do what it wants, and does not reply when it is asked again, brings in the
/// first pet behind its fighter that stands; where none does, its fighter uses the first skill that
/// it has the energy for; where it has none, it charges.
pub proof fn law_silence_after_a_refusal(f: Fight, plans: Plans, table: Map<Seq<char>, Patch>)
    requires
        f.stage == Stage::AskAgain(plans),
        f.a.team.len() <= usize::MAX,
        f.b.team.len() <= usize::MAX,
    ensures
        ({
            let a_moves = plans.a_first != plans.second;
            let (own, choice) = if a_moves {
                (f.a, plans.a)
            } else {
                (f.b, plans.b)
            };
            let p = own.fighter();
            let refused = decide::invalid_reason(
                own.team,
                own.active,
                bound(p, choice),
                f.weather,
            ) is Some;
            let g = battle::replied(f, None, table);
            &&& g.stage is Act
            &&& g == (Fight { stage: g.stage, ..f })
            &&& ({
                let (now, other, still) = if a_moves {
                    (g.stage->Act_0.a, g.stage->Act_0.b, plans.b)
                } else {
                    (g.stage->Act_0.b, g.stage->Act_0.a, plans.a)
                };
                &&& other == still
                &&& !refused ==> now == bound(p, choice)
                &&& refused ==> stands_in(own, now, f.weather)
            })
        }),
{
    lemma_first_reserve(f.a.team, f.a.active, 0);
    lemma_first_reserve(f.b.team, f.b.active, 0);
    lemma_first_affordable(f.a.fighter(), f.weather, 0);
    lemma_first_affordable(f.b.fighter(), f.weather, 0);
    let own = f.camp(plans.mover());
    let r = camp::reserves(own.team, own.active);
    if r.len() > 0 {
        let i = r[0] as int;
        assert(is_first_reserve(own, i));
    } else {
        match decide::affordable_from(own.fighter(), f.weather, 0) {
            Some(i) => {
                assert(is_first_affordable(own.fighter(), f.weather, i));
            },
            None => {},
        }
    }
}

/// Whether the pet in place `i` is the first behind the fighter that stands.
pub open spec fn is_first_reserve(own: Camp, i: int) -> bool {
    &&& 0 <= i < own.team.len() && i != own.active && own.team[i].cur_hp > 0
    &&& forall|k: int| 0 <= k < i ==> k == own.active || (#[trigger] own.team[k]).cur_hp <= 0
}

/// Whether skill number `i` is the first that the fighter has the energy for.
pub open spec fn is_first_affordable(p: Pet, sky: Option<WeatherState>, i: int) -> bool {
    &&& 0 <= i < p.skills.len() && p.energy >= effects::cost_in(p.skills[i], sky)
    &&& forall|k: int| 0 <= k < i ==> p.energy < effects::cost_in(#[trigger] p.skills[k], sky)
}

/// What a side does instead of what it may not do.
pub open spec fn stands_in(own: Camp, choice: Choice, sky: Option<WeatherState>) -> bool {
    let p = own.fighter();
    match choice {
        Choice::Switch(name) => exists|i: int| #[trigger]
            is_first_reserve(own, i) && name == own.team[i].name,
        Choice::UseSkill(name) => {
            &&& forall|i: int|
                0 <= i < own.team.len() ==> i == own.active || (#[trigger] own.team[i]).cur_hp <= 0
            &&& exists|i: int| #[trigger]
                is_first_affordable(p, sky, i) && name == p.skills[i].name
        },
        Choice::Charge => {
            &&& forall|i: int|
                0 <= i < own.team.len() ==> i == own.active || (#[trigger] own.team[i]).cur_hp <= 0
            &&& forall|k: int|
                0 <= k < p.skills.len() ==> p.energy < effects::cost_in(#[trigger] p.skills[k], sky)
        },
    }
}

// Nothing fails without need.

/// Whether all that the end of a round does to a fighter is in range.
pub open spec fn end_fits(p: Pet, foe: Pet, mark: Option<PositiveImprint>) -> bool {
    &&& number::fits(p.freeze_layers + 2)
    &&& number::fits(stats::hp_part(p.hp, 5) * number::greater(p.freeze_layers + 2, 0))
    &&& number::fits(p.burn_layers + 1)
    &&& number::fits(stats::hp_part(p.hp, 6) * number::greater(p.parasitic_layers, 1))
    &&& number::fits(foe.hp + number::greater(stats::hp_part(p.hp, 6) * p.parasitic_layers, 1))
    &&& mark matches Some(m) ==> number::fits(p.energy + m.layers)
}

proof fn lemma_states_settle(p: Pet, foe: Pet, log: Log)
    requires
        p.wf(),
        foe.wf(),
        number::fits(p.burn_layers + 1),
        number::fits(stats::hp_part(p.hp, 6) * number::greater(p.parasitic_layers, 1)),
        number::fits(foe.hp + number::greater(stats::hp_part(p.hp, 6) * p.parasitic_layers, 1)),
    ensures
        status::round_ended(p, foe, log) is Some,
{
    reveal(status::round_ended);
}

/// A round can always be closed, as long as what its end does to the fighters is in range.
pub proof fn law_rounds_can_be_closed(f: Fight, plans: Plans)
    requires
        f.a.wf() && f.a.fielded(),
        f.b.wf() && f.b.fielded(),
        end_fits(f.a.fighter(), f.b.fighter(), f.a.positive),
        end_fits(f.b.fighter(), f.a.fighter(), f.b.positive),
    ensures
        battle::round_closed(f, plans) is Some,
{
    reveal(battle::round_closed);
    reveal(battle::aftermath);
    let (a, b) = (f.a.fighter(), f.b.fighter());
    assert(f.a.team[f.a.active].wf() && f.b.team[f.b.active].wf());
    lemma_weather_end(f.weather, a, b, f.log);
    match weather::weather_ended(f.weather, a, b, f.log) {
        None => {},
        Some((w, a1, b1, l1)) => {
            lemma_states_settle(a1, b1, l1);
            lemma_states(a1, b1, l1);
            match status::round_ended(a1, b1, l1) {
                None => {},
                Some((a2, b2, l2)) => {
                    lemma_states_settle(b2, a2, l2);
                    lemma_states(b2, a2, l2);
                },
            }
        },
    }
}

} // verus!
