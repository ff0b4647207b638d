//! The log of a battle only ever grows.

use vstd::prelude::*;
use crate::action;
use crate::attack;
use crate::battle;
use crate::battle::{Fight, Plans};
use crate::camp;
use crate::camp::Camp;
use crate::dedication;
use crate::field;
use crate::log::Log;
use crate::pet::{
    Choice, DedicationBuff, NegativeImprint, Pet, PositiveImprint, Side, Skill, WeatherState,
};
use crate::pet_battle_patch::{ElementSkillBanks, Patch};
use crate::status;
use crate::weather;

verus! {

/// All of the texts, one behind the other.
pub open spec fn all_of(msgs: Seq<Seq<char>>) -> Seq<char>
    decreases msgs.len(),
{
    if msgs.len() == 0 {
        seq![]
    } else {
        all_of(msgs.drop_last()) + msgs.last()
    }
}

/// Whether a log tells on from another: it streams more texts, and the history grows by exactly
/// these, in their order.
#[verifier::opaque]
pub open spec fn tells_on(log: Log, before: Log) -> bool {
    &&& before.deltas.is_prefix_of(log.deltas)
    &&& log.history == before.history + all_of(log.deltas.skip(before.deltas.len() as int))
}

/// Whether a log goes on from another: the history and what is streamed begin with what was there.
#[verifier::opaque]
pub open spec fn goes_on(log: Log, before: Log) -> bool {
    before.history.is_prefix_of(log.history) && before.deltas.is_prefix_of(log.deltas)
}

proof fn lemma_all_of(x: Seq<Seq<char>>, y: Seq<Seq<char>>)
    ensures
        all_of(x + y) == all_of(x) + all_of(y),
    decreases y.len(),
{
    if y.len() == 0 {
        assert(x + y == x);
        assert(all_of(x) + all_of(y) == all_of(x));
    } else {
        lemma_all_of(x, y.drop_last());
        assert((x + y).drop_last() == x + y.drop_last());
        assert(all_of(x) + (all_of(y.drop_last()) + y.last()) == all_of(x) + all_of(y.drop_last())
            + y.last());
    }
}

broadcast proof fn lemma_same(log: Log)
    ensures
        #[trigger] tells_on(log, log),
{
    reveal(tells_on);
    assert(log.deltas.skip(log.deltas.len() as int) == Seq::<Seq<char>>::empty());
    assert(log.history + Seq::<char>::empty() == log.history);
}

broadcast proof fn lemma_said(log: Log, msg: Seq<char>)
    ensures
        tells_on(#[trigger] log.said(msg), log),
{
    reveal(tells_on);
    let new = log.said(msg).deltas.skip(log.deltas.len() as int);
    assert(new == seq![msg]);
    assert(new.drop_last() == Seq::<Seq<char>>::empty());
    assert(all_of(new.drop_last()) == Seq::<char>::empty());
    assert(all_of(new) == msg);
}

broadcast proof fn lemma_onward(c: Log, b: Log, a: Log)
    requires
        #[trigger] tells_on(c, b),
        #[trigger] tells_on(b, a),
    ensures
        tells_on(c, a),
{
    reveal(tells_on);
    let (n, m) = (a.deltas.len() as int, b.deltas.len() as int);
    let (x, y) = (b.deltas.skip(n), c.deltas.skip(m));
    assert forall|i: int| 0 <= i < m implies b.deltas[i] == c.deltas[i] by {
        assert(b.deltas[i] == c.deltas.subrange(0, m)[i]);
    }
    assert forall|i: int| 0 <= i < n implies a.deltas[i] == c.deltas[i] by {
        assert(a.deltas[i] == b.deltas.subrange(0, n)[i]);
    }
    assert(a.deltas == c.deltas.subrange(0, n));
    assert(c.deltas.skip(n) == x + y);
    lemma_all_of(x, y);
    assert(a.history + all_of(x) + all_of(y) == a.history + (all_of(x) + all_of(y)));
}

broadcast group group_tells_on {
    lemma_same,
    lemma_said,
    lemma_onward,
}

broadcast proof fn lemma_told(log: Log, before: Log)
    requires
        #[trigger] tells_on(log, before),
    ensures
        goes_on(log, before),
{
    reveal(tells_on);
    reveal(goes_on);
    assert(before.history == log.history.subrange(0, before.history.len() as int));
}

broadcast proof fn lemma_still(log: Log)
    ensures
        #[trigger] goes_on(log, log),
{
    reveal(goes_on);
}

broadcast proof fn lemma_noted(log: Log, msg: Seq<char>)
    ensures
        goes_on(#[trigger] log.noted(msg), log),
{
    reveal(goes_on);
}

broadcast proof fn lemma_streamed(log: Log, msg: Seq<char>)
    ensures
        goes_on(#[trigger] log.streamed(msg), log),
{
    reveal(goes_on);
}

broadcast proof fn lemma_further(c: Log, b: Log, a: Log)
    requires
        #[trigger] goes_on(c, b),
        #[trigger] goes_on(b, a),
    ensures
        goes_on(c, a),
{
    reveal(goes_on);
    assert forall|i: int| 0 <= i < a.history.len() implies a.history[i] == c.history[i] by {
        assert(a.history[i] == b.history.subrange(0, a.history.len() as int)[i]);
        assert(b.history[i] == c.history.subrange(0, b.history.len() as int)[i]);
    }
    assert forall|i: int| 0 <= i < a.deltas.len() implies a.deltas[i] == c.deltas[i] by {
        assert(a.deltas[i] == b.deltas.subrange(0, a.deltas.len() as int)[i]);
        assert(b.deltas[i] == c.deltas.subrange(0, b.deltas.len() as int)[i]);
    }
    assert(a.history == c.history.subrange(0, a.history.len() as int));
    assert(a.deltas == c.deltas.subrange(0, a.deltas.len() as int));
}

broadcast group group_goes_on {
    lemma_still,
    lemma_said,
    lemma_told,
    lemma_noted,
    lemma_streamed,
    lemma_further,
}

proof fn lemma_status(p: Pet, opp: Pet, effect: Seq<char>, log: Log)
    ensures
        status::afflicted(p, effect, log) matches Some(r) ==> tells_on(r.1, log),
        status::round_ended(p, opp, log) matches Some(r) ==> tells_on(r.2, log),
{
    broadcast use group_tells_on;

    reveal(status::afflicted);
    reveal(status::round_ended);
}

proof fn lemma_weather(w: Option<WeatherState>, a: Pet, b: Pet, effect: Seq<char>, log: Log)
    ensures
        tells_on(weather::changed(w, effect, log).1, log),
        weather::weather_ended(w, a, b, log) matches Some(r) ==> tells_on(r.3, log),
{
    broadcast use group_tells_on;

}

proof fn lemma_marks(
    attacker: Pet,
    used: Seq<char>,
    negative: Option<NegativeImprint>,
    positive: Option<PositiveImprint>,
    log: Log,
)
    ensures
        field::field_marked(attacker, used, negative, positive, log) matches Some(r) ==> tells_on(
            r.2,
            log,
        ),
{
    broadcast use group_tells_on;

    reveal(field::field_marked);
}

proof fn lemma_entry(
    side: Side,
    p: Pet,
    negative: Option<NegativeImprint>,
    positive: Option<PositiveImprint>,
    table: Map<Seq<char>, Patch>,
    bank: int,
    banks: ElementSkillBanks,
    log: Log,
)
    ensures
        field::entered(side, p, negative, positive, table, bank, banks, log) matches Some(r)
            ==> tells_on(r.3, log),
{
    broadcast use group_tells_on;

    reveal(field::entered);
}

proof fn lemma_strike(
    side: Side,
    attacker: Pet,
    defender: Pet,
    skill: Skill,
    ded: DedicationBuff,
    sky: Option<WeatherState>,
    cost: int,
    log: Log,
)
    ensures
        attack::struck(side, attacker, defender, skill, ded, sky, cost, log) matches Some(st)
            ==> tells_on(st.log, log),
{
    broadcast use group_tells_on;

    reveal(attack::struck);
    reveal(attack::hit);
    match attack::hit(side, attacker, defender, skill, ded, sky, cost, log) {
        None => {},
        Some((a1, d1, l1)) => {
            assert(tells_on(l1, log));
            lemma_status(d1, d1, skill.effect, l1);
            match status::afflicted(d1, skill.effect, l1) {
                None => {},
                Some((d2, l2)) => {
                    match attack::dedication_poisoned(d2, skill, ded, l2) {
                        None => {},
                        Some((d3, l3)) => {
                            assert(tells_on(l3, l2));
                            let dmg = attack::total_damage(attacker, defender, skill, ded, sky);
                            match attack::dedication_healed(a1, skill, ded, dmg, l3) {
                                None => {},
                                Some((a2, l4)) => {
                                    assert(tells_on(l4, l3));
                                    match attack::recovered(side, a2, skill.effect, l4) {
                                        None => {},
                                        Some((a3, l5)) => {
                                            assert(tells_on(l5, l4));
                                            lemma_weather(sky, a1, d1, skill.effect, l5);
                                        },
                                    }
                                },
                            }
                        },
                    }
                },
            }
        },
    }
}

proof fn lemma_attack(
    side: Side,
    chosen: Seq<char>,
    attacker: Pet,
    defender: Pet,
    ded: DedicationBuff,
    sky: Option<WeatherState>,
    log: Log,
)
    ensures
        attack::attack_resolved(side, chosen, attacker, defender, ded, sky, log) matches Some(st)
            ==> tells_on(st.log, log),
{
    broadcast use group_tells_on;

    reveal(attack::attack_resolved);
    let skill = attack::used_skill(attacker, chosen);
    let cost = attack::actual_cost(skill, ded, sky);
    let paid = Pet { energy: attacker.energy - cost, ..attacker };
    lemma_strike(side, paid, defender, skill, ded, sky, cost, log);
    let told = log.said(
        side.letter() + "方 "@ + attacker.name + " 使用 ["@ + skill.name
            + "] 进入蓄力状态，本回合不造成伤害。\n"@,
    );
    lemma_weather(sky, attacker, defender, skill.effect, told);
}

proof fn lemma_brought_in(
    side: Side,
    own: Camp,
    opp: Pet,
    idx: int,
    msg: Seq<char>,
    table: Map<Seq<char>, Patch>,
    sky: Option<WeatherState>,
    log: Log,
)
    ensures
        action::brought_in(side, own, opp, idx, msg, table, sky, log) matches Some(sc) ==> tells_on(
            sc.log,
            log,
        ),
{
    broadcast use group_tells_on;

    reveal(action::brought_in);
    let came = action::exchanged(own, idx);
    let l1 = log.said(msg);
    lemma_entry(
        side,
        came.fighter(),
        came.negative,
        came.positive,
        table,
        came.bank,
        came.banks,
        l1,
    );
    match field::entered(
        side,
        came.fighter(),
        came.negative,
        came.positive,
        table,
        came.bank,
        came.banks,
        l1,
    ) {
        None => {},
        Some((p, bank, banks, l2)) => {
            assert(tells_on(l2, log));
            match action::swift_from(p, sky, 0) {
                None => {},
                Some(i) => {
                    let l3 = l2.said(
                        side.letter() + "方 "@ + p.name + " 触发迅捷，自动使用 ["@
                            + p.skills[i].name + "]。\n"@,
                    );
                    lemma_attack(side, p.skills[i].name, p, opp, own.dedication, sky, l3);
                },
            }
        },
    }
}

proof fn lemma_skill_used(
    side: Side,
    chosen: Seq<char>,
    own: Camp,
    opp: Camp,
    table: Map<Seq<char>, Patch>,
    sky: Option<WeatherState>,
    log: Log,
)
    ensures
        action::skill_used(side, chosen, own, opp, table, sky, log) matches Some(t) ==> tells_on(
            t.log,
            log,
        ),
{
    broadcast use group_tells_on;

    reveal(action::skill_used);
    lemma_attack(side, chosen, own.fighter(), opp.fighter(), own.dedication, sky, log);
    match attack::attack_resolved(
        side,
        chosen,
        own.fighter(),
        opp.fighter(),
        own.dedication,
        sky,
        log,
    ) {
        None => {},
        Some(st) => {
            let counted = action::with_tally(own.with_fighter(st.attacker), st.tally, table);
            lemma_marks(counted.fighter(), chosen, opp.negative, counted.positive, st.log);
        },
    }
}

proof fn lemma_left(
    side: Side,
    used: Seq<char>,
    own: Camp,
    opp: Pet,
    table: Map<Seq<char>, Patch>,
    sky: Option<WeatherState>,
    seed: u64,
    log: Log,
)
    ensures
        action::left(side, used, own, opp, table, sky, seed, log) matches Some(sc) ==> tells_on(
            sc.log,
            log,
        ),
{
    broadcast use group_tells_on;

    reveal(action::left);
    let p = own.fighter();
    let skill = p.skills[p.skill_index(used)];
    let idx = action::next_in(own, skill.effect, seed);
    lemma_brought_in(
        side,
        own,
        opp,
        idx,
        side.letter() + "方因 ["@ + skill.name + "] 触发离场，上场："@ + own.team[idx].name
            + "。\n"@,
        table,
        sky,
        log,
    );
}

proof fn lemma_dedication(
    side: Side,
    p: Pet,
    used: Seq<char>,
    d: DedicationBuff,
    seed: u64,
    log: Log,
)
    ensures
        dedication::dedication_gained(side, p, used, d, seed, log) matches Some(r) ==> tells_on(
            r.1,
            log,
        ),
{
    broadcast use group_tells_on;

    reveal(dedication::dedication_gained);
}

proof fn lemma_skill_executed(
    side: Side,
    chosen: Seq<char>,
    own: Camp,
    opp: Camp,
    table: Map<Seq<char>, Patch>,
    sky: Option<WeatherState>,
    leave_seed: u64,
    gain_seed: u64,
    log: Log,
)
    ensures
        action::skill_executed(
            side,
            chosen,
            own,
            opp,
            table,
            sky,
            leave_seed,
            gain_seed,
            log,
        ) matches Some(t) ==> tells_on(t.log, log),
{
    broadcast use group_tells_on;

    reveal(action::skill_executed);
    lemma_skill_used(side, chosen, own, opp, table, sky, log);
    match action::skill_used(side, chosen, own, opp, table, sky, log) {
        None => {},
        Some(t) => {
            lemma_left(
                side,
                chosen,
                t.own,
                t.opp.fighter(),
                table,
                t.weather,
                leave_seed,
                t.log,
            );
            match action::left(
                side,
                chosen,
                t.own,
                t.opp.fighter(),
                table,
                t.weather,
                leave_seed,
                t.log,
            ) {
                None => {},
                Some(sc) => {
                    let acted = action::settled_in(sc.own);
                    lemma_dedication(
                        side,
                        acted.fighter(),
                        chosen,
                        acted.dedication,
                        gain_seed,
                        sc.log,
                    );
                },
            }
        },
    }
}

/// When a decision is carried out, the history grows by exactly the texts that are streamed, in
/// their order.
pub proof fn law_turn_is_told(
    side: Side,
    choice: Choice,
    own: Camp,
    opp: Camp,
    table: Map<Seq<char>, Patch>,
    sky: Option<WeatherState>,
    leave_seed: u64,
    gain_seed: u64,
    log: Log,
)
    ensures
        action::executed(
            side,
            choice,
            own,
            opp,
            table,
            sky,
            leave_seed,
            gain_seed,
            log,
        ) matches Some(t) ==> tells_on(t.log, log),
{
    broadcast use group_tells_on;

    match choice {
        Choice::UseSkill(chosen) => {
            lemma_skill_executed(
                side,
                chosen,
                own,
                opp,
                table,
                sky,
                leave_seed,
                gain_seed,
                log,
            );
        },
        Choice::Switch(target) => {
            reveal(action::switch_executed);
            match camp::switch_target(own.team, own.active, target) {
                None => {},
                Some(idx) => {
                    lemma_brought_in(
                        side,
                        own,
                        opp.fighter(),
                        idx,
                        side.letter() + "方选择换宠，上场："@ + own.team[idx].name + "。\n"@,
                        table,
                        sky,
                        log,
                    );
                },
            }
        },
        Choice::Charge => {},
    }
}

/// At the end of a round, before the loss of life is told of, the history grows by exactly the texts
/// that are streamed, in their order.
pub proof fn law_aftermath_is_told(f: Fight)
    ensures
        battle::aftermath(f) matches Some(g) ==> tells_on(g.log, f.log),
{
    broadcast use group_tells_on;

    reveal(battle::aftermath);
    lemma_weather(f.weather, f.a.fighter(), f.b.fighter(), seq![], f.log);
    match weather::weather_ended(f.weather, f.a.fighter(), f.b.fighter(), f.log) {
        None => {},
        Some((w, a1, b1, l1)) => {
            lemma_status(a1, b1, seq![], l1);
            match status::round_ended(a1, b1, l1) {
                None => {},
                Some((a2, b2, l2)) => {
                    lemma_status(b2, a2, seq![], l2);
                },
            }
        },
    }
}

/// A reply adds to the history at most, and streams nothing.
pub proof fn law_reply_is_told(f: Fight, reply: Option<Seq<char>>, table: Map<Seq<char>, Patch>)
    ensures
        goes_on(battle::replied(f, reply, table).log, f.log),
        battle::replied(f, reply, table).log.deltas == f.log.deltas,
{
    broadcast use group_goes_on;

    reveal(battle::both_decided);
    reveal(battle::turn_begun);
}

/// An action only adds to the log.
pub proof fn law_act_is_told(
    f: Fight,
    table: Map<Seq<char>, Patch>,
    leave_seed: u64,
    gain_seed: u64,
)
    ensures
        battle::acted(f, table, leave_seed, gain_seed) matches Some(g) ==> goes_on(g.log, f.log),
{
    broadcast use group_goes_on;

    match f.stage {
        battle::Stage::Act(plans) => {
            lemma_carried_out(f, plans, table, leave_seed, gain_seed);
            match battle::carried_out(f, plans, table, leave_seed, gain_seed) {
                None => {},
                Some(g) => {
                    lemma_close(g, plans);
                    assert(goes_on(
                        battle::turn_begun(g, Plans { second: true, ..plans }).log,
                        g.log,
                    )) by {
                        reveal(battle::turn_begun);
                    }
                    match battle::round_closed(g, plans) {
                        None => {},
                        Some(h) => {
                            assert(goes_on(battle::round_opened(h).log, h.log)) by {
                                reveal(battle::round_opened);
                            }
                        },
                    }
                },
            }
        },
        _ => {},
    }
}

proof fn lemma_carried_out(
    f: Fight,
    plans: Plans,
    table: Map<Seq<char>, Patch>,
    leave_seed: u64,
    gain_seed: u64,
)
    ensures
        battle::carried_out(f, plans, table, leave_seed, gain_seed) matches Some(g) ==> tells_on(
            g.log,
            f.log,
        ),
{
    reveal(battle::carried_out);
    let side = plans.mover();
    law_turn_is_told(
        side,
        plans.move_of(),
        f.camp(side),
        f.camp(side.opponent()),
        table,
        f.weather,
        leave_seed,
        gain_seed,
        f.log,
    );
}

proof fn lemma_close(f: Fight, plans: Plans)
    ensures
        battle::round_closed(f, plans) matches Some(g) ==> goes_on(g.log, f.log),
{
    broadcast use group_goes_on;

    reveal(battle::round_closed);
    law_aftermath_is_told(f);
}

} // verus!
