//! The course of a battle: what every step keeps, and why the battle ends.

use vstd::prelude::*;
use crate::battle;
use crate::battle::{AiBattleSetupMode, Fight, MAX_ROUNDS, Plans, Stage, Wish};
use crate::camp;
use crate::camp::Camp;
use crate::decide;
use crate::laws;
use crate::pet::{PVP_DEFAULT_LEVEL, Pet, Side};
use crate::pet_battle_patch;
use crate::pet_battle_patch::Patch;
use crate::prompt;
use crate::random;
use crate::stats;
use crate::team;
use crate::team::{Built, Entry, Species};

verus! {

// Every battle ends.

/// How many steps of a round are yet to come, at most.
pub open spec fn steps_of_round(stage: Stage) -> int {
    match stage {
        Stage::AskA => 6,
        Stage::AskB(_) => 5,
        Stage::AskAgain(plans) => if plans.second {
            2
        } else {
            4
        },
        Stage::Act(plans) => if plans.second {
            1
        } else {
            3
        },
        Stage::Over => 0,
    }
}

/// How many steps of the battle are yet to come, at most.
pub open spec fn steps_left(f: Fight) -> int {
    match f.stage {
        Stage::Over => 0,
        _ => (MAX_ROUNDS - f.round) * 6 + steps_of_round(f.stage),
    }
}

/// Each reply brings the battle closer to its end.
pub proof fn law_reply_is_progress(f: Fight, reply: Option<Seq<char>>, table: Map<Seq<char>, Patch>)
    requires
        f.stage is AskA || f.stage is AskB || f.stage is AskAgain,
    ensures
        steps_left(battle::replied(f, reply, table)) < steps_left(f),
        battle::replied(f, reply, table).round == f.round,
{
    reveal(battle::both_decided);
    reveal(battle::turn_begun);
}

/// Each action brings the battle closer to its end.
pub proof fn law_act_is_progress(
    f: Fight,
    table: Map<Seq<char>, Patch>,
    leave_seed: u64,
    gain_seed: u64,
)
    requires
        f.stage is Act,
        f.round <= MAX_ROUNDS,
    ensures
        battle::acted(f, table, leave_seed, gain_seed) matches Some(g) ==> steps_left(g)
            < steps_left(f),
{
    reveal(battle::carried_out);
    reveal(battle::turn_begun);
    reveal(battle::round_closed);
    reveal(battle::aftermath);
    reveal(battle::round_opened);
}

/// A battle has at most six steps for each round.
pub proof fn law_battle_is_bounded(a: Seq<Pet>, b: Seq<Pet>, table: Map<Seq<char>, Patch>)
    ensures
        battle::begun(a, b, table) matches Some(f) ==> steps_left(f) <= 6 * MAX_ROUNDS,
{
    reveal(battle::round_opened);
}

/// A battle is over once a side has no life left, once the last round has been fought, or once no
/// pet of a side stands; and not before.
pub proof fn law_end(f: Fight)
    ensures
        battle::round_opened(f).stage is Over <==> {
            ||| f.a.life <= 0
            ||| f.b.life <= 0
            ||| f.round >= MAX_ROUNDS
            ||| battle::manned(f.a) is None
            ||| battle::manned(f.b) is None
        },
{
    reveal(battle::round_opened);
}

proof fn lemma_none_alive(team: Seq<Pet>, from: int)
    requires
        0 <= from,
    ensures
        camp::alive_from(team, from) is None <==> forall|i: int|
            from <= i < team.len() ==> !(#[trigger] team[i]).alive(),
        camp::alive_from(team, from) matches Some(i) ==> from <= i < team.len() && team[i].alive(),
    decreases team.len() - from,
{
    if from < team.len() {
        lemma_none_alive(team, from + 1);
    }
}

/// A side has nobody to fight exactly where none of its pets stands; else a pet that stands
/// fights.
pub proof fn law_manned(c: Camp)
    ensures
        battle::manned(c) is None <==> forall|i: int|
            0 <= i < c.team.len() ==> !(#[trigger] c.team[i]).alive(),
        battle::manned(c) matches Some(d) ==> d.fielded() && d.fighter().alive() && d.team
            == c.team,
{
    lemma_none_alive(c.team, 0);
}

// One turn for each side.

/// In a round a side acts once. After the first turn the other side is next, if the round goes on;
/// after the second the round is put on record.
pub proof fn law_one_turn_each(
    f: Fight,
    table: Map<Seq<char>, Patch>,
    leave_seed: u64,
    gain_seed: u64,
    plans: Plans,
)
    requires
        f.stage == Stage::Act(plans),
    ensures
        battle::acted(f, table, leave_seed, gain_seed) matches Some(g) ==> {
            &&& g.rounds.len() == f.rounds.len() ==> {
                let next = Plans { second: true, ..plans };
                &&& !plans.second
                &&& g.round == f.round
                &&& g.stage == Stage::Act(next) || g.stage == Stage::AskAgain(next)
                &&& next.mover() == plans.mover().opponent()
            }
            &&& g.rounds.len() != f.rounds.len() ==> g.rounds.len() == f.rounds.len() + 1 && (
            g.stage is AskA || g.stage is Over)
        },
{
    reveal(battle::carried_out);
    reveal(battle::turn_begun);
    reveal(battle::round_closed);
    reveal(battle::aftermath);
    reveal(battle::round_opened);
}

// What is carried out is legal.

/// Whether what is about to be carried out is legal.
pub open spec fn lawful(f: Fight) -> bool {
    match f.stage {
        Stage::Act(plans) => {
            let own = f.camp(plans.mover());
            decide::invalid_reason(own.team, own.active, plans.move_of(), f.weather) is None
        },
        _ => true,
    }
}

/// Whether of each pet of a team skills of one name share element and cost.
pub open spec fn clear_team(team: Seq<Pet>) -> bool {
    &&& team.len() <= usize::MAX
    &&& forall|i: int| 0 <= i < team.len() ==> laws::unambiguous(#[trigger] team[i])
}

/// Whether a battle is held to the rules: what is about to be carried out is legal, and skills of
/// one name share element and cost.
pub open spec fn held(f: Fight) -> bool {
    lawful(f) && clear_team(f.a.team) && clear_team(f.b.team)
}

/// The same pets have the same skills.
pub proof fn lemma_clear_team(team: Seq<Pet>, before: Seq<Pet>)
    requires
        camp::same_pets(team, before),
        clear_team(before),
    ensures
        clear_team(team),
{
    assert forall|i: int| 0 <= i < team.len() implies laws::unambiguous(#[trigger] team[i]) by {
        assert(team[i].same_being(before[i]));
        assert(laws::unambiguous(before[i]));
    }
}

/// Whatever the sides reply, only what is legal comes to be carried out.
pub proof fn law_replies_are_held_to_rules(
    f: Fight,
    reply: Option<Seq<char>>,
    table: Map<Seq<char>, Patch>,
)
    requires
        f.wf(),
        held(f),
    ensures
        lawful(battle::replied(f, reply, table)),
{
    reveal(battle::both_decided);
    reveal(battle::turn_begun);
    match f.stage {
        Stage::AskAgain(plans) => {
            let own = f.camp(plans.mover());
            assert(laws::unambiguous(own.team[own.active]));
            laws::law_redecided_is_legal(
                own.team,
                own.active,
                plans.move_of(),
                reply,
                f.weather,
            );
        },
        _ => {},
    }
}

/// What the second side wants to do is tried anew once the first has acted: only what is legal
/// then comes to be carried out.
pub proof fn law_turns_are_held_to_rules(
    f: Fight,
    table: Map<Seq<char>, Patch>,
    leave_seed: u64,
    gain_seed: u64,
)
    requires
        lawful(f),
    ensures
        battle::acted(f, table, leave_seed, gain_seed) matches Some(g) ==> lawful(g),
{
    reveal(battle::turn_begun);
    reveal(battle::round_opened);
}

/// A battle that has just begun carries nothing out.
pub proof fn law_beginning_is_lawful(a: Seq<Pet>, b: Seq<Pet>, table: Map<Seq<char>, Patch>)
    ensures
        battle::begun(a, b, table) matches Some(f) ==> lawful(f) && (f.stage is AskA || f.stage
            is Over),
{
    reveal(battle::round_opened);
}

// The record.

/// Whether the rounds on record are those that have been fought, each under its number.
pub open spec fn booked(f: Fight) -> bool {
    &&& f.rounds.len() == (if f.stage is Over {
        f.round
    } else {
        f.round - 1
    })
    &&& forall|k: int| 0 <= k < f.rounds.len() ==> (#[trigger] f.rounds[k]).round == k + 1
}

/// At the beginning no round is on record.
pub proof fn law_record_begins_empty(a: Seq<Pet>, b: Seq<Pet>, table: Map<Seq<char>, Patch>)
    ensures
        battle::begun(a, b, table) matches Some(f) ==> booked(f) && f.rounds.len() == 0,
{
    reveal(battle::round_opened);
}

/// A reply leaves the record as it is.
pub proof fn law_replies_are_not_recorded(
    f: Fight,
    reply: Option<Seq<char>>,
    table: Map<Seq<char>, Patch>,
)
    requires
        booked(f),
    ensures
        booked(battle::replied(f, reply, table)),
        battle::replied(f, reply, table).rounds == f.rounds,
{
    reveal(battle::both_decided);
    reveal(battle::turn_begun);
}

/// The record holds each round that has been fought, under its number, and keeps what it holds.
pub proof fn law_rounds_are_recorded(
    f: Fight,
    table: Map<Seq<char>, Patch>,
    leave_seed: u64,
    gain_seed: u64,
)
    requires
        booked(f),
    ensures
        battle::acted(f, table, leave_seed, gain_seed) matches Some(g) ==> booked(g)
            && f.rounds.is_prefix_of(g.rounds),
{
    reveal(battle::carried_out);
    reveal(battle::turn_begun);
    reveal(battle::round_closed);
    reveal(battle::aftermath);
    reveal(battle::round_opened);
}

// What the sides are told.

/// A side is told the rules when it is asked for the first time, and only then.
pub proof fn law_rules_are_told_once(
    f: Fight,
    reply: Option<Seq<char>>,
    table: Map<Seq<char>, Patch>,
    leave_seed: u64,
    gain_seed: u64,
)
    ensures
        battle::wished(f) matches Wish::Ask { side, with_rules, .. } ==> {
            &&& with_rules ==> !(if side == Side::A {
                f.a_told
            } else {
                f.b_told
            })
            &&& f.stage !is AskAgain ==> {
                let g = battle::replied(f, reply, table);
                if side == Side::A {
                    g.a_told
                } else {
                    g.b_told
                }
            }
        },
        f.a_told ==> battle::replied(f, reply, table).a_told,
        f.b_told ==> battle::replied(f, reply, table).b_told,
        battle::acted(f, table, leave_seed, gain_seed) matches Some(g) ==> g.a_told == f.a_told
            && g.b_told == f.b_told,
{
    reveal(battle::both_decided);
    reveal(battle::carried_out);
    reveal(battle::turn_begun);
    reveal(battle::round_closed);
    reveal(battle::aftermath);
    reveal(battle::round_opened);
}

/// Whether two pets look alike to the other side: the same name and elements, the same energy,
/// and as much of their health left, in hundredths.
pub open spec fn look_alike(p: Pet, q: Pet) -> bool {
    &&& p.name == q.name
    &&& p.element1 == q.element1
    &&& p.element2 == q.element2
    &&& p.energy == q.energy
    &&& stats::hp_hundredths(p) == stats::hp_hundredths(q)
}

/// Of its enemy a side is told nothing but how its fighter looks, its marks, and what the log
/// says: neither nature nor training nor skills, nor who waits behind the fighter.
pub proof fn law_secrecy(f: Fight, g: Fight, side: Side)
    requires
        f.camp(side) == g.camp(side),
        f.weather == g.weather,
        f.log.history == g.log.history,
        f.round == g.round,
        look_alike(f.camp(side.opponent()).fighter(), g.camp(side.opponent()).fighter()),
        f.camp(side.opponent()).negative == g.camp(side.opponent()).negative,
        f.camp(side.opponent()).positive == g.camp(side.opponent()).positive,
    ensures
        battle::told(f, side) == battle::told(g, side),
{
    reveal(prompt::prompt_text);
    let (p, q) = (f.camp(side.opponent()).fighter(), g.camp(side.opponent()).fighter());
    assert(prompt::snapshot_text(f.camp(side).fighter(), p, f.weather, f.round)
        == prompt::snapshot_text(f.camp(side).fighter(), q, f.weather, f.round));
}

// Life.

/// Only a side whose fighter has fallen loses life at the end of a round, one point of it.
pub proof fn law_life(f: Fight, plans: Plans)
    ensures
        battle::round_closed(f, plans) matches Some(g) ==> {
            &&& g.a.life == (if g.a.fighter().alive() {
                f.a.life
            } else {
                f.a.life - 1
            })
            &&& g.b.life == (if g.b.fighter().alive() {
                f.b.life
            } else {
                f.b.life - 1
            })
        },
{
    reveal(battle::round_closed);
    reveal(battle::aftermath);
}

// The teams.

/// What holds of every pet of a team that was made ready, before its patch.
proof fn lemma_fresh(sp: Species, nature: Seq<char>, skills: Seq<Seq<char>>, seed: u64)
    ensures
        ({
            let p = team::fresh(sp, nature, skills, team::trained(seed).0);
            &&& laws::unambiguous(p)
            &&& p.level == PVP_DEFAULT_LEVEL
            &&& p.cur_hp == p.hp
            &&& p.skills.len() == skills.len()
        }),
{
    let p = team::fresh(sp, nature, skills, team::trained(seed).0);
    assert forall|i: int, j: int|
        0 <= i < p.skills.len() && 0 <= j < p.skills.len() && (#[trigger] p.skills[i]).name == (
        #[trigger] p.skills[j]).name implies p.skills[i] == p.skills[j] by {
        assert(p.skills[i] == team::skill_of(sp.details, skills[i]));
        assert(p.skills[j] == team::skill_of(sp.details, skills[j]));
    }
}

proof fn lemma_built_from(
    entries: Seq<Entry>,
    i: int,
    ready: Seq<Pet>,
    index: Map<Seq<char>, Species>,
    side: Side,
    patches: Map<Seq<char>, Patch>,
    seed: u64,
)
    requires
        0 <= i <= entries.len(),
        ready.len() == i,
        forall|k: int|
            0 <= k < i ==> laws::unambiguous(#[trigger] ready[k]) && ready[k].level
                == PVP_DEFAULT_LEVEL && ready[k].cur_hp == ready[k].hp,
    ensures
        team::built_from(entries, i, ready, index, side, patches, seed) matches Built::Team(ps)
            ==> {
            &&& ps.len() == entries.len()
            &&& forall|k: int|
                0 <= k < ps.len() ==> laws::unambiguous(#[trigger] ps[k]) && ps[k].level
                    == PVP_DEFAULT_LEVEL && ps[k].cur_hp == ps[k].hp
        },
    decreases entries.len() - i,
{
    if i < entries.len() && index.contains_key(entries[i].pet) {
        let (effort, rest) = team::trained(seed);
        let p = team::fresh(index[entries[i].pet], entries[i].nature, entries[i].skills, effort);
        lemma_fresh(index[entries[i].pet], entries[i].nature, entries[i].skills, seed);
        if team::stats_fit(p) {
            let q = team::patched(p, pet_battle_patch::patch_of(patches, p.name));
            assert(q.skills == p.skills);
            lemma_built_from(entries, i + 1, ready.push(q), index, side, patches, rest);
        }
    }
}

/// Every pet of a team that was made ready fights at the level of all, starts with all its health,
/// and has skills that share element and cost where they share their name.
pub proof fn law_built_team(
    entries: Seq<Entry>,
    index: Map<Seq<char>, Species>,
    side: Side,
    patches: Map<Seq<char>, Patch>,
    clock: u64,
)
    ensures
        team::built(entries, index, side, patches, clock) matches Built::Team(ps) ==> {
            &&& ps.len() == entries.len()
            &&& forall|k: int|
                0 <= k < ps.len() ==> laws::unambiguous(#[trigger] ps[k]) && ps[k].level
                    == PVP_DEFAULT_LEVEL && ps[k].cur_hp == ps[k].hp
        },
{
    lemma_built_from(entries, 0, seq![], index, side, patches, team::side_seed(side, clock));
}

proof fn lemma_rich_pool(pool: Seq<Species>, n: int, done: Seq<Entry>, seed: u64)
    requires
        pool.len() > 0,
        forall|i: int| 0 <= i < pool.len() ==> (#[trigger] pool[i]).skills.len() >= 4,
        n >= 0,
    ensures
        team::drafted_team(pool, n, done, seed).0.len() == done.len() + n,
    decreases n,
{
    if n > 0 {
        reveal(team::drafted);
        let (picked, rest) = team::drafted(pool, 64, seed);
        let k = random::drawn(seed, pool.len() as int);
        assert(0 <= k < pool.len());
        assert(pool[k].skills.len() >= 4);
        assert(picked is Some);
        lemma_rich_pool(pool, n - 1, done.push(picked->0), rest);
    }
}

/// Where every pet of the pool has four skills at least, two teams can always be drawn from it.
pub proof fn law_rich_pool(pool: Seq<Species>, raw_a: Seq<char>, raw_b: Seq<char>, clock: u64)
    requires
        pool.len() > 0,
        forall|i: int| 0 <= i < pool.len() ==> (#[trigger] pool[i]).skills.len() >= 4,
    ensures
        battle::chosen_teams(AiBattleSetupMode::Random, pool, raw_a, raw_b, clock) is Ok,
{
    lemma_rich_pool(pool, 6, seq![], clock);
    let rest = team::drafted_team(pool, 6, seq![], clock).1;
    lemma_rich_pool(pool, 6, seq![], rest);
}

/// Teams that are drawn at random have six pets of the pool each, and each pet four of its skills,
/// from four different places.
pub proof fn law_random_teams(pool: Seq<Species>, raw_a: Seq<char>, raw_b: Seq<char>, clock: u64)
    requires
        pool.len() > 0,
        forall|i: int| 0 <= i < pool.len() ==> (#[trigger] pool[i]).skills.len() <= usize::MAX,
    ensures
        battle::chosen_teams(AiBattleSetupMode::Random, pool, raw_a, raw_b, clock) matches Ok((a, b))
            ==> {
            &&& a.len() == 6
            &&& b.len() == 6
            &&& forall|i: int| 0 <= i < 6 ==> team::draft_ok(pool, #[trigger] a[i])
            &&& forall|i: int| 0 <= i < 6 ==> team::draft_ok(pool, #[trigger] b[i])
        },
{
    let (da, rest) = team::drafted_team(pool, 6, seq![], clock);
    let db = team::drafted_team(pool, 6, seq![], rest).0;
    team::lemma_drafted_team(pool, 6, seq![], clock);
    team::lemma_drafted_team(pool, 6, seq![], rest);
    assert forall|i: int| 0 <= i < da.len() implies team::draft_ok(pool, #[trigger] da[i]) by {
        assert(team::draft_ok(pool, team::drafted_team(pool, 6, seq![], clock).0[i]));
    }
    assert forall|i: int| 0 <= i < db.len() implies team::draft_ok(pool, #[trigger] db[i]) by {
        assert(team::draft_ok(pool, team::drafted_team(pool, 6, seq![], rest).0[i]));
    }
}

} // verus!
