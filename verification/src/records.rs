//! What a battle puts on record and tells its sides, told by what goes in and what comes out.

use vstd::prelude::*;
use crate::battle;
use crate::battle::{Fight, Plans};
use crate::camp;
use crate::camp::Camp;
use crate::course;
use crate::effects;
use crate::field;
use crate::history;
use crate::log::Log;
use crate::number;
use crate::outcomes;
use crate::pet::{Choice, Pet, Side, WeatherState};
use crate::pet_battle_patch::{ElementSkillBanks, Patch};
use crate::prompt;
use crate::reading;
use crate::replay;
use crate::report;
use crate::report::Lying;
use crate::stats;
use crate::status;
use crate::text;

verus! {

// The record of a round.

proof fn lemma_standing(team: Seq<Pet>)
    ensures
        report::standing(team) == team.filter(|p: Pet| p.cur_hp > 0).map_values(|p: Pet| p.name),
    decreases team.len(),
{
    reveal(Seq::filter);
    let stands = |p: Pet| p.cur_hp > 0;
    let name = |p: Pet| p.name;
    if team.len() == 0 {
        assert(team.filter(stands).map_values(name) =~= Seq::<Seq<char>>::empty());
    } else {
        lemma_standing(team.drop_last());
        let front = team.drop_last().filter(stands);
        assert(front.push(team.last()).map_values(name) =~= front.map_values(name).push(
            team.last().name,
        ));
    }
}

/// The text of a decision: the skill behind its word, the pet behind its word, or the word for
/// charging.
pub open spec fn written(choice: Choice, t: Seq<char>) -> bool {
    match choice {
        Choice::UseSkill(name) => t == "SKILL:"@ + name,
        Choice::Switch(name) => t == "SWITCH:"@ + name,
        Choice::Charge => t == "CHARGE"@,
    }
}

/// Whether a list of what lies on a fighter says all that lies on it and nothing else.
pub open spec fn says_all(list: Seq<Lying>, p: Pet) -> bool {
    &&& p.poison_layers > 0 ==> list.contains(Lying { name: "中毒"@, layers: p.poison_layers })
    &&& p.burn_layers > 0 ==> list.contains(Lying { name: "灼烧"@, layers: p.burn_layers })
    &&& p.freeze_layers > 0 ==> list.contains(Lying { name: "冻结"@, layers: p.freeze_layers })
    &&& p.parasitic_layers > 0 ==> list.contains(Lying { name: "寄生"@, layers: p.parasitic_layers })
    &&& forall|k: int|
        0 <= k < list.len() ==> (#[trigger] list[k]).layers > 0 && {
            ||| list[k].name == "中毒"@ && list[k].layers == p.poison_layers
            ||| list[k].name == "灼烧"@ && list[k].layers == p.burn_layers
            ||| list[k].name == "冻结"@ && list[k].layers == p.freeze_layers
            ||| list[k].name == "寄生"@ && list[k].layers == p.parasitic_layers
        }
}

proof fn lemma_lying(p: Pet)
    ensures
        says_all(report::lying_on(p), p),
{
    let none: Seq<Lying> = seq![];
    let x1 = report::with_lying(none, "中毒"@, p.poison_layers);
    let x2 = report::with_lying(x1, "灼烧"@, p.burn_layers);
    let x3 = report::with_lying(x2, "冻结"@, p.freeze_layers);
    let x4 = report::with_lying(x3, "寄生"@, p.parasitic_layers);
    assert(x4 == report::lying_on(p));
    if p.poison_layers > 0 {
        assert(x4[0] == Lying { name: "中毒"@, layers: p.poison_layers });
    }
    if p.burn_layers > 0 {
        assert(x4[x1.len() as int] == Lying { name: "灼烧"@, layers: p.burn_layers });
    }
    if p.freeze_layers > 0 {
        assert(x4[x2.len() as int] == Lying { name: "冻结"@, layers: p.freeze_layers });
    }
    if p.parasitic_layers > 0 {
        assert(x4[x3.len() as int] == Lying { name: "寄生"@, layers: p.parasitic_layers });
    }
}

/// The record of a round: its number, who acted first, what each side decided, how each fighter
/// stood before and stands now, what life each side has left and who of it stands, and what lies on
/// the fighters. What is said of a side is what holds of that side.
pub proof fn law_round_on_record(f: Fight, plans: Plans)
    ensures
        battle::round_closed(f, plans) matches Some(g) ==> g.rounds.len() == f.rounds.len() + 1 && {
            let r = g.rounds.last();
            let (a, b) = (g.a.fighter(), g.b.fighter());
            &&& r.round == f.round
            &&& r.round_label == "回合"@ + number::int_text(f.round)
            &&& r.acting_order == (if plans.a_first {
                "A_then_B"@
            } else {
                "B_then_A"@
            })
            &&& written(plans.a, r.decision_a) && written(plans.b, r.decision_b)
            &&& r.active_a == a.name && r.active_b == b.name
            &&& r.hp_a_max == a.hp && r.hp_b_max == b.hp
            &&& r.energy_a_max == a.energy_cap && r.energy_b_max == b.energy_cap
            &&& r.hp_a_before == f.opening.hp_a && r.hp_b_before == f.opening.hp_b
            &&& r.energy_a_before == f.opening.energy_a && r.energy_b_before == f.opening.energy_b
            &&& r.hp_a_after == a.cur_hp && r.hp_b_after == b.cur_hp
            &&& r.energy_a_after == a.energy && r.energy_b_after == b.energy
            &&& r.life_a_after == g.a.life && r.life_b_after == g.b.life
            &&& r.alive_a == g.a.team.filter(|p: Pet| p.cur_hp > 0).map_values(|p: Pet| p.name)
            &&& r.alive_b == g.b.team.filter(|p: Pet| p.cur_hp > 0).map_values(|p: Pet| p.name)
            &&& r.status_effects.len() == 2
            &&& r.status_effects[0].side == "A"@ && r.status_effects[0].pet == a.name
            &&& r.status_effects[1].side == "B"@ && r.status_effects[1].pet == b.name
            &&& says_all(r.status_effects[0].effects, a)
            &&& says_all(r.status_effects[1].effects, b)
        },
{
    reveal(battle::round_closed);
    reveal(battle::aftermath);
    if let Some(g) = battle::round_closed(f, plans) {
        lemma_standing(g.a.team);
        lemma_standing(g.b.team);
        lemma_lying(g.a.fighter());
        lemma_lying(g.b.fighter());
    }
}

proof fn lemma_first_alive(team: Seq<Pet>, from: int)
    requires
        0 <= from,
    ensures
        camp::alive_from(team, from) matches Some(i) ==> from <= i < team.len()
            && team[i].cur_hp > 0
            && forall|j: int| from <= j < i ==> (#[trigger] team[j]).cur_hp <= 0,
    decreases team.len() - from,
{
    if from < team.len() {
        lemma_first_alive(team, from + 1);
    }
}

/// Whether a side has come to the next round as it was, its fighter the same as long as it stands,
/// else the first pet of its team that does.
pub open spec fn goes_on(c: Camp, d: Camp) -> bool {
    &&& d == (Camp { active: d.active, ..c })
    &&& d.fielded() && d.fighter().cur_hp > 0
    &&& c.fielded() && c.fighter().cur_hp > 0 ==> d.active == c.active
    &&& !(c.fielded() && c.fighter().cur_hp > 0) ==> forall|j: int|
        0 <= j < d.active ==> (#[trigger] c.team[j]).cur_hp <= 0
}

/// A round that begins is told of by its number, and what is on record of its beginning is how the
/// fighters stand.
pub proof fn law_round_begins(f: Fight)
    requires
        f.a.wf() && f.b.wf(),
        battle::round_opened(f).stage !is Over,
        forall|i: int| 0 <= i < f.a.team.len() ==> number::fits((#[trigger] f.a.team[i]).cur_hp)
            && number::fits(f.a.team[i].energy),
        forall|i: int| 0 <= i < f.b.team.len() ==> number::fits((#[trigger] f.b.team[i]).cur_hp)
            && number::fits(f.b.team[i].energy),
        f.log.history.len() + 100 <= usize::MAX,
        0 <= f.round <= 200,
    ensures
        ({
            let g = battle::round_opened(f);
            &&& g.stage is AskA
            &&& g.round == f.round + 1
            &&& g.log.history == f.log.history + "\n【回合 "@ + number::int_text(f.round + 1)
                + "】\n"@
            &&& g.log.deltas == f.log.deltas.push(
                "\n【回合 "@ + number::int_text(f.round + 1) + "】\n"@,
            )
            &&& goes_on(f.a, g.a) && goes_on(f.b, g.b)
            &&& g.opening.hp_a == g.a.fighter().cur_hp && g.opening.hp_b == g.b.fighter().cur_hp
            &&& g.opening.energy_a == g.a.fighter().energy
            &&& g.opening.energy_b == g.b.fighter().energy
            &&& g.weather == f.weather && g.rounds == f.rounds
        }),
{
    reveal(battle::round_opened);
    lemma_first_alive(f.a.team, 0);
    lemma_first_alive(f.b.team, 0);
    let g = battle::round_opened(f);
    assert(number::fits(g.a.team[g.a.active].cur_hp));
    assert(number::fits(g.b.team[g.b.active].cur_hp));
    assert(g.log.history =~= f.log.history + "\n【回合 "@ + number::int_text(f.round + 1) + "】\n"@);
}

proof fn lemma_untried(side: Side, team: Seq<Pet>, table: Map<Seq<char>, Patch>, log: Log)
    requires
        team.len() > 0 && team[0].wf() && team[0].cur_hp > 0 && team[0].freeze_layers == 0,
    ensures
        battle::fielded_camp(side, team, table, log) matches Some((c, _)) ==> untried(c, team),
{
    reveal(field::entered);
    let p = team[0];
    let part = stats::hp_part(p.hp, 5);
    assert(part * number::greater(p.freeze_layers, 0) == 0) by (nonlinear_arith)
        requires
            number::greater(p.freeze_layers, 0) == 0,
    ;
    assert(status::locked(p) matches Some(q) && q.cur_hp == p.cur_hp && q.name == p.name);
}

/// A battle begins in its first round, with four points of life, no marks and no counts on either
/// side and no weather. The first pets fight, both fresh on the field; nobody else has changed.
pub proof fn law_battle_begins(a: Seq<Pet>, b: Seq<Pet>, table: Map<Seq<char>, Patch>)
    requires
        a.len() > 0 && a[0].wf() && a[0].cur_hp > 0 && a[0].freeze_layers == 0,
        b.len() > 0 && b[0].wf() && b[0].cur_hp > 0 && b[0].freeze_layers == 0,
    ensures
        battle::begun(a, b, table) matches Some(f) ==> {
            &&& f.stage is AskA
            &&& f.round == 1
            &&& f.weather is None
            &&& f.rounds.len() == 0
            &&& !f.a_told && !f.b_told
            &&& untried(f.a, a) && untried(f.b, b)
        },
{
    reveal(battle::round_opened);
    lemma_untried(Side::A, a, table, battle::welcome());
    if let Some((_, l)) = battle::fielded_camp(Side::A, a, table, battle::welcome()) {
        lemma_untried(Side::B, b, table, l);
    }
}

/// Two teams can always begin a battle, as long as no patch stands for their first pets.
pub proof fn law_battles_can_begin(a: Seq<Pet>, b: Seq<Pet>, table: Map<Seq<char>, Patch>)
    requires
        a.len() > 0 && a[0].wf() && a[0].freeze_layers == 0,
        b.len() > 0 && b[0].wf() && b[0].freeze_layers == 0,
        !table.contains_key(a[0].name),
        !table.contains_key(b[0].name),
    ensures
        battle::begun(a, b, table) is Some,
{
    lemma_can_begin(Side::A, a, table, battle::welcome());
    if let Some((_, l)) = battle::fielded_camp(Side::A, a, table, battle::welcome()) {
        lemma_can_begin(Side::B, b, table, l);
    }
}

proof fn lemma_can_begin(side: Side, team: Seq<Pet>, table: Map<Seq<char>, Patch>, log: Log)
    requires
        team.len() > 0 && team[0].freeze_layers == 0,
        !table.contains_key(team[0].name),
    ensures
        battle::fielded_camp(side, team, table, log) is Some,
{
    let p = team[0];
    let part = stats::hp_part(p.hp, 5);
    assert(part * number::greater(p.freeze_layers, 0) == 0) by (nonlinear_arith)
        requires
            number::greater(p.freeze_layers, 0) == 0,
    ;
    outcomes::law_pets_can_enter(
        side,
        p,
        None,
        None,
        table,
        0,
        ElementSkillBanks { ice: 0, fire: 0, earth: 0 },
        log,
    );
}

/// Whether a side is as it is at the beginning of a battle.
pub open spec fn untried(c: Camp, team: Seq<Pet>) -> bool {
    &&& c.life == 4
    &&& c.active == 0
    &&& c.negative is None && c.positive is None
    &&& c.bank == 0
    &&& c.banks == (ElementSkillBanks { ice: 0, fire: 0, earth: 0 })
    &&& c.dedication.power_bonus_times == 0 && c.dedication.poison_bonus_times == 0
    &&& c.dedication.lifesteal_bonus_times == 0 && c.dedication.combo_bonus_times == 0
    &&& c.dedication.cost_reduction_times == 0
    &&& c.team.len() == team.len()
    &&& forall|i: int| 1 <= i < team.len() ==> #[trigger] c.team[i] == team[i]
    &&& c.team[0].entry_leave_immune
    &&& c.team[0].name == team[0].name && c.team[0].cur_hp == team[0].cur_hp
}

// The teams on record.

/// Each pet on record stands there under its own name and values, with its skills in their order.
pub proof fn law_teams_on_record(team: Seq<Pet>, k: int, j: int)
    requires
        0 <= k < team.len(),
        0 <= j < team[k].skills.len(),
    ensures
        ({
            let s = report::shown_team(team);
            let (q, p) = (s[k], team[k]);
            let (v, w) = (q.skills[j], p.skills[j]);
            &&& s.len() == team.len()
            &&& q.name == p.name && q.level == p.level && q.ability == p.ability
            &&& q.element == p.element1 && q.element2 == p.element2
            &&& q.hp_max == p.hp && q.energy_max == p.energy_cap && q.speed == p.speed
            &&& q.patk == p.patk && q.pdef == p.pdef && q.matk == p.matk && q.mdef == p.mdef
            &&& q.skills.len() == p.skills.len()
            &&& v.name == w.name && v.element == w.element && v.category == w.category
            &&& v.cost == w.cost && v.power == w.power
        }),
{
}

// Events.

/// What kind of event a line tells of, by the words in it; an earlier kind goes before a later one.
pub proof fn law_kinds_of_events(line: Seq<char>)
    ensures
        ({
            let k = replay::kind_of(line);
            let charge = text::has(line, "进入蓄力状态"@);
            let energy = text::has(line, "使用 [回能]"@) || (text::has(line, "回复"@) && text::has(
                line,
                "点能量"@,
            ));
            let damage = text::has(line, "造成 "@) && text::has(line, "伤害"@);
            let effect = text::has(line, "施加状态/效果"@);
            let layers = text::has(line, "获得 "@) && text::has(line, "层"@);
            let ticks = text::has(line, "结算伤害"@);
            let faint = text::has(line, "倒下"@);
            let switch = text::has(line, "选择换宠"@) || text::has(line, "上场"@);
            &&& charge ==> k == "CHARGE_START"@
            &&& !charge && energy ==> k == "ENERGY_CHANGE"@
            &&& !charge && !energy && damage ==> k == "DAMAGE"@
            &&& !charge && !energy && !damage && effect ==> k == "APPLY_EFFECT"@
            &&& !charge && !energy && !damage && !effect && layers ==> k == "STATUS_APPLY"@
            &&& !charge && !energy && !damage && !effect && !layers && ticks ==> k == "STATUS_TICK"@
            &&& !charge && !energy && !damage && !effect && !layers && !ticks && faint ==> k
                == "FAINT"@
            &&& !charge && !energy && !damage && !effect && !layers && !ticks && !faint && switch
                ==> k == "SWITCH"@
            &&& !charge && !energy && !damage && !effect && !layers && !ticks && !faint && !switch
                ==> k == "TEXT"@
        }),
{
}

/// The side that a line speaks of is the source of its event, side A where it speaks of both; the
/// other side is the target.
pub proof fn law_sides_of_events(line: Seq<char>)
    ensures
        ({
            let e = replay::frame_of(line);
            &&& e.text == line
            &&& text::has(line, "A方"@) ==> e.source == Some("A"@) && e.target_side == Some("B"@)
            &&& !text::has(line, "A方"@) && text::has(line, "B方"@) ==> e.source == Some("B"@)
                && e.target_side == Some("A"@)
            &&& !text::has(line, "A方"@) && !text::has(line, "B方"@) ==> e.source is None
                && e.target_side is None
        }),
{
    reveal_strlit("A");
    reveal_strlit("B");
    assert("A"@ != "B"@) by {
        assert("A"@[0] != "B"@[0]);
    }
}

/// The animation of an event: that of its skill for a hit, an effect or a charge, one of their own
/// for exchanges of pets and for falls, and none for anything else.
pub proof fn law_animations(line: Seq<char>)
    ensures
        ({
            let e = replay::frame_of(line);
            let k = e.event_type;
            let skilled = k == "DAMAGE"@ || k == "APPLY_EFFECT"@ || k == "CHARGE_START"@;
            &&& skilled ==> (match e.skill {
                Some(name) => e.anim_id == Some("skill:"@ + name),
                None => e.anim_id is None,
            })
            &&& k == "SWITCH"@ ==> e.anim_id == Some("switch:default"@)
            &&& k == "FAINT"@ ==> e.anim_id == Some("faint:default"@)
            &&& k == "ENERGY_CHANGE"@ || k == "STATUS_APPLY"@ || k == "STATUS_TICK"@ || k == "TEXT"@
                ==> e.anim_id is None
        }),
{
    reveal_strlit("DAMAGE");
    reveal_strlit("APPLY_EFFECT");
    reveal_strlit("CHARGE_START");
    reveal_strlit("SWITCH");
    reveal_strlit("FAINT");
    reveal_strlit("ENERGY_CHANGE");
    reveal_strlit("STATUS_APPLY");
    reveal_strlit("STATUS_TICK");
    reveal_strlit("TEXT");
    assert("SWITCH"@[0] == 'S' && "FAINT"@[0] == 'F' && "TEXT"@[0] == 'T');
    assert("SWITCH"@[1] == 'W' && "STATUS_APPLY"@[1] == 'T' && "STATUS_TICK"@[1] == 'T');
    assert("DAMAGE"@[0] == 'D' && "APPLY_EFFECT"@[0] == 'A' && "CHARGE_START"@[0] == 'C');
    assert("ENERGY_CHANGE"@[0] == 'E' && "STATUS_APPLY"@[0] == 'S' && "STATUS_TICK"@[0] == 'S');
}

// The end.

/// While each side has life left and a pet that stands, a battle goes on through two hundred rounds
/// and no further.
pub proof fn law_two_hundred_rounds(f: Fight)
    requires
        f.a.life > 0 && f.b.life > 0,
        exists|i: int| 0 <= i < f.a.team.len() && (#[trigger] f.a.team[i]).cur_hp > 0,
        exists|i: int| 0 <= i < f.b.team.len() && (#[trigger] f.b.team[i]).cur_hp > 0,
    ensures
        battle::round_opened(f).stage is Over <==> f.round >= 200,
        f.round < 200 ==> battle::round_opened(f).round == f.round + 1,
{
    reveal(battle::round_opened);
    course::law_manned(f.a);
    course::law_manned(f.b);
}

/// The side with more life wins; where that is even, the one with more health in all; where that is
/// even too, the one with more energy in all; else side A.
pub proof fn law_winner(a_life: int, b_life: int, a: Seq<Pet>, b: Seq<Pet>)
    requires
        number::fits(report::total_hp(a)) && number::fits(report::total_hp(b)),
        number::fits(report::total_energy(a)) && number::fits(report::total_energy(b)),
    ensures
        ({
            let w = report::winner(a_life, b_life, a, b);
            let (x, y) = (report::total_hp(a), report::total_hp(b));
            let (u, v) = (report::total_energy(a), report::total_energy(b));
            &&& w == Some(Side::A) || w == Some(Side::B)
            &&& a_life > b_life ==> w == Some(Side::A)
            &&& a_life < b_life ==> w == Some(Side::B)
            &&& a_life == b_life && x > y ==> w == Some(Side::A)
            &&& a_life == b_life && x < y ==> w == Some(Side::B)
            &&& a_life == b_life && x == y && u >= v ==> w == Some(Side::A)
            &&& a_life == b_life && x == y && u < v ==> w == Some(Side::B)
        }),
{
}

/// One more pet adds its health and its energy to those of its team.
pub proof fn law_totals(team: Seq<Pet>, p: Pet)
    requires
        p.wf(),
    ensures
        report::total_hp(team.push(p)) == report::total_hp(team) + p.cur_hp,
        report::total_energy(team.push(p)) == report::total_energy(team) + p.energy,
        report::total_hp(seq![]) == 0,
        report::total_energy(seq![]) == 0,
{
    assert(team.push(p).drop_last() =~= team);
}

// What a side is told.

/// Whether a text stands in another.
proof fn lemma_within(a: Seq<char>, pat: Seq<char>, b: Seq<char>, t: Seq<char>)
    requires
        t == a + pat + b,
    ensures
        text::has(t, pat),
{
    reading::lemma_has_within(a, pat, b);
}

broadcast proof fn lemma_has_front(t: Seq<char>, u: Seq<char>, pat: Seq<char>)
    requires
        text::has(t, pat),
    ensures
        #[trigger] text::has(t + u, pat),
{
    let i = choose|i: int| text::occurs_at(t, pat, i);
    assert((t + u).subrange(i, i + pat.len()) =~= t.subrange(i, i + pat.len()));
    assert(text::occurs_at(t + u, pat, i));
}

proof fn lemma_has_trans(t: Seq<char>, u: Seq<char>, pat: Seq<char>)
    requires
        text::has(t, u),
        text::has(u, pat),
    ensures
        text::has(t, pat),
{
    let i = choose|i: int| text::occurs_at(t, u, i);
    let j = choose|j: int| text::occurs_at(u, pat, j);
    assert(t.subrange(i + j, i + j + pat.len()) =~= u.subrange(j, j + pat.len()));
    assert(text::occurs_at(t, pat, i + j));
}

proof fn lemma_part_of_joined(parts: Seq<Seq<char>>, sep: Seq<char>, k: int)
    requires
        0 <= k < parts.len(),
    ensures
        text::has(text::joined(parts, sep), parts[k]),
    decreases parts.len(),
{
    let e: Seq<char> = seq![];
    let whole = text::joined(parts, sep);
    if parts.len() == 1 {
        assert(whole =~= e + parts[0] + e);
        lemma_within(e, parts[0], e, whole);
    } else if k == parts.len() - 1 {
        assert(whole =~= (text::joined(parts.drop_last(), sep) + sep) + parts[k] + e);
        lemma_within(text::joined(parts.drop_last(), sep) + sep, parts[k], e, whole);
    } else {
        let front = text::joined(parts.drop_last(), sep);
        lemma_part_of_joined(parts.drop_last(), sep, k);
        assert(whole =~= e + front + (sep + parts.last()));
        lemma_within(e, front, sep + parts.last(), whole);
        lemma_has_trans(whole, front, parts[k]);
    }
}

proof fn lemma_offered_skill(p: Pet, sky: Option<WeatherState>, n: int, i: int) -> (k: int)
    requires
        0 <= i < n,
        prompt::affords(p, sky, i),
    ensures
        0 <= k < prompt::skill_actions(p, sky, n).len(),
        prompt::skill_actions(p, sky, n)[k] == "SKILL:"@ + p.skills[i].name,
    decreases n,
{
    if i == n - 1 {
        prompt::skill_actions(p, sky, n - 1).len() as int
    } else {
        lemma_offered_skill(p, sky, n - 1, i)
    }
}

proof fn lemma_refused_skill(p: Pet, sky: Option<WeatherState>, n: int, i: int) -> (k: int)
    requires
        0 <= i < n,
        !prompt::affords(p, sky, i),
    ensures
        0 <= k < prompt::blocked_names(p, sky, n).len(),
        prompt::blocked_names(p, sky, n)[k] == p.skills[i].name,
    decreases n,
{
    if i == n - 1 {
        prompt::blocked_names(p, sky, n - 1).len() as int
    } else {
        lemma_refused_skill(p, sky, n - 1, i)
    }
}

proof fn lemma_offered_pet(team: Seq<Pet>, active: int, from: int, i: int) -> (k: int)
    requires
        0 <= from <= i < team.len() <= usize::MAX,
        i != active && team[i].cur_hp > 0,
    ensures
        0 <= k < camp::reserves_from(team, active, from).len(),
        camp::reserves_from(team, active, from)[k] == i,
    decreases i - from,
{
    if from == i {
        0
    } else {
        let k = lemma_offered_pet(team, active, from + 1, i);
        if camp::is_reserve(team, active, from) {
            k + 1
        } else {
            k
        }
    }
}

proof fn lemma_parts_told(f: Fight, side: Side)
    ensures
        ({
            let t = battle::told(f, side);
            let (own, opp) = (f.camp(side), f.camp(side.opponent()));
            let p = own.fighter();
            &&& text::has(t, prompt::address_text(side))
            &&& text::has(t, prompt::snapshot_text(p, opp.fighter(), f.weather, f.round))
            &&& text::has(t, prompt::marks_text(battle::marks_of(own), battle::marks_of(opp)))
            &&& text::has(t, prompt::team_text(own.team, own.active, f.weather, f.round))
            &&& text::has(t, history::intel(side, f.log.history))
            &&& text::has(t, history::compact(f.log.history, 5, 8))
            &&& text::has(
                t,
                history::named_or_none(
                    prompt::blocked_names(p, f.weather, p.skills.len() as int),
                    "，"@,
                ),
            )
            &&& text::has(
                t,
                text::joined(prompt::legal_actions(own.team, own.active, f.weather), " | "@),
            )
        }),
{
    reveal(prompt::prompt_text);
    let (own, opp) = (f.camp(side), f.camp(side.opponent()));
    let p = own.fighter();
    let n = p.skills.len() as int;
    let log = f.log.history;
    let parts = seq![
        prompt::address_text(side),
        "### 状态快照 ###"@,
        prompt::snapshot_text(p, opp.fighter(), f.weather, f.round),
        "### 敌方情报摘要 ###"@,
        prompt::marks_text(battle::marks_of(own), battle::marks_of(opp)),
        prompt::team_text(own.team, own.active, f.weather, f.round),
        history::intel(side, log),
        "### 可用技能 ###"@,
        prompt::usable_text(p, f.weather),
        "### 不可用技能 ###"@,
        history::named_or_none(prompt::blocked_names(p, f.weather, n), "，"@),
        "### 可切换精灵 ###"@,
        history::named_or_none(prompt::reserve_names(own.team, own.active), ", "@),
        "### 最近动态 ###"@,
        history::compact(log, 5, 8),
        "### 合法动作 ###"@,
        text::joined(prompt::legal_actions(own.team, own.active, f.weather), " | "@),
    ];
    assert(battle::told(f, side) == text::joined(parts, "\n"@));
    lemma_part_of_joined(parts, "\n"@, 0);
    lemma_part_of_joined(parts, "\n"@, 2);
    lemma_part_of_joined(parts, "\n"@, 4);
    lemma_part_of_joined(parts, "\n"@, 5);
    lemma_part_of_joined(parts, "\n"@, 6);
    lemma_part_of_joined(parts, "\n"@, 10);
    lemma_part_of_joined(parts, "\n"@, 14);
    lemma_part_of_joined(parts, "\n"@, 16);
}

/// A mark as it is told: its name and its layers, or the word for none.
pub open spec fn mark_told(name: Option<Seq<char>>, layers: int) -> Seq<char> {
    match name {
        Some(name) => name + "x"@ + number::int_text(layers),
        None => "无"@,
    }
}

/// The mark that hurts a side, as it is told.
pub open spec fn hurt_told(c: Camp) -> Seq<char> {
    match c.negative {
        None => mark_told(None, 0),
        Some(m) => if m.kind is Thorn {
            mark_told(Some("棘刺"@), m.layers as int)
        } else {
            mark_told(Some("降灵"@), m.layers as int)
        },
    }
}

/// The mark that helps a side, as it is told.
pub open spec fn help_told(c: Camp) -> Seq<char> {
    match c.positive {
        None => mark_told(None, 0),
        Some(m) => if m.kind is Charge {
            mark_told(Some("蓄电"@), m.layers as int)
        } else {
            mark_told(Some("光合"@), m.layers as int)
        },
    }
}

/// A side is told which side it is, in which round, which fighter is its own and which is the
/// enemy's, and which marks lie on its own side and which on the enemy's.
pub proof fn law_side_is_told_who_fights(f: Fight, side: Side)
    ensures
        ({
            let t = battle::told(f, side);
            let (own, opp) = (f.camp(side), f.camp(side.opponent()));
            &&& text::has(
                t,
                (if side == Side::A {
                    "你是A方决策AI。"@
                } else {
                    "你是B方决策AI。"@
                }),
            )
            &&& text::has(t, "R"@ + number::int_text(f.round) + " | 天气:"@)
            &&& text::has(t, "\n我方: "@ + own.fighter().name + "("@)
            &&& text::has(t, "\n敌方: "@ + opp.fighter().name + "("@)
            &&& text::has(
                t,
                "- 我方印记: 负面="@ + hurt_told(own) + " 正面="@ + help_told(own) + "\n"@,
            )
            &&& text::has(
                t,
                "- 敌方印记(可见): 负面="@ + hurt_told(opp) + " 正面="@ + help_told(opp),
            )
        }),
{
    lemma_parts_told(f, side);
    let t = battle::told(f, side);
    let (own, opp) = (f.camp(side), f.camp(side.opponent()));
    let (p, q) = (own.fighter(), opp.fighter());
    let e: Seq<char> = seq![];
    let addr = prompt::address_text(side);
    lemma_address(side);
    lemma_has_trans(
        t,
        addr,
        if side == Side::A {
            "你是A方决策AI。"@
        } else {
            "你是B方决策AI。"@
        },
    );
    let snap = prompt::snapshot_text(p, q, f.weather, f.round);
    lemma_snapshot(p, q, f.weather, f.round);
    lemma_has_trans(t, snap, "R"@ + number::int_text(f.round) + " | 天气:"@);
    lemma_has_trans(t, snap, "\n我方: "@ + p.name + "("@);
    lemma_has_trans(t, snap, "\n敌方: "@ + q.name + "("@);
    let marks = prompt::marks_text(battle::marks_of(own), battle::marks_of(opp));
    lemma_marks_told(own, opp);
    lemma_has_trans(
        t,
        marks,
        "- 我方印记: 负面="@ + hurt_told(own) + " 正面="@ + help_told(own) + "\n"@,
    );
    lemma_has_trans(
        t,
        marks,
        "- 敌方印记(可见): 负面="@ + hurt_told(opp) + " 正面="@ + help_told(opp),
    );
}

proof fn lemma_address(side: Side)
    ensures
        text::has(
            prompt::address_text(side),
            (if side == Side::A {
                "你是A方决策AI。"@
            } else {
                "你是B方决策AI。"@
            }),
        ),
{
    reveal_strlit("你是");
    reveal_strlit("A");
    reveal_strlit("B");
    reveal_strlit("方决策AI。每回合仅输出一行合法动作：SKILL:技能名 / SWITCH:精灵名 / CHARGE。");
    reveal_strlit("你是A方决策AI。");
    reveal_strlit("你是B方决策AI。");
    let t = prompt::address_text(side);
    if side == Side::A {
        assert(t.subrange(0, 9) =~= "你是A方决策AI。"@);
        assert(text::occurs_at(t, "你是A方决策AI。"@, 0));
    } else {
        assert(t.subrange(0, 9) =~= "你是B方决策AI。"@);
        assert(text::occurs_at(t, "你是B方决策AI。"@, 0));
    }
}

proof fn lemma_snapshot(p: Pet, q: Pet, sky: Option<WeatherState>, round: int)
    ensures
        ({
            let t = prompt::snapshot_text(p, q, sky, round);
            &&& text::has(t, "R"@ + number::int_text(round) + " | 天气:"@)
            &&& text::has(t, "\n我方: "@ + p.name + "("@)
            &&& text::has(t, "\n敌方: "@ + q.name + "("@)
        }),
{
    broadcast use lemma_has_front;

    reveal_strlit("]\n敌方: ");
    reveal_strlit("\n敌方: ");
    let e: Seq<char> = seq![];
    let x1 = "R"@ + number::int_text(round) + " | 天气:"@;
    let x2 = "\n我方: "@ + p.name + "("@;
    let x3 = "\n敌方: "@ + q.name + "("@;
    let y1 = x1 + prompt::weather_text(sky);
    let y2 = y1 + "\n我方: "@ + p.name + "("@;
    let y3 = y2 + prompt::element_text(p) + ") "@ + number::int_text(p.cur_hp) + "/"@
        + number::int_text(p.hp) + "("@ + number::int_text(stats::hp_hundredths(p)) + "%) EN:"@
        + number::int_text(p.energy) + " SPD:"@ + number::int_text(p.speed) + " [特性:"@
        + prompt::trimmed_or_none(p.ability);
    let y4 = y3 + "]\n敌方: "@ + q.name + "("@;
    lemma_within(e, x1, e, x1);
    assert(x1 =~= e + x1 + e);
    assert(y2 =~= y1 + x2 + e);
    lemma_within(y1, x2, e, y2);
    lemma_behind(y3, q.name);
    assert(text::has(y4, x1));
    assert(text::has(y4, x2));
}

proof fn lemma_behind(y: Seq<char>, name: Seq<char>)
    ensures
        text::has(y + "]\n敌方: "@ + name + "("@, "\n敌方: "@ + name + "("@),
{
    reveal_strlit("]\n敌方: ");
    reveal_strlit("\n敌方: ");
    let e: Seq<char> = seq![];
    let x = "\n敌方: "@ + name + "("@;
    let t = y + "]\n敌方: "@ + name + "("@;
    assert("]\n敌方: "@ =~= seq![']'] + "\n敌方: "@);
    assert(t =~= y.push(']') + x + e);
    lemma_within(y.push(']'), x, e, t);
}

proof fn lemma_marks_told(own: Camp, opp: Camp)
    ensures
        ({
            let t = prompt::marks_text(battle::marks_of(own), battle::marks_of(opp));
            &&& text::has(
                t,
                "- 我方印记: 负面="@ + hurt_told(own) + " 正面="@ + help_told(own) + "\n"@,
            )
            &&& text::has(
                t,
                "- 敌方印记(可见): 负面="@ + hurt_told(opp) + " 正面="@ + help_told(opp),
            )
        }),
{
    reveal_strlit("\n- 敌方印记(可见): 负面=");
    reveal_strlit("- 敌方印记(可见): 负面=");
    reveal_strlit("\n");
    let e: Seq<char> = seq![];
    let t = prompt::marks_text(battle::marks_of(own), battle::marks_of(opp));
    let x = "- 我方印记: 负面="@ + hurt_told(own) + " 正面="@ + help_told(own) + "\n"@;
    let y = "- 敌方印记(可见): 负面="@ + hurt_told(opp) + " 正面="@ + help_told(opp);
    assert("\n- 敌方印记(可见): 负面="@ =~= "\n"@ + "- 敌方印记(可见): 负面="@);
    assert(t =~= e + x + y);
    lemma_within(e, x, y, t);
    assert(t =~= x + y + e);
    lemma_within(x, y, e, t);
}

/// A side is told of all that it may do: each skill that its fighter has the energy for, each pet
/// behind the fighter that stands, and charging; and which skills it has not the energy for.
pub proof fn law_side_is_told_what_it_may_do(f: Fight, side: Side, i: int, j: int)
    requires
        f.camp(side).team.len() <= usize::MAX,
        0 <= i < f.camp(side).fighter().skills.len(),
        0 <= j < f.camp(side).team.len(),
    ensures
        ({
            let t = battle::told(f, side);
            let own = f.camp(side);
            let p = own.fighter();
            &&& text::has(t, "CHARGE"@)
            &&& p.energy >= effects::cost_in(p.skills[i], f.weather) ==> text::has(
                t,
                "SKILL:"@ + p.skills[i].name,
            )
            &&& p.energy < effects::cost_in(p.skills[i], f.weather) ==> text::has(
                t,
                p.skills[i].name,
            )
            &&& j != own.active && own.team[j].cur_hp > 0 ==> text::has(
                t,
                "SWITCH:"@ + own.team[j].name,
            )
        }),
{
    lemma_parts_told(f, side);
    let t = battle::told(f, side);
    let own = f.camp(side);
    let p = own.fighter();
    let n = p.skills.len() as int;
    let legal = prompt::legal_actions(own.team, own.active, f.weather);
    let skills = prompt::skill_actions(p, f.weather, n);
    let names = prompt::reserve_names(own.team, own.active);
    lemma_part_of_joined(legal, " | "@, legal.len() - 1);
    lemma_has_trans(t, text::joined(legal, " | "@), "CHARGE"@);
    if prompt::affords(p, f.weather, i) {
        let k = lemma_offered_skill(p, f.weather, n, i);
        assert(legal[k] == skills[k]);
        lemma_part_of_joined(legal, " | "@, k);
        lemma_has_trans(t, text::joined(legal, " | "@), legal[k]);
    } else {
        let k = lemma_refused_skill(p, f.weather, n, i);
        let blocked = prompt::blocked_names(p, f.weather, n);
        lemma_part_of_joined(blocked, "，"@, k);
        lemma_has_trans(t, text::joined(blocked, "，"@), blocked[k]);
    }
    if j != own.active && own.team[j].cur_hp > 0 {
        let k = lemma_offered_pet(own.team, own.active, 0, j);
        assert(names[k] == own.team[j].name);
        assert(prompt::prefixed("SWITCH:"@, names)[k] == "SWITCH:"@ + own.team[j].name);
        assert(legal[skills.len() + k] == "SWITCH:"@ + own.team[j].name);
        lemma_part_of_joined(legal, " | "@, skills.len() + k);
        lemma_has_trans(t, text::joined(legal, " | "@), legal[skills.len() + k]);
    }
}

proof fn lemma_bench(team: Seq<Pet>, active: int, n: int, j: int) -> (k: int)
    requires
        0 <= j < n,
        j != active,
    ensures
        0 <= k < prompt::bench_lines(team, active, n).len(),
        prompt::bench_lines(team, active, n)[k] == prompt::bench_line(team[j], (k + 1) as nat),
    decreases n,
{
    if j == n - 1 {
        prompt::bench_lines(team, active, n - 1).len() as int
    } else {
        lemma_bench(team, active, n - 1, j)
    }
}

proof fn lemma_bench_line(p: Pet, n: nat)
    ensures
        text::has(prompt::bench_line(p, n), ". "@ + p.name + "("@),
{
    broadcast use lemma_has_front;

    let e: Seq<char> = seq![];
    let x = ". "@ + p.name + "("@;
    let y = number::nat_text(n) + ". "@ + p.name + "("@;
    assert(y =~= number::nat_text(n) + x + e);
    lemma_within(number::nat_text(n), x, e, y);
}

proof fn lemma_member_line(team: Seq<Pet>, active: int, sky: Option<WeatherState>, i: int)
    ensures
        text::has(prompt::member_line(team, active, sky, i), ": "@ + team[i].name + " ["@),
{
    broadcast use lemma_has_front;

    let e: Seq<char> = seq![];
    let x = ": "@ + team[i].name + " ["@;
    let front = "- "@ + (if i == active {
        "*"@
    } else {
        ""@
    }) + number::nat_text((i + 1) as nat);
    let y = front + ": "@ + team[i].name + " ["@;
    assert(y =~= front + x + e);
    lemma_within(front, x, e, y);
}

/// A side is told of all its pets in the first round, and of those behind the fighter later on; of
/// what it has seen of its enemy; and of what happened in the last five rounds, in eight lines at
/// most.
pub proof fn law_side_is_told_of_its_team(f: Fight, side: Side, j: int)
    requires
        0 <= j < f.camp(side).team.len(),
    ensures
        ({
            let t = battle::told(f, side);
            let own = f.camp(side);
            &&& f.round <= 1 ==> text::has(t, ": "@ + own.team[j].name + " ["@)
            &&& f.round > 1 && j != own.active ==> text::has(t, ". "@ + own.team[j].name + "("@)
            &&& text::has(t, history::intel(side, f.log.history))
            &&& text::has(t, history::compact(f.log.history, 5, 8))
        }),
{
    lemma_parts_told(f, side);
    let t = battle::told(f, side);
    let own = f.camp(side);
    let e: Seq<char> = seq![];
    let part = prompt::team_text(own.team, own.active, f.weather, f.round);
    if f.round <= 1 {
        let lines = prompt::team_lines(own.team, own.active, f.weather);
        let x = ": "@ + own.team[j].name + " ["@;
        lemma_part_of_joined(lines, "\n"@, j);
        assert(lines[j] == prompt::member_line(own.team, own.active, f.weather, j));
        lemma_member_line(own.team, own.active, f.weather, j);
        lemma_has_trans(text::joined(lines, "\n"@), lines[j], x);
        let head = "### 我方全队完整情报(仅R1提供) ###\n"@;
        assert(part =~= head + text::joined(lines, "\n"@) + e);
        lemma_within(head, text::joined(lines, "\n"@), e, part);
        lemma_has_trans(part, text::joined(lines, "\n"@), x);
        lemma_has_trans(t, part, x);
    } else if j != own.active {
        let lines = prompt::bench_lines(own.team, own.active, own.team.len() as int);
        let x = ". "@ + own.team[j].name + "("@;
        let k = lemma_bench(own.team, own.active, own.team.len() as int, j);
        lemma_part_of_joined(lines, "\n"@, k);
        lemma_bench_line(own.team[j], (k + 1) as nat);
        lemma_has_trans(text::joined(lines, "\n"@), lines[k], x);
        let head = "### 后备选择 ###\n"@;
        assert(part =~= head + text::joined(lines, "\n"@) + e);
        lemma_within(head, text::joined(lines, "\n"@), e, part);
        lemma_has_trans(part, text::joined(lines, "\n"@), x);
        lemma_has_trans(t, part, x);
    }
}

proof fn lemma_shown(
    lines: Seq<Seq<char>>,
    mark: Seq<char>,
    i: int,
    pets: Seq<Seq<char>>,
    skills: Seq<Seq<char>>,
)
    requires
        0 <= i,
        skills.no_duplicates(),
        forall|x: Seq<char>| #[trigger]
            skills.contains(x) ==> exists|k: int| #[trigger] shows(lines, mark, k, x),
    ensures
        ({
            let seen = history::shown_from(lines, mark, i, pets, skills).1;
            &&& seen.no_duplicates()
            &&& forall|x: Seq<char>| #[trigger] skills.contains(x) ==> seen.contains(x)
            &&& forall|k: int, x: Seq<char>|
                i <= k && #[trigger] shows(lines, mark, k, x) ==> seen.contains(x)
            &&& forall|x: Seq<char>| #[trigger]
                seen.contains(x) ==> exists|k: int| #[trigger] shows(lines, mark, k, x)
        }),
    decreases lines.len() - i,
{
    if i < lines.len() {
        let name = history::used_in(lines[i]);
        if !mark.is_prefix_of(lines[i]) {
            lemma_shown(lines, mark, i + 1, pets, skills);
        } else {
            let more = history::noted(skills, name);
            assert forall|x: Seq<char>| #[trigger] more.contains(x) implies exists|k: int|
                #[trigger] shows(lines, mark, k, x) by {
                if !skills.contains(x) {
                    assert(x == name);
                    assert(shows(lines, mark, i, x));
                }
            }
            assert forall|x: Seq<char>| #[trigger] skills.contains(x) implies more.contains(x) by {
                let k = choose|k: int| 0 <= k < skills.len() && skills[k] == x;
                assert(more[k] == x);
            }
            if name.len() > 0 && !skills.contains(name) {
                assert(more[skills.len() as int] == name);
            }
            assert(name.len() > 0 ==> more.contains(name));
            lemma_shown(lines, mark, i + 1, history::noted(pets, history::entered_in(lines[i])), more);
        }
    }
}

/// Whether line number `k` is one of the side with that mark and tells of a use of the skill `x`.
pub open spec fn shows(lines: Seq<Seq<char>>, mark: Seq<char>, k: int, x: Seq<char>) -> bool {
    &&& 0 <= k < lines.len()
    &&& mark.is_prefix_of(lines[k])
    &&& x.len() > 0
    &&& history::used_in(lines[k]) == x
}

/// What the lines of the enemy of a side begin with.
pub open spec fn enemy_mark(side: Side) -> Seq<char> {
    if side == Side::A {
        "B方"@
    } else {
        "A方"@
    }
}

/// Of the skills of its enemy a side knows those, and only those, that lines of the enemy tell of,
/// each once.
pub proof fn law_skills_of_the_enemy(side: Side, log: Seq<char>, x: Seq<char>)
    ensures
        ({
            let lines = text::lines_of(log);
            let seen = history::shown_from(
                lines,
                history::side_mark(side.opponent()),
                0,
                seq![],
                seq![],
            ).1;
            &&& seen.no_duplicates()
            &&& seen.contains(x) <==> exists|k: int| #[trigger]
                shows(lines, enemy_mark(side), k, x)
            &&& seen.contains(x) ==> text::has(history::intel(side, log), x)
        }),
{
    let mark = history::side_mark(side.opponent());
    let lines = text::lines_of(log);
    assert(mark == enemy_mark(side));
    lemma_shown(lines, mark, 0, seq![], seq![]);
    let (pets, seen) = history::shown_from(lines, mark, 0, seq![], seq![]);
    if seen.contains(x) {
        let k = choose|k: int| 0 <= k < seen.len() && seen[k] == x;
        lemma_part_of_joined(seen, "，"@, k);
        let e: Seq<char> = seq![];
        let t = history::intel(side, log);
        let front = "- 敌方已出战精灵: "@ + history::named_or_none(pets, "，"@)
            + "\n- 敌方已展示技能: "@;
        assert(t =~= front + text::joined(seen, "，"@) + e);
        lemma_within(front, text::joined(seen, "，"@), e, t);
        lemma_has_trans(t, text::joined(seen, "，"@), x);
    }
}

/// The events on record are the lines that were told in the round, blank ones aside, in their order.
pub proof fn law_events_on_record(f: Fight, plans: Plans)
    ensures
        battle::round_closed(f, plans) matches Some(g) ==> g.log.history.len() > f.opening.log_start
            ==> {
            let lines = text::trimmed_parts(
                text::lines_of(
                    g.log.history.subrange(
                        f.opening.log_start as int,
                        g.log.history.len() as int,
                    ),
                ),
            );
            let events = g.rounds.last().events;
            &&& events.len() == lines.len()
            &&& forall|k: int|
                0 <= k < lines.len() ==> (#[trigger] events[k]).text == lines[k]
                    && events[k].event_type == replay::kind_of(lines[k])
        },
{
    reveal(battle::round_closed);
    reveal(battle::aftermath);
    if let Some(g) = battle::round_closed(f, plans) {
        if g.log.history.len() > f.opening.log_start {
            assert(g.log.history.skip(f.opening.log_start as int) =~= g.log.history.subrange(
                f.opening.log_start as int,
                g.log.history.len() as int,
            ));
        }
    }
}

} // verus!
