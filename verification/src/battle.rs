//! A battle, round by round: who is asked, what is carried out, and how it ends.

use vstd::prelude::*;
use crate::action;
use crate::camp;
use crate::camp::{Camp, SideState};
use crate::course;
use crate::decide;
use crate::field;
use crate::log::{BattleLog, Log};
use crate::number;
use crate::number::{Overflow, push_int};
use crate::pet;
use crate::pet::{
    BattlePet, Choice, Decision, DedicationBuff, PVP_DEFAULT_LEVEL, Pet, Side, WeatherState,
};
use crate::pet_battle_patch;
use crate::pet_battle_patch::{ElementSkillBanks, Patch, PetBattlePatchTable};
use crate::prompt;
use crate::prompt::Marks;
use crate::replay;
use crate::replay::{BattleReport, InitialState, RoundReport};
use crate::report;
use crate::report::Round;
use crate::status;
use crate::team;
use crate::team::{Entry, PetJsonLite, Species, TeamEntry};
use crate::text;
use crate::weather;

verus! {

/// The number of rounds after which a battle ends in any case.
pub const MAX_ROUNDS: i32 = 200;

/// The life that each side starts with: how many of its pets may fall.
pub const START_LIFE: i32 = 4;

/// How the teams of a battle come about.
#[derive(Debug, Clone, Copy, PartialEq, Eq, Structural)]
pub enum AiBattleSetupMode {
    Random,
    Fixed,
}

/// The name of a way to set up a battle.
pub open spec fn setup_text(mode: AiBattleSetupMode) -> Seq<char> {
    match mode {
        AiBattleSetupMode::Random => "Random"@,
        AiBattleSetupMode::Fixed => "Fixed"@,
    }
}

/// The name of a way to set up a battle.
pub fn setup_mode_text(mode: AiBattleSetupMode) -> (r: &'static str)
    ensures
        r@ == setup_text(mode),
{
    match mode {
        AiBattleSetupMode::Random => "Random",
        AiBattleSetupMode::Fixed => "Fixed",
    }
}

/// The teams of a battle: drawn at random, or read from two texts; or the complaint about them.
pub open spec fn chosen_teams(
    mode: AiBattleSetupMode,
    pool: Seq<Species>,
    raw_a: Seq<char>,
    raw_b: Seq<char>,
    clock: u64,
) -> Result<(Seq<Entry>, Seq<Entry>), Seq<char>> {
    match mode {
        AiBattleSetupMode::Random => {
            let (a, rest) = team::drafted_team(pool, 6, seq![], clock);
            let (b, _) = team::drafted_team(pool, 6, seq![], rest);
            if a.len() == 6 && b.len() == 6 {
                Ok((a, b))
            } else {
                Err("随机组队失败，请检查 data/pets 是否存在足够数据"@)
            }
        },
        AiBattleSetupMode::Fixed => match team::parsed_team(raw_a, "AI A"@) {
            Err(m) => Err(m),
            Ok(a) => match team::parsed_team(raw_b, "AI B"@) {
                Err(m) => Err(m),
                Ok(b) => Ok((a, b)),
            },
        },
    }
}

/// The teams of a battle: drawn at random, or read from two texts; or the complaint about them.
pub fn choose_teams(
    mode: AiBattleSetupMode,
    pet_pool: &Vec<PetJsonLite>,
    fixed_team_a_raw: &str,
    fixed_team_b_raw: &str,
    clock: u64,
) -> (r: Result<(Vec<TeamEntry>, Vec<TeamEntry>), String>)
    requires
        pet_pool.len() > 0,
    ensures
        (match r {
            Ok((a, b)) => chosen_teams(
                mode,
                team::species_of(pet_pool@),
                fixed_team_a_raw@,
                fixed_team_b_raw@,
                clock,
            ) == Ok::<_, Seq<char>>((team::entries_of(a@), team::entries_of(b@))) && a.len() == 6
                && b.len() == 6 && (forall|i: int|
                0 <= i < 6 ==> (#[trigger] a@[i])@.skills.len() == 4) && (forall|i: int|
                0 <= i < 6 ==> (#[trigger] b@[i])@.skills.len() == 4),
            Err(m) => chosen_teams(
                mode,
                team::species_of(pet_pool@),
                fixed_team_a_raw@,
                fixed_team_b_raw@,
                clock,
            ) == Err::<(Seq<Entry>, Seq<Entry>), _>(m@),
        }),
{
    match mode {
        AiBattleSetupMode::Random => team::generate_random_teams(pet_pool, clock),
        AiBattleSetupMode::Fixed => {
            let a: Vec<TeamEntry> = match team::parse_fixed_team(fixed_team_a_raw, "AI A") {
                Ok(a) => a,
                Err(m) => {
                    return Err(m);
                },
            };
            match team::parse_fixed_team(fixed_team_b_raw, "AI B") {
                Ok(b) => Ok((a, b)),
                Err(m) => Err(m),
            }
        },
    }
}

/// What both sides want to do in a round, and whose turn it is.
#[derive(Debug)]
pub struct Orders {
    pub a: Decision,
    pub b: Decision,
    /// Whether side A acts first.
    pub a_first: bool,
    /// Whether the side that acts second is to act.
    pub second: bool,
}

/// What the battle waits for.
#[derive(Debug)]
pub enum Phase {
    /// What side A decides.
    AskA,
    /// What side B decides, side A having decided.
    AskB(Decision),
    /// What the side whose turn it is decides instead of what it may not do.
    AskAgain(Orders),
    /// That the side whose turn it is acts.
    Act(Orders),
    /// Nothing: the battle is over.
    Over,
}

/// How things stood when the round began.
#[derive(Debug, Clone, Copy)]
pub struct Opening {
    /// The length of the history.
    pub log_start: usize,
    pub hp_a: i32,
    pub hp_b: i32,
    pub energy_a: i32,
    pub energy_b: i32,
}

/// A battle.
#[derive(Debug)]
pub struct Battle {
    pub a: SideState,
    pub b: SideState,
    pub weather: Option<WeatherState>,
    pub log: BattleLog,
    pub round: i32,
    /// Whether the side has been told the rules.
    pub a_told: bool,
    pub b_told: bool,
    pub opening: Opening,
    pub rounds: Vec<RoundReport>,
    pub phase: Phase,
}

/// What both sides want to do in a round, by its texts.
pub struct Plans {
    pub a: Choice,
    pub b: Choice,
    pub a_first: bool,
    pub second: bool,
}

/// What the battle waits for, by its texts.
pub enum Stage {
    AskA,
    AskB(Choice),
    AskAgain(Plans),
    Act(Plans),
    Over,
}

/// A battle, by its texts and numbers.
#[verifier::ext_equal]
pub struct Fight {
    pub a: Camp,
    pub b: Camp,
    pub weather: Option<WeatherState>,
    pub log: Log,
    pub round: int,
    pub a_told: bool,
    pub b_told: bool,
    pub opening: Opening,
    pub rounds: Seq<Round>,
    pub stage: Stage,
}

impl View for Orders {
    type V = Plans;

    open spec fn view(&self) -> Plans {
        Plans { a: self.a@, b: self.b@, a_first: self.a_first, second: self.second }
    }
}

impl View for Phase {
    type V = Stage;

    open spec fn view(&self) -> Stage {
        match self {
            Phase::AskA => Stage::AskA,
            Phase::AskB(a) => Stage::AskB(a@),
            Phase::AskAgain(o) => Stage::AskAgain(o@),
            Phase::Act(o) => Stage::Act(o@),
            Phase::Over => Stage::Over,
        }
    }
}

impl View for Battle {
    type V = Fight;

    open spec fn view(&self) -> Fight {
        Fight {
            a: self.a@,
            b: self.b@,
            weather: self.weather,
            log: self.log@,
            round: self.round as int,
            a_told: self.a_told,
            b_told: self.b_told,
            opening: self.opening,
            rounds: report::rounds_of(self.rounds@),
            stage: self.phase@,
        }
    }
}

impl Plans {
    /// The side whose turn it is.
    pub open spec fn mover(self) -> Side {
        if self.a_first != self.second {
            Side::A
        } else {
            Side::B
        }
    }

    /// What the side whose turn it is wants to do.
    pub open spec fn move_of(self) -> Choice {
        match self.mover() {
            Side::A => self.a,
            Side::B => self.b,
        }
    }

    /// The plans with another decision of the side whose turn it is.
    pub open spec fn with_move(self, choice: Choice) -> Plans {
        match self.mover() {
            Side::A => Plans { a: choice, ..self },
            Side::B => Plans { b: choice, ..self },
        }
    }
}

impl Orders {
    /// A copy of the orders.
    pub fn copy(&self) -> (r: Orders)
        ensures
            r@ == self@,
    {
        Orders { a: self.a.copy(), b: self.b.copy(), a_first: self.a_first, second: self.second }
    }

    /// The side whose turn it is.
    pub fn mover(&self) -> (r: Side)
        ensures
            r == self@.mover(),
    {
        if self.a_first != self.second {
            Side::A
        } else {
            Side::B
        }
    }

    /// What the side whose turn it is wants to do.
    pub fn decision(&self) -> (r: &Decision)
        ensures
            r@ == self@.move_of(),
    {
        match self.mover() {
            Side::A => &self.a,
            Side::B => &self.b,
        }
    }
}

impl Fight {
    /// What holds of a battle between two rounds: both sides are well formed, and neither the
    /// number of the round nor the life of a side is out of bounds.
    pub open spec fn sound(self) -> bool {
        &&& self.a.wf()
        &&& self.b.wf()
        &&& weather::weather_wf(self.weather)
        &&& 0 <= self.round <= MAX_ROUNDS
        &&& 0 <= self.a.life <= START_LIFE
        &&& 0 <= self.b.life <= START_LIFE
    }

    /// What holds of a battle at every moment that is seen from outside: it is sound, and while it
    /// goes on each side has life left and a pet that fights.
    pub open spec fn wf(self) -> bool {
        &&& self.sound()
        &&& self.stage !is Over ==> {
            &&& 1 <= self.round
            &&& self.a.life >= 1
            &&& self.b.life >= 1
            &&& self.a.fielded()
            &&& self.b.fielded()
        }
    }

    /// Whether the same pets fight as before, in the same places of their teams.
    pub open spec fn same_pets(self, before: Fight) -> bool {
        camp::same_pets(self.a.team, before.a.team) && camp::same_pets(self.b.team, before.b.team)
    }

    /// The side of that letter.
    pub open spec fn camp(self, side: Side) -> Camp {
        match side {
            Side::A => self.a,
            Side::B => self.b,
        }
    }
}

// The beginning of a round.

/// The side with a pet that stands in the place of one that has fallen, the first of the team;
/// nothing where none stands.
pub open spec fn manned(c: Camp) -> Option<Camp> {
    if c.fielded() && c.fighter().alive() {
        Some(c)
    } else {
        match camp::alive_from(c.team, 0) {
            Some(i) => Some(Camp { active: i, ..c }),
            None => None,
        }
    }
}

/// The header of a round.
pub open spec fn header(round: int) -> Seq<char> {
    "\n【回合 "@ + number::int_text(round) + "】\n"@
}

/// The battle with its next round begun; over where a side has no life left or no pet that
/// stands, or where the last round has been fought.
#[verifier::opaque]
pub open spec fn round_opened(f: Fight) -> Fight {
    if f.round >= MAX_ROUNDS || f.a.life <= 0 || f.b.life <= 0 {
        Fight { stage: Stage::Over, ..f }
    } else {
        match (manned(f.a), manned(f.b)) {
            (Some(a), Some(b)) => {
                let log = f.log.said(header(f.round + 1));
                Fight {
                    a,
                    b,
                    log,
                    round: f.round + 1,
                    opening: Opening {
                        log_start: log.history.len() as usize,
                        hp_a: a.fighter().cur_hp as i32,
                        hp_b: b.fighter().cur_hp as i32,
                        energy_a: a.fighter().energy as i32,
                        energy_b: b.fighter().energy as i32,
                    },
                    stage: Stage::AskA,
                    ..f
                }
            },
            _ => Fight { stage: Stage::Over, ..f },
        }
    }
}

fn fighter_for(side: &SideState) -> (r: Option<usize>)
    ensures
        (match r {
            Some(i) => manned(side@) == Some(Camp { active: i as int, ..side@ }) && i
                < side.team.len() && side.team@[i as int]@.alive(),
            None => manned(side@) is None,
        }),
{
    if side.active < side.team.len() {
        assert(side@.fighter() == side.team@[side.active as int]@);
        if side.team[side.active].cur_hp > 0 {
            return Some(side.active);
        }
    }
    camp::first_alive_index(&side.team)
}

impl Battle {
    /// Begins the next round, or ends the battle.
    fn open_round(&mut self)
        requires
            old(self)@.sound(),
        ensures
            final(self)@ == round_opened(old(self)@),
            final(self)@.wf(),
            final(self)@.same_pets(old(self)@),
    {
        reveal(round_opened);
        if self.round >= MAX_ROUNDS || self.a.life <= 0 || self.b.life <= 0 {
            self.phase = Phase::Over;
            return ;
        }
        match (fighter_for(&self.a), fighter_for(&self.b)) {
            (Some(i), Some(j)) => {
                self.a.active = i;
                self.b.active = j;
                self.round = self.round + 1;
                let mut m: String = "\n【回合 ".to_owned();
                push_int(&mut m, self.round);
                m.append("】\n");
                self.log.say(m);
                assert(self.a@.fighter() == self.a.team@[i as int]@);
                assert(self.b@.fighter() == self.b.team@[j as int]@);
                self.opening = Opening {
                    log_start: self.log.history.as_str().unicode_len(),
                    hp_a: self.a.team[i].cur_hp,
                    hp_b: self.b.team[j].cur_hp,
                    energy_a: self.a.team[i].energy,
                    energy_b: self.b.team[j].energy,
                };
                self.phase = Phase::AskA;
            },
            _ => {
                self.phase = Phase::Over;
            },
        }
    }
}

// Decisions.

/// The battle with the turn of a side begun: what it wants to do is carried out next, or, where
/// it may not do that, it is asked again.
#[verifier::opaque]
pub open spec fn turn_begun(f: Fight, plans: Plans) -> Fight {
    let own = f.camp(plans.mover());
    match decide::invalid_reason(own.team, own.active, plans.move_of(), f.weather) {
        None => Fight { stage: Stage::Act(plans), ..f },
        Some(reason) => Fight {
            log: f.log.noted(
                plans.mover().letter() + "方 "@ + own.fighter().name + " 的行动非法（"@ + reason
                    + "），触发重新决策。\n"@,
            ),
            stage: Stage::AskAgain(plans),
            ..f
        },
    }
}

/// The side with a successful counter counted, if it alone has countered and its fighter does not
/// settle that count itself.
pub open spec fn counted(c: Camp, countered: bool, table: Map<Seq<char>, Patch>) -> Camp {
    if countered && !pet_battle_patch::settles_counters(table, c.fighter().name) {
        Camp { bank: number::lesser(c.bank + 1, i32::MAX as int), ..c }
    } else {
        c
    }
}

/// The battle with the decisions of both sides taken: each is held to a charged skill, successful
/// counters are counted, and the first turn begins.
#[verifier::opaque]
pub open spec fn both_decided(
    f: Fight,
    a_choice: Choice,
    b_choice: Choice,
    table: Map<Seq<char>, Patch>,
) -> Fight {
    let (a, b) = (f.a.fighter(), f.b.fighter());
    let ac = decide::held_to_charge(a, a_choice);
    let bc = decide::held_to_charge(b, b_choice);
    let a_counters = decide::counters(a, ac, bc, b);
    let b_counters = decide::counters(b, bc, ac, a);
    turn_begun(
        Fight {
            a: counted(f.a, a_counters && !b_counters, table),
            b: counted(f.b, b_counters && !a_counters, table),
            ..f
        },
        Plans { a: ac, b: bc, a_first: decide::a_first(a, ac, b, bc), second: false },
    )
}

/// The battle after the side that is asked has replied, or has not.
pub open spec fn replied(f: Fight, reply: Option<Seq<char>>, table: Map<Seq<char>, Patch>) -> Fight {
    match f.stage {
        Stage::AskA => Fight {
            a_told: true,
            stage: Stage::AskB(decide::first_decision(reply, f.a.fighter())),
            ..f
        },
        Stage::AskB(a_choice) => both_decided(
            Fight { b_told: true, ..f },
            a_choice,
            decide::first_decision(reply, f.b.fighter()),
            table,
        ),
        Stage::AskAgain(plans) => {
            let own = f.camp(plans.mover());
            let choice = decide::redecided(
                own.team,
                own.active,
                plans.move_of(),
                reply,
                f.weather,
            );
            Fight { stage: Stage::Act(plans.with_move(choice)), ..f }
        },
        _ => f,
    }
}

fn count_counter(side: &mut SideState, countered: bool, pet_patches: &PetBattlePatchTable)
    requires
        old(side)@.wf(),
        old(side)@.fielded(),
    ensures
        final(side)@ == counted(old(side)@, countered, pet_patches@),
        final(side)@.follows(old(side)@),
{
    assert(side@.fighter() == side.team@[side.active as int]@);
    if countered && !pet_patches.is_ally_counter_bank_receiver(
        side.team[side.active].name.as_str(),
    ) {
        if side.ally_counter_bank < i32::MAX {
            side.ally_counter_bank = side.ally_counter_bank + 1;
        }
    }
}

impl Battle {
    fn begin_turn(&mut self, orders: Orders)
        requires
            old(self)@.wf(),
            old(self)@.stage !is Over,
        ensures
            final(self)@ == turn_begun(old(self)@, orders@),
            final(self)@.wf(),
            final(self)@.same_pets(old(self)@),
    {
        reveal(turn_begun);
        let side: Side = orders.mover();
        let own: &SideState = match side {
            Side::A => &self.a,
            Side::B => &self.b,
        };
        assert(own@ == self@.camp(side));
        assert(own@.fighter() == own.team@[own.active as int]@);
        assert(own@.team[own.active as int].wf());
        match decide::decision_invalid_reason(
            &own.team,
            own.active,
            orders.decision(),
            &self.weather,
        ) {
            None => {
                self.phase = Phase::Act(orders);
            },
            Some(reason) => {
                let mut m: String = side.text().to_owned();
                m.append("方 ");
                m.append(own.team[own.active].name.as_str());
                m.append(" 的行动非法（");
                m.append(reason.as_str());
                m.append("），触发重新决策。\n");
                self.log.note(m);
                self.phase = Phase::AskAgain(orders);
            },
        }
    }

    fn decide_both(
        &mut self,
        a_decision: Decision,
        b_decision: Decision,
        pet_patches: &PetBattlePatchTable,
    )
        requires
            old(self)@.wf(),
            old(self)@.stage !is Over,
        ensures
            final(self)@ == both_decided(
                old(self)@,
                a_decision@,
                b_decision@,
                pet_patches@,
            ),
            final(self)@.wf(),
            final(self)@.same_pets(old(self)@),
    {
        reveal(both_decided);
        let mut ad: Decision = a_decision;
        let mut bd: Decision = b_decision;
        let a: &BattlePet = &self.a.team[self.a.active];
        let b: &BattlePet = &self.b.team[self.b.active];
        assert(a@ == self@.a.fighter());
        assert(b@ == self@.b.fighter());
        decide::enforce_charging_constraint(a, &mut ad);
        decide::enforce_charging_constraint(b, &mut bd);
        let a_counters: bool = decide::counter_triggered(a, &ad, &bd, b);
        let b_counters: bool = decide::counter_triggered(b, &bd, &ad, a);
        let a_first: bool = decide::acts_first(a, &ad, b, &bd);
        count_counter(&mut self.a, a_counters && !b_counters, pet_patches);
        count_counter(&mut self.b, b_counters && !a_counters, pet_patches);
        self.begin_turn(Orders { a: ad, b: bd, a_first, second: false });
    }

    /// Hands in what the side that is asked has replied, or that it has not.
    pub fn reply(&mut self, reply: Option<String>, pet_patches: &PetBattlePatchTable)
        requires
            old(self)@.wf(),
        ensures
            final(self)@ == replied(old(self)@, pet::opt_text(reply), pet_patches@),
            final(self)@.wf(),
            final(self)@.same_pets(old(self)@),
            course::held(old(self)@) ==> course::held(final(self)@),
    {
        proof {
            if course::held(self@) {
                course::law_replies_are_held_to_rules(self@, pet::opt_text(reply), pet_patches@);
            }
        }
        self.take_reply(reply, pet_patches);
        proof {
            if course::held(old(self)@) {
                course::lemma_clear_team(self@.a.team, old(self)@.a.team);
                course::lemma_clear_team(self@.b.team, old(self)@.b.team);
            }
        }
    }

    fn take_reply(&mut self, reply: Option<String>, pet_patches: &PetBattlePatchTable)
        requires
            old(self)@.wf(),
        ensures
            final(self)@ == replied(old(self)@, pet::opt_text(reply), pet_patches@),
            final(self)@.wf(),
            final(self)@.same_pets(old(self)@),
    {
        let mut phase: Phase = Phase::Over;
        std::mem::swap(&mut self.phase, &mut phase);
        match phase {
            Phase::AskA => {
                assert(self.a@.fighter() == self.a.team@[self.a.active as int]@);
                assert(self.a@.team[self.a.active as int].armed());
                let a: Decision = decide::initial_decision(
                    &reply,
                    &self.a.team[self.a.active],
                );
                self.a_told = true;
                self.phase = Phase::AskB(a);
            },
            Phase::AskB(a) => {
                assert(self.b@.fighter() == self.b.team@[self.b.active as int]@);
                assert(self.b@.team[self.b.active as int].armed());
                let b: Decision = decide::initial_decision(
                    &reply,
                    &self.b.team[self.b.active],
                );
                self.b_told = true;
                proof {
                    reveal(both_decided);
                    reveal(turn_begun);
                }
                self.phase = Phase::AskA;
                self.decide_both(a, b, pet_patches);
            },
            Phase::AskAgain(orders) => {
                let side: Side = orders.mover();
                let own: &SideState = match side {
                    Side::A => &self.a,
                    Side::B => &self.b,
                };
                assert(own@.fighter() == own.team@[own.active as int]@);
                assert(own@.team[own.active as int].armed() && own@.team[own.active as int].wf());
                let next: Decision = decide::redecide(
                    &own.team,
                    own.active,
                    orders.decision(),
                    &reply,
                    &self.weather,
                );
                let mut orders: Orders = orders;
                match side {
                    Side::A => {
                        orders.a = next;
                    },
                    Side::B => {
                        orders.b = next;
                    },
                }
                self.phase = Phase::Act(orders);
            },
            other => {
                self.phase = other;
            },
        }
    }
}

// The end of a round.

/// The fighters of both sides, the weather and the log, after what happens at the end of a round:
/// the weather, then what lies on each fighter, then what the marks give.
#[verifier::opaque]
pub open spec fn aftermath(f: Fight) -> Option<Fight> {
    match weather::weather_ended(f.weather, f.a.fighter(), f.b.fighter(), f.log) {
        None => None,
        Some((w, a1, b1, l1)) => match status::round_ended(a1, b1, l1) {
            None => None,
            Some((a2, b2, l2)) => match status::round_ended(b2, a2, l2) {
                None => None,
                Some((b3, a3, l3)) => match field::photosynthesized(
                    Side::A,
                    a3,
                    f.a.positive,
                    l3,
                ) {
                    None => None,
                    Some((a4, l4)) => match field::photosynthesized(
                        Side::B,
                        b3,
                        f.b.positive,
                        l4,
                    ) {
                        None => None,
                        Some((b4, l5)) => Some(
                            Fight {
                                a: f.a.with_fighter(a4),
                                b: f.b.with_fighter(b4),
                                weather: w,
                                log: l5,
                                ..f
                            },
                        ),
                    },
                },
            },
        },
    }
}

/// The side and the log after the round: a side whose fighter has fallen loses life.
pub open spec fn paid(side: Side, c: Camp, log: Log) -> (Camp, Log) {
    if c.fighter().alive() {
        (c, log)
    } else {
        (
            Camp { life: c.life - 1, ..c },
            log.streamed(
                side.letter() + "方损失1点生命值，剩余 "@ + number::int_text(c.life - 1) + "\n"@,
            ),
        )
    }
}

/// What was told in the round, line by line.
pub open spec fn round_lines(f: Fight) -> Seq<Seq<char>> {
    if f.log.history.len() > f.opening.log_start {
        text::trimmed_parts(text::lines_of(f.log.history.skip(f.opening.log_start as int)))
    } else {
        seq![]
    }
}

/// The record of the round.
pub open spec fn record(f: Fight, plans: Plans) -> Round {
    let (a, b) = (f.a.fighter(), f.b.fighter());
    Round {
        round: f.round,
        round_label: "回合"@ + number::int_text(f.round),
        acting_order: if plans.a_first {
            "A_then_B"@
        } else {
            "B_then_A"@
        },
        decision_a: decide::choice_text(plans.a),
        decision_b: decide::choice_text(plans.b),
        active_a: a.name,
        active_b: b.name,
        hp_a_max: a.hp,
        hp_b_max: b.hp,
        energy_a_max: a.energy_cap,
        energy_b_max: b.energy_cap,
        hp_a_before: f.opening.hp_a as int,
        hp_b_before: f.opening.hp_b as int,
        hp_a_after: a.cur_hp,
        hp_b_after: b.cur_hp,
        energy_a_before: f.opening.energy_a as int,
        energy_b_before: f.opening.energy_b as int,
        energy_a_after: a.energy,
        energy_b_after: b.energy,
        life_a_after: f.a.life,
        life_b_after: f.b.life,
        alive_a: report::standing(f.a.team),
        alive_b: report::standing(f.b.team),
        status_effects: report::snapshots(a, b),
        events: replay::frames_from(round_lines(f)),
    }
}

/// The battle with the round ended and put on record.
#[verifier::opaque]
pub open spec fn round_closed(f: Fight, plans: Plans) -> Option<Fight> {
    match aftermath(f) {
        None => None,
        Some(g) => {
            let (a, l1) = paid(Side::A, g.a, g.log);
            let (b, l2) = paid(Side::B, g.b, l1);
            let h = Fight { a, b, log: l2, ..g };
            Some(Fight { rounds: h.rounds.push(record(h, plans)), ..h })
        },
    }
}

/// The battle after the decision of the side whose turn it is has been carried out, before the
/// next turn or the end of the round.
#[verifier::opaque]
pub open spec fn carried_out(
    f: Fight,
    plans: Plans,
    table: Map<Seq<char>, Patch>,
    leave_seed: u64,
    gain_seed: u64,
) -> Option<Fight> {
    let side = plans.mover();
    match action::executed(
        side,
        plans.move_of(),
        f.camp(side),
        f.camp(side.opponent()),
        table,
        f.weather,
        leave_seed,
        gain_seed,
        f.log,
    ) {
        None => None,
        Some(t) => Some(
            match side {
                Side::A => Fight { a: t.own, b: t.opp, weather: t.weather, log: t.log, ..f },
                Side::B => Fight { a: t.opp, b: t.own, weather: t.weather, log: t.log, ..f },
            },
        ),
    }
}

/// The battle after the side whose turn it is has acted. The other side acts next, if it has not
/// yet and both fighters stand; else the round ends and the next begins.
pub open spec fn acted(
    f: Fight,
    table: Map<Seq<char>, Patch>,
    leave_seed: u64,
    gain_seed: u64,
) -> Option<Fight> {
    match f.stage {
        Stage::Act(plans) => match carried_out(f, plans, table, leave_seed, gain_seed) {
            None => None,
            Some(g) => if !plans.second && g.a.fighter().alive() && g.b.fighter().alive() {
                Some(turn_begun(g, Plans { second: true, ..plans }))
            } else {
                match round_closed(g, plans) {
                    None => None,
                    Some(h) => Some(round_opened(h)),
                }
            },
        },
        _ => Some(f),
    }
}

fn pay(side: Side, own: &mut SideState, log: &mut BattleLog)
    requires
        old(own)@.wf(),
        old(own)@.fielded(),
        old(own)@.life >= 1,
    ensures
        (final(own)@, final(log)@) == paid(side, old(own)@, old(log)@),
        final(own)@.wf(),
        final(own)@.fielded(),
{
    assert(own@.fighter() == own.team@[own.active as int]@);
    if own.team[own.active].cur_hp <= 0 {
        own.life = own.life - 1;
        let mut m: String = side.text().to_owned();
        m.append("方损失1点生命值，剩余 ");
        push_int(&mut m, own.life);
        m.append("\n");
        log.stream(m);
    }
}

impl Battle {
    fn end_round(&mut self) -> (r: Result<(), Overflow>)
        requires
            old(self)@.wf(),
            old(self)@.stage !is Over,
        ensures
            (match r {
                Ok(_) => aftermath(old(self)@) == Some(final(self)@) && final(self)@.wf()
                    && final(self)@.stage == old(self)@.stage && final(self)@.same_pets(
                    old(self)@,
                ),
                Err(_) => aftermath(old(self)@) is None,
            }),
    {
        reveal(aftermath);
        let i: usize = self.a.active;
        let j: usize = self.b.active;
        let ghost t0 = self.a.team@;
        let ghost u0 = self.b.team@;
        assert(self.a@.fighter() == t0[i as int]@);
        assert(self.b@.fighter() == u0[j as int]@);
        assert(self.a@.team[i as int].wf() && self.b@.team[j as int].wf());
        weather::apply_weather_end_turn(
            &mut self.weather,
            &mut self.a.team[i],
            &mut self.b.team[j],
            &mut self.log,
        )?;
        status::apply_end_turn_status(
            &mut self.a.team[i],
            &mut self.b.team[j],
            &mut self.log,
        )?;
        status::apply_end_turn_status(
            &mut self.b.team[j],
            &mut self.a.team[i],
            &mut self.log,
        )?;
        field::apply_positive_imprint_end_turn(
            Side::A,
            &mut self.a.team[i],
            self.a.positive_imprint,
            &mut self.log,
        )?;
        field::apply_positive_imprint_end_turn(
            Side::B,
            &mut self.b.team[j],
            self.b.positive_imprint,
            &mut self.log,
        )?;
        proof {
            assert(self.a.team@ == t0.update(i as int, self.a.team@[i as int]));
            assert(self.b.team@ == u0.update(j as int, self.b.team@[j as int]));
            camp::lemma_team_update(t0, i as int, self.a.team@[i as int]);
            camp::lemma_team_update(u0, j as int, self.b.team@[j as int]);
        }
        Ok(())
    }

    fn lines_of_round(&self) -> (r: Vec<String>)
        ensures
            text::texts(r@) == round_lines(self@),
    {
        let history: &str = self.log.history.as_str();
        if history.unicode_len() > self.opening.log_start {
            text::trim_parts(&text::lines(text::skip_chars(history, self.opening.log_start)))
        } else {
            let none: Vec<String> = Vec::new();
            assert(text::texts(none@) == Seq::<Seq<char>>::empty());
            none
        }
    }

    fn record_round(&self, orders: &Orders) -> (r: RoundReport)
        requires
            self@.a.fielded(),
            self@.b.fielded(),
        ensures
            r@ == record(self@, orders@),
    {
        let a: &BattlePet = &self.a.team[self.a.active];
        let b: &BattlePet = &self.b.team[self.b.active];
        assert(a@ == self@.a.fighter());
        assert(b@ == self@.b.fighter());
        let mut label: String = "回合".to_owned();
        push_int(&mut label, self.round);
        let order: &str = if orders.a_first {
            "A_then_B"
        } else {
            "B_then_A"
        };
        let r = RoundReport {
            round: self.round,
            round_label: label,
            acting_order: order.to_owned(),
            decision_a: decide::decision_to_text(&orders.a),
            decision_b: decide::decision_to_text(&orders.b),
            active_a: a.name.clone(),
            active_b: b.name.clone(),
            hp_a_max: a.hp,
            hp_b_max: b.hp,
            energy_a_max: a.energy_cap,
            energy_b_max: b.energy_cap,
            hp_a_before: self.opening.hp_a,
            hp_b_before: self.opening.hp_b,
            hp_a_after: a.cur_hp,
            hp_b_after: b.cur_hp,
            energy_a_before: self.opening.energy_a,
            energy_b_before: self.opening.energy_b,
            energy_a_after: a.energy,
            energy_b_after: b.energy,
            life_a_after: self.a.life,
            life_b_after: self.b.life,
            alive_a: report::alive_pet_names(&self.a.team),
            alive_b: report::alive_pet_names(&self.b.team),
            status_effects: report::snapshot_status_effects(a, b),
            events: replay::events_to_frames(self.lines_of_round().as_slice()),
        };
        assert(r@ =~= record(self@, orders@));
        r
    }

    fn close_round(&mut self, orders: &Orders) -> (r: Result<(), Overflow>)
        requires
            old(self)@.wf(),
            old(self)@.stage !is Over,
        ensures
            (match r {
                Ok(_) => round_closed(old(self)@, orders@) == Some(final(self)@)
                    && final(self)@.sound() && final(self)@.same_pets(old(self)@),
                Err(_) => round_closed(old(self)@, orders@) is None,
            }),
    {
        reveal(round_closed);
        self.end_round()?;
        pay(Side::A, &mut self.a, &mut self.log);
        pay(Side::B, &mut self.b, &mut self.log);
        let record: RoundReport = self.record_round(orders);
        let ghost before = self.rounds@;
        self.rounds.push(record);
        assert(report::rounds_of(self.rounds@) == report::rounds_of(before).push(record@));
        Ok(())
    }

    fn carry_out(
        &mut self,
        orders: &Orders,
        pet_patches: &PetBattlePatchTable,
        leave_seed: u64,
        gain_seed: u64,
    ) -> (r: Result<(), Overflow>)
        requires
            old(self)@.wf(),
            old(self)@.stage !is Over,
        ensures
            (match r {
                Ok(_) => carried_out(
                    old(self)@,
                    orders@,
                    pet_patches@,
                    leave_seed,
                    gain_seed,
                ) == Some(final(self)@) && final(self)@.wf() && final(self)@.stage
                    == old(self)@.stage && final(self)@.same_pets(old(self)@),
                Err(_) => carried_out(
                    old(self)@,
                    orders@,
                    pet_patches@,
                    leave_seed,
                    gain_seed,
                ) is None,
            }),
    {
        reveal(carried_out);
        match orders.mover() {
            Side::A => action::execute_decision(
                Side::A,
                orders.decision(),
                &mut self.a,
                &mut self.b,
                pet_patches,
                &mut self.weather,
                leave_seed,
                gain_seed,
                &mut self.log,
            ),
            Side::B => action::execute_decision(
                Side::B,
                orders.decision(),
                &mut self.b,
                &mut self.a,
                pet_patches,
                &mut self.weather,
                leave_seed,
                gain_seed,
                &mut self.log,
            ),
        }
    }

    /// Lets the side whose turn it is act.
    pub fn act(
        &mut self,
        pet_patches: &PetBattlePatchTable,
        leave_seed: u64,
        gain_seed: u64,
    ) -> (r: Result<(), Overflow>)
        requires
            old(self)@.wf(),
        ensures
            (match r {
                Ok(_) => acted(old(self)@, pet_patches@, leave_seed, gain_seed) == Some(
                    final(self)@,
                ) && final(self)@.wf() && final(self)@.same_pets(old(self)@) && (course::held(
                    old(self)@,
                ) ==> course::held(final(self)@)),
                Err(_) => acted(old(self)@, pet_patches@, leave_seed, gain_seed) is None,
            }),
    {
        self.take_turn(pet_patches, leave_seed, gain_seed)?;
        proof {
            if course::held(old(self)@) {
                course::law_turns_are_held_to_rules(
                    old(self)@,
                    pet_patches@,
                    leave_seed,
                    gain_seed,
                );
                course::lemma_clear_team(self@.a.team, old(self)@.a.team);
                course::lemma_clear_team(self@.b.team, old(self)@.b.team);
            }
        }
        Ok(())
    }

    fn take_turn(
        &mut self,
        pet_patches: &PetBattlePatchTable,
        leave_seed: u64,
        gain_seed: u64,
    ) -> (r: Result<(), Overflow>)
        requires
            old(self)@.wf(),
        ensures
            (match r {
                Ok(_) => acted(old(self)@, pet_patches@, leave_seed, gain_seed) == Some(
                    final(self)@,
                ) && final(self)@.wf() && final(self)@.same_pets(old(self)@),
                Err(_) => acted(old(self)@, pet_patches@, leave_seed, gain_seed) is None,
            }),
    {
        let mut orders: Orders = match &self.phase {
            Phase::Act(orders) => orders.copy(),
            _ => {
                return Ok(());
            },
        };
        self.carry_out(&orders, pet_patches, leave_seed, gain_seed)?;
        assert(self@.a.fighter() == self.a.team@[self.a.active as int]@);
        assert(self@.b.fighter() == self.b.team@[self.b.active as int]@);
        if !orders.second && self.a.team[self.a.active].cur_hp > 0
            && self.b.team[self.b.active].cur_hp > 0 {
            orders.second = true;
            self.begin_turn(orders);
        } else {
            self.close_round(&orders)?;
            self.open_round();
        }
        Ok(())
    }
}

// The beginning and the end.

/// A side at the start of a battle.
pub open spec fn fresh_camp(team: Seq<Pet>) -> Camp {
    Camp {
        team,
        active: 0,
        life: START_LIFE as int,
        negative: None,
        positive: None,
        dedication: DedicationBuff::none(),
        bank: 0,
        banks: ElementSkillBanks::zero(),
    }
}

/// A side at the start of a battle, its first pet having entered.
pub open spec fn fielded_camp(
    side: Side,
    team: Seq<Pet>,
    table: Map<Seq<char>, Patch>,
    log: Log,
) -> Option<(Camp, Log)> {
    match field::entered(
        side,
        team[0],
        None,
        None,
        table,
        0,
        ElementSkillBanks::zero(),
        log,
    ) {
        None => None,
        Some((p, bank, banks, l)) => Some(
            (Camp { team: team.update(0, p), bank, banks, ..fresh_camp(team) }, l),
        ),
    }
}

/// What is told before the battle.
pub open spec fn welcome() -> Log {
    Log { history: seq![], deltas: seq![] }.streamed(
        "=== 对战开始（程序结算，AI仅决策）===\n"@,
    ).streamed("规则载入完成：AI 已在决策前获得完整对战规则摘要。\n"@).streamed(
        "PVP等级已统一：所有精灵等级设为 "@ + number::int_text(PVP_DEFAULT_LEVEL as int)
            + " 级。\n"@,
    )
}

/// A battle between two teams, its first round begun.
pub open spec fn begun(a: Seq<Pet>, b: Seq<Pet>, table: Map<Seq<char>, Patch>) -> Option<Fight> {
    match fielded_camp(Side::A, a, table, welcome()) {
        None => None,
        Some((ca, l1)) => match fielded_camp(Side::B, b, table, l1) {
            None => None,
            Some((cb, l2)) => Some(
                round_opened(
                    Fight {
                        a: ca,
                        b: cb,
                        weather: None,
                        log: l2,
                        round: 0,
                        a_told: false,
                        b_told: false,
                        opening: Opening { log_start: 0, hp_a: 0, hp_b: 0, energy_a: 0, energy_b: 0 },
                        rounds: seq![],
                        stage: Stage::Over,
                    },
                ),
            ),
        },
    }
}

/// Whether a team can fight: it has a pet, and all its pets are well formed and have skills.
pub open spec fn ready(team: Seq<Pet>) -> bool {
    &&& team.len() > 0
    &&& forall|i: int| 0 <= i < team.len() ==> (#[trigger] team[i]).wf() && team[i].armed()
}

fn new_side(
    side: Side,
    team: Vec<BattlePet>,
    pet_patches: &PetBattlePatchTable,
    log: &mut BattleLog,
) -> (r: Result<SideState, Overflow>)
    requires
        ready(pet::pets_of(team@)),
    ensures
        (match r {
            Ok(c) => fielded_camp(side, pet::pets_of(team@), pet_patches@, old(log)@) == Some(
                (c@, final(log)@),
            ) && c@.wf() && c@.life == START_LIFE && camp::same_pets(
                c@.team,
                pet::pets_of(team@),
            ),
            Err(_) => fielded_camp(side, pet::pets_of(team@), pet_patches@, old(log)@) is None,
        }),
{
    let ghost t0 = team@;
    let mut c = SideState {
        team,
        active: 0,
        life: START_LIFE,
        negative_imprint: None,
        positive_imprint: None,
        dedication: DedicationBuff::default(),
        ally_counter_bank: 0,
        element_banks: ElementSkillBanks::default(),
    };
    assert(pet::pets_of(t0)[0] == t0[0]@);
    field::apply_entry_effects(
        side,
        &mut c.team[0],
        None,
        None,
        pet_patches,
        &mut c.ally_counter_bank,
        &mut c.element_banks,
        log,
    )?;
    proof {
        camp::lemma_team_update(t0, 0, c.team@[0]);
    }
    Ok(c)
}

/// What the battle asks for.
#[derive(Debug)]
pub enum Request {
    /// That a side decides, on the given text; and whether it has to be told the rules.
    Ask { side: Side, with_rules: bool, prompt: String },
    /// That the side whose turn it is acts.
    Act,
    /// Nothing more.
    Over,
}

/// What the battle asks for, by its texts.
pub enum Wish {
    Ask { side: Side, with_rules: bool, prompt: Seq<char> },
    Act,
    Over,
}

impl View for Request {
    type V = Wish;

    open spec fn view(&self) -> Wish {
        match self {
            Request::Ask { side, with_rules, prompt } => Wish::Ask {
                side: *side,
                with_rules: *with_rules,
                prompt: prompt@,
            },
            Request::Act => Wish::Act,
            Request::Over => Wish::Over,
        }
    }
}

/// The marks on a side.
pub open spec fn marks_of(c: Camp) -> Marks {
    Marks { negative: c.negative, positive: c.positive }
}

/// What a side is told before it decides.
pub open spec fn told(f: Fight, side: Side) -> Seq<char> {
    let (own, opp) = (f.camp(side), f.camp(side.opponent()));
    prompt::prompt_text(
        side,
        own.team,
        own.active,
        opp.fighter(),
        f.weather,
        marks_of(own),
        marks_of(opp),
        f.log.history,
        f.round,
    )
}

/// What the battle asks for. Each side is told the rules when it is asked for the first time.
pub open spec fn wished(f: Fight) -> Wish {
    match f.stage {
        Stage::AskA => Wish::Ask {
            side: Side::A,
            with_rules: !f.a_told,
            prompt: told(f, Side::A),
        },
        Stage::AskB(_) => Wish::Ask {
            side: Side::B,
            with_rules: !f.b_told,
            prompt: told(f, Side::B),
        },
        Stage::AskAgain(plans) => Wish::Ask {
            side: plans.mover(),
            with_rules: false,
            prompt: told(f, plans.mover()),
        },
        Stage::Act(_) => Wish::Act,
        Stage::Over => Wish::Over,
    }
}

/// What is told at the end of a battle.
pub open spec fn farewell(side: Side) -> Seq<char> {
    match side {
        Side::A => "\n=== 对战结束：A 方获胜 ===\n"@,
        Side::B => "\n=== 对战结束：B 方获胜 ===\n"@,
    }
}

impl Battle {
    /// Begins a battle between two teams.
    pub fn begin(
        team_a: Vec<BattlePet>,
        team_b: Vec<BattlePet>,
        pet_patches: &PetBattlePatchTable,
    ) -> (r: Result<Battle, Overflow>)
        requires
            ready(pet::pets_of(team_a@)),
            ready(pet::pets_of(team_b@)),
        ensures
            (match r {
                Ok(battle) => begun(
                    pet::pets_of(team_a@),
                    pet::pets_of(team_b@),
                    pet_patches@,
                ) == Some(battle@) && battle@.wf() && camp::same_pets(
                    battle@.a.team,
                    pet::pets_of(team_a@),
                ) && camp::same_pets(battle@.b.team, pet::pets_of(team_b@)) && (
                course::clear_team(pet::pets_of(team_a@)) && course::clear_team(
                    pet::pets_of(team_b@),
                ) ==> course::held(battle@)),
                Err(_) => begun(
                    pet::pets_of(team_a@),
                    pet::pets_of(team_b@),
                    pet_patches@,
                ) is None,
            }),
    {
        let mut log: BattleLog = BattleLog::new();
        log.stream("=== 对战开始（程序结算，AI仅决策）===\n".to_owned());
        log.stream("规则载入完成：AI 已在决策前获得完整对战规则摘要。\n".to_owned());
        let mut m: String = "PVP等级已统一：所有精灵等级设为 ".to_owned();
        push_int(&mut m, PVP_DEFAULT_LEVEL);
        m.append(" 级。\n");
        log.stream(m);
        let a: SideState = new_side(Side::A, team_a, pet_patches, &mut log)?;
        let b: SideState = new_side(Side::B, team_b, pet_patches, &mut log)?;
        let mut battle = Battle {
            a,
            b,
            weather: None,
            log,
            round: 0,
            a_told: false,
            b_told: false,
            opening: Opening { log_start: 0, hp_a: 0, hp_b: 0, energy_a: 0, energy_b: 0 },
            rounds: Vec::new(),
            phase: Phase::Over,
        };
        assert(battle@.rounds == Seq::<Round>::empty());
        battle.open_round();
        proof {
            let (pa, pb) = (pet::pets_of(team_a@), pet::pets_of(team_b@));
            course::law_beginning_is_lawful(pa, pb, pet_patches@);
            if course::clear_team(pa) && course::clear_team(pb) {
                course::lemma_clear_team(battle@.a.team, pa);
                course::lemma_clear_team(battle@.b.team, pb);
            }
        }
        Ok(battle)
    }

    fn tell(&self, side: Side) -> (r: String)
        requires
            self@.wf(),
            self@.stage !is Over,
        ensures
            r@ == told(self@, side),
    {
        let (own, opp): (&SideState, &SideState) = match side {
            Side::A => (&self.a, &self.b),
            Side::B => (&self.b, &self.a),
        };
        assert(own@ == self@.camp(side) && opp@ == self@.camp(side.opponent()));
        assert(opp@.fighter() == opp.team@[opp.active as int]@);
        assert(opp@.team[opp.active as int].wf());
        assert forall|i: int| 0 <= i < own.team.len() implies (#[trigger] own.team@[i])@.wf() by {
            assert(own@.team[i].wf());
        }
        prompt::action_prompt(
            side,
            &own.team,
            own.active,
            &opp.team[opp.active],
            &self.weather,
            &Marks { negative: own.negative_imprint, positive: own.positive_imprint },
            &Marks { negative: opp.negative_imprint, positive: opp.positive_imprint },
            self.log.history.as_str(),
            self.round,
        )
    }

    /// What the battle asks for.
    pub fn request(&self) -> (r: Request)
        requires
            self@.wf(),
        ensures
            r@ == wished(self@),
    {
        match &self.phase {
            Phase::AskA => Request::Ask {
                side: Side::A,
                with_rules: !self.a_told,
                prompt: self.tell(Side::A),
            },
            Phase::AskB(_) => Request::Ask {
                side: Side::B,
                with_rules: !self.b_told,
                prompt: self.tell(Side::B),
            },
            Phase::AskAgain(orders) => Request::Ask {
                side: orders.mover(),
                with_rules: false,
                prompt: self.tell(orders.mover()),
            },
            Phase::Act(_) => Request::Act,
            Phase::Over => Request::Over,
        }
    }

    /// Hands out what is yet to be streamed.
    pub fn take_deltas(&mut self) -> (r: Vec<String>)
        ensures
            text::texts(r@) == old(self)@.log.deltas,
            final(self)@ == (Fight {
                log: Log { deltas: seq![], ..old(self)@.log },
                ..old(self)@
            }),
    {
        self.log.take_deltas()
    }

    /// Ends a battle that is over: names the winner, and hands out the record and what is yet to
    /// be streamed.
    pub fn conclude(
        self,
        setup_mode: AiBattleSetupMode,
        started_at_ms: u128,
        initial_state: InitialState,
    ) -> (r: Result<(BattleReport, Vec<String>), Overflow>)
        requires
            self@.stage is Over,
        ensures
            ({
                let w = report::winner(
                    self@.a.life,
                    self@.b.life,
                    self@.a.team,
                    self@.b.team,
                );
                match r {
                    Ok((report, deltas)) => {
                        &&& w is Some
                        &&& report.schema_version@ == "2.0"@
                        &&& report.started_at_ms == started_at_ms
                        &&& report.setup_mode@ == setup_text(setup_mode)
                        &&& report.winner@ == w->0.letter()
                        &&& report.final_life_a == self@.a.life
                        &&& report.final_life_b == self@.b.life
                        &&& report.initial_state == initial_state
                        &&& report::rounds_of(report.rounds@) == self@.rounds
                        &&& text::texts(deltas@) == self@.log.deltas.push(farewell(w->0))
                    },
                    Err(_) => w is None,
                }
            }),
    {
        let winner: Side = report::resolve_winner_no_draw(
            self.a.life,
            self.b.life,
            &self.a.team,
            &self.b.team,
        )?;
        let closing: &str = match winner {
            Side::A => "\n=== 对战结束：A 方获胜 ===\n",
            Side::B => "\n=== 对战结束：B 方获胜 ===\n",
        };
        let mut deltas: Vec<String> = self.log.deltas;
        let ghost before = deltas@;
        deltas.push(closing.to_owned());
        assert(text::texts(deltas@) == text::texts(before).push(closing@));
        Ok(
            (
                BattleReport {
                    schema_version: "2.0".to_owned(),
                    started_at_ms,
                    setup_mode: setup_mode_text(setup_mode).to_owned(),
                    winner: winner.text().to_owned(),
                    final_life_a: self.a.life,
                    final_life_b: self.b.life,
                    initial_state,
                    rounds: self.rounds,
                },
                deltas,
            ),
        )
    }
}

/// What is told once the record has been saved.
pub fn saved_message(path: &str) -> (r: String)
    ensures
        r@ == "结构化战报已保存："@ + path@ + "\n"@,
{
    let mut m: String = "结构化战报已保存：".to_owned();
    m.append(path);
    m.append("\n");
    m
}

} // verus!
