//! The record of a battle, and the events that its log lines tell of.

use vstd::prelude::*;
use crate::number;
use crate::number::push_nat;
use crate::pet;
use crate::text;
use crate::text::CharClass;

verus! {

/// The record of a whole battle.
#[derive(Debug)]
pub struct BattleReport {
    pub schema_version: String,
    pub started_at_ms: u128,
    pub setup_mode: String,
    pub winner: String,
    pub final_life_a: i32,
    pub final_life_b: i32,
    pub initial_state: InitialState,
    pub rounds: Vec<RoundReport>,
}

/// The record of one round.
#[derive(Debug)]
pub struct RoundReport {
    pub round: i32,
    pub round_label: String,
    pub acting_order: String,
    pub decision_a: String,
    pub decision_b: String,
    pub active_a: String,
    pub active_b: String,
    pub hp_a_max: i32,
    pub hp_b_max: i32,
    pub energy_a_max: i32,
    pub energy_b_max: i32,
    pub hp_a_before: i32,
    pub hp_b_before: i32,
    pub hp_a_after: i32,
    pub hp_b_after: i32,
    pub energy_a_before: i32,
    pub energy_b_before: i32,
    pub energy_a_after: i32,
    pub energy_b_after: i32,
    pub life_a_after: i32,
    pub life_b_after: i32,
    pub alive_a: Vec<String>,
    pub alive_b: Vec<String>,
    pub status_effects: Vec<PetStatusSnapshot>,
    pub events: Vec<EventFrame>,
}

/// Both teams as they were at the start.
#[derive(Debug)]
pub struct InitialState {
    pub team_a: Vec<PetInitialState>,
    pub team_b: Vec<PetInitialState>,
}

/// A pet as it was at the start.
#[derive(Debug)]
pub struct PetInitialState {
    pub name: String,
    pub level: i32,
    pub element: String,
    pub element2: Option<String>,
    pub ability: String,
    pub hp_max: i32,
    pub energy_max: i32,
    pub speed: i32,
    pub patk: i32,
    pub pdef: i32,
    pub matk: i32,
    pub mdef: i32,
    pub skills: Vec<SkillView>,
}

/// A skill as it is shown.
#[derive(Debug)]
pub struct SkillView {
    pub name: String,
    pub element: String,
    pub category: String,
    pub cost: i32,
    pub power: i32,
}

/// What lies on the fighter of a side.
#[derive(Debug)]
pub struct PetStatusSnapshot {
    pub side: String,
    pub pet: String,
    pub effects: Vec<StatusEffectView>,
}

/// One thing that lies on a pet.
#[derive(Debug)]
pub struct StatusEffectView {
    pub name: String,
    pub layers: i32,
}

/// An event that a line of the log tells of.
#[derive(Debug)]
pub struct EventFrame {
    pub event_type: String,
    pub source: Option<String>,
    pub target_side: Option<String>,
    pub target: Option<String>,
    pub skill: Option<String>,
    pub anim_id: Option<String>,
    pub amount: Option<i32>,
    /// The multiplier of the elements, in decimal.
    pub multiplier: Option<String>,
    pub text: String,
}

/// An event, by its texts.
#[verifier::ext_equal]
pub struct Frame {
    pub event_type: Seq<char>,
    pub source: Option<Seq<char>>,
    pub target_side: Option<Seq<char>>,
    pub target: Option<Seq<char>>,
    pub skill: Option<Seq<char>>,
    pub anim_id: Option<Seq<char>>,
    pub amount: Option<i32>,
    pub multiplier: Option<Seq<char>>,
    pub text: Seq<char>,
}

impl View for EventFrame {
    type V = Frame;

    open spec fn view(&self) -> Frame {
        Frame {
            event_type: self.event_type@,
            source: pet::opt_text(self.source),
            target_side: pet::opt_text(self.target_side),
            target: pet::opt_text(self.target),
            skill: pet::opt_text(self.skill),
            anim_id: pet::opt_text(self.anim_id),
            amount: self.amount,
            multiplier: pet::opt_text(self.multiplier),
            text: self.text@,
        }
    }
}

/// The events of a list, by their texts.
pub open spec fn frames_of(v: Seq<EventFrame>) -> Seq<Frame> {
    v.map_values(|f: EventFrame| f@)
}

/// What kind of event a line tells of.
pub open spec fn kind_of(line: Seq<char>) -> Seq<char> {
    if text::has(line, "进入蓄力状态"@) {
        "CHARGE_START"@
    } else if text::has(line, "使用 [回能]"@) || (text::has(line, "回复"@) && text::has(
        line,
        "点能量"@,
    )) {
        "ENERGY_CHANGE"@
    } else if text::has(line, "造成 "@) && text::has(line, "伤害"@) {
        "DAMAGE"@
    } else if text::has(line, "施加状态/效果"@) {
        "APPLY_EFFECT"@
    } else if text::has(line, "获得 "@) && text::has(line, "层"@) {
        "STATUS_APPLY"@
    } else if text::has(line, "结算伤害"@) {
        "STATUS_TICK"@
    } else if text::has(line, "倒下"@) {
        "FAINT"@
    } else if text::has(line, "选择换宠"@) || text::has(line, "上场"@) {
        "SWITCH"@
    } else {
        "TEXT"@
    }
}

fn event_kind(line: &str) -> (r: &'static str)
    ensures
        r@ == kind_of(line@),
{
    if text::contains(line, "进入蓄力状态") {
        "CHARGE_START"
    } else if text::contains(line, "使用 [回能]") || (text::contains(line, "回复")
        && text::contains(line, "点能量")) {
        "ENERGY_CHANGE"
    } else if text::contains(line, "造成 ") && text::contains(line, "伤害") {
        "DAMAGE"
    } else if text::contains(line, "施加状态/效果") {
        "APPLY_EFFECT"
    } else if text::contains(line, "获得 ") && text::contains(line, "层") {
        "STATUS_APPLY"
    } else if text::contains(line, "结算伤害") {
        "STATUS_TICK"
    } else if text::contains(line, "倒下") {
        "FAINT"
    } else if text::contains(line, "选择换宠") || text::contains(line, "上场") {
        "SWITCH"
    } else {
        "TEXT"
    }
}

/// The side that a line speaks of; side A where it speaks of both.
pub open spec fn side_in(line: Seq<char>) -> Option<Seq<char>> {
    if text::has(line, "A方"@) {
        Some("A"@)
    } else if text::has(line, "B方"@) {
        Some("B"@)
    } else {
        None
    }
}

/// The side that a line speaks of.
pub fn parse_side(line: &str) -> (r: Option<String>)
    ensures
        pet::opt_text(r) == side_in(line@),
{
    if text::contains(line, "A方") {
        Some("A".to_owned())
    } else if text::contains(line, "B方") {
        Some("B".to_owned())
    } else {
        None
    }
}

/// The side that the event of a line is turned against: the one that is not its source.
pub open spec fn target_side_in(line: Seq<char>, source: Option<Seq<char>>) -> Option<Seq<char>> {
    if text::has(line, "A方"@) && !text::has(line, "B方"@) && source == Some("B"@) {
        Some("A"@)
    } else if text::has(line, "B方"@) && !text::has(line, "A方"@) && source == Some("A"@) {
        Some("B"@)
    } else if source == Some("A"@) {
        Some("B"@)
    } else if source == Some("B"@) {
        Some("A"@)
    } else {
        None
    }
}

/// The side that the event of a line is turned against.
pub fn parse_target_side(line: &str, source: &Option<String>) -> (r: Option<String>)
    ensures
        pet::opt_text(r) == target_side_in(line@, pet::opt_text(*source)),
{
    let from_a: bool = pet::is_some_text(source, "A");
    let from_b: bool = pet::is_some_text(source, "B");
    if text::contains(line, "A方") && !text::contains(line, "B方") && from_b {
        return Some("A".to_owned());
    }
    if text::contains(line, "B方") && !text::contains(line, "A方") && from_a {
        return Some("B".to_owned());
    }
    if from_a {
        Some("B".to_owned())
    } else if from_b {
        Some("A".to_owned())
    } else {
        None
    }
}

/// The animation of an event.
pub open spec fn animation(kind: Seq<char>, skill: Option<Seq<char>>) -> Option<Seq<char>> {
    if skill is Some && (kind == "DAMAGE"@ || kind == "APPLY_EFFECT"@ || kind == "CHARGE_START"@) {
        Some("skill:"@ + skill->0)
    } else if kind == "SWITCH"@ {
        Some("switch:default"@)
    } else if kind == "FAINT"@ {
        Some("faint:default"@)
    } else {
        None
    }
}

/// The animation of an event.
pub fn infer_anim_id(event_type: &str, skill: &Option<String>) -> (r: Option<String>)
    ensures
        pet::opt_text(r) == animation(event_type@, pet::opt_text(*skill)),
{
    if let Some(s) = skill {
        if text::same(event_type, "DAMAGE") || text::same(event_type, "APPLY_EFFECT") || text::same(
            event_type,
            "CHARGE_START",
        ) {
            let mut m: String = "skill:".to_owned();
            m.append(s.as_str());
            return Some(m);
        }
    }
    if text::same(event_type, "SWITCH") {
        Some("switch:default".to_owned())
    } else if text::same(event_type, "FAINT") {
        Some("faint:default".to_owned())
    } else {
        None
    }
}

/// The name in the first square brackets.
pub open spec fn bracketed(line: Seq<char>) -> Option<Seq<char>> {
    match text::split_once_at(line, '[') {
        Some((_, rest)) => match text::split_once_at(rest, ']') {
            Some((name, _)) => Some(name),
            None => None,
        },
        None => None,
    }
}

/// The name in the first square brackets.
pub fn parse_bracket_name(line: &str) -> (r: Option<String>)
    ensures
        pet::opt_text(r) == bracketed(line@),
{
    match text::split_once(line, '[') {
        Some((_, rest)) => match text::split_once(rest, ']') {
            Some((name, _)) => Some(name.to_owned()),
            None => None,
        },
        None => None,
    }
}

/// The damage that a line tells of.
pub open spec fn damage_in(line: Seq<char>) -> Option<int> {
    match text::after(line, "造成 "@) {
        Some(rest) => number::parsed_int(text::head_run(rest, CharClass::Digit)),
        None => None,
    }
}

/// The damage that a line tells of.
pub fn parse_damage_amount(line: &str) -> (r: Option<i32>)
    ensures
        (match r {
            Some(n) => damage_in(line@) == Some(n as int),
            None => damage_in(line@) is None,
        }),
{
    match text::text_after(line, "造成 ") {
        Some(rest) => number::parse_int(text::leading(rest, CharClass::Digit)),
        None => None,
    }
}

/// Whether a run of digits and points writes a number: a digit at least, and one point at most.
pub open spec fn is_decimal(t: Seq<char>) -> bool {
    &&& exists|i: int| 0 <= i < t.len() && text::is_digit(#[trigger] t[i])
    &&& forall|i: int, j: int|
        0 <= i < j < t.len() ==> !(#[trigger] t[i] == '.' && #[trigger] t[j] == '.')
}

/// The multiplier of the elements that a line tells of, in decimal.
pub open spec fn multiplier_in(line: Seq<char>) -> Option<Seq<char>> {
    match text::after(line, "克制x"@) {
        Some(rest) => if is_decimal(text::head_run(rest, CharClass::Numeral)) {
            Some(text::head_run(rest, CharClass::Numeral))
        } else {
            None
        },
        None => None,
    }
}

fn writes_decimal(s: &str) -> (r: bool)
    ensures
        r == is_decimal(s@),
{
    let v: Vec<char> = text::chars_of(s);
    let mut digit: bool = false;
    let mut point: Option<usize> = None;
    let mut i: usize = 0;
    while i < v.len()
        invariant
            i <= v.len(),
            v@ == s@,
            digit == exists|j: int| 0 <= j < i && text::is_digit(#[trigger] v@[j]),
            (match point {
                Some(p) => p < i && v@[p as int] == '.' && forall|j: int|
                    0 <= j < i && #[trigger] v@[j] == '.' ==> j == p,
                None => forall|j: int| 0 <= j < i ==> #[trigger] v@[j] != '.',
            }),
        decreases v.len() - i,
    {
        if CharClass::Digit.test(v[i]) {
            assert(text::is_digit(v@[i as int]));
            digit = true;
        }
        if v[i] == '.' {
            if let Some(p) = point {
                assert(v@[p as int] == '.' && v@[i as int] == '.');
                return false;
            }
            point = Some(i);
        }
        i = i + 1;
    }
    digit
}

/// The multiplier of the elements that a line tells of, in decimal.
pub fn parse_multiplier(line: &str) -> (r: Option<String>)
    ensures
        pet::opt_text(r) == multiplier_in(line@),
{
    match text::text_after(line, "克制x") {
        Some(rest) => {
            let run: &str = text::leading(rest, CharClass::Numeral);
            if writes_decimal(run) {
                Some(run.to_owned())
            } else {
                None
            }
        },
        None => None,
    }
}

/// The pet whose health a line tells of: what stands in front of the health, behind the last full
/// stop.
pub open spec fn target_in(line: Seq<char>) -> Option<Seq<char>> {
    match text::before(line, " HP: "@) {
        Some(prefix) => match text::after_last(prefix, '。') {
            Some(rest) => if text::trimmed(rest).len() > 0 {
                Some(text::trimmed(rest))
            } else {
                None
            },
            None => None,
        },
        None => None,
    }
}

/// The pet whose health a line tells of.
pub fn parse_target_name(line: &str) -> (r: Option<String>)
    ensures
        pet::opt_text(r) == target_in(line@),
{
    match text::text_before(line, " HP: ") {
        Some(prefix) => match text::text_after_last(prefix, '。') {
            Some(rest) => {
                let name: &str = text::trim(rest);
                if name.unicode_len() > 0 {
                    Some(name.to_owned())
                } else {
                    None
                }
            },
            None => None,
        },
        None => None,
    }
}

/// The event that a line tells of.
pub open spec fn frame_of(line: Seq<char>) -> Frame {
    Frame {
        event_type: kind_of(line),
        source: side_in(line),
        target_side: target_side_in(line, side_in(line)),
        target: target_in(line),
        skill: bracketed(line),
        anim_id: animation(kind_of(line), bracketed(line)),
        amount: match damage_in(line) {
            Some(n) => Some(n as i32),
            None => None,
        },
        multiplier: multiplier_in(line),
        text: line,
    }
}

/// The event that a line tells of.
pub fn classify_event_frame(line: &str) -> (r: EventFrame)
    ensures
        r@ == frame_of(line@),
{
    let event_type: &str = event_kind(line);
    let source: Option<String> = parse_side(line);
    let target_side: Option<String> = parse_target_side(line, &source);
    let skill: Option<String> = parse_bracket_name(line);
    let anim_id: Option<String> = infer_anim_id(event_type, &skill);
    EventFrame {
        event_type: event_type.to_owned(),
        source,
        target_side,
        target: parse_target_name(line),
        skill,
        anim_id,
        amount: parse_damage_amount(line),
        multiplier: parse_multiplier(line),
        text: line.to_owned(),
    }
}

/// The events that lines tell of, one for each line.
pub open spec fn frames_from(lines: Seq<Seq<char>>) -> Seq<Frame> {
    lines.map_values(|line: Seq<char>| frame_of(line))
}

/// The events that lines tell of, one for each line.
pub fn events_to_frames(events: &[String]) -> (r: Vec<EventFrame>)
    ensures
        frames_of(r@) == frames_from(text::texts(events@)),
{
    let mut r: Vec<EventFrame> = Vec::new();
    let mut i: usize = 0;
    while i < events.len()
        invariant
            i <= events.len(),
            frames_of(r@) == frames_from(text::texts(events@)).take(i as int),
        decreases events.len() - i,
    {
        let ghost before = r@;
        let f: EventFrame = classify_event_frame(events[i].as_str());
        r.push(f);
        assert(frames_of(r@) == frames_of(before).push(f@));
        i = i + 1;
    }
    assert(frames_from(text::texts(events@)).take(i as int) == frames_from(text::texts(events@)));
    r
}

/// Where the record of a battle is kept.
pub open spec fn report_path_of(started_at_ms: nat) -> Seq<char> {
    "data/battle-reports"@ + "/battle-report-"@ + number::nat_text(started_at_ms) + ".json"@
}

/// The directory that the records of battles are kept in.
pub const REPORT_DIR: &'static str = "data/battle-reports";

/// Where the record of a battle that started then is kept.
pub fn report_path(started_at_ms: u128) -> (r: String)
    ensures
        r@ == report_path_of(started_at_ms as nat),
{
    let mut m: String = "data/battle-reports".to_owned();
    m.append("/battle-report-");
    push_nat(&mut m, started_at_ms);
    m.append(".json");
    m
}

} // verus!
