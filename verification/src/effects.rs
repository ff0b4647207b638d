//! What the text of a skill's effect says in numbers.

use vstd::prelude::*;
use crate::number;
use crate::pet::{BattleSkill, Skill, WeatherKind, WeatherState};
use crate::text;
use crate::text::CharClass;

verus! {

/// The number that stands right before the first `suffix` in `t`.
pub open spec fn number_before(t: Seq<char>, suffix: Seq<char>) -> Option<int> {
    match text::position(t, suffix) {
        Some(i) => {
            let run = text::tail_run(t.take(i), CharClass::Digit);
            if run.len() == 0 {
                None
            } else {
                number::parsed_int(run)
            }
        },
        None => None,
    }
}

/// The number right before the first `suffix`, or one where there is none.
pub open spec fn layers(t: Seq<char>, suffix: Seq<char>) -> int {
    match number_before(t, suffix) {
        Some(n) => n,
        None => 1,
    }
}

/// A number that is written right before something is not negative.
pub proof fn lemma_number_before(t: Seq<char>, suffix: Seq<char>)
    ensures
        number_before(t, suffix) matches Some(n) ==> n >= 0,
        layers(t, suffix) >= 0,
{
    if let Some(i) = text::position(t, suffix) {
        let front = t.take(i);
        let run = text::tail_run(front, CharClass::Digit);
        text::lemma_trail(front, CharClass::Digit);
        if run.len() > 0 {
            let from = front.len() - text::trail(front, CharClass::Digit);
            assert(run[0] == front[from]);
            assert(text::is_digit(front[from]));
        }
    }
}

/// The number that stands right before the first `suffix` in the text.
pub fn extract_layers(s: &str, suffix: &str) -> (r: Option<i32>)
    ensures
        (match r {
            Some(n) => number_before(s@, suffix@) == Some(n as int) && n >= 0,
            None => number_before(s@, suffix@) is None,
        }),
{
    proof {
        lemma_number_before(s@, suffix@);
    }
    match text::find(s, suffix) {
        Some(i) => {
            let run: &str = text::trailing(text::take_chars(s, i), CharClass::Digit);
            if run.is_empty() {
                None
            } else {
                number::parse_int(run)
            }
        },
        None => None,
    }
}

/// The number right before the first `suffix`, or one where there is none.
pub fn layers_or_one(s: &str, suffix: &str) -> (r: i32)
    ensures
        r == layers(s@, suffix@),
        r >= 0,
{
    match extract_layers(s, suffix) {
        Some(n) => n,
        None => 1,
    }
}

/// How often a skill hits.
pub open spec fn hits(effect: Seq<char>) -> int {
    if !text::has(effect, "连击"@) {
        1
    } else if let Some(n) = number_before(effect, "次攻击"@) {
        number::greater(n, 1)
    } else if let Some(n) = number_before(effect, "连击"@) {
        number::greater(n, 1)
    } else {
        2
    }
}

/// How often a skill hits.
pub fn extract_multi_hit(effect: &str) -> (r: i32)
    ensures
        r == hits(effect@),
        r >= 1,
{
    if !text::contains(effect, "连击") {
        return 1;
    }
    if let Some(n) = extract_layers(effect, "次攻击") {
        return number::larger(n, 1);
    }
    if let Some(n) = extract_layers(effect, "连击") {
        return number::larger(n, 1);
    }
    2
}

/// What a skill costs in the weather: a sandstorm halves the cost of earth skills, rounded up.
pub open spec fn cost_in(skill: Skill, weather: Option<WeatherState>) -> int {
    if weather matches Some(w) && w.kind == WeatherKind::Sandstorm && skill.element == "地"@ {
        (skill.cost + 1) / 2
    } else {
        skill.cost
    }
}

/// What a skill costs in the weather.
pub fn calc_skill_cost(skill: &BattleSkill, weather: &Option<WeatherState>) -> (r: i32)
    requires
        skill@.wf(),
    ensures
        r == cost_in(skill@, *weather),
        r >= 0,
{
    if let Some(w) = weather {
        if w.kind == WeatherKind::Sandstorm && text::same(skill.element.as_str(), "地") {
            let half: i64 = (skill.cost as i64 + 1) / 2;
            return half as i32;
        }
    }
    skill.cost
}

} // verus!
