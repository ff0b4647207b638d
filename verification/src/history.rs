//! What a side can gather from the log of the battle.

use vstd::prelude::*;
use crate::pet::Side;
use crate::text;
use crate::text::CharClass;

verus! {

/// A list with one more name, unless the name is empty or stands there already.
pub open spec fn noted(list: Seq<Seq<char>>, name: Seq<char>) -> Seq<Seq<char>> {
    if name.len() > 0 && !list.contains(name) {
        list.push(name)
    } else {
        list
    }
}

fn note(list: &mut Vec<String>, name: &str)
    ensures
        text::texts(final(list)@) == noted(text::texts(old(list)@), name@),
{
    if name.unicode_len() > 0 && !text::stands_in(list, name) {
        list.push(name.to_owned());
        assert(text::texts(list@) == text::texts(old(list)@).push(name@));
    }
}

/// The name behind a space and the word for coming in; nothing where these do not stand in the line.
pub open spec fn entered_in(line: Seq<char>) -> Seq<char> {
    match text::after(line, " 上场："@) {
        Some(rest) => text::trimmed(text::trimmed_end(rest, CharClass::Only('。'))),
        None => seq![],
    }
}

/// The skill that a line says was used; nothing where it does not say so.
pub open spec fn used_in(line: Seq<char>) -> Seq<char> {
    match text::after(line, " 使用 ["@) {
        Some(rest) => match text::split_once_at(rest, ']') {
            Some((name, _)) => text::trimmed(name),
            None => seq![],
        },
        None => seq![],
    }
}

/// The pets and the skills of the side that its lines from `i` on show, after those in `pets` and
/// `skills`.
pub open spec fn shown_from(
    lines: Seq<Seq<char>>,
    side: Seq<char>,
    i: int,
    pets: Seq<Seq<char>>,
    skills: Seq<Seq<char>>,
) -> (Seq<Seq<char>>, Seq<Seq<char>>)
    decreases lines.len() - i,
{
    if i >= lines.len() {
        (pets, skills)
    } else if !side.is_prefix_of(lines[i]) {
        shown_from(lines, side, i + 1, pets, skills)
    } else {
        shown_from(
            lines,
            side,
            i + 1,
            noted(pets, entered_in(lines[i])),
            noted(skills, used_in(lines[i])),
        )
    }
}

/// The names with a separator between them, or the word for none.
pub open spec fn named_or_none(list: Seq<Seq<char>>, sep: Seq<char>) -> Seq<char> {
    if list.len() == 0 {
        "无"@
    } else {
        text::joined(list, sep)
    }
}

/// The names with a separator between them, or the word for none.
pub fn names_or_none(list: &Vec<String>, sep: &str) -> (r: String)
    ensures
        r@ == named_or_none(text::texts(list@), sep@),
{
    if list.len() == 0 {
        assert(text::texts(list@).len() == 0);
        "无".to_owned()
    } else {
        text::join(list, sep)
    }
}

/// What lines of a side begin with.
pub open spec fn side_mark(side: Side) -> Seq<char> {
    match side {
        Side::A => "A方"@,
        Side::B => "B方"@,
    }
}

/// What a side has seen of its enemy.
pub open spec fn intel(side: Side, history: Seq<char>) -> Seq<char> {
    let (pets, skills) = shown_from(
        text::lines_of(history),
        side_mark(side.opponent()),
        0,
        seq![],
        seq![],
    );
    "- 敌方已出战精灵: "@ + named_or_none(pets, "，"@) + "\n- 敌方已展示技能: "@ + named_or_none(
        skills,
        "，"@,
    )
}

fn entered_name<'a>(line: &'a str) -> (r: Option<&'a str>)
    ensures
        (match r {
            Some(name) => entered_in(line@) == name@,
            None => entered_in(line@).len() == 0,
        }),
{
    match text::text_after(line, " 上场：") {
        Some(rest) => Some(text::trim(text::trim_end(rest, CharClass::Only('。')))),
        None => None,
    }
}

fn used_name<'a>(line: &'a str) -> (r: Option<&'a str>)
    ensures
        (match r {
            Some(name) => used_in(line@) == name@,
            None => used_in(line@).len() == 0,
        }),
{
    match text::text_after(line, " 使用 [") {
        Some(rest) => match text::split_once(rest, ']') {
            Some((name, _)) => Some(text::trim(name)),
            None => None,
        },
        None => None,
    }
}

/// What a side has seen of its enemy, in the order in which it was seen and each name once: the
/// skills that lines of the enemy tell of, and the names that stand in them behind a space and the
/// word for coming in. The lines that tell of an exchange of pets have a comma in front of that
/// word, so that they show no pet.
pub fn observed_enemy_intel(side: Side, history: &str) -> (r: String)
    ensures
        r@ == intel(side, history@),
{
    let enemy: &str = match side {
        Side::A => "B方",
        Side::B => "A方",
    };
    let lines: Vec<String> = text::lines(history);
    let mut pets: Vec<String> = Vec::new();
    let mut skills: Vec<String> = Vec::new();
    let ghost all = text::texts(lines@);
    let mut i: usize = 0;
    assert(text::texts(pets@) == Seq::<Seq<char>>::empty());
    assert(text::texts(skills@) == Seq::<Seq<char>>::empty());
    while i < lines.len()
        invariant
            i <= lines.len(),
            all == text::texts(lines@),
            shown_from(all, enemy@, 0, seq![], seq![]) == shown_from(
                all,
                enemy@,
                i as int,
                text::texts(pets@),
                text::texts(skills@),
            ),
        decreases lines.len() - i,
    {
        assert(all[i as int] == lines@[i as int]@);
        let line: &str = lines[i].as_str();
        if text::starts_with(line, enemy) {
            if let Some(name) = entered_name(line) {
                note(&mut pets, name);
            }
            if let Some(name) = used_name(line) {
                note(&mut skills, name);
            }
        }
        i = i + 1;
    }
    let mut m: String = "- 敌方已出战精灵: ".to_owned();
    m.append(names_or_none(&pets, "，").as_str());
    m.append("\n- 敌方已展示技能: ");
    m.append(names_or_none(&skills, "，").as_str());
    m
}

/// Where the rounds of a log begin.
pub open spec fn round_starts(history: Seq<char>) -> Seq<usize> {
    let inner = text::places(history, "\n【回合 "@, history.len() as int);
    if "【回合 "@.is_prefix_of(history) {
        seq![0usize] + inner
    } else {
        inner
    }
}

/// The last rounds of a log, at most that many; the whole log where no round has begun.
pub open spec fn recent(history: Seq<char>, keep_rounds: nat) -> Seq<char> {
    let starts = round_starts(history);
    if keep_rounds == 0 || text::trimmed(history).len() == 0 {
        "无"@
    } else if starts.len() == 0 {
        history
    } else if starts.len() > keep_rounds {
        text::trimmed(history.skip(starts[starts.len() - keep_rounds] as int))
    } else {
        text::trimmed(history.skip(starts[0] as int))
    }
}

/// The last rounds of a log, at most that many.
pub fn recent_round_history(history: &str, keep_rounds: usize) -> (r: String)
    ensures
        r@ == recent(history@, keep_rounds as nat),
{
    if keep_rounds == 0 || text::trim(history).unicode_len() == 0 {
        return "无".to_owned();
    }
    let mut starts: Vec<usize> = text::find_all(history, "\n【回合 ");
    if text::starts_with(history, "【回合 ") {
        let ghost inner = starts@;
        starts.insert(0, 0);
        assert(starts@ == seq![0usize] + inner);
    }
    assert(starts@ == round_starts(history@));
    if starts.len() == 0 {
        return history.to_owned();
    }
    let start: usize = if starts.len() > keep_rounds {
        starts[starts.len() - keep_rounds]
    } else {
        starts[0]
    };
    text::trim(text::skip_chars(history, start)).to_owned()
}

/// Whether a line is the header of a round.
pub open spec fn is_header(line: Seq<char>) -> bool {
    "【回合 "@.is_prefix_of(line) && "】"@.is_suffix_of(line)
}

/// The number of a round, from its header.
pub open spec fn header_number(line: Seq<char>) -> Seq<char> {
    text::trimmed_end(text::unprefixed(line, "【回合 "@), CharClass::Only('】'))
}

/// The lines from `i` on, each with the number of its round in front, until there are `max_lines`
/// of them, after those in `out`.
pub open spec fn dynamics(
    lines: Seq<Seq<char>>,
    i: int,
    round: Seq<char>,
    out: Seq<Seq<char>>,
    max_lines: nat,
) -> Seq<Seq<char>>
    decreases lines.len() - i,
{
    if i >= lines.len() {
        out
    } else {
        let line = text::trimmed(lines[i]);
        if line.len() == 0 {
            dynamics(lines, i + 1, round, out, max_lines)
        } else if is_header(line) {
            dynamics(lines, i + 1, header_number(line), out, max_lines)
        } else {
            let more = out.push(
                if round.len() == 0 {
                    line
                } else {
                    "R"@ + round + ": "@ + line
                },
            );
            if more.len() >= max_lines {
                more
            } else {
                dynamics(lines, i + 1, round, more, max_lines)
            }
        }
    }
}

/// The last rounds of a log in short.
pub open spec fn compact(history: Seq<char>, keep_rounds: nat, max_lines: nat) -> Seq<char> {
    let last = recent(history, keep_rounds);
    if last == "无"@ {
        last
    } else {
        named_or_none(dynamics(text::lines_of(last), 0, seq![], seq![], max_lines), "\n"@)
    }
}

fn short_line(line: &str, round: &str) -> (r: String)
    ensures
        r@ == (if round@.len() == 0 {
            line@
        } else {
            "R"@ + round@ + ": "@ + line@
        }),
{
    if round.unicode_len() == 0 {
        line.to_owned()
    } else {
        let mut m: String = "R".to_owned();
        m.append(round);
        m.append(": ");
        m.append(line);
        m
    }
}

/// The last rounds of a log in short.
pub fn compact_recent_dynamics(history: &str, keep_rounds: usize, max_lines: usize) -> (r: String)
    ensures
        r@ == compact(history@, keep_rounds as nat, max_lines as nat),
{
    let last: String = recent_round_history(history, keep_rounds);
    if text::same(last.as_str(), "无") {
        return last;
    }
    let lines: Vec<String> = text::lines(last.as_str());
    let ghost all = text::texts(lines@);
    let ghost wanted = dynamics(all, 0, seq![], seq![], max_lines as nat);
    let mut out: Vec<String> = Vec::new();
    let mut round: String = String::new();
    let mut i: usize = 0;
    assert(text::texts(out@) == Seq::<Seq<char>>::empty());
    while i < lines.len()
        invariant_except_break
            i <= lines.len(),
            all == text::texts(lines@),
            wanted == dynamics(all, i as int, round@, text::texts(out@), max_lines as nat),
        ensures
            wanted == text::texts(out@),
        decreases lines.len() - i,
    {
        assert(all[i as int] == lines@[i as int]@);
        let line: &str = text::trim(lines[i].as_str());
        if line.unicode_len() > 0 {
            if text::starts_with(line, "【回合 ") && text::ends_with(line, "】") {
                round = text::trim_end(
                    text::trim_prefix(line, "【回合 "),
                    CharClass::Only('】'),
                ).to_owned();
            } else {
                let ghost before = out@;
                let short: String = short_line(line, round.as_str());
                out.push(short);
                assert(text::texts(out@) == text::texts(before).push(short@));
                assert(text::texts(out@).len() == out.len());
                if out.len() >= max_lines {
                    break;
                }
            }
        }
        i = i + 1;
    }
    names_or_none(&out, "\n")
}

} // verus!
