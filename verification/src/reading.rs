//! What is written is read back: numbers, decisions, teams and events.

use vstd::prelude::*;
use crate::attack;
use crate::camp;
use crate::decide;
use crate::elements;
use crate::history;
use crate::laws;
use crate::llm;
use crate::number;
use crate::pet::{Choice, Pet, Side, Skill, WeatherState};
use crate::prompt;
use crate::replay;
use crate::team;
use crate::team::Entry;
use crate::text;
use crate::text::CharClass;

verus! {

/// Whether a character does not occur in a text.
pub open spec fn lacks(t: Seq<char>, c: char) -> bool {
    forall|i: int| 0 <= i < t.len() ==> #[trigger] t[i] != c
}

/// Whether a text has no white space around it, and is not empty.
pub open spec fn tight(t: Seq<char>) -> bool {
    t.len() > 0 && !text::is_space(t[0]) && !text::is_space(t.last())
}

proof fn lemma_untrimmed(t: Seq<char>, k: CharClass)
    requires
        t.len() > 0,
        !k.holds(t[0]),
        !k.holds(t.last()),
    ensures
        text::trimmed_of(t, k) == t,
{
    assert(text::lead(t, k) == 0);
    assert(text::trimmed_start(t, k) == t);
    assert(text::trail(t, k) == 0);
    assert(t.take(t.len() as int) == t);
}

proof fn lemma_index(a: Seq<char>, c: char, rest: Seq<char>)
    requires
        lacks(a, c),
    ensures
        text::index_of(a + seq![c] + rest, c) == a.len(),
        text::split_once_at(a + seq![c] + rest, c) == Some((a, rest)),
{
    let t = a + seq![c] + rest;
    text::lemma_index_of(t, c);
    let i = text::index_of(t, c);
    assert(t[a.len() as int] == c);
    if i < a.len() {
        assert(t[i] == a[i]);
    }
    if i > a.len() {
        assert(t[a.len() as int] != c);
    }
    assert(t.take(i) == a);
    assert(t.skip(i + 1) == rest);
}

proof fn lemma_no_index(a: Seq<char>, c: char)
    requires
        lacks(a, c),
    ensures
        text::index_of(a, c) == a.len(),
        text::split_once_at(a, c) is None,
{
    text::lemma_index_of(a, c);
    let i = text::index_of(a, c);
    if i < a.len() {
        assert(a[i] == c);
    }
}

// Numbers.

pub proof fn lemma_nat_text(n: nat)
    ensures
        number::nat_text(n).len() > 0,
        number::all_digits(number::nat_text(n)),
        number::digits_value(number::nat_text(n)) == n,
    decreases n,
{
    if n < 10 {
        let t = number::nat_text(n);
        assert(t == seq![number::digit(n as int)]);
        assert(t.drop_last() == Seq::<char>::empty());
        assert(number::digits_value(t.drop_last()) == 0);
        assert(t.last() as int == '0' as int + n);
    } else {
        lemma_nat_text(n / 10);
        let t = number::nat_text(n);
        let u = number::nat_text(n / 10);
        let d = number::digit((n % 10) as int);
        assert(t == u.push(d));
        assert(t.drop_last() == u);
        assert(d as int == '0' as int + n % 10);
        assert forall|i: int| 0 <= i < t.len() implies text::is_digit(#[trigger] t[i]) by {
            if i < u.len() {
                assert(t[i] == u[i]);
            }
        }
    }
}

/// A number that is written in decimal is read back as it was.
pub proof fn law_numbers_are_read_back(n: int)
    requires
        number::fits(n),
    ensures
        number::parsed_int(number::int_text(n)) == Some(n),
{
    if n < 0 {
        lemma_nat_text((-n) as nat);
        let t = number::int_text(n);
        assert(t[0] == '-');
        assert(t.drop_first() == number::nat_text((-n) as nat));
    } else {
        lemma_nat_text(n as nat);
        let t = number::int_text(n);
        assert(text::is_digit(t[0]));
    }
}

// Decisions.

/// Whether a name survives being written down as part of a reply: it is empty, or it is one line
/// with no white space around it and no quotation mark or backquote at its end.
pub open spec fn plain(name: Seq<char>) -> bool {
    name.len() > 0 ==> {
        &&& tight(name)
        &&& lacks(name, '\n')
        &&& name.last() != '"'
        &&& name.last() != '`'
    }
}

proof fn lemma_normal(t: Seq<char>)
    requires
        t.len() > 0,
        plain(t),
        t[0] != '"',
        t[0] != '`',
    ensures
        decide::normal_name(t) == t,
        text::trimmed(t) == t,
{
    lemma_no_index(t, '\n');
    assert(text::lines_of(t) == seq![t]);
    lemma_untrimmed(t, CharClass::Space);
    lemma_untrimmed(t, CharClass::Only('"'));
    lemma_untrimmed(t, CharClass::Only('`'));
}

proof fn lemma_name(name: Seq<char>)
    requires
        plain(name),
    ensures
        text::trimmed(name) == name,
{
    if name.len() > 0 {
        lemma_untrimmed(name, CharClass::Space);
    } else {
        assert(text::trimmed(name) == name);
    }
}

/// Whether the names in a decision survive being written down.
pub open spec fn plain_choice(choice: Choice) -> bool {
    match choice {
        Choice::UseSkill(name) => plain(name),
        Choice::Switch(name) => plain(name),
        Choice::Charge => true,
    }
}

/// A decision that is written down is read back as it was, whoever reads it.
pub proof fn law_decisions_are_read_back(choice: Choice, own: Pet)
    requires
        plain_choice(choice),
    ensures
        decide::parsed_decision(decide::choice_text(choice), own) == choice,
{
    reveal_strlit("CHARGE");
    reveal_strlit("SWITCH:");
    reveal_strlit("SKILL:");
    let t = decide::choice_text(choice);
    match choice {
        Choice::UseSkill(name) => {
            assert(t.skip(6) == name);
            assert(t.last() == if name.len() > 0 {
                name.last()
            } else {
                ':'
            });
            assert forall|i: int| 0 <= i < t.len() implies #[trigger] t[i] != '\n' by {
                if i >= 6 {
                    assert(t[i] == name[i - 6]);
                }
            }
            lemma_normal(t);
            lemma_name(name);
            assert(t[0] == 'S' && t[1] == 'K');
            assert("CHARGE"@[0] == 'C');
            assert("SWITCH:"@[1] == 'W');
            assert("SKILL:"@.is_prefix_of(t));
        },
        Choice::Switch(name) => {
            assert(t.skip(7) == name);
            assert(t.last() == if name.len() > 0 {
                name.last()
            } else {
                ':'
            });
            assert forall|i: int| 0 <= i < t.len() implies #[trigger] t[i] != '\n' by {
                if i >= 7 {
                    assert(t[i] == name[i - 7]);
                }
            }
            lemma_normal(t);
            lemma_name(name);
            assert(t[0] == 'S');
            assert("CHARGE"@[0] == 'C');
            assert("SWITCH:"@.is_prefix_of(t));
        },
        Choice::Charge => {
            lemma_normal(t);
        },
    }
}

proof fn lemma_skill_actions(p: Pet, sky: Option<WeatherState>, n: int, k: int)
    requires
        0 <= n <= p.skills.len(),
        0 <= k < prompt::skill_actions(p, sky, n).len(),
    ensures
        exists|i: int|
            0 <= i < n && #[trigger] prompt::affords(p, sky, i) && prompt::skill_actions(
                p,
                sky,
                n,
            )[k] == decide::choice_text(Choice::UseSkill(p.skills[i].name)),
    decreases n,
{
    if n > 0 {
        let front = prompt::skill_actions(p, sky, n - 1);
        if k < front.len() {
            lemma_skill_actions(p, sky, n - 1, k);
            let i = choose|i: int|
                0 <= i < n - 1 && #[trigger] prompt::affords(p, sky, i) && front[k]
                    == decide::choice_text(Choice::UseSkill(p.skills[i].name));
            assert(prompt::affords(p, sky, i));
        } else {
            assert(prompt::affords(p, sky, n - 1));
        }
    }
}

/// Each action that a side is offered is a legal decision, and is taken as such when the side
/// replies with it.
pub proof fn law_offers_are_legal(
    team: Seq<Pet>,
    active: int,
    sky: Option<WeatherState>,
    k: int,
)
    requires
        0 <= active < team.len() <= usize::MAX,
        laws::unambiguous(team[active]),
        forall|i: int|
            0 <= i < team[active].skills.len() ==> plain((#[trigger] team[active].skills[i]).name),
        forall|i: int| 0 <= i < team.len() ==> plain((#[trigger] team[i]).name),
        0 <= k < prompt::legal_actions(team, active, sky).len(),
    ensures
        decide::invalid_reason(
            team,
            active,
            decide::parsed_decision(prompt::legal_actions(team, active, sky)[k], team[active]),
            sky,
        ) is None,
{
    let own = team[active];
    let n = own.skills.len() as int;
    let skills = prompt::skill_actions(own, sky, n);
    let names = prompt::reserve_names(team, active);
    let switches = prompt::prefixed("SWITCH:"@, names);
    let all = prompt::legal_actions(team, active, sky);
    assert(all == (skills + switches).push("CHARGE"@));
    if k < skills.len() {
        assert(all[k] == skills[k]);
        lemma_skill_actions(own, sky, n, k);
        let i = choose|i: int|
            0 <= i < n && #[trigger] prompt::affords(own, sky, i) && skills[k]
                == decide::choice_text(Choice::UseSkill(own.skills[i].name));
        law_decisions_are_read_back(Choice::UseSkill(own.skills[i].name), own);
        laws::law_affordable_is_legal(team, active, i, sky);
    } else if k < skills.len() + switches.len() {
        let j = k - skills.len();
        assert(all[k] == switches[j]);
        let at = camp::reserves(team, active)[j];
        laws::law_reserves(team, active, j);
        assert(names[j] == team[at as int].name);
        assert(switches[j] == decide::choice_text(Choice::Switch(team[at as int].name)));
        law_decisions_are_read_back(Choice::Switch(team[at as int].name), own);
        laws::law_reserve_is_legal(team, active, at as int, sky);
    } else {
        assert(all[k] == decide::choice_text(Choice::Charge));
        law_decisions_are_read_back(Choice::Charge, own);
    }
}

/// A reply that is nothing but a name is a decision to use the skill of that name, if the fighter
/// knows it, and else its first skill.
pub proof fn law_bare_names_are_read(name: Seq<char>, own: Pet)
    requires
        name.len() > 0,
        plain(name),
        name[0] != '"',
        name[0] != '`',
        lacks(name, ':'),
        name != "CHARGE"@,
    ensures
        own.knows(name) ==> decide::parsed_decision(name, own) == Choice::UseSkill(name),
        !own.knows(name) ==> decide::parsed_decision(name, own) == Choice::UseSkill(
            own.skills[0].name,
        ),
{
    reveal_strlit("SWITCH:");
    reveal_strlit("SKILL:");
    lemma_normal(name);
    assert("SWITCH:"@[6] == ':' && "SKILL:"@[5] == ':');
    if "SWITCH:"@.is_prefix_of(name) {
        assert(name[6] == ':');
    }
    if "SKILL:"@.is_prefix_of(name) {
        assert(name[5] == ':');
    }
}

// Teams.

proof fn lemma_pieces(a: Seq<char>, c: char, rest: Seq<char>)
    requires
        lacks(a, c),
    ensures
        text::pieces(a + seq![c] + rest, c) == seq![a] + text::pieces(rest, c),
{
    lemma_index(a, c, rest);
}

proof fn lemma_last_piece(a: Seq<char>, c: char)
    requires
        lacks(a, c),
    ensures
        text::pieces(a, c) == seq![a],
{
    lemma_no_index(a, c);
}

/// Four names with commas between them.
pub open spec fn listed(s: Seq<Seq<char>>) -> Seq<char> {
    s[0] + seq![','] + (s[1] + seq![','] + (s[2] + seq![','] + s[3]))
}

proof fn lemma_four_parts(s: Seq<Seq<char>>)
    requires
        s.len() == 4,
        forall|i: int| 0 <= i < 4 ==> tight(#[trigger] s[i]) && lacks(s[i], ','),
    ensures
        text::trimmed_parts(text::pieces(listed(s), ',')) == s,
{
    let r2 = s[2] + seq![','] + s[3];
    let r1 = s[1] + seq![','] + r2;
    assert(tight(s[0]) && tight(s[1]) && tight(s[2]) && tight(s[3]));
    lemma_pieces(s[0], ',', r1);
    lemma_pieces(s[1], ',', r2);
    lemma_pieces(s[2], ',', s[3]);
    lemma_last_piece(s[3], ',');
    let ps = text::pieces(listed(s), ',');
    assert(ps == seq![s[0], s[1], s[2], s[3]]);
    lemma_untrimmed(s[0], CharClass::Space);
    lemma_untrimmed(s[1], CharClass::Space);
    lemma_untrimmed(s[2], CharClass::Space);
    lemma_untrimmed(s[3], CharClass::Space);
    let p3 = ps.drop_last();
    let p2 = p3.drop_last();
    let p1 = p2.drop_last();
    assert(p1.drop_last() == Seq::<Seq<char>>::empty());
    assert(text::trimmed_parts(p1.drop_last()) == Seq::<Seq<char>>::empty());
    assert(text::trimmed_parts(p1) == seq![s[0]]);
    assert(text::trimmed_parts(p2) == seq![s[0], s[1]]);
    assert(text::trimmed_parts(p3) == seq![s[0], s[1], s[2]]);
    assert(text::trimmed_parts(ps) == seq![s[0], s[1], s[2], s[3]]);
    assert(s == seq![s[0], s[1], s[2], s[3]]);
}

/// A line with a pet, a colon and four skills with commas between them is read as that pet, of the
/// neutral nature, with these skills.
pub proof fn law_team_lines_are_read(pet: Seq<char>, skills: Seq<Seq<char>>, side_name: Seq<char>)
    requires
        tight(pet),
        lacks(pet, ':'),
        lacks(pet, '@'),
        skills.len() == 4,
        forall|i: int| 0 <= i < 4 ==> tight(#[trigger] skills[i]) && lacks(skills[i], ','),
    ensures
        team::parsed_line(pet + seq![':'] + listed(skills), side_name) == Ok::<Entry, Seq<char>>(
            Entry { pet, nature: "认真"@, skills },
        ),
{
    lemma_index(pet, ':', listed(skills));
    lemma_four_parts(skills);
    lemma_untrimmed(pet, CharClass::Space);
    lemma_no_index(pet, '@');
}

/// A nature may stand behind an at sign.
pub proof fn law_natures_are_read(
    pet: Seq<char>,
    nature: Seq<char>,
    skills: Seq<Seq<char>>,
    side_name: Seq<char>,
)
    requires
        tight(pet),
        tight(nature),
        lacks(pet, ':'),
        lacks(pet, '@'),
        lacks(nature, ':'),
        skills.len() == 4,
        forall|i: int| 0 <= i < 4 ==> tight(#[trigger] skills[i]) && lacks(skills[i], ','),
    ensures
        team::parsed_line(pet + seq!['@'] + nature + seq![':'] + listed(skills), side_name)
            == Ok::<Entry, Seq<char>>(
            Entry { pet, nature: elements::normal_nature(nature), skills },
        ),
{
    let token = pet + seq!['@'] + nature;
    assert(token.last() == nature.last());
    assert(token[0] == pet[0]);
    lemma_index(token, ':', listed(skills));
    lemma_four_parts(skills);
    lemma_untrimmed(token, CharClass::Space);
    lemma_untrimmed(pet, CharClass::Space);
    lemma_untrimmed(nature, CharClass::Space);
    lemma_index(pet, '@', nature);
}

// Settings.

/// A line with a key, an equals sign and a value is read as that setting; with a number sign in
/// front it is none.
pub proof fn law_settings_are_read(key: Seq<char>, value: Seq<char>)
    requires
        tight(key),
        tight(value),
        lacks(key, '='),
        key[0] != '#',
    ensures
        llm::setting_in(key + seq!['='] + value) == Some((key, value)),
        llm::setting_in(seq!['#'] + key + seq!['='] + value) is None,
{
    let t = key + seq!['='] + value;
    let u = seq!['#'] + key + seq!['='] + value;
    assert(t[0] == key[0] && t.last() == value.last());
    assert(u[0] == '#' && u.last() == value.last());
    lemma_untrimmed(t, CharClass::Space);
    lemma_untrimmed(u, CharClass::Space);
    lemma_untrimmed(key, CharClass::Space);
    lemma_untrimmed(value, CharClass::Space);
    lemma_index(key, '=', value);
}

// Events.

pub proof fn lemma_lacks(a: Seq<char>, b: Seq<char>, c: char)
    requires
        lacks(a, c),
        lacks(b, c),
    ensures
        lacks(a + b, c),
{
    assert forall|i: int| 0 <= i < (a + b).len() implies #[trigger] (a + b)[i] != c by {
        if i < a.len() {
            assert((a + b)[i] == a[i]);
        } else {
            assert((a + b)[i] == b[i - a.len()]);
        }
    }
}

pub proof fn lemma_number_lacks(n: int, c: char)
    requires
        !text::is_digit(c),
        c != '-',
    ensures
        lacks(number::int_text(n), c),
{
    if n < 0 {
        lemma_nat_text((-n) as nat);
        let u = number::nat_text((-n) as nat);
        assert forall|i: int| 0 <= i < number::int_text(n).len() implies #[trigger] number::int_text(
            n,
        )[i] != c by {
            if i > 0 {
                assert(number::int_text(n)[i] == u[i - 1]);
                assert(text::is_digit(u[i - 1]));
            }
        }
    } else {
        lemma_nat_text(n as nat);
        let u = number::nat_text(n as nat);
        assert forall|i: int| 0 <= i < u.len() implies #[trigger] u[i] != c by {
            assert(text::is_digit(u[i]));
        }
    }
}

/// What stands behind and in front of a pattern, one character of which occurs nowhere before.
pub proof fn lemma_around(prefix: Seq<char>, pat: Seq<char>, rest: Seq<char>, k: int)
    requires
        0 <= k < pat.len(),
        lacks(prefix, pat[k]),
        forall|m: int| 0 <= m < k ==> #[trigger] pat[m] != pat[k],
    ensures
        text::after(prefix + pat + rest, pat) == Some(rest),
        text::before(prefix + pat + rest, pat) == Some(prefix),
        text::has(prefix + pat + rest, pat),
        text::position(prefix + pat + rest, pat) == Some(prefix.len() as int),
{
    let t = prefix + pat + rest;
    let n = prefix.len() as int;
    assert(t.subrange(n, n + pat.len()) == pat);
    assert(text::occurs_at(t, pat, n));
    assert forall|j: int| 0 <= j < n implies !#[trigger] text::occurs_at(t, pat, j) by {
        if text::occurs_at(t, pat, j) {
            assert(t.subrange(j, j + pat.len())[k] == pat[k]);
            assert(t[j + k] == pat[k]);
            if j + k < n {
                assert(t[j + k] == prefix[j + k]);
            } else {
                assert(t[j + k] == pat[j + k - n]);
            }
        }
    }
    text::lemma_position_is(t, pat, n);
    assert(t.skip(n + pat.len()) == rest);
    assert(t.take(n) == prefix);
}

pub proof fn lemma_has_not(t: Seq<char>, pat: Seq<char>, k: int)
    requires
        0 <= k < pat.len(),
        lacks(t, pat[k]),
    ensures
        !text::has(t, pat),
        text::after(t, pat) is None,
{
    assert forall|j: int| !#[trigger] text::occurs_at(t, pat, j) by {
        if text::occurs_at(t, pat, j) {
            assert(t.subrange(j, j + pat.len())[k] == pat[k]);
            assert(t[j + k] == pat[k]);
        }
    }
    text::lemma_position(t, pat);
}

pub proof fn lemma_has_within(a: Seq<char>, pat: Seq<char>, b: Seq<char>)
    ensures
        text::has(a + pat + b, pat),
{
    let t = a + pat + b;
    assert(t.subrange(a.len() as int, (a.len() + pat.len()) as int) == pat);
    assert(text::occurs_at(t, pat, a.len() as int));
}

pub proof fn lemma_run(run: Seq<char>, rest: Seq<char>, k: CharClass)
    requires
        forall|i: int| 0 <= i < run.len() ==> k.holds(#[trigger] run[i]),
        rest.len() > 0 ==> !k.holds(rest[0]),
    ensures
        text::head_run(run + rest, k) == run,
{
    let t = run + rest;
    assert forall|i: int| 0 <= i < run.len() implies k.holds(#[trigger] t[i]) by {
        assert(t[i] == run[i]);
    }
    if run.len() < t.len() {
        assert(t[run.len() as int] == rest[0]);
    }
    text::lemma_lead_unique(t, k, run.len() as int);
    assert(t.take(run.len() as int) == run);
}

proof fn lemma_behind_last(a: Seq<char>, c: char, rest: Seq<char>)
    requires
        lacks(rest, c),
    ensures
        text::last_index_of(a + seq![c] + rest, c) == a.len(),
        text::after_last(a + seq![c] + rest, c) == Some(rest),
    decreases rest.len(),
{
    let t = a + seq![c] + rest;
    if rest.len() == 0 {
        assert(t.last() == c);
    } else {
        assert(t.last() == rest.last());
        assert(rest.last() == rest[rest.len() - 1]);
        assert(t.drop_last() == a + seq![c] + rest.drop_last());
        assert forall|i: int| 0 <= i < rest.drop_last().len() implies #[trigger] rest.drop_last()[i]
            != c by {
            assert(rest.drop_last()[i] == rest[i]);
        }
        lemma_behind_last(a, c, rest.drop_last());
    }
    assert(t.skip((a.len() + 1) as int) == rest);
}

/// Whether a name does not disturb the reading of the lines that it stands in.
pub open spec fn quiet(name: Seq<char>) -> bool {
    &&& tight(name)
    &&& lacks(name, '[')
    &&& lacks(name, ']')
    &&& lacks(name, '。')
    &&& lacks(name, '造')
    &&& lacks(name, '克')
    &&& lacks(name, '方')
    &&& lacks(name, '蓄')
    &&& lacks(name, '回')
    &&& lacks(name, 'H')
}

/// The beginning of what is said of a use of a skill.
pub open spec fn strike_head(side: Side, attacker: Seq<char>, skill: Seq<char>, cost: int) -> Seq<char> {
    side.letter() + "方 "@ + attacker + " 使用 ["@ + skill + "]，消耗"@ + number::int_text(cost)
}

/// The end of what is said of a use of a skill.
pub open spec fn strike_tail(defender: Seq<char>, cur_hp: int, hp: int) -> Seq<char> {
    defender + " HP: "@ + number::int_text(cur_hp) + "/"@ + number::int_text(hp)
}

proof fn lemma_head_lacks(side: Side, attacker: Seq<char>, skill: Seq<char>, cost: int, c: char)
    requires
        c == '。' || c == '造' || c == '克' || c == '蓄' || c == '回' || c == 'H',
        lacks(attacker, c),
        lacks(skill, c),
    ensures
        lacks(strike_head(side, attacker, skill, cost), c),
{
    reveal_strlit("A");
    reveal_strlit("B");
    reveal_strlit("方 ");
    reveal_strlit(" 使用 [");
    reveal_strlit("]，消耗");
    assert(lacks(side.letter(), c));
    assert(lacks("方 "@, c));
    assert(lacks(" 使用 ["@, c));
    assert(lacks("]，消耗"@, c));
    lemma_number_lacks(cost, c);
    let t1 = side.letter() + "方 "@;
    lemma_lacks(side.letter(), "方 "@, c);
    lemma_lacks(t1, attacker, c);
    lemma_lacks(t1 + attacker, " 使用 ["@, c);
    lemma_lacks(t1 + attacker + " 使用 ["@, skill, c);
    lemma_lacks(t1 + attacker + " 使用 ["@ + skill, "]，消耗"@, c);
    lemma_lacks(t1 + attacker + " 使用 ["@ + skill + "]，消耗"@, number::int_text(cost), c);
}

proof fn lemma_tail_lacks(defender: Seq<char>, cur_hp: int, hp: int, c: char)
    requires
        c == '造' || c == '克' || c == '蓄' || c == '回',
        lacks(defender, c),
    ensures
        lacks(strike_tail(defender, cur_hp, hp), c),
{
    reveal_strlit(" HP: ");
    reveal_strlit("/");
    assert(lacks(" HP: "@, c));
    assert(lacks("/"@, c));
    lemma_number_lacks(cur_hp, c);
    lemma_number_lacks(hp, c);
    lemma_lacks(defender, " HP: "@, c);
    lemma_lacks(defender + " HP: "@, number::int_text(cur_hp), c);
    lemma_lacks(defender + " HP: "@ + number::int_text(cur_hp), "/"@, c);
    lemma_lacks(defender + " HP: "@ + number::int_text(cur_hp) + "/"@, number::int_text(hp), c);
}

/// What is said of the factor of the elements, behind the damage.
pub open spec fn verdict(factor: int) -> Seq<char> {
    if factor == 100 {
        " 伤害"@
    } else {
        " 伤害(克制x"@ + factor_digits(factor) + ")"@
    }
}

/// The factor of the elements in decimal.
pub open spec fn factor_digits(factor: int) -> Seq<char> {
    number::int_text(factor / 100) + "."@ + number::int_text(factor / 10 % 10) + number::int_text(
        factor % 10,
    )
}

/// What is said of a use of a skill that takes health, without the line feed.
pub open spec fn strike_line(
    side: Side,
    attacker: Pet,
    defender: Pet,
    skill: Skill,
    cost: int,
    dmg: int,
) -> Seq<char> {
    let factor = elements::type_factor(skill.element, defender.element1, defender.element2);
    strike_head(side, attacker.name, skill.name, cost) + "能量，造成 "@ + number::int_text(dmg)
        + verdict(factor) + seq!['。'] + strike_tail(defender.name, defender.cur_hp, defender.hp)
}

proof fn lemma_strike_line(
    side: Side,
    attacker: Pet,
    defender: Pet,
    skill: Skill,
    cost: int,
    dmg: int,
)
    ensures
        attack::strike_text(side, attacker, defender, skill, cost, Some(dmg)) == strike_line(
            side,
            attacker,
            defender,
            skill,
            cost,
            dmg,
        ) + "\n"@,
{
    reveal_strlit(" 伤害");
    reveal_strlit(" 伤害。");
    reveal_strlit(")");
    reveal_strlit(")。");
    let factor = elements::type_factor(skill.element, defender.element1, defender.element2);
    let used = strike_head(side, attacker.name, skill.name, cost);
    let start = used + "能量，造成 "@ + number::int_text(dmg);
    let tail = strike_tail(defender.name, defender.cur_hp, defender.hp);
    let done = if factor == 100 {
        start + " 伤害。"@
    } else {
        start + " 伤害(克制x"@ + number::int_text(factor / 100) + "."@ + number::int_text(
            factor / 10 % 10,
        ) + number::int_text(factor % 10) + ")。"@
    };
    if factor == 100 {
        assert(" 伤害。"@ == " 伤害"@ + seq!['。']);
        assert(done == start + verdict(factor) + seq!['。']);
    } else {
        assert(")。"@ == ")"@ + seq!['。']);
        assert(done == start + verdict(factor) + seq!['。']);
    }
    assert(done + defender.name + " HP: "@ + number::int_text(defender.cur_hp) + "/"@
        + number::int_text(defender.hp) + "\n"@ == done + tail + "\n"@);
}

proof fn lemma_verdict(factor: int, c: char)
    requires
        c == '。' || c == '造' || c == '蓄' || c == '回' || c == '方' || c == 'H',
    ensures
        lacks(verdict(factor), c),
        verdict(factor).len() > 0,
        verdict(factor)[0] == ' ',
{
    reveal_strlit(" 伤害");
    reveal_strlit(" 伤害(克制x");
    reveal_strlit(".");
    reveal_strlit(")");
    assert(lacks(" 伤害"@, c));
    assert(lacks(" 伤害(克制x"@, c));
    assert(lacks("."@, c));
    assert(lacks(")"@, c));
    let (x, y, z) = (
        number::int_text(factor / 100),
        number::int_text(factor / 10 % 10),
        number::int_text(factor % 10),
    );
    lemma_number_lacks(factor / 100, c);
    lemma_number_lacks(factor / 10 % 10, c);
    lemma_number_lacks(factor % 10, c);
    lemma_lacks(x, "."@, c);
    lemma_lacks(x + "."@, y, c);
    lemma_lacks(x + "."@ + y, z, c);
    lemma_lacks(" 伤害(克制x"@, factor_digits(factor), c);
    lemma_lacks(" 伤害(克制x"@ + factor_digits(factor), ")"@, c);
}

proof fn lemma_amount(head: Seq<char>, dmg: int, rest: Seq<char>)
    requires
        lacks(head, '造'),
        0 <= dmg <= i32::MAX,
        rest.len() > 0,
        rest[0] == ' ',
    ensures
        replay::damage_in(head + "能量，造成 "@ + number::int_text(dmg) + rest) == Some(dmg),
        text::has(head + "能量，造成 "@ + number::int_text(dmg) + rest, "造成 "@),
{
    reveal_strlit("能量，造成 ");
    reveal_strlit("能量，");
    reveal_strlit("造成 ");
    let d = number::int_text(dmg);
    let line = head + "能量，造成 "@ + d + rest;
    assert("能量，造成 "@ == "能量，"@ + "造成 "@);
    assert(lacks("能量，"@, '造'));
    lemma_lacks(head, "能量，"@, '造');
    assert(line == (head + "能量，"@) + "造成 "@ + (d + rest));
    lemma_around(head + "能量，"@, "造成 "@, d + rest, 0);
    lemma_nat_text(dmg as nat);
    assert forall|i: int| 0 <= i < d.len() implies CharClass::Digit.holds(#[trigger] d[i]) by {
        assert(text::is_digit(d[i]));
    }
    lemma_run(d, rest, CharClass::Digit);
    law_numbers_are_read_back(dmg);
}

proof fn lemma_bracket(side: Side, attacker: Seq<char>, skill: Seq<char>, cost: int, rest: Seq<char>)
    requires
        lacks(attacker, '['),
        lacks(skill, ']'),
    ensures
        replay::bracketed(strike_head(side, attacker, skill, cost) + rest) == Some(skill),
{
    reveal_strlit("A");
    reveal_strlit("B");
    reveal_strlit("方 ");
    reveal_strlit(" 使用 [");
    reveal_strlit(" 使用 ");
    reveal_strlit("]，消耗");
    reveal_strlit("，消耗");
    let c = '[';
    let front = side.letter() + "方 "@ + attacker + " 使用 "@;
    let more = "，消耗"@ + number::int_text(cost) + rest;
    assert(lacks(side.letter(), c) && lacks("方 "@, c) && lacks(" 使用 "@, c));
    lemma_lacks(side.letter(), "方 "@, c);
    lemma_lacks(side.letter() + "方 "@, attacker, c);
    lemma_lacks(side.letter() + "方 "@ + attacker, " 使用 "@, c);
    assert(" 使用 ["@ == " 使用 "@ + seq!['[']);
    assert("]，消耗"@ == seq![']'] + "，消耗"@);
    assert(strike_head(side, attacker, skill, cost) + rest == front + seq!['['] + (skill + seq![
        ']',
    ] + more));
    lemma_index(front, '[', skill + seq![']'] + more);
    lemma_index(skill, ']', more);
}

proof fn lemma_target(start: Seq<char>, defender: Seq<char>, cur_hp: int, hp: int)
    requires
        lacks(start, 'H'),
        lacks(defender, 'H'),
        lacks(defender, '。'),
        tight(defender),
    ensures
        replay::target_in(start + seq!['。'] + strike_tail(defender, cur_hp, hp)) == Some(defender),
{
    reveal_strlit(" HP: ");
    let numbers = number::int_text(cur_hp) + "/"@ + number::int_text(hp);
    let front = start + seq!['。'] + defender;
    assert(lacks(seq!['。'], 'H'));
    lemma_lacks(start, seq!['。'], 'H');
    lemma_lacks(start + seq!['。'], defender, 'H');
    assert(start + seq!['。'] + strike_tail(defender, cur_hp, hp) == front + " HP: "@ + numbers);
    assert(" HP: "@[1] == 'H' && " HP: "@[0] == ' ');
    lemma_around(front, " HP: "@, numbers, 1);
    lemma_behind_last(start, '。', defender);
    lemma_untrimmed(defender, CharClass::Space);
}

proof fn lemma_side(side: Side, rest: Seq<char>)
    requires
        lacks(rest, '方'),
    ensures
        replay::side_in(side.letter() + "方 "@ + rest) == Some(side.letter()),
        replay::target_side_in(side.letter() + "方 "@ + rest, Some(side.letter())) == Some(
            side.opponent().letter(),
        ),
{
    reveal_strlit("A");
    reveal_strlit("B");
    reveal_strlit("方 ");
    reveal_strlit("A方");
    reveal_strlit("B方");
    let line = side.letter() + "方 "@ + rest;
    assert(line[0] == side.letter()[0]);
    assert(line[1] == '方');
    assert(line[2] == ' ');
    assert forall|j: int| 0 <= j < line.len() && j != 1 implies #[trigger] line[j] != '方' by {
        if j >= 3 {
            assert(line[j] == rest[j - 3]);
        }
    }
    assert("A"@[0] == 'A' && "B"@[0] == 'B');
    match side {
        Side::A => {
            assert(line.subrange(0, 2) == "A方"@);
            assert(text::occurs_at(line, "A方"@, 0));
            assert forall|j: int| !#[trigger] text::occurs_at(line, "B方"@, j) by {
                if text::occurs_at(line, "B方"@, j) {
                    assert(line.subrange(j, j + 2)[1] == '方');
                    assert(line.subrange(j, j + 2)[0] == 'B');
                    assert(line[j + 1] == '方');
                }
            }
        },
        Side::B => {
            assert(line.subrange(0, 2) == "B方"@);
            assert(text::occurs_at(line, "B方"@, 0));
            assert forall|j: int| !#[trigger] text::occurs_at(line, "A方"@, j) by {
                if text::occurs_at(line, "A方"@, j) {
                    assert(line.subrange(j, j + 2)[1] == '方');
                    assert(line.subrange(j, j + 2)[0] == 'A');
                    assert(line[j + 1] == '方');
                }
            }
        },
    }
    assert("A"@ != "B"@);
}

proof fn lemma_factor_digits(factor: int)
    requires
        0 <= factor < 1000,
    ensures
        replay::is_decimal(factor_digits(factor)),
        forall|i: int|
            0 <= i < factor_digits(factor).len() ==> CharClass::Numeral.holds(
                #[trigger] factor_digits(factor)[i],
            ),
{
    reveal_strlit(".");
    let t = factor_digits(factor);
    let (x, y, z) = (factor / 100, factor / 10 % 10, factor % 10);
    assert(number::int_text(x) == seq![number::digit(x)]);
    assert(number::int_text(y) == seq![number::digit(y)]);
    assert(number::int_text(z) == seq![number::digit(z)]);
    assert(t == seq![number::digit(x), '.', number::digit(y), number::digit(z)]);
    assert(text::is_digit(number::digit(x)));
    assert(text::is_digit(number::digit(y)));
    assert(text::is_digit(number::digit(z)));
    assert(text::is_digit(t[0]));
    assert(t[2] != '.' && t[3] != '.');
}

proof fn lemma_multiplier(head: Seq<char>, dmg: int, factor: int, rest: Seq<char>)
    requires
        lacks(head, '克'),
        lacks(rest, '克'),
        0 <= factor < 1000,
    ensures
        replay::multiplier_in(
            head + "能量，造成 "@ + number::int_text(dmg) + verdict(factor) + seq!['。'] + rest,
        ) == (if factor == 100 {
            None
        } else {
            Some(factor_digits(factor))
        }),
{
    reveal_strlit("能量，造成 ");
    reveal_strlit(" 伤害");
    reveal_strlit(" 伤害(");
    reveal_strlit(" 伤害(克制x");
    reveal_strlit("克制x");
    reveal_strlit(")");
    let c = '克';
    let d = number::int_text(dmg);
    let start = head + "能量，造成 "@ + d;
    let line = start + verdict(factor) + seq!['。'] + rest;
    assert(lacks("能量，造成 "@, c));
    lemma_number_lacks(dmg, c);
    lemma_lacks(head, "能量，造成 "@, c);
    lemma_lacks(head + "能量，造成 "@, d, c);
    if factor == 100 {
        assert(lacks(" 伤害"@, c));
        assert(lacks(seq!['。'], c));
        lemma_lacks(start, " 伤害"@, c);
        lemma_lacks(start + " 伤害"@, seq!['。'], c);
        lemma_lacks(start + " 伤害"@ + seq!['。'], rest, c);
        lemma_has_not(line, "克制x"@, 0);
    } else {
        let digits = factor_digits(factor);
        let more = ")"@ + seq!['。'] + rest;
        assert(" 伤害(克制x"@ == " 伤害("@ + "克制x"@);
        assert(lacks(" 伤害("@, c));
        lemma_lacks(start, " 伤害("@, c);
        assert(line == (start + " 伤害("@) + "克制x"@ + (digits + more));
        lemma_around(start + " 伤害("@, "克制x"@, digits + more, 0);
        lemma_factor_digits(factor);
        assert(more[0] == ')');
        lemma_run(digits, more, CharClass::Numeral);
    }
}

proof fn lemma_kind(line: Seq<char>, a: Seq<char>, b: Seq<char>)
    requires
        lacks(line, '蓄'),
        lacks(line, '回'),
        text::has(line, "造成 "@),
        line == a + "伤害"@ + b,
    ensures
        replay::kind_of(line) == "DAMAGE"@,
{
    reveal_strlit("进入蓄力状态");
    reveal_strlit("使用 [回能]");
    reveal_strlit("回复");
    lemma_has_not(line, "进入蓄力状态"@, 2);
    lemma_has_not(line, "使用 [回能]"@, 4);
    lemma_has_not(line, "回复"@, 0);
    lemma_has_within(a, "伤害"@, b);
}

/// The line that tells of a use of a skill which takes health is read as that: by which side it
/// was used and against which, which skill it was, whom it hit, how much health it took, and with
/// which factor of the elements.
pub proof fn law_strikes_are_read(
    side: Side,
    attacker: Pet,
    defender: Pet,
    skill: Skill,
    cost: int,
    dmg: int,
)
    requires
        quiet(attacker.name),
        quiet(defender.name),
        quiet(skill.name),
        0 <= dmg <= i32::MAX,
    ensures
        ({
            let line = strike_line(side, attacker, defender, skill, cost, dmg);
            let frame = replay::frame_of(line);
            let factor = elements::type_factor(
                skill.element,
                defender.element1,
                defender.element2,
            );
            &&& attack::strike_text(side, attacker, defender, skill, cost, Some(dmg)) == line
                + "\n"@
            &&& frame.event_type == "DAMAGE"@
            &&& frame.source == Some(side.letter())
            &&& frame.target_side == Some(side.opponent().letter())
            &&& frame.target == Some(defender.name)
            &&& frame.skill == Some(skill.name)
            &&& frame.anim_id == Some("skill:"@ + skill.name)
            &&& frame.amount == Some(dmg as i32)
            &&& frame.multiplier == (if factor == 100 {
                None
            } else {
                Some(factor_digits(factor))
            })
            &&& frame.text == line
        }),
{
    let factor = elements::type_factor(skill.element, defender.element1, defender.element2);
    let head = strike_head(side, attacker.name, skill.name, cost);
    let tail = strike_tail(defender.name, defender.cur_hp, defender.hp);
    let d = number::int_text(dmg);
    let v = verdict(factor);
    let stop = seq!['。'];
    let line = strike_line(side, attacker, defender, skill, cost, dmg);
    lemma_strike_line(side, attacker, defender, skill, cost, dmg);
    // the amount
    lemma_head_lacks(side, attacker.name, skill.name, cost, '造');
    lemma_verdict(factor, '造');
    assert(line == head + "能量，造成 "@ + d + (v + stop + tail));
    assert((v + stop + tail)[0] == v[0]);
    lemma_amount(head, dmg, v + stop + tail);
    // the skill
    assert(line == head + ("能量，造成 "@ + d + v + stop + tail));
    lemma_bracket(side, attacker.name, skill.name, cost, "能量，造成 "@ + d + v + stop + tail);
    // the target
    let start = head + "能量，造成 "@ + d + v;
    reveal_strlit("能量，造成 ");
    lemma_head_lacks(side, attacker.name, skill.name, cost, 'H');
    lemma_verdict(factor, 'H');
    lemma_number_lacks(dmg, 'H');
    assert(lacks("能量，造成 "@, 'H'));
    lemma_lacks(head, "能量，造成 "@, 'H');
    lemma_lacks(head + "能量，造成 "@, d, 'H');
    lemma_lacks(head + "能量，造成 "@ + d, v, 'H');
    lemma_target(start, defender.name, defender.cur_hp, defender.hp);
    // the factor
    lemma_head_lacks(side, attacker.name, skill.name, cost, '克');
    lemma_tail_lacks(defender.name, defender.cur_hp, defender.hp, '克');
    lemma_multiplier(head, dmg, factor, tail);
    lemma_sides(side, attacker, defender, skill, cost, dmg);
    lemma_damage_kind(side, attacker, defender, skill, cost, dmg);
}

/// A skill that a side has used to take health is one that its enemy has seen.
pub proof fn law_skills_are_seen(
    side: Side,
    attacker: Pet,
    defender: Pet,
    skill: Skill,
    cost: int,
    dmg: int,
)
    requires
        quiet(attacker.name),
        quiet(skill.name),
    ensures
        ({
            let line = strike_line(side, attacker, defender, skill, cost, dmg);
            &&& history::side_mark(side).is_prefix_of(line)
            &&& history::used_in(line) == skill.name
        }),
{
    reveal_strlit("A");
    reveal_strlit("B");
    reveal_strlit("A方");
    reveal_strlit("B方");
    reveal_strlit("方 ");
    reveal_strlit(" 使用 [");
    reveal_strlit("]，消耗");
    reveal_strlit("，消耗");
    let c = '[';
    let line = strike_line(side, attacker, defender, skill, cost, dmg);
    let factor = elements::type_factor(skill.element, defender.element1, defender.element2);
    let tail = strike_tail(defender.name, defender.cur_hp, defender.hp);
    let front = side.letter() + "方 "@ + attacker.name;
    let more = "，消耗"@ + number::int_text(cost) + "能量，造成 "@ + number::int_text(dmg) + verdict(
        factor,
    ) + seq!['。'] + tail;
    assert(lacks(side.letter(), c) && lacks("方 "@, c));
    lemma_lacks(side.letter(), "方 "@, c);
    lemma_lacks(side.letter() + "方 "@, attacker.name, c);
    assert("]，消耗"@ == seq![']'] + "，消耗"@);
    assert(line == front + " 使用 ["@ + (skill.name + seq![']'] + more));
    assert(" 使用 ["@[4] == '[');
    lemma_around(front, " 使用 ["@, skill.name + seq![']'] + more, 4);
    lemma_index(skill.name, ']', more);
    lemma_untrimmed(skill.name, CharClass::Space);
    assert(line[0] == side.letter()[0] && line[1] == '方');
    assert(history::side_mark(side) == line.subrange(0, 2));
}

proof fn lemma_sides(
    side: Side,
    attacker: Pet,
    defender: Pet,
    skill: Skill,
    cost: int,
    dmg: int,
)
    requires
        quiet(attacker.name),
        quiet(defender.name),
        quiet(skill.name),
    ensures
        ({
            let line = strike_line(side, attacker, defender, skill, cost, dmg);
            &&& replay::side_in(line) == Some(side.letter())
            &&& replay::target_side_in(line, Some(side.letter())) == Some(
                side.opponent().letter(),
            )
        }),
{
    reveal_strlit(" 使用 [");
    reveal_strlit("]，消耗");
    reveal_strlit("能量，造成 ");
    reveal_strlit(" HP: ");
    reveal_strlit("/");
    let c = '方';
    let factor = elements::type_factor(skill.element, defender.element1, defender.element2);
    let v = verdict(factor);
    let stop = seq!['。'];
    let (k, d, n, m) = (
        number::int_text(cost),
        number::int_text(dmg),
        number::int_text(defender.cur_hp),
        number::int_text(defender.hp),
    );
    let line = strike_line(side, attacker, defender, skill, cost, dmg);
    let r1 = attacker.name + " 使用 ["@;
    let r2 = r1 + skill.name;
    let r3 = r2 + "]，消耗"@;
    let r4 = r3 + k;
    let r5 = r4 + "能量，造成 "@;
    let r6 = r5 + d;
    let r7 = r6 + v;
    let r8 = r7 + stop;
    let r9 = r8 + defender.name;
    let r10 = r9 + " HP: "@;
    let r11 = r10 + n;
    let r12 = r11 + "/"@;
    let rest = r12 + m;
    lemma_verdict(factor, c);
    lemma_number_lacks(cost, c);
    lemma_number_lacks(dmg, c);
    lemma_number_lacks(defender.cur_hp, c);
    lemma_number_lacks(defender.hp, c);
    assert(lacks(" 使用 ["@, c) && lacks("]，消耗"@, c) && lacks("能量，造成 "@, c));
    assert(lacks(" HP: "@, c) && lacks("/"@, c) && lacks(stop, c));
    lemma_lacks(attacker.name, " 使用 ["@, c);
    lemma_lacks(r1, skill.name, c);
    lemma_lacks(r2, "]，消耗"@, c);
    lemma_lacks(r3, k, c);
    lemma_lacks(r4, "能量，造成 "@, c);
    lemma_lacks(r5, d, c);
    lemma_lacks(r6, v, c);
    lemma_lacks(r7, stop, c);
    lemma_lacks(r8, defender.name, c);
    lemma_lacks(r9, " HP: "@, c);
    lemma_lacks(r10, n, c);
    lemma_lacks(r11, "/"@, c);
    lemma_lacks(r12, m, c);
    assert(line == side.letter() + "方 "@ + rest);
    lemma_side(side, rest);
}

proof fn lemma_damage_kind(
    side: Side,
    attacker: Pet,
    defender: Pet,
    skill: Skill,
    cost: int,
    dmg: int,
)
    requires
        quiet(attacker.name),
        quiet(defender.name),
        quiet(skill.name),
        0 <= dmg <= i32::MAX,
    ensures
        replay::kind_of(strike_line(side, attacker, defender, skill, cost, dmg)) == "DAMAGE"@,
{
    reveal_strlit("能量，造成 ");
    reveal_strlit(" 伤害");
    reveal_strlit(" 伤害(克制x");
    reveal_strlit("伤害");
    reveal_strlit("(克制x");
    reveal_strlit(" ");
    let factor = elements::type_factor(skill.element, defender.element1, defender.element2);
    let head = strike_head(side, attacker.name, skill.name, cost);
    let tail = strike_tail(defender.name, defender.cur_hp, defender.hp);
    let d = number::int_text(dmg);
    let v = verdict(factor);
    let stop = seq!['。'];
    let line = strike_line(side, attacker, defender, skill, cost, dmg);
    lemma_line_lacks(side, attacker, defender, skill, cost, dmg, '蓄');
    lemma_line_lacks(side, attacker, defender, skill, cost, dmg, '回');
    lemma_head_lacks(side, attacker.name, skill.name, cost, '造');
    lemma_verdict(factor, '造');
    assert(line == head + "能量，造成 "@ + d + (v + stop + tail));
    assert((v + stop + tail)[0] == v[0]);
    lemma_amount(head, dmg, v + stop + tail);
    let a = head + "能量，造成 "@ + d + " "@;
    let b = if factor == 100 {
        stop + tail
    } else {
        "(克制x"@ + factor_digits(factor) + ")"@ + stop + tail
    };
    assert(" 伤害"@ == " "@ + "伤害"@);
    assert(" 伤害(克制x"@ == " "@ + "伤害"@ + "(克制x"@);
    assert(line == a + "伤害"@ + b);
    lemma_kind(line, a, b);
}

proof fn lemma_line_lacks(
    side: Side,
    attacker: Pet,
    defender: Pet,
    skill: Skill,
    cost: int,
    dmg: int,
    c: char,
)
    requires
        c == '蓄' || c == '回',
        quiet(attacker.name),
        quiet(defender.name),
        quiet(skill.name),
    ensures
        lacks(strike_line(side, attacker, defender, skill, cost, dmg), c),
{
    reveal_strlit("能量，造成 ");
    let factor = elements::type_factor(skill.element, defender.element1, defender.element2);
    let head = strike_head(side, attacker.name, skill.name, cost);
    let tail = strike_tail(defender.name, defender.cur_hp, defender.hp);
    let d = number::int_text(dmg);
    let v = verdict(factor);
    let stop = seq!['。'];
    lemma_head_lacks(side, attacker.name, skill.name, cost, c);
    lemma_tail_lacks(defender.name, defender.cur_hp, defender.hp, c);
    lemma_verdict(factor, c);
    lemma_number_lacks(dmg, c);
    assert(lacks("能量，造成 "@, c) && lacks(stop, c));
    let r1 = head + "能量，造成 "@;
    lemma_lacks(head, "能量，造成 "@, c);
    lemma_lacks(r1, d, c);
    lemma_lacks(r1 + d, v, c);
    lemma_lacks(r1 + d + v, stop, c);
    lemma_lacks(r1 + d + v + stop, tail, c);
}

} // verus!
