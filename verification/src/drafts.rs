//! How teams come about, told by what goes in and what comes out.

use vstd::prelude::*;
use crate::battle;
use crate::battle::AiBattleSetupMode;
use crate::elements;
use crate::number;
use crate::pet::{Pet, Side};
use crate::pet_battle_patch;
use crate::pet_battle_patch::Patch;
use crate::random;
use crate::team;
use crate::team::{Built, Detail, Entry, Species};
use crate::text;

verus! {

// Draws.

/// Every seed comes of another one.
proof fn lemma_seed_before(target: u64) -> (seed: u64)
    ensures
        random::stepped(seed) == target,
{
    let n: int = 0x1_0000_0000_0000_0000;
    let m: int = 6364136223846793005;
    let inverse: int = 13877824140714322085;
    let q: int = 4787856489426250814;
    let w: int = if target == 0 {
        n - 1
    } else {
        target - 1
    };
    let seed: u64 = ((w * inverse) % n) as u64;
    vstd::arithmetic::div_mod::lemma_mul_mod_noop_left(w * inverse, m, n);
    assert(inverse * m == 1 + q * n);
    assert((w * inverse) * m == n * (w * q) + w) by (nonlinear_arith)
        requires
            inverse * m == 1 + q * n,
    ;
    vstd::arithmetic::div_mod::lemma_mod_multiples_vanish(w * q, w, n);
    assert((seed as nat * 6364136223846793005u64 as nat) as int == ((w * inverse) % n) * m);
    seed
}

/// Every number below a limit is drawn from some seed.
pub proof fn lemma_seed_for(k: int, len: int) -> (seed: u64)
    requires
        0 <= k < len <= 0xffff_ffff,
    ensures
        random::drawn(seed, len) == k,
{
    let seed = lemma_seed_before((k * 0x1_0000_0000) as u64);
    assert((k * 0x1_0000_0000) / 0x1_0000_0000 == k);
    assert(k % len == k) by {
        vstd::arithmetic::div_mod::lemma_small_mod(k as nat, len as nat);
    }
    seed
}

/// Each pet of the pool that has four skills can be drawn: there is a seed from which it is.
pub proof fn law_every_pet_can_be_drawn(pool: Seq<Species>, k: int)
    requires
        0 <= k < pool.len() <= 0xffff_ffff,
        pool[k].skills.len() >= 4,
    ensures
        exists|seed: u64|
            (#[trigger] team::drafted(pool, 64, seed)).0 matches Some(e) && e.pet == pool[k].name,
{
    reveal(team::drafted);
    let seed = lemma_seed_for(k, pool.len() as int);
    assert(team::drafted(pool, 64, seed).0 matches Some(e) && e.pet == pool[k].name);
}

proof fn lemma_shuffle_keeps(a: Seq<usize>, i: int, seed: u64, at: int)
    requires
        i < at < a.len(),
    ensures
        random::shuffled_from(a, i, seed).0[at] == a[at],
    decreases i,
{
    if i >= 1 {
        let j = random::drawn(seed, i + 1);
        lemma_shuffle_keeps(random::swapped(a, i, j), i - 1, random::stepped(seed), at);
    }
}

/// Each skill of a pet that has more than four can be left out when the pet is drawn: there is a
/// seed from which it is.
pub proof fn law_every_skill_can_be_left_out(sp: Species, j: int)
    requires
        5 <= sp.skills.len() <= 0xffff_ffff,
        sp.skills.no_duplicates(),
        0 <= j < sp.skills.len(),
    ensures
        exists|seed: u64|
            (#[trigger] team::drafted(seq![sp], 64, seed)).0 matches Some(e) && e.skills.len() == 4
                && !e.skills.contains(sp.skills[j]),
{
    reveal(team::drafted);
    let n = sp.skills.len() as int;
    let all = team::upto(n);
    let second = lemma_seed_for(j, n);
    let seed = lemma_seed_before(second);
    let order = random::shuffled(all, second).0;
    let first = random::swapped(all, n - 1, j);
    lemma_shuffle_keeps(first, n - 2, random::stepped(second), n - 1);
    assert(order[n - 1] == j);
    random::lemma_shuffled_apart(all, second);
    let e = team::drafted_pet(sp, order);
    assert(team::drafted(seq![sp], 64, seed).0 == Some(e));
    assert forall|i: int| 0 <= i < 4 implies #[trigger] e.skills[i] != sp.skills[j] by {
        assert(order[i] != order[n - 1]);
        assert(order.contains(order[i]) && all.contains(order[i]));
    }
}

proof fn lemma_more_draws(pool: Seq<Species>, n: int, m: int, done: Seq<Entry>, seed: u64)
    requires
        0 <= n,
        0 <= m,
    ensures
        ({
            let (x, rest) = team::drafted_team(pool, n, done, seed);
            team::drafted_team(pool, n + m, done, seed) == team::drafted_team(pool, m, x, rest)
        }),
    decreases n,
{
    if n > 0 {
        match team::drafted(pool, 64, seed) {
            (Some(e), rest) => lemma_more_draws(pool, n - 1, m, done.push(e), rest),
            (None, rest) => lemma_more_draws(pool, n - 1, m, done, rest),
        }
    }
}

proof fn lemma_draws_after(pool: Seq<Species>, n: int, done: Seq<Entry>, more: Seq<Entry>, seed: u64)
    ensures
        team::drafted_team(pool, n, done + more, seed).0 == done + team::drafted_team(
            pool,
            n,
            more,
            seed,
        ).0,
    decreases n,
{
    if n > 0 {
        match team::drafted(pool, 64, seed) {
            (Some(e), rest) => {
                lemma_draws_after(pool, n - 1, done, more.push(e), rest);
                assert((done + more).push(e) =~= done + more.push(e));
            },
            (None, rest) => lemma_draws_after(pool, n - 1, done, more, rest),
        }
    }
}

/// The draws for side B go on where those for side A end: both teams are those of one run of twelve
/// draws.
pub proof fn law_teams_are_one_run(pool: Seq<Species>, raw_a: Seq<char>, raw_b: Seq<char>, clock: u64)
    ensures
        battle::chosen_teams(AiBattleSetupMode::Random, pool, raw_a, raw_b, clock) matches Ok((a, b))
            ==> a.len() == 6 && b.len() == 6 && team::drafted_team(pool, 12, seq![], clock).0 == a
            + b,
{
    let (a, rest) = team::drafted_team(pool, 6, seq![], clock);
    lemma_more_draws(pool, 6, 6, seq![], clock);
    lemma_draws_after(pool, 6, a, seq![], rest);
    assert(a + Seq::<Entry>::empty() =~= a);
}

// Teams in text.

proof fn lemma_lines_read(
    lines: Seq<Seq<char>>,
    side_name: Seq<char>,
    i: int,
    done: Seq<Entry>,
)
    requires
        0 <= i <= lines.len(),
        done.len() == i,
        forall|k: int|
            0 <= k < i ==> team::parsed_line(#[trigger] lines[k], side_name) == Ok::<
                Entry,
                Seq<char>,
            >(done[k]),
    ensures
        team::parsed_lines(lines, side_name, i, done) matches Ok(es) ==> es.len() == lines.len()
            && forall|k: int|
            0 <= k < lines.len() ==> team::parsed_line(#[trigger] lines[k], side_name) == Ok::<
                Entry,
                Seq<char>,
            >(es[k]),
    decreases lines.len() - i,
{
    if i < lines.len() {
        if let Ok(e) = team::parsed_line(lines[i], side_name) {
            lemma_lines_read(lines, side_name, i + 1, done.push(e));
        }
    }
}

/// Each line of a text that is not blank writes the place of the team with its number, and there
/// are six of them.
pub proof fn law_lines_are_places(raw: Seq<char>, side_name: Seq<char>)
    ensures
        team::parsed_team(raw, side_name) matches Ok(es) ==> {
            let lines = text::trimmed_parts(text::lines_of(raw));
            &&& lines.len() == 6
            &&& es.len() == 6
            &&& forall|k: int|
                0 <= k < 6 ==> team::parsed_line(#[trigger] lines[k], side_name) == Ok::<
                    Entry,
                    Seq<char>,
                >(es[k])
        },
{
    let lines = text::trimmed_parts(text::lines_of(raw));
    lemma_lines_read(lines, side_name, 0, seq![]);
}

proof fn lemma_names_do_not_matter(
    lines: Seq<Seq<char>>,
    x: Seq<char>,
    y: Seq<char>,
    i: int,
    done: Seq<Entry>,
)
    ensures
        team::parsed_lines(lines, x, i, done) matches Ok(es) ==> team::parsed_lines(
            lines,
            y,
            i,
            done,
        ) == Ok::<Seq<Entry>, Seq<char>>(es),
    decreases lines.len() - i,
{
    if i < lines.len() {
        if let Ok(e) = team::parsed_line(lines[i], x) {
            lemma_names_do_not_matter(lines, x, y, i + 1, done.push(e));
        }
    }
}

/// The first text writes the team of side A and the second that of side B: exchanging the texts
/// exchanges the teams.
pub proof fn law_texts_belong_to_sides(
    pool: Seq<Species>,
    raw_a: Seq<char>,
    raw_b: Seq<char>,
    clock: u64,
)
    ensures
        battle::chosen_teams(AiBattleSetupMode::Fixed, pool, raw_a, raw_b, clock) matches Ok((a, b))
            ==> {
            &&& team::parsed_team(raw_a, "AI A"@) == Ok::<Seq<Entry>, Seq<char>>(a)
            &&& team::parsed_team(raw_b, "AI B"@) == Ok::<Seq<Entry>, Seq<char>>(b)
            &&& battle::chosen_teams(AiBattleSetupMode::Fixed, pool, raw_b, raw_a, clock) == Ok::<
                (Seq<Entry>, Seq<Entry>),
                Seq<char>,
            >((b, a))
        },
        battle::chosen_teams(AiBattleSetupMode::Fixed, pool, raw_a, raw_b, clock) matches Err(m)
            ==> {
            ||| team::parsed_team(raw_a, "AI A"@) == Err::<Seq<Entry>, Seq<char>>(m)
            ||| team::parsed_team(raw_a, "AI A"@) is Ok && team::parsed_team(raw_b, "AI B"@)
                == Err::<Seq<Entry>, Seq<char>>(m)
        },
{
    let la = text::trimmed_parts(text::lines_of(raw_a));
    let lb = text::trimmed_parts(text::lines_of(raw_b));
    lemma_names_do_not_matter(la, "AI A"@, "AI B"@, 0, seq![]);
    lemma_names_do_not_matter(lb, "AI B"@, "AI A"@, 0, seq![]);
}

// Skills on record.

proof fn lemma_detail(s: Seq<Detail>, name: Seq<char>, n: int)
    requires
        0 <= n <= s.len(),
        n < s.len() ==> s[n].name == name,
        forall|i: int| 0 <= i < n ==> (#[trigger] s[i]).name != name,
    ensures
        team::first_detail(s, name) == n,
    decreases s.len(),
{
    if n > 0 {
        assert(s[0].name != name);
        let u = s.drop_first();
        assert forall|i: int| 0 <= i < n - 1 implies (#[trigger] u[i]).name != name by {
            assert(u[i] == s[i + 1]);
        }
        lemma_detail(u, name, n - 1);
    }
}

/// A skill is what the first record of its name says: of that element, category and effect, with the
/// cost and the power that are written there, never less than nothing; 2 and 60 where no number is
/// written. Without a record it is a physical attack of no special element.
pub proof fn law_skills_on_record(details: Seq<Detail>, name: Seq<char>, i: int)
    requires
        0 <= i <= details.len(),
        i < details.len() ==> details[i].name == name,
        forall|k: int| 0 <= k < i ==> (#[trigger] details[k]).name != name,
    ensures
        ({
            let s = team::skill_of(details, name);
            &&& s.name == name
            &&& i < details.len() ==> {
                let d = details[i];
                &&& s.element == d.element && s.category == d.category && s.effect == d.effect
                &&& s.cost == (match number::parsed_int(d.cost) {
                    Some(n) => number::greater(n, 0),
                    None => 2,
                })
                &&& s.power == (match number::parsed_int(d.power) {
                    Some(n) => number::greater(n, 0),
                    None => 60,
                })
            }
            &&& i == details.len() ==> s.element == "普通"@ && s.category == "物攻"@ && s.cost == 2
                && s.power == 60 && s.effect.len() == 0
        }),
{
    lemma_detail(details, name, i);
}

/// A patch sets the limit of the energy where it names one, at least one; where it only allows more
/// than usual the limit is 99. The energy is what it names, or what the pet had, between nothing and
/// the limit. Nothing else changes.
pub proof fn law_patched_energy(p: Pet, patch: Patch)
    ensures
        ({
            let q = team::patched(p, Some(patch));
            let energy = if patch.initial_energy is Some {
                patch.initial_energy->0 as int
            } else {
                p.energy
            };
            &&& patch.energy_cap matches Some(n) ==> q.energy_cap == number::greater(n as int, 1)
            &&& patch.energy_cap is None && patch.allow_over_max_energy ==> q.energy_cap == 99
            &&& patch.energy_cap is None && !patch.allow_over_max_energy ==> q.energy_cap
                == p.energy_cap
            &&& 0 <= energy <= q.energy_cap ==> q.energy == energy
            &&& energy < 0 && q.energy_cap >= 0 ==> q.energy == 0
            &&& energy > q.energy_cap && q.energy_cap >= 0 ==> q.energy == q.energy_cap
            &&& q == (Pet { energy: q.energy, energy_cap: q.energy_cap, ..p })
        }),
        team::patched(p, None) == p,
{
}

// Teams made ready.

/// Whether a pet is the one of that place, ready to fight: of its species in name, elements, ability
/// and base values, of the nature and with the skills that stand there, and with nothing on it.
pub open spec fn is_ready(p: Pet, sp: Species, e: Entry) -> bool {
    &&& p.name == sp.name && p.element1 == sp.element && p.ability == sp.ability
    &&& p.ability_desc == sp.ability_desc
    &&& p.nature == elements::normal_nature(e.nature)
    &&& p.level == 60
    &&& p.hp == team::trained_hp(sp.hp, p.effort.hp as int) && p.cur_hp == p.hp
    &&& p.speed == team::trained_stat(sp.speed, p.effort.speed as int)
    &&& p.patk == team::trained_stat(sp.physical_attack, p.effort.patk as int)
    &&& p.pdef == team::trained_stat(sp.physical_defense, p.effort.pdef as int)
    &&& p.matk == team::trained_stat(sp.magic_attack, p.effort.matk as int)
    &&& p.mdef == team::trained_stat(sp.magic_defense, p.effort.mdef as int)
    &&& p.poison_layers == 0 && p.burn_layers == 0 && p.freeze_layers == 0
    &&& p.parasitic_layers == 0 && p.frozen_hp_locked == 0 && p.morph_stage == 0
    &&& p.charging_skill is None && p.entry_bonus_power == 0 && !p.entry_leave_immune
    &&& p.skills.len() == e.skills.len()
    &&& forall|j: int| 0 <= j < p.skills.len() ==> (#[trigger] p.skills[j]).name == e.skills[j]
}

proof fn lemma_ready(
    entries: Seq<Entry>,
    i: int,
    ready: Seq<Pet>,
    index: Map<Seq<char>, Species>,
    side: Side,
    patches: Map<Seq<char>, Patch>,
    seed: u64,
)
    requires
        0 <= i <= entries.len(),
        ready.len() == i,
        forall|k: int|
            0 <= k < i ==> is_ready(#[trigger] ready[k], index[entries[k].pet], entries[k]) && (
            !patches.contains_key(ready[k].name) ==> ready[k].energy == 10 && ready[k].energy_cap
                == 10),
    ensures
        team::built_from(entries, i, ready, index, side, patches, seed) matches Built::Team(ps)
            ==> {
            &&& ps.len() == entries.len()
            &&& forall|k: int|
                0 <= k < ps.len() ==> is_ready(#[trigger] ps[k], index[entries[k].pet], entries[k])
                    && (!patches.contains_key(ps[k].name) ==> ps[k].energy == 10
                    && ps[k].energy_cap == 10)
        },
    decreases entries.len() - i,
{
    if i < entries.len() && index.contains_key(entries[i].pet) {
        let (effort, rest) = team::trained(seed);
        let e = entries[i];
        let p = team::fresh(index[e.pet], e.nature, e.skills, effort);
        if team::stats_fit(p) {
            let q = team::patched(p, pet_battle_patch::patch_of(patches, p.name));
            assert forall|j: int| 0 <= j < q.skills.len() implies (#[trigger] q.skills[j]).name
                == e.skills[j] by {
                assert(q.skills[j] == team::skill_of(index[e.pet].details, e.skills[j]));
            }
            lemma_ready(entries, i + 1, ready.push(q), index, side, patches, rest);
        }
    }
}

/// Each place of a team becomes the pet that it names, in its place.
pub proof fn law_places_become_pets(
    entries: Seq<Entry>,
    index: Map<Seq<char>, Species>,
    side: Side,
    patches: Map<Seq<char>, Patch>,
    clock: u64,
)
    ensures
        team::built(entries, index, side, patches, clock) matches Built::Team(ps) ==> {
            &&& ps.len() == entries.len()
            &&& forall|k: int|
                0 <= k < ps.len() ==> is_ready(#[trigger] ps[k], index[entries[k].pet], entries[k])
                    && (!patches.contains_key(ps[k].name) ==> ps[k].energy == 10
                    && ps[k].energy_cap == 10)
        },
{
    lemma_ready(entries, 0, seq![], index, side, patches, team::side_seed(side, clock));
}

proof fn lemma_side_does_not_matter(
    entries: Seq<Entry>,
    i: int,
    ready: Seq<Pet>,
    index: Map<Seq<char>, Species>,
    patches: Map<Seq<char>, Patch>,
    seed: u64,
)
    ensures
        ({
            let x = team::built_from(entries, i, ready, index, Side::A, patches, seed);
            let y = team::built_from(entries, i, ready, index, Side::B, patches, seed);
            &&& x is Team || y is Team || x is TooLarge || y is TooLarge ==> x == y
            &&& x is Unknown <==> y is Unknown
        }),
    decreases entries.len() - i,
{
    if i < entries.len() && index.contains_key(entries[i].pet) {
        let (effort, rest) = team::trained(seed);
        let e = entries[i];
        let p = team::fresh(index[e.pet], e.nature, e.skills, effort);
        if team::stats_fit(p) {
            let q = team::patched(p, pet_battle_patch::patch_of(patches, p.name));
            lemma_side_does_not_matter(entries, i + 1, ready.push(q), index, patches, rest);
        }
    }
}

/// Both sides train by the same rules, from different seeds: at one time they train as side A would
/// at two different times.
pub proof fn law_sides_train_apart(
    entries: Seq<Entry>,
    index: Map<Seq<char>, Species>,
    patches: Map<Seq<char>, Patch>,
    clock: u64,
)
    ensures
        team::side_seed(Side::A, clock) == clock ^ 65,
        team::side_seed(Side::A, clock) != team::side_seed(Side::B, clock),
        team::built(entries, index, Side::B, patches, clock) matches Built::Team(ps)
            ==> team::built(entries, index, Side::A, patches, clock ^ 3) == Built::Team(ps),
{
    assert(clock ^ 65 != clock ^ 66) by (bit_vector);
    assert((clock ^ 3) ^ 65 == clock ^ 66) by (bit_vector);
    lemma_side_does_not_matter(entries, 0, seq![], index, patches, clock ^ 66);
}

proof fn lemma_built_behind(
    entries: Seq<Entry>,
    i: int,
    p: Pet,
    ready: Seq<Pet>,
    index: Map<Seq<char>, Species>,
    side: Side,
    patches: Map<Seq<char>, Patch>,
    seed: u64,
)
    requires
        entries.len() > 0,
        1 <= i <= entries.len(),
    ensures
        team::built_from(entries, i, seq![p] + ready, index, side, patches, seed) matches Built::Team(ps)
            ==> ps.len() > 0 && team::built_from(
            entries.skip(1),
            i - 1,
            ready,
            index,
            side,
            patches,
            seed,
        ) == Built::Team(ps.skip(1)),
    decreases entries.len() - i,
{
    if i >= entries.len() {
        assert((seq![p] + ready).skip(1) =~= ready);
    } else if index.contains_key(entries[i].pet) {
        let (effort, rest) = team::trained(seed);
        let e = entries[i];
        assert(entries.skip(1)[i - 1] == e);
        let q = team::fresh(index[e.pet], e.nature, e.skills, effort);
        if team::stats_fit(q) {
            let r = team::patched(q, pet_battle_patch::patch_of(patches, q.name));
            assert((seq![p] + ready).push(r) =~= seq![p] + ready.push(r));
            lemma_built_behind(entries, i + 1, p, ready.push(r), index, side, patches, rest);
        }
    }
}

/// The pets of a team train one after the other, each from the seed that the one before has left:
/// without its first place a team becomes what it becomes with it, at the time of that seed.
pub proof fn law_pets_train_in_turn(
    entries: Seq<Entry>,
    index: Map<Seq<char>, Species>,
    patches: Map<Seq<char>, Patch>,
    clock: u64,
)
    requires
        entries.len() > 0,
    ensures
        team::built(entries, index, Side::A, patches, clock) matches Built::Team(ps) ==> {
            let (effort, rest) = team::trained(clock ^ 65);
            &&& ps.len() > 0
            &&& ps[0].effort == effort
            &&& team::built(entries.skip(1), index, Side::A, patches, rest ^ 65) == Built::Team(
                ps.skip(1),
            )
        },
{
    let (effort, rest) = team::trained(clock ^ 65);
    assert((rest ^ 65) ^ 65 == rest) by (bit_vector);
    let e = entries[0];
    let q = team::fresh(index[e.pet], e.nature, e.skills, effort);
    let r = team::patched(q, pet_battle_patch::patch_of(patches, q.name));
    assert(Seq::<Pet>::empty().push(r) =~= seq![r] + Seq::<Pet>::empty());
    lemma_built_behind(entries, 1, r, seq![], index, Side::A, patches, rest);
    lemma_first_stays(entries, 1, seq![r], index, Side::A, patches, rest);
}

proof fn lemma_first_stays(
    entries: Seq<Entry>,
    i: int,
    ready: Seq<Pet>,
    index: Map<Seq<char>, Species>,
    side: Side,
    patches: Map<Seq<char>, Patch>,
    seed: u64,
)
    requires
        ready.len() > 0,
    ensures
        team::built_from(entries, i, ready, index, side, patches, seed) matches Built::Team(ps)
            ==> ps.len() > 0 && ps[0] == ready[0],
    decreases entries.len() - i,
{
    if i < entries.len() && index.contains_key(entries[i].pet) {
        let (effort, rest) = team::trained(seed);
        let e = entries[i];
        let q = team::fresh(index[e.pet], e.nature, e.skills, effort);
        if team::stats_fit(q) {
            let r = team::patched(q, pet_battle_patch::patch_of(patches, q.name));
            lemma_first_stays(entries, i + 1, ready.push(r), index, side, patches, rest);
        }
    }
}

} // verus!
