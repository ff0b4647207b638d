//! Text, seen as a sequence of characters.

use vstd::prelude::*;

verus! {

/// A set of characters that text is skipped or collected by.
#[derive(Clone, Copy, PartialEq, Eq)]
pub enum CharClass {
    /// Unicode white space.
    Space,
    /// `0` to `9`.
    Digit,
    /// `0` to `9` and the decimal point.
    Numeral,
    /// One character.
    Only(char),
}

/// The characters with the Unicode property `White_Space`.
pub open spec fn is_space(c: char) -> bool {
    let n = c as int;
    ||| 0x09 <= n <= 0x0d
    ||| n == 0x20 || n == 0x85 || n == 0xa0 || n == 0x1680
    ||| 0x2000 <= n <= 0x200a
    ||| n == 0x2028 || n == 0x2029 || n == 0x202f || n == 0x205f || n == 0x3000
}

pub open spec fn is_digit(c: char) -> bool {
    '0' as int <= c as int <= '9' as int
}

impl CharClass {
    pub open spec fn holds(self, c: char) -> bool {
        match self {
            CharClass::Space => is_space(c),
            CharClass::Digit => is_digit(c),
            CharClass::Numeral => is_digit(c) || c == '.',
            CharClass::Only(x) => c == x,
        }
    }

    pub fn test(self, c: char) -> (r: bool)
        ensures
            r == self.holds(c),
    {
        let n: u32 = c as u32;
        match self {
            CharClass::Space => {
                (0x09 <= n && n <= 0x0d) || n == 0x20 || n == 0x85 || n == 0xa0 || n == 0x1680
                    || (0x2000 <= n && n <= 0x200a) || n == 0x2028 || n == 0x2029 || n == 0x202f
                    || n == 0x205f || n == 0x3000
            },
            CharClass::Digit => 48 <= n && n <= 57,
            CharClass::Numeral => (48 <= n && n <= 57) || c == '.',
            CharClass::Only(x) => c == x,
        }
    }
}

/// The characters of a text.
pub fn chars_of(s: &str) -> (v: Vec<char>)
    ensures
        v@ == s@,
{
    let mut v: Vec<char> = Vec::new();
    for c in it: s.chars()
        invariant
            it.seq() == s@,
            v@ == s@.take(it.index()),
    {
        v.push(c);
    }
    assert(v@ == s@);
    v
}

/// Whether two texts are the same.
pub fn same(a: &str, b: &str) -> (r: bool)
    ensures
        r == (a@ == b@),
{
    a.to_owned() == b.to_owned()
}

/// How many characters at the front of `t` belong to `k`.
pub open spec fn lead(t: Seq<char>, k: CharClass) -> nat
    decreases t.len(),
{
    if t.len() > 0 && k.holds(t[0]) {
        1 + lead(t.drop_first(), k)
    } else {
        0
    }
}

/// How many characters at the back of `t` belong to `k`.
pub open spec fn trail(t: Seq<char>, k: CharClass) -> nat
    decreases t.len(),
{
    if t.len() > 0 && k.holds(t.last()) {
        1 + trail(t.drop_last(), k)
    } else {
        0
    }
}

/// `t` without the characters of `k` at its front.
pub open spec fn trimmed_start(t: Seq<char>, k: CharClass) -> Seq<char> {
    t.skip(lead(t, k) as int)
}

/// `t` without the characters of `k` at its back.
pub open spec fn trimmed_end(t: Seq<char>, k: CharClass) -> Seq<char> {
    t.take(t.len() - trail(t, k))
}

/// `t` without the characters of `k` at either end.
pub open spec fn trimmed_of(t: Seq<char>, k: CharClass) -> Seq<char> {
    trimmed_end(trimmed_start(t, k), k)
}

/// `t` without white space at either end.
pub open spec fn trimmed(t: Seq<char>) -> Seq<char> {
    trimmed_of(t, CharClass::Space)
}

/// The longest stretch of characters of `k` at the front of `t`.
pub open spec fn head_run(t: Seq<char>, k: CharClass) -> Seq<char> {
    t.take(lead(t, k) as int)
}

/// The longest stretch of characters of `k` at the back of `t`.
pub open spec fn tail_run(t: Seq<char>, k: CharClass) -> Seq<char> {
    t.skip(t.len() - trail(t, k))
}

pub proof fn lemma_lead(t: Seq<char>, k: CharClass)
    ensures
        lead(t, k) <= t.len(),
        forall|i: int| 0 <= i < lead(t, k) ==> k.holds(#[trigger] t[i]),
        lead(t, k) < t.len() ==> !k.holds(t[lead(t, k) as int]),
    decreases t.len(),
{
    if t.len() > 0 && k.holds(t[0]) {
        let u = t.drop_first();
        lemma_lead(u, k);
        assert forall|i: int| 0 <= i < lead(t, k) implies k.holds(#[trigger] t[i]) by {
            if i > 0 {
                assert(t[i] == u[i - 1]);
            }
        }
    }
}

pub proof fn lemma_lead_unique(t: Seq<char>, k: CharClass, n: int)
    requires
        0 <= n <= t.len(),
        forall|i: int| 0 <= i < n ==> k.holds(#[trigger] t[i]),
        n < t.len() ==> !k.holds(t[n]),
    ensures
        lead(t, k) == n,
{
    lemma_lead(t, k);
    if lead(t, k) < n {
        assert(k.holds(t[lead(t, k) as int]));
    }
    if n < lead(t, k) {
        assert(k.holds(t[n]));
    }
}

pub proof fn lemma_trail(t: Seq<char>, k: CharClass)
    ensures
        trail(t, k) <= t.len(),
        forall|i: int| t.len() - trail(t, k) <= i < t.len() ==> k.holds(#[trigger] t[i]),
        trail(t, k) < t.len() ==> !k.holds(t[t.len() - trail(t, k) - 1]),
    decreases t.len(),
{
    if t.len() > 0 && k.holds(t.last()) {
        let u = t.drop_last();
        lemma_trail(u, k);
        assert forall|i: int| t.len() - trail(t, k) <= i < t.len() implies k.holds(
            #[trigger] t[i],
        ) by {
            if i < t.len() - 1 {
                assert(t[i] == u[i]);
            }
        }
    }
}

pub proof fn lemma_trail_unique(t: Seq<char>, k: CharClass, n: int)
    requires
        0 <= n <= t.len(),
        forall|i: int| t.len() - n <= i < t.len() ==> k.holds(#[trigger] t[i]),
        n < t.len() ==> !k.holds(t[t.len() - n - 1]),
    ensures
        trail(t, k) == n,
{
    lemma_trail(t, k);
    if trail(t, k) < n {
        assert(k.holds(t[t.len() - trail(t, k) - 1]));
    }
    if n < trail(t, k) {
        assert(k.holds(t[t.len() - n - 1]));
    }
}

fn lead_of(v: &Vec<char>, k: CharClass) -> (n: usize)
    ensures
        n == lead(v@, k),
        n <= v.len(),
{
    let mut n: usize = 0;
    while n < v.len() && k.test(v[n])
        invariant
            n <= v.len(),
            forall|i: int| 0 <= i < n ==> k.holds(#[trigger] v@[i]),
        decreases v.len() - n,
    {
        n = n + 1;
    }
    proof {
        lemma_lead_unique(v@, k, n as int);
    }
    n
}

fn trail_of(v: &Vec<char>, k: CharClass) -> (n: usize)
    ensures
        n == trail(v@, k),
        n <= v.len(),
{
    let mut n: usize = 0;
    while n < v.len() && k.test(v[v.len() - 1 - n])
        invariant
            n <= v.len(),
            forall|i: int| v.len() - n <= i < v.len() ==> k.holds(#[trigger] v@[i]),
        decreases v.len() - n,
    {
        n = n + 1;
    }
    proof {
        lemma_trail_unique(v@, k, n as int);
    }
    n
}

/// The text from the character at `from` on.
pub fn skip_chars<'a>(s: &'a str, from: usize) -> (r: &'a str)
    requires
        from <= s@.len(),
    ensures
        r@ == s@.skip(from as int),
{
    let n: usize = s.unicode_len();
    let r = s.substring_char(from, n);
    assert(s@.subrange(from as int, n as int) == s@.skip(from as int));
    r
}

/// The first `upto` characters of a text.
pub fn take_chars<'a>(s: &'a str, upto: usize) -> (r: &'a str)
    requires
        upto <= s@.len(),
    ensures
        r@ == s@.take(upto as int),
{
    let r = s.substring_char(0, upto);
    assert(s@.subrange(0, upto as int) == s@.take(upto as int));
    r
}

/// The text without the characters of `k` at its front.
pub fn trim_start<'a>(s: &'a str, k: CharClass) -> (r: &'a str)
    ensures
        r@ == trimmed_start(s@, k),
{
    let n: usize = lead_of(&chars_of(s), k);
    skip_chars(s, n)
}

/// The text without the characters of `k` at its back.
pub fn trim_end<'a>(s: &'a str, k: CharClass) -> (r: &'a str)
    ensures
        r@ == trimmed_end(s@, k),
{
    let v: Vec<char> = chars_of(s);
    let n: usize = trail_of(&v, k);
    take_chars(s, v.len() - n)
}

/// The text without the characters of `k` at either end.
pub fn trim_of<'a>(s: &'a str, k: CharClass) -> (r: &'a str)
    ensures
        r@ == trimmed_of(s@, k),
{
    trim_end(trim_start(s, k), k)
}

/// The text without white space at either end.
pub fn trim<'a>(s: &'a str) -> (r: &'a str)
    ensures
        r@ == trimmed(s@),
{
    trim_of(s, CharClass::Space)
}

/// The longest stretch of characters of `k` at the front of the text.
pub fn leading<'a>(s: &'a str, k: CharClass) -> (r: &'a str)
    ensures
        r@ == head_run(s@, k),
{
    let n: usize = lead_of(&chars_of(s), k);
    take_chars(s, n)
}

/// The longest stretch of characters of `k` at the back of the text.
pub fn trailing<'a>(s: &'a str, k: CharClass) -> (r: &'a str)
    ensures
        r@ == tail_run(s@, k),
{
    let v: Vec<char> = chars_of(s);
    let n: usize = trail_of(&v, k);
    skip_chars(s, v.len() - n)
}

/// Whether `pat` stands in `t` at position `i`.
pub open spec fn occurs_at(t: Seq<char>, pat: Seq<char>, i: int) -> bool {
    0 <= i && i + pat.len() <= t.len() && t.subrange(i, i + pat.len()) == pat
}

/// Whether `pat` stands somewhere in `t`.
pub open spec fn has(t: Seq<char>, pat: Seq<char>) -> bool {
    exists|i: int| occurs_at(t, pat, i)
}

/// Whether `i` is the first position of `pat` in `t`.
pub open spec fn first_at(t: Seq<char>, pat: Seq<char>, i: int) -> bool {
    occurs_at(t, pat, i) && forall|j: int| 0 <= j < i ==> !occurs_at(t, pat, j)
}

/// The first position of `pat` in `t`.
pub open spec fn position(t: Seq<char>, pat: Seq<char>) -> Option<int> {
    if has(t, pat) {
        Some(choose|i: int| first_at(t, pat, i))
    } else {
        None
    }
}

pub proof fn lemma_position_is(t: Seq<char>, pat: Seq<char>, i: int)
    requires
        first_at(t, pat, i),
    ensures
        position(t, pat) == Some(i),
        has(t, pat),
{
    let j = choose|j: int| first_at(t, pat, j);
    assert(first_at(t, pat, j));
    if j < i {
        assert(!occurs_at(t, pat, j));
    }
    if i < j {
        assert(!occurs_at(t, pat, i));
    }
}

/// A text that holds `pat` has a first position of it.
pub proof fn lemma_position(t: Seq<char>, pat: Seq<char>)
    ensures
        has(t, pat) <==> position(t, pat) is Some,
        position(t, pat) matches Some(i) ==> first_at(t, pat, i) && 0 <= i && i + pat.len()
            <= t.len(),
{
    if has(t, pat) {
        let i = choose|i: int| occurs_at(t, pat, i);
        lemma_first_exists(t, pat, i);
        let j = choose|j: int| first_at(t, pat, j);
        assert(first_at(t, pat, j));
    }
}

proof fn lemma_first_exists(t: Seq<char>, pat: Seq<char>, i: int)
    requires
        occurs_at(t, pat, i),
    ensures
        exists|j: int| first_at(t, pat, j),
    decreases i,
{
    if exists|j: int| 0 <= j < i && occurs_at(t, pat, j) {
        let j = choose|j: int| 0 <= j < i && occurs_at(t, pat, j);
        lemma_first_exists(t, pat, j);
    } else {
        assert(first_at(t, pat, i));
    }
}

fn matches_at(t: &Vec<char>, pat: &Vec<char>, at: usize) -> (r: bool)
    requires
        at <= t.len(),
    ensures
        r == occurs_at(t@, pat@, at as int),
{
    if pat.len() > t.len() - at {
        return false;
    }
    let mut i: usize = 0;
    while i < pat.len()
        invariant
            i <= pat.len(),
            at + pat.len() <= t.len(),
            forall|j: int| 0 <= j < i ==> t@[at + j] == #[trigger] pat@[j],
        decreases pat.len() - i,
    {
        if t[at + i] != pat[i] {
            assert(t@.subrange(at as int, at + pat@.len())[i as int] != pat@[i as int]);
            return false;
        }
        i = i + 1;
    }
    assert(t@.subrange(at as int, at + pat@.len()) == pat@);
    true
}

fn find_in(t: &Vec<char>, pat: &Vec<char>) -> (r: Option<usize>)
    ensures
        (match r {
            Some(i) => position(t@, pat@) == Some(i as int) && i + pat.len() <= t.len(),
            None => position(t@, pat@) is None,
        }),
{
    let mut i: usize = 0;
    while i < t.len()
        invariant
            i <= t.len(),
            forall|j: int| 0 <= j < i ==> !occurs_at(t@, pat@, j),
        decreases t.len() - i,
    {
        if matches_at(t, pat, i) {
            proof {
                lemma_position_is(t@, pat@, i as int);
            }
            return Some(i);
        }
        i = i + 1;
    }
    if matches_at(t, pat, i) {
        proof {
            lemma_position_is(t@, pat@, i as int);
        }
        return Some(i);
    }
    assert forall|j: int| !occurs_at(t@, pat@, j) by {
        if j >= i {
            assert(j == i || j > t@.len());
        }
    }
    None
}

/// The first position of `pat` in the text, counted in characters.
pub fn find(s: &str, pat: &str) -> (r: Option<usize>)
    ensures
        (match r {
            Some(i) => position(s@, pat@) == Some(i as int) && i + pat@.len() <= s@.len(),
            None => position(s@, pat@) is None,
        }),
{
    find_in(&chars_of(s), &chars_of(pat))
}

/// Whether `pat` stands somewhere in the text.
pub fn contains(s: &str, pat: &str) -> (r: bool)
    ensures
        r == has(s@, pat@),
{
    proof {
        lemma_position(s@, pat@);
    }
    find(s, pat).is_some()
}

/// Whether the text starts with `pat`.
pub fn starts_with(s: &str, pat: &str) -> (r: bool)
    ensures
        r == pat@.is_prefix_of(s@),
{
    matches_at(&chars_of(s), &chars_of(pat), 0)
}

/// Whether the text ends with `pat`.
pub fn ends_with(s: &str, pat: &str) -> (r: bool)
    ensures
        r == pat@.is_suffix_of(s@),
{
    let t: Vec<char> = chars_of(s);
    let p: Vec<char> = chars_of(pat);
    if p.len() > t.len() {
        return false;
    }
    matches_at(&t, &p, t.len() - p.len())
}

/// What stands behind the first place where a text occurs.
pub open spec fn after(t: Seq<char>, pat: Seq<char>) -> Option<Seq<char>> {
    match position(t, pat) {
        Some(i) => Some(t.skip(i + pat.len())),
        None => None,
    }
}

/// What stands in front of the first place where a text occurs.
pub open spec fn before(t: Seq<char>, pat: Seq<char>) -> Option<Seq<char>> {
    match position(t, pat) {
        Some(i) => Some(t.take(i)),
        None => None,
    }
}

/// What stands behind the first place where a text occurs.
pub fn text_after<'a>(s: &'a str, pat: &str) -> (r: Option<&'a str>)
    ensures
        (match r {
            Some(rest) => after(s@, pat@) == Some(rest@),
            None => after(s@, pat@) is None,
        }),
{
    let n: usize = s.unicode_len();
    let k: usize = pat.unicode_len();
    match find(s, pat) {
        Some(i) => {
            assert(i + k <= n);
            Some(skip_chars(s, i + k))
        },
        None => None,
    }
}

/// What stands in front of the first place where a text occurs.
pub fn text_before<'a>(s: &'a str, pat: &str) -> (r: Option<&'a str>)
    ensures
        (match r {
            Some(rest) => before(s@, pat@) == Some(rest@),
            None => before(s@, pat@) is None,
        }),
{
    match find(s, pat) {
        Some(i) => Some(take_chars(s, i)),
        None => None,
    }
}

/// How many characters stand before the first `c` in `t`; all of them if there is none.
pub open spec fn index_of(t: Seq<char>, c: char) -> int
    decreases t.len(),
{
    if t.len() == 0 || t[0] == c {
        0
    } else {
        1 + index_of(t.drop_first(), c)
    }
}

pub proof fn lemma_index_of(t: Seq<char>, c: char)
    ensures
        0 <= index_of(t, c) <= t.len(),
        index_of(t, c) < t.len() ==> t[index_of(t, c)] == c,
        forall|i: int| 0 <= i < index_of(t, c) ==> t[i] != c,
    decreases t.len(),
{
    if t.len() > 0 && t[0] != c {
        let u = t.drop_first();
        lemma_index_of(u, c);
        assert forall|i: int| 0 <= i < index_of(t, c) implies t[i] != c by {
            if i > 0 {
                assert(t[i] == u[i - 1]);
            }
        }
    }
}

/// The text on either side of the first `c`, if there is one.
pub open spec fn split_once_at(t: Seq<char>, c: char) -> Option<(Seq<char>, Seq<char>)> {
    let i = index_of(t, c);
    if i < t.len() {
        Some((t.take(i), t.skip(i + 1)))
    } else {
        None
    }
}

/// The pieces between the occurrences of `c` in `t`, the empty ones among them.
pub open spec fn pieces(t: Seq<char>, c: char) -> Seq<Seq<char>>
    decreases t.len(),
{
    proof {
        lemma_index_of(t, c);
    }
    let i = index_of(t, c);
    if 0 <= i < t.len() {
        seq![t.take(i)] + pieces(t.skip(i + 1), c)
    } else {
        seq![t]
    }
}

/// A line without the carriage return that stands before its line feed.
pub open spec fn chomped(l: Seq<char>) -> Seq<char> {
    if l.len() > 0 && l.last() == '\r' {
        l.drop_last()
    } else {
        l
    }
}

/// The lines of `t`: each ends with a line feed, or a carriage return and a line feed, neither of
/// which belongs to it; the last one may end with the text.
pub open spec fn lines_of(t: Seq<char>) -> Seq<Seq<char>>
    decreases t.len(),
{
    proof {
        lemma_index_of(t, '\n');
    }
    let i = index_of(t, '\n');
    if t.len() == 0 {
        seq![]
    } else if 0 <= i < t.len() {
        seq![chomped(t.take(i))] + lines_of(t.skip(i + 1))
    } else {
        seq![t]
    }
}

/// The texts of a list of strings.
pub open spec fn texts(v: Seq<String>) -> Seq<Seq<char>> {
    v.map_values(|s: String| s@)
}

/// `parts` one after the other, with `sep` between two neighbours.
pub open spec fn joined(parts: Seq<Seq<char>>, sep: Seq<char>) -> Seq<char>
    decreases parts.len(),
{
    if parts.len() == 0 {
        seq![]
    } else if parts.len() == 1 {
        parts[0]
    } else {
        joined(parts.drop_last(), sep) + sep + parts.last()
    }
}

fn index_in(v: &Vec<char>, from: usize, c: char) -> (n: usize)
    requires
        from <= v.len(),
    ensures
        n == from + index_of(v@.skip(from as int), c),
        from <= n <= v.len(),
        n < v.len() ==> v@[n as int] == c,
{
    let mut n: usize = from;
    proof {
        lemma_index_of(v@.skip(from as int), c);
    }
    while n < v.len() && v[n] != c
        invariant
            from <= n <= v.len(),
            index_of(v@.skip(from as int), c) == (n - from) + index_of(v@.skip(n as int), c),
        decreases v.len() - n,
    {
        assert(v@.skip(n as int).drop_first() == v@.skip(n + 1));
        n = n + 1;
    }
    assert(index_of(v@.skip(n as int), c) == 0);
    n
}

/// The text on either side of the first `c`, if there is one.
pub fn split_once<'a>(s: &'a str, c: char) -> (r: Option<(&'a str, &'a str)>)
    ensures
        (match r {
            Some((x, y)) => split_once_at(s@, c) == Some((x@, y@)),
            None => split_once_at(s@, c) is None,
        }),
{
    let v: Vec<char> = chars_of(s);
    assert(v@.skip(0) == v@);
    let n: usize = index_in(&v, 0, c);
    if n < v.len() {
        Some((take_chars(s, n), skip_chars(s, n + 1)))
    } else {
        None
    }
}

/// A copy of the characters from `from` up to `to`.
pub fn cut(s: &str, from: usize, to: usize) -> (r: String)
    requires
        from <= to <= s@.len(),
    ensures
        r@ == s@.subrange(from as int, to as int),
{
    s.substring_char(from, to).to_owned()
}

/// The pieces between the occurrences of `c` in the text, the empty ones among them.
pub fn split(s: &str, c: char) -> (r: Vec<String>)
    ensures
        texts(r@) == pieces(s@, c),
{
    let v: Vec<char> = chars_of(s);
    let mut out: Vec<String> = Vec::new();
    let mut at: usize = 0;
    assert(s@.skip(0) == s@);
    loop
        invariant_except_break
            v@ == s@,
            at <= v.len(),
            pieces(s@, c) == texts(out@) + pieces(s@.skip(at as int), c),
        ensures
            texts(out@) == pieces(s@, c),
        decreases v.len() - at,
    {
        let n: usize = index_in(&v, at, c);
        let ghost rest = s@.skip(at as int);
        let ghost before = texts(out@);
        assert(s@.subrange(at as int, n as int) == rest.take(n - at));
        let piece: String = cut(s, at, n);
        out.push(piece);
        assert(texts(out@) == before + seq![piece@]);
        if n < v.len() {
            assert(rest.skip(n - at + 1) == s@.skip(n + 1));
            assert(pieces(rest, c) == seq![rest.take(n - at)] + pieces(s@.skip(n + 1), c));
            assert(before + (seq![piece@] + pieces(s@.skip(n + 1), c)) == before + seq![piece@]
                + pieces(s@.skip(n + 1), c));
            at = n + 1;
        } else {
            assert(rest.take(n - at) == rest);
            assert(pieces(rest, c) == seq![rest]);
            break;
        }
    }
    out
}

/// The lines of the text.
pub fn lines(s: &str) -> (r: Vec<String>)
    ensures
        texts(r@) == lines_of(s@),
{
    let v: Vec<char> = chars_of(s);
    let mut out: Vec<String> = Vec::new();
    let mut at: usize = 0;
    assert(s@.skip(0) == s@);
    while at < v.len()
        invariant
            v@ == s@,
            at <= v.len(),
            lines_of(s@) == texts(out@) + lines_of(s@.skip(at as int)),
        decreases v.len() - at,
    {
        let n: usize = index_in(&v, at, '\n');
        let ghost rest = s@.skip(at as int);
        let ghost before = texts(out@);
        assert(s@.subrange(at as int, n as int) == rest.take(n - at));
        if n < v.len() {
            let end: usize = if n > at && v[n - 1] == '\r' {
                n - 1
            } else {
                n
            };
            let line: String = cut(s, at, end);
            assert(line@ == chomped(rest.take(n - at)));
            out.push(line);
            assert(texts(out@) == before + seq![line@]);
            assert(rest.skip(n - at + 1) == s@.skip(n + 1));
            assert(lines_of(rest) == seq![line@] + lines_of(s@.skip(n + 1)));
            assert(before + (seq![line@] + lines_of(s@.skip(n + 1))) == before + seq![line@]
                + lines_of(s@.skip(n + 1)));
            at = n + 1;
        } else {
            let line: String = cut(s, at, n);
            assert(rest.take(n - at) == rest);
            out.push(line);
            assert(texts(out@) == before + seq![line@]);
            assert(lines_of(rest) == seq![rest]);
            at = n;
            assert(s@.skip(at as int).len() == 0);
            assert(texts(out@) + lines_of(s@.skip(at as int)) == before + seq![line@]);
        }
    }
    assert(s@.skip(at as int).len() == 0);
    assert(texts(out@) + lines_of(s@.skip(at as int)) == texts(out@));
    out
}

/// The texts one after the other, with `sep` between two neighbours.
pub fn join(parts: &Vec<String>, sep: &str) -> (r: String)
    ensures
        r@ == joined(texts(parts@), sep@),
{
    let mut out: String = String::new();
    let mut i: usize = 0;
    let ghost all = texts(parts@);
    while i < parts.len()
        invariant
            all == texts(parts@),
            i <= parts.len(),
            out@ == joined(all.take(i as int), sep@),
        decreases parts.len() - i,
    {
        let ghost shown = all.take(i + 1);
        assert(shown.drop_last() == all.take(i as int));
        assert(shown.last() == parts@[i as int]@);
        if i > 0 {
            out.append(sep);
        }
        out.append(parts[i].as_str());
        if i == 0 {
            assert(joined(all.take(0), sep@) == Seq::<char>::empty());
            assert(Seq::<char>::empty() + shown[0] == shown[0]);
        }
        i = i + 1;
    }
    assert(all.take(i as int) == all);
    out
}

/// The text after `pat`, if it starts with `pat`.
pub fn strip_prefix<'a>(s: &'a str, pat: &str) -> (r: Option<&'a str>)
    ensures
        (match r {
            Some(x) => pat@.is_prefix_of(s@) && x@ == s@.skip(pat@.len() as int),
            None => !pat@.is_prefix_of(s@),
        }),
{
    if starts_with(s, pat) {
        Some(skip_chars(s, pat.unicode_len()))
    } else {
        None
    }
}

/// The parts without white space around them, those left out of which nothing remains.
pub open spec fn trimmed_parts(parts: Seq<Seq<char>>) -> Seq<Seq<char>>
    decreases parts.len(),
{
    if parts.len() == 0 {
        seq![]
    } else {
        let front = trimmed_parts(parts.drop_last());
        if trimmed(parts.last()).len() > 0 {
            front.push(trimmed(parts.last()))
        } else {
            front
        }
    }
}

/// The parts without white space around them, those left out of which nothing remains.
pub fn trim_parts(parts: &Vec<String>) -> (r: Vec<String>)
    ensures
        texts(r@) == trimmed_parts(texts(parts@)),
{
    let mut r: Vec<String> = Vec::new();
    let mut i: usize = 0;
    assert(texts(r@) == trimmed_parts(texts(parts@).take(0)));
    while i < parts.len()
        invariant
            i <= parts.len(),
            texts(r@) == trimmed_parts(texts(parts@).take(i as int)),
        decreases parts.len() - i,
    {
        let t: &str = trim(parts[i].as_str());
        let ghost before = r@;
        assert(texts(parts@).take(i + 1).drop_last() == texts(parts@).take(i as int));
        if t.unicode_len() > 0 {
            r.push(t.to_owned());
            assert(texts(r@) == texts(before).push(t@));
        }
        i = i + 1;
    }
    assert(texts(parts@).take(i as int) == texts(parts@));
    r
}

/// The place where a character occurs last; -1 where it does not occur.
pub open spec fn last_index_of(t: Seq<char>, c: char) -> int
    decreases t.len(),
{
    if t.len() == 0 {
        -1
    } else if t.last() == c {
        t.len() - 1
    } else {
        last_index_of(t.drop_last(), c)
    }
}

/// What stands behind the last place where a character occurs.
pub open spec fn after_last(t: Seq<char>, c: char) -> Option<Seq<char>> {
    if last_index_of(t, c) >= 0 {
        Some(t.skip(last_index_of(t, c) + 1))
    } else {
        None
    }
}

/// What stands behind the last place where a character occurs.
pub fn text_after_last<'a>(s: &'a str, c: char) -> (r: Option<&'a str>)
    ensures
        (match r {
            Some(rest) => after_last(s@, c) == Some(rest@),
            None => after_last(s@, c) is None,
        }),
{
    let v: Vec<char> = chars_of(s);
    let mut n: usize = v.len();
    assert(v@.take(n as int) == s@);
    while n > 0
        invariant
            n <= v.len(),
            v@ == s@,
            last_index_of(s@, c) == last_index_of(s@.take(n as int), c),
        decreases n,
    {
        assert(s@.take(n as int).drop_last() == s@.take(n - 1));
        if v[n - 1] == c {
            return Some(skip_chars(s, n));
        }
        n = n - 1;
    }
    None
}

/// Whether a text stands in a list.
pub fn stands_in(list: &Vec<String>, s: &str) -> (r: bool)
    ensures
        r == texts(list@).contains(s@),
{
    let mut i: usize = 0;
    while i < list.len()
        invariant
            i <= list.len(),
            forall|j: int| 0 <= j < i ==> (#[trigger] texts(list@)[j]) != s@,
        decreases list.len() - i,
    {
        assert(texts(list@)[i as int] == list@[i as int]@);
        if same(list[i].as_str(), s) {
            return true;
        }
        i = i + 1;
    }
    false
}

/// The text without the pattern in front of it, however often that stands there.
pub open spec fn unprefixed(t: Seq<char>, pat: Seq<char>) -> Seq<char>
    decreases t.len(),
{
    if pat.len() > 0 && pat.is_prefix_of(t) {
        unprefixed(t.skip(pat.len() as int), pat)
    } else {
        t
    }
}

/// The text without the pattern in front of it, however often that stands there.
pub fn trim_prefix<'a>(s: &'a str, pat: &str) -> (r: &'a str)
    ensures
        r@ == unprefixed(s@, pat@),
{
    let mut rest: &'a str = s;
    if pat.unicode_len() == 0 {
        return rest;
    }
    while starts_with(rest, pat)
        invariant
            pat@.len() > 0,
            unprefixed(rest@, pat@) == unprefixed(s@, pat@),
        decreases rest@.len(),
    {
        rest = skip_chars(rest, pat.unicode_len());
    }
    rest
}

/// The places below `n` where a text occurs.
pub open spec fn places(t: Seq<char>, pat: Seq<char>, n: int) -> Seq<usize>
    decreases n,
{
    if n <= 0 {
        seq![]
    } else if occurs_at(t, pat, n - 1) {
        places(t, pat, n - 1).push((n - 1) as usize)
    } else {
        places(t, pat, n - 1)
    }
}

/// The places where a text occurs.
pub fn find_all(s: &str, pat: &str) -> (r: Vec<usize>)
    ensures
        r@ == places(s@, pat@, s@.len() as int),
        forall|i: int| 0 <= i < r.len() ==> (#[trigger] r@[i]) < s@.len(),
{
    let t: Vec<char> = chars_of(s);
    let p: Vec<char> = chars_of(pat);
    let mut r: Vec<usize> = Vec::new();
    let mut n: usize = 0;
    while n < t.len()
        invariant
            n <= t.len(),
            t@ == s@,
            p@ == pat@,
            r@ == places(s@, pat@, n as int),
            forall|i: int| 0 <= i < r.len() ==> (#[trigger] r@[i]) < n,
        decreases t.len() - n,
    {
        if matches_at(&t, &p, n) {
            r.push(n);
        }
        n = n + 1;
    }
    r
}

/// The first `n` characters of a text, or all of it.
pub open spec fn shortened(t: Seq<char>, n: int) -> Seq<char> {
    if t.len() <= n {
        t
    } else {
        t.take(n)
    }
}

/// The first `n` characters of a text, or all of it.
pub fn shorten<'a>(s: &'a str, n: usize) -> (r: &'a str)
    ensures
        r@ == shortened(s@, n as int),
{
    if s.unicode_len() <= n {
        s
    } else {
        take_chars(s, n)
    }
}

} // verus!
