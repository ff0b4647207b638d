//! Decimal numbers in text.

use vstd::prelude::*;
use crate::text;
use crate::text::{CharClass, chars_of};

verus! {

/// The values that a 32-bit signed integer takes.
pub open spec fn fits(n: int) -> bool {
    i32::MIN <= n <= i32::MAX
}

/// The character that writes the digit `d`.
pub open spec fn digit(d: int) -> char {
    ('0' as int + d) as char
}

/// `n` in decimal, without leading zeros.
pub open spec fn nat_text(n: nat) -> Seq<char>
    decreases n,
{
    if n < 10 {
        seq![digit(n as int)]
    } else {
        nat_text(n / 10).push(digit((n % 10) as int))
    }
}

/// `n` in decimal, with a minus sign where it is negative.
pub open spec fn int_text(n: int) -> Seq<char> {
    if n < 0 {
        seq!['-'] + nat_text((-n) as nat)
    } else {
        nat_text(n as nat)
    }
}

/// Whether `t` holds nothing but digits.
pub open spec fn all_digits(t: Seq<char>) -> bool {
    forall|i: int| 0 <= i < t.len() ==> text::is_digit(#[trigger] t[i])
}

/// The number that a run of digits writes.
pub open spec fn digits_value(t: Seq<char>) -> nat
    decreases t.len(),
{
    if t.len() == 0 {
        0
    } else {
        digits_value(t.drop_last()) * 10 + (t.last() as int - '0' as int) as nat
    }
}

/// The number that `t` writes: an optional sign, then digits and nothing else, in the range of a
/// 32-bit signed integer.
pub open spec fn parsed_int(t: Seq<char>) -> Option<int> {
    let signed = t.len() > 0 && (t[0] == '+' || t[0] == '-');
    let body = if signed {
        t.drop_first()
    } else {
        t
    };
    let value = if signed && t[0] == '-' {
        -(digits_value(body) as int)
    } else {
        digits_value(body) as int
    };
    if body.len() > 0 && all_digits(body) && fits(value) {
        Some(value)
    } else {
        None
    }
}

fn digit_str(d: u8) -> (r: &'static str)
    requires
        d < 10,
    ensures
        r@ == seq![digit(d as int)],
{
    proof {
        reveal_strlit("0");
        reveal_strlit("1");
        reveal_strlit("2");
        reveal_strlit("3");
        reveal_strlit("4");
        reveal_strlit("5");
        reveal_strlit("6");
        reveal_strlit("7");
        reveal_strlit("8");
        reveal_strlit("9");
    }
    let r = match d {
        0 => "0",
        1 => "1",
        2 => "2",
        3 => "3",
        4 => "4",
        5 => "5",
        6 => "6",
        7 => "7",
        8 => "8",
        _ => "9",
    };
    assert(r@ == seq![digit(d as int)]);
    r
}

/// Appends `n` in decimal.
pub fn push_nat(out: &mut String, n: u128)
    ensures
        final(out)@ == old(out)@ + nat_text(n as nat),
    decreases n,
{
    if n < 10 {
        out.append(digit_str(n as u8));
    } else {
        let ghost before = out@;
        push_nat(out, n / 10);
        out.append(digit_str((n % 10) as u8));
        assert(before + nat_text((n / 10) as nat) + seq![digit((n % 10) as int)] == before
            + nat_text((n / 10) as nat).push(digit((n % 10) as int)));
    }
}

/// Appends `n` in decimal, with a minus sign where it is negative.
pub fn push_int(out: &mut String, n: i32)
    ensures
        final(out)@ == old(out)@ + int_text(n as int),
{
    if n < 0 {
        let ghost before = out@;
        proof {
            reveal_strlit("-");
        }
        out.append("-");
        assert("-"@ == seq!['-']);
        let m: i64 = -(n as i64);
        push_nat(out, m as u128);
        assert(before + seq!['-'] + nat_text(m as nat) == before + (seq!['-'] + nat_text(
            m as nat,
        )));
    } else {
        push_nat(out, n as u128);
    }
}

/// The number that the text writes, if it writes one.
#[verifier::loop_isolation(false)]
pub fn parse_int(s: &str) -> (r: Option<i32>)
    ensures
        (match r {
            Some(n) => parsed_int(s@) == Some(n as int),
            None => parsed_int(s@) is None,
        }),
{
    let v: Vec<char> = chars_of(s);
    let signed: bool = v.len() > 0 && (v[0] == '+' || v[0] == '-');
    let negative: bool = signed && v[0] == '-';
    let from: usize = if signed {
        1
    } else {
        0
    };
    let ghost body = v@.skip(from as int);
    assert(body == if signed {
        v@.drop_first()
    } else {
        v@
    });
    if v.len() == from {
        return None;
    }
    let limit: u64 = if negative {
        2147483648
    } else {
        2147483647
    };
    let mut i: usize = from;
    let mut sum: u64 = 0;
    let mut large: bool = false;
    while i < v.len()
        invariant
            from <= i <= v.len(),
            forall|j: int| 0 <= j < i - from ==> text::is_digit(#[trigger] body[j]),
            large ==> digits_value(body.take(i - from)) > limit,
            !large ==> digits_value(body.take(i - from)) == sum && sum <= limit,
        decreases v.len() - i,
    {
        if !CharClass::Digit.test(v[i]) {
            assert(!text::is_digit(body[i - from]));
            return None;
        }
        let d: u64 = (v[i] as u32 - 48) as u64;
        let ghost shown = body.take(i + 1 - from);
        assert(shown.drop_last() == body.take(i - from));
        assert(shown.last() == v@[i as int]);
        if !large {
            sum = sum * 10 + d;
            if sum > limit {
                large = true;
            }
        }
        i = i + 1;
    }
    assert(body.take(i - from) == body);
    assert(all_digits(body));
    if large {
        return None;
    }
    let n: i64 = if negative {
        -(sum as i64)
    } else {
        sum as i64
    };
    Some(n as i32)
}

/// A result left the range of a 32-bit signed integer.
#[derive(Debug, Clone, Copy, PartialEq, Eq)]
pub struct Overflow;

/// The sum, if it is in range.
pub fn sum(a: i32, b: i32) -> (r: Result<i32, Overflow>)
    ensures
        (match r {
            Ok(v) => fits(a + b) && v == a + b,
            Err(_) => !fits(a + b),
        }),
{
    match a.checked_add(b) {
        Some(v) => Ok(v),
        None => Err(Overflow),
    }
}

/// The product, if it is in range.
pub fn product(a: i32, b: i32) -> (r: Result<i32, Overflow>)
    ensures
        (match r {
            Ok(v) => fits(a * b) && v == a * b,
            Err(_) => !fits(a * b),
        }),
{
    match a.checked_mul(b) {
        Some(v) => Ok(v),
        None => Err(Overflow),
    }
}

/// The greater of two numbers.
pub open spec fn greater(a: int, b: int) -> int {
    if a >= b {
        a
    } else {
        b
    }
}

/// The lesser of two numbers.
pub open spec fn lesser(a: int, b: int) -> int {
    if a <= b {
        a
    } else {
        b
    }
}

/// `n`, brought into the range from `lo` to `hi`.
pub open spec fn clamped(n: int, lo: int, hi: int) -> int {
    if n < lo {
        lo
    } else if n > hi {
        hi
    } else {
        n
    }
}

/// The greater of two numbers.
pub fn larger(a: i32, b: i32) -> (r: i32)
    ensures
        r == greater(a as int, b as int),
{
    if a >= b {
        a
    } else {
        b
    }
}

/// The lesser of two numbers.
pub fn smaller(a: i32, b: i32) -> (r: i32)
    ensures
        r == lesser(a as int, b as int),
{
    if a <= b {
        a
    } else {
        b
    }
}

/// `n`, brought into the range from `lo` to `hi`.
pub fn clamp(n: i32, lo: i32, hi: i32) -> (r: i32)
    requires
        lo <= hi,
    ensures
        r == clamped(n as int, lo as int, hi as int),
{
    if n < lo {
        lo
    } else if n > hi {
        hi
    } else {
        n
    }
}

} // verus!
