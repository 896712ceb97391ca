use vstd::prelude::*;
use crate::lang::text::{push_char, chars_of};
use crate::lang::builder::ast::grammar::{is_digit, decimal_value, digit_value};
use crate::lang::builder::ast::{lemma_decimal_monotone, lemma_decimal_nonneg};

verus! {

/// The character of a decimal digit.
pub open spec fn digit_char(d: int) -> char {
    (d + 48) as char
}

/// The decimal digits of a natural number, most significant first.
pub open spec fn nat_digits(n: nat) -> Seq<char>
    decreases n,
{
    if n < 10 {
        seq![digit_char(n as int)]
    } else {
        nat_digits(n / 10).push(digit_char((n % 10) as int))
    }
}

/// How an integer is written: its decimal digits, after a `-` when it is
/// negative.
pub open spec fn int_text(i: int) -> Seq<char> {
    if i < 0 {
        seq!['-'] + nat_digits((-i) as nat)
    } else {
        nat_digits(i as nat)
    }
}

/// Whether a text has a `+` or `-` in front.
pub open spec fn has_sign(s: Seq<char>) -> bool {
    s.len() > 0 && (s[0] == '+' || s[0] == '-')
}

/// The digits of a number text, after its sign if it has one.
pub open spec fn unsigned_part(s: Seq<char>) -> Seq<char> {
    if has_sign(s) {
        s.drop_first()
    } else {
        s
    }
}

/// The integer a text denotes when it is read as an `i64`: an optional sign
/// followed by one or more decimal digits, and a value in the range of
/// `i64`; `None` for any other text.
pub open spec fn int_of_text(s: Seq<char>) -> Option<int> {
    let digits = unsigned_part(s);
    let v = if has_sign(s) && s[0] == '-' {
        -decimal_value(digits)
    } else {
        decimal_value(digits)
    };
    if digits.len() > 0 && (forall|i: int| 0 <= i < digits.len() ==> is_digit(#[trigger] digits[i]))
        && i64::MIN <= v <= i64::MAX {
        Some(v)
    } else {
        None
    }
}

/// The digits of a natural number are decimal digits, at least one, and
/// they denote the number.
pub proof fn lemma_nat_digits(n: nat)
    ensures
        nat_digits(n).len() > 0,
        forall|k: int| 0 <= k < nat_digits(n).len() ==> is_digit(#[trigger] nat_digits(n)[k]),
        decimal_value(nat_digits(n)) == n,
    decreases n,
{
    let c = digit_char((n % 10) as int);
    assert(c as int == n % 10 + 48);
    assert(digit_value(c) == n % 10);
    if n < 10 {
        assert(nat_digits(n).drop_last() =~= Seq::<char>::empty());
        assert(nat_digits(n).last() == c);
        assert(decimal_value(Seq::<char>::empty()) == 0);
    } else {
        lemma_nat_digits(n / 10);
        assert(nat_digits(n).drop_last() =~= nat_digits(n / 10));
        assert(nat_digits(n).last() == c);
        assert((n / 10) * 10 + n % 10 == n) by (nonlinear_arith);
    }
}

/// Reading back the text of an integer gives the integer: what `i64`
/// prints, it reads.
pub proof fn law_int_text_round_trip(i: i64)
    ensures
        int_of_text(int_text(i as int)) == Some(i as int),
{
    let t = int_text(i as int);
    if i < 0 {
        lemma_nat_digits((-i) as nat);
        assert(unsigned_part(t) =~= nat_digits((-i) as nat));
    } else {
        lemma_nat_digits(i as nat);
        assert(is_digit(t[0]));
        assert(unsigned_part(t) =~= nat_digits(i as nat));
    }
}

fn digit_to_char(d: u64) -> (c: char)
    requires
        d < 10,
    ensures
        c == digit_char(d as int),
{
    let b: u8 = d as u8 + 48;
    b as char
}

/// Appends the decimal digits of `n`.
fn push_digits(out: &mut String, n: u64)
    ensures
        final(out)@ == old(out)@ + nat_digits(n as nat),
    decreases n,
{
    if n >= 10 {
        push_digits(out, n / 10);
    }
    let c = digit_to_char(n % 10);
    push_char(out, c);
    assert(out@ =~= old(out)@ + nat_digits(n as nat));
}

/// The text of an integer, as `i64` is printed.
pub fn int_to_string(i: i64) -> (r: String)
    ensures
        r@ == int_text(i as int),
{
    let mut out = String::new();
    if i < 0 {
        push_char(&mut out, '-');
        let m: u64 = (-(i + 1)) as u64 + 1;
        push_digits(&mut out, m);
    } else {
        push_digits(&mut out, i as u64);
    }
    out
}

/// Reads a text as an `i64` (see [`int_of_text`]).
pub fn parse_int(s: &str) -> (r: Option<i64>)
    ensures
        match int_of_text(s@) {
            Some(v) => r == Some(v as i64),
            None => r is None,
        },
{
    let chars = chars_of(s);
    let n = chars.len();
    let mut start: usize = 0;
    let mut neg = false;
    if n > 0 && (chars[0] == '+' || chars[0] == '-') {
        start = 1;
        neg = chars[0] == '-';
    }
    let ghost digits = unsigned_part(s@);
    assert(digits =~= chars@.subrange(start as int, n as int));
    if start == n {
        return None;
    }
    let limit: u128 = 9223372036854775808;
    let mut acc: u128 = 0;
    let mut i: usize = start;
    while i < n
        invariant
            start <= i <= n,
            n == chars@.len(),
            chars@ == s@,
            digits == unsigned_part(s@),
            digits == chars@.subrange(start as int, n as int),
            limit == 9223372036854775808,
            forall|k: int| 0 <= k < i - start ==> is_digit(#[trigger] digits[k]),
            acc as int == decimal_value(digits.take(i - start)),
            acc <= limit,
        decreases n - i,
    {
        let c = chars[i];
        if !('0' <= c && c <= '9') {
            assert(!is_digit(digits[i - start]));
            return None;
        }
        let d: u128 = (c as u32 - '0' as u32) as u128;
        proof {
            assert(digits.take(i - start + 1).drop_last() =~= digits.take(i - start));
        }
        acc = acc * 10 + d;
        i = i + 1;
        if acc > limit {
            proof {
                if forall|k: int| 0 <= k < digits.len() ==> is_digit(#[trigger] digits[k]) {
                    lemma_decimal_monotone(digits, i - start);
                }
            }
            return None;
        }
    }
    assert(digits.take(n - start) =~= digits);
    proof {
        lemma_decimal_nonneg(digits);
    }
    if neg {
        if acc == limit {
            Some(i64::MIN)
        } else {
            Some(-(acc as i64))
        }
    } else if acc > 9223372036854775807 {
        None
    } else {
        Some(acc as i64)
    }
}

} // verus!
