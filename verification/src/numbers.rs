//! Decimal numbers as text.
use vstd::prelude::*;

use crate::text;

verus! {

/// The character of a decimal digit.
pub open spec fn digit_of(d: nat) -> char {
    ('0' as int + d) as char
}

/// Whether `c` is one of the digits `0` to `9`.
pub open spec fn is_digit(c: char) -> bool {
    '0' <= c <= '9'
}

/// The value of a digit.
pub open spec fn digit_value(c: char) -> nat {
    (c as int - '0' as int) as nat
}

/// Whether `s` holds digits only.
pub open spec fn all_digits(s: Seq<char>) -> bool {
    forall|i: int| 0 <= i < s.len() ==> is_digit(#[trigger] s[i])
}

/// The decimal notation of `n`, without leading zeros.
pub open spec fn decimal(n: nat) -> Seq<char>
    decreases n,
{
    if n < 10 {
        seq![digit_of(n)]
    } else {
        decimal(n / 10).push(digit_of(n % 10))
    }
}

/// The decimal notation of `n`, of two characters at least.
pub open spec fn two_digits(n: nat) -> Seq<char> {
    if n < 10 {
        seq!['0'] + decimal(n)
    } else {
        decimal(n)
    }
}

/// The value of a sequence of digits.
pub open spec fn digits_value(s: Seq<char>) -> nat
    decreases s.len(),
{
    if s.len() == 0 {
        0
    } else {
        10 * digits_value(s.drop_last()) + digit_value(s.last())
    }
}

/// The unsigned number that `s` writes down: digits, of which there is at least one, with or
/// without one plus sign before them.
pub open spec fn unsigned_of(s: Seq<char>) -> Option<nat> {
    let digits = if s.len() > 0 && s[0] == '+' {
        s.drop_first()
    } else {
        s
    };
    if digits.len() > 0 && all_digits(digits) {
        Some(digits_value(digits))
    } else {
        None
    }
}

/// The unsigned number that `s` writes down, where it is at most `max`.
pub open spec fn bounded_of(s: Seq<char>, max: nat) -> Option<nat> {
    match unsigned_of(s) {
        Some(n) => if n <= max {
            Some(n)
        } else {
            None
        },
        None => None,
    }
}

/// The decimal notation of a number holds digits only, is not empty and has the number's value.
pub proof fn lemma_decimal(n: nat)
    ensures
        all_digits(decimal(n)),
        decimal(n).len() > 0,
        digits_value(decimal(n)) == n,
    decreases n,
{
    if n >= 10 {
        lemma_decimal(n / 10);
        assert(decimal(n).drop_last() == decimal(n / 10));
    } else {
        assert(decimal(n).drop_last() == Seq::<char>::empty());
        assert(digits_value(decimal(n).drop_last()) == 0);
    }
}

/// Reading the decimal notation of a number gives the number back.
pub proof fn law_decimal_round_trip(n: nat)
    ensures
        unsigned_of(decimal(n)) == Some(n),
{
    lemma_decimal(n);
    assert(is_digit(decimal(n)[0]));
}

fn digit_char(d: u64) -> (c: char)
    requires
        d < 10,
    ensures
        c == digit_of(d as nat),
{
    (48u8 + d as u8) as char
}

/// The decimal notation of `n`.
pub fn to_decimal(n: u64) -> (r: String)
    ensures
        r@ == decimal(n as nat),
    decreases n,
{
    if n < 10 {
        let mut r = String::new();
        r.push(digit_char(n));
        assert(r@ == seq![digit_of(n as nat)]);
        r
    } else {
        let mut r = to_decimal(n / 10);
        r.push(digit_char(n % 10));
        r
    }
}

/// The decimal notation of `n`, of two characters at least.
pub fn to_two_digits(n: u64) -> (r: String)
    ensures
        r@ == two_digits(n as nat),
{
    if n < 10 {
        let mut r = String::new();
        r.push('0');
        r.append(to_decimal(n).as_str());
        assert(r@ == seq!['0'] + decimal(n as nat));
        r
    } else {
        to_decimal(n)
    }
}

proof fn lemma_digits_value_grows(s: Seq<char>, i: int)
    requires
        0 <= i <= s.len(),
    ensures
        digits_value(s.take(i)) <= digits_value(s),
    decreases s.len() - i,
{
    if i < s.len() {
        lemma_digits_value_grows(s, i + 1);
        assert(s.take(i + 1).drop_last() == s.take(i));
    } else {
        assert(s.take(i) == s);
    }
}

/// The unsigned number that `s` writes down, where it is at most `max`.
pub fn parse_bounded(s: &str, max: u64) -> (r: Option<u64>)
    ensures
        match r {
            Some(n) => bounded_of(s@, max as nat) == Some(n as nat),
            None => bounded_of(s@, max as nat) is None,
        },
{
    let v = text::chars_of(s);
    let start: usize = if v.len() > 0 && v[0] == '+' {
        1
    } else {
        0
    };
    let ghost digits = if s@.len() > 0 && s@[0] == '+' {
        s@.drop_first()
    } else {
        s@
    };
    assert(digits == s@.skip(start as int));
    if start == v.len() {
        return None;
    }
    let mut n: u64 = 0;
    let mut i: usize = start;
    assert(digits.take(0) == Seq::<char>::empty());
    while i < v.len()
        invariant
            v@ == s@,
            start <= i <= v.len(),
            digits == s@.skip(start as int),
            unsigned_of(s@) is Some ==> unsigned_of(s@) == Some(digits_value(digits)),
            digits.len() > 0 && all_digits(digits) <==> unsigned_of(s@) is Some,
            all_digits(digits.take(i - start)),
            n == digits_value(digits.take(i - start)),
            n <= max,
        decreases v.len() - i,
    {
        let c = v[i];
        assert(digits[i - start] == c);
        if c < '0' || c > '9' {
            return None;
        }
        let d: u64 = (c as u32 - '0' as u32) as u64;
        assert(digits.take(i + 1 - start).drop_last() == digits.take(i - start));
        assert(digits.take(i + 1 - start).last() == c);
        assert(digits_value(digits.take(i + 1 - start)) == 10 * n + d);
        proof {
            lemma_digits_value_grows(digits, i + 1 - start);
        }
        if n > (u64::MAX - d) / 10 || n * 10 + d > max {
            return None;
        }
        n = n * 10 + d;
        i = i + 1;
    }
    assert(digits.take(v.len() - start) == digits);
    Some(n)
}

/// The number that `s` writes down, where it fits in 32 bits.
pub fn parse_u32(s: &str) -> (r: Option<u32>)
    ensures
        match r {
            Some(n) => bounded_of(s@, u32::MAX as nat) == Some(n as nat),
            None => bounded_of(s@, u32::MAX as nat) is None,
        },
{
    match parse_bounded(s, 4294967295) {
        Some(n) => Some(n as u32),
        None => None,
    }
}

/// The number that `s` writes down, where it fits in 8 bits.
pub fn parse_u8(s: &str) -> (r: Option<u8>)
    ensures
        match r {
            Some(n) => bounded_of(s@, u8::MAX as nat) == Some(n as nat),
            None => bounded_of(s@, u8::MAX as nat) is None,
        },
{
    match parse_bounded(s, 255) {
        Some(n) => Some(n as u8),
        None => None,
    }
}

/// The number that `s` writes down, where it fits in 64 bits.
pub fn parse_u64(s: &str) -> (r: Option<u64>)
    ensures
        match r {
            Some(n) => bounded_of(s@, u64::MAX as nat) == Some(n as nat),
            None => bounded_of(s@, u64::MAX as nat) is None,
        },
{
    parse_bounded(s, u64::MAX)
}

/// The decimal notation of a number that may be negative.
pub open spec fn signed_decimal(n: int) -> Seq<char> {
    if n < 0 {
        seq!['-'] + decimal((-n) as nat)
    } else {
        decimal(n as nat)
    }
}

/// The decimal notation of a number that may be negative.
pub fn to_signed_decimal(n: i64) -> (r: String)
    ensures
        r@ == signed_decimal(n as int),
{
    if n < 0 {
        let m: i128 = -(n as i128);
        let digits = to_decimal(m as u64);
        let mut r = String::new();
        r.push('-');
        r.append(digits.as_str());
        assert(r@ == seq!['-'] + digits@);
        r
    } else {
        to_decimal(n as u64)
    }
}

// ---------------------------------------------------------------------------------------------
// Laws
// ---------------------------------------------------------------------------------------------

/// A number is read back from its digits where it is not too large, with or without a plus sign
/// and with leading zeros; what is no number is not read.
pub proof fn law_bounded(n: nat, max: nat, s: Seq<char>)
    ensures
        bounded_of(decimal(n), max) == if n <= max {
            Some(n)
        } else {
            None
        },
        bounded_of(seq!['0'] + decimal(n), max) == bounded_of(decimal(n), max),
        bounded_of(seq!['+'] + decimal(n), max) == bounded_of(decimal(n), max),
        bounded_of(Seq::empty(), max) is None,
        (exists|i: int| 0 < i < s.len() && !is_digit(#[trigger] s[i])) ==> bounded_of(s, max) is None,
        s.len() > 0 && !is_digit(s[0]) && s[0] != '+' ==> bounded_of(s, max) is None,
{
    lemma_decimal(n);
    law_decimal_round_trip(n);
    let d = decimal(n);
    assert(is_digit(d[0]));
    let plus = seq!['+'] + d;
    assert(plus.drop_first() =~= d);
    let zero = seq!['0'] + d;
    assert(all_digits(zero)) by {
        assert forall|i: int| 0 <= i < zero.len() implies is_digit(#[trigger] zero[i]) by {
            if i > 0 {
                assert(zero[i] == d[i - 1]);
            }
        }
    }
    lemma_leading_zero(d);
    if exists|i: int| 0 < i < s.len() && !is_digit(#[trigger] s[i]) {
        let i = choose|i: int| 0 < i < s.len() && !is_digit(#[trigger] s[i]);
        assert(s.drop_first()[i - 1] == s[i]);
    }
}

proof fn lemma_leading_zero(d: Seq<char>)
    ensures
        digits_value(seq!['0'] + d) == digits_value(d),
    decreases d.len(),
{
    let z = seq!['0'] + d;
    if d.len() > 0 {
        lemma_leading_zero(d.drop_last());
        assert(z.drop_last() =~= seq!['0'] + d.drop_last());
        assert(z.last() == d.last());
    } else {
        assert(z.drop_last() =~= Seq::<char>::empty());
        assert(d =~= Seq::<char>::empty());
    }
}

/// A number of one or two digits is written with two and read back.
pub proof fn law_two_digits(n: nat, max: nat)
    requires
        n < 100,
        n <= max,
    ensures
        two_digits(n).len() == 2,
        all_digits(two_digits(n)),
        bounded_of(two_digits(n), max) == Some(n),
{
    lemma_decimal(n);
    law_bounded(n, max, Seq::empty());
    let t = two_digits(n);
    if n < 10 {
        assert(decimal(n).len() == 1);
        assert(is_digit(decimal(n)[0]));
        assert(t[0] == '0' && t[1] == decimal(n)[0]);
        assert forall|i: int| 0 <= i < t.len() implies is_digit(#[trigger] t[i]) by {}
    } else {
        assert(decimal(n / 10).len() == 1);
    }
}

/// A negative number has a minus sign before its digits, another has none.
pub proof fn law_signed(n: nat)
    ensures
        signed_decimal(n as int) == decimal(n),
        n > 0 ==> signed_decimal(-(n as int)) == seq!['-'] + decimal(n),
{
}

} // verus!
