//! Numbers in decimal notation.

use vstd::prelude::*;
use crate::text::{chars_of, digit, is_digit};

verus! {

/// The digit that stands for `n`.
pub open spec fn digit_char(n: nat) -> char
    recommends
        n < 10,
{
    ('0' as u32 + n) as char
}

/// The number that a digit stands for.
pub open spec fn digit_value(c: char) -> nat {
    (c as u32 - '0' as u32) as nat
}

/// `n` in decimal notation, without leading zeros.
pub open spec fn decimal(n: nat) -> Seq<char>
    decreases n,
{
    if n < 10 {
        seq![digit_char(n)]
    } else {
        decimal(n / 10).push(digit_char(n % 10))
    }
}

/// A signed number in decimal notation.
pub open spec fn signed_decimal(n: int) -> Seq<char> {
    if n < 0 {
        seq!['-'] + decimal((-n) as nat)
    } else {
        decimal(n as nat)
    }
}

pub open spec fn all_digits(s: Seq<char>) -> bool {
    forall|i: int| 0 <= i < s.len() ==> is_digit(#[trigger] s[i])
}

/// The number that a sequence of digits stands for.
pub open spec fn digits_value(s: Seq<char>) -> nat
    decreases s.len(),
{
    if s.len() == 0 {
        0
    } else {
        digits_value(s.drop_last()) * 10 + digit_value(s.last())
    }
}

/// The number that a text stands for: digits, after at most one plus sign.
pub open spec fn parsed_nat(s: Seq<char>) -> Option<nat> {
    let digits = if s.len() > 0 && s[0] == '+' {
        s.skip(1)
    } else {
        s
    };
    if digits.len() > 0 && all_digits(digits) {
        Some(digits_value(digits))
    } else {
        None
    }
}

/// The number that a text stands for, where it is not above `max`.
pub open spec fn parsed_up_to(s: Seq<char>, max: nat) -> Option<nat> {
    match parsed_nat(s) {
        Some(n) if n <= max => Some(n),
        _ => None,
    }
}

/// Reading a number in decimal notation gives the number back.
pub proof fn parsing_undoes_decimal(n: nat)
    ensures
        parsed_nat(decimal(n)) == Some(n),
        decimal(n).len() > 0,
        all_digits(decimal(n)),
{
    decimal_digits(n);
    assert(decimal(n)[0] != '+');
}

proof fn decimal_digits(n: nat)
    ensures
        decimal(n).len() > 0,
        all_digits(decimal(n)),
        digits_value(decimal(n)) == n,
    decreases n,
{
    if n < 10 {
        let s = seq![digit_char(n)];
        assert(decimal(n) == s);
        assert(s.drop_last() =~= Seq::empty());
        assert(digits_value(s.drop_last()) == 0);
        assert(s.last() == digit_char(n));
    } else {
        decimal_digits(n / 10);
        let s = decimal(n / 10).push(digit_char(n % 10));
        assert(s.drop_last() =~= decimal(n / 10));
        assert(s.last() == digit_char(n % 10));
        assert(is_digit(digit_char(n % 10)));
    }
}

proof fn digits_value_grows(s: Seq<char>, k: int)
    requires
        0 <= k <= s.len(),
    ensures
        digits_value(s.take(k)) <= digits_value(s),
    decreases s.len() - k,
{
    if k < s.len() {
        digits_value_grows(s, k + 1);
        assert(s.take(k + 1).drop_last() =~= s.take(k));
    } else {
        assert(s.take(k) =~= s);
    }
}

/// `n` in decimal notation.
pub fn decimal_of(n: u64) -> (text: String)
    ensures
        text@ == decimal(n as nat),
    decreases n,
{
    let mut text = if n < 10 {
        String::new()
    } else {
        decimal_of(n / 10)
    };
    let d: u8 = (n % 10) as u8;
    text.push((48 + d) as char);
    assert(Seq::<char>::empty().push(digit_char(n as nat)) =~= seq![digit_char(n as nat)]);
    text
}

/// A signed number in decimal notation.
pub fn signed_decimal_of(n: i64) -> (text: String)
    ensures
        text@ == signed_decimal(n as int),
{
    if n < 0 {
        let mut text = String::new();
        text.push('-');
        assert(text@ =~= seq!['-']);
        let magnitude: u64 = if n == i64::MIN {
            9223372036854775808
        } else {
            (-n) as u64
        };
        let digits = decimal_of(magnitude);
        text.append(digits.as_str());
        text
    } else {
        decimal_of(n as u64)
    }
}

/// The number that `text` stands for, where it is not above `max`.
pub fn parse_up_to(text: &str, max: u64) -> (r: Option<u64>)
    ensures
        match r {
            Some(n) => parsed_up_to(text@, max as nat) == Some(n as nat),
            None => parsed_up_to(text@, max as nat) is None,
        },
{
    let chars = chars_of(text);
    let n: usize = chars.len();
    let start: usize = if n > 0 && chars[0] == '+' {
        1
    } else {
        0
    };
    let ghost digits = text@.skip(start as int);
    assert(text@.skip(0) =~= text@);
    if start >= n {
        return None;
    }
    let mut i: usize = start;
    while i < n
        invariant
            start <= i <= n,
            n == chars@.len(),
            chars@ == text@,
            digits == text@.skip(start as int),
            start < n,
            start == if text@[0] == '+' { 1int } else { 0 },
            forall|j: int| 0 <= j < i - start ==> is_digit(#[trigger] digits[j]),
        decreases n - i,
    {
        if !digit(chars[i]) {
            assert(digits[i - start] == chars@[i as int]);
            assert(!all_digits(digits));
            return None;
        }
        assert(digits[i - start] == chars@[i as int]);
        i = i + 1;
    }
    assert(all_digits(digits));
    let mut value: u64 = 0;
    let mut k: usize = start;
    assert(digits.take(0) =~= Seq::empty());
    while k < n
        invariant
            start <= k <= n,
            n == chars@.len(),
            chars@ == text@,
            digits == text@.skip(start as int),
            all_digits(digits),
            value == digits_value(digits.take(k - start)),
            value <= max,
            parsed_nat(text@) == Some(digits_value(digits)),
        decreases n - k,
    {
        assert(digits[k - start] == chars@[k as int]);
        let d: u64 = (chars[k] as u32 - 48) as u64;
        proof {
            assert(is_digit(digits[k - start]));
            assert(digits.take(k + 1 - start).drop_last() =~= digits.take(k - start));
            digits_value_grows(digits, k + 1 - start);
            assert(digits_value(digits.take(k + 1 - start)) == value * 10 + d);
        }
        if value > max / 10 {
            assert(value * 10 + d > max);
            return None;
        }
        let shifted: u64 = value * 10;
        if d > max - shifted {
            return None;
        }
        value = shifted + d;
        k = k + 1;
    }
    assert(digits.take(n - start) =~= digits);
    Some(value)
}

/// A number as the store takes it: what is too large wraps round.
pub open spec fn wrapped(n: u64) -> i64 {
    if n <= i64::MAX {
        n as i64
    } else {
        (n - 0x1_0000_0000_0000_0000) as i64
    }
}

pub fn wrapped_i64(n: u64) -> (r: i64)
    ensures
        r == wrapped(n),
{
    if n <= 0x7fff_ffff_ffff_ffff {
        n as i64
    } else {
        let rest: i64 = (n - 0x8000_0000_0000_0000) as i64;
        i64::MIN + rest
    }
}

/// Only digits make a number, after a plus sign or without one.
pub proof fn numbers_are_made_of_digits(s: Seq<char>, max: nat)
    ensures
        parsed_nat(s) is Some <==> {
            ||| s.len() > 0 && all_digits(s)
            ||| s.len() > 1 && s[0] == '+' && all_digits(s.skip(1))
        },
        parsed_up_to(s, max) is Some <==> parsed_nat(s) is Some && parsed_nat(s)->0 <= max,
        parsed_up_to(s, max) is Some ==> parsed_up_to(s, max) == parsed_nat(s),
{
    if s.len() > 0 && s[0] == '+' {
        assert(!all_digits(s));
    }
}

} // verus!
