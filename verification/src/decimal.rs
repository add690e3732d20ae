//! Decimal notation for unsigned and signed 64-bit integers: writing a number
//! out, and reading an unsigned number back.

use vstd::prelude::*;
use crate::text::{chars_of, push_char};

verus! {

/// The character that stands for the digit `d`.
pub open spec fn digit_char(d: nat) -> char {
    if d == 0 {
        '0'
    } else if d == 1 {
        '1'
    } else if d == 2 {
        '2'
    } else if d == 3 {
        '3'
    } else if d == 4 {
        '4'
    } else if d == 5 {
        '5'
    } else if d == 6 {
        '6'
    } else if d == 7 {
        '7'
    } else if d == 8 {
        '8'
    } else {
        '9'
    }
}

/// The digit that `c` stands for, if it is one of `0` to `9`.
pub open spec fn digit_value(c: char) -> Option<nat> {
    if c == '0' {
        Some(0)
    } else if c == '1' {
        Some(1)
    } else if c == '2' {
        Some(2)
    } else if c == '3' {
        Some(3)
    } else if c == '4' {
        Some(4)
    } else if c == '5' {
        Some(5)
    } else if c == '6' {
        Some(6)
    } else if c == '7' {
        Some(7)
    } else if c == '8' {
        Some(8)
    } else if c == '9' {
        Some(9)
    } else {
        None
    }
}

/// `n` in decimal, without sign and without leading zeros.
pub open spec fn decimal(n: nat) -> Seq<char>
    decreases n,
{
    if n < 10 {
        seq![digit_char(n)]
    } else {
        decimal(n / 10).push(digit_char(n % 10))
    }
}

/// `n` in decimal, with a leading `-` when it is negative.
pub open spec fn signed_decimal(n: int) -> Seq<char> {
    if n < 0 {
        seq!['-'] + decimal((-n) as nat)
    } else {
        decimal(n as nat)
    }
}

/// Whether every character of `s` is a decimal digit.
pub open spec fn all_digits(s: Seq<char>) -> bool {
    forall|i: int| 0 <= i < s.len() ==> (#[trigger] digit_value(s[i])) is Some
}

/// The number that the digit string `s` denotes; leading zeros count for
/// nothing and the empty string denotes zero.
pub open spec fn digits_number(s: Seq<char>) -> nat
    decreases s.len(),
{
    if s.len() == 0 {
        0
    } else {
        digits_number(s.drop_last()) * 10 + match digit_value(s.last()) {
            Some(d) => d,
            None => 0,
        }
    }
}

/// What stays of `s` once one leading `+` is taken off.
pub open spec fn unsigned_digits(s: Seq<char>) -> Seq<char> {
    if s.len() > 0 && s[0] == '+' {
        s.subrange(1, s.len() as int)
    } else {
        s
    }
}

/// The unsigned 64-bit number written as `s`: an optional `+`, then at least
/// one digit and nothing else, denoting a number that fits. `None` for any
/// other text.
pub open spec fn parse_unsigned(s: Seq<char>) -> Option<u64> {
    let digits = unsigned_digits(s);
    if digits.len() > 0 && all_digits(digits) && digits_number(digits) <= u64::MAX {
        Some(digits_number(digits) as u64)
    } else {
        None
    }
}

fn digit_to_char(d: u64) -> (c: char)
    requires
        d < 10,
    ensures
        c == digit_char(d as nat),
{
    if d == 0 {
        '0'
    } else if d == 1 {
        '1'
    } else if d == 2 {
        '2'
    } else if d == 3 {
        '3'
    } else if d == 4 {
        '4'
    } else if d == 5 {
        '5'
    } else if d == 6 {
        '6'
    } else if d == 7 {
        '7'
    } else if d == 8 {
        '8'
    } else {
        '9'
    }
}

fn char_to_digit(c: char) -> (d: Option<u64>)
    ensures
        match d {
            Some(v) => digit_value(c) == Some(v as nat),
            None => digit_value(c) is None,
        },
{
    if c == '0' {
        Some(0)
    } else if c == '1' {
        Some(1)
    } else if c == '2' {
        Some(2)
    } else if c == '3' {
        Some(3)
    } else if c == '4' {
        Some(4)
    } else if c == '5' {
        Some(5)
    } else if c == '6' {
        Some(6)
    } else if c == '7' {
        Some(7)
    } else if c == '8' {
        Some(8)
    } else if c == '9' {
        Some(9)
    } else {
        None
    }
}

/// Appends `n` in decimal to `out`.
pub fn push_decimal(out: &mut String, n: u64)
    ensures
        final(out)@ == old(out)@ + decimal(n as nat),
    decreases n,
{
    if n >= 10 {
        push_decimal(out, n / 10);
    }
    push_char(out, digit_to_char(n % 10));
}

/// Appends `n` in decimal to `out`, with a `-` in front when it is negative.
pub fn push_signed_decimal(out: &mut String, n: i64)
    ensures
        final(out)@ == old(out)@ + signed_decimal(n as int),
{
    if n < 0 {
        push_char(out, '-');
        let magnitude: u64 = if n == i64::MIN {
            0x8000_0000_0000_0000u64
        } else {
            (-n) as u64
        };
        push_decimal(out, magnitude);
    } else {
        push_decimal(out, n as u64);
    }
}

/// `n` in decimal, as a vector of characters.
pub fn decimal_chars(n: u64) -> (v: Vec<char>)
    ensures
        v@ == decimal(n as nat),
    decreases n,
{
    let mut v: Vec<char> = if n >= 10 {
        decimal_chars(n / 10)
    } else {
        Vec::new()
    };
    v.push(digit_to_char(n % 10));
    v
}

/// Whether `s` is the decimal notation of some number: digits only, at least
/// one, and no leading zero but for zero itself.
pub open spec fn is_decimal(s: Seq<char>) -> bool {
    &&& s.len() > 0
    &&& all_digits(s)
    &&& (s.len() == 1 || s[0] != '0')
}

/// Decimal notation denotes the number it was written for.
pub proof fn lemma_decimal_denotes(n: nat)
    ensures
        is_decimal(decimal(n)),
        digits_number(decimal(n)) == n,
        n > 0 ==> decimal(n)[0] != '0',
    decreases n,
{
    if n < 10 {
        let s = decimal(n);
        assert(s.drop_last() == Seq::<char>::empty());
        assert(digits_number(s.drop_last()) == 0);
        assert(digit_value(s[0]) == Some(n));
    } else {
        lemma_decimal_denotes(n / 10);
        let head = decimal(n / 10);
        let s = decimal(n);
        assert(s.drop_last() == head);
        assert(digit_value(s.last()) == Some(n % 10));
        assert forall|i: int| 0 <= i < s.len() implies (#[trigger] digit_value(s[i])) is Some by {
            if i < head.len() {
                assert(s[i] == head[i]);
            }
        }
        assert(s[0] == head[0]);
    }
}

/// A digit string that starts with anything but `0` denotes a positive number.
proof fn lemma_leading_digit_counts(s: Seq<char>)
    requires
        s.len() > 0,
        all_digits(s),
        s[0] != '0',
    ensures
        digits_number(s) > 0,
    decreases s.len(),
{
    if s.len() == 1 {
        assert(s.drop_last() == Seq::<char>::empty());
        assert(digit_value(s[0]) is Some);
    } else {
        let head = s.drop_last();
        assert forall|i: int| 0 <= i < head.len() implies (#[trigger] digit_value(head[i]))
            is Some by {
            assert(head[i] == s[i]);
        }
        lemma_leading_digit_counts(head);
    }
}

/// The decimal notation of a number is the only one: a string in decimal
/// notation is what its number is written as.
pub proof fn lemma_decimal_unique(s: Seq<char>)
    requires
        is_decimal(s),
    ensures
        decimal(digits_number(s)) == s,
    decreases s.len(),
{
    let last = digit_value(s.last());
    assert(last is Some);
    let d = last->0;
    assert(digit_char(d) == s.last());
    if s.len() == 1 {
        assert(s.drop_last() == Seq::<char>::empty());
        assert(digits_number(s.drop_last()) == 0);
        assert(decimal(d) == s);
    } else {
        let head = s.drop_last();
        assert forall|i: int| 0 <= i < head.len() implies (#[trigger] digit_value(head[i]))
            is Some by {
            assert(head[i] == s[i]);
        }
        lemma_leading_digit_counts(head);
        lemma_decimal_unique(head);
        let n = digits_number(s);
        assert(n == digits_number(head) * 10 + d);
        assert(n / 10 == digits_number(head));
        assert(n % 10 == d);
        assert(decimal(n) == decimal(n / 10).push(digit_char(n % 10)));
        assert(head.push(s.last()) == s);
    }
}

/// Reading back what was written gives the number that was written.
pub proof fn lemma_parse_decimal(n: u64)
    ensures
        parse_unsigned(decimal(n as nat)) == Some(n),
{
    lemma_decimal_denotes(n as nat);
    let s = decimal(n as nat);
    assert(digit_value(s[0]) is Some);
}

/// Twice the first `n` digits of `s`, plus `carry`, in digits again.
fn doubled_prefix(s: &Vec<char>, n: usize, carry: u64) -> (r: Vec<char>)
    requires
        n <= s.len(),
        all_digits(s@),
        carry <= 1,
    ensures
        all_digits(r@),
        digits_number(r@) == 2 * digits_number(s@.take(n as int)) + carry,
        n == 0 ==> r@ == if carry == 1 {
            seq!['1']
        } else {
            Seq::<char>::empty()
        },
        n > 0 && s@[0] != '0' ==> r@.len() > 0 && r@[0] != '0',
    decreases n,
{
    if n == 0 {
        let mut r: Vec<char> = Vec::new();
        if carry == 1 {
            r.push('1');
            assert(r@.drop_last() == Seq::<char>::empty());
        }
        assert(s@.take(0) == Seq::<char>::empty());
        r
    } else {
        let ghost prefix = s@.take(n as int);
        assert(prefix.drop_last() == s@.take(n - 1));
        assert(prefix.last() == s@[n - 1]);
        let digit: u64 = match char_to_digit(s[n - 1]) {
            Some(d) => d,
            None => 0,
        };
        let total: u64 = 2 * digit + carry;
        let mut r = doubled_prefix(s, n - 1, total / 10);
        let ghost head = r@;
        r.push(digit_to_char(total % 10));
        assert(r@.drop_last() == head);
        assert(digit_value(r@.last()) == Some((total % 10) as nat));
        assert forall|i: int| 0 <= i < r@.len() implies (#[trigger] digit_value(r@[i]))
            is Some by {
            if i < head.len() {
                assert(r@[i] == head[i]);
            }
        }
        assert(n > 0 && s@[0] != '0' ==> r@[0] != '0') by {
            if s@[0] != '0' {
                if n == 1 {
                    assert(digit_value(s@[0]) is Some);
                } else {
                    assert(r@[0] == head[0]);
                }
            }
        }
        r
    }
}

/// Twice the number that the digit string `s` denotes, in digits again. A
/// string without a leading zero gives one without.
pub fn double_decimal(s: &Vec<char>) -> (r: Vec<char>)
    requires
        all_digits(s@),
    ensures
        all_digits(r@),
        digits_number(r@) == 2 * digits_number(s@),
        s@.len() > 0 && s@[0] != '0' ==> r@.len() > 0 && r@[0] != '0',
{
    assert(s@.take(s@.len() as int) == s@);
    doubled_prefix(s, s.len(), 0)
}

/// A digit string denotes at least as much as any of its prefixes.
proof fn lemma_digits_number_grows(s: Seq<char>, i: int)
    requires
        0 <= i <= s.len(),
    ensures
        digits_number(s.take(i)) <= digits_number(s),
    decreases s.len() - i,
{
    if i == s.len() {
        assert(s.take(i) == s);
    } else {
        lemma_digits_number_grows(s, i + 1);
        assert(s.take(i + 1).drop_last() == s.take(i));
    }
}

/// Reads an unsigned 64-bit number: an optional `+`, then decimal digits.
pub fn parse_u64(text: &str) -> (r: Option<u64>)
    ensures
        r == parse_unsigned(text@),
{
    let chars = chars_of(text);
    let start: usize = if chars.len() > 0 && chars[0] == '+' {
        1
    } else {
        0
    };
    let ghost digits = unsigned_digits(text@);
    if start == chars.len() {
        return None;
    }
    let mut value: u64 = 0;
    let mut i: usize = start;
    while i < chars.len()
        invariant
            start <= i <= chars.len(),
            chars@ == text@,
            digits == unsigned_digits(text@),
            digits == chars@.subrange(start as int, chars.len() as int),
            all_digits(digits.take(i - start)),
            value == digits_number(digits.take(i - start)),
        decreases chars.len() - i,
    {
        let ghost before = digits.take(i - start);
        let ghost after = digits.take(i + 1 - start);
        proof {
            assert(after.drop_last() == before);
            assert(after.last() == chars@[i as int]);
            lemma_digits_number_grows(digits, i + 1 - start);
        }
        let digit = match char_to_digit(chars[i]) {
            Some(d) => d,
            None => {
                assert(digit_value(digits[i - start]) is None);
                return None;
            },
        };
        let scaled = match value.checked_mul(10) {
            Some(v) => v,
            None => {
                return None;
            },
        };
        value = match scaled.checked_add(digit) {
            Some(v) => v,
            None => {
                return None;
            },
        };
        i = i + 1;
        assert forall|j: int| 0 <= j < after.len() implies (#[trigger] digit_value(after[j]))
            is Some by {
            if j < before.len() {
                assert(after[j] == before[j]);
            }
        }
    }
    assert(digits.take(i - start) == digits);
    Some(value)
}

} // verus!
