//! Integers in decimal notation: writing them and reading them back.

use vstd::prelude::*;

use crate::text;

verus! {

/// The digit that stands for `n`.
pub open spec fn digit(n: nat) -> char {
    (48 + n) as char
}

/// `c` is an ASCII digit.
pub open spec fn is_digit(c: char) -> bool {
    '0' <= c <= '9'
}

/// The number that a digit stands for.
pub open spec fn digit_value(c: char) -> nat {
    (c as u32 - 48) as nat
}

/// `n` in decimal notation, without leading zeros.
pub open spec fn decimal_nat(n: nat) -> Seq<char>
    decreases n,
{
    if n < 10 {
        seq![digit(n)]
    } else {
        decimal_nat(n / 10).push(digit(n % 10))
    }
}

/// `n` in decimal notation, with a minus sign where it is negative.
pub open spec fn decimal(n: int) -> Seq<char> {
    if n < 0 {
        seq!['-'] + decimal_nat((-n) as nat)
    } else {
        decimal_nat(n as nat)
    }
}

/// The number that a sequence of digits stands for.
pub open spec fn digits_value(s: Seq<char>) -> nat
    decreases s.len(),
{
    if s.len() == 0 {
        0
    } else {
        digits_value(s.drop_last()) * 10 + digit_value(s.last())
    }
}

/// `s` is made of digits, at least one.
pub open spec fn all_digits(s: Seq<char>) -> bool {
    &&& s.len() > 0
    &&& forall|i: int| 0 <= i < s.len() ==> is_digit(#[trigger] s[i])
}

/// The number that a text stands for, a leading plus sign allowed.
pub open spec fn unsigned_value(s: Seq<char>) -> Option<int> {
    let digits = if s.len() > 0 && s[0] == '+' {
        s.drop_first()
    } else {
        s
    };
    if all_digits(digits) {
        Some(digits_value(digits) as int)
    } else {
        None
    }
}

/// The number that a text stands for, a leading sign allowed.
pub open spec fn signed_value(s: Seq<char>) -> Option<int> {
    if s.len() > 0 && s[0] == '-' {
        if all_digits(s.drop_first()) {
            Some(-digits_value(s.drop_first()))
        } else {
            None
        }
    } else {
        unsigned_value(s)
    }
}

/// The number that a text stands for, if it lies between `low` and `high`.
pub open spec fn bounded(v: Option<int>, low: int, high: int) -> Option<int> {
    match v {
        Some(n) if low <= n <= high => Some(n),
        _ => None,
    }
}

/// `n` in decimal notation.
pub fn decimal_u64(n: u64) -> (r: String)
    ensures
        r@ == decimal(n as int),
    decreases n,
{
    let d: u8 = 48u8 + (n % 10) as u8;
    let mut r = if n < 10 {
        String::new()
    } else {
        decimal_u64(n / 10)
    };
    r.push(d as char);
    assert(n < 10 ==> r@ =~= decimal_nat(n as nat));
    r
}

/// `n` in decimal notation.
pub fn decimal_i64(n: i64) -> (r: String)
    ensures
        r@ == decimal(n as int),
{
    if n >= 0 {
        decimal_u64(n as u64)
    } else {
        let magnitude: u64 = if n == i64::MIN {
            0x8000_0000_0000_0000
        } else {
            (-n) as u64
        };
        let mut r = String::new();
        r.push('-');
        r.append(decimal_u64(magnitude).as_str());
        assert(r@ =~= decimal(n as int));
        r
    }
}

proof fn lemma_digits_value_grows(s: Seq<char>, i: int)
    requires
        0 <= i <= s.len(),
    ensures
        digits_value(s.take(i)) <= digits_value(s),
    decreases s.len(),
{
    if i == s.len() {
        assert(s.take(i) == s);
    } else {
        lemma_digits_value_grows(s.drop_last(), i);
        assert(s.drop_last().take(i) == s.take(i));
    }
}

/// The number that the digits of `chars` from `from` on stand for.
fn read_digits(chars: &Vec<char>, from: usize) -> (r: Option<u64>)
    requires
        from <= chars.len(),
    ensures
        r is Some <==> all_digits(chars@.skip(from as int)) && digits_value(
            chars@.skip(from as int),
        ) <= u64::MAX,
        r matches Some(n) ==> n == digits_value(chars@.skip(from as int)),
{
    let ghost rest = chars@.skip(from as int);
    if from == chars.len() {
        return None;
    }
    let mut n: u64 = 0;
    let mut i: usize = from;
    assert(rest.take(0).len() == 0);
    while i < chars.len()
        invariant
            from <= i <= chars.len(),
            rest == chars@.skip(from as int),
            n == digits_value(rest.take(i - from)),
            forall|j: int| 0 <= j < i - from ==> is_digit(#[trigger] rest[j]),
        decreases chars.len() - i,
    {
        let c: char = chars[i];
        assert(c == rest[i - from]);
        if c < '0' || c > '9' {
            return None;
        }
        let d: u64 = (c as u64) - 48;
        let ghost next = rest.take(i - from + 1);
        assert(next.drop_last() == rest.take(i - from));
        assert(next.last() == c);
        assert(digits_value(next) == n * 10 + d);
        if n > (u64::MAX - d) / 10 {
            proof {
                lemma_digits_value_grows(rest, i - from + 1);
            }
            return None;
        }
        n = n * 10 + d;
        i += 1;
    }
    assert(rest.take(rest.len() as int) == rest);
    Some(n)
}

/// Reads an unsigned number of up to 64 bits.
pub fn parse_u64(s: &str) -> (r: Option<u64>)
    ensures
        bounded(unsigned_value(s@), 0, u64::MAX as int) == match r {
            Some(n) => Some(n as int),
            None => None,
        },
{
    let chars = text::chars_of(s);
    assert(s@.skip(0) == s@);
    if chars.len() > 0 && chars[0] == '+' {
        assert(s@.skip(1) == s@.drop_first());
        read_digits(&chars, 1)
    } else {
        read_digits(&chars, 0)
    }
}

/// Reads an unsigned number of the size of an address.
pub fn parse_usize(s: &str) -> (r: Option<usize>)
    ensures
        bounded(unsigned_value(s@), 0, usize::MAX as int) == match r {
            Some(n) => Some(n as int),
            None => None,
        },
{
    match parse_u64(s) {
        Some(n) => if n <= usize::MAX as u64 {
            Some(n as usize)
        } else {
            None
        },
        None => None,
    }
}

/// Reads a signed number of 64 bits.
pub fn parse_i64(s: &str) -> (r: Option<i64>)
    ensures
        bounded(signed_value(s@), i64::MIN as int, i64::MAX as int) == match r {
            Some(n) => Some(n as int),
            None => None,
        },
{
    let chars = text::chars_of(s);
    if chars.len() > 0 && chars[0] == '-' {
        assert(s@.skip(1) == s@.drop_first());
        match read_digits(&chars, 1) {
            Some(m) => if m < 0x8000_0000_0000_0000 {
                Some(-(m as i64))
            } else if m == 0x8000_0000_0000_0000 {
                Some(i64::MIN)
            } else {
                None
            },
            None => None,
        }
    } else {
        match parse_u64(s) {
            Some(m) => if m <= 0x7fff_ffff_ffff_ffff {
                Some(m as i64)
            } else {
                None
            },
            None => None,
        }
    }
}

/// A number written in decimal notation is made of digits, and stands for
/// itself.
pub proof fn law_decimal_nat_reads_back(n: nat)
    ensures
        all_digits(decimal_nat(n)),
        digits_value(decimal_nat(n)) == n,
    decreases n,
{
    if n < 10 {
        let s = seq![digit(n)];
        assert(s.drop_last().len() == 0);
        assert(digits_value(s.drop_last()) == 0);
    } else {
        law_decimal_nat_reads_back(n / 10);
        let s = decimal_nat(n);
        assert(s.drop_last() == decimal_nat(n / 10));
        assert forall|i: int| 0 <= i < s.len() implies is_digit(#[trigger] s[i]) by {
            if i < s.len() - 1 {
                assert(s[i] == decimal_nat(n / 10)[i]);
            }
        }
    }
}

/// Reading back what was written gives the number that was written.
pub proof fn law_decimal_reads_back(n: int)
    ensures
        signed_value(decimal(n)) == Some(n),
        n >= 0 ==> unsigned_value(decimal(n)) == Some(n),
{
    if n < 0 {
        law_decimal_nat_reads_back((-n) as nat);
        assert(decimal(n).drop_first() == decimal_nat((-n) as nat));
    } else {
        law_decimal_nat_reads_back(n as nat);
        assert(is_digit(decimal(n)[0]));
    }
}

/// Two numbers that are written alike are equal.
pub proof fn law_decimal_injective(m: int, n: int)
    requires
        decimal(m) == decimal(n),
    ensures
        m == n,
{
    law_decimal_reads_back(m);
    law_decimal_reads_back(n);
}

/// Each digit of a number counts ten times the one behind it, and the first is no
/// zero but for zero itself; a minus sign stands before a negative number.
pub proof fn law_digits_of_a_number(n: nat, d: nat)
    requires
        d < 10,
    ensures
        n > 0 ==> decimal((10 * n + d) as int) == decimal(n as int).push((48 + d) as char),
        decimal(d as int) == seq![(48 + d) as char],
        n > 0 ==> decimal(-(n as int)) == seq!['-'] + decimal(n as int),
{
    if n > 0 {
        assert((10 * n + d) / 10 == n && (10 * n + d) % 10 == d);
    }
}

/// A text is a number where it is made of digits, with a sign before them or
/// without; it is read digit by digit.
pub proof fn law_reading_numbers(s: Seq<char>, d: char, low: int, high: int)
    ensures
        digits_value(Seq::empty()) == 0,
        '0' <= d <= '9' ==> digits_value(s.push(d)) == 10 * digits_value(s) + (d as u32 - 48),
        all_digits(s) <==> s.len() > 0 && forall|i: int|
            0 <= i < s.len() ==> '0' <= #[trigger] s[i] <= '9',
        all_digits(s) ==> {
            &&& signed_value(s) == Some(digits_value(s) as int)
            &&& signed_value(seq!['+'] + s) == Some(digits_value(s) as int)
            &&& signed_value(seq!['-'] + s) == Some(-(digits_value(s) as int))
            &&& unsigned_value(s) == Some(digits_value(s) as int)
            &&& unsigned_value(seq!['+'] + s) == Some(digits_value(s) as int)
        },
        signed_value(s) is Some ==> all_digits(s) || s.len() > 0 && (s[0] == '+' || s[0] == '-')
            && all_digits(s.skip(1)),
        unsigned_value(s) is Some ==> all_digits(s) || s.len() > 0 && s[0] == '+' && all_digits(
            s.skip(1),
        ),
        bounded(signed_value(s), low, high) == if signed_value(s) is Some && low <= signed_value(
            s,
        )->0 <= high {
            signed_value(s)
        } else {
            None
        },
{
    assert(s.push(d).drop_last() =~= s);
    assert((seq!['+'] + s).drop_first() =~= s);
    assert((seq!['-'] + s).drop_first() =~= s);
    if s.len() > 0 {
        assert(s.drop_first() =~= s.skip(1));
    }
    if all_digits(s) {
        assert(is_digit(s[0]));
        assert forall|i: int| 0 <= i < s.len() implies '0' <= #[trigger] s[i] <= '9' by {
            assert(is_digit(s[i]));
        }
    }
}

} // verus!
