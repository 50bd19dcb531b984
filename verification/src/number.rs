//! Decimal numbers as text.
use crate::text;
use vstd::prelude::*;
use vstd::slice::slice_subrange;
use vstd::string::StringExecFns;

verus! {

broadcast use vstd::string::group_string_axioms;

/// The character of a decimal digit.
pub open spec fn digit_char(d: nat) -> char {
    (('0' as u32) + d) as char
}

/// The decimal digits of a number, without leading zeros.
pub open spec fn decimal(n: nat) -> Seq<char>
    decreases n,
{
    if n < 10 {
        seq![digit_char(n)]
    } else {
        decimal(n / 10).push(digit_char(n % 10))
    }
}

fn to_digit_char(d: u64) -> (r: char)
    requires
        d < 10,
    ensures
        r == digit_char(d as nat),
{
    (48u8 + (d as u8)) as char
}

/// Writes a number in decimal.
pub fn to_decimal(n: u64) -> (r: String)
    ensures
        r@ == decimal(n as nat),
    decreases n,
{
    if n < 10 {
        let mut s = String::new();
        s.push(to_digit_char(n));
        assert(s@ == decimal(n as nat));
        s
    } else {
        let mut s = to_decimal(n / 10);
        s.push(to_digit_char(n % 10));
        s
    }
}

/// `c` is a decimal digit.
pub open spec fn is_digit(c: char) -> bool {
    '0' <= c <= '9'
}

/// Every character is a decimal digit.
pub open spec fn all_digits(s: Seq<char>) -> bool {
    forall|i: int| 0 <= i < s.len() ==> is_digit(#[trigger] s[i])
}

/// The value of a digit.
pub open spec fn digit_value(c: char) -> nat {
    ((c as u32) - ('0' as u32)) as nat
}

/// The number that a run of digits stands for.
pub open spec fn digits_value(s: Seq<char>) -> nat
    decreases s.len(),
{
    if s.len() == 0 {
        0
    } else {
        digits_value(s.drop_last()) * 10 + digit_value(s.last())
    }
}

/// The unsigned number that a text stands for: digits, with a plus sign before
/// them or not, of a value no larger than `max`.
pub open spec fn unsigned_of(s: Seq<char>, max: nat) -> Option<nat> {
    let digits = if s.len() > 0 && s[0] == '+' {
        s.skip(1)
    } else {
        s
    };
    if digits.len() > 0 && all_digits(digits) && digits_value(digits) <= max {
        Some(digits_value(digits))
    } else {
        None
    }
}

proof fn lemma_digits_grow(s: Seq<char>, i: int)
    requires
        0 <= i <= s.len(),
    ensures
        digits_value(s.take(i)) <= digits_value(s),
    decreases s.len() - i,
{
    if i < s.len() {
        assert(s.take(i + 1).drop_last() == s.take(i));
        lemma_digits_grow(s, i + 1);
    } else {
        assert(s.take(i) == s);
    }
}

fn parse_digits(s: &[char], max: u64) -> (r: Option<u64>)
    ensures
        match r {
            Some(v) => all_digits(s@) && v == digits_value(s@) && v <= max,
            None => !all_digits(s@) || digits_value(s@) > max,
        },
{
    let mut value: u64 = 0;
    let mut i: usize = 0;
    assert(s@.take(0) == Seq::<char>::empty());
    while i < s.len()
        invariant
            i <= s@.len(),
            value <= max,
            value == digits_value(s@.take(i as int)),
            forall|j: int| 0 <= j < i ==> is_digit(#[trigger] s@[j]),
        decreases s@.len() - i,
    {
        let c: char = s[i];
        assert(s@.take(i + 1).drop_last() == s@.take(i as int));
        if c < '0' || c > '9' {
            assert(!is_digit(s@[i as int]));
            return None;
        }
        let d: u64 = (c as u64) - 48;
        assert(digits_value(s@.take(i + 1)) == value * 10 + d);
        proof {
            lemma_digits_grow(s@, i + 1);
        }
        if value > max / 10 {
            assert(value * 10 > max);
            return None;
        }
        if d > max - value * 10 {
            return None;
        }
        value = value * 10 + d;
        i = i + 1;
    }
    assert(s@.take(i as int) == s@);
    Some(value)
}

/// Parses an unsigned number no larger than `max`.
pub fn parse_unsigned(s: &[char], max: u64) -> (r: Option<u64>)
    ensures
        match r {
            Some(v) => unsigned_of(s@, max as nat) == Some(v as nat),
            None => unsigned_of(s@, max as nat) is None,
        },
{
    let n: usize = s.len();
    let digits: &[char] = if n > 0 && s[0] == '+' {
        slice_subrange(s, 1, n)
    } else {
        s
    };
    assert(s@.len() > 0 && s@[0] == '+' ==> digits@ == s@.skip(1));
    if digits.len() == 0 {
        return None;
    }
    parse_digits(digits, max)
}

/// The signed 64-bit number that a text stands for: digits, with a sign before
/// them or not, in range.
pub open spec fn signed_of(s: Seq<char>) -> Option<int> {
    if s.len() > 0 && s[0] == '-' {
        let digits = s.skip(1);
        if digits.len() > 0 && all_digits(digits) && digits_value(digits) <= 0x8000_0000_0000_0000 {
            Some(-(digits_value(digits) as int))
        } else {
            None
        }
    } else {
        match unsigned_of(s, i64::MAX as nat) {
            Some(n) => Some(n as int),
            None => None,
        }
    }
}

/// Parses a signed 64-bit number.
pub fn parse_signed(s: &[char]) -> (r: Option<i64>)
    ensures
        match r {
            Some(v) => signed_of(s@) == Some(v as int),
            None => signed_of(s@) is None,
        },
{
    let n: usize = s.len();
    if n > 0 && s[0] == '-' {
        let digits: &[char] = slice_subrange(s, 1, n);
        assert(digits@ == s@.skip(1));
        if digits.len() == 0 {
            return None;
        }
        match parse_digits(digits, 0x8000_0000_0000_0000) {
            Some(v) => {
                if v == 0x8000_0000_0000_0000 {
                    Some(i64::MIN)
                } else {
                    Some(-(v as i64))
                }
            },
            None => None,
        }
    } else {
        match parse_unsigned(s, i64::MAX as u64) {
            Some(v) => Some(v as i64),
            None => None,
        }
    }
}

/// A signed number as text.
pub open spec fn signed_decimal(n: int) -> Seq<char> {
    if n < 0 {
        "-"@ + decimal((-n) as nat)
    } else {
        decimal(n as nat)
    }
}

/// Writes a signed number.
pub fn to_signed_decimal(n: i64) -> (r: String)
    ensures
        r@ == signed_decimal(n as int),
{
    if n < 0 {
        let digits = to_decimal((-(n as i128)) as u64);
        String::from_str("-").concat(digits.as_str())
    } else {
        to_decimal(n as u64)
    }
}

/// The exit code of a process as a diagnostic shows it.
pub open spec fn exit_code_text(code: Option<i32>) -> Seq<char> {
    match code {
        Some(c) => "Some("@ + signed_decimal(c as int) + ")"@,
        None => "None"@,
    }
}

/// Writes the exit code of a process, which a killed process does not have.
pub fn show_exit_code(code: Option<i32>) -> (r: String)
    ensures
        r@ == exit_code_text(code),
{
    match code {
        Some(c) => {
            let digits = to_signed_decimal(c as i64);
            let mut r = String::from_str("Some(").concat(digits.as_str());
            r.append(")");
            r
        },
        None => String::from_str("None"),
    }
}

/// The digits of a number are digits, and there is at least one.
pub proof fn lemma_decimal_digits(n: nat)
    ensures
        decimal(n).len() > 0,
        all_digits(decimal(n)),
        digits_value(decimal(n)) == n,
    decreases n,
{
    if n < 10 {
        let s = seq![digit_char(n)];
        assert(s.drop_last() == Seq::<char>::empty());
        assert(digits_value(s) == digits_value(s.drop_last()) * 10 + digit_value(s.last()));
    } else {
        lemma_decimal_digits(n / 10);
        let front = decimal(n / 10);
        let d = digit_char(n % 10);
        assert(front.push(d).drop_last() == front);
        assert forall|i: int| 0 <= i < decimal(n).len() implies is_digit(
            #[trigger] decimal(n)[i],
        ) by {
            if i < front.len() {
                assert(decimal(n)[i] == front[i]);
            }
        }
    }
}

/// A number is read back from its decimal text.
pub proof fn law_decimal_round_trips(n: nat, max: nat)
    requires
        n <= max,
    ensures
        unsigned_of(decimal(n), max) == Some(n),
{
    lemma_decimal_digits(n);
    assert(is_digit(decimal(n)[0]));
}

/// Two numbers with the same decimal text are equal.
pub proof fn law_decimal_is_injective(a: nat, b: nat)
    requires
        decimal(a) == decimal(b),
    ensures
        a == b,
{
    lemma_decimal_digits(a);
    lemma_decimal_digits(b);
}

/// The decimal text of a number is its digits, the last one last.
pub proof fn law_decimal_is_written_digit_by_digit(q: nat, d: nat)
    requires
        d < 10,
    ensures
        decimal(d) == seq![(48 + d) as char],
        q > 0 ==> decimal(10 * q + d) == decimal(q).push((48 + d) as char),
{
    if q > 0 {
        assert((10 * q + d) / 10 == q && (10 * q + d) % 10 == d);
    }
}

/// What is not made of digits alone, but for a plus before them, is no number; nor is one
/// that is too large.
pub proof fn law_only_digits_are_a_number(s: Seq<char>, max: nat)
    ensures
        s.len() == 0 ==> unsigned_of(s, max) is None,
        s.len() > 0 && s[0] != '+' && !all_digits(s) ==> unsigned_of(s, max) is None,
        s.len() > 0 && all_digits(s) && digits_value(s) > max ==> unsigned_of(s, max) is None,
        s.len() > 0 && all_digits(s) && digits_value(s) <= max ==> unsigned_of(s, max) == Some(
            digits_value(s),
        ),
{
    if s.len() > 0 && all_digits(s) {
        assert(is_digit(s[0]));
    }
}

/// A signed number is read back from its text, and an exit code holds its number.
pub proof fn law_signed_numbers_round_trip(n: i64, code: i32)
    ensures
        signed_of(signed_decimal(n as int)) == Some(n as int),
        exit_code_text(Some(code)) == "Some("@ + signed_decimal(code as int) + ")"@,
        exit_code_text(None) == "None"@,
{
    reveal_strlit("-");
    if n < 0 {
        let d = decimal((-(n as int)) as nat);
        lemma_decimal_digits((-(n as int)) as nat);
        let s = "-"@ + d;
        assert(s[0] == '-');
        assert(s.skip(1) =~= d);
    } else {
        lemma_decimal_digits(n as nat);
        assert(is_digit(decimal(n as nat)[0]));
        law_decimal_round_trips(n as nat, i64::MAX as nat);
    }
}

/// A count in a 64-bit counter that starts anew when it is full.
pub open spec fn wrapped(n: int) -> int {
    n % 0x1_0000_0000_0000_0000
}

} // verus!
