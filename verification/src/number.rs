//! Decimal numbers as a script writes them.

use crate::text::{is_word, lemma_run_len, lemma_run_len_is, push_char, run_len};
use vstd::prelude::*;

verus! {

/// Why a field is not a number of the type asked for.
#[derive(Debug, Clone, Copy, PartialEq, Eq, Structural)]
pub enum NumberError {
    /// The field is empty.
    Empty,
    /// A character that is no digit, or a sign with nothing behind it.
    InvalidDigit,
    /// The number is above the largest value of the type.
    PosOverflow,
    /// The number is below the smallest value of the type.
    NegOverflow,
}

/// Whether `c` is one of `0` to `9`.
pub open spec fn is_digit(c: char) -> bool {
    '0' <= c && c <= '9'
}

/// The test for being a digit.
pub open spec fn digit() -> spec_fn(char) -> bool {
    |c: char| is_digit(c)
}

/// The number that the digit `c` stands for.
pub open spec fn digit_value(c: char) -> nat {
    (c as int - '0' as int) as nat
}

/// The number that the digits `s` write in base ten; 0 for no digits.
pub open spec fn decimal_value(s: Seq<char>) -> nat
    decreases s.len(),
{
    if s.len() == 0 {
        0
    } else {
        10 * decimal_value(s.drop_last()) + digit_value(s.last())
    }
}

/// What a field of digits alone holds, as a number up to `max`.
///
/// The field is read from the left: a number that has grown above `max`
/// before the first character that is no digit is reported as too large.
pub open spec fn digits_result(s: Seq<char>, max: u64) -> Result<u64, NumberError> {
    let p = run_len(s, digit()) as int;
    if s.len() == 0 {
        Err(NumberError::Empty)
    } else if decimal_value(s.take(p)) > max {
        Err(NumberError::PosOverflow)
    } else if p < s.len() {
        Err(NumberError::InvalidDigit)
    } else {
        Ok(decimal_value(s) as u64)
    }
}

/// What a field holds as a number up to `max`: digits, with `+` allowed in
/// front of them.
pub open spec fn unsigned_result(s: Seq<char>, max: u64) -> Result<u64, NumberError> {
    if s.len() > 0 && s[0] == '+' {
        if s.len() == 1 {
            Err(NumberError::InvalidDigit)
        } else {
            digits_result(s.skip(1), max)
        }
    } else {
        digits_result(s, max)
    }
}

/// What a field holds as a 32-bit signed number: digits, with `+` or `-`
/// allowed in front of them.
pub open spec fn signed_result(s: Seq<char>) -> Result<i32, NumberError> {
    if s.len() > 0 && s[0] == '-' {
        if s.len() == 1 {
            Err(NumberError::InvalidDigit)
        } else {
            match digits_result(s.skip(1), 0x8000_0000) {
                Ok(v) => Ok((-(v as int)) as i32),
                Err(NumberError::PosOverflow) => Err(NumberError::NegOverflow),
                Err(e) => Err(e),
            }
        }
    } else {
        match unsigned_result(s, 0x7fff_ffff) {
            Ok(v) => Ok(v as i32),
            Err(e) => Err(e),
        }
    }
}

/// A longer prefix of a field of digits writes no smaller number.
pub proof fn lemma_prefix_value_grows(s: Seq<char>, i: int, j: int)
    requires
        0 <= i <= j <= s.len(),
    ensures
        decimal_value(s.take(i)) <= decimal_value(s.take(j)),
    decreases j - i,
{
    if i < j {
        lemma_prefix_value_grows(s, i, j - 1);
        assert(s.take(j).drop_last() =~= s.take(j - 1));
    }
}

/// Reads a field of digits alone.
pub fn parse_digits(s: &[char], max: u64) -> (r: Result<u64, NumberError>)
    ensures
        r == digits_result(s@, max),
        r matches Ok(v) ==> v <= max,
{
    if s.len() == 0 {
        return Err(NumberError::Empty);
    }
    let mut acc: u64 = 0;
    let mut i: usize = 0;
    while i < s.len()
        invariant
            i <= s.len(),
            forall|k: int| 0 <= k < i ==> is_digit(#[trigger] s@[k]),
            acc == decimal_value(s@.take(i as int)),
            acc <= max,
        decreases s.len() - i,
    {
        let c = s[i];
        if !('0' <= c && c <= '9') {
            proof {
                lemma_run_len_is(s@, digit(), i as int);
            }
            return Err(NumberError::InvalidDigit);
        }
        let d: u64 = (c as u32 - '0' as u32) as u64;
        proof {
            assert(s@.take(i + 1).drop_last() =~= s@.take(i as int));
            assert(decimal_value(s@.take(i + 1)) == 10 * acc + d);
        }
        if acc > max / 10 || d > max - acc * 10 {
            proof {
                lemma_run_len(s@, digit());
                let p = run_len(s@, digit()) as int;
                if p <= i {
                    assert(is_digit(s@[p]));
                }
                lemma_prefix_value_grows(s@, i + 1, p);
            }
            return Err(NumberError::PosOverflow);
        }
        acc = acc * 10 + d;
        i += 1;
    }
    proof {
        lemma_run_len_is(s@, digit(), i as int);
        assert(s@.take(i as int) =~= s@);
    }
    Ok(acc)
}

/// Reads a field as a number up to `max`.
pub fn parse_unsigned(s: &[char], max: u64) -> (r: Result<u64, NumberError>)
    ensures
        r == unsigned_result(s@, max),
        r matches Ok(v) ==> v <= max,
{
    if s.len() > 0 && s[0] == '+' {
        if s.len() == 1 {
            Err(NumberError::InvalidDigit)
        } else {
            parse_digits(vstd::slice::slice_subrange(s, 1, s.len()), max)
        }
    } else {
        parse_digits(s, max)
    }
}

/// Reads a field as a 32-bit signed number.
pub fn parse_signed(s: &[char]) -> (r: Result<i32, NumberError>)
    ensures
        r == signed_result(s@),
{
    if s.len() > 0 && s[0] == '-' {
        if s.len() == 1 {
            Err(NumberError::InvalidDigit)
        } else {
            match parse_digits(vstd::slice::slice_subrange(s, 1, s.len()), 0x8000_0000) {
                Ok(v) => {
                    if v == 0x8000_0000 {
                        Ok(i32::MIN)
                    } else {
                        Ok(-(v as i32))
                    }
                },
                Err(NumberError::PosOverflow) => Err(NumberError::NegOverflow),
                Err(e) => Err(e),
            }
        }
    } else {
        match parse_unsigned(s, 0x7fff_ffff) {
            Ok(v) => Ok(v as i32),
            Err(e) => Err(e),
        }
    }
}

/// The digit that stands for `d`, which is below ten.
pub open spec fn digit_char(d: nat) -> char {
    ('0' as int + d) as char
}

/// The digits that write `n` in base ten, without leading zeros.
pub open spec fn decimal_digits(n: nat) -> Seq<char>
    decreases n,
{
    if n < 10 {
        seq![digit_char(n)]
    } else {
        decimal_digits(n / 10).push(digit_char(n % 10))
    }
}

/// The characters that write `x` in base ten: `-` in front of a negative
/// number, and no sign otherwise.
pub open spec fn signed_digits(x: int) -> Seq<char> {
    if x < 0 {
        seq!['-'] + decimal_digits((-x) as nat)
    } else {
        decimal_digits(x as nat)
    }
}

/// The digits of a number are digits, at least one, and write the number.
pub proof fn lemma_decimal_digits(n: nat)
    ensures
        decimal_digits(n).len() > 0,
        forall|i: int| 0 <= i < decimal_digits(n).len() ==> is_digit(#[trigger] decimal_digits(n)[i]),
        decimal_value(decimal_digits(n)) == n,
    decreases n,
{
    let s = decimal_digits(n);
    assert(digit_value(digit_char(n % 10)) == n % 10);
    if n < 10 {
        assert(s.drop_last() =~= Seq::<char>::empty());
        assert(decimal_value(s.drop_last()) == 0);
    } else {
        lemma_decimal_digits(n / 10);
        assert(s.drop_last() =~= decimal_digits(n / 10));
        assert(s.last() == digit_char(n % 10));
    }
}

/// Reading what was written gives the number back.
pub proof fn lemma_digits_round_trip(n: u64, max: u64)
    requires
        n <= max,
    ensures
        digits_result(decimal_digits(n as nat), max) == Ok::<u64, NumberError>(n),
        unsigned_result(decimal_digits(n as nat), max) == Ok::<u64, NumberError>(n),
{
    let s = decimal_digits(n as nat);
    lemma_decimal_digits(n as nat);
    lemma_run_len_is(s, digit(), s.len() as int);
    assert(s.take(s.len() as int) =~= s);
    assert(is_digit(s[0]));
}

/// Reading what was written gives the number back.
pub proof fn lemma_signed_round_trip(x: i32)
    ensures
        signed_result(signed_digits(x as int)) == Ok::<i32, NumberError>(x),
{
    if x < 0 {
        let m = (-(x as int)) as u64;
        let s = signed_digits(x as int);
        assert(s.skip(1) =~= decimal_digits(m as nat));
        lemma_decimal_digits(m as nat);
        lemma_digits_round_trip(m, 0x8000_0000);
    } else {
        let s = decimal_digits(x as nat);
        lemma_decimal_digits(x as nat);
        assert(is_digit(s[0]));
        lemma_digits_round_trip(x as u64, 0x7fff_ffff);
    }
}

/// A number is written as one word.
pub proof fn lemma_digits_are_word(x: int)
    ensures
        x >= 0 ==> is_word(decimal_digits(x as nat)),
        is_word(signed_digits(x)),
{
    if x >= 0 {
        lemma_decimal_digits(x as nat);
    } else {
        lemma_decimal_digits((-x) as nat);
        let d = decimal_digits((-x) as nat);
        let s = signed_digits(x);
        assert forall|i: int| 0 <= i < s.len() implies !crate::text::is_space(#[trigger] s[i]) by {
            if i > 0 {
                assert(s[i] == d[i - 1]);
                assert(is_digit(d[i - 1]));
            }
        }
    }
}

/// Appends the digits of `n` to `out`.
pub fn push_decimal(out: &mut String, n: u64)
    ensures
        final(out)@ == old(out)@ + decimal_digits(n as nat),
    decreases n,
{
    if n >= 10 {
        push_decimal(out, n / 10);
    }
    let d = (n % 10) as u8;
    push_char(out, (d + 48) as char);
    assert(out@ =~= old(out)@ + decimal_digits(n as nat));
}

/// Appends the characters that write `x` to `out`.
pub fn push_signed(out: &mut String, x: i32)
    ensures
        final(out)@ == old(out)@ + signed_digits(x as int),
{
    if x < 0 {
        push_char(out, '-');
        push_decimal(out, (-(x as i64)) as u64);
        assert(out@ =~= old(out)@ + signed_digits(x as int));
    } else {
        push_decimal(out, x as u64);
    }
}

} // verus!
