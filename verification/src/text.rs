//! Reading a floor number from a line of input text.
//!
//! A floor number is written as an optional sign and one or more decimal
//! digits, with any amount of white space before and after. Every such
//! number that a [`Floor`] can hold is read; whether the floor is one that
//! the car serves is not decided here.

use vstd::prelude::*;
use crate::error::ElevatorError;
use crate::floor::Floor;

verus! {

/// Whether `c` is white space: a character with the Unicode property
/// `White_Space`.
pub open spec fn spec_is_blank(c: char) -> bool {
    let u = c as u32;
    ||| 0x09 <= u <= 0x0D
    ||| u == 0x20
    ||| u == 0x85
    ||| u == 0xA0
    ||| u == 0x1680
    ||| 0x2000 <= u <= 0x200A
    ||| u == 0x2028
    ||| u == 0x2029
    ||| u == 0x202F
    ||| u == 0x205F
    ||| u == 0x3000
}

/// Whether `c` is one of the decimal digits `0` to `9`.
pub open spec fn spec_is_digit(c: char) -> bool {
    0x30 <= c as u32 <= 0x39
}

/// The text without the white space at its start.
pub open spec fn trim_start(s: Seq<char>) -> Seq<char>
    decreases s.len(),
{
    if s.len() > 0 && spec_is_blank(s.first()) {
        trim_start(s.drop_first())
    } else {
        s
    }
}

/// The text without the white space at its end.
pub open spec fn trim_end(s: Seq<char>) -> Seq<char>
    decreases s.len(),
{
    if s.len() > 0 && spec_is_blank(s.last()) {
        trim_end(s.drop_last())
    } else {
        s
    }
}

/// The text without the white space at its start and at its end.
pub open spec fn trimmed(s: Seq<char>) -> Seq<char> {
    trim_end(trim_start(s))
}

/// Whether every character of `s` is a decimal digit.
pub open spec fn all_digits(s: Seq<char>) -> bool {
    forall|i: int| 0 <= i < s.len() ==> spec_is_digit(#[trigger] s[i])
}

/// The number that the digits of `s` write in base ten.
pub open spec fn decimal(s: Seq<char>) -> int
    decreases s.len(),
{
    if s.len() == 0 {
        0
    } else {
        10 * decimal(s.drop_last()) + (s.last() as u32 - 0x30)
    }
}

/// The number that `s` writes as a sign, if any, and digits; `None` where
/// `s` is not of that form.
pub open spec fn signed_decimal(s: Seq<char>) -> Option<int> {
    let negative = s.len() > 0 && s[0] == '-';
    let digits = if s.len() > 0 && (s[0] == '-' || s[0] == '+') {
        s.drop_first()
    } else {
        s
    };
    if digits.len() == 0 || !all_digits(digits) {
        None
    } else if negative {
        Some(-decimal(digits))
    } else {
        Some(decimal(digits))
    }
}

/// The floor number that `text` writes; `None` where it writes none, or one
/// too large for a [`Floor`] to hold.
pub open spec fn floor_number(text: Seq<char>) -> Option<int> {
    match signed_decimal(trimmed(text)) {
        Some(n) if i64::MIN <= n <= i64::MAX => Some(n),
        _ => None,
    }
}

/// Whether `c` is white space.
#[verifier::when_used_as_spec(spec_is_blank)]
pub fn is_blank(c: char) -> (r: bool)
    ensures
        r == spec_is_blank(c),
{
    let u: u32 = c as u32;
    (0x09 <= u && u <= 0x0D) || u == 0x20 || u == 0x85 || u == 0xA0 || u == 0x1680 || (0x2000 <= u
        && u <= 0x200A) || u == 0x2028 || u == 0x2029 || u == 0x202F || u == 0x205F || u == 0x3000
}

/// Whether `c` is a decimal digit.
#[verifier::when_used_as_spec(spec_is_digit)]
pub fn is_digit(c: char) -> (r: bool)
    ensures
        r == spec_is_digit(c),
{
    let u: u32 = c as u32;
    0x30 <= u && u <= 0x39
}

/// The characters of `text`, in order.
fn chars_of(text: &str) -> (chars: Vec<char>)
    ensures
        chars@ == text@,
{
    let mut chars: Vec<char> = Vec::new();
    for c in it: text.chars()
        invariant
            it.seq() == text@,
            chars@ == it.seq().take(it.index()),
    {
        chars.push(c);
    }
    chars
}

/// Digits never write a negative number, and more digits never write a
/// smaller one.
proof fn lemma_decimal_grows(s: Seq<char>, i: int)
    requires
        all_digits(s),
        0 <= i <= s.len(),
    ensures
        0 <= decimal(s.take(i)) <= decimal(s),
    decreases s.len() - i,
{
    lemma_decimal_nonnegative(s.take(i));
    if i == s.len() {
        assert(s.take(i) =~= s);
    } else {
        lemma_decimal_grows(s, i + 1);
        assert(s.take(i + 1).drop_last() =~= s.take(i));
    }
}

/// Digits never write a negative number.
proof fn lemma_decimal_nonnegative(s: Seq<char>)
    requires
        all_digits(s),
    ensures
        0 <= decimal(s),
    decreases s.len(),
{
    if s.len() > 0 {
        lemma_decimal_nonnegative(s.drop_last());
    }
}

/// Where the text starts and ends once the white space on both sides is
/// left out.
fn trim_bounds(chars: &Vec<char>) -> (bounds: (usize, usize))
    ensures
        bounds.0 <= bounds.1 <= chars@.len(),
        chars@.subrange(bounds.0 as int, bounds.1 as int) == trimmed(chars@),
{
    let n: usize = chars.len();
    let mut lo: usize = 0;
    assert(chars@.subrange(0, n as int) =~= chars@);
    while lo < n && is_blank(chars[lo])
        invariant
            n == chars@.len(),
            lo <= n,
            trim_start(chars@) == trim_start(chars@.subrange(lo as int, n as int)),
        decreases n - lo,
    {
        assert(chars@.subrange(lo as int, n as int).drop_first() =~= chars@.subrange(
            lo + 1,
            n as int,
        ));
        lo = lo + 1;
    }
    let mut hi: usize = n;
    while lo < hi && is_blank(chars[hi - 1])
        invariant
            n == chars@.len(),
            lo <= hi <= n,
            trim_start(chars@) == chars@.subrange(lo as int, n as int),
            trimmed(chars@) == trim_end(chars@.subrange(lo as int, hi as int)),
        decreases hi - lo,
    {
        assert(chars@.subrange(lo as int, hi as int).drop_last() =~= chars@.subrange(
            lo as int,
            hi - 1,
        ));
        hi = hi - 1;
    }
    (lo, hi)
}

/// Reads the digits between two places of the text as a number, up to two
/// to the power of 63: the largest magnitude that a floor number can have.
fn read_magnitude(chars: &Vec<char>, from: usize, to: usize) -> (m: Option<u64>)
    requires
        from <= to <= chars@.len(),
    ensures
        ({
            let digits = chars@.subrange(from as int, to as int);
            match m {
                Some(v) => all_digits(digits) && v == decimal(digits) && v
                    <= 0x8000_0000_0000_0000,
                None => !all_digits(digits) || decimal(digits) > 0x8000_0000_0000_0000,
            }
        }),
{
    let ghost digits = chars@.subrange(from as int, to as int);
    let mut magnitude: u128 = 0;
    let mut i: usize = from;
    while i < to
        invariant
            from <= i <= to <= chars@.len(),
            digits == chars@.subrange(from as int, to as int),
            all_digits(digits.take(i - from)),
            magnitude == decimal(digits.take(i - from)),
            magnitude <= 0x8000_0000_0000_0000,
        decreases to - i,
    {
        let c = chars[i];
        let ghost k = i - from;
        assert(digits[k] == c);
        if !is_digit(c) {
            return None;
        }
        let d: u128 = (c as u32 - 0x30) as u128;
        proof {
            assert(digits.take(k + 1).drop_last() =~= digits.take(k));
            assert(digits.take(k + 1).last() == c);
            assert forall|j: int| 0 <= j < k + 1 implies spec_is_digit(
                #[trigger] digits.take(k + 1)[j],
            ) by {
                if j < k {
                    assert(digits.take(k)[j] == digits.take(k + 1)[j]);
                }
            }
        }
        magnitude = 10 * magnitude + d;
        if magnitude > 0x8000_0000_0000_0000 {
            proof {
                if all_digits(digits) {
                    lemma_decimal_grows(digits, k + 1);
                }
            }
            return None;
        }
        i = i + 1;
    }
    assert(digits.take(to - from) =~= digits);
    Some(magnitude as u64)
}

/// Reads the floor number that `text` writes. The text may carry white
/// space on both sides, as a line of input carries its line end.
pub fn parse_floor(text: &str) -> (r: Result<Floor, ElevatorError>)
    ensures
        match floor_number(text@) {
            Some(n) => r == Ok::<Floor, ElevatorError>(Floor(n as i64)),
            None => r == Err::<Floor, ElevatorError>(ElevatorError::InvalidFloorText),
        },
{
    let chars = chars_of(text);
    let (lo, hi) = trim_bounds(&chars);
    let ghost body = chars@.subrange(lo as int, hi as int);
    let negative = lo < hi && chars[lo] == '-';
    let from: usize = if lo < hi && (chars[lo] == '-' || chars[lo] == '+') {
        lo + 1
    } else {
        lo
    };
    let ghost digits = chars@.subrange(from as int, hi as int);
    assert(from > lo ==> digits =~= body.drop_first());
    assert(from == lo ==> digits =~= body);
    if from == hi {
        return Err(ElevatorError::InvalidFloorText);
    }
    match read_magnitude(&chars, from, hi) {
        None => Err(ElevatorError::InvalidFloorText),
        Some(m) => {
            if negative {
                Ok(Floor((0 - m as i128) as i64))
            } else if m <= 0x7FFF_FFFF_FFFF_FFFF {
                Ok(Floor(m as i64))
            } else {
                Err(ElevatorError::InvalidFloorText)
            }
        },
    }
}

} // verus!
