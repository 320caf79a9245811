//! The scaled-integer fixed-point number: construction from canonical decimal
//! text, integer scaling and shrinking, and rounded conversion back to
//! ordinary unsigned integers.

use vstd::arithmetic::div_mod::{
    lemma_fundamental_div_mod, lemma_fundamental_div_mod_converse_div,
    lemma_fundamental_div_mod_converse_mod,
};
use vstd::arithmetic::mul::lemma_mul_inequality;
use vstd::prelude::*;
use vstd::string::StrSliceExecFns;

use crate::error::CurveError;

verus! {

/// Ten to the `e`.
pub open spec fn pow10(e: nat) -> nat
    decreases e,
{
    if e == 0 {
        1
    } else {
        10 * pow10((e - 1) as nat)
    }
}

pub proof fn lemma_pow10_pos(e: nat)
    ensures
        pow10(e) >= 1,
    decreases e,
{
    if e > 0 {
        lemma_pow10_pos((e - 1) as nat);
    }
}

pub proof fn lemma_pow10_mono(a: nat, b: nat)
    requires
        a <= b,
    ensures
        pow10(a) <= pow10(b),
    decreases b,
{
    if a < b {
        lemma_pow10_mono(a, (b - 1) as nat);
        lemma_pow10_pos((b - 1) as nat);
    }
}

proof fn lemma_pow10_38_fits()
    ensures
        pow10(38) <= u128::MAX,
{
    reveal_with_fuel(pow10, 40);
}

proof fn lemma_pow10_39_exceeds()
    ensures
        pow10(39) > 2 * (u128::MAX as nat),
{
    reveal_with_fuel(pow10, 41);
}

/// Ten to the `e` as a machine integer.
fn pow10_u128(e: u32) -> (r: u128)
    requires
        e <= 38,
    ensures
        r as nat == pow10(e as nat),
{
    let mut r: u128 = 1;
    let mut i: u32 = 0;
    while i < e
        invariant
            i <= e,
            e <= 38,
            r as nat == pow10(i as nat),
        decreases e - i,
    {
        proof {
            lemma_pow10_mono((i + 1) as nat, 38);
            lemma_pow10_38_fits();
        }
        r = r * 10;
        i = i + 1;
    }
    r
}

/// The represented decimal rounded to the nearest integer with ties away
/// from zero: `value / 10^percision` for a non-negative `percision`, and
/// `value * 10^(-percision)` (already an integer) otherwise.
pub open spec fn unwrapped(value: nat, percision: int) -> nat {
    if percision >= 0 {
        let d = pow10(percision as nat);
        value / d + if 2 * (value % d) >= d {
            1nat
        } else {
            0nat
        }
    } else {
        value * pow10((-percision) as nat)
    }
}

/// A non-negative decimal amount stored as `value / 10^percision`.
///
/// `percision` is fixed when the number is constructed from decimal text: it
/// is the count of digits after the decimal point of that text. Scaling and
/// shrinking keep it; only a fresh construction derives a new one. Equality
/// is structural — both fields must match — so two numbers that represent
/// the same decimal at different precisions are distinct.
#[derive(Clone, Copy, Debug, PartialEq, Eq, Structural)]
pub struct SafeNumber {
    /// The raw scaled integer.
    pub value: u128,
    /// The count of decimal digits of `value` after the point.
    pub percision: i32,
}

/// The ten decimal digit characters.
pub open spec fn is_digit(c: char) -> bool {
    ||| c == '0'
    ||| c == '1'
    ||| c == '2'
    ||| c == '3'
    ||| c == '4'
    ||| c == '5'
    ||| c == '6'
    ||| c == '7'
    ||| c == '8'
    ||| c == '9'
}

/// The numeric value of a digit character.
pub open spec fn digit_val(c: char) -> nat {
    match c {
        '0' => 0,
        '1' => 1,
        '2' => 2,
        '3' => 3,
        '4' => 4,
        '5' => 5,
        '6' => 6,
        '7' => 7,
        '8' => 8,
        '9' => 9,
        _ => 0,
    }
}

/// The index of the first decimal point of `s`, or `s.len()` when there is
/// none.
pub open spec fn dot_pos(s: Seq<char>) -> nat
    decreases s.len(),
{
    if s.len() == 0 {
        0
    } else if s[0] == '.' {
        0
    } else {
        1 + dot_pos(s.skip(1))
    }
}

/// The digits of `s` read as one integer, decimal points skipped.
pub open spec fn raw_of(s: Seq<char>) -> nat
    decreases s.len(),
{
    if s.len() == 0 {
        0
    } else if s.last() == '.' {
        raw_of(s.drop_last())
    } else {
        raw_of(s.drop_last()) * 10 + digit_val(s.last())
    }
}

/// How many digits of `s` stand after its decimal point (zero when the text
/// has none).
pub open spec fn frac_len(s: Seq<char>) -> nat {
    if dot_pos(s) == s.len() {
        0
    } else {
        (s.len() - dot_pos(s) - 1) as nat
    }
}

/// Canonical decimal text: one or more digits, optionally followed by a
/// decimal point and one or more digits. This is the shape of the canonical
/// decimal rendering of any non-negative finite decimal value.
pub open spec fn is_decimal_text(s: Seq<char>) -> bool {
    &&& s.len() >= 1
    &&& dot_pos(s) >= 1
    &&& dot_pos(s) < s.len() ==> dot_pos(s) + 1 < s.len()
    &&& forall|i: int| 0 <= i < s.len() && i != dot_pos(s) ==> is_digit(#[trigger] s[i])
}

proof fn lemma_dot_pos_at(s: Seq<char>, k: int)
    requires
        0 <= k <= s.len(),
        forall|j: int| 0 <= j < k ==> s[j] != '.',
        k < s.len() ==> s[k] == '.',
    ensures
        dot_pos(s) == k,
    decreases s.len(),
{
    if s.len() == 0 {
    } else if s[0] == '.' {
        assert(k == 0);
    } else {
        assert(k >= 1);
        assert(forall|j: int| 0 <= j < k - 1 ==> s.skip(1)[j] == s[j + 1]);
        assert(k - 1 < s.skip(1).len() ==> s.skip(1)[k - 1] == s[k]);
        lemma_dot_pos_at(s.skip(1), k - 1);
    }
}

/// Reading a longer digit prefix never shrinks the integer it denotes.
proof fn lemma_raw_of_take(s: Seq<char>, m: int)
    requires
        0 <= m <= s.len(),
    ensures
        raw_of(s.take(m)) <= raw_of(s),
    decreases s.len(),
{
    if m < s.len() {
        lemma_raw_of_take(s.drop_last(), m);
        assert(s.drop_last().take(m) =~= s.take(m));
    } else {
        assert(s.take(m) =~= s);
    }
}

/// Tells a digit character and gives its value.
fn digit_value(c: char) -> (r: Option<u128>)
    ensures
        match r {
            Some(d) => is_digit(c) && d as nat == digit_val(c),
            None => !is_digit(c),
        },
{
    match c {
        '0' => Some(0),
        '1' => Some(1),
        '2' => Some(2),
        '3' => Some(3),
        '4' => Some(4),
        '5' => Some(5),
        '6' => Some(6),
        '7' => Some(7),
        '8' => Some(8),
        '9' => Some(9),
        _ => None,
    }
}

impl SafeNumber {
    /// Assembles a number directly from its raw parts.
    pub fn clone(value: u128, percision: i32) -> (r: SafeNumber)
        ensures
            r == (SafeNumber { value, percision }),
    {
        SafeNumber { value, percision }
    }

    /// Constructs a fixed-point number from the canonical decimal text of a
    /// non-negative value: `percision` becomes the count of digits after the
    /// decimal point (zero when the text has none) and `value` the digits
    /// read as one integer. Signs, exponents, or any non-digit characters
    /// are rejected as invalid input; digits beyond the raw integer's or the
    /// precision counter's capacity are reported as overflow.
    pub fn new(text: &str) -> (r: Result<SafeNumber, CurveError>)
        ensures
            match r {
                Ok(n) => {
                    &&& is_decimal_text(text@)
                    &&& raw_of(text@) <= u128::MAX
                    &&& frac_len(text@) <= i32::MAX
                    &&& n.value as nat == raw_of(text@)
                    &&& n.percision as int == frac_len(text@)
                },
                Err(e) => {
                    ||| (e == CurveError::InvalidInput && !is_decimal_text(text@))
                    ||| (e == CurveError::Overflow && is_decimal_text(text@) && (raw_of(text@)
                        > u128::MAX || frac_len(text@) > i32::MAX))
                },
            },
    {
        let ghost s = text@;
        let n = text.unicode_len();
        if n == 0 {
            return Err(CurveError::InvalidInput);
        }
        // find the first decimal point, if any
        let mut dot: usize = n;
        let mut i: usize = 0;
        while i < n && dot == n
            invariant
                s == text@,
                n == s.len(),
                i <= n,
                dot == n || (dot < n && s[dot as int] == '.' && forall|j: int|
                    0 <= j < dot ==> s[j] != '.'),
                dot == n ==> forall|j: int| 0 <= j < i ==> s[j] != '.',
            decreases n - i,
        {
            if text.get_char(i) == '.' {
                dot = i;
            }
            i = i + 1;
        }
        proof {
            lemma_dot_pos_at(s, dot as int);
        }
        if dot == 0 {
            return Err(CurveError::InvalidInput);
        }
        if dot < n && dot + 1 == n {
            return Err(CurveError::InvalidInput);
        }
        // every character but the decimal point must be a digit
        let mut i: usize = 0;
        while i < n
            invariant
                s == text@,
                n == s.len(),
                i <= n,
                dot <= n,
                dot_pos(s) == dot as nat,
                forall|j: int| 0 <= j < i && j != dot ==> is_digit(#[trigger] s[j]),
            decreases n - i,
        {
            if i != dot {
                let c = text.get_char(i);
                if digit_value(c).is_none() {
                    return Err(CurveError::InvalidInput);
                }
            }
            i = i + 1;
        }
        assert(is_decimal_text(s));
        // accumulate the digits into the raw integer
        let mut value: u128 = 0;
        let mut i: usize = 0;
        while i < n
            invariant
                s == text@,
                n == s.len(),
                i <= n,
                dot <= n,
                dot_pos(s) == dot as nat,
                dot < n ==> s[dot as int] == '.',
                is_decimal_text(s),
                value as nat == raw_of(s.take(i as int)),
            decreases n - i,
        {
            let c = text.get_char(i);
            proof {
                assert(s.take(i as int + 1).drop_last() =~= s.take(i as int));
                assert(s.take(i as int + 1).last() == s[i as int]);
            }
            if i != dot {
                let d = match digit_value(c) {
                    Some(d) => d,
                    None => {
                        proof {
                            assert(is_digit(s[i as int]));
                        }
                        return Err(CurveError::InvalidInput);
                    },
                };
                let v10 = match value.checked_mul(10) {
                    Some(v) => v,
                    None => {
                        proof {
                            lemma_raw_of_take(s, i + 1);
                        }
                        return Err(CurveError::Overflow);
                    },
                };
                let v = match v10.checked_add(d) {
                    Some(v) => v,
                    None => {
                        proof {
                            lemma_raw_of_take(s, i + 1);
                        }
                        return Err(CurveError::Overflow);
                    },
                };
                value = v;
            }
            i = i + 1;
        }
        proof {
            assert(s.take(n as int) =~= s);
        }
        let percision_count: usize = if dot < n {
            n - dot - 1
        } else {
            0
        };
        if percision_count > (i32::MAX as usize) {
            return Err(CurveError::Overflow);
        }
        Ok(SafeNumber { value, percision: percision_count as i32 })
    }

    /// Converts the number back into the requested integer kind, rounding to
    /// the nearest integer with ties away from zero.
    pub fn unwrap<U: Unwrap>(&self) -> (r: Result<U, CurveError>)
        ensures
            match r {
                Ok(u) => unwrapped(self.value as nat, self.percision as int) <= U::max_spec()
                    && u.as_nat() == unwrapped(self.value as nat, self.percision as int),
                Err(e) => unwrapped(self.value as nat, self.percision as int) > U::max_spec() && e
                    == CurveError::Overflow,
            },
    {
        U::unwrap(self.value, self.percision)
    }
}

/// Integer scaling and shrinking of a fixed-point number: both keep the
/// precision and act on the raw integer alone.
pub trait Math {
    /// The raw scaled integer of the number.
    spec fn spec_value(&self) -> u128;

    /// The decimal-place count of the number.
    spec fn spec_percision(&self) -> i32;

    /// Multiplies the represented decimal by the integer `other`.
    fn mul(&self, other: u128) -> (r: Result<SafeNumber, CurveError>)
        ensures
            match r {
                Ok(p) => {
                    &&& self.spec_value() * other <= u128::MAX
                    &&& p.value == self.spec_value() * other
                    &&& p.percision == self.spec_percision()
                },
                Err(e) => self.spec_value() * other > u128::MAX && e == CurveError::Overflow,
            },
    ;

    /// Divides the represented decimal by the integer `other`, truncating
    /// the raw quotient toward zero.
    fn div(&self, other: u128) -> (r: Result<SafeNumber, CurveError>)
        ensures
            match r {
                Ok(p) => {
                    &&& other != 0
                    &&& p.value == self.spec_value() / other
                    &&& p.percision == self.spec_percision()
                },
                Err(e) => other == 0 && e == CurveError::DivisionByZero,
            },
    ;
}

impl Math for SafeNumber {
    open spec fn spec_value(&self) -> u128 {
        self.value
    }

    open spec fn spec_percision(&self) -> i32 {
        self.percision
    }

    fn mul(&self, other: u128) -> (r: Result<SafeNumber, CurveError>) {
        match self.value.checked_mul(other) {
            Some(v) => Ok(SafeNumber { value: v, percision: self.percision }),
            None => Err(CurveError::Overflow),
        }
    }

    fn div(&self, other: u128) -> (r: Result<SafeNumber, CurveError>) {
        if other == 0 {
            Err(CurveError::DivisionByZero)
        } else {
            Ok(SafeNumber { value: self.value / other, percision: self.percision })
        }
    }
}

/// Conversion out of the fixed-point form into a concrete unsigned integer
/// kind: the represented decimal is rounded to the nearest integer with ties
/// away from zero, and a result beyond the kind's range is an overflow.
pub trait Unwrap: Sized {
    /// The largest value the target kind holds.
    spec fn max_spec() -> nat;

    /// The returned value as a mathematical integer.
    spec fn as_nat(&self) -> nat;

    /// Rounds `value / 10^percision` into the target kind.
    fn unwrap(value: u128, percision: i32) -> (r: Result<Self, CurveError>)
        ensures
            match r {
                Ok(u) => unwrapped(value as nat, percision as int) <= Self::max_spec()
                    && u.as_nat() == unwrapped(value as nat, percision as int),
                Err(e) => unwrapped(value as nat, percision as int) > Self::max_spec() && e
                    == CurveError::Overflow,
            },
    ;
}

/// The shared rounding core: the represented decimal as a raw `u128`, or an
/// overflow report when it does not fit even there.
fn unwrap_to_u128(value: u128, percision: i32) -> (r: Result<u128, CurveError>)
    ensures
        match r {
            Ok(u) => unwrapped(value as nat, percision as int) <= u128::MAX && u as nat
                == unwrapped(value as nat, percision as int),
            Err(e) => unwrapped(value as nat, percision as int) > u128::MAX && e
                == CurveError::Overflow,
        },
{
    if percision >= 0 {
        if percision > 38 {
            proof {
                lemma_pow10_mono(39, percision as nat);
                lemma_pow10_39_exceeds();
                let d = pow10(percision as nat) as int;
                lemma_fundamental_div_mod_converse_div(value as int, d, 0, value as int);
                lemma_fundamental_div_mod_converse_mod(value as int, d, 0, value as int);
            }
            Ok(0)
        } else {
            let d = pow10_u128(percision as u32);
            proof {
                lemma_pow10_pos(percision as nat);
            }
            let q = value / d;
            let rem = value % d;
            if rem >= d - rem {
                proof {
                    lemma_fundamental_div_mod(value as int, d as int);
                    if q == u128::MAX {
                        if d >= 2 {
                            lemma_mul_inequality(2, d as int, q as int);
                        }
                    }
                }
                Ok(q + 1)
            } else {
                Ok(q)
            }
        }
    } else {
        if value == 0 {
            Ok(0)
        } else if percision < -38 {
            proof {
                let e = (-percision) as nat;
                lemma_pow10_mono(39, e);
                lemma_pow10_39_exceeds();
                lemma_mul_inequality(1, value as int, pow10(e) as int);
            }
            Err(CurveError::Overflow)
        } else {
            let e: u32 = (0 - percision) as u32;
            let d = pow10_u128(e);
            match value.checked_mul(d) {
                Some(v) => Ok(v),
                None => Err(CurveError::Overflow),
            }
        }
    }
}

impl Unwrap for u128 {
    open spec fn max_spec() -> nat {
        u128::MAX as nat
    }

    open spec fn as_nat(&self) -> nat {
        *self as nat
    }

    fn unwrap(value: u128, percision: i32) -> (r: Result<Self, CurveError>) {
        unwrap_to_u128(value, percision)
    }
}

impl Unwrap for u64 {
    open spec fn max_spec() -> nat {
        u64::MAX as nat
    }

    open spec fn as_nat(&self) -> nat {
        *self as nat
    }

    fn unwrap(value: u128, percision: i32) -> (r: Result<Self, CurveError>) {
        match unwrap_to_u128(value, percision) {
            Ok(u) => {
                if u > u64::MAX as u128 {
                    Err(CurveError::Overflow)
                } else {
                    Ok(u as u64)
                }
            },
            Err(e) => Err(e),
        }
    }
}

/// Whether two numbers stand for the same decimal amount, precision aside:
/// the comparison clears both denominators.
pub open spec fn same_represented_value(a: SafeNumber, b: SafeNumber) -> bool {
    if a.percision <= b.percision {
        a.value * pow10((b.percision - a.percision) as nat) == b.value
    } else {
        b.value * pow10((a.percision - b.percision) as nat) == a.value
    }
}

/// Equality of fixed-point numbers is structural, not semantic: two numbers
/// compare equal exactly when both the raw value and the precision agree, so
/// equal represented decimals at different precisions are unequal.
pub proof fn lemma_equality_is_structural(a: SafeNumber, b: SafeNumber)
    ensures
        (a == b) <==> (a.value == b.value && a.percision == b.percision),
        same_represented_value(a, b) && a.percision != b.percision ==> a != b,
{
}

} // verus!
