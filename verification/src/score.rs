//! Scores are decimal numbers, held as rust_decimal holds them: a mantissa below
//! 2^96 in magnitude and a scale of at most 28 decimal places.
use vstd::prelude::*;
use vstd::arithmetic::power::pow;
use vstd::arithmetic::power::lemma_pow_positive;
use vstd::arithmetic::power::lemma_pow_adds;
use vstd::arithmetic::mul::lemma_mul_strictly_positive;

verus! {

/// 2^96: mantissas stay strictly below this in magnitude.
pub open spec fn mantissa_bound() -> int {
    79228162514264337593543950336
}

/// The value `mantissa / 10^scale` of a decimal.
#[derive(Debug, PartialEq, Eq, Structural)]
pub struct Score {
    mantissa: i128,
    scale: u32,
}

/// `u` (a value in units of 10^-28) is representable with at most `scale`
/// decimal places and a mantissa below 2^96.
pub open spec fn fits_at(u: int, scale: nat) -> bool {
    scale <= 28 && -mantissa_bound() * pow(10, (28 - scale) as nat) < u < mantissa_bound() * pow(
        10,
        (28 - scale) as nat,
    )
}

/// The exact sum of `a` and `b` is representable at their larger scale.
pub open spec fn sum_fits(a: Score, b: Score) -> bool {
    fits_at(a.units() + b.units(), max_scale(a.scale_of(), b.scale_of()))
}

/// The larger of two scales.
pub open spec fn max_scale(a: nat, b: nat) -> nat {
    if a < b {
        b
    } else {
        a
    }
}

/// What `rust_decimal::Decimal::from_str` gives for this text, if it parses.
pub uninterp spec fn parsed_decimal(text: Seq<char>) -> Option<Score>;

impl Score {
    #[verifier::type_invariant]
    spec fn well_formed(self) -> bool {
        &&& self.scale <= 28
        &&& -mantissa_bound() < self.mantissa < mantissa_bound()
    }

    /// The value in units of 10^-28 (an exact integer for every valid decimal).
    pub closed spec fn units(self) -> int {
        self.mantissa * pow(10, (28 - self.scale) as nat)
    }

    /// The number of decimal places.
    pub closed spec fn scale_of(self) -> nat {
        self.scale as nat
    }

    /// The mantissa.
    pub closed spec fn mantissa_of(self) -> int {
        self.mantissa as int
    }

    /// The decimal `mantissa / 10^scale`, when rust_decimal can hold it.
    pub fn new(mantissa: i128, scale: u32) -> (r: Option<Score>)
        ensures
            r is Some <==> (scale <= 28 && -mantissa_bound() < mantissa < mantissa_bound()),
            r matches Some(s) ==> s.mantissa_of() == mantissa && s.scale_of() == scale,
    {
        if scale <= 28 && -79228162514264337593543950336 < mantissa && mantissa
            < 79228162514264337593543950336 {
            Some(Score { mantissa, scale })
        } else {
            None
        }
    }

    /// A whole number.
    pub fn whole(n: i64) -> (r: Score)
        ensures
            r.mantissa_of() == n,
            r.scale_of() == 0,
    {
        Score { mantissa: n as i128, scale: 0 }
    }

    /// Zero.
    pub fn zero() -> (r: Score)
        ensures
            r.units() == 0,
            r.scale_of() == 0,
    {
        Score { mantissa: 0, scale: 0 }
    }

    /// The mantissa.
    pub fn mantissa(&self) -> (r: i128)
        ensures
            r == self.mantissa_of(),
    {
        self.mantissa
    }

    /// The number of decimal places.
    pub fn scale(&self) -> (r: u32)
        ensures
            r == self.scale_of(),
    {
        self.scale
    }

    /// A copy of this decimal.
    pub fn copy(&self) -> (r: Score)
        ensures
            r == *self,
    {
        proof {
            use_type_invariant(self);
        }
        Score { mantissa: self.mantissa, scale: self.scale }
    }

    /// Whether the value is strictly above zero.
    pub fn is_positive(&self) -> (r: bool)
        ensures
            r == (self.units() > 0),
    {
        proof {
            use_type_invariant(self);
            lemma_pow_positive(10, (28 - self.scale) as nat);
            if self.mantissa > 0 {
                lemma_mul_strictly_positive(self.mantissa as int, pow(10, (28 - self.scale) as nat));
            } else {
                assert(self.mantissa * pow(10, (28 - self.scale) as nat) <= 0) by (nonlinear_arith)
                    requires
                        self.mantissa <= 0,
                        pow(10, (28 - self.scale) as nat) > 0,
                ;
            }
        }
        self.mantissa > 0
    }

    /// Calls `rust_decimal::Decimal::checked_add` on the two decimals. The result
    /// never has more decimal places than the operands; where the exact sum is
    /// representable at the operands' larger scale, it is returned exactly. When the
    /// exact sum does not fit, rust_decimal may round it or return `None`; that
    /// case is left unsaid.
    #[verifier::external_body]
    pub(crate) fn checked_add(&self, other: &Score) -> (r: Option<Score>)
        ensures
            r matches Some(x) ==> x.scale_of() <= max_scale(self.scale_of(), other.scale_of()),
            sum_fits(*self, *other) ==> (r is Some && r.unwrap().units() == self.units() + other.units()),
    {
        let a = rust_decimal::Decimal::try_from_i128_with_scale(self.mantissa, self.scale).ok()?;
        let b = rust_decimal::Decimal::try_from_i128_with_scale(other.mantissa, other.scale).ok()?;
        let s = a.checked_add(b)?;
        Some(Score { mantissa: s.mantissa(), scale: s.scale() })
    }

    /// Calls `rust_decimal::Decimal::from_str` on the text; the result is named by
    /// `parsed_decimal`.
    #[verifier::external_body]
    pub(crate) fn parse(text: &str) -> (r: Option<Score>)
        ensures
            r == parsed_decimal(text@),
    {
        let d = <rust_decimal::Decimal as core::str::FromStr>::from_str(text).ok()?;
        Some(Score { mantissa: d.mantissa(), scale: d.scale() })
    }
}

/// A value that fits with `s` decimal places also fits with fewer.
pub proof fn lemma_fits_at_fewer_places(u: int, s: nat, t: nat)
    requires
        fits_at(u, s),
        t <= s,
    ensures
        fits_at(u, t),
{
    lemma_pow_adds(10, (28 - s) as nat, (s - t) as nat);
    lemma_pow_positive(10, (28 - s) as nat);
    lemma_pow_positive(10, (s - t) as nat);
    let p = pow(10, (28 - s) as nat);
    let q = pow(10, (s - t) as nat);
    assert(pow(10, (28 - t) as nat) == p * q);
    assert(mantissa_bound() * p <= mantissa_bound() * (p * q)) by (nonlinear_arith)
        requires
            p > 0,
            q > 0,
    ;
    assert(-mantissa_bound() * (p * q) <= -mantissa_bound() * p) by (nonlinear_arith)
        requires
            p > 0,
            q > 0,
    ;
}

} // verus!
