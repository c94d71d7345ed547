//! Exact decimal numbers.
//!
//! A reading's measurements travel on the wire as decimal literals. They are
//! held here exactly, as a mantissa and a power-of-ten exponent, so that the
//! unit normalization (Celsius to Fahrenheit) can be carried out and stated
//! without any rounding at all.

use vstd::prelude::*;

verus! {

/// Largest mantissa magnitude a decimal parsed from the wire may carry.
pub const PARSE_MAX_MANTISSA: i64 = 1_000_000_000_000_000;

/// Largest mantissa magnitude any well-formed decimal may carry; wide enough
/// for the result of the Fahrenheit conversion applied to a parsed decimal.
pub const MAX_MANTISSA: i64 = 100_000_000_000_000_000;

/// Largest magnitude accepted for a wire exponent.
pub const MAX_EXP_MAGNITUDE: i64 = 1_000_000;

/// Ten to the power `k`.
pub open spec fn pow10(k: nat) -> nat
    decreases k,
{
    if k == 0 {
        1
    } else {
        10 * pow10((k - 1) as nat)
    }
}

pub proof fn lemma_pow10_pos(k: nat)
    ensures
        pow10(k) >= 1,
    decreases k,
{
    if k > 0 {
        lemma_pow10_pos((k - 1) as nat);
    }
}

pub proof fn lemma_pow10_mono(a: nat, b: nat)
    requires
        a <= b,
    ensures
        pow10(a) <= pow10(b),
    decreases b,
{
    if a < b {
        lemma_pow10_mono(a, (b - 1) as nat);
    }
}

pub proof fn lemma_pow10_adds(a: nat, b: nat)
    ensures
        pow10(a + b) == pow10(a) * pow10(b),
    decreases a,
{
    if a == 0 {
        assert(pow10(a) == 1);
        assert(pow10(a) * pow10(b) == pow10(b));
    } else {
        lemma_pow10_adds((a - 1) as nat, b);
        let pa1 = pow10((a - 1) as nat);
        let pb = pow10(b);
        assert(pow10(a + b) == 10 * pow10((a + b - 1) as nat));
        assert(pow10((a + b - 1) as nat) == pa1 * pb);
        assert(10 * (pa1 * pb) == (10 * pa1) * pb) by (nonlinear_arith);
        assert(pow10(a) == 10 * pa1);
        assert(pa1 * pb >= 0) by (nonlinear_arith);
        assert(pow10(a) * pow10(b) == (10 * pa1) * pb);
    }
}

/// The product of two magnitude-bounded integers is magnitude-bounded.
proof fn lemma_mul_bounds(x: int, y: int, a: int, b: int)
    requires
        -a <= x <= a,
        0 <= y <= b,
    ensures
        -(a * b) <= x * y <= a * b,
{
    assert(-(a * b) <= x * y <= a * b) by (nonlinear_arith)
        requires
            -a <= x <= a,
            0 <= y <= b,
    ;
}

/// Ten to the power `k`, as a machine integer.
pub fn pow10_i64(k: u32) -> (r: i64)
    requires
        k <= 15,
    ensures
        r == pow10(k as nat),
{
    proof {
        assert(pow10(15) == 1_000_000_000_000_000) by {
            reveal_with_fuel(pow10, 16);
        }
    }
    let mut r: i64 = 1;
    let mut j: u32 = 0;
    while j < k
        invariant
            j <= k <= 15,
            r == pow10(j as nat),
            pow10(15) == 1_000_000_000_000_000,
        decreases k - j,
    {
        proof {
            lemma_pow10_mono((j + 1) as nat, 15);
        }
        r = r * 10;
        j = j + 1;
    }
    r
}

/// An exact decimal number with value `mantissa * 10^exponent`.
///
/// The exponent is kept in `-10 ..= 0`, so every well-formed decimal is an
/// integer multiple of `10^-10`.
#[derive(Clone, Copy, Debug, PartialEq, Eq, Structural)]
pub struct Decimal {
    pub mantissa: i64,
    pub exponent: i32,
}

impl Decimal {
    /// Every decimal the library hands out satisfies this.
    pub open spec fn wf(self) -> bool {
        &&& -10 <= self.exponent <= 0
        &&& -MAX_MANTISSA <= self.mantissa <= MAX_MANTISSA
    }

    /// The tighter bounds guaranteed for a decimal parsed from the wire;
    /// they leave room for the Fahrenheit conversion to stay well-formed.
    pub open spec fn parsed_wf(self) -> bool {
        &&& -9 <= self.exponent <= 0
        &&& -PARSE_MAX_MANTISSA <= self.mantissa <= PARSE_MAX_MANTISSA
    }

    /// The value of the decimal, scaled by `10^10` into an exact integer.
    /// Two decimals denote the same number exactly when their `scaled`
    /// values agree.
    pub open spec fn scaled(self) -> int {
        self.mantissa * pow10((10 + self.exponent) as nat)
    }

    pub fn new(mantissa: i64, exponent: i32) -> (d: Decimal)
        requires
            -9 <= exponent <= 0,
            -PARSE_MAX_MANTISSA <= mantissa <= PARSE_MAX_MANTISSA,
        ensures
            d == (Decimal { mantissa, exponent }),
            d.parsed_wf(),
            d.wf(),
    {
        Decimal { mantissa, exponent }
    }

    /// Do `self` and `other` denote the same number?
    pub fn value_eq(self, other: Decimal) -> (r: bool)
        requires
            self.wf(),
            other.wf(),
        ensures
            r == (self.scaled() == other.scaled()),
    {
        proof {
            lemma_pow10_mono((10 + self.exponent) as nat, 15);
            lemma_pow10_mono((10 + other.exponent) as nat, 15);
            assert(pow10(15) == 1_000_000_000_000_000) by {
                reveal_with_fuel(pow10, 16);
            }
        }
        let pa: i64 = pow10_i64((10 + self.exponent) as u32);
        let pb: i64 = pow10_i64((10 + other.exponent) as u32);
        proof {
            lemma_mul_bounds(
                self.mantissa as int,
                pa as int,
                MAX_MANTISSA as int,
                1_000_000_000_000_000,
            );
            lemma_mul_bounds(
                other.mantissa as int,
                pb as int,
                MAX_MANTISSA as int,
                1_000_000_000_000_000,
            );
        }
        let a: i128 = (self.mantissa as i128) * (pa as i128);
        let b: i128 = (other.mantissa as i128) * (pb as i128);
        a == b
    }
}

/// The mantissa of the Fahrenheit conversion of `c`: with `c = m * 10^e`,
/// `c * 9/5 + 32` equals `(18m + 32 * 10^(1-e)) * 10^(e-1)` exactly.
pub open spec fn fahrenheit_mantissa(c: Decimal) -> int {
    18 * c.mantissa + 32 * pow10((1 - c.exponent) as nat)
}

/// The exact Fahrenheit conversion of a parsed Celsius decimal.
pub open spec fn spec_fahrenheit(c: Decimal) -> Decimal {
    Decimal { mantissa: fahrenheit_mantissa(c) as i64, exponent: (c.exponent - 1) as i32 }
}

pub proof fn lemma_spec_fahrenheit_wf(c: Decimal)
    requires
        c.parsed_wf(),
    ensures
        spec_fahrenheit(c).wf(),
        spec_fahrenheit(c).mantissa == fahrenheit_mantissa(c),
        spec_fahrenheit(c).exponent == c.exponent - 1,
{
    lemma_pow10_mono((1 - c.exponent) as nat, 10);
    assert(pow10(10) == 10_000_000_000) by {
        reveal_with_fuel(pow10, 11);
    }
}

/// The conversion is exact: at the scaled-integer level, five times the
/// Fahrenheit value equals nine times the Celsius value plus `160 * 10^10`,
/// which is `F == C * 9/5 + 32` multiplied through by `5 * 10^10`.
pub proof fn lemma_fahrenheit_value(c: Decimal)
    requires
        c.parsed_wf(),
    ensures
        5 * spec_fahrenheit(c).scaled() == 9 * c.scaled() + 160 * pow10(10),
{
    lemma_spec_fahrenheit_wf(c);
    let f = spec_fahrenheit(c);
    let e = c.exponent as int;
    let m = c.mantissa as int;
    let p9e = pow10((9 + e) as nat) as int;
    let p1e = pow10((1 - e) as nat) as int;
    assert(pow10((10 + e) as nat) == 10 * p9e);
    lemma_pow10_adds((1 - e) as nat, (9 + e) as nat);
    assert(pow10(10) == p1e * p9e);
    assert(f.scaled() == (18 * m + 32 * p1e) * p9e);
    assert(5 * ((18 * m + 32 * p1e) * p9e) == 9 * (m * (10 * p9e)) + 160 * (p1e * p9e))
        by (nonlinear_arith);
}

/// Convert a Celsius reading to Fahrenheit, exactly.
pub fn celsius_to_fahrenheit(c: Decimal) -> (f: Decimal)
    requires
        c.parsed_wf(),
    ensures
        f == spec_fahrenheit(c),
        f.wf(),
{
    proof {
        lemma_spec_fahrenheit_wf(c);
        lemma_pow10_mono((1 - c.exponent) as nat, 10);
        assert(pow10(10) == 10_000_000_000) by {
            reveal_with_fuel(pow10, 11);
        }
    }
    let p: i64 = pow10_i64((1 - c.exponent) as u32);
    let m: i64 = 18 * c.mantissa + 32 * p;
    Decimal { mantissa: m, exponent: c.exponent - 1 }
}

} // verus!
