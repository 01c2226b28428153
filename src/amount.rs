//! Exact decimal amounts: a signed 96-bit mantissa and a scale of at most
//! 28 fractional digits, the range that `rust_decimal::Decimal` holds.
//! The arithmetic itself is done by `rust_decimal`; an operation whose
//! exact result cannot be held is refused (`None`) instead of rounded.

use rust_decimal::Decimal;
use vstd::prelude::*;

verus! {

/// Largest number of fractional digits an amount may carry.
pub const MAX_SCALE: u32 = 28;

/// Magnitude bound of a mantissa: every mantissa lies strictly between
/// `-MANTISSA_LIMIT` and `MANTISSA_LIMIT` (2^96).
pub const MANTISSA_LIMIT: i128 = 0x1_0000_0000_0000_0000_0000_0000;

/// Ten to the power `n`.
pub open spec fn pow10(n: nat) -> int
    decreases n,
{
    if n == 0 {
        1
    } else {
        10 * pow10((n - 1) as nat)
    }
}

/// Whether the value `v`, counted in units of 10^-28, can be held with
/// `scale` fractional digits: its mantissa at that scale stays within
/// the 96-bit range.
pub open spec fn fits_at(v: int, scale: nat) -> bool {
    -MANTISSA_LIMIT * pow10((MAX_SCALE - scale) as nat) < v < MANTISSA_LIMIT * pow10(
        (MAX_SCALE - scale) as nat,
    )
}

/// A decimal number `mantissa * 10^-scale`.
#[derive(Clone, Copy, Debug)]
pub struct Amount {
    mantissa: i128,
    scale: u32,
}

impl Amount {
    #[verifier::type_invariant]
    spec fn well_formed(self) -> bool {
        &&& -MANTISSA_LIMIT < self.mantissa < MANTISSA_LIMIT
        &&& self.scale <= MAX_SCALE
    }

    pub closed spec fn spec_mantissa(self) -> int {
        self.mantissa as int
    }

    pub closed spec fn spec_scale(self) -> nat {
        self.scale as nat
    }

    /// The mantissa and scale lie in range.
    pub open spec fn wf(self) -> bool {
        &&& -MANTISSA_LIMIT < self.spec_mantissa() < MANTISSA_LIMIT
        &&& self.spec_scale() <= MAX_SCALE
    }

    /// The value of the amount, counted in units of 10^-28.
    pub open spec fn units(self) -> int {
        self.spec_mantissa() * pow10((MAX_SCALE - self.spec_scale()) as nat)
    }
}

/// The amount with the given mantissa and scale.
pub closed spec fn amount_of(mantissa: int, scale: nat) -> Amount {
    Amount { mantissa: mantissa as i128, scale: scale as u32 }
}

pub proof fn lemma_amount_of(mantissa: int, scale: nat)
    requires
        -MANTISSA_LIMIT < mantissa < MANTISSA_LIMIT,
        scale <= MAX_SCALE,
    ensures
        amount_of(mantissa, scale).spec_mantissa() == mantissa,
        amount_of(mantissa, scale).spec_scale() == scale,
        amount_of(mantissa, scale).wf(),
{
}

/// Zero, with no fractional digits.
pub open spec fn spec_zero() -> Amount {
    amount_of(0, 0)
}

/// The larger of the two scales: the scale of an exact sum or difference.
pub open spec fn max_scale(a: Amount, b: Amount) -> nat {
    if a.spec_scale() >= b.spec_scale() {
        a.spec_scale()
    } else {
        b.spec_scale()
    }
}

/// The mantissa of `a` written with `scale` fractional digits.
pub open spec fn aligned(a: Amount, scale: nat) -> int {
    a.spec_mantissa() * pow10((scale - a.spec_scale()) as nat)
}

/// Mantissa of the exact sum at the larger of the two scales.
pub open spec fn sum_mantissa(a: Amount, b: Amount) -> int {
    aligned(a, max_scale(a, b)) + aligned(b, max_scale(a, b))
}

/// Mantissa of the exact difference at the larger of the two scales.
pub open spec fn difference_mantissa(a: Amount, b: Amount) -> int {
    aligned(a, max_scale(a, b)) - aligned(b, max_scale(a, b))
}

/// The exact sum `a + b`, or `None` where it cannot be held: a zero
/// operand gives the other one back; otherwise the sum is written at
/// the larger scale, and must fit in 96 bits there.
pub open spec fn spec_sum(a: Amount, b: Amount) -> Option<Amount> {
    if a.spec_mantissa() == 0 {
        Some(b)
    } else if b.spec_mantissa() == 0 {
        Some(a)
    } else if -MANTISSA_LIMIT < sum_mantissa(a, b) < MANTISSA_LIMIT {
        Some(amount_of(sum_mantissa(a, b), max_scale(a, b)))
    } else {
        None
    }
}

/// The exact difference `a - b`, or `None` where it cannot be held, in the
/// same manner as `spec_sum`.
pub open spec fn spec_difference(a: Amount, b: Amount) -> Option<Amount> {
    if a.spec_mantissa() == 0 {
        Some(amount_of(-b.spec_mantissa(), b.spec_scale()))
    } else if b.spec_mantissa() == 0 {
        Some(a)
    } else if -MANTISSA_LIMIT < difference_mantissa(a, b) < MANTISSA_LIMIT {
        Some(amount_of(difference_mantissa(a, b), max_scale(a, b)))
    } else {
        None
    }
}

/// Relies on `Decimal::checked_add`: a zero operand gives the other one
/// back unchanged; a sum that fits at the larger scale comes out exactly,
/// at that scale; any result at that scale is the exact sum (a rounded
/// result has fewer fractional digits).
#[verifier::external_body]
fn decimal_add(a: Amount, b: Amount) -> (r: Option<Amount>)
    requires
        a.wf(),
        b.wf(),
    ensures
        a.spec_mantissa() == 0 ==> r == Some(b),
        a.spec_mantissa() != 0 && b.spec_mantissa() == 0 ==> r == Some(a),
        a.spec_mantissa() != 0 && b.spec_mantissa() != 0 && -MANTISSA_LIMIT < sum_mantissa(a, b)
            < MANTISSA_LIMIT ==> r is Some && r.unwrap().spec_scale() == max_scale(a, b),
        r is Some && r.unwrap().spec_scale() == max_scale(a, b) ==> r.unwrap().spec_mantissa()
            == sum_mantissa(a, b),
{
    let x = Decimal::from_i128_with_scale(a.mantissa, a.scale);
    let y = Decimal::from_i128_with_scale(b.mantissa, b.scale);
    x.checked_add(y).map(|d| Amount { mantissa: d.mantissa(), scale: d.scale() })
}

/// Relies on `Decimal::checked_sub`: subtracting from zero negates the
/// other operand, subtracting zero gives `a` back unchanged; a difference
/// that fits at the larger scale comes out exactly, at that scale; any
/// result at that scale is the exact difference.
#[verifier::external_body]
fn decimal_sub(a: Amount, b: Amount) -> (r: Option<Amount>)
    requires
        a.wf(),
        b.wf(),
    ensures
        a.spec_mantissa() == 0 ==> r is Some && r.unwrap().spec_mantissa() == -b.spec_mantissa()
            && r.unwrap().spec_scale() == b.spec_scale(),
        a.spec_mantissa() != 0 && b.spec_mantissa() == 0 ==> r == Some(a),
        a.spec_mantissa() != 0 && b.spec_mantissa() != 0 && -MANTISSA_LIMIT < difference_mantissa(
            a,
            b,
        ) < MANTISSA_LIMIT ==> r is Some && r.unwrap().spec_scale() == max_scale(a, b),
        r is Some && r.unwrap().spec_scale() == max_scale(a, b) ==> r.unwrap().spec_mantissa()
            == difference_mantissa(a, b),
{
    let x = Decimal::from_i128_with_scale(a.mantissa, a.scale);
    let y = Decimal::from_i128_with_scale(b.mantissa, b.scale);
    x.checked_sub(y).map(|d| Amount { mantissa: d.mantissa(), scale: d.scale() })
}

/// Relies on `Decimal`'s ordering, which compares the exact values.
#[verifier::external_body]
fn decimal_at_least(a: Amount, b: Amount) -> (r: bool)
    requires
        a.wf(),
        b.wf(),
    ensures
        r == (a.units() >= b.units()),
{
    Decimal::from_i128_with_scale(a.mantissa, a.scale) >= Decimal::from_i128_with_scale(
        b.mantissa,
        b.scale,
    )
}

impl Amount {
    /// The amount `mantissa * 10^-scale`, where both lie in range.
    pub fn new(mantissa: i128, scale: u32) -> (r: Option<Amount>)
        ensures
            r is Some <==> -MANTISSA_LIMIT < mantissa < MANTISSA_LIMIT && scale <= MAX_SCALE,
            r is Some ==> r.unwrap().spec_mantissa() == mantissa && r.unwrap().spec_scale()
                == scale,
    {
        if -MANTISSA_LIMIT < mantissa && mantissa < MANTISSA_LIMIT && scale <= MAX_SCALE {
            Some(Amount { mantissa, scale })
        } else {
            None
        }
    }

    /// Zero, with no fractional digits.
    pub fn zero() -> (r: Amount)
        ensures
            r == spec_zero(),
            r.spec_mantissa() == 0,
            r.spec_scale() == 0,
            r.units() == 0,
    {
        Amount { mantissa: 0, scale: 0 }
    }

    pub fn mantissa(&self) -> (r: i128)
        ensures
            r == self.spec_mantissa(),
    {
        self.mantissa
    }

    pub fn scale(&self) -> (r: u32)
        ensures
            r == self.spec_scale(),
    {
        self.scale
    }

    /// The exact sum, or `None` where it cannot be held.
    pub fn checked_add(self, other: Amount) -> (r: Option<Amount>)
        ensures
            r == spec_sum(self, other),
    {
        proof {
            use_type_invariant(&self);
            use_type_invariant(&other);
        }
        let r = decimal_add(self, other);
        if self.mantissa == 0 || other.mantissa == 0 {
            return r;
        }
        let scale = if self.scale >= other.scale {
            self.scale
        } else {
            other.scale
        };
        match r {
            Some(c) => {
                proof {
                    use_type_invariant(&c);
                }
                if c.scale == scale {
                    Some(c)
                } else {
                    None
                }
            },
            None => None,
        }
    }

    /// The exact difference, or `None` where it cannot be held.
    pub fn checked_sub(self, other: Amount) -> (r: Option<Amount>)
        ensures
            r == spec_difference(self, other),
    {
        proof {
            use_type_invariant(&self);
            use_type_invariant(&other);
        }
        let r = decimal_sub(self, other);
        if self.mantissa == 0 || other.mantissa == 0 {
            return r;
        }
        let scale = if self.scale >= other.scale {
            self.scale
        } else {
            other.scale
        };
        match r {
            Some(c) => {
                proof {
                    use_type_invariant(&c);
                }
                if c.scale == scale {
                    Some(c)
                } else {
                    None
                }
            },
            None => None,
        }
    }

    /// Whether this amount is at least `other`.
    pub fn at_least(&self, other: &Amount) -> (r: bool)
        ensures
            r == (self.units() >= other.units()),
    {
        proof {
            use_type_invariant(self);
            use_type_invariant(other);
        }
        decimal_at_least(*self, *other)
    }

    /// Whether this amount is greater than zero.
    pub fn is_positive(&self) -> (r: bool)
        ensures
            r == (self.units() > 0),
    {
        !Amount::zero().at_least(self)
    }
}

impl PartialEq for Amount {
    /// Equal values compare equal whatever their scales (1.0 == 1).
    fn eq(&self, other: &Amount) -> (r: bool) {
        self.at_least(other) && other.at_least(self)
    }
}

impl vstd::std_specs::cmp::PartialEqSpecImpl for Amount {
    open spec fn obeys_eq_spec() -> bool {
        true
    }

    open spec fn eq_spec(&self, other: &Amount) -> bool {
        self.units() == other.units()
    }
}

impl Eq for Amount {
}

pub proof fn lemma_pow10_positive(n: nat)
    ensures
        pow10(n) > 0,
    decreases n,
{
    if n > 0 {
        lemma_pow10_positive((n - 1) as nat);
    }
}

pub proof fn lemma_pow10_add(x: nat, y: nat)
    ensures
        pow10(x + y) == pow10(x) * pow10(y),
    decreases x,
{
    if x > 0 {
        lemma_pow10_add((x - 1) as nat, y);
        assert(pow10(x + y) == 10 * pow10((x - 1 + y) as nat));
        assert(10 * (pow10((x - 1) as nat) * pow10(y)) == (10 * pow10((x - 1) as nat)) * pow10(y))
            by (nonlinear_arith);
    }
}

/// Writing an amount with more fractional digits keeps its value.
proof fn lemma_aligned_units(a: Amount, scale: nat)
    requires
        a.spec_scale() <= scale <= MAX_SCALE,
    ensures
        aligned(a, scale) * pow10((MAX_SCALE - scale) as nat) == a.units(),
{
    let up = (scale - a.spec_scale()) as nat;
    let rest = (MAX_SCALE - scale) as nat;
    lemma_pow10_add(up, rest);
    assert(up + rest == (MAX_SCALE - a.spec_scale()) as nat);
    assert(a.spec_mantissa() * pow10(up) * pow10(rest) == a.spec_mantissa() * (pow10(up) * pow10(
        rest,
    ))) by (nonlinear_arith);
}

/// A value that fits at some scale fits at every smaller scale too.
proof fn lemma_fits_mantissa(mantissa: int, scale: nat, limit_scale: nat)
    requires
        scale <= limit_scale <= MAX_SCALE,
        fits_at(mantissa * pow10((MAX_SCALE - scale) as nat), limit_scale),
    ensures
        -MANTISSA_LIMIT < mantissa < MANTISSA_LIMIT,
{
    let p = pow10((MAX_SCALE - scale) as nat);
    let q = pow10((MAX_SCALE - limit_scale) as nat);
    lemma_pow10_positive((MAX_SCALE - limit_scale) as nat);
    lemma_pow10_add((limit_scale - scale) as nat, (MAX_SCALE - limit_scale) as nat);
    lemma_pow10_positive((limit_scale - scale) as nat);
    assert(((limit_scale - scale) as nat + (MAX_SCALE - limit_scale) as nat) == (MAX_SCALE
        - scale) as nat);
    assert(q <= p) by (nonlinear_arith)
        requires
            p == pow10((limit_scale - scale) as nat) * q,
            pow10((limit_scale - scale) as nat) > 0,
            q > 0,
    ;
    let l = MANTISSA_LIMIT as int;
    assert(-l < mantissa < l) by (nonlinear_arith)
        requires
            -l * q < mantissa * p < l * q,
            0 < q <= p,
            l > 0,
    ;
}

/// Where the exact sum fits at a scale at least that of both operands,
/// `spec_sum` holds it, at no more fractional digits than that scale.
pub proof fn lemma_sum_exact(a: Amount, b: Amount, scale: nat)
    requires
        a.wf(),
        b.wf(),
        a.spec_scale() <= scale,
        b.spec_scale() <= scale,
        scale <= MAX_SCALE,
        fits_at(a.units() + b.units(), scale),
    ensures
        spec_sum(a, b) is Some,
        spec_sum(a, b).unwrap().wf(),
        spec_sum(a, b).unwrap().units() == a.units() + b.units(),
        spec_sum(a, b).unwrap().spec_scale() <= scale,
{
    if a.spec_mantissa() != 0 && b.spec_mantissa() != 0 {
        let m = max_scale(a, b);
        lemma_aligned_units(a, m);
        lemma_aligned_units(b, m);
        let p = pow10((MAX_SCALE - m) as nat);
        assert(sum_mantissa(a, b) * p == a.units() + b.units()) by (nonlinear_arith)
            requires
                sum_mantissa(a, b) == aligned(a, m) + aligned(b, m),
                aligned(a, m) * p == a.units(),
                aligned(b, m) * p == b.units(),
        ;
        lemma_fits_mantissa(sum_mantissa(a, b), m, scale);
        lemma_amount_of(sum_mantissa(a, b), m);
    }
}

/// Where the exact difference fits at a scale at least that of both
/// operands, `spec_difference` holds it, at no more fractional digits than
/// that scale.
pub proof fn lemma_difference_exact(a: Amount, b: Amount, scale: nat)
    requires
        a.wf(),
        b.wf(),
        a.spec_scale() <= scale,
        b.spec_scale() <= scale,
        scale <= MAX_SCALE,
        fits_at(a.units() - b.units(), scale),
    ensures
        spec_difference(a, b) is Some,
        spec_difference(a, b).unwrap().wf(),
        spec_difference(a, b).unwrap().units() == a.units() - b.units(),
        spec_difference(a, b).unwrap().spec_scale() <= scale,
{
    if a.spec_mantissa() == 0 {
        lemma_amount_of(-b.spec_mantissa(), b.spec_scale());
        let p = pow10((MAX_SCALE - b.spec_scale()) as nat);
        assert(-b.spec_mantissa() * p == -(b.spec_mantissa() * p)) by (nonlinear_arith);
    } else if b.spec_mantissa() != 0 {
        let m = max_scale(a, b);
        lemma_aligned_units(a, m);
        lemma_aligned_units(b, m);
        let p = pow10((MAX_SCALE - m) as nat);
        assert(difference_mantissa(a, b) * p == a.units() - b.units()) by (nonlinear_arith)
            requires
                difference_mantissa(a, b) == aligned(a, m) - aligned(b, m),
                aligned(a, m) * p == a.units(),
                aligned(b, m) * p == b.units(),
        ;
        lemma_fits_mantissa(difference_mantissa(a, b), m, scale);
        lemma_amount_of(difference_mantissa(a, b), m);
    }
}

} // verus!
