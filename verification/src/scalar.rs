//! Single-precision numbers carried by their IEEE 754 bit patterns.
//!
//! The renderer side of the compositor computes with hardware floating point
//! and hands the results over as bit patterns. The decisions that are taken on
//! them (is this hit behind the eye, which of two hits is nearer, is the pitch
//! out of range) are comparisons, and those are made here.

use vstd::arithmetic::power2::{lemma_pow2_adds, lemma_pow2_pos, lemma_pow2_strictly_increases, pow2};
use vstd::prelude::*;
use vstd::std_specs::cmp::{PartialEqSpec, PartialEqSpecImpl};

verus! {

/// Bit pattern of positive infinity; larger magnitudes are not numbers.
pub const INFINITY_BITS: u32 = 0x7f80_0000;

/// The sign bit.
pub const SIGN_BIT: u32 = 0x8000_0000;

/// The sign bit of a double-precision number.
pub const SIGN_BIT_64: u64 = 0x8000_0000_0000_0000;

/// Bit pattern of positive infinity in double precision.
pub const INFINITY_BITS_64: u64 = 0x7ff0_0000_0000_0000;

/// A single-precision number, held as its bit pattern.
///
/// In executable code `==` compares numbers, as the other comparisons do: the
/// two zeros are equal, and what is not a number equals nothing. In contracts
/// `==` says that the bit patterns are the same.
#[derive(Debug, Clone, Copy)]
pub struct Scalar {
    pub bits: u32,
}

/// A double-precision number, held as its bit pattern.
///
/// `==` means what it means for [`Scalar`].
#[derive(Debug, Clone, Copy)]
pub struct Scalar64 {
    pub bits: u64,
}

impl PartialEq for Scalar {
    fn eq(&self, other: &Scalar) -> (r: bool) {
        self.at_least(*other) && other.at_least(*self)
    }
}

impl PartialEqSpecImpl for Scalar {
    open spec fn obeys_eq_spec() -> bool {
        true
    }

    open spec fn eq_spec(&self, other: &Scalar) -> bool {
        self.same(*other)
    }
}

impl Scalar64 {
    /// The pattern without its sign bit.
    pub open spec fn pattern(self) -> int {
        if self.bits >= SIGN_BIT_64 {
            self.bits - SIGN_BIT_64
        } else {
            self.bits as int
        }
    }

    /// Whether the pattern denotes no number at all.
    pub open spec fn nan(self) -> bool {
        self.pattern() > INFINITY_BITS_64
    }

    /// The two patterns denote the same number: they are equal, or both are
    /// zero.
    pub open spec fn same(self, other: Scalar64) -> bool {
        &&& !self.nan()
        &&& !other.nan()
        &&& self.bits == other.bits || self.pattern() == 0 && other.pattern() == 0
    }

    /// The pattern without its sign bit.
    fn magnitude(&self) -> (r: u64)
        ensures
            r == self.pattern(),
    {
        if self.bits >= SIGN_BIT_64 {
            self.bits - SIGN_BIT_64
        } else {
            self.bits
        }
    }
}

impl PartialEq for Scalar64 {
    fn eq(&self, other: &Scalar64) -> (r: bool) {
        let a: u64 = self.magnitude();
        let b: u64 = other.magnitude();
        a <= INFINITY_BITS_64 && b <= INFINITY_BITS_64 && (self.bits == other.bits || a == 0 && b
            == 0)
    }
}

impl PartialEqSpecImpl for Scalar64 {
    open spec fn obeys_eq_spec() -> bool {
        true
    }

    open spec fn eq_spec(&self, other: &Scalar64) -> bool {
        self.same(*other)
    }
}

/// The magnitude that a pattern without its sign bit denotes, counted in units
/// of two to the power of -149, the smallest positive single-precision number.
/// Every finite magnitude is a whole number of those units; infinity comes out
/// as a number of units above every finite one.
pub open spec fn magnitude_units(pattern: int) -> int {
    let exponent = pattern / 0x80_0000;
    let fraction = pattern % 0x80_0000;
    if exponent == 0 {
        fraction
    } else {
        (0x80_0000 + fraction) * pow2((exponent - 1) as nat)
    }
}

impl Scalar {
    /// Whether the sign bit is set.
    pub open spec fn negative(self) -> bool {
        self.bits >= SIGN_BIT
    }

    /// The pattern without its sign bit.
    pub open spec fn pattern(self) -> int {
        if self.negative() {
            self.bits - SIGN_BIT
        } else {
            self.bits as int
        }
    }

    /// Whether the pattern denotes no number at all.
    pub open spec fn nan(self) -> bool {
        self.pattern() > INFINITY_BITS
    }

    /// The number that the pattern denotes, counted in units of two to the
    /// power of -149.
    pub open spec fn units(self) -> int {
        if self.negative() {
            -magnitude_units(self.pattern())
        } else {
            magnitude_units(self.pattern())
        }
    }

    /// `self < other`, which is false when either is not a number.
    pub open spec fn lt(self, other: Scalar) -> bool {
        !self.nan() && !other.nan() && self.units() < other.units()
    }

    /// `self >= other`, which is false when either is not a number.
    pub open spec fn ge(self, other: Scalar) -> bool {
        !self.nan() && !other.nan() && self.units() >= other.units()
    }

    /// The two patterns denote the same number.
    pub open spec fn same(self, other: Scalar) -> bool {
        !self.nan() && !other.nan() && self.units() == other.units()
    }

    /// The pattern with its sign bit cleared.
    pub open spec fn absolute(self) -> Scalar {
        Scalar { bits: self.pattern() as u32 }
    }

    /// `self` limited to the range from `low` to `high`; what is not a number
    /// stays as it is.
    pub open spec fn limited(self, low: Scalar, high: Scalar) -> Scalar {
        if self.lt(low) {
            low
        } else if high.lt(self) {
            high
        } else {
            self
        }
    }

    /// The number with the given bit pattern.
    pub fn from_bits(bits: u32) -> (s: Scalar)
        ensures
            s.bits == bits,
    {
        Scalar { bits }
    }

    /// Whether the pattern denotes no number at all.
    pub fn is_nan(self) -> (r: bool)
        ensures
            r == self.nan(),
    {
        let p: u32 = if self.bits >= SIGN_BIT {
            self.bits - SIGN_BIT
        } else {
            self.bits
        };
        p > INFINITY_BITS
    }

    /// A signed integer that orders as the numbers do.
    fn rank(self) -> (r: i64)
        ensures
            r == if self.negative() {
                -self.pattern()
            } else {
                self.pattern()
            },
    {
        if self.bits >= SIGN_BIT {
            -((self.bits - SIGN_BIT) as i64)
        } else {
            self.bits as i64
        }
    }

    /// Numeric `self < other`.
    pub fn less_than(self, other: Scalar) -> (r: bool)
        ensures
            r == self.lt(other),
    {
        if self.is_nan() || other.is_nan() {
            return false;
        }
        proof {
            lemma_units_order(self, other);
        }
        self.rank() < other.rank()
    }

    /// Numeric `self >= other`.
    pub fn at_least(self, other: Scalar) -> (r: bool)
        ensures
            r == self.ge(other),
    {
        if self.is_nan() || other.is_nan() {
            return false;
        }
        proof {
            lemma_units_order(self, other);
        }
        self.rank() >= other.rank()
    }

    /// The magnitude of the number.
    pub fn abs(self) -> (r: Scalar)
        ensures
            r == self.absolute(),
    {
        if self.bits >= SIGN_BIT {
            Scalar { bits: self.bits - SIGN_BIT }
        } else {
            self
        }
    }

    /// The number limited to the range from `low` to `high`.
    pub fn clamp(self, low: Scalar, high: Scalar) -> (r: Scalar)
        requires
            high.ge(low),
        ensures
            r == self.limited(low, high),
    {
        if self.less_than(low) {
            low
        } else if high.less_than(self) {
            high
        } else {
            self
        }
    }

    /// The lesser of the two numbers; where one of them is not a number, the
    /// other one.
    pub fn min(self, other: Scalar) -> (r: Scalar)
        ensures
            r == self || r == other,
            self.nan() ==> r == other,
            other.nan() ==> r == self || self.nan(),
            !self.nan() && !other.nan() ==> r.units() <= self.units() && r.units()
                <= other.units(),
    {
        if self.is_nan() || other.less_than(self) {
            other
        } else {
            self
        }
    }

    /// The greater of the two numbers; where one of them is not a number, the
    /// other one.
    pub fn max(self, other: Scalar) -> (r: Scalar)
        ensures
            r == self || r == other,
            self.nan() ==> r == other,
            other.nan() ==> r == self || self.nan(),
            !self.nan() && !other.nan() ==> r.units() >= self.units() && r.units()
                >= other.units(),
    {
        if self.is_nan() || self.less_than(other) {
            other
        } else {
            self
        }
    }
}

/// A larger pattern denotes a larger magnitude.
proof fn lemma_magnitude_increases(a: int, b: int)
    requires
        0 <= a < b,
    ensures
        0 <= magnitude_units(a) < magnitude_units(b),
{
    let ea = a / 0x80_0000;
    let eb = b / 0x80_0000;
    let fa = a % 0x80_0000;
    let fb = b % 0x80_0000;
    assert(a == ea * 0x80_0000 + fa && b == eb * 0x80_0000 + fb);
    assert(0 <= ea <= eb);
    if ea > 0 {
        lemma_pow2_pos((ea - 1) as nat);
        let p = pow2((ea - 1) as nat) as int;
        assert(0 <= (0x80_0000 + fa) * p) by (nonlinear_arith)
            requires
                p > 0,
                fa >= 0,
        ;
        if ea == eb {
            assert((0x80_0000 + fa) * p < (0x80_0000 + fb) * p) by (nonlinear_arith)
                requires
                    p > 0,
                    fa < fb,
            ;
        } else {
            lemma_pow2_adds(1, (ea - 1) as nat);
            assert(pow2(1) == 2) by {
                vstd::arithmetic::power2::lemma2_to64();
            }
            if ea < eb - 1 {
                lemma_pow2_strictly_increases(ea as nat, (eb - 1) as nat);
            }
            let q = pow2((eb - 1) as nat) as int;
            assert(q >= 2 * p);
            assert((0x80_0000 + fa) * p < (0x80_0000 + fb) * q) by (nonlinear_arith)
                requires
                    p > 0,
                    q >= 2 * p,
                    0 <= fa < 0x80_0000,
                    0 <= fb,
            ;
        }
    } else if eb > 0 {
        lemma_pow2_pos((eb - 1) as nat);
        let q = pow2((eb - 1) as nat) as int;
        assert((0x80_0000 + fb) * q >= 0x80_0000) by (nonlinear_arith)
            requires
                q >= 1,
                fb >= 0,
        ;
    }
}

/// The numbers order as the signed patterns do.
proof fn lemma_units_order(a: Scalar, b: Scalar)
    ensures
        ({
            let ra = if a.negative() {
                -a.pattern()
            } else {
                a.pattern()
            };
            let rb = if b.negative() {
                -b.pattern()
            } else {
                b.pattern()
            };
            &&& ra < rb <==> a.units() < b.units()
            &&& ra == rb <==> a.units() == b.units()
        }),
{
    assert(magnitude_units(0) == 0);
    if a.pattern() > 0 {
        lemma_magnitude_increases(0, a.pattern());
    }
    if b.pattern() > 0 {
        lemma_magnitude_increases(0, b.pattern());
    }
    if a.pattern() < b.pattern() {
        lemma_magnitude_increases(a.pattern(), b.pattern());
    }
    if b.pattern() < a.pattern() {
        lemma_magnitude_increases(b.pattern(), a.pattern());
    }
}

/// How many units a pattern denotes whose significand is `n` times a power of
/// two.
pub proof fn lemma_units_of_pattern(s: Scalar, n: int, shift: nat)
    requires
        !s.negative(),
        s.bits / 0x80_0000 >= 1,
        0x80_0000 + s.bits % 0x80_0000 == n * pow2(shift),
    ensures
        s.units() == n * pow2((shift + s.bits / 0x80_0000 - 1) as nat),
{
    let e = (s.bits / 0x80_0000 - 1) as nat;
    lemma_pow2_adds(shift, e);
    let a = pow2(shift) as int;
    let b = pow2(e) as int;
    assert((n * a) * b == n * (a * b)) by (nonlinear_arith);
}

/// Zero lies below every number without a sign.
pub proof fn lemma_zero_below_positive(a: Scalar)
    requires
        !a.nan(),
        !a.negative(),
    ensures
        (Scalar { bits: 0 }).units() == 0,
        a.units() >= 0,
        a.ge(Scalar { bits: 0 }),
{
    assert(magnitude_units(0) == 0);
    if a.pattern() > 0 {
        lemma_magnitude_increases(0, a.pattern());
    }
}

/// A number with a sign is at most one without.
pub proof fn lemma_negative_below_positive(low: Scalar, high: Scalar)
    requires
        !low.nan(),
        low.negative(),
        !high.nan(),
        !high.negative(),
    ensures
        high.ge(low),
{
    lemma_units_order(low, high);
}

/// Numeric comparison is a total order on the numbers: of two of them, exactly
/// one of `a < b` and `a >= b` holds, and neither holds of what is not a
/// number.
pub proof fn law_comparisons_are_opposite(a: Scalar, b: Scalar)
    ensures
        !a.nan() && !b.nan() ==> (a.lt(b) <==> !a.ge(b)),
        a.nan() || b.nan() ==> !a.lt(b) && !a.ge(b),
{
}

/// Equality is what the order leaves: numbers are equal exactly when neither is
/// less. The two zeros are equal, and what is not a number differs even from
/// itself.
pub proof fn law_equality_is_numeric(a: Scalar, b: Scalar)
    ensures
        !a.nan() && !b.nan() ==> (a.same(b) <==> !a.lt(b) && !b.lt(a)),
        a.nan() ==> !a.same(a) && !a.same(b) && !b.same(a),
        (Scalar { bits: 0 }).same(Scalar { bits: SIGN_BIT }),
{
    assert(magnitude_units(0) == 0);
}

/// Taking the magnitude drops the sign of the number and nothing else.
pub proof fn law_absolute_value(a: Scalar)
    ensures
        a.absolute().nan() == a.nan(),
        a.absolute().units() == if a.units() < 0 {
            -a.units()
        } else {
            a.units()
        },
{
    if a.pattern() > 0 {
        lemma_magnitude_increases(0, a.pattern());
    }
}

/// A number that has been limited lies in the range, and one that lay in the
/// range is unchanged.
pub proof fn law_clamp_stays_in_range(a: Scalar, low: Scalar, high: Scalar)
    requires
        high.ge(low),
        !a.nan(),
    ensures
        low.units() <= a.limited(low, high).units() <= high.units(),
        !a.limited(low, high).nan(),
        low.units() <= a.units() <= high.units() ==> a.limited(low, high) == a,
{
}

/// Which patterns are not numbers, by their bits alone.
pub proof fn law_not_a_number_by_bits(a: Scalar, b: Scalar64)
    ensures
        a.nan() <==> 0x7f80_0000 < a.bits < 0x8000_0000 || 0xff80_0000 < a.bits,
        b.nan() <==> 0x7ff0_0000_0000_0000 < b.bits < 0x8000_0000_0000_0000
            || 0xfff0_0000_0000_0000 < b.bits,
{
}

/// Numbers without a sign are ordered as their bits are, those with a sign the
/// other way round, and one with a sign lies below one without unless both are
/// zero.
pub proof fn law_order_by_bits(a: Scalar, b: Scalar)
    requires
        !a.nan(),
        !b.nan(),
    ensures
        a.bits < 0x8000_0000 && b.bits < 0x8000_0000 ==> (a.units() < b.units() <==> a.bits
            < b.bits),
        a.bits >= 0x8000_0000 && b.bits >= 0x8000_0000 ==> (a.units() < b.units() <==> a.bits
            > b.bits),
        a.bits >= 0x8000_0000 && b.bits < 0x8000_0000 ==> (a.units() < b.units() <==> a.bits
            != 0x8000_0000 || b.bits != 0),
        a.bits < 0x8000_0000 && b.bits >= 0x8000_0000 ==> a.units() >= b.units(),
        a.bits == b.bits ==> a.units() == b.units(),
        a.lt(b) <==> a.units() < b.units(),
        a.ge(b) <==> a.units() >= b.units(),
        a.same(b) <==> a.units() == b.units(),
{
    lemma_units_order(a, b);
    lemma_units_order(b, a);
}

/// Nothing compares with what is not a number.
pub proof fn law_nothing_compares_with_no_number(a: Scalar, b: Scalar)
    requires
        a.nan() || b.nan(),
    ensures
        !a.lt(b),
        !b.lt(a),
        !a.ge(b),
        !b.ge(a),
        !a.same(b),
{
}

/// Equal double-precision patterns denote the same number unless they denote
/// none; different ones do so only if they are the two zeros.
pub proof fn law_wide_equality_by_bits(a: Scalar64, b: Scalar64)
    ensures
        a.nan() || b.nan() ==> !a.same(b),
        !a.nan() && !b.nan() ==> (a.same(b) <==> a.bits == b.bits || (a.bits == 0 && b.bits
            == 0x8000_0000_0000_0000) || (a.bits == 0x8000_0000_0000_0000 && b.bits == 0)),
{
}

/// Taking the magnitude clears the sign bit and leaves the others.
pub proof fn law_absolute_value_by_bits(a: Scalar)
    ensures
        a.bits < 0x8000_0000 ==> a.absolute().bits == a.bits,
        a.bits >= 0x8000_0000 ==> a.absolute().bits == a.bits - 0x8000_0000,
{
}

/// What lies within the limits keeps its bits; what lies below them becomes the
/// lower limit and what lies above the upper one; what is not a number stays.
pub proof fn law_limits_bind_only_outside(a: Scalar, low: Scalar, high: Scalar)
    requires
        !low.nan(),
        !high.nan(),
        low.units() <= high.units(),
    ensures
        a.nan() ==> a.limited(low, high).bits == a.bits,
        !a.nan() && low.units() <= a.units() <= high.units() ==> a.limited(low, high).bits
            == a.bits,
        !a.nan() && a.units() < low.units() ==> a.limited(low, high).bits == low.bits,
        !a.nan() && a.units() > high.units() ==> a.limited(low, high).bits == high.bits,
{
}

/// `==` on numbers: two are equal if both are numbers and have the same bits, or
/// both are zeros. What is not a number equals nothing.
pub proof fn law_equals_by_bits(a: Scalar, b: Scalar, c: Scalar64, d: Scalar64)
    ensures
        PartialEqSpec::eq_spec(&a, &b) <==> !a.nan() && !b.nan() && (a.bits == b.bits || (a.bits
            == 0 && b.bits == 0x8000_0000) || (a.bits == 0x8000_0000 && b.bits == 0)),
        PartialEqSpec::eq_spec(&c, &d) <==> !c.nan() && !d.nan() && (c.bits == d.bits || (c.bits
            == 0 && d.bits == 0x8000_0000_0000_0000) || (c.bits == 0x8000_0000_0000_0000 && d.bits
            == 0)),
{
    if !a.nan() && !b.nan() {
        law_order_by_bits(a, b);
        law_order_by_bits(b, a);
    }
}

} // verus!
