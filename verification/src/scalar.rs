//! Decimal fixed-point numbers with saturating arithmetic.
//!
//! A [`Scalar`] counts millionths. Every operation rounds its exact result
//! toward zero and clamps it to `-LIMIT ..= LIMIT` millionths; the two ends of
//! that range play the part of the infinities.
use vstd::prelude::*;

verus! {

/// How many raw units make one.
pub const SCALE: i64 = 1_000_000;

/// The largest magnitude, in raw units, that an operation yields.
pub const LIMIT: i64 = 9_223_372_036_854_775_807;

/// `v` clamped to `-LIMIT ..= LIMIT`.
pub open spec fn saturate(v: int) -> int {
    if v > LIMIT {
        LIMIT as int
    } else if v < -LIMIT {
        -LIMIT
    } else {
        v
    }
}

/// The quotient of `n` by `d`, rounded toward zero (`d` is positive).
pub open spec fn quotient(n: int, d: int) -> int {
    if n >= 0 {
        n / d
    } else {
        -((-n) / d)
    }
}

/// `r` is the integer part of the square root of `n`.
pub open spec fn is_floor_sqrt(n: int, r: int) -> bool {
    0 <= r && r * r <= n < (r + 1) * (r + 1)
}

/// The integer part of the square root of `n` (`n` is not negative).
pub open spec fn floor_sqrt(n: int) -> int {
    choose|r: int| is_floor_sqrt(n, r)
}

/// A number counted in millionths.
#[derive(Clone, Copy, Debug, PartialEq, Eq, Structural)]
pub struct Scalar {
    pub raw: i64,
}

/// The scalar of `v` raw units, clamped into range.
pub open spec fn units(v: int) -> Scalar {
    Scalar { raw: saturate(v) as i64 }
}

/// At most one integer is the integer part of the square root of `n`.
pub proof fn lemma_floor_sqrt_unique(n: int, r: int)
    requires
        is_floor_sqrt(n, r),
    ensures
        floor_sqrt(n) == r,
{
    let s = floor_sqrt(n);
    assert(is_floor_sqrt(n, s));
    if s < r {
        assert((s + 1) * (s + 1) <= r * r) by (nonlinear_arith)
            requires
                0 <= s + 1 <= r,
        ;
    }
    if r < s {
        assert((r + 1) * (r + 1) <= s * s) by (nonlinear_arith)
            requires
                0 <= r + 1 <= s,
        ;
    }
}

/// The integer part of the square root of `n`.
fn integer_sqrt(n: u128) -> (r: u64)
    requires
        n < 0x8_0000_0000_0000_0000_0000,
    ensures
        is_floor_sqrt(n as int, r as int),
        r < 0x400_0000_0000,
{
    let mut lo: u128 = 0;
    let mut hi: u128 = 0x400_0000_0000;
    assert(0x400_0000_0000int * 0x400_0000_0000int == 0x10_0000_0000_0000_0000_0000int) by (nonlinear_arith);
    while hi - lo > 1
        invariant
            lo < hi <= 0x400_0000_0000,
            lo * lo <= n < hi * hi,
        decreases hi - lo,
    {
        let mid: u128 = lo + (hi - lo) / 2;
        assert(mid * mid < 0x10_0000_0000_0000_0000_0000) by (nonlinear_arith)
            requires
                0 <= mid < 0x400_0000_0000,
        ;
        if mid * mid <= n {
            lo = mid;
        } else {
            hi = mid;
        }
    }
    lo as u64
}

/// The scalar of `v` raw units, clamped into range.
fn clamp(v: i128) -> (r: Scalar)
    ensures
        r == units(v as int),
{
    if v > LIMIT as i128 {
        Scalar { raw: LIMIT }
    } else if v < -(LIMIT as i128) {
        Scalar { raw: -LIMIT }
    } else {
        Scalar { raw: v as i64 }
    }
}

/// `a` divided by `b`.
fn divide(a: Scalar, b: Scalar) -> (r: Scalar)
    ensures
        r == a.over(b),
{
    if b.raw == 0 {
        if a.raw > 0 {
            Scalar { raw: LIMIT }
        } else if a.raw < 0 {
            Scalar { raw: -LIMIT }
        } else {
            Scalar { raw: 0 }
        }
    } else {
        let n: i128 = a.raw as i128 * SCALE as i128;
        let d: i128 = b.raw as i128;
        if d > 0 {
            clamp(n / d)
        } else {
            clamp((-n) / (-d))
        }
    }
}

impl Scalar {
    /// Whether the value lies in `-LIMIT ..= LIMIT`, as every result of an
    /// operation does.
    pub open spec fn in_range(self) -> bool {
        -LIMIT <= self.raw
    }

    /// The negation.
    pub open spec fn negated(self) -> Scalar {
        units(-self.raw)
    }

    /// The sum with `rhs`.
    pub open spec fn plus(self, rhs: Scalar) -> Scalar {
        units(self.raw + rhs.raw)
    }

    /// The difference from `rhs`.
    pub open spec fn minus(self, rhs: Scalar) -> Scalar {
        units(self.raw - rhs.raw)
    }

    /// The product with `rhs`, rounded toward zero.
    pub open spec fn times(self, rhs: Scalar) -> Scalar {
        units(quotient(self.raw * rhs.raw, SCALE as int))
    }

    /// The quotient by `rhs`, rounded toward zero. Division by zero gives the
    /// infinity of the dividend's sign, and zero for a zero dividend.
    pub open spec fn over(self, rhs: Scalar) -> Scalar {
        if rhs.raw == 0 {
            if self.raw > 0 {
                units(LIMIT as int)
            } else if self.raw < 0 {
                units(-LIMIT)
            } else {
                units(0)
            }
        } else if rhs.raw > 0 {
            units(quotient(self.raw * SCALE, rhs.raw as int))
        } else {
            units(quotient(-(self.raw * SCALE), -rhs.raw))
        }
    }

    /// Zero.
    pub open spec fn spec_zero() -> Scalar {
        Scalar { raw: 0 }
    }

    /// One.
    pub open spec fn spec_one() -> Scalar {
        Scalar { raw: SCALE }
    }

    /// The upper end of the range, which stands for positive infinity.
    pub open spec fn spec_infinity() -> Scalar {
        Scalar { raw: LIMIT }
    }

    /// The whole number `n`, clamped into range.
    pub open spec fn spec_from_int(n: i64) -> Scalar {
        units(n * SCALE)
    }

    /// The fraction `num / den`, rounded toward zero.
    pub open spec fn spec_from_ratio(num: i64, den: i64) -> Scalar {
        Scalar::spec_from_int(num).over(Scalar::spec_from_int(den))
    }

    /// The square root, rounded down (of a value that is not negative).
    pub open spec fn spec_sqrt(self) -> Scalar {
        units(floor_sqrt(self.raw * SCALE))
    }

    /// The integer part, clamped to `0 ..= u32::MAX`.
    pub open spec fn spec_to_u32(self) -> u32 {
        let whole = quotient(self.raw as int, SCALE as int);
        if whole < 0 {
            0
        } else if whole > u32::MAX {
            u32::MAX
        } else {
            whole as u32
        }
    }

    /// Zero.
    #[verifier::when_used_as_spec(spec_zero)]
    pub fn zero() -> (r: Scalar)
        ensures
            r == Scalar::spec_zero(),
    {
        Scalar { raw: 0 }
    }

    /// One.
    #[verifier::when_used_as_spec(spec_one)]
    pub fn one() -> (r: Scalar)
        ensures
            r == Scalar::spec_one(),
    {
        Scalar { raw: SCALE }
    }

    /// The upper end of the range, which stands for positive infinity.
    #[verifier::when_used_as_spec(spec_infinity)]
    pub fn infinity() -> (r: Scalar)
        ensures
            r == Scalar::spec_infinity(),
    {
        Scalar { raw: LIMIT }
    }

    /// The whole number `n`, clamped into range.
    #[verifier::when_used_as_spec(spec_from_int)]
    pub fn from_int(n: i64) -> (r: Scalar)
        ensures
            r == Scalar::spec_from_int(n),
    {
        let wide: i128 = n as i128 * SCALE as i128;
        clamp(wide)
    }

    /// The fraction `num / den`, rounded toward zero.
    #[verifier::when_used_as_spec(spec_from_ratio)]
    pub fn from_ratio(num: i64, den: i64) -> (r: Scalar)
        ensures
            r == Scalar::spec_from_ratio(num, den),
    {
        Scalar::from_int(num) / Scalar::from_int(den)
    }

    /// The square root, rounded down.
    #[verifier::when_used_as_spec(spec_sqrt)]
    pub fn sqrt(self) -> (r: Scalar)
        requires
            self.raw >= 0,
        ensures
            r == self.spec_sqrt(),
            0 <= r.raw,
    {
        let n: u128 = self.raw as u128 * SCALE as u128;
        let root = integer_sqrt(n);
        proof {
            lemma_floor_sqrt_unique(n as int, root as int);
        }
        Scalar { raw: root as i64 }
    }

    /// The integer part, clamped to `0 ..= u32::MAX`.
    #[verifier::when_used_as_spec(spec_to_u32)]
    pub fn to_u32(self) -> (n: u32)
        ensures
            n == self.spec_to_u32(),
    {
        let whole: i64 = self.raw / SCALE;
        if whole < 0 {
            0
        } else if whole > u32::MAX as i64 {
            u32::MAX
        } else {
            whole as u32
        }
    }
}

impl core::ops::Neg for Scalar {
    type Output = Scalar;

    /// The negation; that of `i64::MIN` raw units is the upper end of the
    /// range.
    fn neg(self) -> (r: Scalar)
        ensures
            r == self.negated(),
    {
        clamp(-(self.raw as i128))
    }
}

impl vstd::std_specs::ops::NegSpecImpl for Scalar {
    open spec fn obeys_neg_spec() -> bool {
        true
    }

    open spec fn neg_req(self) -> bool {
        true
    }

    open spec fn neg_spec(self) -> Scalar {
        self.negated()
    }
}

impl core::ops::Add for Scalar {
    type Output = Scalar;

    /// The sum, clamped into range.
    fn add(self, rhs: Scalar) -> (r: Scalar)
        ensures
            r == self.plus(rhs),
    {
        clamp(self.raw as i128 + rhs.raw as i128)
    }
}

impl vstd::std_specs::ops::AddSpecImpl for Scalar {
    open spec fn obeys_add_spec() -> bool {
        true
    }

    open spec fn add_req(self, rhs: Scalar) -> bool {
        true
    }

    open spec fn add_spec(self, rhs: Scalar) -> Scalar {
        self.plus(rhs)
    }
}

impl core::ops::Sub for Scalar {
    type Output = Scalar;

    /// The difference, clamped into range.
    fn sub(self, rhs: Scalar) -> (r: Scalar)
        ensures
            r == self.minus(rhs),
    {
        clamp(self.raw as i128 - rhs.raw as i128)
    }
}

impl vstd::std_specs::ops::SubSpecImpl for Scalar {
    open spec fn obeys_sub_spec() -> bool {
        true
    }

    open spec fn sub_req(self, rhs: Scalar) -> bool {
        true
    }

    open spec fn sub_spec(self, rhs: Scalar) -> Scalar {
        self.minus(rhs)
    }
}

impl core::ops::Mul for Scalar {
    type Output = Scalar;

    /// The product, rounded toward zero and clamped into range.
    fn mul(self, rhs: Scalar) -> (r: Scalar)
        ensures
            r == self.times(rhs),
    {
        let a: i128 = self.raw as i128;
        let b: i128 = rhs.raw as i128;
        assert(-0x4000_0000_0000_0000_0000_0000_0000_0000 <= a * b
            <= 0x4000_0000_0000_0000_0000_0000_0000_0000) by (nonlinear_arith)
            requires
                -0x8000_0000_0000_0000 <= a <= 0x8000_0000_0000_0000,
                -0x8000_0000_0000_0000 <= b <= 0x8000_0000_0000_0000,
        ;
        clamp((a * b) / (SCALE as i128))
    }
}

impl vstd::std_specs::ops::MulSpecImpl for Scalar {
    open spec fn obeys_mul_spec() -> bool {
        true
    }

    open spec fn mul_req(self, rhs: Scalar) -> bool {
        true
    }

    open spec fn mul_spec(self, rhs: Scalar) -> Scalar {
        self.times(rhs)
    }
}

impl core::ops::Div for Scalar {
    type Output = Scalar;

    /// The quotient, rounded toward zero and clamped into range. Division
    /// by zero gives the infinity of the dividend's sign, and zero for a
    /// zero dividend.
    fn div(self, rhs: Scalar) -> (r: Scalar)
        ensures
            r == self.over(rhs),
    {
        divide(self, rhs)
    }
}

impl vstd::std_specs::ops::DivSpecImpl for Scalar {
    open spec fn obeys_div_spec() -> bool {
        true
    }

    open spec fn div_req(self, rhs: Scalar) -> bool {
        true
    }

    open spec fn div_spec(self, rhs: Scalar) -> Scalar {
        self.over(rhs)
    }
}

/// Rounding toward zero keeps the order of two dividends.
pub proof fn lemma_quotient_monotone(m: int, n: int, d: int)
    requires
        m <= n,
        d > 0,
    ensures
        quotient(m, d) <= quotient(n, d),
{
    if m >= 0 {
        vstd::arithmetic::div_mod::lemma_div_is_ordered(m, n, d);
    } else if n < 0 {
        vstd::arithmetic::div_mod::lemma_div_is_ordered(-n, -m, d);
    } else {
        vstd::arithmetic::div_mod::lemma_div_is_ordered(0, -m, d);
        vstd::arithmetic::div_mod::lemma_div_is_ordered(0, n, d);
    }
}

/// Rounding toward zero commutes with negation.
pub proof fn lemma_quotient_odd(n: int, d: int)
    requires
        d > 0,
    ensures
        quotient(-n, d) == -quotient(n, d),
{
    if n == 0 {
        vstd::arithmetic::div_mod::lemma_div_is_ordered(0, 0, d);
    }
}

/// The square of a scalar is not negative.
pub proof fn lemma_square_not_negative(a: Scalar)
    ensures
        a.times(a).raw >= 0,
{
    assert(a.raw * a.raw >= 0) by (nonlinear_arith);
    assert((a.raw * a.raw) / (SCALE as int) >= 0) by (nonlinear_arith)
        requires
            a.raw * a.raw >= 0,
            SCALE > 0,
    ;
}

/// The square root is not negative.
pub proof fn lemma_sqrt_not_negative(a: Scalar)
    requires
        a.raw >= 0,
    ensures
        a.spec_sqrt().raw >= 0,
{
    lemma_floor_sqrt_exists(a.raw * SCALE);
}

/// Every number that is not negative has an integer square root.
pub proof fn lemma_floor_sqrt_exists(n: int)
    requires
        n >= 0,
    ensures
        is_floor_sqrt(n, floor_sqrt(n)),
    decreases n,
{
    if n == 0 {
        assert(is_floor_sqrt(0, 0));
    } else {
        lemma_floor_sqrt_exists(n - 1);
        let r = floor_sqrt(n - 1);
        if (r + 1) * (r + 1) <= n {
            assert((r + 1) * (r + 1) == n);
            assert(n < (r + 2) * (r + 2)) by (nonlinear_arith)
                requires
                    (r + 1) * (r + 1) == n,
                    r >= 0,
            ;
            assert(is_floor_sqrt(n, r + 1));
        } else {
            assert(r * r <= n) by (nonlinear_arith)
                requires
                    r * r <= n - 1,
            ;
            assert(is_floor_sqrt(n, r));
        }
    }
}

/// The product does not depend on the order of its factors.
pub proof fn lemma_times_commutes(a: Scalar, b: Scalar)
    ensures
        a.times(b) == b.times(a),
{
    assert(a.raw * b.raw == b.raw * a.raw) by (nonlinear_arith);
}

/// Negating a factor negates the product.
pub proof fn lemma_times_negated(a: Scalar, b: Scalar)
    requires
        a.in_range(),
    ensures
        a.negated().times(b) == a.times(b).negated(),
{
    assert((-a.raw) * b.raw == -(a.raw * b.raw)) by (nonlinear_arith);
    lemma_quotient_odd(a.raw * b.raw, SCALE as int);
}

/// Negating both terms negates the sum.
pub proof fn lemma_plus_negated(a: Scalar, b: Scalar)
    requires
        a.in_range(),
        b.in_range(),
    ensures
        a.negated().plus(b.negated()) == a.plus(b).negated(),
{
}

/// Division by a divisor that is not negative keeps the order of two
/// dividends.
pub proof fn lemma_over_monotone(p: Scalar, q: Scalar, d: Scalar)
    requires
        p.raw <= q.raw,
        d.raw >= 0,
    ensures
        p.over(d).raw <= q.over(d).raw,
{
    if d.raw > 0 {
        assert(p.raw * SCALE <= q.raw * SCALE) by (nonlinear_arith)
            requires
                p.raw <= q.raw,
                SCALE > 0,
        ;
        lemma_quotient_monotone(p.raw * SCALE, q.raw * SCALE, d.raw as int);
    }
}

} // verus!
