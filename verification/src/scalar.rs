//! Fixed-point scalars: signed values with sixteen fractional bits that
//! saturate at the ends of their range instead of overflowing.
use vstd::prelude::*;

verus! {

/// The raw value that stands for 1.
pub const ONE_RAW: i64 = 65536;

/// The largest raw magnitude a scalar can hold (16384 in real units).
pub const LIMIT_RAW: i64 = 0x4000_0000;

/// `x` brought into the representable range.
pub open spec fn clamp(x: int) -> int {
    if x < -(LIMIT_RAW as int) {
        -(LIMIT_RAW as int)
    } else if x > LIMIT_RAW as int {
        LIMIT_RAW as int
    } else {
        x
    }
}

/// Whether a raw value lies in the representable range.
pub open spec fn representable(x: int) -> bool {
    -(LIMIT_RAW as int) <= x <= LIMIT_RAW as int
}

/// The quotient of `a` by a positive `b`, rounded toward zero.
pub open spec fn trunc_div(a: int, b: int) -> int {
    if a >= 0 {
        a / b
    } else {
        -((-a) / b)
    }
}

/// `r` is the integer square root of `n`, rounded down.
pub open spec fn is_floor_sqrt(n: int, r: int) -> bool {
    0 <= r && r * r <= n && n < (r + 1) * (r + 1)
}

/// The integer square root of a non-negative `n`, rounded down.
pub open spec fn floor_sqrt(n: int) -> int {
    choose|r: int| is_floor_sqrt(n, r)
}

pub open spec fn add_spec(a: int, b: int) -> int {
    clamp(a + b)
}

pub open spec fn sub_spec(a: int, b: int) -> int {
    clamp(a - b)
}

pub open spec fn neg_spec(a: int) -> int {
    clamp(-a)
}

/// The product of two raw values, rescaled and rounded toward zero.
pub open spec fn mul_spec(a: int, b: int) -> int {
    clamp(trunc_div(a * b, ONE_RAW as int))
}

/// The quotient of two raw values, rescaled and rounded toward zero.
/// Dividing by zero saturates toward the sign of the dividend.
pub open spec fn div_spec(a: int, b: int) -> int {
    if b > 0 {
        clamp(trunc_div(a * ONE_RAW, b))
    } else if b < 0 {
        clamp(trunc_div(-a * ONE_RAW, -b))
    } else {
        clamp(a * LIMIT_RAW)
    }
}

/// The square root of a raw value, rounded down; zero for negative input.
pub open spec fn sqrt_spec(a: int) -> int {
    if a <= 0 {
        0
    } else {
        floor_sqrt(a * ONE_RAW)
    }
}

/// The fifth power of a raw value, by repeated rescaled multiplication.
pub open spec fn pow5_spec(a: int) -> int {
    let a2 = mul_spec(a, a);
    let a4 = mul_spec(a2, a2);
    mul_spec(a4, a)
}

pub proof fn lemma_square_monotonic(x: int, y: int)
    requires
        0 <= x <= y,
    ensures
        x * x <= y * y,
{
    assert(x * x <= y * y) by (nonlinear_arith)
        requires
            0 <= x <= y,
    ;
}

/// A product is bounded by the product of its factors' bounds.
pub proof fn lemma_mul_bound(a: int, b: int, bound_a: int, bound_b: int)
    requires
        -bound_a <= a <= bound_a,
        -bound_b <= b <= bound_b,
    ensures
        -(bound_a * bound_b) <= a * b <= bound_a * bound_b,
{
    assert(-(bound_a * bound_b) <= a * b <= bound_a * bound_b) by (nonlinear_arith)
        requires
            -bound_a <= a <= bound_a,
            -bound_b <= b <= bound_b,
    ;
}

/// An integer square root is unique: any `r` that brackets `n` is `floor_sqrt(n)`.
pub proof fn lemma_floor_sqrt_unique(n: int, r: int)
    requires
        is_floor_sqrt(n, r),
    ensures
        floor_sqrt(n) == r,
{
    let c = floor_sqrt(n);
    assert(is_floor_sqrt(n, c));
    if c < r {
        lemma_square_monotonic(c + 1, r);
    } else if r < c {
        lemma_square_monotonic(r + 1, c);
    }
}

/// Every non-negative integer has an integer square root.
pub proof fn lemma_floor_sqrt_exists(n: int)
    requires
        0 <= n,
    ensures
        is_floor_sqrt(n, floor_sqrt(n)),
    decreases n,
{
    if n == 0 {
        assert(is_floor_sqrt(0, 0));
    } else {
        lemma_floor_sqrt_exists(n - 1);
        let r = floor_sqrt(n - 1);
        if (r + 1) * (r + 1) <= n {
            assert((r + 1) * (r + 1) == n);
            assert(n < (r + 2) * (r + 2)) by (nonlinear_arith)
                requires
                    (r + 1) * (r + 1) == n,
                    0 <= r,
            ;
            assert(is_floor_sqrt(n, r + 1));
        } else {
            assert(is_floor_sqrt(n, r));
        }
    }
}

/// The integer square root does not exceed that of a larger number.
pub proof fn lemma_floor_sqrt_monotonic(m: int, n: int, rm: int, rn: int)
    requires
        m <= n,
        is_floor_sqrt(m, rm),
        is_floor_sqrt(n, rn),
    ensures
        rm <= rn,
{
    if rn < rm {
        lemma_square_monotonic(rn + 1, rm);
    }
}

/// Clamps a wide integer into the representable range.
pub fn clamp_wide(x: i128) -> (r: i64)
    ensures
        r == clamp(x as int),
        representable(r as int),
{
    if x < -(LIMIT_RAW as i128) {
        -LIMIT_RAW
    } else if x > LIMIT_RAW as i128 {
        LIMIT_RAW
    } else {
        x as i64
    }
}

/// Divides by a positive divisor, rounding toward zero.
pub fn div_wide(a: i128, b: i128) -> (q: i128)
    requires
        b > 0,
    ensures
        q == trunc_div(a as int, b as int),
{
    a / b
}

/// The integer square root of `n`, rounded down, found by bisection.
pub fn sqrt_wide(n: u128) -> (r: u128)
    ensures
        is_floor_sqrt(n as int, r as int),
        r == floor_sqrt(n as int),
        r < 0x1_0000_0000_0000_0000,
{
    let mut lo: u128 = 0;
    let mut hi: u128 = 0x1_0000_0000_0000_0000;
    assert(n < hi * hi) by (nonlinear_arith)
        requires
            hi == 0x1_0000_0000_0000_0000,
            n <= u128::MAX,
    ;
    while hi - lo > 1
        invariant
            lo < hi <= 0x1_0000_0000_0000_0000,
            lo * lo <= n < hi * hi,
        decreases hi - lo,
    {
        let mid: u128 = lo + (hi - lo) / 2;
        assert(mid * mid <= 0xffff_ffff_ffff_ffff * 0xffff_ffff_ffff_ffff) by (nonlinear_arith)
            requires
                0 <= mid <= 0xffff_ffff_ffff_ffff,
        ;
        if mid * mid <= n {
            lo = mid;
        } else {
            hi = mid;
        }
    }
    proof {
        lemma_floor_sqrt_unique(n as int, lo as int);
    }
    lo
}

/// A fixed-point number: `raw / 65536`, with `|raw|` at most `LIMIT_RAW`.
#[derive(Clone, Copy, Debug, PartialEq, Eq)]
pub struct Scalar {
    raw: i64,
}

impl View for Scalar {
    type V = int;

    closed spec fn view(&self) -> int {
        self.raw as int
    }
}

impl Scalar {
    #[verifier::type_invariant]
    spec fn in_range(self) -> bool {
        -LIMIT_RAW <= self.raw <= LIMIT_RAW
    }

    /// The raw value, which is always representable.
    pub fn raw(&self) -> (r: i64)
        ensures
            r == self@,
            representable(r as int),
    {
        proof {
            use_type_invariant(self);
        }
        self.raw
    }

    /// The scalar with the given raw value, saturated.
    pub fn from_raw(raw: i64) -> (s: Scalar)
        ensures
            s@ == clamp(raw as int),
    {
        Scalar { raw: clamp_wide(raw as i128) }
    }

    /// The scalar with the given wide raw value, saturated.
    pub fn from_wide(raw: i128) -> (s: Scalar)
        ensures
            s@ == clamp(raw as int),
    {
        Scalar { raw: clamp_wide(raw) }
    }

    /// The scalar nearest to `num / den`, rounded toward zero and saturated.
    pub fn from_ratio(num: i64, den: i64) -> (s: Scalar)
        ensures
            s@ == div_spec(num as int, den as int),
    {
        let n: i128 = num as i128;
        let d: i128 = den as i128;
        if d > 0 {
            Scalar::from_wide(div_wide(n * 65536, d))
        } else if d < 0 {
            Scalar::from_wide(div_wide(-(n * 65536), -d))
        } else {
            Scalar::from_wide(n * 0x4000_0000)
        }
    }

    pub fn zero() -> (s: Scalar)
        ensures
            s@ == 0,
    {
        Scalar { raw: 0 }
    }

    pub fn one() -> (s: Scalar)
        ensures
            s@ == ONE_RAW,
    {
        Scalar { raw: ONE_RAW }
    }

    pub fn add(self, rhs: Scalar) -> (s: Scalar)
        ensures
            s@ == add_spec(self@, rhs@),
    {
        Scalar::from_wide(self.raw() as i128 + rhs.raw() as i128)
    }

    pub fn sub(self, rhs: Scalar) -> (s: Scalar)
        ensures
            s@ == sub_spec(self@, rhs@),
    {
        Scalar::from_wide(self.raw() as i128 - rhs.raw() as i128)
    }

    pub fn neg(self) -> (s: Scalar)
        ensures
            s@ == neg_spec(self@),
            s@ == -self@,
    {
        Scalar::from_wide(-(self.raw() as i128))
    }

    pub fn mul(self, rhs: Scalar) -> (s: Scalar)
        ensures
            s@ == mul_spec(self@, rhs@),
    {
        let a: i128 = self.raw() as i128;
        let b: i128 = rhs.raw() as i128;
        assert(-0x1000_0000_0000_0000 <= a * b <= 0x1000_0000_0000_0000) by (nonlinear_arith)
            requires
                -0x4000_0000 <= a <= 0x4000_0000,
                -0x4000_0000 <= b <= 0x4000_0000,
        ;
        Scalar::from_wide(div_wide(a * b, ONE_RAW as i128))
    }

    pub fn div(self, rhs: Scalar) -> (s: Scalar)
        ensures
            s@ == div_spec(self@, rhs@),
    {
        let a: i128 = self.raw() as i128;
        let b: i128 = rhs.raw() as i128;
        if b > 0 {
            Scalar::from_wide(div_wide(a * 65536, b))
        } else if b < 0 {
            Scalar::from_wide(div_wide(-(a * 65536), -b))
        } else {
            Scalar::from_wide(a * 0x4000_0000)
        }
    }

    pub fn sqrt(self) -> (s: Scalar)
        ensures
            s@ == sqrt_spec(self@),
            0 <= s@,
    {
        let a: i64 = self.raw();
        if a <= 0 {
            Scalar::zero()
        } else {
            let n: u128 = (a as u128) * 65536;
            let r: u128 = sqrt_wide(n);
            proof {
                if r > 0x4000_0000 {
                    lemma_square_monotonic(0x4000_0000, r as int);
                }
            }
            Scalar { raw: r as i64 }
        }
    }

    pub fn pow5(self) -> (s: Scalar)
        ensures
            s@ == pow5_spec(self@),
    {
        let a2 = self.mul(self);
        let a4 = a2.mul(a2);
        a4.mul(self)
    }
}

} // verus!
