//! Signed fixed-point numbers with six decimal places.
//!
//! A `Fixed` stores a count of millionths in an `i64`. Every operation is
//! total: results are rounded toward zero and then saturated to the `i64`
//! range, so no operation can overflow or panic. Contracts speak of the
//! integer count of millionths, which is the view of a `Fixed`.

use vstd::prelude::*;

verus! {

/// Number of raw units in one whole.
pub const SCALE: i64 = 1_000_000;

/// The nearest integer to `x` that an `i64` can hold.
pub open spec fn saturate(x: int) -> int {
    if x < i64::MIN {
        i64::MIN as int
    } else if x > i64::MAX {
        i64::MAX as int
    } else {
        x
    }
}

/// Quotient of `n` by a positive `d`, rounded toward zero.
pub open spec fn trunc_div(n: int, d: int) -> int {
    if n >= 0 {
        n / d
    } else {
        -((-n) / d)
    }
}

/// Raw product of two raw values: exact product, rescaled, rounded toward
/// zero, saturated.
pub open spec fn mul_raw(a: int, b: int) -> int {
    saturate(trunc_div(a * b, SCALE as int))
}

/// The larger of two integers.
pub open spec fn max_int(a: int, b: int) -> int {
    if a >= b {
        a
    } else {
        b
    }
}

/// The smaller of two integers.
pub open spec fn min_int(a: int, b: int) -> int {
    if a <= b {
        a
    } else {
        b
    }
}

/// `x` limited to the interval from `lo` to `hi`; `lo` wins when the interval is empty.
pub open spec fn clamp_int(x: int, lo: int, hi: int) -> int {
    max_int(lo, min_int(x, hi))
}

/// Floor of the square root of a natural number, as a predicate on the root.
pub open spec fn is_floor_sqrt(n: int, r: int) -> bool {
    0 <= r && r * r <= n && n < (r + 1) * (r + 1)
}

/// Raw square root of a raw value that is not negative, rounded down.
pub open spec fn sqrt_raw(x: int) -> int {
    choose|r: int| #[trigger] is_floor_sqrt(x * SCALE, r)
}

/// A fixed-point number: `raw` millionths.
#[derive(Clone, Copy, Debug, PartialEq, Eq, Structural, Hash)]
pub struct Fixed {
    pub raw: i64,
}

impl View for Fixed {
    type V = int;

    open spec fn view(&self) -> int {
        self.raw as int
    }
}

/// The `Fixed` with `raw` millionths, for `raw` in the `i64` range.
pub open spec fn fixed(raw: int) -> Fixed {
    Fixed { raw: raw as i64 }
}

impl Fixed {
    /// Zero.
    pub open spec fn spec_zero() -> Fixed {
        fixed(0)
    }

    /// One.
    pub open spec fn spec_one() -> Fixed {
        fixed(SCALE as int)
    }

    /// One half.
    pub open spec fn spec_half() -> Fixed {
        fixed(SCALE / 2)
    }

    /// Saturating sum.
    pub open spec fn spec_add(self, other: Fixed) -> Fixed {
        fixed(saturate(self@ + other@))
    }

    /// Saturating difference.
    pub open spec fn spec_sub(self, other: Fixed) -> Fixed {
        fixed(saturate(self@ - other@))
    }

    /// Saturating negation.
    pub open spec fn spec_neg(self) -> Fixed {
        fixed(saturate(-self@))
    }

    /// Product, rounded toward zero and saturated.
    pub open spec fn spec_mul(self, other: Fixed) -> Fixed {
        fixed(mul_raw(self@, other@))
    }

    /// The larger of the two.
    pub open spec fn spec_max(self, other: Fixed) -> Fixed {
        if self@ >= other@ {
            self
        } else {
            other
        }
    }

    /// The smaller of the two.
    pub open spec fn spec_min(self, other: Fixed) -> Fixed {
        if self@ <= other@ {
            self
        } else {
            other
        }
    }

    /// `self` limited to the interval from `lo` to `hi`; `lo` wins when the
    /// interval is empty.
    pub open spec fn spec_clamp(self, lo: Fixed, hi: Fixed) -> Fixed {
        self.spec_min(hi).spec_max(lo)
    }
}

/// Narrows a wide intermediate result to the `i64` range.
pub fn saturate_i128(x: i128) -> (r: i64)
    ensures
        r == saturate(x as int),
{
    if x < i64::MIN as i128 {
        i64::MIN
    } else if x > i64::MAX as i128 {
        i64::MAX
    } else {
        x as i64
    }
}

/// The product of two `i64` values always fits an `i128`.
pub proof fn lemma_product_fits(a: int, b: int)
    requires
        i64::MIN <= a <= i64::MAX,
        i64::MIN <= b <= i64::MAX,
    ensures
        -0x4000_0000_0000_0000_0000_0000_0000_0000 <= a * b
            <= 0x4000_0000_0000_0000_0000_0000_0000_0000,
{
    assert(-0x4000_0000_0000_0000_0000_0000_0000_0000 <= a * b
        <= 0x4000_0000_0000_0000_0000_0000_0000_0000) by (nonlinear_arith)
        requires
            -0x8000_0000_0000_0000 <= a <= 0x7fff_ffff_ffff_ffff,
            -0x8000_0000_0000_0000 <= b <= 0x7fff_ffff_ffff_ffff,
    ;
}

/// A number has at most one floor square root.
pub proof fn lemma_floor_sqrt_unique(n: int, a: int, b: int)
    requires
        is_floor_sqrt(n, a),
        is_floor_sqrt(n, b),
    ensures
        a == b,
{
    assert(a == b) by (nonlinear_arith)
        requires
            0 <= a,
            0 <= b,
            a * a <= n,
            n < (a + 1) * (a + 1),
            b * b <= n,
            n < (b + 1) * (b + 1),
    ;
}

/// Floor square root of `n` by bisection.
fn floor_sqrt(n: u128) -> (r: u128)
    requires
        n < 0x8_0000_0000_0000_0000_0000,
    ensures
        is_floor_sqrt(n as int, r as int),
        r < 0x400_0000_0000,
{
    let mut lo: u128 = 0;
    let mut hi: u128 = 0x400_0000_0000;
    assert(0x400_0000_0000 * 0x400_0000_0000 > n) by (nonlinear_arith)
        requires
            n < 0x8_0000_0000_0000_0000_0000,
    ;
    while hi - lo > 1
        invariant
            lo < hi <= 0x400_0000_0000,
            lo * lo <= n,
            n < hi * hi,
        decreases hi - lo,
    {
        let mid: u128 = lo + (hi - lo) / 2;
        assert(mid * mid < 0x400_0000_0000 * 0x400_0000_0000) by (nonlinear_arith)
            requires
                0 <= mid < 0x400_0000_0000,
        ;
        if mid * mid <= n {
            lo = mid;
        } else {
            hi = mid;
        }
    }
    lo
}

impl Fixed {
    /// The number with the given count of millionths.
    pub fn from_raw(raw: i64) -> (r: Fixed)
        ensures
            r@ == raw,
    {
        Fixed { raw }
    }

    /// The whole number `n`, saturated.
    pub fn from_int(n: i64) -> (r: Fixed)
        ensures
            r@ == saturate(n * SCALE),
    {
        proof {
            lemma_product_fits(n as int, SCALE as int);
        }
        let wide: i128 = (n as i128) * (SCALE as i128);
        Fixed { raw: saturate_i128(wide) }
    }

    /// Zero.
    pub fn zero() -> (r: Fixed)
        ensures
            r == Fixed::spec_zero(),
            r@ == 0,
    {
        Fixed { raw: 0 }
    }

    /// One.
    pub fn one() -> (r: Fixed)
        ensures
            r == Fixed::spec_one(),
            r@ == SCALE,
    {
        Fixed { raw: SCALE }
    }

    /// One half.
    pub fn half() -> (r: Fixed)
        ensures
            r == Fixed::spec_half(),
            r@ == SCALE / 2,
    {
        Fixed { raw: SCALE / 2 }
    }

    /// The count of millionths.
    pub fn raw(self) -> (r: i64)
        ensures
            r == self@,
    {
        self.raw
    }

    /// Saturating sum.
    pub fn add(self, other: Fixed) -> (r: Fixed)
        ensures
            r == self.spec_add(other),
            r@ == saturate(self@ + other@),
    {
        Fixed { raw: saturate_i128(self.raw as i128 + other.raw as i128) }
    }

    /// Saturating difference.
    pub fn sub(self, other: Fixed) -> (r: Fixed)
        ensures
            r == self.spec_sub(other),
            r@ == saturate(self@ - other@),
    {
        Fixed { raw: saturate_i128(self.raw as i128 - other.raw as i128) }
    }

    /// Saturating negation.
    pub fn neg(self) -> (r: Fixed)
        ensures
            r == self.spec_neg(),
            r@ == saturate(-self@),
    {
        Fixed { raw: saturate_i128(-(self.raw as i128)) }
    }

    /// Product, rounded toward zero and saturated.
    pub fn mul(self, other: Fixed) -> (r: Fixed)
        ensures
            r == self.spec_mul(other),
            r@ == mul_raw(self@, other@),
    {
        proof {
            lemma_product_fits(self@, other@);
        }
        let wide: i128 = (self.raw as i128) * (other.raw as i128);
        Fixed { raw: saturate_i128(wide / (SCALE as i128)) }
    }

    /// Square root, rounded down; zero for a negative number.
    pub fn sqrt(self) -> (r: Fixed)
        ensures
            r@ == sqrt_raw(max_int(self@, 0)),
            is_floor_sqrt(max_int(self@, 0) * SCALE, r@),
    {
        let x: u128 = if self.raw > 0 { self.raw as u128 } else { 0 };
        assert(x * 1_000_000 < 0x8_0000_0000_0000_0000_0000) by (nonlinear_arith)
            requires
                0 <= x < 0x8000_0000_0000_0000,
        ;
        let root: u128 = floor_sqrt(x * 1_000_000);
        proof {
            let n = max_int(self@, 0) * SCALE;
            assert(n == x * 1_000_000);
            lemma_floor_sqrt_unique(n, root as int, sqrt_raw(max_int(self@, 0)));
        }
        Fixed { raw: root as i64 }
    }

    /// The larger of the two.
    pub fn max(self, other: Fixed) -> (r: Fixed)
        ensures
            r == self.spec_max(other),
            r@ == max_int(self@, other@),
    {
        if self.raw >= other.raw {
            self
        } else {
            other
        }
    }

    /// The smaller of the two.
    pub fn min(self, other: Fixed) -> (r: Fixed)
        ensures
            r == self.spec_min(other),
            r@ == min_int(self@, other@),
    {
        if self.raw <= other.raw {
            self
        } else {
            other
        }
    }

    /// `self` limited to the interval from `lo` to `hi`.
    pub fn clamp(self, lo: Fixed, hi: Fixed) -> (r: Fixed)
        ensures
            r == self.spec_clamp(lo, hi),
            r@ == clamp_int(self@, lo@, hi@),
    {
        self.min(hi).max(lo)
    }
}

} // verus!
