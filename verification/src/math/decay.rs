//! Exponential decay in fixed point.
//!
//! The factor by which a quantity shrinks in `dt` seconds under a drag of
//! `drag` per second is `(1 - drag)` raised to the power `dt`. The power is
//! built from products and square roots of `Fixed` numbers: the whole
//! seconds of `dt` contribute one multiplication by the base each, and the
//! fraction of a second contributes, for every binary digit that is set, one
//! multiplication by the matching repeated square root of the base.

use vstd::prelude::*;
use crate::math::fixed::{
    clamp_int,
    is_floor_sqrt,
    max_int,
    mul_raw,
    sqrt_raw,
    Fixed,
    SCALE,
};

verus! {

/// Number of binary digits of the fraction of a second that are honoured.
pub const FRACTION_BITS: u32 = 20;

/// What remains of a unit after one second of the given drag, as a raw
/// value between zero and one.
pub open spec fn decay_base(drag: int) -> int {
    clamp_int(SCALE - drag, 0, SCALE as int)
}

/// `base` raised to the whole power `n`, multiplying one factor at a time.
pub open spec fn whole_power(base: int, n: nat) -> int
    decreases n,
{
    if n == 0 {
        SCALE as int
    } else {
        mul_raw(whole_power(base, (n - 1) as nat), base)
    }
}

/// `acc` multiplied by `base` raised to the fraction `frac / SCALE`, of
/// which the first `bits` binary digits are used. Digit `k` stands for the
/// `k`-th repeated square root of `base`.
pub open spec fn fractional_power(acc: int, base: int, frac: int, bits: nat) -> int
    decreases bits,
{
    if bits == 0 {
        acc
    } else {
        let root = sqrt_raw(base);
        if 2 * frac >= SCALE {
            fractional_power(mul_raw(acc, root), root, 2 * frac - SCALE, (bits - 1) as nat)
        } else {
            fractional_power(acc, root, 2 * frac, (bits - 1) as nat)
        }
    }
}

/// The factor that `dt` seconds of `drag` leave: `(1 - drag)` to the power
/// `dt`, between zero and one. A negative `dt` counts as zero, and `1 -
/// drag` is limited to the range from zero to one.
pub open spec fn decay_factor(drag: int, dt: int) -> int {
    let t = max_int(dt, 0);
    fractional_power(
        whole_power(decay_base(drag), (t / (SCALE as int)) as nat),
        decay_base(drag),
        t % (SCALE as int),
        FRACTION_BITS as nat,
    )
}

/// The product of two raw values between zero and one lies between zero
/// and the first of them.
pub proof fn lemma_mul_unit(a: int, b: int)
    requires
        0 <= a <= SCALE,
        0 <= b <= SCALE,
    ensures
        0 <= mul_raw(a, b) <= a,
        mul_raw(a, b) == (a * b) / (SCALE as int),
        b == SCALE ==> mul_raw(a, b) == a,
        a == SCALE ==> mul_raw(a, b) == b,
        b < SCALE && a > 0 ==> mul_raw(a, b) < a,
{
    let s = SCALE as int;
    assert(0 <= a * b && 0 <= (a * b) / s <= a) by (nonlinear_arith)
        requires
            0 <= a <= s,
            0 <= b <= s,
            s == 1_000_000,
    ;
    if b == s {
        assert((a * s) / s == a) by (nonlinear_arith)
            requires
                s == 1_000_000,
        ;
    }
    if a == s {
        assert((s * b) / s == b) by (nonlinear_arith)
            requires
                s == 1_000_000,
        ;
    }
    if b < s && a > 0 {
        assert((a * b) / s < a) by (nonlinear_arith)
            requires
                0 < a,
                0 <= b < s,
                s == 1_000_000,
        ;
    }
}

/// The square root of a raw value between zero and one lies between that
/// value and one.
pub proof fn lemma_sqrt_unit(x: int)
    requires
        0 <= x <= SCALE,
    ensures
        is_floor_sqrt(x * SCALE, sqrt_raw(x)),
        x <= sqrt_raw(x) <= SCALE,
{
    let s = SCALE as int;
    let n = x * s;
    // a witness: the floor square root exists
    let w = witness_sqrt(n);
    assert(is_floor_sqrt(n, w));
    let r = sqrt_raw(x);
    assert(is_floor_sqrt(n, r));
    assert(x <= r <= s) by (nonlinear_arith)
        requires
            0 <= x <= s,
            s == 1_000_000,
            n == x * s,
            0 <= r,
            r * r <= n,
            n < (r + 1) * (r + 1),
    ;
}

/// Some floor square root of `n`, found by counting up.
proof fn witness_sqrt(n: int) -> (r: int)
    requires
        0 <= n,
    ensures
        is_floor_sqrt(n, r),
    decreases n,
{
    if n == 0 {
        assert(is_floor_sqrt(0, 0));
        0
    } else {
        let p = witness_sqrt(n - 1);
        if (p + 1) * (p + 1) <= n {
            assert(n < (p + 2) * (p + 2)) by (nonlinear_arith)
                requires
                    0 <= p,
                    n - 1 < (p + 1) * (p + 1),
            ;
            p + 1
        } else {
            p
        }
    }
}

/// Whole powers of a base between zero and one stay between zero and one.
pub proof fn lemma_whole_power_unit(base: int, n: nat)
    requires
        0 <= base <= SCALE,
    ensures
        0 <= whole_power(base, n) <= SCALE,
    decreases n,
{
    if n > 0 {
        lemma_whole_power_unit(base, (n - 1) as nat);
        lemma_mul_unit(whole_power(base, (n - 1) as nat), base);
    }
}

/// Once a whole power has reached zero, all higher powers are zero.
proof fn lemma_whole_power_stays_zero(base: int, k: nat, n: nat)
    requires
        0 <= base <= SCALE,
        k <= n,
        whole_power(base, k) == 0,
    ensures
        whole_power(base, n) == 0,
    decreases n,
{
    if n > k {
        lemma_whole_power_stays_zero(base, k, (n - 1) as nat);
        lemma_mul_unit(0, base);
    }
}

/// All whole powers of one are one.
proof fn lemma_whole_power_of_one(n: nat)
    ensures
        whole_power(SCALE as int, n) == SCALE,
    decreases n,
{
    if n > 0 {
        lemma_whole_power_of_one((n - 1) as nat);
        lemma_mul_unit(SCALE as int, SCALE as int);
    }
}

/// A fraction of zero contributes nothing.
pub proof fn lemma_fractional_power_of_zero(acc: int, base: int, bits: nat)
    ensures
        fractional_power(acc, base, 0, bits) == acc,
    decreases bits,
{
    if bits > 0 {
        lemma_fractional_power_of_zero(acc, sqrt_raw(base), (bits - 1) as nat);
    }
}

/// Fractional powers keep an accumulator between zero and one in that
/// range, and never raise it.
pub proof fn lemma_fractional_power_unit(acc: int, base: int, frac: int, bits: nat)
    requires
        0 <= acc <= SCALE,
        0 <= base <= SCALE,
    ensures
        0 <= fractional_power(acc, base, frac, bits) <= acc,
    decreases bits,
{
    if bits > 0 {
        lemma_sqrt_unit(base);
        let root = sqrt_raw(base);
        if 2 * frac >= SCALE {
            lemma_mul_unit(acc, root);
            lemma_fractional_power_unit(
                mul_raw(acc, root),
                root,
                2 * frac - SCALE,
                (bits - 1) as nat,
            );
        } else {
            lemma_fractional_power_unit(acc, root, 2 * frac, (bits - 1) as nat);
        }
    }
}

/// A decay factor is between zero and one.
pub proof fn lemma_decay_factor_unit(drag: int, dt: int)
    ensures
        0 <= decay_factor(drag, dt) <= SCALE,
{
    let t = max_int(dt, 0);
    let base = decay_base(drag);
    lemma_whole_power_unit(base, (t / (SCALE as int)) as nat);
    lemma_fractional_power_unit(
        whole_power(base, (t / (SCALE as int)) as nat),
        base,
        t % (SCALE as int),
        FRACTION_BITS as nat,
    );
}

/// No time, no decay: over zero or fewer seconds the factor is one.
pub proof fn lemma_decay_over_no_time(drag: int, dt: int)
    requires
        dt <= 0,
    ensures
        decay_factor(drag, dt) == SCALE,
{
    lemma_fractional_power_of_zero(SCALE as int, decay_base(drag), FRACTION_BITS as nat);
}

/// Over one second the factor is `1 - drag` itself.
pub proof fn lemma_decay_over_one_second(drag: int)
    ensures
        decay_factor(drag, SCALE as int) == decay_base(drag),
{
    let base = decay_base(drag);
    assert(whole_power(base, 1) == mul_raw(whole_power(base, 0), base));
    lemma_mul_unit(SCALE as int, base);
    lemma_fractional_power_of_zero(base, base, FRACTION_BITS as nat);
}

/// Over half a second the factor is the square root of `1 - drag`.
pub proof fn lemma_decay_over_half_a_second(drag: int)
    ensures
        decay_factor(drag, SCALE / 2) == sqrt_raw(decay_base(drag)),
{
    let base = decay_base(drag);
    let root = sqrt_raw(base);
    lemma_sqrt_unit(base);
    lemma_mul_unit(SCALE as int, root);
    assert(fractional_power(SCALE as int, base, SCALE / 2, FRACTION_BITS as nat)
        == fractional_power(mul_raw(SCALE as int, root), root, 0, (FRACTION_BITS - 1) as nat));
    lemma_fractional_power_of_zero(root, root, (FRACTION_BITS - 1) as nat);
}

/// Decay does not depend on how a second is cut into frames: two steps of
/// half a second shrink a quantity by the same factor as one step of a whole
/// second, up to two millionths lost to rounding.
pub proof fn lemma_two_half_steps_match_one_step(drag: int)
    ensures
        ({
            let half = decay_factor(drag, SCALE / 2);
            let whole = decay_factor(drag, SCALE as int);
            whole - 2 <= mul_raw(half, half) <= whole
        }),
{
    let base = decay_base(drag);
    let root = sqrt_raw(base);
    lemma_decay_over_half_a_second(drag);
    lemma_decay_over_one_second(drag);
    lemma_sqrt_unit(base);
    lemma_mul_unit(root, root);
    let s = SCALE as int;
    assert(base - 2 <= (root * root) / s <= base) by (nonlinear_arith)
        requires
            s == 1_000_000,
            0 <= root <= s,
            root * root <= base * s,
            base * s < (root + 1) * (root + 1),
    ;
}

/// `base` raised to the whole power `n`.
fn raise_to_whole(base: Fixed, n: u64) -> (r: Fixed)
    requires
        0 <= base@ <= SCALE,
    ensures
        r@ == whole_power(base@, n as nat),
        0 <= r@ <= SCALE,
{
    if base.raw == SCALE {
        proof {
            lemma_whole_power_of_one(n as nat);
        }
        return Fixed::one();
    }
    let mut acc = Fixed::one();
    let mut k: u64 = 0;
    while k < n && acc.raw > 0
        invariant
            0 <= base@ < SCALE,
            k <= n,
            acc@ == whole_power(base@, k as nat),
            0 <= acc@ <= SCALE,
        decreases n - k,
    {
        proof {
            lemma_mul_unit(acc@, base@);
        }
        acc = acc.mul(base);
        k += 1;
    }
    proof {
        if k < n {
            lemma_whole_power_stays_zero(base@, k as nat, n as nat);
        }
    }
    acc
}

/// The factor that `dt` seconds of `drag` leave, between zero and one.
pub fn decay(drag: Fixed, dt: Fixed) -> (factor: Fixed)
    ensures
        factor@ == decay_factor(drag@, dt@),
        0 <= factor@ <= SCALE,
{
    let base = Fixed::one().sub(drag).clamp(Fixed::zero(), Fixed::one());
    assert(base@ == decay_base(drag@));
    let t: i64 = if dt.raw > 0 { dt.raw } else { 0 };
    let whole: u64 = (t / SCALE) as u64;
    let mut frac: i64 = t % SCALE;
    let mut acc = raise_to_whole(base, whole);
    let mut root = base;
    let mut bits: u32 = FRACTION_BITS;
    proof {
        lemma_decay_factor_unit(drag@, dt@);
    }
    while bits > 0 && frac > 0
        invariant
            0 <= frac < SCALE,
            0 <= acc@ <= SCALE,
            0 <= root@ <= SCALE,
            bits <= FRACTION_BITS,
            fractional_power(acc@, root@, frac as int, bits as nat) == decay_factor(drag@, dt@),
        decreases bits,
    {
        proof {
            lemma_sqrt_unit(root@);
        }
        root = root.sqrt();
        frac = 2 * frac;
        if frac >= SCALE {
            proof {
                lemma_mul_unit(acc@, root@);
            }
            acc = acc.mul(root);
            frac = frac - SCALE;
        }
        bits -= 1;
    }
    proof {
        if bits > 0 {
            lemma_fractional_power_of_zero(acc@, root@, bits as nat);
        }
    }
    acc
}

/// The same for a speed that decays: what two steps of half a second leave
/// of `v` differs from what one step of a whole second leaves by no more
/// than two millionths of `v` and two raw units of rounding.
pub proof fn lemma_half_steps_decay_a_speed_alike(drag: int, v: int)
    requires
        i64::MIN <= v <= i64::MAX,
    ensures
        ({
            let half = decay_factor(drag, SCALE / 2);
            let whole = decay_factor(drag, SCALE as int);
            let by_halves = mul_raw(mul_raw(v, half), half);
            let at_once = mul_raw(v, whole);
            let size = if v >= 0 { v } else { -v };
            &&& by_halves - at_once <= 2 * size / (SCALE as int) + 2
            &&& at_once - by_halves <= 2 * size / (SCALE as int) + 2
        }),
{
    let half = decay_factor(drag, SCALE / 2);
    let whole = decay_factor(drag, SCALE as int);
    lemma_two_half_steps_match_one_step(drag);
    lemma_decay_factor_unit(drag, SCALE / 2);
    lemma_decay_factor_unit(drag, SCALE as int);
    lemma_mul_unit(half, half);
    let size = if v >= 0 { v } else { -v };
    lemma_scaled_magnitude(v, half);
    lemma_scaled_magnitude(v, whole);
    let a = (size * half) / (SCALE as int);
    assert(0 <= a <= size) by (nonlinear_arith)
        requires
            a == (size * half) / (SCALE as int),
            0 <= size,
            0 <= half <= SCALE,
            SCALE == 1_000_000,
    ;
    lemma_scaled_magnitude(mul_raw(v, half), half);
    let b = (a * half) / (SCALE as int);
    let c = (size * whole) / (SCALE as int);
    lemma_twice_scaled(size, half, whole, a, b, c);
}

/// Scaling by a factor between zero and one acts on the magnitude, keeps
/// the sign and never lengthens.
pub proof fn lemma_scaled_magnitude(v: int, f: int)
    requires
        i64::MIN <= v <= i64::MAX,
        0 <= f <= SCALE,
    ensures
        v >= 0 ==> mul_raw(v, f) == (v * f) / (SCALE as int),
        v < 0 ==> mul_raw(v, f) == -(((-v) * f) / (SCALE as int)),
        v >= 0 ==> 0 <= mul_raw(v, f) <= v,
        v <= 0 ==> v <= mul_raw(v, f) <= 0,
        i64::MIN <= mul_raw(v, f) <= i64::MAX,
{
    let s = SCALE as int;
    if v >= 0 {
        assert(0 <= v * f && 0 <= (v * f) / s <= v) by (nonlinear_arith)
            requires
                0 <= v,
                0 <= f <= s,
                s == 1_000_000,
        ;
    } else {
        let m = -v;
        assert(0 <= m * f && 0 <= (m * f) / s <= m && v * f == -(m * f)) by (nonlinear_arith)
            requires
                m == -v,
                0 < m,
                0 <= f <= s,
                s == 1_000_000,
        ;
        if m * f == 0 {
            assert(v * f == 0);
        }
    }
}

/// The arithmetic of two roundings against one.
proof fn lemma_twice_scaled(size: int, half: int, whole: int, a: int, b: int, c: int)
    by (nonlinear_arith)
    requires
        0 <= size,
        0 <= half <= 1_000_000,
        0 <= whole <= 1_000_000,
        whole - 2 <= (half * half) / 1_000_000 <= whole,
        a == (size * half) / 1_000_000,
        b == (a * half) / 1_000_000,
        c == (size * whole) / 1_000_000,
    ensures
        b - c <= 2 * size / 1_000_000 + 2,
        c - b <= 2 * size / 1_000_000 + 2,
{
}

} // verus!
