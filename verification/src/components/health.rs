//! Hit points with a window of invulnerability.
//!
//! A `Health` is in one of three states: dead when `current` is not
//! positive, otherwise invulnerable while `i_frames` is positive, otherwise
//! vulnerable. Dead is final: neither damage nor healing changes a dead
//! `Health`.

use vstd::prelude::*;
use crate::math::fixed::{clamp_int, fixed, max_int, min_int, Fixed, SCALE};

verus! {

/// Hit points, their upper limit, and the seconds of invulnerability left.
#[derive(Clone, Copy, Debug, PartialEq, Eq, Structural)]
pub struct Health {
    pub current: Fixed,
    pub max: Fixed,
    pub i_frames: Fixed,
}

impl Health {
    /// No hit points are left.
    pub open spec fn spec_is_dead(&self) -> bool {
        self.current@ <= 0
    }

    /// Damage is currently ignored.
    pub open spec fn is_invulnerable(&self) -> bool {
        self.i_frames@ > 0
    }

    /// The limits that every operation of this module keeps once they hold:
    /// at least one hit point of capacity, and no negative amounts.
    pub open spec fn is_valid(&self) -> bool {
        self.max@ >= SCALE && self.current@ >= 0 && self.i_frames@ >= 0
    }

    /// Fraction of the hit points that is left, between zero and one; zero
    /// when `max` is not positive.
    pub open spec fn spec_ratio(&self) -> Fixed {
        if self.max@ > 0 {
            fixed(clamp_int((self.current@ * SCALE) / self.max@, 0, SCALE as int))
        } else {
            fixed(0)
        }
    }

    /// The state after `dt` seconds have passed: the invulnerability window
    /// has shrunk by `dt` but not below zero, and the hit points have been
    /// brought back between zero and `max`. A negative `dt` counts as zero.
    pub open spec fn ticked(self, dt: Fixed) -> Health {
        Health {
            current: self.current.spec_max(Fixed::spec_zero()).spec_min(self.max),
            max: self.max,
            i_frames: fixed(max_int(self.i_frames@ - max_int(dt@, 0), 0)),
        }
    }

    /// Whether damage would be applied at all.
    pub open spec fn takes_damage(self) -> bool {
        !self.is_invulnerable() && !self.spec_is_dead()
    }

    /// The state after a hit of `amount`: unchanged when invulnerable or
    /// dead, otherwise `current` lowered by `amount` but not below zero. A
    /// negative `amount` counts as zero.
    pub open spec fn damaged(self, amount: Fixed) -> Health {
        if self.takes_damage() {
            Health {
                current: fixed(max_int(self.current@ - max_int(amount@, 0), 0)),
                max: self.max,
                i_frames: self.i_frames,
            }
        } else {
            self
        }
    }

    /// Whether a hit of `amount` kills: it is applied and leaves no hit
    /// points.
    pub open spec fn dies_from(self, amount: Fixed) -> bool {
        self.takes_damage() && self.damaged(amount).spec_is_dead()
    }

    /// The state after healing by `amount`: unchanged when dead, otherwise
    /// `current` raised by `amount` and capped at `max`. A negative
    /// `amount` counts as zero.
    pub open spec fn healed(self, amount: Fixed) -> Health {
        if self.spec_is_dead() {
            self
        } else {
            Health {
                current: fixed(min_int(self.current@ + max_int(amount@, 0), self.max@)),
                max: self.max,
                i_frames: self.i_frames,
            }
        }
    }

    /// The fraction of the hit points that a change of the limit preserves:
    /// the ratio, but at least one millionth while any hit points are left,
    /// so that rounding never takes the last of them.
    pub open spec fn kept_fraction(&self) -> Fixed {
        if self.spec_is_dead() {
            self.spec_ratio()
        } else {
            self.spec_ratio().spec_max(fixed(1))
        }
    }

    /// The state after the limit has been set to `new_max`, raised to one if
    /// it is less. With `keep_ratio` the fraction of hit points left is
    /// preserved, see `kept_fraction`, and the product rounded down; without
    /// it `current` is kept and capped at the new limit. Either way the
    /// living stay alive and the dead stay dead.
    pub open spec fn with_max(self, new_max: Fixed, keep_ratio: bool) -> Health {
        let max = new_max.spec_max(Fixed::spec_one());
        Health {
            current: if keep_ratio {
                max.spec_mul(self.kept_fraction())
            } else {
                self.current.spec_min(max)
            },
            max,
            i_frames: self.i_frames,
        }
    }

    /// Full health with the given limit, raised to one if it is less, and no
    /// invulnerability.
    pub fn new(max: Fixed) -> (h: Health)
        ensures
            h.max == max.spec_max(Fixed::spec_one()),
            h.current == h.max,
            h.i_frames@ == 0,
            h.is_valid(),
    {
        let max = max.max(Fixed::one());
        Health { current: max, max, i_frames: Fixed::zero() }
    }

    /// Full health with the given limit, raised to one if it is less, and
    /// `i_frames` seconds of invulnerability, none if that is negative.
    pub fn with_invuln(max: Fixed, i_frames: Fixed) -> (h: Health)
        ensures
            h.max == max.spec_max(Fixed::spec_one()),
            h.current == h.max,
            h.i_frames == i_frames.spec_max(Fixed::spec_zero()),
            h.is_valid(),
    {
        let max = max.max(Fixed::one());
        Health { current: max, max, i_frames: i_frames.max(Fixed::zero()) }
    }

    /// Whether no hit points are left.
    #[verifier::when_used_as_spec(spec_is_dead)]
    pub fn is_dead(&self) -> (dead: bool)
        ensures
            dead == self.spec_is_dead(),
    {
        self.current.raw <= 0
    }

    /// Fraction of the hit points that is left, between zero and one.
    #[verifier::when_used_as_spec(spec_ratio)]
    pub fn ratio(&self) -> (r: Fixed)
        ensures
            r == self.spec_ratio(),
            0 <= r@ <= SCALE,
    {
        if self.max.raw > 0 && self.current.raw > 0 {
            if self.current.raw >= self.max.raw {
                proof {
                    lemma_ratio_full(self.current@, self.max@);
                }
                Fixed::one()
            } else {
                proof {
                    lemma_ratio_partial(self.current@, self.max@);
                }
                let wide: i128 = (self.current.raw as i128) * (SCALE as i128);
                let q: i128 = wide / (self.max.raw as i128);
                Fixed::from_raw(q as i64)
            }
        } else {
            proof {
                if self.max@ > 0 {
                    lemma_ratio_empty(self.current@, self.max@);
                }
            }
            Fixed::zero()
        }
    }

    /// Sets the limit to `new_max`, raised to one if it is less, and either
    /// keeps the fraction of hit points left or keeps the hit points
    /// themselves, capped at the new limit.
    pub fn set_max(&mut self, new_max: Fixed, keep_ratio: bool)
        ensures
            *final(self) == old(self).with_max(new_max, keep_ratio),
    {
        let r = if self.is_dead() {
            self.ratio()
        } else {
            self.ratio().max(Fixed::from_raw(1))
        };
        self.max = new_max.max(Fixed::one());
        self.current = if keep_ratio {
            self.max.mul(r)
        } else {
            self.current.min(self.max)
        };
    }

    /// Lets `dt` seconds pass.
    pub fn tick(&mut self, dt: Fixed)
        ensures
            *final(self) == old(self).ticked(dt),
    {
        let step: i64 = if dt.raw > 0 { dt.raw } else { 0 };
        self.i_frames = if self.i_frames.raw > step {
            Fixed::from_raw(self.i_frames.raw - step)
        } else {
            Fixed::zero()
        };
        self.current = self.current.max(Fixed::zero()).min(self.max);
    }

    /// Applies a hit of `amount` and reports whether it killed.
    pub fn apply_damage(&mut self, amount: Fixed) -> (died: bool)
        ensures
            *final(self) == old(self).damaged(amount),
            died == old(self).dies_from(amount),
    {
        if self.i_frames.raw > 0 || self.is_dead() {
            return false;
        }
        let hit: i64 = if amount.raw > 0 { amount.raw } else { 0 };
        self.current = if self.current.raw > hit {
            Fixed::from_raw(self.current.raw - hit)
        } else {
            Fixed::zero()
        };
        self.is_dead()
    }

    /// Heals by `amount`.
    pub fn apply_heal(&mut self, amount: Fixed)
        ensures
            *final(self) == old(self).healed(amount),
    {
        if !self.is_dead() {
            let gain: i64 = if amount.raw > 0 { amount.raw } else { 0 };
            let sum: i128 = self.current.raw as i128 + gain as i128;
            self.current = if sum < self.max.raw as i128 {
                Fixed::from_raw(sum as i64)
            } else {
                self.max
            };
        }
    }
}

proof fn lemma_ratio_full(current: int, max: int)
    by (nonlinear_arith)
    requires
        0 < max <= current,
    ensures
        (current * SCALE) / max >= SCALE,
{
}

proof fn lemma_ratio_partial(current: int, max: int)
    by (nonlinear_arith)
    requires
        0 < current < max,
        max <= i64::MAX,
    ensures
        0 <= (current * SCALE) / max <= SCALE,
        0 <= current * SCALE <= 0x7fff_ffff_ffff_ffff * 1_000_000,
{
}

proof fn lemma_ratio_empty(current: int, max: int)
    by (nonlinear_arith)
    requires
        current <= 0,
        0 < max,
    ensures
        (current * SCALE) / max <= 0,
{
}

/// A tick restores the bounds: afterwards the invulnerability window is
/// not negative and the hit points do not exceed their limit; they are not
/// negative either, unless the limit itself is.
pub proof fn lemma_tick_restores_bounds(h: Health, dt: Fixed)
    ensures
        h.ticked(dt).i_frames@ >= 0,
        h.ticked(dt).current@ <= h.ticked(dt).max@,
        h.max@ >= 0 ==> 0 <= h.ticked(dt).current@,
        h.max@ >= SCALE ==> h.ticked(dt).is_valid(),
{
}

/// A tick of no time changes nothing but what was out of bounds.
pub proof fn lemma_tick_of_no_time(h: Health, dt: Fixed)
    requires
        dt@ <= 0,
        h.i_frames@ >= 0,
        0 <= h.current@ <= h.max@,
    ensures
        h.ticked(dt) == h,
{
}

/// Damage to an invulnerable or dead target changes nothing and kills
/// nobody.
pub proof fn lemma_damage_spares_invulnerable_and_dead(h: Health, amount: Fixed)
    requires
        h.is_invulnerable() || h.spec_is_dead(),
    ensures
        h.damaged(amount) == h,
        !h.dies_from(amount),
{
}

/// Damage never raises the hit points, never takes them below zero, and
/// kills exactly when it is applied to a target whose hit points it uses
/// up.
pub proof fn lemma_damage_lowers_current(h: Health, amount: Fixed)
    ensures
        h.damaged(amount).current@ <= h.current@,
        h.takes_damage() ==> h.damaged(amount).current@ == max_int(
            h.current@ - max_int(amount@, 0),
            0,
        ),
        h.dies_from(amount) <==> h.takes_damage() && amount@ >= h.current@,
        h.is_valid() ==> h.damaged(amount).is_valid(),
{
}

/// Healing a dead target changes nothing, and healing never leaves the
/// hit points above their limit unless they were dead above it before.
pub proof fn lemma_heal_is_capped(h: Health, amount: Fixed)
    ensures
        h.spec_is_dead() ==> h.healed(amount) == h,
        !h.spec_is_dead() ==> h.healed(amount).current@ <= h.max@,
        h.current@ <= h.max@ ==> h.healed(amount).current@ <= h.max@,
        h.is_valid() ==> h.healed(amount).is_valid(),
{
}

/// Setting the limit never changes whether the health is dead, leaves the
/// window alone, and gives a limit of at least one with the hit points
/// beneath it; the hit points are not negative afterwards unless they were
/// before and are kept as they are.
pub proof fn lemma_set_max_keeps_bounds(h: Health, new_max: Fixed, keep_ratio: bool)
    ensures
        h.with_max(new_max, keep_ratio).spec_is_dead() == h.spec_is_dead(),
        h.with_max(new_max, keep_ratio).i_frames == h.i_frames,
        h.with_max(new_max, keep_ratio).max@ == max_int(new_max@, SCALE as int),
        h.with_max(new_max, keep_ratio).current@ <= h.with_max(new_max, keep_ratio).max@,
        keep_ratio || h.current@ >= 0 ==> 0 <= h.with_max(new_max, keep_ratio).current@,
        keep_ratio ==> h.with_max(new_max, keep_ratio).current@ == (max_int(
            new_max@,
            SCALE as int,
        ) * h.kept_fraction()@) / (SCALE as int),
        !keep_ratio ==> h.with_max(new_max, keep_ratio).current@ == min_int(
            h.current@,
            max_int(new_max@, SCALE as int),
        ),
{
    let max = new_max.spec_max(Fixed::spec_one());
    let r = h.kept_fraction();
    assert(0 <= h.spec_ratio()@ <= SCALE);
    assert(0 <= r@ <= SCALE);
    assert(0 <= max@ * r@ && 0 <= (max@ * r@) / (SCALE as int) <= max@) by (nonlinear_arith)
        requires
            0 <= r@ <= SCALE,
            max@ >= SCALE,
            SCALE == 1_000_000,
    ;
    if r@ >= 1 {
        assert((max@ * r@) / (SCALE as int) >= 1) by (nonlinear_arith)
            requires
                r@ >= 1,
                max@ >= SCALE,
                SCALE == 1_000_000,
        ;
    } else {
        assert(max@ * r@ == 0) by (nonlinear_arith)
            requires
                r@ == 0,
        ;
    }
    if h.current@ <= 0 && h.max@ > 0 {
        lemma_ratio_empty(h.current@, h.max@);
    }
}

} // verus!
