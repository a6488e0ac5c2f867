//! A countdown after which an entity is removed.

use vstd::prelude::*;
use crate::math::fixed::{fixed, max_int, saturate, Fixed};

verus! {

/// Seconds left before the entity expires.
#[derive(Clone, Copy, Debug, PartialEq, Eq, Structural)]
pub struct Lifetime {
    pub seconds_left: Fixed,
}

impl Lifetime {
    /// The countdown has run out.
    pub open spec fn is_expired(self) -> bool {
        self.seconds_left@ <= 0
    }

    /// The countdown after `dt` seconds have passed. A negative `dt` counts
    /// as zero.
    pub open spec fn ticked(self, dt: Fixed) -> Lifetime {
        Lifetime { seconds_left: fixed(saturate(self.seconds_left@ - max_int(dt@, 0))) }
    }

    /// A countdown of `seconds`, or of zero if that is negative.
    pub fn seconds(seconds: Fixed) -> (l: Lifetime)
        ensures
            l.seconds_left == seconds.spec_max(Fixed::spec_zero()),
            l.seconds_left@ >= 0,
    {
        Lifetime { seconds_left: seconds.max(Fixed::zero()) }
    }

    /// Lets `dt` seconds pass and reports whether the countdown has run out.
    pub fn tick(&mut self, dt: Fixed) -> (expired: bool)
        ensures
            *final(self) == old(self).ticked(dt),
            expired == final(self).is_expired(),
    {
        self.seconds_left = self.seconds_left.sub(dt.max(Fixed::zero()));
        self.seconds_left.raw <= 0
    }
}

/// A countdown only ever goes down, and a frame of no time leaves it as it
/// is.
pub proof fn lemma_countdown(l: Lifetime, dt: Fixed)
    ensures
        l.ticked(dt).seconds_left@ <= l.seconds_left@,
        dt@ <= 0 ==> l.ticked(dt) == l,
{
}

} // verus!
