//! Rusty slots: a press of the button pays the bet, locks the machine
//! and sets the reels spinning; the machine unlocks when every reel has
//! stopped.

use vstd::prelude::*;
use crate::math::fixed::{fixed, max_int, min_int, Fixed, SCALE};
use crate::systems::movement::elapsed;

verus! {

/// Number of reels.
pub const REEL_COUNT: usize = 3;

/// Number of symbols on a reel.
pub const ROWS: usize = 6;

/// Seconds that a reel spins, in raw units: three seconds.
pub const SPIN_SECONDS: i64 = 3_000_000;

/// Symbols that pass per second while a reel spins, in raw units: twelve.
pub const ROWS_PER_SECOND: i64 = 12_000_000;

/// The player's credits, the bet, and whether a spin is under way.
#[derive(Clone, Copy, Debug, PartialEq, Eq, Structural)]
pub struct Machine {
    pub credits: i32,
    pub bet: i32,
    pub lock: bool,
}

/// What the pointer does to the button.
#[derive(Clone, Copy, Debug, PartialEq, Eq, Structural)]
pub enum Interaction {
    Pressed,
    Hovered,
    Idle,
}

/// One reel: which it is, how many symbols it has, the seconds of spinning
/// left if it spins, its speed, and which symbol is up, as a count of rows
/// from the start.
#[derive(Clone, Copy, Debug, PartialEq, Eq, Structural)]
pub struct Reel {
    pub idx: usize,
    pub rows: usize,
    pub spinning: Option<Fixed>,
    pub speed: Fixed,
    pub offset: Fixed,
}

/// Remainder of `n` by a positive `d`, with the sign of `n`.
pub open spec fn trunc_rem(n: int, d: int) -> int {
    if n >= 0 {
        n % d
    } else {
        -((-n) % d)
    }
}

/// `x` limited to what an `i32` can hold.
pub open spec fn saturate_i32(x: int) -> int {
    max_int(i32::MIN as int, min_int(x, i32::MAX as int))
}

impl Machine {
    /// Whether a press of the button starts a spin: the machine is not
    /// locked and the credits cover the bet.
    pub open spec fn can_spin(self) -> bool {
        !self.lock && self.credits >= self.bet
    }

    /// The machine after a spin has started: locked, the bet paid.
    pub open spec fn started(self) -> Machine {
        Machine {
            credits: saturate_i32(self.credits - self.bet) as i32,
            bet: self.bet,
            lock: true,
        }
    }
}

impl Reel {
    /// Reel number `idx` as the game starts: at rest on its first symbol;
    /// each reel is one and a half units faster than the one before.
    pub open spec fn initial(idx: int) -> Reel {
        Reel {
            idx: idx as usize,
            rows: ROWS,
            spinning: None,
            speed: fixed(8_000_000 + idx * 1_500_000),
            offset: fixed(0),
        }
    }

    /// The reel as a spin starts: back on its first symbol, with
    /// `SPIN_SECONDS` to go.
    pub open spec fn spun(self) -> Reel {
        Reel { spinning: Some(fixed(SPIN_SECONDS as int)), offset: fixed(0), ..self }
    }

    /// How far the reel has turned after `dt` more seconds of spinning:
    /// `ROWS_PER_SECOND` rows a second further, counted round the reel. A
    /// reel without rows is not counted round.
    pub open spec fn turned(self, dt: Fixed) -> Fixed {
        let sum = self.offset.spec_add(fixed(ROWS_PER_SECOND as int).spec_mul(elapsed(dt)));
        if self.rows == 0 || self.rows * SCALE > i64::MAX {
            sum
        } else {
            fixed(trunc_rem(sum@, self.rows * SCALE))
        }
    }

    /// The reel after `dt` more seconds. A reel at rest, or one that is
    /// being eased to a stop, is left alone; a spinning reel turns, and
    /// stops when its time is up.
    pub open spec fn driven(self, dt: Fixed, stopping: bool) -> Reel {
        if stopping || self.spinning.is_none() {
            self
        } else {
            let left = self.spinning.unwrap().spec_sub(elapsed(dt));
            Reel {
                spinning: if left@ <= 0 {
                    None
                } else {
                    Some(left)
                },
                offset: self.turned(dt),
                ..self
            }
        }
    }
}

/// Whether any of the reels spins.
pub open spec fn any_spinning(reels: Seq<Reel>) -> bool {
    exists|i: int| 0 <= i < reels.len() && (#[trigger] reels[i]).spinning.is_some()
}

/// The reels as the game starts.
pub fn spawn_reels() -> (reels: Vec<Reel>)
    ensures
        reels@.len() == REEL_COUNT,
        forall|i: int| 0 <= i < REEL_COUNT ==> #[trigger] reels@[i] == Reel::initial(i),
{
    let mut reels: Vec<Reel> = Vec::new();
    let mut i: usize = 0;
    while i < REEL_COUNT
        invariant
            i <= REEL_COUNT,
            reels@.len() == i,
            forall|k: int| 0 <= k < i ==> #[trigger] reels@[k] == Reel::initial(k),
        decreases REEL_COUNT - i,
    {
        let step: i64 = i as i64;
        reels.push(
            Reel {
                idx: i,
                rows: ROWS,
                spinning: None,
                speed: Fixed::from_raw(8_000_000 + step * 1_500_000),
                offset: Fixed::zero(),
            },
        );
        i += 1;
    }
    reels
}

/// Handles the button. A press starts a spin if the machine is not locked
/// and the credits cover the bet: the bet is paid, the machine locked, and
/// every reel set spinning from its first symbol. Anything else changes
/// nothing. Returns whether a spin was started.
pub fn spin_button(machine: &mut Machine, reels: &mut Vec<Reel>, interaction: Interaction) -> (started:
    bool)
    ensures
        started == (interaction == Interaction::Pressed && old(machine).can_spin()),
        *final(machine) == if started {
            old(machine).started()
        } else {
            *old(machine)
        },
        final(reels)@.len() == old(reels)@.len(),
        forall|i: int|
            0 <= i < old(reels)@.len() ==> #[trigger] final(reels)@[i] == if started {
                old(reels)@[i].spun()
            } else {
                old(reels)@[i]
            },
{
    match interaction {
        Interaction::Pressed => {},
        _ => {
            return false;
        },
    }
    if machine.lock || machine.credits < machine.bet {
        return false;
    }
    machine.lock = true;
    let paid: i64 = machine.credits as i64 - machine.bet as i64;
    machine.credits = if paid > i32::MAX as i64 {
        i32::MAX
    } else {
        paid as i32
    };
    let mut i: usize = 0;
    while i < reels.len()
        invariant
            i <= reels.len(),
            reels@.len() == old(reels)@.len(),
            forall|k: int| 0 <= k < i ==> #[trigger] reels@[k] == old(reels)@[k].spun(),
            forall|k: int| i <= k < reels@.len() ==> #[trigger] reels@[k] == old(reels)@[k],
        decreases reels.len() - i,
    {
        let r = reels[i];
        reels[i] = Reel {
            idx: r.idx,
            rows: r.rows,
            spinning: Some(Fixed::from_raw(SPIN_SECONDS)),
            speed: r.speed,
            offset: Fixed::zero(),
        };
        i += 1;
    }
    true
}

/// Lets `dt` seconds pass for one reel: see `Reel::driven`.
pub fn drive_spinning(reel: &mut Reel, dt: Fixed, stopping: bool)
    ensures
        *final(reel) == old(reel).driven(dt, stopping),
{
    if stopping {
        return ;
    }
    match reel.spinning {
        Some(t) => {
            let step = dt.max(Fixed::zero());
            let left = t.sub(step);
            let sum = reel.offset.add(Fixed::from_raw(ROWS_PER_SECOND).mul(step));
            let round: u128 = (reel.rows as u128) * 1_000_000;
            reel.offset = if reel.rows == 0 || round > i64::MAX as u128 {
                sum
            } else {
                Fixed::from_raw(sum.raw % (round as i64))
            };
            reel.spinning = if left.raw <= 0 {
                None
            } else {
                Some(left)
            };
        },
        None => {},
    }
}

/// Unlocks the machine once no reel spins any more.
pub fn settle_and_payout(machine: &mut Machine, reels: &Vec<Reel>)
    ensures
        final(machine).credits == old(machine).credits,
        final(machine).bet == old(machine).bet,
        final(machine).lock == (old(machine).lock && any_spinning(reels@)),
{
    let mut spinning = false;
    let mut i: usize = 0;
    while i < reels.len()
        invariant
            i <= reels.len(),
            spinning == any_spinning(reels@.take(i as int)),
        decreases reels.len() - i,
    {
        proof {
            let done = reels@.take(i as int);
            let next = reels@.take(i + 1);
            assert(next[i as int] == reels@[i as int]);
            if any_spinning(done) {
                let k = choose|k: int| 0 <= k < done.len() && (#[trigger] done[k]).spinning.is_some();
                assert(next[k] == done[k]);
            }
            if any_spinning(next) {
                let k = choose|k: int| 0 <= k < next.len() && (#[trigger] next[k]).spinning.is_some();
                if k < i {
                    assert(done[k] == next[k]);
                }
            }
        }
        if reels[i].spinning.is_some() {
            spinning = true;
        }
        i += 1;
    }
    assert(reels@.take(reels.len() as int) == reels@);
    if !spinning && machine.lock {
        machine.lock = false;
    }
}

} // verus!
