//! Tiny tycoon: factories turn out goods once a second; money buys more
//! factories and upgrades the ones there are.

use std::collections::HashMap;
use vstd::prelude::*;
use crate::math::fixed::{fixed, max_int, min_int, trunc_div, Fixed, SCALE};

verus! {

/// Price of a basic factory, in raw units: fifty.
pub const BASIC_COST: i64 = 50_000_000;

/// Price of an advanced factory, in raw units: two hundred.
pub const ADVANCED_COST: i64 = 200_000_000;

/// Price of an upgrade per level already reached, in raw units: one
/// hundred.
pub const UPGRADE_COST: i64 = 100_000_000;

/// Factor by which an upgrade raises the output: one and a half.
pub const UPGRADE_GAIN: i64 = 1_500_000;

/// The number of a kind of goods.
#[derive(Clone, Copy, Debug, PartialEq, Eq, Structural, Hash)]
pub struct ItemId(pub u16);

/// The kinds of factory.
#[derive(Clone, Copy, Debug, PartialEq, Eq, Structural)]
pub enum FactoryKind {
    Basic,
    Advanced,
}

/// The money at hand.
#[derive(Clone, Copy, Debug, PartialEq, Eq, Structural)]
pub struct Money(pub Fixed);

/// A factory: its kind and how far it has been upgraded.
#[derive(Clone, Copy, Debug, PartialEq, Eq, Structural)]
pub struct Factory {
    pub kind: FactoryKind,
    pub level: u8,
}

/// What a factory turns out: which goods, and how many a second.
#[derive(Clone, Copy, Debug, PartialEq, Eq, Structural)]
pub struct Produces {
    pub item: ItemId,
    pub per_second: Fixed,
}

/// The goods in stock, by the number of their kind.
pub struct Inventory(pub HashMap<u16, u32>);

impl View for Inventory {
    type V = Map<u16, u32>;

    open spec fn view(&self) -> Map<u16, u32> {
        self.0@
    }
}

/// The price of a factory of the given kind.
pub open spec fn cost_of(kind: FactoryKind) -> int {
    match kind {
        FactoryKind::Basic => BASIC_COST as int,
        FactoryKind::Advanced => ADVANCED_COST as int,
    }
}

/// The whole goods that an output of `per_second` yields in a second: the
/// output rounded toward zero, none if it is negative.
pub open spec fn whole_units(per_second: Fixed) -> int {
    max_int(0, min_int(trunc_div(per_second@, SCALE as int), u32::MAX as int))
}

/// The stock of the goods `item`.
pub open spec fn stock_of(stock: Map<u16, u32>, item: u16) -> int {
    if stock.contains_key(item) {
        stock[item] as int
    } else {
        0
    }
}

/// The stock after one producer has delivered a second's output; a count
/// stops growing at the largest number that it can hold.
pub open spec fn delivered(stock: Map<u16, u32>, p: Produces) -> Map<u16, u32> {
    stock.insert(
        p.item.0,
        min_int(stock_of(stock, p.item.0) + whole_units(p.per_second), u32::MAX as int) as u32,
    )
}

/// The stock after each of `producers` has delivered, in order.
pub open spec fn delivered_all(stock: Map<u16, u32>, producers: Seq<Produces>) -> Map<u16, u32>
    decreases producers.len(),
{
    if producers.len() == 0 {
        stock
    } else {
        delivered(delivered_all(stock, producers.drop_last()), producers.last())
    }
}

/// The output of a factory after an upgrade.
pub open spec fn upgraded_output(p: Produces) -> Produces {
    Produces { item: p.item, per_second: p.per_second.spec_mul(fixed(UPGRADE_GAIN as int)) }
}

/// The price of upgrading a factory.
pub open spec fn upgrade_cost(factory: Factory) -> int {
    factory.level * UPGRADE_COST
}

/// The number of factories bought so far, brought up to date after a saved
/// game has been loaded: a count of zero takes over the number of
/// factories that are there.
pub open spec fn synced(bought: u32, factories: usize) -> u32 {
    if bought == 0 && factories > 0 {
        if factories > u32::MAX {
            u32::MAX
        } else {
            factories as u32
        }
    } else {
        bought
    }
}

impl Inventory {
    /// An empty stock.
    pub fn new() -> (inv: Inventory)
        ensures
            inv@ == Map::<u16, u32>::empty(),
    {
        Inventory(HashMap::new())
    }

    /// The stock of the goods `item`.
    pub fn count(&self, item: ItemId) -> (n: u32)
        ensures
            n == stock_of(self@, item.0),
    {
        match self.0.get(&item.0) {
            Some(n) => *n,
            None => 0,
        }
    }
}

/// What a newly built basic factory is and turns out: level one, one unit
/// of the goods number one a second.
pub fn spawn_basic_factory() -> (plant: (Factory, Produces))
    ensures
        plant.0 == (Factory { kind: FactoryKind::Basic, level: 1 }),
        plant.1 == (Produces { item: ItemId(1), per_second: Fixed::spec_one() }),
{
    (
        Factory { kind: FactoryKind::Basic, level: 1 },
        Produces { item: ItemId(1), per_second: Fixed::one() },
    )
}

/// The whole goods that an output of `per_second` yields in a second.
pub fn units_per_second(per_second: Fixed) -> (n: u32)
    ensures
        n == whole_units(per_second),
{
    let whole: i64 = per_second.raw / SCALE;
    if whole <= 0 {
        0
    } else if whole > u32::MAX as i64 {
        u32::MAX
    } else {
        whole as u32
    }
}

/// When the production clock is `due`, lets every producer deliver a
/// second's output into the stock. Otherwise nothing changes.
pub fn tick_production(inventory: &mut Inventory, producers: &Vec<Produces>, due: bool)
    ensures
        final(inventory)@ == if due {
            delivered_all(old(inventory)@, producers@)
        } else {
            old(inventory)@
        },
{
    if !due {
        return ;
    }
    let mut i: usize = 0;
    while i < producers.len()
        invariant
            i <= producers.len(),
            inventory@ == delivered_all(old(inventory)@, producers@.take(i as int)),
        decreases producers.len() - i,
    {
        let p = producers[i];
        proof {
            let next = producers@.take(i + 1);
            assert(next.drop_last() == producers@.take(i as int));
            assert(next.last() == p);
        }
        let have: u32 = inventory.count(p.item);
        let more: u32 = units_per_second(p.per_second);
        let sum: u32 = if more > u32::MAX - have {
            u32::MAX
        } else {
            have + more
        };
        inventory.0.insert(p.item.0, sum);
        i += 1;
    }
    assert(producers@.take(producers.len() as int) == producers@);
}

/// Brings the count of factories bought up to date: see `synced`.
pub fn sync_counter(bought: &mut u32, factories: usize)
    ensures
        *final(bought) == synced(*old(bought), factories),
{
    if *bought == 0 && factories > 0 {
        *bought = if factories > u32::MAX as usize {
            u32::MAX
        } else {
            factories as u32
        };
    }
}

/// Buys a factory of the given kind if the money covers its price: the
/// price is paid and the count of factories bought goes up by one, as far
/// as it can. Returns whether the factory was bought.
pub fn click_buy_factory(money: &mut Money, bought: &mut u32, kind: FactoryKind) -> (done: bool)
    ensures
        done == (old(money).0@ >= cost_of(kind)),
        final(money).0 == if done {
            old(money).0.spec_sub(fixed(cost_of(kind)))
        } else {
            old(money).0
        },
        *final(bought) == if done && *old(bought) < u32::MAX {
            (*old(bought) + 1) as u32
        } else {
            *old(bought)
        },
{
    let cost: i64 = match kind {
        FactoryKind::Basic => BASIC_COST,
        FactoryKind::Advanced => ADVANCED_COST,
    };
    if money.0.raw >= cost {
        money.0 = money.0.sub(Fixed::from_raw(cost));
        if *bought < u32::MAX {
            *bought = *bought + 1;
        }
        true
    } else {
        false
    }
}

/// Upgrades a factory if the money covers the price, which grows with the
/// level: the price is paid, the level goes up by one, as far as it can,
/// and the output grows by half. Returns whether the factory was upgraded.
pub fn click_upgrade_factory(money: &mut Money, factory: &mut Factory, produces: &mut Produces) -> (done:
    bool)
    ensures
        done == (old(money).0@ >= upgrade_cost(*old(factory))),
        final(money).0 == if done {
            old(money).0.spec_sub(fixed(upgrade_cost(*old(factory))))
        } else {
            old(money).0
        },
        final(factory).kind == old(factory).kind,
        final(factory).level == if done && old(factory).level < u8::MAX {
            (old(factory).level + 1) as u8
        } else {
            old(factory).level
        },
        *final(produces) == if done {
            upgraded_output(*old(produces))
        } else {
            *old(produces)
        },
{
    let cost: i64 = (factory.level as i64) * UPGRADE_COST;
    if money.0.raw >= cost {
        money.0 = money.0.sub(Fixed::from_raw(cost));
        if factory.level < u8::MAX {
            factory.level = factory.level + 1;
        }
        produces.per_second = produces.per_second.mul(Fixed::from_raw(UPGRADE_GAIN));
        true
    } else {
        false
    }
}

} // verus!
