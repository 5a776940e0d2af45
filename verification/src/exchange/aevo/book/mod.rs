//! Aevo order book payloads.

use vstd::prelude::*;
use crate::book::Level;

pub mod l2;

verus! {

/// One entry of a book message: price, amount and implied volatility, each
/// in fixed-point units.
#[derive(Clone, Copy, Debug, PartialEq, Eq, Structural)]
pub struct AevoLevel {
    pub price: u64,
    pub amount: u64,
    pub iv: u64,
}

impl AevoLevel {
    /// The level this entry sets.
    pub open spec fn level(self) -> Level {
        Level { price: self.price, amount: self.amount }
    }

    /// The entries as levels, in the same order.
    pub open spec fn levels(entries: Seq<AevoLevel>) -> Seq<Level> {
        entries.map_values(|entry: AevoLevel| entry.level())
    }

    /// The entries as levels, in the same order.
    pub fn to_levels(entries: &Vec<AevoLevel>) -> (levels: Vec<Level>)
        ensures
            levels@ == Self::levels(entries@),
    {
        let mut levels: Vec<Level> = Vec::new();
        let mut n: usize = 0;
        while n < entries.len()
            invariant
                n <= entries.len(),
                levels@ == Self::levels(entries@.take(n as int)),
            decreases entries.len() - n,
        {
            levels.push(Level::from(entries[n]));
            proof {
                assert(Self::levels(entries@.take(n + 1)) =~= Self::levels(entries@.take(n as int)).push(
                    entries@[n as int].level(),
                ));
            }
            n += 1;
        }
        proof {
            assert(entries@.take(n as int) =~= entries@);
        }
        levels
    }
}

impl From<AevoLevel> for Level {
    fn from(entry: AevoLevel) -> (level: Level) {
        Level { price: entry.price, amount: entry.amount }
    }
}

impl vstd::std_specs::convert::FromSpecImpl<AevoLevel> for Level {
    open spec fn obeys_from_spec() -> bool {
        true
    }

    open spec fn from_spec(entry: AevoLevel) -> Level {
        entry.level()
    }
}

} // verus!
