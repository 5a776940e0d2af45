//! Deribit order book payloads.

use vstd::prelude::*;
use crate::book::Level;

pub mod l1;
pub mod l2;

verus! {

/// What a book notification says happened at a price.
#[derive(Clone, Copy, Debug, PartialEq, Eq, Structural)]
pub enum Delta {
    New,
    Change,
    Delete,
}

/// One entry of a book notification: the action, the price and the new
/// amount at that price.
#[derive(Clone, Copy, Debug, PartialEq, Eq, Structural)]
pub struct DeribitLevel(pub Delta, pub u64, pub u64);

impl DeribitLevel {
    /// The level this entry sets. The amount alone decides: zero removes.
    pub open spec fn level(self) -> Level {
        Level { price: self.1, amount: self.2 }
    }

    /// The entries as levels, in the same order.
    pub open spec fn levels(entries: Seq<DeribitLevel>) -> Seq<Level> {
        entries.map_values(|entry: DeribitLevel| entry.level())
    }

    /// The entries as levels, in the same order.
    pub fn to_levels(entries: &Vec<DeribitLevel>) -> (levels: Vec<Level>)
        ensures
            levels@ == Self::levels(entries@),
    {
        let mut levels: Vec<Level> = Vec::new();
        let mut n: usize = 0;
        while n < entries.len()
            invariant
                n <= entries.len(),
                levels@ == Self::levels(entries@.take(n as int)),
            decreases entries.len() - n,
        {
            levels.push(Level::from(entries[n]));
            proof {
                assert(Self::levels(entries@.take(n + 1)) =~= Self::levels(entries@.take(n as int)).push(
                    entries@[n as int].level(),
                ));
            }
            n += 1;
        }
        proof {
            assert(entries@.take(n as int) =~= entries@);
        }
        levels
    }
}

impl From<DeribitLevel> for Level {
    fn from(entry: DeribitLevel) -> (level: Level) {
        Level { price: entry.1, amount: entry.2 }
    }
}

impl vstd::std_specs::convert::FromSpecImpl<DeribitLevel> for Level {
    open spec fn obeys_from_spec() -> bool {
        true
    }

    open spec fn from_spec(entry: DeribitLevel) -> Level {
        entry.level()
    }
}

} // verus!
