//! Normalisation of exchange market data feeds: venue adapters, order book
//! reconstruction from snapshot and delta messages, and the routing of
//! normalised events to per-venue queues.

use vstd::prelude::*;

pub mod book;
pub mod decimal;
pub mod error;
pub mod event;
pub mod exchange;
pub mod model;
pub mod streams;
pub mod subscription;
pub mod transformer;

verus! {

/// Something that names a `T`: a subscription its channel and its market,
/// a message the subscription it belongs to.
pub trait Identifier<T> {
    fn id(&self) -> T;
}

} // verus!
