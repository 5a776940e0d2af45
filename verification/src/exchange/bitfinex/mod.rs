//! Messages of Bitfinex.

pub mod trade;
