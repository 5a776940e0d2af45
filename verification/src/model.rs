//! Exchange-agnostic identities: venues, instruments and subscription keys.

use vstd::prelude::*;

verus! {

/// The venues this library has an adapter for.
#[derive(Clone, Copy, Debug, PartialEq, Eq, Hash, Structural)]
pub enum ExchangeId {
    Aevo,
    Bitfinex,
    Deribit,
}

impl ExchangeId {
    /// The venue's name in lower case.
    pub fn as_str(&self) -> (name: &'static str)
        ensures
            name@ == match *self {
                ExchangeId::Aevo => "aevo"@,
                ExchangeId::Bitfinex => "bitfinex"@,
                ExchangeId::Deribit => "deribit"@,
            },
    {
        match self {
            ExchangeId::Aevo => "aevo",
            ExchangeId::Bitfinex => "bitfinex",
            ExchangeId::Deribit => "deribit",
        }
    }
}

/// Whether an option gives the right to buy or to sell.
#[derive(Clone, Copy, Debug, PartialEq, Eq, Hash, Structural)]
pub enum OptionKind {
    Call,
    Put,
}

/// When an option may be exercised.
#[derive(Clone, Copy, Debug, PartialEq, Eq, Hash, Structural)]
pub enum OptionExercise {
    American,
    Bermudan,
    European,
}

/// A dated future: its expiry in milliseconds since the Unix epoch.
#[derive(Clone, Copy, Debug, PartialEq, Eq, Hash, Structural)]
pub struct FutureContract {
    pub expiry: i64,
}

/// A strike price as a decimal number: `mantissa / 10^scale`.
#[derive(Clone, Copy, Debug, PartialEq, Eq, Hash, Structural)]
pub struct Strike {
    pub mantissa: i128,
    pub scale: u32,
}

/// An option: its expiry in milliseconds since the Unix epoch, and its
/// strike.
#[derive(Clone, Copy, Debug, PartialEq, Eq, Hash, Structural)]
pub struct OptionContract {
    pub kind: OptionKind,
    pub exercise: OptionExercise,
    pub expiry: i64,
    pub strike: Strike,
}

/// What kind of market an instrument trades on.
#[derive(Clone, Copy, Debug, PartialEq, Eq, Hash, Structural)]
pub enum InstrumentKind {
    Spot,
    Future(FutureContract),
    Perpetual,
    Option(OptionContract),
}

/// A traded pair and its kind: the identity of a subscription.
#[derive(Clone, Debug, PartialEq, Eq, Hash)]
pub struct Instrument {
    pub base: String,
    pub quote: String,
    pub kind: InstrumentKind,
}

impl Instrument {
    /// The instrument of this pair and kind.
    pub fn new(base: String, quote: String, kind: InstrumentKind) -> (instrument: Self)
        ensures
            instrument.base == base,
            instrument.quote == quote,
            instrument.kind == kind,
    {
        Instrument { base, quote, kind }
    }

    /// Whether two instruments are the same pair of the same kind.
    pub open spec fn same_as(&self, other: &Instrument) -> bool {
        &&& self.base@ == other.base@
        &&& self.quote@ == other.quote@
        &&& self.kind == other.kind
    }

    /// A copy of the instrument.
    pub fn snapshot(&self) -> (copy: Self)
        ensures
            copy.same_as(self),
    {
        Instrument { base: self.base.clone(), quote: self.quote.clone(), kind: self.kind }
    }
}

/// Key that routes an incoming message to the subscription it belongs to.
#[derive(Clone, Debug, PartialEq, Eq, Hash)]
pub struct SubscriptionId(pub String);

impl View for SubscriptionId {
    type V = Seq<char>;

    open spec fn view(&self) -> Seq<char> {
        self.0@
    }
}

impl SubscriptionId {
    /// Whether two keys hold the same text.
    pub fn same(&self, other: &SubscriptionId) -> (same: bool)
        ensures
            same == (self@ == other@),
    {
        self.0 == other.0
    }
}

} // verus!
