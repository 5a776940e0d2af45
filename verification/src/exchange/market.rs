//! The name under which the venues list an instrument.
//!
//! Spot markets are named `BASE_QUOTE`, perpetuals `BASE-PERPETUAL`, dated
//! futures `BASE-<expiry>` and options `BASE-<expiry>-<strike>-<C|P>`, all
//! in upper case, with the expiry written like `30JUN23`.

use vstd::prelude::*;
use crate::model::{Instrument, InstrumentKind, OptionKind};

verus! {

/// The upper-case equivalent of `text`, as Unicode defines it.
pub uninterp spec fn uppercase(text: Seq<char>) -> Seq<char>;

/// The day of `expiry`, a time in milliseconds since the Unix epoch, in UTC:
/// day of the month without padding, abbreviated English month name, last
/// two digits of the year. Nothing where the calendar does not reach that
/// far.
pub uninterp spec fn expiry_text(expiry: i64) -> Option<Seq<char>>;

/// The text of the decimal number `mantissa / 10^scale`, with `scale`
/// digits after the point. Nothing where the number does not fit a 96-bit
/// decimal.
pub uninterp spec fn strike_text(mantissa: i128, scale: u32) -> Option<Seq<char>>;

/// `str::to_uppercase` returns the upper-case equivalent of the text; the
/// result is named, not defined.
pub assume_specification[ str::to_uppercase ](text: &str) -> (upper: String)
    ensures
        upper@ == uppercase(text@),
;

/// Formats the UTC date of a timestamp with `chrono`:
/// `DateTime::from_timestamp_millis` gives nothing for a timestamp out of
/// range, and the date is written with the pattern `%-d%b%y`. The result is
/// named, not defined.
#[verifier::external_body]
fn format_expiry(expiry: i64) -> (text: Option<String>)
    ensures
        match text {
            Some(text) => expiry_text(expiry) == Some(text@),
            None => expiry_text(expiry) is None,
        },
{
    match chrono::DateTime::from_timestamp_millis(expiry) {
        Some(time) => Some(time.date_naive().format("%-d%b%y").to_string()),
        None => None,
    }
}

/// Writes a strike with `rust_decimal`: `Decimal::try_from_i128_with_scale`
/// refuses a scale above 28 and a mantissa beyond 96 bits, and the decimal
/// is written by its `Display`. The result is named, not defined.
#[verifier::external_body]
fn format_strike(mantissa: i128, scale: u32) -> (text: Option<String>)
    ensures
        match text {
            Some(text) => strike_text(mantissa, scale) == Some(text@),
            None => strike_text(mantissa, scale) is None,
        },
{
    match rust_decimal::Decimal::try_from_i128_with_scale(mantissa, scale) {
        Ok(strike) => Some(strike.to_string()),
        Err(_) => None,
    }
}

/// The letter that stands for the kind of an option.
pub open spec fn option_letter(kind: OptionKind) -> Seq<char> {
    match kind {
        OptionKind::Call => "C"@,
        OptionKind::Put => "P"@,
    }
}

/// The name of an instrument before it is put in upper case, given the
/// texts of its expiry and of its strike. A kind without expiry or strike
/// does not read them.
pub open spec fn plain_name(instrument: &Instrument, expiry: Seq<char>, strike: Seq<char>) -> Seq<
    char,
> {
    match instrument.kind {
        InstrumentKind::Spot => instrument.base@ + "_"@ + instrument.quote@,
        InstrumentKind::Future(_) => instrument.base@ + "-"@ + expiry,
        InstrumentKind::Perpetual => instrument.base@ + "-PERPETUAL"@,
        InstrumentKind::Option(option) => instrument.base@ + "-"@ + expiry + "-"@ + strike + "-"@
            + option_letter(option.kind),
    }
}

/// The text of the expiry of an instrument that has one, and the empty text
/// for one that has none. Nothing where the expiry cannot be written.
pub open spec fn instrument_expiry(instrument: &Instrument) -> Option<Seq<char>> {
    match instrument.kind {
        InstrumentKind::Future(future) => expiry_text(future.expiry),
        InstrumentKind::Option(option) => expiry_text(option.expiry),
        _ => Some(Seq::empty()),
    }
}

/// The text of the strike of an option, and the empty text for any other
/// instrument. Nothing where the strike cannot be written.
pub open spec fn instrument_strike(instrument: &Instrument) -> Option<Seq<char>> {
    match instrument.kind {
        InstrumentKind::Option(option) => strike_text(option.strike.mantissa, option.strike.scale),
        _ => Some(Seq::empty()),
    }
}

/// The name of an instrument on the venues: its plain name in upper case.
/// Nothing where its expiry or its strike cannot be written.
pub open spec fn market_text(instrument: &Instrument) -> Option<Seq<char>> {
    match (instrument_expiry(instrument), instrument_strike(instrument)) {
        (Some(expiry), Some(strike)) => Some(uppercase(plain_name(instrument, expiry, strike))),
        _ => None,
    }
}

/// The name of an instrument before it is put in upper case, given the
/// texts of its expiry and of its strike.
pub fn plain_market_name(instrument: &Instrument, expiry: &str, strike: &str) -> (name: String)
    ensures
        name@ == plain_name(instrument, expiry@, strike@),
{
    let mut name = String::from_str(instrument.base.as_str());
    match instrument.kind {
        InstrumentKind::Spot => {
            name.append("_");
            name.append(instrument.quote.as_str());
        },
        InstrumentKind::Future(_) => {
            name.append("-");
            name.append(expiry);
        },
        InstrumentKind::Perpetual => {
            name.append("-PERPETUAL");
        },
        InstrumentKind::Option(option) => {
            name.append("-");
            name.append(expiry);
            name.append("-");
            name.append(strike);
            name.append("-");
            match option.kind {
                OptionKind::Call => name.append("C"),
                OptionKind::Put => name.append("P"),
            }
        },
    }
    name
}

/// The name of an instrument on the venues. Nothing where its expiry or
/// its strike cannot be written.
pub fn market_name(instrument: &Instrument) -> (name: Option<String>)
    ensures
        match name {
            Some(name) => market_text(instrument) == Some(name@),
            None => market_text(instrument) is None,
        },
{
    let expiry = match instrument.kind {
        InstrumentKind::Future(future) => format_expiry(future.expiry),
        InstrumentKind::Option(option) => format_expiry(option.expiry),
        _ => Some(String::new()),
    };
    let strike = match instrument.kind {
        InstrumentKind::Option(option) => format_strike(option.strike.mantissa, option.strike.scale),
        _ => Some(String::new()),
    };
    match (expiry, strike) {
        (Some(expiry), Some(strike)) => {
            let plain = plain_market_name(instrument, expiry.as_str(), strike.as_str());
            Some(plain.as_str().to_uppercase())
        },
        _ => None,
    }
}

} // verus!
