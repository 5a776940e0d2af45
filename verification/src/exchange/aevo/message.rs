//! Envelope of an Aevo message.

use vstd::prelude::*;

verus! {

/// A payload with the channel it came on and, if the venue sent one, an
/// error.
#[derive(Clone, Debug, PartialEq, Eq)]
pub struct AevoMessage<T> {
    pub data: T,
    pub channel: Option<String>,
    pub id: Option<String>,
    pub error: Option<String>,
}

} // verus!
