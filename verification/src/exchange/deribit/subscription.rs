//! Deribit's answer to a subscription request.

use vstd::prelude::*;
use crate::decimal::{int_text, push_int};
use crate::error::SocketError;

verus! {

/// The answer to a subscription request: the channels that were
/// subscribed, or an error.
#[derive(Clone, Debug, PartialEq, Eq)]
pub struct DeribitSubResponse {
    pub jsonrpc: String,
    pub id: Option<i32>,
    pub result: Option<Vec<String>>,
    pub error: Option<DeribitError>,
}

/// An error as the venue reports it.
#[derive(Clone, Debug, PartialEq, Eq)]
pub struct DeribitError {
    pub code: i64,
    pub message: String,
}

impl DeribitSubResponse {
    /// The message of the failure that an answer with this error stands
    /// for.
    pub open spec fn failure_text(code: i64, message: Seq<char>) -> Seq<char> {
        "Received failure subscription response code: "@ + int_text(code as int)
            + " with message: "@ + message
    }

    /// Whether the answer names no channel: it has no result, or an empty
    /// one.
    pub open spec fn is_empty(&self) -> bool {
        match self.result {
            Some(channels) => channels@.len() == 0,
            None => true,
        }
    }

    /// Accepts an answer that names no error and at least one channel. An
    /// answer with an error fails with that error's code and text; one
    /// without channels fails as empty.
    pub fn validate(self) -> (result: Result<Self, SocketError>)
        ensures
            self.error matches Some(error) ==> (result matches Err(SocketError::Subscribe(text))
                && text@ == Self::failure_text(error.code, error.message@)),
            self.error is None && self.is_empty() ==> (result matches Err(
                SocketError::Subscribe(text),
            ) && text@ == "Received empty subscription response"@),
            self.error is None && !self.is_empty() ==> result == Ok::<Self, SocketError>(self),
    {
        match &self.error {
            Some(error) => {
                let mut text = String::from_str("Received failure subscription response code: ");
                push_int(&mut text, error.code);
                text.append(" with message: ");
                text.append(error.message.as_str());
                return Err(SocketError::Subscribe(text));
            },
            None => {},
        }
        let empty = match &self.result {
            Some(channels) => channels.len() == 0,
            None => true,
        };
        if empty {
            Err(SocketError::Subscribe(String::from_str("Received empty subscription response")))
        } else {
            Ok(self)
        }
    }
}

} // verus!
