//! Aevo's answer to a subscription request.

use vstd::prelude::*;
use crate::error::SocketError;

verus! {

/// The answer to a subscription request: the channels that were
/// subscribed, or an error.
#[derive(Clone, Debug, PartialEq, Eq)]
pub struct AevoSubResponse {
    pub data: Vec<String>,
    pub error: Option<String>,
}

impl AevoSubResponse {
    /// The message of the failure that an answer with error `reason`
    /// stands for.
    pub open spec fn failure_text(reason: Seq<char>) -> Seq<char> {
        "Received failure subscription response with message: "@ + reason
    }

    /// Accepts an answer that names no error and at least one channel. An
    /// answer with an error fails with that error's text; one without
    /// channels fails as empty.
    pub fn validate(self) -> (result: Result<Self, SocketError>)
        ensures
            self.error matches Some(reason) ==> (result matches Err(SocketError::Subscribe(text))
                && text@ == Self::failure_text(reason@)),
            self.error is None && self.data@.len() == 0 ==> (result matches Err(
                SocketError::Subscribe(text),
            ) && text@ == "Received empty subscription response"@),
            self.error is None && self.data@.len() > 0 ==> result == Ok::<Self, SocketError>(self),
    {
        match &self.error {
            Some(reason) => {
                let mut text = String::from_str(
                    "Received failure subscription response with message: ",
                );
                text.append(reason.as_str());
                return Err(SocketError::Subscribe(text));
            },
            None => {},
        }
        if self.data.len() == 0 {
            Err(SocketError::Subscribe(String::from_str("Received empty subscription response")))
        } else {
            Ok(self)
        }
    }
}

} // verus!
