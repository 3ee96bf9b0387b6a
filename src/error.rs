//! Request errors and how they are rendered on the wire.

use vstd::prelude::*;

use crate::codec::{error_line, UtilityStruct};

verus! {

/// Why a request produced no value.
#[derive(Debug, PartialEq, Eq)]
pub enum RequestError {
    /// The request is malformed or names no known command; holds the cause.
    InvalidRequest(String),
    /// A `GET` named an absent key; holds the key.
    KeyNotFound(String),
}

/// The text that introduces the key of a missing-key error.
pub open spec fn key_not_found_prefix() -> Seq<char> {
    "Error Key not found: "@
}

/// The reply line that stands for an error.
pub open spec fn render_error(e: RequestError) -> Seq<char> {
    match e {
        RequestError::InvalidRequest(m) => error_line(m@),
        RequestError::KeyNotFound(k) => error_line(key_not_found_prefix() + k@),
    }
}

/// Renders an error as the reply line sent to the client.
pub fn get_error_message(error: &RequestError) -> (r: String)
    ensures
        r@ == render_error(*error),
{
    match error {
        RequestError::InvalidRequest(message) => UtilityStruct::error_message(message.as_str()),
        RequestError::KeyNotFound(key) => {
            let mut text = String::from_str("Error Key not found: ");
            text.append(key.as_str());
            UtilityStruct::error_message(text.as_str())
        },
    }
}

} // verus!
