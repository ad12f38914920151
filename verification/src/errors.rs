//! The failure taxonomy of the delegation pipeline. Every stage reports its
//! failure through this one type; nothing is retried or swallowed.

use vstd::prelude::*;
use vstd::string::*;

verus! {

/// Why a delegated sort failed.
#[derive(Debug)]
pub enum VibesortError {
    /// The credential environment variable is absent or empty.
    MissingApiKey,
    /// A network-layer problem (connection, timeout, undecodable body),
    /// carrying a description of the underlying cause.
    RequestError(String),
    /// A reply token could not be reconstructed into the element type;
    /// carries the offending raw token.
    ParseError(String),
    /// The structured reply lacks the expected textual content field.
    InvalidResponse,
}

/// The human-readable description of each failure.
pub open spec fn message_spec(e: &VibesortError) -> Seq<char> {
    match e {
        VibesortError::MissingApiKey => "Environment variable CEREBRAS_API_KEY not found"@,
        VibesortError::RequestError(cause) => "HTTP request failed: "@ + cause@,
        VibesortError::ParseError(token) => "Failed to parse response: "@ + token@,
        VibesortError::InvalidResponse => "Invalid response format"@,
    }
}

impl VibesortError {
    /// Renders the failure as text, in place of a `Display` implementation.
    pub fn message(&self) -> (r: String)
        ensures
            r@ == message_spec(self),
    {
        match self {
            VibesortError::MissingApiKey => String::from_str(
                "Environment variable CEREBRAS_API_KEY not found",
            ),
            VibesortError::RequestError(cause) => {
                let mut s = String::from_str("HTTP request failed: ");
                s.append(cause.as_str());
                s
            },
            VibesortError::ParseError(token) => {
                let mut s = String::from_str("Failed to parse response: ");
                s.append(token.as_str());
                s
            },
            VibesortError::InvalidResponse => String::from_str("Invalid response format"),
        }
    }
}

} // verus!
