//! Navigation of the structured reply. The reply is arbitrary JSON held in a
//! `serde_json::Value`; the only part consumed is the first choice's message
//! content, a string at `choices[0].message.content`. The JSON value itself
//! is opaque to verification, so the navigation is one trusted call into
//! serde_json whose result carries the name `content_of`; everything around
//! it — the decision that a missing or non-string field is
//! `InvalidResponse`, and the decoding of the content text — is verified
//! against that name.

use vstd::prelude::*;
use vstd::string::*;
use crate::element::SortElement;
use crate::errors::VibesortError;
use crate::decode::{decode_spec, decode_content, DecodeOutcome};

verus! {

#[verifier::external_type_specification]
#[verifier::external_body]
pub struct ExValue(serde_json::Value);

/// The textual answer carried by a reply value: the string at
/// `choices[0].message.content`, or `None` when that field is absent or not
/// a JSON string. A deterministic function of the reply value alone.
pub uninterp spec fn content_of(v: serde_json::Value) -> Option<Seq<char>>;

/// The textual answer of a reply: the string at `choices[0].message.content`,
/// or `None` when that field is absent or not a string.
///
/// Relies on serde_json's `Value::pointer` (resolves a JSON Pointer path,
/// `None` when no such value exists) and `Value::as_str` (`Some` of the text
/// exactly when the value is a JSON string). Both are total and never panic;
/// their composition here is what the name `content_of` stands for.
#[verifier::external_body]
pub fn extract_content(reply: &serde_json::Value) -> (r: Option<String>)
    ensures
        (match r {
            Some(s) => content_of(*reply) == Some(s@),
            None => content_of(*reply) is None,
        }),
{
    reply.pointer("/choices/0/message/content").and_then(|node| node.as_str()).map(|text| {
        text.to_owned()
    })
}

/// Decodes a structured reply into a collection: the missing or non-string
/// content field is `InvalidResponse`; content text is decoded exactly as
/// `decode_content` decodes it — success iff every token of this reply's
/// content reconstructs, else the first offending raw token.
pub fn decode_response<T: SortElement>(reply: &serde_json::Value) -> (r: Result<
    Vec<T>,
    VibesortError,
>)
    ensures
        (match content_of(*reply) {
            None => r matches Err(VibesortError::InvalidResponse),
            Some(c) => (match decode_spec::<T>(c) {
                DecodeOutcome::Values(vals) => r matches Ok(out) && out@ == vals,
                DecodeOutcome::BadToken(t) => r matches Err(VibesortError::ParseError(tok))
                    && tok@ == t,
            }),
        }),
{
    match extract_content(reply) {
        None => Err(VibesortError::InvalidResponse),
        Some(text) => decode_content::<T>(text.as_str()),
    }
}

} // verus!
