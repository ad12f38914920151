//! The decision pieces of the facade that do not touch the outside world:
//! which credential values are acceptable, and the fixed endpoint
//! configuration. The environment read, the process-wide caching and the
//! network call themselves live with the caller, which hands their results
//! to these functions and to the encoder and decoder.

use vstd::prelude::*;
use vstd::string::*;
use crate::errors::VibesortError;

verus! {

/// Decides whether a credential read from the environment is usable: absent
/// or empty yields `MissingApiKey`, anything else is returned unchanged.
pub fn validate_credential(key: Option<String>) -> (r: Result<String, VibesortError>)
    ensures
        (match key {
            None => r matches Err(VibesortError::MissingApiKey),
            Some(k) => if k@.len() == 0 {
                r matches Err(VibesortError::MissingApiKey)
            } else {
                r matches Ok(s) && s@ == k@
            },
        }),
{
    match key {
        None => Err(VibesortError::MissingApiKey),
        Some(k) => {
            if k.as_str().is_empty() {
                Err(VibesortError::MissingApiKey)
            } else {
                Ok(k)
            }
        },
    }
}

/// The name of the environment variable that supplies the bearer credential.
pub fn credential_env_var() -> (r: String)
    ensures
        r@ == "CEREBRAS_API_KEY"@,
{
    String::from_str("CEREBRAS_API_KEY")
}

/// The fixed remote endpoint the payload is posted to.
pub fn endpoint_url() -> (r: String)
    ensures
        r@ == "https://api.cerebras.ai/v1/chat/completions"@,
{
    String::from_str("https://api.cerebras.ai/v1/chat/completions")
}

} // verus!
