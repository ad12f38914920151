//! A "sort" library that does not sort: it delegates the ordering decision to
//! a remote language-model inference endpoint. The library encodes a
//! collection as a textual prompt, hands the network exchange to its caller,
//! and decodes the textual reply back into typed values.
//!
//! Nothing here guarantees that the reply is actually sorted, length-preserving
//! or duplicate-free: the library is a fallible proxy to a remote
//! decision-maker, not a sorting algorithm. What it does pin down is the exact
//! text it sends and the exact way a reply text is parsed or rejected.

pub mod decode;
pub mod element;
pub mod encode;
pub mod errors;
pub mod facade;
pub mod laws;
pub mod numeral;
pub mod reply;
pub mod signed;
pub mod text;

pub use decode::decode_content;
pub use decode::decode_reply;
pub use element::SortElement;
pub use encode::PromptPayload;
pub use encode::encode_prompt;
pub use errors::VibesortError;
pub use facade::credential_env_var;
pub use facade::endpoint_url;
pub use facade::validate_credential;
pub use reply::decode_response;
pub use reply::extract_content;
