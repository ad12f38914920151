//! End-to-end behaviour of the delegation pipeline: prompt encoding, reply
//! decoding, the error taxonomy, and the round trip between the two.

use vibesort::{
    decode_content, decode_reply, decode_response, encode_prompt, extract_content,
    validate_credential, credential_env_var, endpoint_url, VibesortError,
};

#[test]
fn encoder_formats_the_example_collection() {
    let input: Vec<u64> = vec![69, 41, 67, 19, 21, 420, 4];
    let payload = encode_prompt(&input);
    assert_eq!(payload.user_message, "[69, 41, 67, 19, 21, 420, 4]");
}

#[test]
fn encoder_fixes_the_wire_constants() {
    let input: Vec<u64> = vec![1];
    let payload = encode_prompt(&input);
    assert_eq!(payload.model, "llama-4-maverick-17b-128e-instruct");
    assert!(!payload.stream);
    assert_eq!(payload.max_tokens, 128);
    assert_eq!(payload.temperature_tenths, 1);
    assert_eq!(
        payload.system_message,
        "Return only sorted array in format [1, 2, 3]. No text."
    );
    assert_eq!(endpoint_url(), "https://api.cerebras.ai/v1/chat/completions");
    assert_eq!(credential_env_var(), "CEREBRAS_API_KEY");
}

#[test]
fn encoder_handles_empty_and_singleton() {
    let empty: Vec<u64> = vec![];
    assert_eq!(encode_prompt(&empty).user_message, "[]");
    let one: Vec<u64> = vec![5];
    assert_eq!(encode_prompt(&one).user_message, "[5]");
}

#[test]
fn decoder_parses_the_example_reply() {
    let out = decode_content::<u64>("[4, 19, 21, 41, 67, 69, 420]").unwrap();
    assert_eq!(out, vec![4, 19, 21, 41, 67, 69, 420]);
}

#[test]
fn round_trip_is_identity_on_echoed_reply() {
    let input: Vec<u64> = vec![69, 41, 67, 19, 21, 420, 4];
    let payload = encode_prompt(&input);
    let decoded = decode_content::<u64>(&payload.user_message).unwrap();
    assert_eq!(decoded, input);
}

#[test]
fn decoder_trims_whitespace_and_strips_one_bracket_pair() {
    assert_eq!(decode_content::<u64>("  [1, 2]\n").unwrap(), vec![1, 2]);
    // One missing bracket is tolerated; the other is still stripped.
    assert_eq!(decode_content::<u64>("1, 2]").unwrap(), vec![1, 2]);
    assert_eq!(decode_content::<u64>("[7").unwrap(), vec![7]);
    // Only one bracket is stripped per side: a doubled bracket reaches the
    // first token and fails its reconstruction.
    let err = decode_content::<u64>("[[1, 2]").unwrap_err();
    assert!(matches!(err, VibesortError::ParseError(t) if t == "[1"));
}

#[test]
fn decoder_reports_the_offending_raw_token() {
    let err = decode_content::<u64>("[4, x9, 7]").unwrap_err();
    assert!(matches!(err, VibesortError::ParseError(t) if t == "x9"));
    let err = decode_content::<u64>("[4 5]").unwrap_err();
    assert!(matches!(err, VibesortError::ParseError(t) if t == "4 5"));
}

#[test]
fn decoder_rejects_the_empty_reply_body() {
    let err = decode_content::<u64>("[]").unwrap_err();
    assert!(matches!(err, VibesortError::ParseError(t) if t.is_empty()));
}

#[test]
fn decoder_accepts_a_reply_of_any_length() {
    // A remote service that drops elements goes unnoticed as long as every
    // token parses: the pipeline is deliberately permissive about length.
    let out = decode_content::<u64>("[1, 2]").unwrap();
    assert_eq!(out.len(), 2);
    let out = decode_content::<u64>("[1, 2, 3, 4, 5, 6, 7, 8, 9]").unwrap();
    assert_eq!(out.len(), 9);
}

#[test]
fn missing_content_field_is_invalid_response() {
    let err = decode_reply::<u64>(None).unwrap_err();
    assert!(matches!(err, VibesortError::InvalidResponse));
}

#[test]
fn reply_navigation_finds_the_content_string() {
    let reply: serde_json::Value =
        serde_json::from_str("{\"choices\":[{\"message\":{\"content\":\"[1, 2, 3]\"}}]}")
            .unwrap();
    assert_eq!(extract_content(&reply).unwrap(), "[1, 2, 3]");
    let out = decode_response::<u64>(&reply).unwrap();
    assert_eq!(out, vec![1, 2, 3]);
}

#[test]
fn non_string_content_is_invalid_response() {
    let reply: serde_json::Value =
        serde_json::from_str("{\"choices\":[{\"message\":{\"content\":42}}]}").unwrap();
    assert!(extract_content(&reply).is_none());
    let err = decode_response::<u64>(&reply).unwrap_err();
    assert!(matches!(err, VibesortError::InvalidResponse));
}

#[test]
fn absent_choices_is_invalid_response() {
    let reply: serde_json::Value = serde_json::from_str("{}").unwrap();
    let err = decode_response::<u64>(&reply).unwrap_err();
    assert!(matches!(err, VibesortError::InvalidResponse));
}

#[test]
fn bad_token_inside_a_real_reply_is_a_parse_failure() {
    let reply: serde_json::Value =
        serde_json::from_str("{\"choices\":[{\"message\":{\"content\":\"[1, nope]\"}}]}")
            .unwrap();
    let err = decode_response::<u64>(&reply).unwrap_err();
    assert!(matches!(err, VibesortError::ParseError(t) if t == "nope"));
}

#[test]
fn absent_or_empty_credential_is_rejected() {
    let err = validate_credential(None).unwrap_err();
    assert!(matches!(err, VibesortError::MissingApiKey));
    let err = validate_credential(Some(String::new())).unwrap_err();
    assert!(matches!(err, VibesortError::MissingApiKey));
    let ok = validate_credential(Some(String::from("some-key"))).unwrap();
    assert_eq!(ok, "some-key");
}

#[test]
fn error_messages_match_the_taxonomy() {
    assert_eq!(
        VibesortError::MissingApiKey.message(),
        "Environment variable CEREBRAS_API_KEY not found"
    );
    assert_eq!(
        VibesortError::RequestError(String::from("timed out")).message(),
        "HTTP request failed: timed out"
    );
    assert_eq!(
        VibesortError::ParseError(String::from("x9")).message(),
        "Failed to parse response: x9"
    );
    assert_eq!(
        VibesortError::InvalidResponse.message(),
        "Invalid response format"
    );
}
