use fints::token::{
    decode_resume_token, encode_resume_token, frame_token, json_of_inflated, unframe_token,
    CompressStage,
};
use serde_json::Value;

fn session_json() -> Vec<u8> {
    let mut session = serde_json::Map::new();
    session.insert("version".to_string(), Value::from(1));
    session.insert("bank_id".to_string(), Value::from("12030000"));
    session.insert("bank_url".to_string(), Value::from("https://fints.dkb.de/fints"));
    session.insert("blz".to_string(), Value::from("12030000"));
    session.insert("user_id".to_string(), Value::from("testuser"));
    session.insert("system_id".to_string(), Value::from("abc123"));
    session.insert("bpd_version".to_string(), Value::from(78));
    session.insert("upd_version".to_string(), Value::from(3));
    session.insert("tan_methods".to_string(), Value::Array(Vec::new()));
    session.insert("selected_security_function".to_string(), Value::from("912"));
    session.insert("accounts".to_string(), Value::Array(Vec::new()));
    session.insert("operation_tan_required".to_string(), Value::Object(serde_json::Map::new()));
    session.insert("saved_at".to_string(), Value::from("2024-01-01T12:00:00Z"));
    serde_json::to_vec(&Value::Object(session)).unwrap()
}

#[test]
fn test_resume_token_roundtrip() {
    let session = session_json();

    let token = encode_resume_token(&session).unwrap();
    assert!(token.starts_with("FINTS_TOKEN:"));

    let json = decode_resume_token(&token).unwrap();
    let decoded: Value = serde_json::from_slice(&json).unwrap();
    assert_eq!(decoded["bank_id"], "12030000");
    assert_eq!(decoded["user_id"], "testuser");
    assert_eq!(decoded["system_id"], "abc123");
    assert_eq!(decoded["bpd_version"], 78);
    assert_eq!(json, session);
}

#[test]
fn test_resume_token_rejects_invalid() {
    let result = decode_resume_token("NOT_A_TOKEN");
    assert!(result.is_err());
}

#[test]
fn a_token_is_shorter_than_what_repeats() {
    let json = vec![65_u8; 10_000];
    let token = encode_resume_token(&json).unwrap();
    assert!(token.len() < 1_000);
    assert_eq!(decode_resume_token(&token).unwrap(), json);
}

#[test]
fn white_space_round_a_token_does_not_count() {
    let token = encode_resume_token(b"{}").unwrap();
    let padded = format!("\n  {}\t\n", token);
    assert_eq!(decode_resume_token(&padded).unwrap(), b"{}");
}

#[test]
fn the_empty_session_has_a_token() {
    let token = encode_resume_token(b"").unwrap();
    assert_eq!(decode_resume_token(&token).unwrap(), Vec::<u8>::new());
}

#[test]
fn each_failure_to_read_a_token_has_its_message() {
    assert_eq!(
        decode_resume_token("fints_token:AAAA").unwrap_err(),
        "Token must start with 'FINTS_TOKEN:'"
    );
    assert_eq!(
        decode_resume_token("FINTS_TOKEN:?").unwrap_err(),
        "Base64 decode error: Invalid symbol 63, offset 0."
    );
    assert_eq!(
        decode_resume_token("FINTS_TOKEN:QUJD").unwrap_err(),
        "Decompression error: corrupt deflate stream"
    );
}

#[test]
fn tokens_are_framed() {
    assert_eq!(frame_token(Ok(b"ABC".to_vec())).unwrap(), "FINTS_TOKEN:QUJD");
    assert_eq!(
        frame_token(Err((CompressStage::Write, "full".to_string()))).unwrap_err(),
        "Compression error: full"
    );
    assert_eq!(
        frame_token(Err((CompressStage::Finish, "full".to_string()))).unwrap_err(),
        "Compression finish error: full"
    );
    assert_eq!(unframe_token(" FINTS_TOKEN:QUJD ").unwrap(), b"ABC");
    assert_eq!(unframe_token("FINTS_TOKEN:").unwrap(), Vec::<u8>::new());
    assert_eq!(json_of_inflated(Ok(b"{}".to_vec())).unwrap(), b"{}");
    assert_eq!(
        json_of_inflated(Err("x".to_string())).unwrap_err(),
        "Decompression error: x"
    );
}
