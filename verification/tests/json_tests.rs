use email_auth::auth_input::{serialize_auth_input, EmailAuthInput};
use email_auth::digest::{generate_email_hash_for_java, HashOutcome};
use email_auth::deser::deserialize_auth_input;
use email_auth::errors::CoreError;
use email_auth::response::JavaResponse;

fn sample_input() -> EmailAuthInput {
    EmailAuthInput {
        padded_header: vec![0u8, 1, 2, 255, 16],
        public_key: vec![9u8],
        signature: vec![],
        padded_header_len: 1024,
        account_code: String::from(
            "0x0000000000000000000000000000000000000000000000000000000000abcdef",
        ),
        from_addr_idx: 5,
        subject_idx: 80,
        domain_idx: 30,
        timestamp_idx: 60,
        address_idx: -80,
        pubkey_idx: 25,
        validator_idx: 40,
    }
}

#[test]
fn payload_roundtrips_bit_for_bit() {
    let v = sample_input();
    let s = serialize_auth_input(&v);
    let w = deserialize_auth_input(&s).unwrap();
    assert_eq!(w, v);
}

#[test]
fn payload_roundtrips_with_extreme_values() {
    let mut v = sample_input();
    v.padded_header = vec![];
    v.padded_header_len = usize::MAX;
    v.timestamp_idx = i64::MIN;
    v.address_idx = i64::MAX;
    v.pubkey_idx = 0;
    v.validator_idx = -1;
    let s = serialize_auth_input(&v);
    let w = deserialize_auth_input(&s).unwrap();
    assert_eq!(w, v);
}

#[test]
fn deserializer_rejects_trailing_text() {
    let v = sample_input();
    let mut s = serialize_auth_input(&v);
    s.push(' ');
    assert!(deserialize_auth_input(&s).is_none());
}

#[test]
fn deserializer_rejects_mangled_text() {
    let v = sample_input();
    let s = serialize_auth_input(&v);
    let mangled = s.replace("padded_header", "padded_headex");
    assert!(deserialize_auth_input(&mangled).is_none());
}

#[test]
fn payload_json_matches_schema() {
    let v = sample_input();
    let s = serialize_auth_input(&v);
    let j: serde_json::Value = serde_json::from_str(&s).unwrap();
    assert_eq!(j["padded_header"][3].as_u64(), Some(255));
    assert_eq!(j["public_key"][0].as_u64(), Some(9));
    assert_eq!(j["signature"].as_array().unwrap().len(), 0);
    assert_eq!(j["padded_header_len"].as_u64(), Some(1024));
    assert_eq!(
        j["account_code"].as_str(),
        Some("0x0000000000000000000000000000000000000000000000000000000000abcdef")
    );
    assert_eq!(j["from_addr_idx"].as_u64(), Some(5));
    assert_eq!(j["subject_idx"].as_u64(), Some(80));
    assert_eq!(j["domain_idx"].as_u64(), Some(30));
    assert_eq!(j["timestamp_idx"].as_i64(), Some(60));
    assert_eq!(j["address_idx"].as_i64(), Some(-80));
    assert_eq!(j["pubkey_idx"].as_i64(), Some(25));
    assert_eq!(j["validator_idx"].as_i64(), Some(40));
}

#[test]
fn success_envelope_has_code_zero_and_payload() {
    let env = JavaResponse::success_response("payload-text");
    assert_eq!(env.code, 0);
    assert_eq!(env.msg, "rust call success");
    assert_eq!(env.data.as_deref(), Some("payload-text"));
    let j: serde_json::Value = serde_json::from_str(&env.to_json()).unwrap();
    assert_eq!(j["code"].as_u64(), Some(0));
    assert_eq!(j["msg"].as_str(), Some("rust call success"));
    assert_eq!(j["data"].as_str(), Some("payload-text"));
}

#[test]
fn error_envelope_has_code_one_and_null_data() {
    let env = JavaResponse::error_response(
        "account is wrong value",
        &CoreError::InvalidFieldElement,
    );
    assert_eq!(env.code, 1);
    assert!(env.data.is_none());
    let j: serde_json::Value = serde_json::from_str(&env.to_json()).unwrap();
    assert_eq!(j["code"].as_u64(), Some(1));
    assert!(j["data"].is_null());
    let msg = j["msg"].as_str().unwrap();
    assert!(msg.contains("account is wrong value"));
    assert!(msg.contains("field element"));
}

#[test]
fn envelope_escapes_awkward_messages() {
    let env = JavaResponse::error_response(
        "op",
        &CoreError::RuntimeFault(String::from("quote \" slash \\ newline \n tab \t end")),
    );
    let j: serde_json::Value = serde_json::from_str(&env.to_json()).unwrap();
    let msg = j["msg"].as_str().unwrap();
    assert!(msg.contains("quote \" slash \\ newline \n tab \t end"));
}

#[test]
fn envelope_of_wraps_both_outcomes() {
    let ok = JavaResponse::envelope_of("op", &Ok(String::from("x")));
    assert_eq!(ok.code, 0);
    assert_eq!(ok.data.as_deref(), Some("x"));
    let err = JavaResponse::envelope_of(
        "op",
        &Err(CoreError::DecodingError(String::from("bad hex"))),
    );
    assert_eq!(err.code, 1);
    assert!(err.data.is_none());
    assert!(err.msg.contains("bad hex"));
}

#[test]
fn bad_account_codes_always_yield_error_envelopes() {
    for code in [
        "0x123",  // odd length
        "0x00000000000000000000000000000000000000000000000000000000000000g1",  // non-hex
        "0x30644e72e131a029b85045b68181585d2833e84879b9709143e1f593f0000001",  // = modulus
        "0x30644e72e131a029b85045b68181585d2833e84879b9709143e1f593f0000002",  // > modulus
    ] {
        let outcome = generate_email_hash_for_java(code, HashOutcome::Failed);
        let env = JavaResponse::envelope_of("generate_email_hash_for_java failed", &outcome);
        let j: serde_json::Value = serde_json::from_str(&env.to_json()).unwrap();
        assert_eq!(j["code"].as_u64(), Some(1));
        assert!(j["data"].is_null());
    }
}

#[test]
fn envelope_message_names_operation_and_cause() {
    let env = JavaResponse::error_response("opname", &CoreError::HashComputationFault);
    assert_eq!(
        env.msg,
        "err_msg: opname reason:hash primitive computation failed"
    );
}
