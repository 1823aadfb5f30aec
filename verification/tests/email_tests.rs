use email_auth::auth_input::{assemble, generate_email_auth_input_for_java, PaddedCircuitParts};
use email_auth::deser::deserialize_auth_input;
use email_auth::digest::account_code_from_hex;
use email_auth::email::{normalize_indexes, relative_to_subject, ParsedEmail};
use email_auth::errors::CoreError;

fn sample_email() -> ParsedEmail {
    ParsedEmail {
        canonicalized_header: vec![0u8; 200],
        signature: vec![1u8, 2, 3, 4],
        public_key: vec![5u8, 6],
        from_addr: Some((5, 20)),
        domain: Some((30, 11)),
        subject: Some((80, 60)),
        address: Some((90, 12)),
        pubkey: Some((105, 8)),
        validator: Some((120, 10)),
        timestamp: Some((140, 10)),
    }
}

fn sample_parts() -> PaddedCircuitParts {
    PaddedCircuitParts {
        padded_header: vec![7u8, 8, 9],
        padded_header_len: 1024,
        signature: vec![1u8, 2, 3, 4],
        public_key: vec![5u8, 6],
    }
}

fn sample_code() -> &'static str {
    "0x0000000000000000000000000000000000000000000000000000000000abcdef"
}

#[test]
fn all_present_offsets_follow_both_coordinate_systems() {
    let pe = sample_email();
    let ac = account_code_from_hex(sample_code()).unwrap();
    let v = assemble(&pe, sample_parts(), &ac).unwrap();
    assert_eq!(v.from_addr_idx, 5);
    assert_eq!(v.domain_idx, 30);
    assert_eq!(v.subject_idx, 80);
    assert_eq!(v.address_idx, 90 - 80);
    assert_eq!(v.pubkey_idx, 105 - 80);
    assert_eq!(v.validator_idx, 120 - 80);
    assert_eq!(v.timestamp_idx, 140 - 80);
}

#[test]
fn validator_at_120_with_subject_80_gives_40() {
    // header round-trip scenario: subject_start 80, validator at absolute 120
    let pe = sample_email();
    let ac = account_code_from_hex(sample_code()).unwrap();
    let s = generate_email_auth_input_for_java(&pe, sample_parts(), &ac).unwrap();
    let v = deserialize_auth_input(&s).unwrap();
    assert_eq!(v.validator_idx, 40);
}

#[test]
fn generated_payload_is_json_with_both_coordinate_systems() {
    let pe = sample_email();
    let ac = account_code_from_hex(sample_code()).unwrap();
    let s = generate_email_auth_input_for_java(&pe, sample_parts(), &ac).unwrap();
    let j: serde_json::Value = serde_json::from_str(&s).unwrap();
    assert_eq!(j["from_addr_idx"].as_u64(), Some(5));
    assert_eq!(j["domain_idx"].as_u64(), Some(30));
    assert_eq!(j["subject_idx"].as_u64(), Some(80));
    assert_eq!(j["validator_idx"].as_i64(), Some(40));
    assert_eq!(j["address_idx"].as_i64(), Some(10));
    assert_eq!(j["account_code"].as_str(), Some(sample_code()));
}

#[test]
fn missing_from_address_fails_the_request() {
    let mut pe = sample_email();
    pe.from_addr = None;
    let r = normalize_indexes(&pe);
    match r {
        Err(CoreError::RequiredFieldMissing(f)) => assert_eq!(f, "from address"),
        other => panic!("expected a required-field failure, got {:?}", other),
    }
}

#[test]
fn missing_domain_fails_the_request() {
    let mut pe = sample_email();
    pe.domain = None;
    let r = normalize_indexes(&pe);
    match r {
        Err(CoreError::RequiredFieldMissing(f)) => assert_eq!(f, "domain"),
        other => panic!("expected a required-field failure, got {:?}", other),
    }
}

#[test]
fn missing_subject_fails_the_whole_assembly() {
    let mut pe = sample_email();
    pe.subject = None;
    let ac = account_code_from_hex(sample_code()).unwrap();
    let r = assemble(&pe, sample_parts(), &ac);
    assert!(matches!(r, Err(CoreError::RequiredFieldMissing(_))));
}

#[test]
fn absent_optional_fields_do_not_fail_and_default_to_zero() {
    let mut pe = sample_email();
    pe.address = None;
    pe.pubkey = None;
    pe.validator = None;
    pe.timestamp = None;
    let ac = account_code_from_hex(sample_code()).unwrap();
    let v = assemble(&pe, sample_parts(), &ac).unwrap();
    // an absent field defaults to absolute start zero, then shifts by the
    // subject start: exactly -80, with no wrapping
    assert_eq!(v.address_idx, -80);
    assert_eq!(v.pubkey_idx, -80);
    assert_eq!(v.validator_idx, -80);
    assert_eq!(v.timestamp_idx, -80);
}

#[test]
fn relative_shift_handles_zero_subject() {
    assert_eq!(relative_to_subject(Some(7), 0), 7);
    assert_eq!(relative_to_subject(None, 0), 0);
}

#[test]
fn account_code_passes_through_hex_encoded() {
    let pe = sample_email();
    let ac = account_code_from_hex(sample_code()).unwrap();
    let v = assemble(&pe, sample_parts(), &ac).unwrap();
    assert_eq!(v.account_code, sample_code());
    assert_eq!(v.padded_header, vec![7u8, 8, 9]);
    assert_eq!(v.padded_header_len, 1024);
    assert_eq!(v.signature, vec![1u8, 2, 3, 4]);
    assert_eq!(v.public_key, vec![5u8, 6]);
}
