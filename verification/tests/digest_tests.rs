use email_auth::digest::{
    account_code_from_hex, generate_email_hash_for_java, generate_email_nullifier_for_java,
    generate_publickey_hash_for_java, nullifier_hash_input, publickey_hash_input, reverse_bytes,
    HashOutcome,
};
use email_auth::errors::CoreError;
use email_auth::field::{field2hex, hex2field, FieldElement};

fn one() -> FieldElement {
    hex2field("0x0000000000000000000000000000000000000000000000000000000000000001").unwrap()
}

#[test]
fn nullifier_input_reverses_signature() {
    // the hash primitive must receive the signature bytes reversed
    let input = nullifier_hash_input(&vec![0x01u8, 0x02, 0x03, 0x04]);
    assert_eq!(input, vec![0x04u8, 0x03, 0x02, 0x01]);
}

#[test]
fn publickey_input_decodes_and_reverses() {
    // "0xAABB" decodes to [0xAA, 0xBB] and reverses to [0xBB, 0xAA]
    let input = publickey_hash_input("0xAABB").unwrap();
    assert_eq!(input, vec![0xBBu8, 0xAA]);
}

#[test]
fn reversing_twice_is_identity() {
    let sig = vec![9u8, 8, 7, 6, 5];
    assert_eq!(reverse_bytes(&reverse_bytes(&sig)), sig);
}

#[test]
fn digests_are_deterministic() {
    let sig = vec![1u8, 2, 3];
    assert_eq!(nullifier_hash_input(&sig), nullifier_hash_input(&sig));
    assert_eq!(
        publickey_hash_input("0x00ff").unwrap(),
        publickey_hash_input("0x00ff").unwrap()
    );
}

#[test]
fn publickey_shorter_than_prefix_is_decoding_error() {
    let r = generate_publickey_hash_for_java("0", HashOutcome::Computed(one()));
    assert!(matches!(r, Err(CoreError::DecodingError(_))));
    let r = generate_publickey_hash_for_java("", HashOutcome::Computed(one()));
    assert!(matches!(r, Err(CoreError::DecodingError(_))));
}

#[test]
fn publickey_non_hex_remainder_is_decoding_error() {
    let r = generate_publickey_hash_for_java("0xZZ", HashOutcome::Computed(one()));
    assert!(matches!(r, Err(CoreError::DecodingError(_))));
    let r = generate_publickey_hash_for_java("0xabc", HashOutcome::Computed(one()));
    assert!(matches!(r, Err(CoreError::DecodingError(_))));
}

#[test]
fn publickey_wrong_prefix_is_decoding_error() {
    let r = generate_publickey_hash_for_java("1xAABB", HashOutcome::Computed(one()));
    assert!(matches!(r, Err(CoreError::DecodingError(_))));
}

#[test]
fn publickey_hash_renders_outcome() {
    let fe = one();
    let hex = field2hex(&fe);
    assert_eq!(
        generate_publickey_hash_for_java("0xAABB", HashOutcome::Computed(fe)).unwrap(),
        hex
    );
    let r = generate_publickey_hash_for_java("0xAABB", HashOutcome::Failed);
    assert!(matches!(r, Err(CoreError::HashComputationFault)));
}

#[test]
fn nullifier_renders_outcome() {
    let fe = one();
    let hex = field2hex(&fe);
    assert_eq!(
        generate_email_nullifier_for_java(HashOutcome::Computed(fe)).unwrap(),
        hex
    );
    let r = generate_email_nullifier_for_java(HashOutcome::Failed);
    assert!(matches!(r, Err(CoreError::HashComputationFault)));
}

#[test]
fn email_hash_rejects_bad_account_code_before_outcome() {
    // odd length
    let r = generate_email_hash_for_java("0x123", HashOutcome::Computed(one()));
    assert!(matches!(r, Err(CoreError::InvalidFieldElement)));
    // non-hex character
    let r = generate_email_hash_for_java(
        "0x00000000000000000000000000000000000000000000000000000000000000g1",
        HashOutcome::Computed(one()),
    );
    assert!(matches!(r, Err(CoreError::InvalidFieldElement)));
    // value equal to the modulus: out of range
    let r = generate_email_hash_for_java(
        "0x30644e72e131a029b85045b68181585d2833e84879b9709143e1f593f0000001",
        HashOutcome::Computed(one()),
    );
    assert!(matches!(r, Err(CoreError::InvalidFieldElement)));
}

#[test]
fn email_hash_accepts_value_below_modulus() {
    let fe = one();
    let hex = field2hex(&fe);
    let r = generate_email_hash_for_java(
        "0x30644e72e131a029b85045b68181585d2833e84879b9709143e1f593f0000000",
        HashOutcome::Computed(fe),
    );
    assert_eq!(r.unwrap(), hex);
}

#[test]
fn account_code_roundtrips_through_hex() {
    let hexstr = "0x30644e72e131a029b85045b68181585d2833e84879b9709143e1f593f0000000";
    let ac = account_code_from_hex(hexstr).unwrap();
    assert_eq!(field2hex(&ac.0), hexstr);
    // uppercase digits are accepted and canonicalized to lowercase
    let ac2 = account_code_from_hex(
        "0x30644E72E131A029B85045B68181585D2833E84879B9709143E1F593F0000000",
    )
    .unwrap();
    assert_eq!(field2hex(&ac2.0), hexstr);
}
