//! The digest-derivation core: preparation of the bytes handed to the
//! external hash primitive (byte-order reversal, prefixed-hex decoding) and
//! the rendering of the primitive's outcome into each operation's result.
//!
//! The hash primitive itself is a collaborator of the surrounding system: a
//! one-way field-element derivation. The functions here fix exactly what it
//! is given, and say what each operation returns for every outcome it can
//! report.

use vstd::prelude::*;
use crate::errors::CoreError;
use crate::field::{field_hex, field2hex, hex2field, valid_field_hex, AccountCode, FieldElement};
use crate::hex_codec::{bytes_of_hex, valid_hex_seq, hex_decode};

verus! {

/// What one call of the external hash primitive reported: the derived field
/// element, or a failure of the primitive itself.
pub enum HashOutcome {
    /// The primitive returned this field element.
    Computed(FieldElement),
    /// The primitive reported an error.
    Failed,
}

/// Copies a byte vector in reverse order.
pub fn reverse_bytes(v: &Vec<u8>) -> (r: Vec<u8>)
    ensures
        r@ == v@.reverse(),
{
    let n = v.len();
    let mut out: Vec<u8> = Vec::new();
    let mut i: usize = 0;
    while i < n
        invariant
            i <= n,
            n == v@.len(),
            out@.len() == i,
            forall|j: int| 0 <= j < i ==> out@[j] == v@[n - 1 - j],
        decreases n - i,
    {
        out.push(v[n - 1 - i]);
        i += 1;
    }
    proof {
        assert(out@ =~= v@.reverse());
    }
    out
}

/// The bytes the nullifier derivation hands to the hash primitive: the
/// signature with its byte order reversed.
pub fn nullifier_hash_input(signature: &Vec<u8>) -> (r: Vec<u8>)
    ensures
        r@ == signature@.reverse(),
{
    reverse_bytes(signature)
}

/// Public-key text the hash operation accepts: the two-character `0x`
/// prefix, then hex digits of either case, an even count of them.
pub open spec fn valid_publickey_hex(s: Seq<char>) -> bool {
    s.len() >= 2 && s[0] == '0' && s[1] == 'x' && valid_hex_seq(s.skip(2))
}

/// The bytes the public-key hash hands to the hash primitive: the decoded
/// key with its byte order reversed.
pub open spec fn publickey_hash_input_spec(s: Seq<char>) -> Seq<u8> {
    bytes_of_hex(s.skip(2)).reverse()
}

/// Validates and strips the `0x` prefix, decodes the remaining hex and
/// reverses the byte order: the exact bytes handed to the hash primitive.
pub fn publickey_hash_input(publickey: &str) -> (r: Result<Vec<u8>, CoreError>)
    ensures
        r is Ok <==> valid_publickey_hex(publickey@),
        r matches Ok(b) ==> b@ == publickey_hash_input_spec(publickey@),
        r matches Err(e) ==> (e matches CoreError::DecodingError(d) && d@ == publickey@),
{
    let n = publickey.unicode_len();
    proof {
        reveal_strlit("0");
        reveal_strlit("x");
    }
    if n < 2 {
        return Err(CoreError::DecodingError(String::from_str(publickey)));
    }
    if publickey.get_char(0) != '0' || publickey.get_char(1) != 'x' {
        return Err(CoreError::DecodingError(String::from_str(publickey)));
    }
    let rest = publickey.substring_char(2, n);
    proof {
        assert(rest@ =~= publickey@.skip(2));
    }
    match hex_decode(rest) {
        None => Err(CoreError::DecodingError(String::from_str(publickey))),
        Some(bytes) => Ok(reverse_bytes(&bytes)),
    }
}

/// Decodes a caller-supplied account code from its canonical hex text.
pub fn account_code_from_hex(s: &str) -> (r: Result<AccountCode, CoreError>)
    ensures
        r is Ok <==> valid_field_hex(s@),
        r matches Ok(ac) ==> ac.0.wf() && ac.0.bytes@ == bytes_of_hex(s@.skip(2)),
        r matches Err(e) ==> e == CoreError::InvalidFieldElement,
{
    match hex2field(s) {
        Ok(fe) => Ok(AccountCode(fe)),
        Err(e) => Err(e),
    }
}

/// Renders the nullifier operation's result from the hash primitive's
/// outcome on the reversed signature bytes (`nullifier_hash_input`).
pub fn generate_email_nullifier_for_java(hashed: HashOutcome) -> (r: Result<String, CoreError>)
    ensures
        r is Ok <==> hashed is Computed,
        hashed matches HashOutcome::Computed(fe) ==> (r matches Ok(s) && s@ == field_hex(fe)),
        hashed is Failed ==> (r matches Err(e) && e == CoreError::HashComputationFault),
{
    match hashed {
        HashOutcome::Computed(fe) => Ok(field2hex(&fe)),
        HashOutcome::Failed => Err(CoreError::HashComputationFault),
    }
}

/// Renders the public-key hash operation's result: rejects malformed key
/// text before anything else, then renders the hash primitive's outcome on
/// the prepared bytes (`publickey_hash_input`).
pub fn generate_publickey_hash_for_java(publickey: &str, hashed: HashOutcome) -> (r: Result<
    String,
    CoreError,
>)
    ensures
        r is Ok <==> (valid_publickey_hex(publickey@) && hashed is Computed),
        !valid_publickey_hex(publickey@) ==> (r matches Err(e) && e matches
            CoreError::DecodingError(d) && d@ == publickey@),
        hashed matches HashOutcome::Computed(fe) ==> (valid_publickey_hex(publickey@) ==> (
        r matches Ok(s) && s@ == field_hex(fe))),
        valid_publickey_hex(publickey@) && hashed is Failed ==> (r matches Err(e)
            && e == CoreError::HashComputationFault),
{
    match publickey_hash_input(publickey) {
        Err(e) => Err(e),
        Ok(_) => match hashed {
            HashOutcome::Computed(fe) => Ok(field2hex(&fe)),
            HashOutcome::Failed => Err(CoreError::HashComputationFault),
        },
    }
}

/// Renders the email hash (account salt) operation's result: rejects an
/// account code that is not an in-range field element before anything else,
/// then renders the salt derivation's outcome.
pub fn generate_email_hash_for_java(account_code_str: &str, salted: HashOutcome) -> (r: Result<
    String,
    CoreError,
>)
    ensures
        r is Ok <==> (valid_field_hex(account_code_str@) && salted is Computed),
        !valid_field_hex(account_code_str@) ==> (r matches Err(e)
            && e == CoreError::InvalidFieldElement),
        salted matches HashOutcome::Computed(fe) ==> (valid_field_hex(account_code_str@) ==> (
        r matches Ok(s) && s@ == field_hex(fe))),
        valid_field_hex(account_code_str@) && salted is Failed ==> (r matches Err(e)
            && e == CoreError::HashComputationFault),
{
    match hex2field(account_code_str) {
        Err(e) => Err(e),
        Ok(_) => match salted {
            HashOutcome::Computed(fe) => Ok(field2hex(&fe)),
            HashOutcome::Failed => Err(CoreError::HashComputationFault),
        },
    }
}

/// Law: reversing a byte sequence twice restores it, so the single reversal
/// each digest performs is applied exactly once, never cancelled.
pub proof fn lemma_reverse_involutive(s: Seq<u8>)
    ensures
        s.reverse().reverse() == s,
{
    assert(s.reverse().reverse() =~= s);
}

/// Law: the digest preparations are pure functions of their input: on equal
/// inputs the bytes handed to the hash primitive, and with them the hex the
/// operations return for equal primitive outcomes, are equal.
pub proof fn lemma_digest_inputs_deterministic(
    sig1: Seq<u8>,
    sig2: Seq<u8>,
    pk1: Seq<char>,
    pk2: Seq<char>,
)
    requires
        sig1 == sig2,
        pk1 == pk2,
    ensures
        sig1.reverse() == sig2.reverse(),
        publickey_hash_input_spec(pk1) == publickey_hash_input_spec(pk2),
{
}

} // verus!
