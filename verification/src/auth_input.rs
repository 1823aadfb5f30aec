//! Assembly of the circuit input payload: the padder's results, the account
//! code, and the seven offsets in their two coordinate systems, serialized as
//! one JSON exchange string.

use vstd::prelude::*;
use crate::email::{normalize_indexes, relative_idx, relative_to_subject, EmailOffsets, ParsedEmail};
use crate::errors::CoreError;
use crate::field::{field_hex, field2hex, AccountCode};
use crate::json::{append_json_quoted, append_u8_array, json_quoted, json_u8_array};
use crate::numeric::{dec_of, dec_of_int, fmt_i64, fmt_usize};

verus! {

/// What the external circuit padder reports for one message: the padded
/// header with its padded length, and the circuit-shaped signature and
/// public-key representations.
pub struct PaddedCircuitParts {
    /// Header bytes padded to the circuit's block size.
    pub padded_header: Vec<u8>,
    /// The padded header length the padder reports.
    pub padded_header_len: usize,
    /// The signature representation the padder emits.
    pub signature: Vec<u8>,
    /// The public-key representation the padder emits.
    pub public_key: Vec<u8>,
}

/// The circuit input payload of one request. `from_addr_idx` and
/// `domain_idx` are absolute offsets into the padded header; `subject_idx`
/// is absolute and is the origin of the second coordinate system;
/// `timestamp_idx`, `address_idx`, `pubkey_idx` and `validator_idx` are
/// subject-relative: `absolute_start - subject_idx`, an absent optional
/// field defaulting to an absolute start of zero first.
#[derive(Debug, PartialEq, Eq)]
pub struct EmailAuthInput {
    /// Padded header bytes.
    pub padded_header: Vec<u8>,
    /// Public-key representation from the padder.
    pub public_key: Vec<u8>,
    /// Signature representation from the padder.
    pub signature: Vec<u8>,
    /// The padded header length the padder reports.
    pub padded_header_len: usize,
    /// The caller's account code, canonically hex-encoded.
    pub account_code: String,
    /// Absolute start of the from-address field.
    pub from_addr_idx: usize,
    /// Absolute start of the subject: origin of the relative offsets.
    pub subject_idx: usize,
    /// Absolute start of the domain field.
    pub domain_idx: usize,
    /// Subject-relative start of the timestamp field.
    pub timestamp_idx: i64,
    /// Subject-relative start of the address field.
    pub address_idx: i64,
    /// Subject-relative start of the pubkey field.
    pub pubkey_idx: i64,
    /// Subject-relative start of the validator field.
    pub validator_idx: i64,
}

impl EmailAuthInput {
    /// The validity of the payload: the account code is the canonical hex
    /// text the core produces, so none of its characters needs a JSON escape.
    pub open spec fn wf(&self) -> bool {
        crate::parse::all_plain(self.account_code@)
    }
}

/// What assembly promises of the payload built from offsets `o`, padder
/// parts `p` and account code `ac`: the padder's values pass through
/// unchanged, the account code is hex-encoded, the two absolute offsets pass
/// through, and the four optional offsets are subject-relative.
pub open spec fn is_assembled(v: EmailAuthInput, o: EmailOffsets, p: PaddedCircuitParts, ac: AccountCode) -> bool {
    &&& v.padded_header@ == p.padded_header@
    &&& v.public_key@ == p.public_key@
    &&& v.signature@ == p.signature@
    &&& v.padded_header_len == p.padded_header_len
    &&& v.account_code@ == field_hex(ac.0)
    &&& v.from_addr_idx == o.from_addr_idx
    &&& v.subject_idx == o.subject_idx
    &&& v.domain_idx == o.domain_idx
    &&& v.timestamp_idx == relative_idx(o.timestamp_start, o.subject_idx)
    &&& v.address_idx == relative_idx(o.address_start, o.subject_idx)
    &&& v.pubkey_idx == relative_idx(o.pubkey_start, o.subject_idx)
    &&& v.validator_idx == relative_idx(o.validator_start, o.subject_idx)
}

/// Assembles the circuit input payload from a parsed email, the padder's
/// results and the caller's account code. Fails, with no partial payload,
/// exactly when a required field range is unresolved.
pub fn assemble(pe: &ParsedEmail, parts: PaddedCircuitParts, account_code: &AccountCode) -> (r:
    Result<EmailAuthInput, CoreError>)
    requires
        pe.wf(),
    ensures
        r is Ok <==> (pe.from_addr is Some && pe.domain is Some && pe.subject is Some),
        r matches Ok(v) ==> exists|o: EmailOffsets|
            o.is_normalization_of(*pe) && is_assembled(v, o, parts, *account_code),
        r matches Err(e) ==> e matches CoreError::RequiredFieldMissing(_),
{
    let offsets = match normalize_indexes(pe) {
        Ok(o) => o,
        Err(e) => {
            return Err(e);
        },
    };
    let v = EmailAuthInput {
        padded_header: parts.padded_header,
        public_key: parts.public_key,
        signature: parts.signature,
        padded_header_len: parts.padded_header_len,
        account_code: field2hex(&account_code.0),
        from_addr_idx: offsets.from_addr_idx,
        subject_idx: offsets.subject_idx,
        domain_idx: offsets.domain_idx,
        timestamp_idx: relative_to_subject(offsets.timestamp_start, offsets.subject_idx),
        address_idx: relative_to_subject(offsets.address_start, offsets.subject_idx),
        pubkey_idx: relative_to_subject(offsets.pubkey_start, offsets.subject_idx),
        validator_idx: relative_to_subject(offsets.validator_start, offsets.subject_idx),
    };
    Ok(v)
}

/// Law (coordinate duality): in a payload assembled from an email whose
/// optional ranges are all resolved, the from-address and domain offsets are
/// the absolute field starts, unmodified, and the timestamp, address, pubkey
/// and validator offsets are each the field's absolute start minus the
/// subject start.
pub proof fn lemma_coordinate_duality(
    pe: ParsedEmail,
    o: EmailOffsets,
    parts: PaddedCircuitParts,
    ac: AccountCode,
    v: EmailAuthInput,
)
    requires
        o.is_normalization_of(pe),
        is_assembled(v, o, parts, ac),
        pe.address is Some,
        pe.pubkey is Some,
        pe.validator is Some,
        pe.timestamp is Some,
    ensures
        v.from_addr_idx == (pe.from_addr->0).0,
        v.domain_idx == (pe.domain->0).0,
        v.subject_idx == (pe.subject->0).0,
        v.address_idx == (pe.address->0).0 - (pe.subject->0).0,
        v.pubkey_idx == (pe.pubkey->0).0 - (pe.subject->0).0,
        v.validator_idx == (pe.validator->0).0 - (pe.subject->0).0,
        v.timestamp_idx == (pe.timestamp->0).0 - (pe.subject->0).0,
{
}

/// Law (absent-as-zero): in an assembled payload, an optional field that the
/// parser did not resolve defaults to an absolute start of zero before the
/// shift into subject-relative coordinates, so its offset is exactly the
/// negated subject start; nothing wraps.
pub proof fn lemma_absent_optional_offset(
    pe: ParsedEmail,
    o: EmailOffsets,
    parts: PaddedCircuitParts,
    ac: AccountCode,
    v: EmailAuthInput,
)
    requires
        o.is_normalization_of(pe),
        is_assembled(v, o, parts, ac),
    ensures
        pe.address is None ==> v.address_idx == 0 - v.subject_idx,
        pe.pubkey is None ==> v.pubkey_idx == 0 - v.subject_idx,
        pe.validator is None ==> v.validator_idx == 0 - v.subject_idx,
        pe.timestamp is None ==> v.timestamp_idx == 0 - v.subject_idx,
{
}

/// Every payload the core assembles is valid: its account code is `0x` and
/// lowercase hex digits, characters that need no JSON escape.
pub proof fn lemma_assembled_wf(
    v: EmailAuthInput,
    o: EmailOffsets,
    parts: PaddedCircuitParts,
    ac: AccountCode,
)
    requires
        is_assembled(v, o, parts, ac),
    ensures
        v.wf(),
{
    reveal_strlit("0x");
    let t = v.account_code@;
    assert forall|k: int| 0 <= k < t.len() implies crate::parse::plain_char(#[trigger] t[k]) by {
        if k < 2 {
            assert(t[k] == "0x"@[k]);
        } else {
            let h = crate::hex_codec::hex_lower_of(ac.0.bytes@);
            assert(t[k] == h[k - 2]);
            assert(h[k - 2] == crate::hex_codec::hex_lower_char(
                if (k - 2) % 2 == 0 {
                    ac.0.bytes@[(k - 2) / 2] / 16
                } else {
                    ac.0.bytes@[(k - 2) / 2] % 16
                },
            ));
        }
    }
}

/// The text from the validator offset on: the last field and the brace.
#[verifier::opaque]
pub open spec fn j_from_validator(v: EmailAuthInput) -> Seq<char> {
    ",\"validator_idx\":"@ + (dec_of_int(v.validator_idx as int) + "}"@)
}

/// The text from the pubkey offset on.
#[verifier::opaque]
pub open spec fn j_from_pubkey_idx(v: EmailAuthInput) -> Seq<char> {
    ",\"pubkey_idx\":"@ + (dec_of_int(v.pubkey_idx as int) + j_from_validator(v))
}

/// The text from the address offset on.
#[verifier::opaque]
pub open spec fn j_from_address_idx(v: EmailAuthInput) -> Seq<char> {
    ",\"address_idx\":"@ + (dec_of_int(v.address_idx as int) + j_from_pubkey_idx(v))
}

/// The text from the timestamp offset on.
#[verifier::opaque]
pub open spec fn j_from_timestamp_idx(v: EmailAuthInput) -> Seq<char> {
    ",\"timestamp_idx\":"@ + (dec_of_int(v.timestamp_idx as int) + j_from_address_idx(v))
}

/// The text from the domain offset on.
#[verifier::opaque]
pub open spec fn j_from_domain_idx(v: EmailAuthInput) -> Seq<char> {
    ",\"domain_idx\":"@ + (dec_of(v.domain_idx as nat) + j_from_timestamp_idx(v))
}

/// The text from the subject offset on.
#[verifier::opaque]
pub open spec fn j_from_subject_idx(v: EmailAuthInput) -> Seq<char> {
    ",\"subject_idx\":"@ + (dec_of(v.subject_idx as nat) + j_from_domain_idx(v))
}

/// The text from the from-address offset on.
#[verifier::opaque]
pub open spec fn j_from_from_addr_idx(v: EmailAuthInput) -> Seq<char> {
    ",\"from_addr_idx\":"@ + (dec_of(v.from_addr_idx as nat) + j_from_subject_idx(v))
}

/// The text from the account code on.
#[verifier::opaque]
pub open spec fn j_from_account_code(v: EmailAuthInput) -> Seq<char> {
    ",\"account_code\":"@ + (json_quoted(v.account_code@) + j_from_from_addr_idx(v))
}

/// The text from the padded header length on.
#[verifier::opaque]
pub open spec fn j_from_header_len(v: EmailAuthInput) -> Seq<char> {
    ",\"padded_header_len\":"@ + (dec_of(v.padded_header_len as nat) + j_from_account_code(v))
}

/// The text from the signature array on.
#[verifier::opaque]
pub open spec fn j_from_signature(v: EmailAuthInput) -> Seq<char> {
    ",\"signature\":"@ + (json_u8_array(v.signature@) + j_from_header_len(v))
}

/// The text from the public key array on.
#[verifier::opaque]
pub open spec fn j_from_public_key(v: EmailAuthInput) -> Seq<char> {
    ",\"public_key\":"@ + (json_u8_array(v.public_key@) + j_from_signature(v))
}

/// The JSON text of the circuit input payload, field for field in schema
/// order, grouped from the right: every suffix at a field boundary is one of
/// the terms above.
#[verifier::opaque]
pub open spec fn auth_input_json(v: EmailAuthInput) -> Seq<char> {
    "{\"padded_header\":"@ + (json_u8_array(v.padded_header@) + j_from_public_key(v))
}

/// Renders the validator offset and the closing brace.
fn ser_from_validator(v: &EmailAuthInput) -> (r: String)
    ensures
        r@ == j_from_validator(*v),
{
    let mut out = String::from_str(",\"validator_idx\":");
    let num = fmt_i64(v.validator_idx);
    out.append(num.as_str());
    out.append("}");
    proof {
        reveal(j_from_validator);
        assert(out@ =~= j_from_validator(*v));
    }
    out
}

/// Renders the text from the pubkey offset on.
fn ser_from_pubkey_idx(v: &EmailAuthInput) -> (r: String)
    ensures
        r@ == j_from_pubkey_idx(*v),
{
    let mut out = String::from_str(",\"pubkey_idx\":");
    let num = fmt_i64(v.pubkey_idx);
    out.append(num.as_str());
    let tail = ser_from_validator(v);
    out.append(tail.as_str());
    proof {
        reveal(j_from_pubkey_idx);
        assert(out@ =~= j_from_pubkey_idx(*v));
    }
    out
}

/// Renders the text from the address offset on.
fn ser_from_address_idx(v: &EmailAuthInput) -> (r: String)
    ensures
        r@ == j_from_address_idx(*v),
{
    let mut out = String::from_str(",\"address_idx\":");
    let num = fmt_i64(v.address_idx);
    out.append(num.as_str());
    let tail = ser_from_pubkey_idx(v);
    out.append(tail.as_str());
    proof {
        reveal(j_from_address_idx);
        assert(out@ =~= j_from_address_idx(*v));
    }
    out
}

/// Renders the text from the timestamp offset on.
fn ser_from_timestamp_idx(v: &EmailAuthInput) -> (r: String)
    ensures
        r@ == j_from_timestamp_idx(*v),
{
    let mut out = String::from_str(",\"timestamp_idx\":");
    let num = fmt_i64(v.timestamp_idx);
    out.append(num.as_str());
    let tail = ser_from_address_idx(v);
    out.append(tail.as_str());
    proof {
        reveal(j_from_timestamp_idx);
        assert(out@ =~= j_from_timestamp_idx(*v));
    }
    out
}

/// Renders the text from the domain offset on.
fn ser_from_domain_idx(v: &EmailAuthInput) -> (r: String)
    ensures
        r@ == j_from_domain_idx(*v),
{
    let mut out = String::from_str(",\"domain_idx\":");
    let num = fmt_usize(v.domain_idx);
    out.append(num.as_str());
    let tail = ser_from_timestamp_idx(v);
    out.append(tail.as_str());
    proof {
        reveal(j_from_domain_idx);
        assert(out@ =~= j_from_domain_idx(*v));
    }
    out
}

/// Renders the text from the subject offset on.
fn ser_from_subject_idx(v: &EmailAuthInput) -> (r: String)
    ensures
        r@ == j_from_subject_idx(*v),
{
    let mut out = String::from_str(",\"subject_idx\":");
    let num = fmt_usize(v.subject_idx);
    out.append(num.as_str());
    let tail = ser_from_domain_idx(v);
    out.append(tail.as_str());
    proof {
        reveal(j_from_subject_idx);
        assert(out@ =~= j_from_subject_idx(*v));
    }
    out
}

/// Renders the text from the from-address offset on.
fn ser_from_from_addr_idx(v: &EmailAuthInput) -> (r: String)
    ensures
        r@ == j_from_from_addr_idx(*v),
{
    let mut out = String::from_str(",\"from_addr_idx\":");
    let num = fmt_usize(v.from_addr_idx);
    out.append(num.as_str());
    let tail = ser_from_subject_idx(v);
    out.append(tail.as_str());
    proof {
        reveal(j_from_from_addr_idx);
        assert(out@ =~= j_from_from_addr_idx(*v));
    }
    out
}

/// Renders the text from the account code on.
fn ser_from_account_code(v: &EmailAuthInput) -> (r: String)
    ensures
        r@ == j_from_account_code(*v),
{
    let mut out = String::from_str(",\"account_code\":");
    append_json_quoted(&mut out, v.account_code.as_str());
    let tail = ser_from_from_addr_idx(v);
    out.append(tail.as_str());
    proof {
        reveal(j_from_account_code);
        assert(out@ =~= j_from_account_code(*v));
    }
    out
}

/// Renders the text from the padded header length on.
fn ser_from_header_len(v: &EmailAuthInput) -> (r: String)
    ensures
        r@ == j_from_header_len(*v),
{
    let mut out = String::from_str(",\"padded_header_len\":");
    let num = fmt_usize(v.padded_header_len);
    out.append(num.as_str());
    let tail = ser_from_account_code(v);
    out.append(tail.as_str());
    proof {
        reveal(j_from_header_len);
        assert(out@ =~= j_from_header_len(*v));
    }
    out
}

/// Renders the text from the signature array on.
fn ser_from_signature(v: &EmailAuthInput) -> (r: String)
    ensures
        r@ == j_from_signature(*v),
{
    let mut out = String::from_str(",\"signature\":");
    append_u8_array(&mut out, &v.signature);
    let tail = ser_from_header_len(v);
    out.append(tail.as_str());
    proof {
        reveal(j_from_signature);
        assert(out@ =~= j_from_signature(*v));
    }
    out
}

/// Renders the text from the public key array on.
fn ser_from_public_key(v: &EmailAuthInput) -> (r: String)
    ensures
        r@ == j_from_public_key(*v),
{
    let mut out = String::from_str(",\"public_key\":");
    append_u8_array(&mut out, &v.public_key);
    let tail = ser_from_signature(v);
    out.append(tail.as_str());
    proof {
        reveal(j_from_public_key);
        assert(out@ =~= j_from_public_key(*v));
    }
    out
}

/// Serializes the circuit input payload as its JSON exchange string.
pub fn serialize_auth_input(v: &EmailAuthInput) -> (r: String)
    ensures
        r@ == auth_input_json(*v),
{
    let mut out = String::from_str("{\"padded_header\":");
    append_u8_array(&mut out, &v.padded_header);
    let tail = ser_from_public_key(v);
    out.append(tail.as_str());
    proof {
        reveal(auth_input_json);
        assert(out@ =~= auth_input_json(*v));
    }
    out
}

/// Assembles and serializes the circuit input payload for one request: the
/// whole input-generation pipeline after the external parser and padder have
/// reported, failing exactly when a required field range is unresolved.
pub fn generate_email_auth_input_for_java(
    pe: &ParsedEmail,
    parts: PaddedCircuitParts,
    account_code: &AccountCode,
) -> (r: Result<String, CoreError>)
    requires
        pe.wf(),
    ensures
        r is Ok <==> (pe.from_addr is Some && pe.domain is Some && pe.subject is Some),
        r matches Ok(s) ==> exists|v: EmailAuthInput, o: EmailOffsets|
            o.is_normalization_of(*pe) && is_assembled(v, o, parts, *account_code) && s@
                == auth_input_json(v),
        r matches Err(e) ==> e matches CoreError::RequiredFieldMissing(_),
{
    match assemble(pe, parts, account_code) {
        Ok(v) => Ok(serialize_auth_input(&v)),
        Err(e) => Err(e),
    }
}

} // verus!
