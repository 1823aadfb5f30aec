//! Deserialization of the circuit input payload from its canonical JSON
//! exchange string, with the round trip stated in the reader's own contract:
//! anything it accepts is exactly a canonical rendering, and it accepts the
//! canonical rendering of every valid payload.

use vstd::prelude::*;
use crate::auth_input::{
    auth_input_json, j_from_account_code, j_from_address_idx, j_from_domain_idx,
    j_from_from_addr_idx, j_from_header_len, j_from_public_key, j_from_pubkey_idx,
    j_from_signature, j_from_subject_idx, j_from_timestamp_idx, j_from_validator, EmailAuthInput,
};
use crate::json::{json_quoted, json_u8_array};
use crate::numeric::{dec_of, dec_of_int, is_dec_digit, parse_i64, parse_usize};
use crate::parse::{all_plain, expect_lit, parse_plain_string, parse_u8_array};

verus! {

/// Where the public-key group starts in the payload text.
#[verifier::opaque]
pub open spec fn b_public_key(v: EmailAuthInput) -> int {
    ("{\"padded_header\":"@.len() + json_u8_array(v.padded_header@).len()) as int
}

/// Where the signature group starts.
#[verifier::opaque]
pub open spec fn b_signature(v: EmailAuthInput) -> int {
    b_public_key(v) + ",\"public_key\":"@.len() + json_u8_array(v.public_key@).len()
}

/// Where the padded-header-length group starts.
#[verifier::opaque]
pub open spec fn b_header_len(v: EmailAuthInput) -> int {
    b_signature(v) + ",\"signature\":"@.len() + json_u8_array(v.signature@).len()
}

/// Where the account-code group starts.
#[verifier::opaque]
pub open spec fn b_account_code(v: EmailAuthInput) -> int {
    b_header_len(v) + ",\"padded_header_len\":"@.len() + dec_of(v.padded_header_len as nat).len()
}

/// Where the from-address group starts.
#[verifier::opaque]
pub open spec fn b_from_addr(v: EmailAuthInput) -> int {
    b_account_code(v) + ",\"account_code\":"@.len() + json_quoted(v.account_code@).len()
}

/// Where the subject group starts.
#[verifier::opaque]
pub open spec fn b_subject(v: EmailAuthInput) -> int {
    b_from_addr(v) + ",\"from_addr_idx\":"@.len() + dec_of(v.from_addr_idx as nat).len()
}

/// Where the domain group starts.
#[verifier::opaque]
pub open spec fn b_domain(v: EmailAuthInput) -> int {
    b_subject(v) + ",\"subject_idx\":"@.len() + dec_of(v.subject_idx as nat).len()
}

/// Where the timestamp group starts.
#[verifier::opaque]
pub open spec fn b_timestamp(v: EmailAuthInput) -> int {
    b_domain(v) + ",\"domain_idx\":"@.len() + dec_of(v.domain_idx as nat).len()
}

/// Where the address group starts.
#[verifier::opaque]
pub open spec fn b_address(v: EmailAuthInput) -> int {
    b_timestamp(v) + ",\"timestamp_idx\":"@.len() + dec_of_int(v.timestamp_idx as int).len()
}

/// Where the pubkey group starts.
#[verifier::opaque]
pub open spec fn b_pubkey_idx(v: EmailAuthInput) -> int {
    b_address(v) + ",\"address_idx\":"@.len() + dec_of_int(v.address_idx as int).len()
}

/// Where the validator group starts.
#[verifier::opaque]
pub open spec fn b_validator(v: EmailAuthInput) -> int {
    b_pubkey_idx(v) + ",\"pubkey_idx\":"@.len() + dec_of_int(v.pubkey_idx as int).len()
}

/// Where the closing brace stands.
#[verifier::opaque]
pub open spec fn b_brace(v: EmailAuthInput) -> int {
    b_validator(v) + ",\"validator_idx\":"@.len() + dec_of_int(v.validator_idx as int).len()
}

/// A suffix of the text that is a literal, a piece and a rest decomposes
/// into the three at their boundaries.
proof fn lemma_peel(s: Seq<char>, a: int, lit: Seq<char>, piece: Seq<char>, rest: Seq<char>)
    requires
        0 <= a <= s.len(),
        s.subrange(a, s.len() as int) == lit + (piece + rest),
    ensures
        s.len() == a + lit.len() + piece.len() + rest.len(),
        s.subrange(a, a + lit.len()) == lit,
        s.subrange(a + lit.len(), a + lit.len() + piece.len()) == piece,
        s.subrange(a + lit.len() + piece.len(), s.len() as int) == rest,
        rest.len() >= 1 ==> s[a + lit.len() + piece.len()] == rest[0],
{
    assert(s.subrange(a, s.len() as int).len() == lit.len() + (piece.len() + rest.len()));
    assert(s.subrange(a, a + lit.len()) =~= lit) by {
        assert forall|k: int| 0 <= k < lit.len() implies s.subrange(a, a + lit.len())[k]
            == lit[k] by {
            assert(s.subrange(a, s.len() as int)[k] == (lit + (piece + rest))[k]);
        }
    }
    assert(s.subrange(a + lit.len(), a + lit.len() + piece.len()) =~= piece) by {
        assert forall|k: int|
            0 <= k < piece.len() implies s.subrange(a + lit.len(), a + lit.len() + piece.len())[k]
            == piece[k] by {
            assert(s.subrange(a, s.len() as int)[lit.len() + k] == (lit + (piece + rest))[lit.len()
                + k]);
            assert((lit + (piece + rest))[lit.len() + k] == (piece + rest)[k]);
            assert((piece + rest)[k] == piece[k]);
        }
    }
    assert(s.subrange(a + lit.len() + piece.len(), s.len() as int) =~= rest) by {
        assert forall|k: int|
            0 <= k < rest.len() implies s.subrange(a + lit.len() + piece.len(), s.len() as int)[k]
            == rest[k] by {
            assert(s.subrange(a, s.len() as int)[lit.len() + piece.len() + k] == (lit + (piece
                + rest))[lit.len() + piece.len() + k]);
            assert((lit + (piece + rest))[lit.len() + piece.len() + k] == (piece + rest)[piece.len()
                + k]);
            assert((piece + rest)[piece.len() + k] == rest[k]);
        }
    }
    if rest.len() >= 1 {
        assert(s[a + lit.len() + piece.len()] == s.subrange(
            a + lit.len() + piece.len(),
            s.len() as int,
        )[0]);
    }
}

/// The spans of one group of the payload text and the suffix after it.
proof fn g_padded_header(s: Seq<char>, v: EmailAuthInput)
    requires
        s == auth_input_json(v),
    ensures
        b_public_key(v) == 0 + "{\"padded_header\":"@.len() + json_u8_array(v.padded_header@).len(),
        0 <= 0 <= b_public_key(v) <= s.len(),
        s.subrange(0, "{\"padded_header\":"@.len() as int) == "{\"padded_header\":"@,
        s.subrange("{\"padded_header\":"@.len() as int, b_public_key(v)) == json_u8_array(v.padded_header@),
        s.subrange(b_public_key(v), s.len() as int) == j_from_public_key(v),
{
    reveal(crate::auth_input::auth_input_json);
    reveal(b_public_key);
    assert(s.subrange(0, s.len() as int) =~= s);
    lemma_peel(s, 0, "{\"padded_header\":"@, json_u8_array(v.padded_header@), j_from_public_key(v));
}
/// The spans of one group of the payload text and the suffix after it.
proof fn g_public_key(s: Seq<char>, v: EmailAuthInput)
    requires
        s == auth_input_json(v),
    ensures
        b_signature(v) == b_public_key(v) + ",\"public_key\":"@.len() + json_u8_array(v.public_key@).len(),
        0 <= b_public_key(v) <= b_signature(v) <= s.len(),
        s.subrange(b_public_key(v), b_public_key(v) + ",\"public_key\":"@.len()) == ",\"public_key\":"@,
        s.subrange(b_public_key(v) + ",\"public_key\":"@.len(), b_signature(v)) == json_u8_array(v.public_key@),
        s.subrange(b_signature(v), s.len() as int) == j_from_signature(v),
{
    reveal(crate::auth_input::j_from_public_key);
    reveal(b_signature);
    g_padded_header(s, v);
    lemma_peel(s, b_public_key(v), ",\"public_key\":"@, json_u8_array(v.public_key@), j_from_signature(v));
}
/// The spans of one group of the payload text and the suffix after it.
proof fn g_signature(s: Seq<char>, v: EmailAuthInput)
    requires
        s == auth_input_json(v),
    ensures
        b_header_len(v) == b_signature(v) + ",\"signature\":"@.len() + json_u8_array(v.signature@).len(),
        0 <= b_signature(v) <= b_header_len(v) <= s.len(),
        s.subrange(b_signature(v), b_signature(v) + ",\"signature\":"@.len()) == ",\"signature\":"@,
        s.subrange(b_signature(v) + ",\"signature\":"@.len(), b_header_len(v)) == json_u8_array(v.signature@),
        s.subrange(b_header_len(v), s.len() as int) == j_from_header_len(v),
{
    reveal(crate::auth_input::j_from_signature);
    reveal(b_header_len);
    g_public_key(s, v);
    lemma_peel(s, b_signature(v), ",\"signature\":"@, json_u8_array(v.signature@), j_from_header_len(v));
}
/// The spans of one group of the payload text and the suffix after it.
proof fn g_header_len(s: Seq<char>, v: EmailAuthInput)
    requires
        s == auth_input_json(v),
    ensures
        b_account_code(v) == b_header_len(v) + ",\"padded_header_len\":"@.len() + dec_of(v.padded_header_len as nat).len(),
        0 <= b_header_len(v) <= b_account_code(v) <= s.len(),
        s.subrange(b_header_len(v), b_header_len(v) + ",\"padded_header_len\":"@.len()) == ",\"padded_header_len\":"@,
        s.subrange(b_header_len(v) + ",\"padded_header_len\":"@.len(), b_account_code(v)) == dec_of(v.padded_header_len as nat),
        s.subrange(b_account_code(v), s.len() as int) == j_from_account_code(v),
        b_account_code(v) < s.len() && !is_dec_digit(s[b_account_code(v)]),
{
    reveal(crate::auth_input::j_from_account_code);
    reveal(crate::auth_input::j_from_header_len);
    reveal(b_account_code);
    g_signature(s, v);
    lemma_peel(s, b_header_len(v), ",\"padded_header_len\":"@, dec_of(v.padded_header_len as nat), j_from_account_code(v));
    reveal_strlit(",\"account_code\":");
    assert(s[b_account_code(v)] == j_from_account_code(v)[0]);
}
/// The spans of one group of the payload text and the suffix after it.
proof fn g_account_code(s: Seq<char>, v: EmailAuthInput)
    requires
        s == auth_input_json(v),
    ensures
        b_from_addr(v) == b_account_code(v) + ",\"account_code\":"@.len() + json_quoted(v.account_code@).len(),
        0 <= b_account_code(v) <= b_from_addr(v) <= s.len(),
        s.subrange(b_account_code(v), b_account_code(v) + ",\"account_code\":"@.len()) == ",\"account_code\":"@,
        s.subrange(b_account_code(v) + ",\"account_code\":"@.len(), b_from_addr(v)) == json_quoted(v.account_code@),
        s.subrange(b_from_addr(v), s.len() as int) == j_from_from_addr_idx(v),
{
    reveal(crate::auth_input::j_from_account_code);
    reveal(b_from_addr);
    g_header_len(s, v);
    lemma_peel(s, b_account_code(v), ",\"account_code\":"@, json_quoted(v.account_code@), j_from_from_addr_idx(v));
}
/// The spans of one group of the payload text and the suffix after it.
proof fn g_from_addr(s: Seq<char>, v: EmailAuthInput)
    requires
        s == auth_input_json(v),
    ensures
        b_subject(v) == b_from_addr(v) + ",\"from_addr_idx\":"@.len() + dec_of(v.from_addr_idx as nat).len(),
        0 <= b_from_addr(v) <= b_subject(v) <= s.len(),
        s.subrange(b_from_addr(v), b_from_addr(v) + ",\"from_addr_idx\":"@.len()) == ",\"from_addr_idx\":"@,
        s.subrange(b_from_addr(v) + ",\"from_addr_idx\":"@.len(), b_subject(v)) == dec_of(v.from_addr_idx as nat),
        s.subrange(b_subject(v), s.len() as int) == j_from_subject_idx(v),
        b_subject(v) < s.len() && !is_dec_digit(s[b_subject(v)]),
{
    reveal(crate::auth_input::j_from_subject_idx);
    reveal(crate::auth_input::j_from_from_addr_idx);
    reveal(b_subject);
    g_account_code(s, v);
    lemma_peel(s, b_from_addr(v), ",\"from_addr_idx\":"@, dec_of(v.from_addr_idx as nat), j_from_subject_idx(v));
    reveal_strlit(",\"subject_idx\":");
    assert(s[b_subject(v)] == j_from_subject_idx(v)[0]);
}
/// The spans of one group of the payload text and the suffix after it.
proof fn g_subject(s: Seq<char>, v: EmailAuthInput)
    requires
        s == auth_input_json(v),
    ensures
        b_domain(v) == b_subject(v) + ",\"subject_idx\":"@.len() + dec_of(v.subject_idx as nat).len(),
        0 <= b_subject(v) <= b_domain(v) <= s.len(),
        s.subrange(b_subject(v), b_subject(v) + ",\"subject_idx\":"@.len()) == ",\"subject_idx\":"@,
        s.subrange(b_subject(v) + ",\"subject_idx\":"@.len(), b_domain(v)) == dec_of(v.subject_idx as nat),
        s.subrange(b_domain(v), s.len() as int) == j_from_domain_idx(v),
        b_domain(v) < s.len() && !is_dec_digit(s[b_domain(v)]),
{
    reveal(crate::auth_input::j_from_domain_idx);
    reveal(crate::auth_input::j_from_subject_idx);
    reveal(b_domain);
    g_from_addr(s, v);
    lemma_peel(s, b_subject(v), ",\"subject_idx\":"@, dec_of(v.subject_idx as nat), j_from_domain_idx(v));
    reveal_strlit(",\"domain_idx\":");
    assert(s[b_domain(v)] == j_from_domain_idx(v)[0]);
}
/// The spans of one group of the payload text and the suffix after it.
proof fn g_domain(s: Seq<char>, v: EmailAuthInput)
    requires
        s == auth_input_json(v),
    ensures
        b_timestamp(v) == b_domain(v) + ",\"domain_idx\":"@.len() + dec_of(v.domain_idx as nat).len(),
        0 <= b_domain(v) <= b_timestamp(v) <= s.len(),
        s.subrange(b_domain(v), b_domain(v) + ",\"domain_idx\":"@.len()) == ",\"domain_idx\":"@,
        s.subrange(b_domain(v) + ",\"domain_idx\":"@.len(), b_timestamp(v)) == dec_of(v.domain_idx as nat),
        s.subrange(b_timestamp(v), s.len() as int) == j_from_timestamp_idx(v),
        b_timestamp(v) < s.len() && !is_dec_digit(s[b_timestamp(v)]),
{
    reveal(crate::auth_input::j_from_timestamp_idx);
    reveal(crate::auth_input::j_from_domain_idx);
    reveal(b_timestamp);
    g_subject(s, v);
    lemma_peel(s, b_domain(v), ",\"domain_idx\":"@, dec_of(v.domain_idx as nat), j_from_timestamp_idx(v));
    reveal_strlit(",\"timestamp_idx\":");
    assert(s[b_timestamp(v)] == j_from_timestamp_idx(v)[0]);
}
/// The spans of one group of the payload text and the suffix after it.
proof fn g_timestamp(s: Seq<char>, v: EmailAuthInput)
    requires
        s == auth_input_json(v),
    ensures
        b_address(v) == b_timestamp(v) + ",\"timestamp_idx\":"@.len() + dec_of_int(v.timestamp_idx as int).len(),
        0 <= b_timestamp(v) <= b_address(v) <= s.len(),
        s.subrange(b_timestamp(v), b_timestamp(v) + ",\"timestamp_idx\":"@.len()) == ",\"timestamp_idx\":"@,
        s.subrange(b_timestamp(v) + ",\"timestamp_idx\":"@.len(), b_address(v)) == dec_of_int(v.timestamp_idx as int),
        s.subrange(b_address(v), s.len() as int) == j_from_address_idx(v),
        b_address(v) < s.len() && !is_dec_digit(s[b_address(v)]),
{
    reveal(crate::auth_input::j_from_address_idx);
    reveal(crate::auth_input::j_from_timestamp_idx);
    reveal(b_address);
    g_domain(s, v);
    lemma_peel(s, b_timestamp(v), ",\"timestamp_idx\":"@, dec_of_int(v.timestamp_idx as int), j_from_address_idx(v));
    reveal_strlit(",\"address_idx\":");
    assert(s[b_address(v)] == j_from_address_idx(v)[0]);
}
/// The spans of one group of the payload text and the suffix after it.
proof fn g_address(s: Seq<char>, v: EmailAuthInput)
    requires
        s == auth_input_json(v),
    ensures
        b_pubkey_idx(v) == b_address(v) + ",\"address_idx\":"@.len() + dec_of_int(v.address_idx as int).len(),
        0 <= b_address(v) <= b_pubkey_idx(v) <= s.len(),
        s.subrange(b_address(v), b_address(v) + ",\"address_idx\":"@.len()) == ",\"address_idx\":"@,
        s.subrange(b_address(v) + ",\"address_idx\":"@.len(), b_pubkey_idx(v)) == dec_of_int(v.address_idx as int),
        s.subrange(b_pubkey_idx(v), s.len() as int) == j_from_pubkey_idx(v),
        b_pubkey_idx(v) < s.len() && !is_dec_digit(s[b_pubkey_idx(v)]),
{
    reveal(crate::auth_input::j_from_pubkey_idx);
    reveal(crate::auth_input::j_from_address_idx);
    reveal(b_pubkey_idx);
    g_timestamp(s, v);
    lemma_peel(s, b_address(v), ",\"address_idx\":"@, dec_of_int(v.address_idx as int), j_from_pubkey_idx(v));
    reveal_strlit(",\"pubkey_idx\":");
    assert(s[b_pubkey_idx(v)] == j_from_pubkey_idx(v)[0]);
}
/// The spans of one group of the payload text and the suffix after it.
proof fn g_pubkey_idx(s: Seq<char>, v: EmailAuthInput)
    requires
        s == auth_input_json(v),
    ensures
        b_validator(v) == b_pubkey_idx(v) + ",\"pubkey_idx\":"@.len() + dec_of_int(v.pubkey_idx as int).len(),
        0 <= b_pubkey_idx(v) <= b_validator(v) <= s.len(),
        s.subrange(b_pubkey_idx(v), b_pubkey_idx(v) + ",\"pubkey_idx\":"@.len()) == ",\"pubkey_idx\":"@,
        s.subrange(b_pubkey_idx(v) + ",\"pubkey_idx\":"@.len(), b_validator(v)) == dec_of_int(v.pubkey_idx as int),
        s.subrange(b_validator(v), s.len() as int) == j_from_validator(v),
        b_validator(v) < s.len() && !is_dec_digit(s[b_validator(v)]),
{
    reveal(crate::auth_input::j_from_validator);
    reveal(crate::auth_input::j_from_pubkey_idx);
    reveal(b_validator);
    g_address(s, v);
    lemma_peel(s, b_pubkey_idx(v), ",\"pubkey_idx\":"@, dec_of_int(v.pubkey_idx as int), j_from_validator(v));
    reveal_strlit(",\"validator_idx\":");
    assert(s[b_validator(v)] == j_from_validator(v)[0]);
}
/// The spans of one group of the payload text and the suffix after it.
proof fn g_validator(s: Seq<char>, v: EmailAuthInput)
    requires
        s == auth_input_json(v),
    ensures
        b_brace(v) == b_validator(v) + ",\"validator_idx\":"@.len() + dec_of_int(v.validator_idx as int).len(),
        0 <= b_validator(v) <= b_brace(v) <= s.len(),
        s.subrange(b_validator(v), b_validator(v) + ",\"validator_idx\":"@.len()) == ",\"validator_idx\":"@,
        s.subrange(b_validator(v) + ",\"validator_idx\":"@.len(), b_brace(v)) == dec_of_int(v.validator_idx as int),
        s.subrange(b_brace(v), s.len() as int) == "}"@,
        b_brace(v) < s.len() && !is_dec_digit(s[b_brace(v)]),
{
    reveal(crate::auth_input::j_from_validator);
    reveal(b_brace);
    g_pubkey_idx(s, v);
    lemma_peel(s, b_validator(v), ",\"validator_idx\":"@, dec_of_int(v.validator_idx as int), "}"@);
    reveal_strlit("}");
    assert(s[b_brace(v)] == "}"@[0]);
}
/// The closing brace ends the text.
proof fn g_end(s: Seq<char>, v: EmailAuthInput)
    requires
        s == auth_input_json(v),
    ensures
        s.len() == b_brace(v) + 1,
        s.subrange(b_brace(v), b_brace(v) + 1) == "}"@,
{
    g_validator(s, v);
    reveal_strlit("}");
    assert(s.subrange(b_brace(v), b_brace(v) + 1) =~= "}"@);
}

/// Field-for-field agreement of two payloads.
pub open spec fn same_fields(a: EmailAuthInput, b: EmailAuthInput) -> bool {
    &&& a.padded_header@ == b.padded_header@
    &&& a.public_key@ == b.public_key@
    &&& a.signature@ == b.signature@
    &&& a.padded_header_len == b.padded_header_len
    &&& a.account_code@ == b.account_code@
    &&& a.from_addr_idx == b.from_addr_idx
    &&& a.subject_idx == b.subject_idx
    &&& a.domain_idx == b.domain_idx
    &&& a.timestamp_idx == b.timestamp_idx
    &&& a.address_idx == b.address_idx
    &&& a.pubkey_idx == b.pubkey_idx
    &&& a.validator_idx == b.validator_idx
}

/// The text of the head groups: arrays, padded length, account code.
pub open spec fn j_head_tail(phl: nat, ac: Seq<char>) -> Seq<char> {
    ",\"padded_header_len\":"@ + (dec_of(phl) + (",\"account_code\":"@ + json_quoted(ac)))
}

/// The payload text before the offset fields.
pub open spec fn j_head(ph: Seq<u8>, pk: Seq<u8>, sig: Seq<u8>, phl: nat, ac: Seq<char>) -> Seq<
    char,
> {
    "{\"padded_header\":"@ + (json_u8_array(ph) + (",\"public_key\":"@ + (json_u8_array(pk) + (
    ",\"signature\":"@ + (json_u8_array(sig) + j_head_tail(phl, ac))))))
}

/// The text of the three absolute offset fields.
pub open spec fn j_abs(a: nat, b: nat, c: nat) -> Seq<char> {
    ",\"from_addr_idx\":"@ + (dec_of(a) + (",\"subject_idx\":"@ + (dec_of(b) + (
    ",\"domain_idx\":"@ + dec_of(c)))))
}

/// The text of the last two relative offset fields and the brace.
pub open spec fn j_rel_tail(p: int, vl: int) -> Seq<char> {
    ",\"pubkey_idx\":"@ + (dec_of_int(p) + (",\"validator_idx\":"@ + (dec_of_int(vl) + "}"@)))
}

/// The text of the four relative offset fields and the brace.
pub open spec fn j_rel(t: int, a: int, p: int, vl: int) -> Seq<char> {
    ",\"timestamp_idx\":"@ + (dec_of_int(t) + (",\"address_idx\":"@ + (dec_of_int(a)
        + j_rel_tail(p, vl))))
}

/// The payload text splits into the head, the absolute offsets and the
/// relative offsets.
#[verifier::rlimit(100)]
proof fn lemma_whole_split(v: EmailAuthInput)
    ensures
        auth_input_json(v) == j_head(
            v.padded_header@,
            v.public_key@,
            v.signature@,
            v.padded_header_len as nat,
            v.account_code@,
        ) + (j_abs(v.from_addr_idx as nat, v.subject_idx as nat, v.domain_idx as nat) + j_rel(
            v.timestamp_idx as int,
            v.address_idx as int,
            v.pubkey_idx as int,
            v.validator_idx as int,
        )),
{
    reveal(crate::auth_input::auth_input_json);
    reveal(crate::auth_input::j_from_public_key);
    reveal(crate::auth_input::j_from_signature);
    reveal(crate::auth_input::j_from_header_len);
    reveal(crate::auth_input::j_from_account_code);
    reveal(crate::auth_input::j_from_from_addr_idx);
    reveal(crate::auth_input::j_from_subject_idx);
    reveal(crate::auth_input::j_from_domain_idx);
    reveal(crate::auth_input::j_from_timestamp_idx);
    reveal(crate::auth_input::j_from_address_idx);
    reveal(crate::auth_input::j_from_pubkey_idx);
    reveal(crate::auth_input::j_from_validator);
    assert(auth_input_json(v) =~= j_head(
        v.padded_header@,
        v.public_key@,
        v.signature@,
        v.padded_header_len as nat,
        v.account_code@,
    ) + (j_abs(v.from_addr_idx as nat, v.subject_idx as nat, v.domain_idx as nat) + j_rel(
        v.timestamp_idx as int,
        v.address_idx as int,
        v.pubkey_idx as int,
        v.validator_idx as int,
    )));
}

/// What the head reader parsed, and where the offsets start.
struct HeadParsed {
    padded_header: Vec<u8>,
    public_key: Vec<u8>,
    signature: Vec<u8>,
    padded_header_len: usize,
    account_code: String,
    end: usize,
}

/// Reads the three arrays, the padded length and the account code.
#[verifier::rlimit(100)]
fn de_head(s: &str) -> (r: Option<HeadParsed>)
    ensures
        r matches Some(h) ==> 0 < h.end <= s@.len() && all_plain(h.account_code@) && s@.subrange(
            0,
            h.end as int,
        ) == j_head(
            h.padded_header@,
            h.public_key@,
            h.signature@,
            h.padded_header_len as nat,
            h.account_code@,
        ),
        forall|v: EmailAuthInput|
            v.wf() && s@ == auth_input_json(v) ==> (r matches Some(h) && h.padded_header@
                == v.padded_header@ && h.public_key@ == v.public_key@ && h.signature@
                == v.signature@ && h.padded_header_len == v.padded_header_len && h.account_code@
                == v.account_code@ && h.end == b_from_addr(v)),
{
    let n = s.unicode_len();
    let r1 = expect_lit(s, 0, "{\"padded_header\":");
    proof {
        assert forall|v: EmailAuthInput|
            v.wf() && s@ == auth_input_json(v) implies r1 == Some(
            ("{\"padded_header\":"@.len()) as usize,
        ) by {
            g_padded_header(s@, v);
        }
    }
    let j1 = match r1 {
        Some(j) => j,
        None => {
            return None;
        },
    };
    let r2 = parse_u8_array(s, j1);
    proof {
        assert forall|v: EmailAuthInput|
            v.wf() && s@ == auth_input_json(v) implies (r2 matches Some(p) && p.0@
            == v.padded_header@ && p.1 == b_public_key(v)) by {
            g_padded_header(s@, v);
        }
    }
    let (padded_header, j2) = match r2 {
        Some(p) => p,
        None => {
            return None;
        },
    };
    let r3 = expect_lit(s, j2, ",\"public_key\":");
    proof {
        assert forall|v: EmailAuthInput|
            v.wf() && s@ == auth_input_json(v) implies r3 is Some by {
            g_public_key(s@, v);
        }
    }
    let j3 = match r3 {
        Some(j) => j,
        None => {
            return None;
        },
    };
    let r4 = parse_u8_array(s, j3);
    proof {
        assert forall|v: EmailAuthInput|
            v.wf() && s@ == auth_input_json(v) implies (r4 matches Some(p) && p.0@ == v.public_key@
            && p.1 == b_signature(v)) by {
            g_public_key(s@, v);
        }
    }
    let (public_key, j4) = match r4 {
        Some(p) => p,
        None => {
            return None;
        },
    };
    let r5 = expect_lit(s, j4, ",\"signature\":");
    proof {
        assert forall|v: EmailAuthInput|
            v.wf() && s@ == auth_input_json(v) implies r5 is Some by {
            g_signature(s@, v);
        }
    }
    let j5 = match r5 {
        Some(j) => j,
        None => {
            return None;
        },
    };
    let r6 = parse_u8_array(s, j5);
    proof {
        assert forall|v: EmailAuthInput|
            v.wf() && s@ == auth_input_json(v) implies (r6 matches Some(p) && p.0@ == v.signature@
            && p.1 == b_header_len(v)) by {
            g_signature(s@, v);
        }
    }
    let (signature, j6) = match r6 {
        Some(p) => p,
        None => {
            return None;
        },
    };
    let r7 = expect_lit(s, j6, ",\"padded_header_len\":");
    proof {
        assert forall|v: EmailAuthInput|
            v.wf() && s@ == auth_input_json(v) implies r7 is Some by {
            g_header_len(s@, v);
        }
    }
    let j7 = match r7 {
        Some(j) => j,
        None => {
            return None;
        },
    };
    let r8 = parse_usize(s, j7);
    proof {
        assert forall|v: EmailAuthInput|
            v.wf() && s@ == auth_input_json(v) implies r8 == Some(
            (v.padded_header_len, b_account_code(v) as usize),
        ) by {
            g_header_len(s@, v);
        }
    }
    let (padded_header_len, j8) = match r8 {
        Some(p) => p,
        None => {
            return None;
        },
    };
    let r9 = expect_lit(s, j8, ",\"account_code\":");
    proof {
        assert forall|v: EmailAuthInput|
            v.wf() && s@ == auth_input_json(v) implies r9 is Some by {
            g_account_code(s@, v);
        }
    }
    let j9 = match r9 {
        Some(j) => j,
        None => {
            return None;
        },
    };
    let r10 = parse_plain_string(s, j9);
    proof {
        assert forall|v: EmailAuthInput|
            v.wf() && s@ == auth_input_json(v) implies (r10 matches Some(p) && p.0@
            == v.account_code@ && p.1 == b_from_addr(v)) by {
            g_account_code(s@, v);
        }
    }
    let (account_code, j10) = match r10 {
        Some(p) => p,
        None => {
            return None;
        },
    };
    let h = HeadParsed {
        padded_header,
        public_key,
        signature,
        padded_header_len,
        account_code,
        end: j10,
    };
    proof {
        assert(s@.subrange(0, j10 as int) =~= j_head(
            h.padded_header@,
            h.public_key@,
            h.signature@,
            h.padded_header_len as nat,
            h.account_code@,
        ));
    }
    Some(h)
}

/// Reads the three absolute offset fields.
#[verifier::rlimit(100)]
fn de_abs(s: &str, i: usize) -> (r: Option<(usize, usize, usize, usize)>)
    ensures
        r matches Some(t) ==> i <= t.3 <= s@.len() && s@.subrange(i as int, t.3 as int) == j_abs(
            t.0 as nat,
            t.1 as nat,
            t.2 as nat,
        ),
        forall|v: EmailAuthInput|
            v.wf() && s@ == auth_input_json(v) && i == b_from_addr(v) ==> r == Some(
                (v.from_addr_idx, v.subject_idx, v.domain_idx, b_timestamp(v) as usize),
            ),
{
    let n = s.unicode_len();
    let r11 = expect_lit(s, i, ",\"from_addr_idx\":");
    proof {
        assert forall|v: EmailAuthInput|
            v.wf() && s@ == auth_input_json(v) && i == b_from_addr(v) implies r11 is Some by {
            g_from_addr(s@, v);
        }
    }
    let j11 = match r11 {
        Some(j) => j,
        None => {
            return None;
        },
    };
    let r12 = parse_usize(s, j11);
    proof {
        assert forall|v: EmailAuthInput|
            v.wf() && s@ == auth_input_json(v) && i == b_from_addr(v) implies r12 == Some(
            (v.from_addr_idx, b_subject(v) as usize),
        ) by {
            g_from_addr(s@, v);
        }
    }
    let (from_addr_idx, j12) = match r12 {
        Some(p) => p,
        None => {
            return None;
        },
    };
    let r13 = expect_lit(s, j12, ",\"subject_idx\":");
    proof {
        assert forall|v: EmailAuthInput|
            v.wf() && s@ == auth_input_json(v) && i == b_from_addr(v) implies r13 is Some by {
            g_subject(s@, v);
        }
    }
    let j13 = match r13 {
        Some(j) => j,
        None => {
            return None;
        },
    };
    let r14 = parse_usize(s, j13);
    proof {
        assert forall|v: EmailAuthInput|
            v.wf() && s@ == auth_input_json(v) && i == b_from_addr(v) implies r14 == Some(
            (v.subject_idx, b_domain(v) as usize),
        ) by {
            g_subject(s@, v);
        }
    }
    let (subject_idx, j14) = match r14 {
        Some(p) => p,
        None => {
            return None;
        },
    };
    let r15 = expect_lit(s, j14, ",\"domain_idx\":");
    proof {
        assert forall|v: EmailAuthInput|
            v.wf() && s@ == auth_input_json(v) && i == b_from_addr(v) implies r15 is Some by {
            g_domain(s@, v);
        }
    }
    let j15 = match r15 {
        Some(j) => j,
        None => {
            return None;
        },
    };
    let r16 = parse_usize(s, j15);
    proof {
        assert forall|v: EmailAuthInput|
            v.wf() && s@ == auth_input_json(v) && i == b_from_addr(v) implies r16 == Some(
            (v.domain_idx, b_timestamp(v) as usize),
        ) by {
            g_domain(s@, v);
        }
    }
    let (domain_idx, j16) = match r16 {
        Some(p) => p,
        None => {
            return None;
        },
    };
    proof {
        assert(s@.subrange(i as int, j16 as int) =~= j_abs(
            from_addr_idx as nat,
            subject_idx as nat,
            domain_idx as nat,
        ));
    }
    Some((from_addr_idx, subject_idx, domain_idx, j16))
}

/// Reads the four relative offset fields and the closing brace, through the
/// text's end.
#[verifier::rlimit(100)]
fn de_rel(s: &str, i: usize) -> (r: Option<(i64, i64, i64, i64)>)
    ensures
        r matches Some(q) ==> i <= s@.len() && s@.subrange(i as int, s@.len() as int) == j_rel(
            q.0 as int,
            q.1 as int,
            q.2 as int,
            q.3 as int,
        ),
        forall|v: EmailAuthInput|
            v.wf() && s@ == auth_input_json(v) && i == b_timestamp(v) ==> r == Some(
                (v.timestamp_idx, v.address_idx, v.pubkey_idx, v.validator_idx),
            ),
{
    let n = s.unicode_len();
    let r17 = expect_lit(s, i, ",\"timestamp_idx\":");
    proof {
        assert forall|v: EmailAuthInput|
            v.wf() && s@ == auth_input_json(v) && i == b_timestamp(v) implies r17 is Some by {
            g_timestamp(s@, v);
        }
    }
    let j17 = match r17 {
        Some(j) => j,
        None => {
            return None;
        },
    };
    let r18 = parse_i64(s, j17);
    proof {
        assert forall|v: EmailAuthInput|
            v.wf() && s@ == auth_input_json(v) && i == b_timestamp(v) implies r18 == Some(
            (v.timestamp_idx, b_address(v) as usize),
        ) by {
            g_timestamp(s@, v);
        }
    }
    let (timestamp_idx, j18) = match r18 {
        Some(p) => p,
        None => {
            return None;
        },
    };
    let r19 = expect_lit(s, j18, ",\"address_idx\":");
    proof {
        assert forall|v: EmailAuthInput|
            v.wf() && s@ == auth_input_json(v) && i == b_timestamp(v) implies r19 is Some by {
            g_address(s@, v);
        }
    }
    let j19 = match r19 {
        Some(j) => j,
        None => {
            return None;
        },
    };
    let r20 = parse_i64(s, j19);
    proof {
        assert forall|v: EmailAuthInput|
            v.wf() && s@ == auth_input_json(v) && i == b_timestamp(v) implies r20 == Some(
            (v.address_idx, b_pubkey_idx(v) as usize),
        ) by {
            g_address(s@, v);
        }
    }
    let (address_idx, j20) = match r20 {
        Some(p) => p,
        None => {
            return None;
        },
    };
    let r21 = expect_lit(s, j20, ",\"pubkey_idx\":");
    proof {
        assert forall|v: EmailAuthInput|
            v.wf() && s@ == auth_input_json(v) && i == b_timestamp(v) implies r21 is Some by {
            g_pubkey_idx(s@, v);
        }
    }
    let j21 = match r21 {
        Some(j) => j,
        None => {
            return None;
        },
    };
    let r22 = parse_i64(s, j21);
    proof {
        assert forall|v: EmailAuthInput|
            v.wf() && s@ == auth_input_json(v) && i == b_timestamp(v) implies r22 == Some(
            (v.pubkey_idx, b_validator(v) as usize),
        ) by {
            g_pubkey_idx(s@, v);
        }
    }
    let (pubkey_idx, j22) = match r22 {
        Some(p) => p,
        None => {
            return None;
        },
    };
    let r23 = expect_lit(s, j22, ",\"validator_idx\":");
    proof {
        assert forall|v: EmailAuthInput|
            v.wf() && s@ == auth_input_json(v) && i == b_timestamp(v) implies r23 is Some by {
            g_validator(s@, v);
        }
    }
    let j23 = match r23 {
        Some(j) => j,
        None => {
            return None;
        },
    };
    let r24 = parse_i64(s, j23);
    proof {
        assert forall|v: EmailAuthInput|
            v.wf() && s@ == auth_input_json(v) && i == b_timestamp(v) implies r24 == Some(
            (v.validator_idx, b_brace(v) as usize),
        ) by {
            g_validator(s@, v);
        }
    }
    let (validator_idx, j24) = match r24 {
        Some(p) => p,
        None => {
            return None;
        },
    };
    let r25 = expect_lit(s, j24, "}");
    proof {
        assert forall|v: EmailAuthInput|
            v.wf() && s@ == auth_input_json(v) && i == b_timestamp(v) implies (r25 matches Some(
            j25v,
        ) && j25v == s@.len()) by {
            g_end(s@, v);
            reveal_strlit("}");
            assert(s@.subrange(b_brace(v), b_brace(v) + 1) =~= "}"@);
        }
    }
    let j25 = match r25 {
        Some(j) => j,
        None => {
            return None;
        },
    };
    if j25 != n {
        return None;
    }
    proof {
        assert(s@.subrange(j24 as int, n as int) =~= "}"@) by {
            reveal_strlit("}");
        }
        assert(s@.subrange(i as int, n as int) =~= j_rel(
            timestamp_idx as int,
            address_idx as int,
            pubkey_idx as int,
            validator_idx as int,
        ));
    }
    Some((timestamp_idx, address_idx, pubkey_idx, validator_idx))
}

/// Reads a circuit input payload back from its JSON exchange string.
///
/// Law (payload round trip): anything accepted is exactly a canonical
/// rendering of what is returned, and the canonical rendering of every valid
/// payload is accepted and reproduces every field bit for bit; in particular
/// deserializing what `serialize_auth_input` produced gives the fields back.
pub fn deserialize_auth_input(s: &str) -> (r: Option<EmailAuthInput>)
    ensures
        r matches Some(w) ==> w.wf() && s@ == auth_input_json(w),
        forall|v: EmailAuthInput|
            v.wf() && s@ == auth_input_json(v) ==> (r matches Some(w) && same_fields(w, v)),
{
    let n = s.unicode_len();
    let rh = de_head(s);
    proof {
        assert forall|v: EmailAuthInput|
            v.wf() && s@ == auth_input_json(v) implies (rh matches Some(h) && h.padded_header@
            == v.padded_header@ && h.public_key@ == v.public_key@ && h.signature@ == v.signature@
            && h.padded_header_len == v.padded_header_len && h.account_code@ == v.account_code@
            && h.end == b_from_addr(v)) by {}
    }
    let h = match rh {
        Some(h) => h,
        None => {
            return None;
        },
    };
    let ra = de_abs(s, h.end);
    proof {
        assert forall|v: EmailAuthInput|
            v.wf() && s@ == auth_input_json(v) implies ra == Some(
            (v.from_addr_idx, v.subject_idx, v.domain_idx, b_timestamp(v) as usize),
        ) by {}
    }
    let a = match ra {
        Some(t) => t,
        None => {
            return None;
        },
    };
    let rq = de_rel(s, a.3);
    proof {
        assert forall|v: EmailAuthInput|
            v.wf() && s@ == auth_input_json(v) implies rq == Some(
            (v.timestamp_idx, v.address_idx, v.pubkey_idx, v.validator_idx),
        ) by {
            g_domain(s@, v);
        }
    }
    let q = match rq {
        Some(q) => q,
        None => {
            return None;
        },
    };
    let w = EmailAuthInput {
        padded_header: h.padded_header,
        public_key: h.public_key,
        signature: h.signature,
        padded_header_len: h.padded_header_len,
        account_code: h.account_code,
        from_addr_idx: a.0,
        subject_idx: a.1,
        domain_idx: a.2,
        timestamp_idx: q.0,
        address_idx: q.1,
        pubkey_idx: q.2,
        validator_idx: q.3,
    };
    proof {
        lemma_whole_split(w);
        assert(s@.subrange(h.end as int, n as int) =~= j_abs(
            w.from_addr_idx as nat,
            w.subject_idx as nat,
            w.domain_idx as nat,
        ) + j_rel(
            w.timestamp_idx as int,
            w.address_idx as int,
            w.pubkey_idx as int,
            w.validator_idx as int,
        ));
        assert(s@ =~= auth_input_json(w));
    }
    Some(w)
}

} // verus!
