//! The parsed-email model and the normalization of its byte ranges into the
//! two coordinate systems the circuit expects.
//!
//! The external email parser canonicalizes the raw message and locates the
//! semantic fields; this module consumes its results as plain values: the
//! canonicalized header bytes, the signature and public key bytes, and one
//! optional `(start, length)` byte range per field.

use vstd::prelude::*;
use crate::errors::CoreError;

verus! {

/// What the external email parser hands the core for one message. A range is
/// `Some((start, len))` when the parser resolved the field, `None` otherwise.
pub struct ParsedEmail {
    /// Header bytes after the parser's canonicalization transform.
    pub canonicalized_header: Vec<u8>,
    /// The signature bytes extracted from the message.
    pub signature: Vec<u8>,
    /// The public key bytes extracted from the message.
    pub public_key: Vec<u8>,
    /// Byte range of the from-address field; required.
    pub from_addr: Option<(usize, usize)>,
    /// Byte range of the sending domain; required.
    pub domain: Option<(usize, usize)>,
    /// Byte range of the whole subject; required, and the origin of the
    /// subject-relative coordinate system.
    pub subject: Option<(usize, usize)>,
    /// Byte range of the address field inside the subject; optional.
    pub address: Option<(usize, usize)>,
    /// Byte range of the pubkey field inside the subject; optional.
    pub pubkey: Option<(usize, usize)>,
    /// Byte range of the validator field inside the subject; optional.
    pub validator: Option<(usize, usize)>,
    /// Byte range of the timestamp field; optional.
    pub timestamp: Option<(usize, usize)>,
}

impl ParsedEmail {
    /// Every resolved start offset can be carried by the signed integers of
    /// the exchange schema.
    pub open spec fn wf(&self) -> bool {
        &&& (self.from_addr matches Some(r) ==> r.0 <= i64::MAX)
        &&& (self.domain matches Some(r) ==> r.0 <= i64::MAX)
        &&& (self.subject matches Some(r) ==> r.0 <= i64::MAX)
        &&& (self.address matches Some(r) ==> r.0 <= i64::MAX)
        &&& (self.pubkey matches Some(r) ==> r.0 <= i64::MAX)
        &&& (self.validator matches Some(r) ==> r.0 <= i64::MAX)
        &&& (self.timestamp matches Some(r) ==> r.0 <= i64::MAX)
    }
}

/// The offsets of one message, still in the internal form: the three required
/// starts resolved, each optional start kept as present-or-absent.
#[derive(Debug)]
pub struct EmailOffsets {
    /// Absolute start of the from-address field.
    pub from_addr_idx: usize,
    /// Absolute start of the domain field.
    pub domain_idx: usize,
    /// Absolute start of the subject: the origin of the relative system.
    pub subject_idx: usize,
    /// Absolute start of the address field, when resolved.
    pub address_start: Option<usize>,
    /// Absolute start of the pubkey field, when resolved.
    pub pubkey_start: Option<usize>,
    /// Absolute start of the validator field, when resolved.
    pub validator_start: Option<usize>,
    /// Absolute start of the timestamp field, when resolved.
    pub timestamp_start: Option<usize>,
}

/// The start of an optional range, kept present-or-absent.
pub open spec fn opt_start(r: Option<(usize, usize)>) -> Option<usize> {
    match r {
        Some(p) => Some(p.0),
        None => None,
    }
}

/// A defaulted start expressed relative to the subject start: absent fields
/// default to zero first, so an absent field at subject start `s` becomes
/// exactly `-s`; no value ever wraps.
pub open spec fn relative_idx(start: Option<usize>, subject_idx: usize) -> int {
    match start {
        Some(v) => v - subject_idx,
        None => 0 - subject_idx,
    }
}

impl EmailOffsets {
    /// What normalization promises of the offsets of `pe`.
    pub open spec fn is_normalization_of(&self, pe: ParsedEmail) -> bool {
        &&& pe.from_addr matches Some(r) && self.from_addr_idx == r.0
        &&& pe.domain matches Some(r) && self.domain_idx == r.0
        &&& pe.subject matches Some(r) && self.subject_idx == r.0
        &&& self.address_start == opt_start(pe.address)
        &&& self.pubkey_start == opt_start(pe.pubkey)
        &&& self.validator_start == opt_start(pe.validator)
        &&& self.timestamp_start == opt_start(pe.timestamp)
    }
}

/// Resolves the seven field ranges of a parsed email into offsets.
///
/// The from-address, domain and subject ranges are required: the first one
/// absent (in that order) fails the whole request with a structured error and
/// no partial result. The four optional ranges degrade to absent without
/// failing the request.
pub fn normalize_indexes(pe: &ParsedEmail) -> (r: Result<EmailOffsets, CoreError>)
    ensures
        r is Ok <==> (pe.from_addr is Some && pe.domain is Some && pe.subject is Some),
        r matches Ok(o) ==> o.is_normalization_of(*pe),
        pe.from_addr is None ==> (r matches Err(e) && e matches CoreError::RequiredFieldMissing(f)
            && f@ == "from address"@),
        pe.from_addr is Some && pe.domain is None ==> (r matches Err(e)
            && e matches CoreError::RequiredFieldMissing(f) && f@ == "domain"@),
        pe.from_addr is Some && pe.domain is Some && pe.subject is None ==> (r matches Err(e)
            && e matches CoreError::RequiredFieldMissing(f) && f@ == "subject"@),
{
    let from_addr_idx: usize = match pe.from_addr {
        Some(range) => range.0,
        None => {
            return Err(CoreError::RequiredFieldMissing(String::from_str("from address")));
        },
    };
    let domain_idx: usize = match pe.domain {
        Some(range) => range.0,
        None => {
            return Err(CoreError::RequiredFieldMissing(String::from_str("domain")));
        },
    };
    let subject_idx: usize = match pe.subject {
        Some(range) => range.0,
        None => {
            return Err(CoreError::RequiredFieldMissing(String::from_str("subject")));
        },
    };
    Ok(EmailOffsets {
        from_addr_idx,
        domain_idx,
        subject_idx,
        address_start: match pe.address {
            Some(range) => Some(range.0),
            None => None,
        },
        pubkey_start: match pe.pubkey {
            Some(range) => Some(range.0),
            None => None,
        },
        validator_start: match pe.validator {
            Some(range) => Some(range.0),
            None => None,
        },
        timestamp_start: match pe.timestamp {
            Some(range) => Some(range.0),
            None => None,
        },
    })
}

/// Converts an optional absolute start into the subject-relative coordinate
/// system, defaulting an absent field to zero before the shift.
pub fn relative_to_subject(start: Option<usize>, subject_idx: usize) -> (r: i64)
    requires
        subject_idx <= i64::MAX,
        start matches Some(v) ==> v <= i64::MAX,
    ensures
        r == relative_idx(start, subject_idx),
{
    match start {
        Some(v) => v as i64 - subject_idx as i64,
        None => 0i64 - subject_idx as i64,
    }
}

} // verus!
