//! The error taxonomy of the core: every failure a request can end in.

use vstd::prelude::*;

verus! {

/// A failure of one request. Every error is request-scoped: it is rendered
/// into the response envelope and never carries state into a later request.
#[derive(Debug, PartialEq, Eq)]
pub enum CoreError {
    /// Malformed host input: bad hex, a missing required prefix.
    DecodingError(String),
    /// The from-address, domain or subject range could not be resolved.
    RequiredFieldMissing(String),
    /// Hex text that does not encode a value inside the field's range.
    InvalidFieldElement,
    /// The hash primitive itself reported a failure.
    HashComputationFault,
    /// An unexpected abort intercepted at the invocation boundary.
    RuntimeFault(String),
}

/// The descriptive text of each error, as it appears in envelope messages.
pub open spec fn error_text(e: CoreError) -> Seq<char> {
    match e {
        CoreError::DecodingError(d) => "invalid input encoding: "@ + d@,
        CoreError::RequiredFieldMissing(f) => "required email field missing: "@ + f@,
        CoreError::InvalidFieldElement => "hex does not encode a field element in range"@,
        CoreError::HashComputationFault => "hash primitive computation failed"@,
        CoreError::RuntimeFault(m) => "unexpected runtime fault: "@ + m@,
    }
}

impl CoreError {
    /// Renders the error as the text used in envelope messages.
    pub fn text(&self) -> (r: String)
        ensures
            r@ == error_text(*self),
    {
        match self {
            CoreError::DecodingError(d) => {
                let mut s = String::from_str("invalid input encoding: ");
                s.append(d.as_str());
                s
            },
            CoreError::RequiredFieldMissing(f) => {
                let mut s = String::from_str("required email field missing: ");
                s.append(f.as_str());
                s
            },
            CoreError::InvalidFieldElement => String::from_str(
                "hex does not encode a field element in range",
            ),
            CoreError::HashComputationFault => String::from_str(
                "hash primitive computation failed",
            ),
            CoreError::RuntimeFault(m) => {
                let mut s = String::from_str("unexpected runtime fault: ");
                s.append(m.as_str());
                s
            },
        }
    }
}

} // verus!
