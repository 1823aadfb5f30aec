//! Core logic for preparing the inputs of a zero-knowledge
//! email-authentication circuit: normalization of header byte offsets into
//! the circuit's two coordinate systems, assembly and serialization of the
//! circuit input payload, preparation of digest inputs (byte-order reversal,
//! prefixed-hex decoding), a field-element hex codec, and the uniform
//! success/error response envelope returned across the host boundary.
//!
//! Raw-email parsing, circuit padding and the cryptographic hash primitives
//! are collaborators of the surrounding system: the functions here consume
//! their results as plain values.

pub mod auth_input;
pub mod deser;
pub mod digest;
pub mod email;
pub mod errors;
pub mod field;
pub mod hex_codec;
pub mod json;
pub mod numeric;
pub mod parse;
pub mod response;
