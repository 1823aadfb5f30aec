//! The uniform response envelope every host call returns: exactly one tagged
//! result per request, serialized as a JSON exchange string.

use vstd::prelude::*;
use crate::errors::{error_text, CoreError};
use crate::hex_codec::push_char;
use crate::json::{append_json_quoted, json_quoted};
use crate::numeric::{dec_of, fmt_u64};

verus! {

/// The envelope handed back across the host boundary: `code` 0 on success
/// with the payload in `data`, `code` 1 on failure with `data` absent and a
/// message naming the failing operation and the cause.
#[derive(Debug, PartialEq, Eq)]
pub struct JavaResponse {
    /// 0 for success, 1 for error.
    pub code: u8,
    /// Human-readable outcome, always present.
    pub msg: String,
    /// The payload; present exactly on success.
    pub data: Option<String>,
}

/// The error message an envelope carries: the failing operation, then the
/// underlying cause.
pub open spec fn error_msg(errmsg: Seq<char>, e: CoreError) -> Seq<char> {
    "err_msg: "@ + errmsg + " reason:"@ + error_text(e)
}

/// The JSON text of an envelope.
pub open spec fn response_json(r: JavaResponse) -> Seq<char> {
    "{\"code\":"@ + dec_of(r.code as nat) + ",\"msg\":"@ + json_quoted(r.msg@) + ",\"data\":"@
        + (match r.data {
        Some(d) => json_quoted(d@),
        None => "null"@,
    }) + "}"@
}

impl JavaResponse {
    /// The invariant of the envelope: the tag is binary and the payload is
    /// present exactly on success.
    pub open spec fn wf(&self) -> bool {
        (self.code == 0 || self.code == 1) && (self.code == 0 <==> self.data is Some)
    }

    /// Builds the error envelope for a failed operation.
    pub fn error_response(errmsg: &str, err: &CoreError) -> (r: JavaResponse)
        ensures
            r.wf(),
            r.code == 1,
            r.data is None,
            r.msg@ == error_msg(errmsg@, *err),
    {
        let mut msg = String::from_str("err_msg: ");
        msg.append(errmsg);
        msg.append(" reason:");
        let cause = err.text();
        msg.append(cause.as_str());
        JavaResponse { code: 1, msg, data: None }
    }

    /// Builds the success envelope around a payload.
    pub fn success_response(input: &str) -> (r: JavaResponse)
        ensures
            r.wf(),
            r.code == 0,
            r.msg@ == "rust call success"@,
            r.data matches Some(d) && d@ == input@,
    {
        JavaResponse { code: 0, msg: String::from_str("rust call success"), data: Some(
            String::from_str(input),
        ) }
    }

    /// Serializes the envelope as its JSON exchange string.
    pub fn to_json(&self) -> (r: String)
        ensures
            r@ == response_json(*self),
    {
        let mut out = String::from_str("{\"code\":");
        let code = fmt_u64(self.code as u64);
        out.append(code.as_str());
        out.append(",\"msg\":");
        append_json_quoted(&mut out, self.msg.as_str());
        out.append(",\"data\":");
        match &self.data {
            Some(d) => append_json_quoted(&mut out, d.as_str()),
            None => out.append("null"),
        }
        push_char(&mut out, '}');
        proof {
            reveal_strlit("}");
            assert(out@ =~= response_json(*self));
        }
        out
    }

    /// Wraps one operation's outcome in the envelope: the success payload on
    /// `Ok`, the error message naming the operation on `Err`.
    pub fn envelope_of(errmsg: &str, result: &Result<String, CoreError>) -> (r: JavaResponse)
        ensures
            r.wf(),
            result matches Ok(s) ==> r.code == 0 && (r.data matches Some(d) && d@ == s@)
                && r.msg@ == "rust call success"@,
            result matches Err(e) ==> r.code == 1 && r.data is None && r.msg@ == error_msg(
                errmsg@,
                *e,
            ),
    {
        match result {
            Ok(s) => JavaResponse::success_response(s.as_str()),
            Err(e) => JavaResponse::error_response(errmsg, e),
        }
    }
}

} // verus!
