//! The JSON text the core emits: escaped strings and byte arrays, built
//! against an exact character-level model.

use vstd::prelude::*;
use crate::hex_codec::{hex_lower_char, push_char};
use crate::numeric::{dec_of, fmt_u64};

verus! {

/// The JSON escape of one character: quotes and backslashes are escaped,
/// control characters become `\u00` escapes, all else stands as itself.
pub open spec fn json_escape_char(c: char) -> Seq<char> {
    if c == '"' {
        seq!['\\', '"']
    } else if c == '\\' {
        seq!['\\', '\\']
    } else if (c as u32) < 32 {
        seq!['\\', 'u', '0', '0', hex_lower_char((c as u32 / 16) as u8), hex_lower_char(
            (c as u32 % 16) as u8,
        )]
    } else {
        seq![c]
    }
}

/// The JSON escape of a string's characters.
pub open spec fn json_escape(s: Seq<char>) -> Seq<char>
    decreases s.len(),
{
    if s.len() == 0 {
        Seq::empty()
    } else {
        json_escape(s.drop_last()) + json_escape_char(s.last())
    }
}

/// A JSON string literal: quoted, escaped text.
pub open spec fn json_quoted(s: Seq<char>) -> Seq<char> {
    seq!['"'] + json_escape(s) + seq!['"']
}

/// The lowercase hex digit character of a value below sixteen.
pub fn hex_char_of(v: u8) -> (r: char)
    requires
        v < 16,
    ensures
        r == hex_lower_char(v),
{
    let b: u8 = if v < 10 {
        48 + v
    } else {
        87 + v
    };
    b as char
}

/// Appends the JSON string literal for `s`.
pub fn append_json_quoted(out: &mut String, s: &str)
    ensures
        final(out)@ == old(out)@ + json_quoted(s@),
{
    push_char(out, '"');
    let n = s.unicode_len();
    let mut i: usize = 0;
    while i < n
        invariant
            i <= n,
            n == s@.len(),
            out@ == old(out)@ + seq!['"'] + json_escape(s@.take(i as int)),
        decreases n - i,
    {
        let c = s.get_char(i);
        if c == '"' {
            push_char(out, '\\');
            push_char(out, '"');
        } else if c == '\\' {
            push_char(out, '\\');
            push_char(out, '\\');
        } else if (c as u32) < 32 {
            push_char(out, '\\');
            push_char(out, 'u');
            push_char(out, '0');
            push_char(out, '0');
            push_char(out, hex_char_of((c as u32 / 16) as u8));
            push_char(out, hex_char_of((c as u32 % 16) as u8));
        } else {
            push_char(out, c);
        }
        proof {
            assert(s@.take(i as int + 1).drop_last() =~= s@.take(i as int));
            assert(s@.take(i as int + 1).last() == s@[i as int]);
            assert(out@ =~= old(out)@ + seq!['"'] + json_escape(s@.take(i as int + 1)));
        }
        i += 1;
    }
    push_char(out, '"');
    proof {
        assert(s@.take(n as int) =~= s@);
        assert(out@ =~= old(out)@ + json_quoted(s@));
    }
}

/// The comma-separated decimal items of a JSON array of bytes.
pub open spec fn json_u8_list(b: Seq<u8>) -> Seq<char>
    decreases b.len(),
{
    if b.len() == 0 {
        Seq::empty()
    } else if b.len() == 1 {
        dec_of(b.last() as nat)
    } else {
        json_u8_list(b.drop_last()) + seq![','] + dec_of(b.last() as nat)
    }
}

/// A JSON array holding a byte sequence as decimal numbers.
pub open spec fn json_u8_array(b: Seq<u8>) -> Seq<char> {
    seq!['['] + json_u8_list(b) + seq![']']
}

/// Appends the JSON array text for a byte vector.
pub fn append_u8_array(out: &mut String, b: &Vec<u8>)
    ensures
        final(out)@ == old(out)@ + json_u8_array(b@),
{
    push_char(out, '[');
    let n = b.len();
    let mut i: usize = 0;
    while i < n
        invariant
            i <= n,
            n == b@.len(),
            out@ == old(out)@ + seq!['['] + json_u8_list(b@.take(i as int)),
        decreases n - i,
    {
        if i > 0 {
            push_char(out, ',');
        }
        let digits = fmt_u64(b[i] as u64);
        out.append(digits.as_str());
        proof {
            assert(b@.take(i as int + 1).drop_last() =~= b@.take(i as int));
            assert(b@.take(i as int + 1).last() == b@[i as int]);
            assert(out@ =~= old(out)@ + seq!['['] + json_u8_list(b@.take(i as int + 1)));
        }
        i += 1;
    }
    push_char(out, ']');
    proof {
        assert(b@.take(n as int) =~= b@);
        assert(out@ =~= old(out)@ + json_u8_array(b@));
    }
}

} // verus!
