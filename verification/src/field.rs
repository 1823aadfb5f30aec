//! Field elements of the proving system, modelled as their canonical
//! big-endian byte representation, with the hex codec the callers exchange
//! them in.

use vstd::prelude::*;
use crate::errors::CoreError;
use crate::hex_codec::{bytes_of_hex, hex_decode, hex_encode, hex_lower_of, valid_hex_seq};

verus! {

/// Big-endian bytes of the scalar-field modulus of the proving system
/// (the BN254 curve order of the circuit's field):
/// 0x30644e72e131a029b85045b68181585d2833e84879b9709143e1f593f0000001.
pub open spec fn modulus_bytes() -> Seq<u8> {
    seq![
        0x30u8, 0x64, 0x4e, 0x72, 0xe1, 0x31, 0xa0, 0x29,
        0xb8, 0x50, 0x45, 0xb6, 0x81, 0x81, 0x58, 0x5d,
        0x28, 0x33, 0xe8, 0x48, 0x79, 0xb9, 0x70, 0x91,
        0x43, 0xe1, 0xf5, 0x93, 0xf0, 0x00, 0x00, 0x01,
    ]
}

/// The modulus as a byte vector.
pub fn modulus_be() -> (r: Vec<u8>)
    ensures
        r@ == modulus_bytes(),
{
    let r: Vec<u8> = vec![
        0x30u8, 0x64, 0x4e, 0x72, 0xe1, 0x31, 0xa0, 0x29,
        0xb8, 0x50, 0x45, 0xb6, 0x81, 0x81, 0x58, 0x5d,
        0x28, 0x33, 0xe8, 0x48, 0x79, 0xb9, 0x70, 0x91,
        0x43, 0xe1, 0xf5, 0x93, 0xf0, 0x00, 0x00, 0x01,
    ];
    proof {
        assert(r@ =~= modulus_bytes());
    }
    r
}

/// The natural number a big-endian byte sequence stands for.
pub open spec fn be_val(s: Seq<u8>) -> nat
    decreases s.len(),
{
    if s.len() == 0 {
        0
    } else {
        (be_val(s.drop_last()) * 256 + s.last()) as nat
    }
}

/// Two equal-length big-endian sequences that first differ at position `i`
/// order their values as that position orders its bytes.
proof fn lemma_be_val_lt(a: Seq<u8>, b: Seq<u8>, i: int)
    requires
        a.len() == b.len(),
        0 <= i < a.len(),
        forall|j: int| 0 <= j < i ==> a[j] == b[j],
        a[i] < b[i],
    ensures
        be_val(a) < be_val(b),
    decreases a.len(),
{
    if i == a.len() - 1 {
        assert(a.drop_last() =~= b.drop_last());
    } else {
        let a1 = a.drop_last();
        let b1 = b.drop_last();
        lemma_be_val_lt(a1, b1, i);
        assert(be_val(a1) + 1 <= be_val(b1));
        assert(be_val(a1) * 256 + 256 <= be_val(b1) * 256) by {
            assert((be_val(a1) + 1) * 256 <= be_val(b1) * 256) by (nonlinear_arith)
                requires
                    be_val(a1) + 1 <= be_val(b1),
            ;
        }
    }
}

/// Compares two equal-length big-endian byte sequences by value.
pub fn be_bytes_lt(a: &Vec<u8>, b: &Vec<u8>) -> (r: bool)
    requires
        a@.len() == b@.len(),
    ensures
        r == (be_val(a@) < be_val(b@)),
{
    let n = a.len();
    let mut i: usize = 0;
    while i < n
        invariant
            0 <= i <= n,
            n == a@.len() == b@.len(),
            forall|j: int| 0 <= j < i ==> a@[j] == b@[j],
        decreases n - i,
    {
        if a[i] < b[i] {
            proof {
                lemma_be_val_lt(a@, b@, i as int);
            }
            return true;
        }
        if a[i] > b[i] {
            proof {
                lemma_be_val_lt(b@, a@, i as int);
            }
            return false;
        }
        i += 1;
    }
    proof {
        assert(a@ =~= b@);
    }
    false
}

/// An integer representative of the proving system's scalar field, held as
/// its canonical 32 big-endian bytes, in range of the modulus.
#[derive(Debug, PartialEq, Eq, Clone)]
pub struct FieldElement {
    pub bytes: Vec<u8>,
}

impl FieldElement {
    /// A canonical representative: exactly 32 bytes, value below the modulus.
    pub open spec fn wf(&self) -> bool {
        self.bytes@.len() == 32 && be_val(self.bytes@) < be_val(modulus_bytes())
    }
}

/// An opaque caller-owned account identifier, wrapped as a field element and
/// passed through unchanged.
#[derive(Debug, PartialEq, Eq, Clone)]
pub struct AccountCode(pub FieldElement);

/// The canonical hex text of a field element: a `0x` prefix, then two
/// lowercase digits per byte.
pub open spec fn field_hex(fe: FieldElement) -> Seq<char> {
    "0x"@ + hex_lower_of(fe.bytes@)
}

/// Hex text that decodes to an in-range field element: the `0x` prefix,
/// exactly 64 hex digits of either case, value below the modulus.
pub open spec fn valid_field_hex(s: Seq<char>) -> bool {
    &&& s.len() == 66
    &&& s[0] == '0'
    &&& s[1] == 'x'
    &&& valid_hex_seq(s.skip(2))
    &&& be_val(bytes_of_hex(s.skip(2))) < be_val(modulus_bytes())
}

/// Encodes a field element as its canonical hex text.
pub fn field2hex(fe: &FieldElement) -> (r: String)
    ensures
        r@ == field_hex(*fe),
{
    let mut s = String::from_str("0x");
    let digits = hex_encode(fe.bytes.as_slice());
    s.append(digits.as_str());
    s
}

/// Decodes canonical hex text into a field element; rejects text that is not
/// canonical hex or whose value lies outside the field's range.
pub fn hex2field(s: &str) -> (r: Result<FieldElement, CoreError>)
    ensures
        r is Ok <==> valid_field_hex(s@),
        r is Ok ==> (r->Ok_0).wf() && (r->Ok_0).bytes@ == bytes_of_hex(s@.skip(2)),
        r is Err ==> r->Err_0 == CoreError::InvalidFieldElement,
{
    let n = s.unicode_len();
    if n != 66 {
        return Err(CoreError::InvalidFieldElement);
    }
    proof {
        reveal_strlit("0");
        reveal_strlit("x");
    }
    if s.get_char(0) != '0' || s.get_char(1) != 'x' {
        return Err(CoreError::InvalidFieldElement);
    }
    let rest = s.substring_char(2, 66);
    proof {
        assert(rest@ =~= s@.skip(2));
    }
    match hex_decode(rest) {
        None => Err(CoreError::InvalidFieldElement),
        Some(bytes) => {
            let m = modulus_be();
            proof {
                assert(bytes@.len() == 32);
            }
            if be_bytes_lt(&bytes, &m) {
                Ok(FieldElement { bytes })
            } else {
                Err(CoreError::InvalidFieldElement)
            }
        },
    }
}

} // verus!
