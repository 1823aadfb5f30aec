//! A strict reader for the canonical JSON text the serializer emits: each
//! reader both says exactly what text it accepted and that it accepts every
//! canonical rendering, which together give the payload round trip.

use vstd::prelude::*;
use crate::hex_codec::push_char;
use crate::json::{json_escape, json_escape_char, json_quoted, json_u8_array, json_u8_list};
use crate::numeric::{dec_of, is_dec_digit, lemma_dec_of_shape, parse_u64};

verus! {

/// Tests whether the literal stands at position `i`.
pub fn expect_lit(s: &str, i: usize, lit: &str) -> (r: Option<usize>)
    ensures
        r is Some <==> (i + lit@.len() <= s@.len() && s@.subrange(i as int, i + lit@.len())
            == lit@),
        r matches Some(j) ==> j == i + lit@.len(),
{
    let m = lit.unicode_len();
    let n = s.unicode_len();
    if m > n || i > n - m {
        return None;
    }
    let mut k: usize = 0;
    while k < m
        invariant
            0 <= k <= m,
            m == lit@.len(),
            n == s@.len(),
            i + m <= n,
            forall|t: int| 0 <= t < k ==> s@[i + t] == lit@[t],
        decreases m - k,
    {
        if s.get_char(i + k) != lit.get_char(k) {
            proof {
                if s@.subrange(i as int, i + lit@.len()) == lit@ {
                    assert(s@.subrange(i as int, i + lit@.len())[k as int] == lit@[k as int]);
                    assert(false);
                }
            }
            return None;
        }
        k += 1;
    }
    proof {
        assert(s@.subrange(i as int, i + lit@.len()) =~= lit@);
    }
    Some(i + m)
}

/// Reads one canonical decimal byte value.
pub fn parse_u8(s: &str, i: usize) -> (r: Option<(u8, usize)>)
    ensures
        r matches Some(p) ==> i < p.1 <= s@.len() && s@.subrange(i as int, p.1 as int) == dec_of(
            p.0 as nat,
        ) && (p.1 == s@.len() || !is_dec_digit(s@[p.1 as int])),
        forall|v: u8, j0: int|
            i <= j0 <= s@.len() && s@.subrange(i as int, j0) == dec_of(v as nat) && (j0 == s@.len()
                || !is_dec_digit(s@[j0])) ==> r == Some((v, j0 as usize)),
{
    let rsub = parse_u64(s, i);
    proof {
        assert forall|v: u8, j0: int|
            i <= j0 <= s@.len() && s@.subrange(i as int, j0) == dec_of(v as nat) && (j0 == s@.len()
                || !is_dec_digit(s@[j0])) implies rsub == Some(((v as u64), j0 as usize)) by {
            assert(s@.subrange(i as int, j0) == dec_of((v as u64) as nat));
        }
    }
    match rsub {
        Some((m, j)) => {
            if m > 255 {
                return None;
            }
            Some((m as u8, j))
        },
        None => None,
    }
}

/// The items of a nonempty byte list split at the first item.
proof fn lemma_u8_list_left(b: Seq<u8>)
    requires
        b.len() >= 1,
    ensures
        json_u8_list(b) == dec_of(b[0] as nat) + (if b.len() == 1 {
            Seq::<char>::empty()
        } else {
            seq![','] + json_u8_list(b.drop_first())
        }),
    decreases b.len(),
{
    if b.len() == 1 {
        assert(b.last() == b[0]);
        assert(json_u8_list(b) =~= dec_of(b[0] as nat) + Seq::<char>::empty());
    } else if b.len() == 2 {
        assert(b.drop_last()[0] == b[0]);
        assert(b.drop_last() =~= seq![b[0]]);
        assert(b.drop_first() =~= seq![b[1]]);
        assert(json_u8_list(b.drop_last()) == dec_of(b[0] as nat)) by {
            lemma_u8_list_left(b.drop_last());
            assert(json_u8_list(b.drop_last()) =~= dec_of(b[0] as nat) + Seq::<char>::empty());
        }
        assert(json_u8_list(b.drop_first()) == dec_of(b[1] as nat)) by {
            lemma_u8_list_left(b.drop_first());
            assert(json_u8_list(b.drop_first()) =~= dec_of(b[1] as nat) + Seq::<char>::empty());
        }
        assert(b.last() == b[1]);
        assert(json_u8_list(b) =~= dec_of(b[0] as nat) + (seq![','] + json_u8_list(
            b.drop_first(),
        )));
    } else {
        lemma_u8_list_left(b.drop_last());
        assert(b.drop_last()[0] == b[0]);
        assert(b.drop_last().len() >= 2);
        assert(b.drop_last().drop_first() =~= b.drop_first().drop_last());
        assert(b.drop_first().last() == b.last());
        assert(b.drop_first().len() >= 2);
        assert(json_u8_list(b.drop_first()) == json_u8_list(b.drop_first().drop_last()) + seq![',']
            + dec_of(b.last() as nat));
        assert(json_u8_list(b) =~= dec_of(b[0] as nat) + (seq![','] + json_u8_list(
            b.drop_first(),
        )));
    }
}

/// How a byte-list span decomposes around its first item: the item's text,
/// then a comma and the remaining list, or directly the terminator after it.
proof fn lemma_list_span(s: Seq<char>, i: int, j0: int, b: Seq<u8>)
    requires
        0 <= i <= j0 < s.len(),
        b.len() >= 1,
        s.subrange(i, j0) == json_u8_list(b),
        s[j0] == ']',
    ensures
        i + dec_of(b[0] as nat).len() <= j0,
        s.subrange(i, i + dec_of(b[0] as nat).len()) == dec_of(b[0] as nat),
        i + dec_of(b[0] as nat).len() < s.len(),
        !is_dec_digit(s[i + dec_of(b[0] as nat).len()]),
        b.len() == 1 ==> j0 == i + dec_of(b[0] as nat).len(),
        b.len() >= 2 ==> s[i + dec_of(b[0] as nat).len()] == ',' && s.subrange(
            i + dec_of(b[0] as nat).len() + 1,
            j0,
        ) == json_u8_list(b.drop_first()),
{
    lemma_u8_list_left(b);
    lemma_dec_of_shape(b[0] as nat);
    let d = dec_of(b[0] as nat);
    let dlen = d.len() as int;
    assert(j0 - i == json_u8_list(b).len());
    assert(json_u8_list(b).len() >= dlen);
    assert(s.subrange(i, i + dlen) =~= d) by {
        assert forall|k: int| 0 <= k < dlen implies s.subrange(i, i + dlen)[k] == d[k] by {
            assert(s.subrange(i, j0)[k] == json_u8_list(b)[k]);
        }
    }
    if b.len() == 1 {
        assert(j0 == i + dlen);
        assert(!is_dec_digit(']'));
    } else {
        assert(json_u8_list(b).len() == dlen + 1 + json_u8_list(b.drop_first()).len());
        assert(s[i + dlen] == s.subrange(i, j0)[dlen]);
        assert(json_u8_list(b)[dlen] == ',');
        assert(!is_dec_digit(','));
        assert(s.subrange(i + dlen + 1, j0) =~= json_u8_list(b.drop_first())) by {
            assert forall|k: int|
                0 <= k < json_u8_list(b.drop_first()).len() implies s.subrange(i + dlen + 1, j0)[k]
                == json_u8_list(b.drop_first())[k] by {
                assert(s.subrange(i, j0)[dlen + 1 + k] == json_u8_list(b)[dlen + 1 + k]);
            }
        }
    }
}

/// Reads a nonempty comma-separated list of canonical byte values; the text
/// it accepts is exactly a list span that ends right before a closing bracket.
pub fn parse_u8_list(s: &str, i: usize) -> (r: Option<(Vec<u8>, usize)>)
    ensures
        r matches Some(p) ==> i < p.1 <= s@.len() && p.0@.len() >= 1 && s@.subrange(
            i as int,
            p.1 as int,
        ) == json_u8_list(p.0@),
        forall|b: Seq<u8>, j0: int|
            b.len() >= 1 && i <= j0 < s@.len() && s@.subrange(i as int, j0) == json_u8_list(b)
                && s@[j0] == ']' ==> (r matches Some(p) && p.0@ == b && p.1 == j0),
    decreases s@.len() - i,
{
    let n = s.unicode_len();
    let rfirst = parse_u8(s, i);
    proof {
        assert forall|b: Seq<u8>, j0: int|
            b.len() >= 1 && i <= j0 < s@.len() && s@.subrange(i as int, j0) == json_u8_list(b)
                && s@[j0] == ']' implies rfirst == Some(
            (b[0], (i + dec_of(b[0] as nat).len()) as usize),
        ) by {
            lemma_list_span(s@, i as int, j0, b);
        }
    }
    match rfirst {
        Some((v, j1)) => {
            if j1 < n && s.get_char(j1) == ',' {
                proof {
                    reveal_strlit(",");
                }
                let rtail = parse_u8_list(s, j1 + 1);
                proof {
                    assert forall|b: Seq<u8>, j0: int|
                        b.len() >= 1 && i <= j0 < s@.len() && s@.subrange(i as int, j0)
                            == json_u8_list(b) && s@[j0] == ']' implies b.len() >= 2 && (
                    rtail matches Some(p) && p.0@ == b.drop_first() && p.1 == j0) by {
                        lemma_list_span(s@, i as int, j0, b);
                        if b.len() == 1 {
                            assert(j1 == j0 && s@[j0 as int] == ']');
                            assert(false);
                        }
                    }
                }
                match rtail {
                    Some((tail, j2)) => {
                        let ghost tail_view = tail@;
                        let mut out: Vec<u8> = Vec::new();
                        out.push(v);
                        let mut tail = tail;
                        out.append(&mut tail);
                        proof {
                            assert(out@ =~= seq![v] + tail_view);
                            assert(out@[0] == v);
                            assert(out@.drop_first() =~= tail_view);
                            lemma_u8_list_left(out@);
                            assert(s@.subrange(i as int, j2 as int) =~= json_u8_list(out@)) by {
                                assert(s@.subrange(i as int, j1 as int) == dec_of(v as nat));
                                assert(s@.subrange(j1 as int + 1, j2 as int) == json_u8_list(
                                    tail_view,
                                ));
                                assert(json_u8_list(out@) == dec_of(v as nat) + (seq![',']
                                    + json_u8_list(tail_view)));
                            }
                        }
                        Some((out, j2))
                    },
                    None => None,
                }
            } else {
                let mut out: Vec<u8> = Vec::new();
                out.push(v);
                proof {
                    assert(out@ =~= seq![v]);
                    lemma_u8_list_left(out@);
                    assert(json_u8_list(out@) =~= dec_of(v as nat));
                    assert forall|b: Seq<u8>, j0: int|
                        b.len() >= 1 && i <= j0 < s@.len() && s@.subrange(i as int, j0)
                            == json_u8_list(b) && s@[j0] == ']' implies b =~= out@ && j0
                        == j1 by {
                        lemma_list_span(s@, i as int, j0, b);
                        if b.len() >= 2 {
                            reveal_strlit(",");
                            assert(j1 == i + dec_of(b[0] as nat).len());
                            assert(s@[j1 as int] == ',');
                            assert(j1 < n);
                            assert(false);
                        }
                    }
                }
                Some((out, j1))
            }
        },
        None => None,
    }
}

/// How an array span decomposes: brackets around the item list.
proof fn lemma_array_span(s: Seq<char>, i: int, j0: int, b: Seq<u8>)
    requires
        0 <= i <= j0 <= s.len(),
        s.subrange(i, j0) == json_u8_array(b),
    ensures
        j0 - i == 2 + json_u8_list(b).len(),
        i < s.len(),
        s[i] == '[',
        s[j0 - 1] == ']',
        j0 - 1 < s.len(),
        b.len() == 0 ==> j0 == i + 2,
        b.len() >= 1 ==> s.subrange(i + 1, j0 - 1) == json_u8_list(b) && is_dec_digit(s[i + 1]),
{
    assert(j0 - i == json_u8_array(b).len());
    assert(json_u8_array(b).len() == 2 + json_u8_list(b).len());
    assert(s[i] == s.subrange(i, j0)[0]);
    assert(s[j0 - 1] == s.subrange(i, j0)[j0 - i - 1]);
    if b.len() == 0 {
        assert(json_u8_list(b).len() == 0);
    } else {
        lemma_u8_list_left(b);
        lemma_dec_of_shape(b[0] as nat);
        assert(s.subrange(i + 1, j0 - 1) =~= json_u8_list(b)) by {
            assert forall|k: int|
                0 <= k < json_u8_list(b).len() implies s.subrange(i + 1, j0 - 1)[k]
                == json_u8_list(b)[k] by {
                assert(s.subrange(i, j0)[1 + k] == json_u8_array(b)[1 + k]);
            }
        }
        assert(s[i + 1] == json_u8_list(b)[0]);
        assert(json_u8_list(b)[0] == dec_of(b[0] as nat)[0]);
    }
}

/// Reads a JSON array of canonical byte values.
pub fn parse_u8_array(s: &str, i: usize) -> (r: Option<(Vec<u8>, usize)>)
    ensures
        r matches Some(p) ==> i < p.1 <= s@.len() && s@.subrange(i as int, p.1 as int)
            == json_u8_array(p.0@),
        forall|b: Seq<u8>, j0: int|
            i <= j0 <= s@.len() && s@.subrange(i as int, j0) == json_u8_array(b) ==> (
            r matches Some(p) && p.0@ == b && p.1 == j0),
{
    let n = s.unicode_len();
    if !(i < n) {
        proof {
            assert forall|b: Seq<u8>, j0: int|
                i <= j0 <= s@.len() && s@.subrange(i as int, j0) == json_u8_array(b) implies false by {
                lemma_array_span(s@, i as int, j0, b);
            }
        }
        return None;
    }
    if s.get_char(i) != '[' {
        proof {
            assert forall|b: Seq<u8>, j0: int|
                i <= j0 <= s@.len() && s@.subrange(i as int, j0) == json_u8_array(b) implies false by {
                lemma_array_span(s@, i as int, j0, b);
            }
        }
        return None;
    }
    if i + 1 < n && s.get_char(i + 1) == ']' {
        let out: Vec<u8> = Vec::new();
        proof {
            assert(out@ =~= Seq::<u8>::empty());
            assert(json_u8_list(out@).len() == 0);
            assert(s@.subrange(i as int, i as int + 2) =~= json_u8_array(out@));
            assert forall|b: Seq<u8>, j0: int|
                i <= j0 <= s@.len() && s@.subrange(i as int, j0) == json_u8_array(b) implies b
                =~= out@ && j0 == i + 2 by {
                lemma_array_span(s@, i as int, j0, b);
                if b.len() >= 1 {
                    assert(is_dec_digit(s@[i as int + 1]));
                    assert(!is_dec_digit(']'));
                    assert(false);
                }
            }
        }
        return Some((out, i + 2));
    }
    match parse_u8_list(s, i + 1) {
        Some((lst, j1)) => {
            if j1 < n && s.get_char(j1) == ']' {
                proof {
                    assert(s@.subrange(i as int, j1 as int + 1) =~= json_u8_array(lst@)) by {
                        assert(s@.subrange(i as int + 1, j1 as int) == json_u8_list(lst@));
                    }
                    assert forall|b: Seq<u8>, j0: int|
                        i <= j0 <= s@.len() && s@.subrange(i as int, j0) == json_u8_array(
                            b,
                        ) implies b =~= lst@ && j0 == j1 + 1 by {
                        lemma_array_span(s@, i as int, j0, b);
                        if b.len() == 0 {
                            assert(s@[i as int + 1] == ']');
                            assert(false);
                        }
                    }
                }
                Some((lst, j1 + 1))
            } else {
                proof {
                    assert forall|b: Seq<u8>, j0: int|
                        i <= j0 <= s@.len() && s@.subrange(i as int, j0) == json_u8_array(
                            b,
                        ) implies false by {
                        lemma_array_span(s@, i as int, j0, b);
                        if b.len() == 0 {
                            assert(s@[i as int + 1] == ']');
                            assert(false);
                        }
                    }
                }
                None
            }
        },
        None => {
            proof {
                assert forall|b: Seq<u8>, j0: int|
                    i <= j0 <= s@.len() && s@.subrange(i as int, j0) == json_u8_array(
                        b,
                    ) implies false by {
                    lemma_array_span(s@, i as int, j0, b);
                    if b.len() == 0 {
                        assert(s@[i as int + 1] == ']');
                        assert(false);
                    }
                }
            }
            None
        },
    }
}

/// A character that needs no JSON escape.
pub open spec fn plain_char(c: char) -> bool {
    c != '"' && c != '\\' && c as u32 >= 32
}

/// Text of characters that need no JSON escape.
pub open spec fn all_plain(s: Seq<char>) -> bool {
    forall|k: int| 0 <= k < s.len() ==> plain_char(#[trigger] s[k])
}

/// Escaping changes nothing in text whose characters need no escape.
pub proof fn lemma_escape_plain(s: Seq<char>)
    requires
        all_plain(s),
    ensures
        json_escape(s) == s,
    decreases s.len(),
{
    if s.len() == 0 {
        assert(json_escape(s) =~= s);
    } else {
        assert(plain_char(s.last()));
        lemma_escape_plain(s.drop_last());
        assert(json_escape_char(s.last()) == seq![s.last()]);
        assert(json_escape(s) =~= s);
    }
}

/// How a quoted span of escape-free text decomposes: the quotes and the text.
proof fn lemma_quoted_span(s: Seq<char>, i: int, j0: int, t: Seq<char>)
    requires
        0 <= i <= j0 <= s.len(),
        all_plain(t),
        s.subrange(i, j0) == json_quoted(t),
    ensures
        j0 == i + 2 + t.len(),
        i < s.len(),
        s[i] == '"',
        s[j0 - 1] == '"',
        forall|k: int| 0 <= k < t.len() ==> s[i + 1 + k] == t[k],
{
    lemma_escape_plain(t);
    assert(j0 - i == json_quoted(t).len());
    assert(json_quoted(t).len() == 2 + t.len());
    assert(s[i] == s.subrange(i, j0)[0]);
    assert(s[j0 - 1] == s.subrange(i, j0)[j0 - i - 1]);
    assert forall|k: int| 0 <= k < t.len() implies s[i + 1 + k] == t[k] by {
        assert(s.subrange(i, j0)[1 + k] == json_quoted(t)[1 + k]);
    }
}

/// Reads a JSON string literal made of characters that need no escape.
pub fn parse_plain_string(s: &str, i: usize) -> (r: Option<(String, usize)>)
    ensures
        r matches Some(p) ==> i < p.1 <= s@.len() && all_plain(p.0@) && s@.subrange(
            i as int,
            p.1 as int,
        ) == json_quoted(p.0@),
        forall|t: Seq<char>, j0: int|
            all_plain(t) && i <= j0 <= s@.len() && s@.subrange(i as int, j0) == json_quoted(t)
                ==> (r matches Some(p) && p.0@ == t && p.1 == j0),
{
    let n = s.unicode_len();
    if !(i < n) {
        proof {
            assert forall|t: Seq<char>, j0: int|
                all_plain(t) && i <= j0 <= s@.len() && s@.subrange(i as int, j0) == json_quoted(
                    t,
                ) implies false by {
                lemma_quoted_span(s@, i as int, j0, t);
            }
        }
        return None;
    }
    if s.get_char(i) != '"' {
        proof {
            assert forall|t: Seq<char>, j0: int|
                all_plain(t) && i <= j0 <= s@.len() && s@.subrange(i as int, j0) == json_quoted(
                    t,
                ) implies false by {
                lemma_quoted_span(s@, i as int, j0, t);
            }
        }
        return None;
    }
    let mut out = String::new();
    let mut j: usize = i + 1;
    while j < n
        invariant
            i + 1 <= j <= n,
            n == s@.len(),
            i < n,
            s@[i as int] == '"',
            out@ =~= s@.subrange(i as int + 1, j as int),
            all_plain(out@),
            forall|k: int| i + 1 <= k < j ==> s@[k] != '"',
        decreases n - j,
    {
        let c = s.get_char(j);
        if c == '"' {
            proof {
                lemma_escape_plain(out@);
                assert(s@.subrange(i as int, j as int + 1) =~= json_quoted(out@));
                assert forall|t: Seq<char>, j0: int|
                    all_plain(t) && i <= j0 <= s@.len() && s@.subrange(i as int, j0) == json_quoted(
                        t,
                    ) implies t =~= out@ && j0 == j + 1 by {
                    lemma_quoted_span(s@, i as int, j0, t);
                    if j < i + 1 + t.len() {
                        assert(s@[j as int] == t[j - i - 1]);
                        assert(plain_char(t[j - i - 1]));
                        assert(false);
                    }
                    if j > i + 1 + t.len() {
                        assert(s@[i + 1 + t.len()] == '"');
                        assert(false);
                    }
                }
            }
            return Some((out, j + 1));
        }
        if c == '\\' || (c as u32) < 32 {
            proof {
                assert forall|t: Seq<char>, j0: int|
                    all_plain(t) && i <= j0 <= s@.len() && s@.subrange(i as int, j0) == json_quoted(
                        t,
                    ) implies false by {
                    lemma_quoted_span(s@, i as int, j0, t);
                    if j < i + 1 + t.len() {
                        assert(s@[j as int] == t[j - i - 1]);
                        assert(plain_char(t[j - i - 1]));
                    } else {
                        assert(j == i + 1 + t.len());
                        assert(s@[j as int] == '"');
                    }
                }
            }
            return None;
        }
        push_char(&mut out, c);
        proof {
            assert(out@ =~= s@.subrange(i as int + 1, j as int + 1));
        }
        j += 1;
    }
    proof {
        assert forall|t: Seq<char>, j0: int|
            all_plain(t) && i <= j0 <= s@.len() && s@.subrange(i as int, j0) == json_quoted(
                t,
            ) implies false by {
            lemma_quoted_span(s@, i as int, j0, t);
            assert(s@[i + 1 + t.len()] == '"');
        }
    }
    None
}

} // verus!
