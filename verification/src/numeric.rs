//! Canonical decimal text for the integers that appear in the JSON payloads.

use vstd::prelude::*;
use crate::hex_codec::push_char;

verus! {

/// The decimal digit character for a value below ten.
pub open spec fn dec_char(d: int) -> char {
    if d == 0 {
        '0'
    } else if d == 1 {
        '1'
    } else if d == 2 {
        '2'
    } else if d == 3 {
        '3'
    } else if d == 4 {
        '4'
    } else if d == 5 {
        '5'
    } else if d == 6 {
        '6'
    } else if d == 7 {
        '7'
    } else if d == 8 {
        '8'
    } else {
        '9'
    }
}

/// The canonical decimal text of a natural number: no leading zeros.
pub open spec fn dec_of(n: nat) -> Seq<char>
    decreases n,
{
    if n < 10 {
        seq![dec_char(n as int)]
    } else {
        dec_of(n / 10) + seq![dec_char((n % 10) as int)]
    }
}

/// The canonical decimal text of an integer: a leading minus sign when negative.
pub open spec fn dec_of_int(n: int) -> Seq<char> {
    if n < 0 {
        seq!['-'] + dec_of((-n) as nat)
    } else {
        dec_of(n as nat)
    }
}

/// Appends one decimal digit character.
fn push_digit(s: &mut String, d: u64)
    requires
        d < 10,
    ensures
        final(s)@ == old(s)@ + seq![dec_char(d as int)],
{
    let c: char = if d == 0 {
        '0'
    } else if d == 1 {
        '1'
    } else if d == 2 {
        '2'
    } else if d == 3 {
        '3'
    } else if d == 4 {
        '4'
    } else if d == 5 {
        '5'
    } else if d == 6 {
        '6'
    } else if d == 7 {
        '7'
    } else if d == 8 {
        '8'
    } else {
        '9'
    };
    push_char(s, c);
}

/// Renders an unsigned value as canonical decimal text.
pub fn fmt_u64(n: u64) -> (s: String)
    ensures
        s@ == dec_of(n as nat),
    decreases n,
{
    if n < 10 {
        let mut s = String::new();
        push_digit(&mut s, n);
        proof {
            assert(s@ =~= dec_of(n as nat));
        }
        s
    } else {
        let mut s = fmt_u64(n / 10);
        push_digit(&mut s, n % 10);
        proof {
            assert(s@ =~= dec_of(n as nat));
        }
        s
    }
}

/// Renders a signed value as canonical decimal text.
pub fn fmt_i64(n: i64) -> (s: String)
    ensures
        s@ == dec_of_int(n as int),
{
    if n >= 0 {
        fmt_u64(n as u64)
    } else {
        let m: u64 = (-(n as i128)) as u64;
        let mut s = String::from_str("-");
        let digits = fmt_u64(m);
        s.append(digits.as_str());
        proof {
            reveal_strlit("-");
            assert(s@ =~= dec_of_int(n as int));
        }
        s
    }
}

/// Renders a machine-sized value as canonical decimal text.
pub fn fmt_usize(n: usize) -> (s: String)
    ensures
        s@ == dec_of(n as nat),
{
    fmt_u64(n as u64)
}

/// A decimal digit character.
pub open spec fn is_dec_digit(c: char) -> bool {
    48 <= c as u32 && c as u32 <= 57
}

/// The numeric value of a decimal digit character.
pub open spec fn dec_val(c: char) -> nat {
    (c as u32 - 48) as nat
}

/// Every character of the sequence is a decimal digit.
pub open spec fn all_dec_digits(s: Seq<char>) -> bool {
    forall|k: int| 0 <= k < s.len() ==> is_dec_digit(#[trigger] s[k])
}

/// The value of a digit sequence read as a decimal number.
pub open spec fn val10(s: Seq<char>) -> nat
    decreases s.len(),
{
    if s.len() == 0 {
        0
    } else {
        (val10(s.drop_last()) * 10 + dec_val(s.last())) as nat
    }
}

/// Canonical decimal text: nonempty digits, no leading zero.
pub open spec fn canonical_dec(s: Seq<char>) -> bool {
    s.len() >= 1 && all_dec_digits(s) && (s[0] == '0' ==> s.len() == 1)
}

/// A digit character is exactly the rendering of its value.
proof fn lemma_digit_char_id(c: char)
    requires
        is_dec_digit(c),
    ensures
        dec_val(c) <= 9,
        dec_char(dec_val(c) as int) == c,
        c == '0' <==> dec_val(c) == 0,
{
    let u = c as u32;
    if u == 48 {
        assert(c == '0');
    } else if u == 49 {
        assert(c == '1');
    } else if u == 50 {
        assert(c == '2');
    } else if u == 51 {
        assert(c == '3');
    } else if u == 52 {
        assert(c == '4');
    } else if u == 53 {
        assert(c == '5');
    } else if u == 54 {
        assert(c == '6');
    } else if u == 55 {
        assert(c == '7');
    } else if u == 56 {
        assert(c == '8');
    } else {
        assert(u == 57);
        assert(c == '9');
    }
}

/// The canonical text of a number is canonical: nonempty digits, a leading
/// zero exactly for zero itself.
pub proof fn lemma_dec_of_shape(n: nat)
    ensures
        canonical_dec(dec_of(n)),
        dec_of(n)[0] == '0' <==> n == 0,
    decreases n,
{
    if n >= 10 {
        lemma_dec_of_shape(n / 10);
        assert(dec_of(n) == dec_of(n / 10) + seq![dec_char((n % 10) as int)]);
        assert(dec_of(n)[0] == dec_of(n / 10)[0]);
    }
}

/// Reading the canonical text of a number back gives the number.
pub proof fn lemma_val10_of_dec(n: nat)
    ensures
        val10(dec_of(n)) == n,
    decreases n,
{
    if n < 10 {
        assert(val10(Seq::<char>::empty()) == 0);
        assert(dec_of(n).drop_last() =~= Seq::<char>::empty());
        assert(dec_of(n).last() == dec_char(n as int));
        assert(dec_val(dec_char(n as int)) == n);
    } else {
        lemma_val10_of_dec(n / 10);
        assert(dec_of(n).drop_last() =~= dec_of(n / 10));
        assert(dec_of(n).last() == dec_char((n % 10) as int));
        assert(dec_val(dec_char((n % 10) as int)) == n % 10);
    }
}

/// A nonempty digit sequence with a nonzero leading digit has a positive value.
proof fn lemma_val10_pos(s: Seq<char>)
    requires
        s.len() >= 1,
        all_dec_digits(s),
        s[0] != '0',
    ensures
        val10(s) >= 1,
    decreases s.len(),
{
    if s.len() == 1 {
        assert(val10(Seq::<char>::empty()) == 0);
        assert(s.drop_last() =~= Seq::<char>::empty());
        assert(s.last() == s[0]);
        assert(is_dec_digit(s[0]));
        lemma_digit_char_id(s[0]);
        assert(dec_val(s[0]) >= 1);
    } else {
        assert(is_dec_digit(s.drop_last()[0]));
        lemma_val10_pos(s.drop_last());
    }
}

/// Rendering the value of canonical decimal text gives the text back.
pub proof fn lemma_dec_of_val10(s: Seq<char>)
    requires
        canonical_dec(s),
    ensures
        dec_of(val10(s)) == s,
    decreases s.len(),
{
    if s.len() == 1 {
        assert(val10(Seq::<char>::empty()) == 0);
        assert(s.drop_last() =~= Seq::<char>::empty());
        assert(val10(s) == dec_val(s[0]));
        assert(is_dec_digit(s[0]));
        lemma_digit_char_id(s[0]);
        assert(dec_of(val10(s)) =~= s);
    } else {
        let s1 = s.drop_last();
        let d = dec_val(s.last());
        assert(s1[0] == s[0]);
        lemma_dec_of_val10(s1);
        lemma_val10_pos(s1);
        let v = val10(s);
        assert(v == val10(s1) * 10 + d);
        assert(v / 10 == val10(s1) && v % 10 == d) by (nonlinear_arith)
            requires
                v == val10(s1) * 10 + d,
                0 <= d < 10,
                val10(s1) >= 0,
        ;
        assert(v >= 10) by (nonlinear_arith)
            requires
                v == val10(s1) * 10 + d,
                val10(s1) >= 1,
                d >= 0,
        ;
        assert(is_dec_digit(s.last()));
        lemma_digit_char_id(s.last());
        assert(dec_of(v) == dec_of(v / 10) + seq![dec_char((v % 10) as int)]);
        assert(dec_of(v) =~= s);
    }
}

/// The clamped decimal value a bounded scan accumulates: the value itself
/// while it fits an unsigned doubleword, one past the maximum once it does not.
pub open spec fn clamp_u64(v: nat) -> nat {
    if v > u64::MAX {
        u64::MAX as nat + 1
    } else {
        v
    }
}

/// Reads canonical decimal text at position `i`: the maximal digit span,
/// rejected when empty, when it has a leading zero before further digits, or
/// when its value does not fit.
pub fn parse_u64(s: &str, i: usize) -> (r: Option<(u64, usize)>)
    ensures
        r matches Some(p) ==> i < p.1 <= s@.len() && s@.subrange(i as int, p.1 as int) == dec_of(
            p.0 as nat,
        ) && (p.1 == s@.len() || !is_dec_digit(s@[p.1 as int])),
        forall|v: u64, j0: int|
            i <= j0 <= s@.len() && s@.subrange(i as int, j0) == dec_of(v as nat) && (j0 == s@.len()
                || !is_dec_digit(s@[j0])) ==> r == Some((v, j0 as usize)),
{
    let n = s.unicode_len();
    if i >= n {
        proof {
            assert forall|v: u64, j0: int|
                i <= j0 <= s@.len() && s@.subrange(i as int, j0) == dec_of(v as nat) && (j0
                    == s@.len() || !is_dec_digit(s@[j0])) implies false by {
                lemma_dec_of_shape(v as nat);
            }
        }
        return None;
    }
    let mut j: usize = i;
    let mut acc: u128 = 0;
    while j < n
        invariant
            i <= j <= n,
            n == s@.len(),
            forall|k: int| i <= k < j ==> is_dec_digit(#[trigger] s@[k]),
            acc == clamp_u64(val10(s@.subrange(i as int, j as int))),
        ensures
            i <= j <= n,
            n == s@.len(),
            forall|k: int| i <= k < j ==> is_dec_digit(#[trigger] s@[k]),
            acc == clamp_u64(val10(s@.subrange(i as int, j as int))),
            j == n || !is_dec_digit(s@[j as int]),
        decreases n - j,
    {
        let c = s.get_char(j);
        if (c as u32) < 48 || (c as u32) > 57 {
            break ;
        }
        let d: u128 = ((c as u32) - 48) as u128;
        proof {
            assert(s@.subrange(i as int, j as int + 1).drop_last() =~= s@.subrange(
                i as int,
                j as int,
            ));
            assert(s@.subrange(i as int, j as int + 1).last() == s@[j as int]);
            let oldv = val10(s@.subrange(i as int, j as int));
            let newv = val10(s@.subrange(i as int, j as int + 1));
            assert(newv == oldv * 10 + dec_val(s@[j as int]));
            if oldv > u64::MAX {
                assert(newv >= oldv) by (nonlinear_arith)
                    requires
                        newv == oldv * 10 + dec_val(s@[j as int]),
                        oldv >= 0,
                        dec_val(s@[j as int]) >= 0,
                ;
            }
        }
        acc = acc * 10 + d;
        if acc > u64::MAX as u128 {
            acc = u64::MAX as u128 + 1;
        }
        j += 1;
    }
    let ghost span = s@.subrange(i as int, j as int);
    if j == i {
        proof {
            assert forall|v: u64, j0: int|
                i <= j0 <= s@.len() && s@.subrange(i as int, j0) == dec_of(v as nat) && (j0
                    == s@.len() || !is_dec_digit(s@[j0])) implies false by {
                lemma_dec_of_shape(v as nat);
                assert(s@[i as int] == dec_of(v as nat)[0]);
            }
        }
        return None;
    }
    let c0 = s.get_char(i);
    if c0 == '0' && j > i + 1 {
        proof {
            assert forall|v: u64, j0: int|
                i <= j0 <= s@.len() && s@.subrange(i as int, j0) == dec_of(v as nat) && (j0
                    == s@.len() || !is_dec_digit(s@[j0])) implies false by {
                lemma_dec_of_shape(v as nat);
                assert(s@[i as int] == dec_of(v as nat)[0]);
                assert(v == 0);
                assert(j0 == i + 1);
                assert(is_dec_digit(s@[j0]));
            }
        }
        return None;
    }
    proof {
        assert(canonical_dec(span));
        lemma_dec_of_val10(span);
        assert forall|v: u64, j0: int|
            i <= j0 <= s@.len() && s@.subrange(i as int, j0) == dec_of(v as nat) && (j0 == s@.len()
                || !is_dec_digit(s@[j0])) implies j0 == j && val10(span) == v by {
            lemma_dec_of_shape(v as nat);
            if j0 < j {
                assert(is_dec_digit(s@[j0]));
                assert(false);
            }
            if j0 > j {
                assert(dec_of(v as nat)[j - i] == s@[j as int]);
                assert(is_dec_digit(s@[j as int]));
                assert(false);
            }
            lemma_val10_of_dec(v as nat);
        }
    }
    if acc > u64::MAX as u128 {
        return None;
    }
    let v = acc as u64;
    Some((v, j))
}

/// Reads canonical signed decimal text at position `i`: an optional minus
/// sign for a strictly negative value, then canonical digits.
pub fn parse_i64(s: &str, i: usize) -> (r: Option<(i64, usize)>)
    ensures
        r matches Some(p) ==> i < p.1 <= s@.len() && s@.subrange(i as int, p.1 as int)
            == dec_of_int(p.0 as int) && (p.1 == s@.len() || !is_dec_digit(s@[p.1 as int])),
        forall|v: i64, j0: int|
            i <= j0 <= s@.len() && s@.subrange(i as int, j0) == dec_of_int(v as int) && (j0
                == s@.len() || !is_dec_digit(s@[j0])) ==> r == Some((v, j0 as usize)),
{
    let n = s.unicode_len();
    proof {
        reveal_strlit("-");
    }
    if i < n && s.get_char(i) == '-' {
        let rsub = parse_u64(s, i + 1);
        proof {
            assert forall|w: i64, j0: int|
                i <= j0 <= s@.len() && s@.subrange(i as int, j0) == dec_of_int(w as int) && (j0
                    == s@.len() || !is_dec_digit(s@[j0])) implies rsub == Some(
                (((-(w as int)) as u64), j0 as usize),
            ) && 1 <= -(w as int) <= 9223372036854775808 by {
                lemma_parse_i64_neg_span(s@, i as int, j0, w);
                let mw: u64 = (-(w as int)) as u64;
                assert(s@.subrange(i as int + 1, j0) == dec_of(mw as nat));
            }
        }
        match rsub {
            Some((m, j)) => {
                if m == 0 || m > 9223372036854775808u64 {
                    return None;
                }
                let v: i64 = (-(m as i128)) as i64;
                proof {
                    assert(s@.subrange(i as int, j as int) =~= seq!['-'] + s@.subrange(
                        i as int + 1,
                        j as int,
                    ));
                    assert(s@.subrange(i as int, j as int) == dec_of_int(v as int));
                }
                Some((v, j))
            },
            None => None,
        }
    } else {
        let rsub = parse_u64(s, i);
        proof {
            assert forall|w: i64, j0: int|
                i <= j0 <= s@.len() && s@.subrange(i as int, j0) == dec_of_int(w as int) && (j0
                    == s@.len() || !is_dec_digit(s@[j0])) implies rsub == Some(
                ((w as u64), j0 as usize),
            ) && w >= 0 by {
                lemma_parse_i64_nonneg_span(s@, i as int, j0, w);
                assert(s@.subrange(i as int, j0) == dec_of((w as u64) as nat));
            }
        }
        match rsub {
            Some((m, j)) => {
                if m > i64::MAX as u64 {
                    return None;
                }
                Some((m as i64, j))
            },
            None => None,
        }
    }
}

/// A span of signed canonical text whose first character is a minus sign
/// denotes a negative value and splits into the sign and the magnitude text.
proof fn lemma_parse_i64_neg_span(s: Seq<char>, i: int, j0: int, v: i64)
    requires
        0 <= i,
        i <= j0 <= s.len(),
        s.subrange(i, j0) == dec_of_int(v as int),
        i < s.len(),
        s[i] == '-',
    ensures
        v < 0,
        1 <= -(v as int) <= 9223372036854775808,
        i + 1 <= j0,
        s.subrange(i + 1, j0) == dec_of((-(v as int)) as nat),
{
    if v >= 0 {
        lemma_dec_of_shape(v as nat);
        assert(s.subrange(i, j0).len() >= 1);
        assert(s[i] == s.subrange(i, j0)[0]);
        assert(s[i] == dec_of(v as nat)[0]);
        assert(is_dec_digit(s[i]));
        assert(!is_dec_digit('-'));
        assert(false);
    }
    lemma_dec_of_shape((-(v as int)) as nat);
    let mag = dec_of((-(v as int)) as nat);
    assert(s.subrange(i, j0) == seq!['-'] + mag);
    assert(s.subrange(i, j0).len() == 1 + mag.len());
    assert(mag.len() >= 1);
    assert(s.subrange(i + 1, j0) =~= mag) by {
        assert forall|k: int| 0 <= k < mag.len() implies s.subrange(i + 1, j0)[k] == mag[k] by {
            assert(s.subrange(i + 1, j0)[k] == s[i + 1 + k]);
            assert(s.subrange(i, j0)[k + 1] == s[i + 1 + k]);
            assert((seq!['-'] + mag)[k + 1] == mag[k]);
        }
    }
}

/// A span of signed canonical text whose first character is not a minus sign
/// denotes a non-negative value.
proof fn lemma_parse_i64_nonneg_span(s: Seq<char>, i: int, j0: int, v: i64)
    requires
        0 <= i,
        i <= j0 <= s.len(),
        s.subrange(i, j0) == dec_of_int(v as int),
        i >= s.len() || s[i] != '-',
    ensures
        v >= 0,
        s.subrange(i, j0) == dec_of(v as nat),
        i < s.len(),
{
    if v < 0 {
        lemma_dec_of_shape((-(v as int)) as nat);
        assert(s.subrange(i, j0).len() >= 2);
        assert(i < s.len());
        assert(s[i] == s.subrange(i, j0)[0]);
        assert(s[i] == (seq!['-'] + dec_of((-(v as int)) as nat))[0]);
        assert(s[i] == '-');
        assert(false);
    }
    lemma_dec_of_shape(v as nat);
    assert(s.subrange(i, j0).len() >= 1);
    assert(i < s.len());
}

/// Reads canonical decimal text that must fit a machine-sized value.
pub fn parse_usize(s: &str, i: usize) -> (r: Option<(usize, usize)>)
    ensures
        r matches Some(p) ==> i < p.1 <= s@.len() && s@.subrange(i as int, p.1 as int) == dec_of(
            p.0 as nat,
        ) && (p.1 == s@.len() || !is_dec_digit(s@[p.1 as int])),
        forall|v: usize, j0: int|
            i <= j0 <= s@.len() && s@.subrange(i as int, j0) == dec_of(v as nat) && (j0 == s@.len()
                || !is_dec_digit(s@[j0])) ==> r == Some((v, j0 as usize)),
{
    match parse_u64(s, i) {
        Some((m, j)) => {
            if m > usize::MAX as u64 {
                return None;
            }
            Some((m as usize, j))
        },
        None => None,
    }
}

} // verus!
