//! UTF-16 text, as Windows takes and gives it.

use vstd::prelude::*;
use widestring::{U16CString, U16Str};

use crate::text::decimal;

verus! {

broadcast use vstd::seq::group_seq_axioms;

/// The UTF-16 code units of a character.
pub open spec fn encode_char(c: char) -> Seq<u16> {
    let v = c as int;
    if v < 0x10000 {
        seq![v as u16]
    } else {
        seq![(0xD800 + (v - 0x10000) / 0x400) as u16, (0xDC00 + (v - 0x10000) % 0x400) as u16]
    }
}

/// The UTF-16 code units of a text.
pub open spec fn encode(s: Seq<char>) -> Seq<u16>
    decreases s.len(),
{
    if s.len() == 0 {
        seq![]
    } else {
        encode_char(s[0]) + encode(s.skip(1))
    }
}

/// The unit is the first half of a pair.
pub open spec fn is_high(u: u16) -> bool {
    0xD800 <= u < 0xDC00
}

/// The unit is the second half of a pair.
pub open spec fn is_low(u: u16) -> bool {
    0xDC00 <= u < 0xE000
}

/// The text of UTF-16 code units, with U+FFFD for each half without its other
/// half.
pub open spec fn decode(u: Seq<u16>) -> Seq<char>
    decreases u.len(),
{
    if u.len() == 0 {
        seq![]
    } else if is_high(u[0]) && u.len() > 1 && is_low(u[1]) {
        seq![(0x10000 + (u[0] - 0xD800) * 0x400 + (u[1] - 0xDC00)) as char] + decode(u.skip(2))
    } else if is_high(u[0]) || is_low(u[0]) {
        seq!['\u{FFFD}'] + decode(u.skip(1))
    } else {
        seq![u[0] as char] + decode(u.skip(1))
    }
}

/// The number of units before the first nul.
pub open spec fn first_nul(u: Seq<u16>) -> int
    decreases u.len(),
{
    if u.len() == 0 || u[0] == 0 {
        0
    } else {
        1 + first_nul(u.skip(1))
    }
}

/// A nul stands before the last unit, so the units are no C string.
pub open spec fn has_inner_nul(u: Seq<u16>) -> bool {
    first_nul(u) < u.len() - 1
}

/// The units with a nul at their end.
pub open spec fn terminated(u: Seq<u16>) -> Seq<u16> {
    if u.len() > 0 && u.last() == 0 {
        u
    } else {
        u.push(0)
    }
}

/// The message on a nul before the last unit.
pub open spec fn nul_text(u: Seq<u16>) -> Seq<char> {
    "invalid nul value found at position "@ + decimal(first_nul(u) as nat)
}

/// `widestring::U16CString::from_str`, with the string taken apart by
/// `into_vec_with_nul` and the error by its `Display`: the UTF-16 code units
/// of the text with a nul at their end, or a message that gives the place of
/// the first nul if one stands before the last unit.
#[verifier::external_body]
pub(crate) fn wide_c_string(s: &str) -> (r: Result<Vec<u16>, String>)
    ensures
        match r {
            Ok(w) => !has_inner_nul(encode(s@)) && w@ == terminated(encode(s@)),
            Err(m) => has_inner_nul(encode(s@)) && m@ == nul_text(encode(s@)),
        },
{
    match U16CString::from_str(s) {
        Ok(w) => Ok(w.into_vec_with_nul()),
        Err(e) => Err(e.to_string()),
    }
}

/// `widestring::U16Str::to_string_lossy`: the text of the UTF-16 code units,
/// with U+FFFD for each half of a pair that stands alone.
#[verifier::external_body]
pub(crate) fn lossy_text(units: &[u16]) -> (s: String)
    ensures
        s@ == decode(units@),
{
    U16Str::from_slice(units).to_string_lossy()
}

/// The index of the first nul, or the number of units if there is none.
pub fn nul_index(u: &[u16]) -> (n: usize)
    ensures
        n == first_nul(u@),
        n <= u@.len(),
{
    let mut n: usize = 0;
    assert(u@.skip(0) =~= u@);
    while n < u.len() && u[n] != 0
        invariant
            n <= u@.len(),
            first_nul(u@) == n + first_nul(u@.skip(n as int)),
        decreases u@.len() - n,
    {
        assert(u@.skip(n as int).skip(1) =~= u@.skip(n + 1));
        n = n + 1;
    }
    n
}

proof fn lemma_encode_char(c: char)
    ensures
        1 <= encode_char(c).len() <= 2,
        encode_char(c).len() == 1 ==> !is_high(encode_char(c)[0]) && !is_low(encode_char(c)[0])
            && encode_char(c)[0] as char == c,
        encode_char(c).len() == 2 ==> is_high(encode_char(c)[0]) && is_low(encode_char(c)[1]) && (
        0x10000 + (encode_char(c)[0] - 0xD800) * 0x400 + (encode_char(c)[1] - 0xDC00)) as char == c,
        forall|i: int|
            0 <= i < encode_char(c).len() && (#[trigger] encode_char(c)[i]) == 0 ==> c == '\0',
{
    let v = c as int;
    if v >= 0x10000 {
        let d = v - 0x10000;
        assert(0 <= d / 0x400 < 0x400 && d == d / 0x400 * 0x400 + d % 0x400) by (nonlinear_arith)
            requires
                0 <= d < 0x100000,
        ;
        assert((0xD800 + d / 0x400) as u16 == 0xD800 + d / 0x400);
        assert((0xDC00 + d % 0x400) as u16 == 0xDC00 + d % 0x400);
    }
}

/// Decoding gives back what was encoded.
pub proof fn law_decode_of_encode(s: Seq<char>)
    ensures
        decode(encode(s)) == s,
    decreases s.len(),
{
    if s.len() > 0 {
        let h = encode_char(s[0]);
        let t = encode(s.skip(1));
        let u = encode(s);
        lemma_encode_char(s[0]);
        law_decode_of_encode(s.skip(1));
        assert(u == h + t);
        assert(u[0] == h[0]);
        assert(u.skip(h.len() as int) =~= t);
        if h.len() == 2 {
            assert(u[1] == h[1]);
        }
        assert(decode(u) =~= seq![s[0]] + s.skip(1));
        assert(seq![s[0]] + s.skip(1) =~= s);
    }
}

pub proof fn lemma_first_nul(u: Seq<u16>, v: Seq<u16>)
    requires
        forall|i: int| 0 <= i < u.len() ==> #[trigger] u[i] != 0,
    ensures
        first_nul(u + v) == u.len() + first_nul(v),
    decreases u.len(),
{
    if u.len() == 0 {
        assert(u + v =~= v);
    } else {
        assert((u + v).skip(1) =~= u.skip(1) + v);
        assert((u + v)[0] == u[0]);
        lemma_first_nul(u.skip(1), v);
    }
}

pub proof fn lemma_encode_without_nul(s: Seq<char>)
    requires
        !s.contains('\0'),
    ensures
        forall|i: int| 0 <= i < encode(s).len() ==> #[trigger] encode(s)[i] != 0,
    decreases s.len(),
{
    if s.len() > 0 {
        let h = encode_char(s[0]);
        let t = encode(s.skip(1));
        assert(s.contains(s[0]));
        assert forall|c: char| s.skip(1).contains(c) implies s.contains(c) by {
            let i = choose|i: int| 0 <= i < s.skip(1).len() && s.skip(1)[i] == c;
            assert(s[i + 1] == c);
        }
        lemma_encode_char(s[0]);
        lemma_encode_without_nul(s.skip(1));
        assert forall|i: int| 0 <= i < encode(s).len() implies #[trigger] encode(s)[i] != 0 by {
            if i < h.len() {
                assert(encode(s)[i] == h[i]);
            } else {
                assert(encode(s)[i] == t[i - h.len()]);
            }
        }
    }
}

/// A text without nul has a C string, and what stands in that before its
/// first nul is the text.
pub proof fn law_c_string_holds_text(s: Seq<char>)
    requires
        !s.contains('\0'),
    ensures
        !has_inner_nul(encode(s)),
        decode(terminated(encode(s)).take(first_nul(terminated(encode(s))))) == s,
{
    let u = encode(s);
    lemma_encode_without_nul(s);
    law_decode_of_encode(s);
    lemma_first_nul(u, seq![]);
    assert(u + Seq::<u16>::empty() =~= u);
    lemma_first_nul(u, seq![0u16]);
    assert(u + seq![0u16] =~= u.push(0));
    assert(u.push(0).take(u.len() as int) =~= u);
    assert(first_nul(seq![0u16]) == 0);
}

} // verus!
