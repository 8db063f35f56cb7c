//! Text: numbers in decimal and hexadecimal, and searching, trimming and
//! replacing in strings, all over the sequence of characters of a string.

use vstd::prelude::*;

verus! {

broadcast use vstd::seq::group_seq_axioms;

/// `String::push` appends the character it is given to the end of the string.
pub assume_specification[ String::push ](s: &mut String, c: char)
    ensures
        final(s)@ == old(s)@.push(c),
;

/// The character of a decimal or lower case hexadecimal digit.
pub open spec fn digit_char(d: int) -> char {
    if d < 10 {
        (48 + d) as char
    } else {
        (87 + d) as char
    }
}

/// The decimal digits of `n`, without leading zeros.
pub open spec fn decimal(n: nat) -> Seq<char>
    decreases n,
{
    if n < 10 {
        seq![digit_char(n as int)]
    } else {
        decimal(n / 10).push(digit_char((n % 10) as int))
    }
}

/// The four hexadecimal digits of a 16-bit value.
pub open spec fn hex4(v: u16) -> Seq<char> {
    seq![
        digit_char(v as int / 4096),
        digit_char(v as int / 256 % 16),
        digit_char(v as int / 16 % 16),
        digit_char(v as int % 16),
    ]
}

/// The character of a digit.
pub fn digit(d: u8) -> (c: char)
    requires
        d < 16,
    ensures
        c == digit_char(d as int),
{
    if d < 10 {
        (48 + d) as char
    } else {
        (87 + d) as char
    }
}

/// Appends the decimal digits of `n`.
pub fn push_decimal(s: &mut String, n: u64)
    ensures
        final(s)@ == old(s)@ + decimal(n as nat),
    decreases n,
{
    if n >= 10 {
        push_decimal(s, n / 10);
    }
    s.push(digit((n % 10) as u8));
}

/// Appends the four hexadecimal digits of `v`.
pub fn push_hex4(s: &mut String, v: u16)
    ensures
        final(s)@ == old(s)@ + hex4(v),
{
    s.push(digit((v / 4096) as u8));
    s.push(digit((v / 256 % 16) as u8));
    s.push(digit((v / 16 % 16) as u8));
    s.push(digit((v % 16) as u8));
}

/// The characters of a string.
pub fn chars_of(s: &str) -> (v: Vec<char>)
    ensures
        v@ == s@,
{
    let mut v: Vec<char> = Vec::new();
    for c in it: s.chars()
        invariant
            it.seq() == s@,
            v@ == s@.take(it.index() as int),
    {
        v.push(c);
    }
    v
}

/// The string that consists of the given characters.
pub fn string_of(v: &[char]) -> (s: String)
    ensures
        s@ == v@,
{
    let mut s = String::new();
    for i in 0..v.len()
        invariant
            s@ == v@.take(i as int),
    {
        s.push(v[i]);
    }
    s
}

/// `p` stands in `s` from position `i` on.
pub open spec fn occurs_at(s: Seq<char>, p: Seq<char>, i: int) -> bool {
    0 <= i && i + p.len() <= s.len() && s.subrange(i, i + p.len()) == p
}

/// `p` stands somewhere in `s`.
pub open spec fn occurs_in(s: Seq<char>, p: Seq<char>) -> bool {
    exists|i: int| #[trigger] occurs_at(s, p, i)
}

/// `i` is the first position at which `p` stands in `s`.
pub open spec fn first_at(s: Seq<char>, p: Seq<char>, i: int) -> bool {
    occurs_at(s, p, i) && forall|j: int| 0 <= j < i ==> !occurs_at(s, p, j)
}

/// Whether `p` stands in `s` at position `i`.
fn stands_at(s: &[char], p: &[char], i: usize) -> (b: bool)
    requires
        i <= s@.len(),
    ensures
        b == occurs_at(s@, p@, i as int),
{
    let len: usize = s.len();
    if p.len() > len - i {
        return false;
    }
    for k in 0..p.len()
        invariant
            len == s@.len(),
            i + p@.len() <= s@.len(),
            forall|j: int| 0 <= j < k ==> s@[i + j] == p@[j],
    {
        if s[i + k] != p[k] {
            proof {
                assert(s@.subrange(i as int, i + p@.len())[k as int] == s@[i + k]);
            }
            return false;
        }
    }
    proof {
        assert(s@.subrange(i as int, i + p@.len()) =~= p@);
    }
    true
}

/// The first position of `p` in `s`.
pub fn find(s: &[char], p: &[char]) -> (r: Option<usize>)
    ensures
        match r {
            Some(i) => first_at(s@, p@, i as int),
            None => !occurs_in(s@, p@),
        },
{
    let mut i: usize = 0;
    while i < s.len()
        invariant
            i <= s@.len(),
            forall|j: int| 0 <= j < i ==> !occurs_at(s@, p@, j),
        decreases s@.len() - i,
    {
        if stands_at(s, p, i) {
            return Some(i);
        }
        i = i + 1;
    }
    if stands_at(s, p, i) {
        return Some(i);
    }
    None
}

/// Whether `p` stands somewhere in `s`.
pub fn contains(s: &str, p: &str) -> (b: bool)
    ensures
        b == occurs_in(s@, p@),
{
    let r = find(chars_of(s).as_slice(), chars_of(p).as_slice());
    match r {
        Some(i) => {
            proof {
                assert(occurs_at(s@, p@, i as int));
            }
            true
        },
        None => false,
    }
}

/// Whether `s` begins with `p`.
pub fn starts_with(s: &str, p: &str) -> (b: bool)
    ensures
        b == p@.is_prefix_of(s@),
{
    let sv = chars_of(s);
    let pv = chars_of(p);
    let b = stands_at(sv.as_slice(), pv.as_slice(), 0);
    proof {
        if b {
            assert(s@.subrange(0, p@.len() as int) =~= p@);
        } else if p@.is_prefix_of(s@) {
            assert(s@.subrange(0, p@.len() as int) =~= p@);
        }
    }
    b
}

/// `s` with `with` in place of every `c`.
pub open spec fn replaced(s: Seq<char>, c: char, with: Seq<char>) -> Seq<char>
    decreases s.len(),
{
    if s.len() == 0 {
        s
    } else if s.last() == c {
        replaced(s.drop_last(), c, with) + with
    } else {
        replaced(s.drop_last(), c, with).push(s.last())
    }
}

/// Replaces every `c` in `s`.
pub fn replace_char(s: &str, c: char, with: &str) -> (r: String)
    ensures
        r@ == replaced(s@, c, with@),
{
    let v = chars_of(s);
    let mut r = String::new();
    for i in 0..v.len()
        invariant
            v@ == s@,
            r@ == replaced(s@.take(i as int), c, with@),
    {
        proof {
            assert(s@.take(i + 1).drop_last() =~= s@.take(i as int));
        }
        if v[i] == c {
            r.append(with);
        } else {
            r.push(v[i]);
        }
    }
    proof {
        assert(s@.take(s@.len() as int) =~= s@);
    }
    r
}

/// The characters that are trimmed: the backslash, and the slash where
/// `slash` holds.
pub open spec fn is_separator(c: char, slash: bool) -> bool {
    c == '\\' || (slash && c == '/')
}

/// `s` without the separators at its end.
pub open spec fn trimmed_end(s: Seq<char>, slash: bool) -> Seq<char>
    decreases s.len(),
{
    if s.len() > 0 && is_separator(s.last(), slash) {
        trimmed_end(s.drop_last(), slash)
    } else {
        s
    }
}

/// `s` without the separators at its start.
pub open spec fn trimmed_start(s: Seq<char>, slash: bool) -> Seq<char>
    decreases s.len(),
{
    if s.len() > 0 && is_separator(s.first(), slash) {
        trimmed_start(s.drop_first(), slash)
    } else {
        s
    }
}

/// `s` without the separators at either end.
pub open spec fn trimmed(s: Seq<char>, slash: bool) -> Seq<char> {
    trimmed_end(trimmed_start(s, slash), slash)
}

/// The part of `v` that is left once the separators at its end are gone.
pub fn trim_end<'a>(v: &'a [char], slash: bool) -> (r: &'a [char])
    ensures
        r@ == trimmed_end(v@, slash),
{
    let mut n: usize = v.len();
    proof {
        assert(v@.take(n as int) =~= v@);
    }
    while n > 0 && (v[n - 1] == '\\' || (slash && v[n - 1] == '/'))
        invariant
            n <= v@.len(),
            trimmed_end(v@, slash) == trimmed_end(v@.take(n as int), slash),
        decreases n,
    {
        proof {
            assert(v@.take(n as int).drop_last() =~= v@.take(n - 1));
        }
        n = n - 1;
    }
    vstd::slice::slice_subrange(v, 0, n)
}

/// The part of `v` that is left once the separators at its start are gone.
pub fn trim_start<'a>(v: &'a [char], slash: bool) -> (r: &'a [char])
    ensures
        r@ == trimmed_start(v@, slash),
{
    let mut n: usize = 0;
    proof {
        assert(v@.skip(0) =~= v@);
    }
    while n < v.len() && (v[n] == '\\' || (slash && v[n] == '/'))
        invariant
            n <= v@.len(),
            trimmed_start(v@, slash) == trimmed_start(v@.skip(n as int), slash),
        decreases v@.len() - n,
    {
        proof {
            assert(v@.skip(n as int).drop_first() =~= v@.skip(n + 1));
        }
        n = n + 1;
    }
    vstd::slice::slice_subrange(v, n, v.len())
}

/// The part of `v` that is left once the separators at either end are gone.
pub fn trim<'a>(v: &'a [char], slash: bool) -> (r: &'a [char])
    ensures
        r@ == trimmed(v@, slash),
{
    trim_end(trim_start(v, slash), slash)
}

/// Whether two texts are the same.
pub fn same(a: &str, b: &str) -> (r: bool)
    ensures
        r == (a@ == b@),
{
    let r = starts_with(a, b) && starts_with(b, a);
    proof {
        if r {
            assert(a@ =~= b@);
        }
    }
    r
}

/// The text holds ASCII characters only.
pub open spec fn is_ascii_text(s: Seq<char>) -> bool {
    forall|i: int| 0 <= i < s.len() ==> (#[trigger] s[i] as int) < 128
}

/// The upper case of an ASCII character.
pub open spec fn ascii_upper(c: char) -> char {
    if 'a' <= c <= 'z' {
        (c as int - 32) as char
    } else {
        c
    }
}

/// The upper case of a text with other than ASCII characters in it.
pub uninterp spec fn unicode_uppercase(s: Seq<char>) -> Seq<char>;

/// `str::to_uppercase`: on ASCII text the letters `a` to `z` become `A` to
/// `Z` and all else stays; on other text it is a function of the text.
pub assume_specification[ str::to_uppercase ](s: &str) -> (r: String)
    ensures
        is_ascii_text(s@) ==> r@ == s@.map_values(|c: char| ascii_upper(c)),
        !is_ascii_text(s@) ==> r@ == unicode_uppercase(s@),
;

/// The upper case of a text.
pub open spec fn upper(s: Seq<char>) -> Seq<char> {
    if is_ascii_text(s) {
        s.map_values(|c: char| ascii_upper(c))
    } else {
        unicode_uppercase(s)
    }
}

/// `s` from the first place at which `p` stands in it; all of `s` if there is
/// none.
pub open spec fn from_first(s: Seq<char>, p: Seq<char>) -> Seq<char> {
    if occurs_in(s, p) {
        s.skip(choose|i: int| first_at(s, p, i))
    } else {
        s
    }
}

/// There is one first place.
pub proof fn lemma_from_first(s: Seq<char>, p: Seq<char>, i: int)
    requires
        first_at(s, p, i),
    ensures
        from_first(s, p) == s.skip(i),
{
    let j = choose|j: int| first_at(s, p, j);
    assert(occurs_at(s, p, i));
    assert(first_at(s, p, j));
    if j < i {
        assert(!occurs_at(s, p, j));
    } else if i < j {
        assert(!occurs_at(s, p, i));
    }
}

} // verus!
