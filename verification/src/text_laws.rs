//! What the texts say: numbers can be read back, and trimming and replacing
//! touch what they should and nothing else.

use vstd::prelude::*;

use crate::error::ErrorView;
use crate::text::{ascii_upper, decimal, digit_char, from_first, hex4, is_separator, lemma_from_first, occurs_at, occurs_in, first_at, replaced, trimmed, trimmed_end, trimmed_start};

verus! {

broadcast use vstd::seq::group_seq_axioms;

/// The number that decimal digits stand for.
pub open spec fn read_decimal(s: Seq<char>) -> int
    decreases s.len(),
{
    if s.len() == 0 {
        0
    } else {
        10 * read_decimal(s.drop_last()) + (s.last() as int - '0' as int)
    }
}

/// A number in decimal can be read back. It has nothing but digits, and does
/// not start with zero unless it is zero.
pub proof fn law_decimal_can_be_read(n: nat)
    ensures
        read_decimal(decimal(n)) == n,
        decimal(n).len() > 0,
        forall|i: int| 0 <= i < decimal(n).len() ==> '0' <= #[trigger] decimal(n)[i] <= '9',
        decimal(n)[0] == '0' ==> n == 0 && decimal(n).len() == 1,
    decreases n,
{
    let s = decimal(n);
    reveal_with_fuel(read_decimal, 2);
    if n < 10 {
        assert(s.drop_last() =~= seq![]);
        assert(s[0] == digit_char(n as int));
    } else {
        let init = decimal(n / 10);
        law_decimal_can_be_read(n / 10);
        assert(s.drop_last() =~= init);
        assert(s[0] == init[0]);
        assert(s.last() == digit_char((n % 10) as int));
        assert forall|i: int| 0 <= i < s.len() implies '0' <= #[trigger] s[i] <= '9' by {
            if i < init.len() {
                assert(s[i] == init[i]);
            }
        }
    }
}

/// Two numbers with the same decimal digits are the same.
pub proof fn law_decimal_tells_numbers_apart(a: nat, b: nat)
    requires
        decimal(a) == decimal(b),
    ensures
        a == b,
{
    law_decimal_can_be_read(a);
    law_decimal_can_be_read(b);
}

/// The value of a lower case hexadecimal digit.
pub open spec fn hex_value(c: char) -> int {
    if c <= '9' {
        c as int - '0' as int
    } else {
        c as int - 'a' as int + 10
    }
}

/// Four hexadecimal digits can be read back.
pub proof fn law_hex_can_be_read(v: u16)
    ensures
        hex4(v).len() == 4,
        hex_value(hex4(v)[0]) * 0x1000 + hex_value(hex4(v)[1]) * 0x100 + hex_value(hex4(v)[2])
            * 0x10 + hex_value(hex4(v)[3]) == v,
        forall|i: int|
            0 <= i < 4 ==> '0' <= #[trigger] hex4(v)[i] <= '9' || 'a' <= hex4(v)[i] <= 'f',
{
    let s = hex4(v);
    assert forall|d: int| 0 <= d < 16 implies hex_value(#[trigger] digit_char(d)) == d && ('0'
        <= digit_char(d) <= '9' || 'a' <= digit_char(d) <= 'f') by {
        if d < 10 {
            assert(digit_char(d) as int == 48 + d);
        } else {
            assert(digit_char(d) as int == 87 + d);
        }
    }
    assert(s[0] == digit_char(v as int / 4096));
    assert(s[1] == digit_char(v as int / 256 % 16));
    assert(s[2] == digit_char(v as int / 16 % 16));
    assert(s[3] == digit_char(v as int % 16));
}

/// Replacing works on each part of a text for itself.
pub proof fn law_replacing_goes_part_by_part(
    a: Seq<char>,
    b: Seq<char>,
    c: char,
    with: Seq<char>,
)
    ensures
        replaced(a + b, c, with) == replaced(a, c, with) + replaced(b, c, with),
    decreases b.len(),
{
    if b.len() == 0 {
        assert(a + b =~= a);
        assert(replaced(a, c, with) + b =~= replaced(a, c, with));
    } else {
        assert((a + b).drop_last() =~= a + b.drop_last());
        assert((a + b).last() == b.last());
        law_replacing_goes_part_by_part(a, b.drop_last(), c, with);
        assert(replaced(a + b, c, with) =~= replaced(a, c, with) + replaced(b, c, with));
    }
}

/// The character that is replaced becomes the replacement, and every other
/// stays.
pub proof fn law_one_character_is_replaced(x: char, c: char, with: Seq<char>)
    ensures
        x == c ==> replaced(seq![x], c, with) == with,
        x != c ==> replaced(seq![x], c, with) == seq![x],
{
    let s = seq![x];
    assert(s.drop_last() =~= Seq::<char>::empty());
    assert(s.last() == x);
    assert(replaced(s.drop_last(), c, with) =~= Seq::<char>::empty());
    if x == c {
        assert(replaced(s, c, with) =~= with);
    } else {
        assert(replaced(s, c, with) =~= s);
    }
}

/// A text in which one character takes the place of another has the same
/// length, and differs where that character stood.
pub proof fn law_replacing_by_one_character(s: Seq<char>, c: char, with: Seq<char>)
    requires
        with.len() == 1,
    ensures
        replaced(s, c, with).len() == s.len(),
        forall|i: int|
            0 <= i < s.len() ==> #[trigger] replaced(s, c, with)[i] == if s[i] == c {
                with[0]
            } else {
                s[i]
            },
    decreases s.len(),
{
    if s.len() > 0 {
        law_replacing_by_one_character(s.drop_last(), c, with);
        let init = replaced(s.drop_last(), c, with);
        let r = replaced(s, c, with);
        assert forall|i: int| 0 <= i < s.len() implies #[trigger] r[i] == if s[i] == c {
            with[0]
        } else {
            s[i]
        } by {
            if i < init.len() {
                assert(r[i] == init[i]);
            }
        }
    }
}

/// The character is a backslash, or a slash where those count.
pub open spec fn is_slash(c: char, slash: bool) -> bool {
    c == '\\' || (c == '/' && slash)
}

/// Nothing but backslashes, and slashes where those count.
pub open spec fn all_slashes(s: Seq<char>, slash: bool) -> bool {
    forall|i: int| 0 <= i < s.len() ==> is_slash(#[trigger] s[i], slash)
}

/// Trimming the end takes away all separators there, and nothing else.
pub proof fn law_end_is_trimmed(s: Seq<char>, slash: bool) -> (tail: Seq<char>)
    ensures
        s == trimmed_end(s, slash) + tail,
        all_slashes(tail, slash),
        trimmed_end(s, slash).len() > 0 ==> !is_slash(trimmed_end(s, slash).last(), slash),
    decreases s.len(),
{
    if s.len() > 0 && is_separator(s.last(), slash) {
        let t = law_end_is_trimmed(s.drop_last(), slash);
        assert(trimmed_end(s, slash) == trimmed_end(s.drop_last(), slash));
        assert(s =~= s.drop_last().push(s.last()));
        assert(s =~= trimmed_end(s, slash) + t.push(s.last()));
        t.push(s.last())
    } else {
        assert(s =~= trimmed_end(s, slash) + Seq::<char>::empty());
        seq![]
    }
}

/// Trimming the start takes away all separators there, and nothing else.
pub proof fn law_start_is_trimmed(s: Seq<char>, slash: bool) -> (head: Seq<char>)
    ensures
        s == head + trimmed_start(s, slash),
        all_slashes(head, slash),
        trimmed_start(s, slash).len() > 0 ==> !is_slash(trimmed_start(s, slash)[0], slash),
    decreases s.len(),
{
    if s.len() > 0 && is_separator(s.first(), slash) {
        let h = law_start_is_trimmed(s.drop_first(), slash);
        assert(trimmed_start(s, slash) == trimmed_start(s.drop_first(), slash));
        assert(s =~= seq![s.first()] + s.drop_first());
        assert(s =~= seq![s.first()] + h + trimmed_start(s, slash));
        seq![s.first()] + h
    } else {
        assert(s =~= Seq::<char>::empty() + trimmed_start(s, slash));
        seq![]
    }
}

/// Trimming takes away all separators at both ends, and nothing else.
pub proof fn law_both_ends_are_trimmed(s: Seq<char>, slash: bool) -> (r: (Seq<char>, Seq<char>))
    ensures
        s == r.0 + trimmed(s, slash) + r.1,
        all_slashes(r.0, slash),
        all_slashes(r.1, slash),
        trimmed(s, slash).len() > 0 ==> !is_slash(trimmed(s, slash)[0], slash) && !is_slash(
            trimmed(s, slash).last(),
            slash,
        ),
{
    let head = law_start_is_trimmed(s, slash);
    let tail = law_end_is_trimmed(trimmed_start(s, slash), slash);
    assert(s =~= head + trimmed(s, slash) + tail);
    if trimmed(s, slash).len() > 0 {
        assert(trimmed_start(s, slash)[0] == trimmed(s, slash)[0]);
    }
    (head, tail)
}

/// What is cut off before the first place of `p` holds no place of `p`, and
/// what is left starts with it; a text without `p` is left whole.
pub proof fn law_cut_starts_at_first_place(s: Seq<char>, p: Seq<char>) -> (cut: Seq<char>)
    requires
        p.len() > 0,
    ensures
        s == cut + from_first(s, p),
        cut.len() > 0 ==> p.is_prefix_of(from_first(s, p)),
        !p.is_prefix_of(from_first(s, p)) ==> from_first(s, p) == s && forall|i: int|
            0 <= i && i + p.len() <= s.len() ==> #[trigger] s.subrange(i, i + p.len()) != p,
        forall|i: int|
            0 <= i < cut.len() && i + p.len() <= s.len() ==> #[trigger] s.subrange(
                i,
                i + p.len(),
            ) != p,
{
    if occurs_in(s, p) {
        let k = choose|k: int| #[trigger] occurs_at(s, p, k);
        let i = lemma_first_place(s, p, k);
        lemma_from_first(s, p, i);
        let cut = s.take(i);
        assert(s =~= cut + s.skip(i));
        assert(s.skip(i).take(p.len() as int) =~= s.subrange(i, i + p.len()));
        assert(p.is_prefix_of(s.skip(i)));
        assert forall|j: int| 0 <= j < cut.len() && j + p.len() <= s.len() implies
            #[trigger] s.subrange(j, j + p.len()) != p by {
            assert(!occurs_at(s, p, j));
        }
        cut
    } else {
        assert(s =~= Seq::<char>::empty() + s);
        assert forall|j: int| 0 <= j && j + p.len() <= s.len() implies #[trigger] s.subrange(
            j,
            j + p.len(),
        ) != p by {
            assert(!occurs_at(s, p, j));
        }
        if p.is_prefix_of(s) {
            assert(s.subrange(0, p.len() as int) =~= p);
            assert(occurs_at(s, p, 0));
        }
        seq![]
    }
}

proof fn lemma_first_place(s: Seq<char>, p: Seq<char>, k: int) -> (i: int)
    requires
        occurs_at(s, p, k),
    ensures
        first_at(s, p, i),
    decreases k,
{
    if forall|j: int| 0 <= j < k ==> !occurs_at(s, p, j) {
        k
    } else {
        let j = choose|j: int| 0 <= j < k && occurs_at(s, p, j);
        lemma_first_place(s, p, j)
    }
}

/// The upper case of an ASCII letter is the letter with the same place in the
/// other alphabet; every other character is its own.
pub proof fn law_upper_case_of_letters(k: int, c: char)
    ensures
        0 <= k < 26 ==> ascii_upper(('a' as int + k) as char) == ('A' as int + k) as char,
        !('a' <= c <= 'z') ==> ascii_upper(c) == c,
{
}

/// The message of an error says what kind it is of, and holds its cause.
pub proof fn law_error_names_its_kind(cause: Seq<char>)
    ensures
        ErrorView::Io(cause).text() == "I/O error: "@ + cause,
        ErrorView::Vss(cause).text() == "VSS error: "@ + cause,
        ErrorView::Ssh(cause).text() == "SSH error: "@ + cause,
        ErrorView::Other(cause).text() == cause,
{
}

} // verus!
