use vstd::prelude::*;

use crate::strutil::{find_char_from, lemma_first_index_of_unique, lex_lt, split_on};
use vstd::arithmetic::power::pow;

verus! {

/// `c` is one of the decimal digits `'0'` through `'9'`.
pub open spec fn is_digit_char(c: char) -> bool {
    48 <= c as u32 <= 57
}

pub open spec fn all_digits(s: Seq<char>) -> bool {
    forall|i: int| 0 <= i < s.len() ==> is_digit_char(s[i])
}

/// Index of the first decimal digit in `s`, or `s.len()` if there is none.
pub open spec fn first_digit_index(s: Seq<char>) -> int
    decreases s.len(),
{
    if s.len() == 0 {
        0
    } else if is_digit_char(s[0]) {
        0
    } else {
        1 + first_digit_index(s.skip(1))
    }
}

proof fn lemma_first_digit_index(s: Seq<char>)
    ensures
        0 <= first_digit_index(s) <= s.len(),
        first_digit_index(s) < s.len() ==> is_digit_char(s[first_digit_index(s)]),
        forall|j: int| 0 <= j < first_digit_index(s) ==> !is_digit_char(s[j]),
    decreases s.len(),
{
    if s.len() == 0 {
    } else if is_digit_char(s[0]) {
    } else {
        lemma_first_digit_index(s.skip(1));
        assert forall|j: int| 0 <= j < first_digit_index(s) implies !is_digit_char(s[j]) by {
            if j > 0 {
                assert(s.skip(1)[j - 1] == s[j]);
            }
        }
    }
}

proof fn lemma_first_digit_index_unique(s: Seq<char>, i: int)
    requires
        0 <= i <= s.len(),
        i < s.len() ==> is_digit_char(s[i]),
        forall|j: int| 0 <= j < i ==> !is_digit_char(s[j]),
    ensures
        first_digit_index(s) == i,
{
    lemma_first_digit_index(s);
    let f = first_digit_index(s);
    if f < i {
        assert(!is_digit_char(s[f]));
    } else if i < f {
        assert(!is_digit_char(s[i]));
    }
}

/// The date token embedded in a version string: the first run of digits inside
/// the third dot-delimited segment must be at least eight characters long, and
/// the first eight of them, all digits, form the token. Anything else yields
/// `None`.
pub open spec fn date_of_version(s: Seq<char>) -> Option<Seq<char>> {
    let segs = split_on(s, '.');
    if segs.len() <= 2 {
        None
    } else {
        let seg = segs[2];
        let st = first_digit_index(seg);
        if st + 8 > seg.len() {
            None
        } else {
            let d = seg.subrange(st, st + 8);
            if all_digits(d) {
                Some(d)
            } else {
                None
            }
        }
    }
}

/// Exposes the piece of `split_on` that `extract_date` walks to: with the first
/// two separator positions and the following boundary known, the third piece is
/// the text between the second separator and that boundary.
proof fn lemma_third_segment(s: Seq<char>, sep: char, i1: int, i2: int, i3: int)
    requires
        0 <= i1 < s.len(),
        s[i1] == sep,
        forall|j: int| 0 <= j < i1 ==> s[j] != sep,
        i1 < i2 < s.len(),
        s[i2] == sep,
        forall|j: int| i1 < j < i2 ==> s[j] != sep,
        i2 < i3 <= s.len(),
        i3 < s.len() ==> s[i3] == sep,
        forall|j: int| i2 < j < i3 ==> s[j] != sep,
    ensures
        split_on(s, sep).len() >= 3,
        split_on(s, sep)[2] == s.subrange(i2 + 1, i3),
{
    lemma_first_index_of_unique(s, sep, i1);
    let s1 = s.skip(i1 + 1);
    assert forall|j: int| 0 <= j < i2 - (i1 + 1) implies s1[j] != sep by {
        assert(s1[j] == s[i1 + 1 + j]);
    }
    assert(s1[i2 - (i1 + 1)] == s[i2]);
    lemma_first_index_of_unique(s1, sep, i2 - (i1 + 1));
    assert(split_on(s, sep) == seq![s.take(i1)] + split_on(s1, sep));
    let s2 = s1.skip(i2 - (i1 + 1) + 1);
    assert(s2 =~= s.skip(i2 + 1));
    assert(split_on(s1, sep) == seq![s1.take(i2 - (i1 + 1))] + split_on(s2, sep));
    assert forall|j: int| 0 <= j < i3 - (i2 + 1) implies s2[j] != sep by {
        assert(s2[j] == s[i2 + 1 + j]);
    }
    if i3 < s.len() {
        assert(s2[i3 - (i2 + 1)] == s[i3]);
    }
    lemma_first_index_of_unique(s2, sep, i3 - (i2 + 1));
    if i3 - (i2 + 1) == s2.len() {
        assert(split_on(s2, sep)[0] == s2);
        assert(s2 =~= s.subrange(i2 + 1, i3));
    } else {
        assert(split_on(s2, sep)[0] == s2.take(i3 - (i2 + 1)));
        assert(s2.take(i3 - (i2 + 1)) =~= s.subrange(i2 + 1, i3));
    }
    assert(split_on(s, sep)[2] == split_on(s2, sep)[0]);
}

/// With no separator past position `i1` (itself the only separator, or absent),
/// the split has too few pieces to carry a third segment.
proof fn lemma_short_split(s: Seq<char>, sep: char, i1: int)
    requires
        0 <= i1 <= s.len(),
        i1 < s.len() ==> s[i1] == sep,
        forall|j: int| 0 <= j < i1 ==> s[j] != sep,
        forall|j: int| i1 < j < s.len() ==> s[j] != sep,
    ensures
        split_on(s, sep).len() <= 2,
{
    lemma_first_index_of_unique(s, sep, i1);
    if i1 == s.len() {
        assert(split_on(s, sep).len() == 1);
    } else {
        let s1 = s.skip(i1 + 1);
        assert forall|j: int| 0 <= j < s1.len() implies s1[j] != sep by {
            assert(s1[j] == s[i1 + 1 + j]);
        }
        lemma_first_index_of_unique(s1, sep, s1.len() as int);
        assert(split_on(s1, sep).len() == 1);
        assert(split_on(s, sep).len() == 2);
    }
}

fn is_ascii_digit_ch(c: char) -> (r: bool)
    ensures
        r == is_digit_char(c),
{
    let u = c as u32;
    48 <= u && u <= 57
}

/// Position of the first decimal digit in `[from, to)`, or `to` if none.
fn find_digit_from(s: &str, from: usize, to: usize) -> (r: usize)
    requires
        from <= to <= s@.len(),
    ensures
        from <= r <= to,
        r < to ==> is_digit_char(s@[r as int]),
        forall|j: int| from <= j < r ==> !is_digit_char(s@[j]),
{
    let mut i: usize = from;
    while i < to
        invariant
            from <= i <= to,
            to <= s@.len(),
            forall|j: int| from <= j < i ==> !is_digit_char(s@[j]),
        decreases to - i,
    {
        if is_ascii_digit_ch(s.get_char(i)) {
            return i;
        }
        i = i + 1;
    }
    i
}

/// Extracts the 8-digit date token from a toolchain version string, as
/// `date_of_version` describes, or reports that none is present.
pub fn extract_date(input: &str) -> (r: Option<String>)
    ensures
        match r {
            Some(d) => date_of_version(input@) == Some(d@),
            None => date_of_version(input@) is None,
        },
{
    let n = input.unicode_len();
    let i1 = find_char_from(input, 0, '.');
    if i1 == n {
        proof {
            lemma_short_split(input@, '.', i1 as int);
        }
        return None;
    }
    let i2 = find_char_from(input, i1 + 1, '.');
    if i2 == n {
        proof {
            lemma_short_split(input@, '.', i1 as int);
        }
        return None;
    }
    let i3 = find_char_from(input, i2 + 1, '.');
    proof {
        lemma_third_segment(input@, '.', i1 as int, i2 as int, i3 as int);
    }
    let ghost seg = input@.subrange(i2 + 1, i3 as int);
    // find the first digit inside the third segment
    let st = find_digit_from(input, i2 + 1, i3);
    proof {
        assert forall|j: int| 0 <= j < st - (i2 + 1) implies !is_digit_char(seg[j]) by {
            assert(seg[j] == input@[i2 + 1 + j]);
        }
        if st < i3 {
            assert(seg[st - (i2 + 1)] == input@[st as int]);
        }
        lemma_first_digit_index_unique(seg, st - (i2 + 1));
    }
    if i3 - st < 8 {
        // no digit, or fewer than eight characters from the first digit on
        return None;
    }
    let ghost d = seg.subrange(st - (i2 + 1), st - (i2 + 1) + 8);
    proof {
        assert(d =~= input@.subrange(st as int, st + 8));
    }
    // the eight characters starting at the first digit must all be digits
    let mut k: usize = st;
    while k < st + 8
        invariant
            st <= k <= st + 8,
            st + 8 <= i3 <= n,
            i2 + 1 <= st,
            n == input@.len(),
            seg == input@.subrange(i2 + 1, i3 as int),
            split_on(input@, '.').len() >= 3,
            split_on(input@, '.')[2] == seg,
            first_digit_index(seg) == st - (i2 + 1),
            d == seg.subrange(st - (i2 + 1), st - (i2 + 1) + 8),
            d == input@.subrange(st as int, st + 8),
            forall|j: int| st <= j < k ==> is_digit_char(input@[j]),
        decreases st + 8 - k,
    {
        if !is_ascii_digit_ch(input.get_char(k)) {
            proof {
                assert(d[k - st] == input@[k as int]);
                assert(!all_digits(d));
            }
            return None;
        }
        k = k + 1;
    }
    let tok = input.substring_char(st, st + 8);
    proof {
        assert(all_digits(d)) by {
            assert forall|j: int| 0 <= j < d.len() implies is_digit_char(d[j]) by {
                assert(d[j] == input@[st + j]);
            }
        }
        assert(tok@ == d);
    }
    Some(tok.to_owned())
}

/// Every extracted token is exactly eight digits.
pub proof fn lemma_date_token_shape(s: Seq<char>)
    requires
        date_of_version(s) is Some,
    ensures
        date_of_version(s)->Some_0.len() == 8,
        all_digits(date_of_version(s)->Some_0),
{
    let segs = split_on(s, '.');
    let seg = segs[2];
    let st = first_digit_index(seg);
    lemma_first_digit_index(seg);
    assert(date_of_version(s)->Some_0 == seg.subrange(st, st + 8));
}

/// Numeric value of a digit string, most significant digit first.
pub open spec fn date_value(s: Seq<char>) -> int
    decreases s.len(),
{
    if s.len() == 0 {
        0
    } else {
        (s[0] as u32 - 48) * pow(10, (s.len() - 1) as nat) + date_value(s.skip(1))
    }
}

proof fn lemma_date_value_bound(s: Seq<char>)
    requires
        all_digits(s),
    ensures
        0 <= date_value(s) < pow(10, s.len() as nat),
    decreases s.len(),
{
    reveal(vstd::arithmetic::power::pow);
    if s.len() == 0 {
        assert(pow(10, 0) == 1);
    } else {
        assert(all_digits(s.skip(1))) by {
            assert forall|j: int| 0 <= j < s.skip(1).len() implies is_digit_char(s.skip(1)[j]) by {
                assert(s.skip(1)[j] == s[j + 1]);
            }
        }
        lemma_date_value_bound(s.skip(1));
        let p = pow(10, (s.len() - 1) as nat);
        let d = s[0] as u32 - 48;
        assert(pow(10, s.len() as nat) == 10 * p);
        assert(p > 0) by {
            vstd::arithmetic::power::lemma_pow_positive(10, (s.len() - 1) as nat);
        }
        assert(d <= 9);
        assert(d * p <= 9 * p) by (nonlinear_arith)
            requires
                d <= 9,
                p > 0,
        ;
        assert(d * p >= 0) by (nonlinear_arith)
            requires
                d >= 0,
                p > 0,
        ;
    }
}

/// Lexicographic comparison of equal-length digit strings agrees with the
/// order of their numeric values; on `YYYYMMDD` date tokens, whose fields
/// stand most significant first, numeric order is chronological order, so
/// comparing the tokens as strings compares the dates they name.
pub proof fn lemma_lex_order_is_chronological(a: Seq<char>, b: Seq<char>)
    requires
        a.len() == b.len(),
        all_digits(a),
        all_digits(b),
    ensures
        lex_lt(a, b) <==> date_value(a) < date_value(b),
    decreases a.len(),
{
    reveal(vstd::arithmetic::power::pow);
    if a.len() == 0 {
    } else {
        let p = pow(10, (a.len() - 1) as nat);
        let da = a[0] as u32 - 48;
        let db = b[0] as u32 - 48;
        assert(all_digits(a.skip(1)) && all_digits(b.skip(1))) by {
            assert forall|j: int| 0 <= j < a.skip(1).len() implies is_digit_char(a.skip(1)[j])
                && is_digit_char(b.skip(1)[j]) by {
                assert(a.skip(1)[j] == a[j + 1]);
                assert(b.skip(1)[j] == b[j + 1]);
            }
        }
        lemma_date_value_bound(a.skip(1));
        lemma_date_value_bound(b.skip(1));
        assert(p > 0) by {
            vstd::arithmetic::power::lemma_pow_positive(10, (a.len() - 1) as nat);
        }
        if da < db {
            assert(da * p + p <= db * p) by (nonlinear_arith)
                requires
                    da < db,
                    p > 0,
            ;
            assert(date_value(a) < date_value(b));
        } else if da > db {
            assert(db * p + p <= da * p) by (nonlinear_arith)
                requires
                    db < da,
                    p > 0,
            ;
            assert(date_value(b) < date_value(a));
        } else {
            lemma_lex_order_is_chronological(a.skip(1), b.skip(1));
        }
    }
}

/// For any two version strings whose date tokens both extract, comparing the
/// tokens as strings compares the dates they name: lexical order on the
/// tokens agrees with chronological order.
pub proof fn lemma_extracted_dates_compare_chronologically(va: Seq<char>, vb: Seq<char>)
    requires
        date_of_version(va) is Some,
        date_of_version(vb) is Some,
    ensures
        lex_lt(date_of_version(va)->Some_0, date_of_version(vb)->Some_0) <==> date_value(
            date_of_version(va)->Some_0,
        ) < date_value(date_of_version(vb)->Some_0),
{
    lemma_date_token_shape(va);
    lemma_date_token_shape(vb);
    lemma_lex_order_is_chronological(date_of_version(va)->Some_0, date_of_version(vb)->Some_0);
}

} // verus!
