//! Small verified string utilities: equality, prefix test, whitespace,
//! trimming, and splitting on a two-character separator.

use vstd::prelude::*;

verus! {

/// The Unicode `White_Space` characters, the set that `str::trim` and
/// `char::is_whitespace` go by.
pub open spec fn is_white_char(c: char) -> bool {
    c == ' ' || c == '\t' || c == '\n' || c == '\r' || c == '\u{0b}' || c == '\u{0c}'
        || c == '\u{85}' || c == '\u{a0}' || c == '\u{1680}'
        || ('\u{2000}' <= c && c <= '\u{200a}')
        || c == '\u{2028}' || c == '\u{2029}' || c == '\u{202f}' || c == '\u{205f}'
        || c == '\u{3000}'
}

pub fn char_is_white(c: char) -> (r: bool)
    ensures
        r == is_white_char(c),
{
    c == ' ' || c == '\t' || c == '\n' || c == '\r' || c == '\u{0b}' || c == '\u{0c}'
        || c == '\u{85}' || c == '\u{a0}' || c == '\u{1680}'
        || ('\u{2000}' <= c && c <= '\u{200a}')
        || c == '\u{2028}' || c == '\u{2029}' || c == '\u{202f}' || c == '\u{205f}'
        || c == '\u{3000}'
}

/// A sequence consisting of whitespace alone (true of the empty sequence).
pub open spec fn is_blank(s: Seq<char>) -> bool {
    forall|i: int| 0 <= i < s.len() ==> is_white_char(#[trigger] s[i])
}

/// Whether every character of `s` is whitespace.
pub fn str_is_blank(s: &str) -> (r: bool)
    ensures
        r == is_blank(s@),
{
    let n = s.unicode_len();
    let mut i: usize = 0;
    while i < n
        invariant
            0 <= i <= n,
            n == s@.len(),
            forall|j: int| 0 <= j < i ==> is_white_char(#[trigger] s@[j]),
        decreases n - i,
    {
        if !char_is_white(s.get_char(i)) {
            return false;
        }
        i = i + 1;
    }
    true
}

/// Character-for-character string equality.
pub fn str_eq(a: &str, b: &str) -> (r: bool)
    ensures
        r == (a@ == b@),
{
    let na = a.unicode_len();
    let nb = b.unicode_len();
    if na != nb {
        proof {
            assert(a@ != b@);
        }
        return false;
    }
    let mut i: usize = 0;
    while i < na
        invariant
            0 <= i <= na,
            na == a@.len(),
            na == b@.len(),
            forall|j: int| 0 <= j < i ==> a@[j] == b@[j],
        decreases na - i,
    {
        if a.get_char(i) != b.get_char(i) {
            return false;
        }
        i = i + 1;
    }
    proof {
        assert(a@ =~= b@);
    }
    true
}

/// Whether `p@` is a prefix of `s@`.
pub fn str_starts_with(s: &str, p: &str) -> (r: bool)
    ensures
        r == p@.is_prefix_of(s@),
{
    let np = p.unicode_len();
    let ns = s.unicode_len();
    if np > ns {
        return false;
    }
    let mut i: usize = 0;
    while i < np
        invariant
            0 <= i <= np,
            np == p@.len(),
            ns == s@.len(),
            np <= ns,
            forall|j: int| 0 <= j < i ==> s@[j] == p@[j],
        decreases np - i,
    {
        if s.get_char(i) != p.get_char(i) {
            return false;
        }
        i = i + 1;
    }
    proof {
        assert(s@.subrange(0, np as int) =~= p@);
    }
    true
}

pub open spec fn spec_trim_start(s: Seq<char>) -> Seq<char>
    decreases s.len(),
{
    if s.len() > 0 && is_white_char(s[0]) {
        spec_trim_start(s.drop_first())
    } else {
        s
    }
}

pub open spec fn spec_trim_end(s: Seq<char>) -> Seq<char>
    decreases s.len(),
{
    if s.len() > 0 && is_white_char(s.last()) {
        spec_trim_end(s.drop_last())
    } else {
        s
    }
}

/// What `str::trim` leaves: `s` without leading and trailing whitespace.
pub open spec fn spec_trim(s: Seq<char>) -> Seq<char> {
    spec_trim_end(spec_trim_start(s))
}

proof fn lemma_trim_start_at(s: Seq<char>, i: int)
    requires
        0 <= i <= s.len(),
        forall|j: int| 0 <= j < i ==> is_white_char(#[trigger] s[j]),
        i < s.len() ==> !is_white_char(s[i]),
    ensures
        spec_trim_start(s) == s.subrange(i, s.len() as int),
    decreases i,
{
    if i == 0 {
        if s.len() > 0 && is_white_char(s[0]) {
            assert(false);
        }
        assert(s.subrange(0, s.len() as int) =~= s);
    } else {
        assert(is_white_char(s[0]));
        lemma_trim_start_at(s.drop_first(), i - 1);
        assert(s.drop_first().subrange(i - 1, s.drop_first().len() as int) =~= s.subrange(
            i,
            s.len() as int,
        ));
    }
}

proof fn lemma_trim_end_at(s: Seq<char>, i: int)
    requires
        0 <= i <= s.len(),
        forall|j: int| i <= j < s.len() ==> is_white_char(#[trigger] s[j]),
        i > 0 ==> !is_white_char(s[i - 1]),
    ensures
        spec_trim_end(s) == s.subrange(0, i),
    decreases s.len() - i,
{
    if i == s.len() {
        if s.len() > 0 && is_white_char(s.last()) {
            assert(false);
        }
        assert(s.subrange(0, s.len() as int) =~= s);
    } else {
        assert(is_white_char(s.last()));
        lemma_trim_end_at(s.drop_last(), i);
        assert(s.drop_last().subrange(0, i) =~= s.subrange(0, i));
    }
}

/// `s` without leading and trailing whitespace.
pub fn str_trim(s: &str) -> (r: &str)
    ensures
        r@ == spec_trim(s@),
{
    let n = s.unicode_len();
    let mut lo: usize = 0;
    while lo < n && char_is_white(s.get_char(lo))
        invariant
            0 <= lo <= n,
            n == s@.len(),
            forall|j: int| 0 <= j < lo ==> is_white_char(#[trigger] s@[j]),
        decreases n - lo,
    {
        lo = lo + 1;
    }
    let mut hi: usize = n;
    while hi > lo && char_is_white(s.get_char(hi - 1))
        invariant
            lo <= hi <= n,
            n == s@.len(),
            forall|j: int| 0 <= j < lo ==> is_white_char(#[trigger] s@[j]),
            lo < n ==> !is_white_char(s@[lo as int]),
            forall|j: int| hi <= j < n ==> is_white_char(#[trigger] s@[j]),
        decreases hi,
    {
        hi = hi - 1;
    }
    proof {
        lemma_trim_start_at(s@, lo as int);
        let t = s@.subrange(lo as int, n as int);
        if hi == lo {
            lemma_trim_end_at(t, 0);
        } else {
            lemma_trim_end_at(t, hi - lo);
        }
        assert(t.subrange(0, hi - lo) =~= s@.subrange(lo as int, hi as int));
    }
    s.substring_char(lo, hi)
}

/// The position of the first occurrence of the two-character separator
/// `c0 c1` in `s`, or -1 when there is none.
pub open spec fn first2(s: Seq<char>, c0: char, c1: char) -> int
    decreases s.len(),
{
    if s.len() < 2 {
        -1
    } else if s[0] == c0 && s[1] == c1 {
        0
    } else {
        let r = first2(s.drop_first(), c0, c1);
        if r < 0 {
            -1
        } else {
            r + 1
        }
    }
}

pub proof fn lemma_first2_props(s: Seq<char>, c0: char, c1: char)
    ensures
        first2(s, c0, c1) == -1 || (0 <= first2(s, c0, c1) && first2(s, c0, c1) + 2 <= s.len()),
        first2(s, c0, c1) >= 0 ==> s[first2(s, c0, c1)] == c0 && s[first2(s, c0, c1) + 1] == c1,
        forall|k: int|
            0 <= k < first2(s, c0, c1) ==> !((#[trigger] s[k]) == c0 && s[k + 1] == c1),
        first2(s, c0, c1) == -1 ==> forall|k: int|
            0 <= k && k + 1 < s.len() ==> !((#[trigger] s[k]) == c0 && s[k + 1] == c1),
    decreases s.len(),
{
    if s.len() < 2 {
    } else if s[0] == c0 && s[1] == c1 {
    } else {
        lemma_first2_props(s.drop_first(), c0, c1);
        let f = first2(s, c0, c1);
        assert forall|k: int| 0 <= k < f implies !((#[trigger] s[k]) == c0 && s[k + 1] == c1) by {
            if k > 0 {
                assert(s.drop_first()[k - 1] == s[k]);
                assert(s.drop_first()[k] == s[k + 1]);
            }
        }
        if f == -1 {
            assert forall|k: int| 0 <= k && k + 1 < s.len() implies !((#[trigger] s[k]) == c0
                && s[k + 1] == c1) by {
                if k > 0 {
                    assert(s.drop_first()[k - 1] == s[k]);
                    assert(s.drop_first()[k] == s[k + 1]);
                }
            }
        }
    }
}

/// The pieces of `s` between the non-overlapping occurrences of `c0 c1`,
/// scanned left to right; a single piece when the separator is absent.
pub open spec fn spec_split2(s: Seq<char>, c0: char, c1: char) -> Seq<Seq<char>>
    decreases s.len(),
{
    let i = first2(s, c0, c1);
    if 0 <= i && i + 2 <= s.len() {
        seq![s.subrange(0, i)] + spec_split2(s.subrange(i + 2, s.len() as int), c0, c1)
    } else {
        seq![s]
    }
}

pub proof fn lemma_split2_len(s: Seq<char>, c0: char, c1: char)
    ensures
        spec_split2(s, c0, c1).len() >= 1,
        first2(s, c0, c1) == -1 ==> spec_split2(s, c0, c1) == seq![s],
        first2(s, c0, c1) >= 0 ==> spec_split2(s, c0, c1).len() >= 2,
    decreases s.len(),
{
    lemma_first2_props(s, c0, c1);
    let i = first2(s, c0, c1);
    if 0 <= i && i + 2 <= s.len() {
        lemma_split2_len(s.subrange(i + 2, s.len() as int), c0, c1);
    }
}

/// The position of the first occurrence of `c0 c1` at or after `from`.
fn find2_from(s: &str, c0: char, c1: char, from: usize) -> (r: Option<usize>)
    requires
        from <= s@.len(),
    ensures
        match r {
            Some(i) => from <= i && i + 2 <= s@.len() && s@[i as int] == c0 && s@[i as int + 1]
                == c1 && forall|k: int|
                from <= k < i ==> !((#[trigger] s@[k]) == c0 && s@[k + 1] == c1),
            None => forall|k: int|
                from <= k && k + 1 < s@.len() ==> !((#[trigger] s@[k]) == c0 && s@[k + 1] == c1),
        },
{
    let n = s.unicode_len();
    let mut i: usize = from;
    while i < n && i + 1 < n
        invariant
            from <= i,
            i <= n,
            n == s@.len(),
            forall|k: int| from <= k < i ==> !((#[trigger] s@[k]) == c0 && s@[k + 1] == c1),
        decreases n - i,
    {
        if s.get_char(i) == c0 && s.get_char(i + 1) == c1 {
            return Some(i);
        }
        i = i + 1;
    }
    None
}

proof fn lemma_first2_shift(s: Seq<char>, c0: char, c1: char, i: int)
    requires
        0 <= i,
        i + 2 <= s.len(),
        s[i] == c0 && s[i + 1] == c1,
        forall|k: int| 0 <= k < i ==> !((#[trigger] s[k]) == c0 && s[k + 1] == c1),
    ensures
        first2(s, c0, c1) == i,
    decreases i,
{
    if i == 0 {
    } else {
        lemma_first2_shift(s.drop_first(), c0, c1, i - 1);
    }
}

proof fn lemma_first2_none(s: Seq<char>, c0: char, c1: char)
    requires
        forall|k: int| 0 <= k && k + 1 < s.len() ==> !((#[trigger] s[k]) == c0 && s[k + 1] == c1),
    ensures
        first2(s, c0, c1) == -1,
    decreases s.len(),
{
    if s.len() < 2 {
    } else {
        lemma_first2_none(s.drop_first(), c0, c1);
    }
}

/// Whether `s` contains the two-character separator `c0 c1`.
pub fn contains2(s: &str, c0: char, c1: char) -> (r: bool)
    ensures
        r == (first2(s@, c0, c1) >= 0),
{
    match find2_from(s, c0, c1, 0) {
        Some(i) => {
            proof {
                lemma_first2_shift(s@, c0, c1, i as int);
            }
            true
        },
        None => {
            proof {
                lemma_first2_none(s@, c0, c1);
            }
            false
        },
    }
}

/// Splits `s` on the two-character separator `c0 c1`, as `str::split` would.
pub fn split2(s: &str, c0: char, c1: char) -> (parts: Vec<String>)
    ensures
        parts@.map_values(|p: String| p@) == spec_split2(s@, c0, c1),
        parts@.len() >= 1,
    decreases s@.len(),
{
    let n = s.unicode_len();
    match find2_from(s, c0, c1, 0) {
        Some(i) => {
            proof {
                lemma_first2_shift(s@, c0, c1, i as int);
            }
            let piece = s.substring_char(0, i);
            let rest = s.substring_char(i + 2, n);
            let tail = split2(rest, c0, c1);
            let mut parts: Vec<String> = Vec::new();
            parts.push(piece.to_owned());
            let mut k: usize = 0;
            let ghost tail0 = tail@;
            while k < tail.len()
                invariant
                    0 <= k <= tail.len(),
                    tail@ == tail0,
                    parts@.len() == k + 1,
                    parts@[0]@ == s@.subrange(0, i as int),
                    forall|j: int| 0 <= j < k ==> parts@[j + 1]@ == tail0[j]@,
                decreases tail.len() - k,
            {
                let item = tail[k].clone();
                parts.push(item);
                k = k + 1;
            }
            proof {
                assert(parts@.map_values(|p: String| p@) =~= spec_split2(s@, c0, c1));
            }
            parts
        },
        None => {
            proof {
                lemma_first2_none(s@, c0, c1);
            }
            let mut parts: Vec<String> = Vec::new();
            parts.push(s.to_owned());
            proof {
                assert(parts@.map_values(|p: String| p@) =~= seq![s@]);
            }
            parts
        },
    }
}

} // verus!
