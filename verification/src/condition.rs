//! The condition language: small boolean expressions such as
//! `integration == 'cmake' && minimal == false`, split on `&&` and `||` and
//! evaluated against the rendering context. A clause in no recognized form
//! counts as false, so a malformed condition never lets a file through.

use vstd::prelude::*;

use crate::context::{flag_of, text_of, ContextValue, RenderContext};
use crate::strutil::{
    char_is_white, first2, is_white_char, lemma_first2_props, lemma_split2_len, spec_split2,
    split2, str_eq,
};

verus! {

/// The characters an identifier may consist of.
pub open spec fn is_word_char(c: char) -> bool {
    ('a' <= c && c <= 'z') || ('A' <= c && c <= 'Z') || ('0' <= c && c <= '9') || c == '_'
}

fn char_is_word(c: char) -> (r: bool)
    ensures
        r == is_word_char(c),
{
    ('a' <= c && c <= 'z') || ('A' <= c && c <= 'Z') || ('0' <= c && c <= '9') || c == '_'
}

/// The first position at or after `i` whose character is not whitespace.
pub open spec fn skip_ws(s: Seq<char>, i: int) -> int
    decreases s.len() - i,
{
    if 0 <= i && i < s.len() && is_white_char(s[i]) {
        skip_ws(s, i + 1)
    } else {
        i
    }
}

/// The first position at or after `i` whose character is not a word character.
pub open spec fn skip_word(s: Seq<char>, i: int) -> int
    decreases s.len() - i,
{
    if 0 <= i && i < s.len() && is_word_char(s[i]) {
        skip_word(s, i + 1)
    } else {
        i
    }
}

/// The first position at or after `i` holding `c`, or -1.
pub open spec fn find_char(s: Seq<char>, c: char, i: int) -> int
    decreases s.len() - i,
{
    if 0 <= i && i < s.len() {
        if s[i] == c {
            i
        } else {
            find_char(s, c, i + 1)
        }
    } else {
        -1
    }
}

pub open spec fn true_word() -> Seq<char> {
    seq!['t', 'r', 'u', 'e']
}

pub open spec fn false_word() -> Seq<char> {
    seq!['f', 'a', 'l', 's', 'e']
}

/// An atomic clause in one of the two recognized forms, or `Unknown`.
pub enum SpecAtom {
    EqText(Seq<char>, Seq<char>),
    EqFlag(Seq<char>, bool),
    Unknown,
}

/// An atomic clause as parsed at run time.
pub enum CondAtom {
    EqText(String, String),
    EqFlag(String, bool),
    Unknown,
}

impl View for CondAtom {
    type V = SpecAtom;

    open spec fn view(&self) -> SpecAtom {
        match self {
            CondAtom::EqText(name, lit) => SpecAtom::EqText(name@, lit@),
            CondAtom::EqFlag(name, b) => SpecAtom::EqFlag(name@, *b),
            CondAtom::Unknown => SpecAtom::Unknown,
        }
    }
}

/// The atomic-clause grammar: optional whitespace, an identifier, `==`, and
/// either a nonempty single-quoted literal or `true`/`false`, to the end of
/// the clause. Anything else is `Unknown`.
pub open spec fn spec_parse_atom(s: Seq<char>) -> SpecAtom {
    let n = s.len() as int;
    let i0 = skip_ws(s, 0);
    let i1 = skip_word(s, i0);
    if i1 == i0 {
        SpecAtom::Unknown
    } else {
        let name = s.subrange(i0, i1);
        let i2 = skip_ws(s, i1);
        if i2 + 2 > n || !(s[i2] == '=' && s[i2 + 1] == '=') {
            SpecAtom::Unknown
        } else {
            let i3 = skip_ws(s, i2 + 2);
            if i3 < n && s[i3] == '\'' {
                let q = find_char(s, '\'', i3 + 1);
                if q > i3 + 1 {
                    let lit = s.subrange(i3 + 1, q);
                    if skip_ws(s, q + 1) == n {
                        SpecAtom::EqText(name, lit)
                    } else {
                        SpecAtom::Unknown
                    }
                } else {
                    SpecAtom::Unknown
                }
            } else {
                let i4 = skip_word(s, i3);
                let word = s.subrange(i3, i4);
                if skip_ws(s, i4) == n {
                    if word == true_word() {
                        SpecAtom::EqFlag(name, true)
                    } else if word == false_word() {
                        SpecAtom::EqFlag(name, false)
                    } else {
                        SpecAtom::Unknown
                    }
                } else {
                    SpecAtom::Unknown
                }
            }
        }
    }
}

fn exec_skip_ws(s: &str, from: usize) -> (r: usize)
    requires
        from <= s@.len(),
    ensures
        from <= r <= s@.len(),
        r as int == skip_ws(s@, from as int),
{
    let n = s.unicode_len();
    let mut i: usize = from;
    while i < n && char_is_white(s.get_char(i))
        invariant
            from <= i <= n,
            n == s@.len(),
            skip_ws(s@, from as int) == skip_ws(s@, i as int),
        decreases n - i,
    {
        i = i + 1;
    }
    i
}

fn exec_skip_word(s: &str, from: usize) -> (r: usize)
    requires
        from <= s@.len(),
    ensures
        from <= r <= s@.len(),
        r as int == skip_word(s@, from as int),
{
    let n = s.unicode_len();
    let mut i: usize = from;
    while i < n && char_is_word(s.get_char(i))
        invariant
            from <= i <= n,
            n == s@.len(),
            skip_word(s@, from as int) == skip_word(s@, i as int),
        decreases n - i,
    {
        i = i + 1;
    }
    i
}

fn exec_find_char(s: &str, c: char, from: usize) -> (r: Option<usize>)
    requires
        from <= s@.len(),
    ensures
        match r {
            Some(q) => from <= q < s@.len() && q as int == find_char(s@, c, from as int),
            None => find_char(s@, c, from as int) == -1,
        },
{
    let n = s.unicode_len();
    let mut i: usize = from;
    while i < n
        invariant
            from <= i <= n,
            n == s@.len(),
            find_char(s@, c, from as int) == find_char(s@, c, i as int),
        decreases n - i,
    {
        if s.get_char(i) == c {
            return Some(i);
        }
        i = i + 1;
    }
    None
}

/// Parses one atomic clause; a clause in neither recognized form is `Unknown`.
pub fn parse_atom(s: &str) -> (r: CondAtom)
    ensures
        r@ == spec_parse_atom(s@),
{
    let n = s.unicode_len();
    let i0 = exec_skip_ws(s, 0);
    let i1 = exec_skip_word(s, i0);
    if i1 == i0 {
        return CondAtom::Unknown;
    }
    let name = s.substring_char(i0, i1).to_owned();
    let i2 = exec_skip_ws(s, i1);
    if !(i2 < n && i2 + 1 < n) || !(s.get_char(i2) == '=' && s.get_char(i2 + 1) == '=') {
        return CondAtom::Unknown;
    }
    let i3 = exec_skip_ws(s, i2 + 2);
    if i3 < n && s.get_char(i3) == '\'' {
        match exec_find_char(s, '\'', i3 + 1) {
            Some(q) => {
                if q > i3 + 1 {
                    let lit = s.substring_char(i3 + 1, q).to_owned();
                    let i5 = exec_skip_ws(s, q + 1);
                    if i5 == n {
                        CondAtom::EqText(name, lit)
                    } else {
                        CondAtom::Unknown
                    }
                } else {
                    CondAtom::Unknown
                }
            },
            None => CondAtom::Unknown,
        }
    } else {
        let i4 = exec_skip_word(s, i3);
        let word = s.substring_char(i3, i4);
        let i5 = exec_skip_ws(s, i4);
        if i5 == n {
            if str_eq(word, "true") {
                proof {
                    reveal_strlit("true");
                    assert("true"@ =~= true_word());
                }
                CondAtom::EqFlag(name, true)
            } else if str_eq(word, "false") {
                proof {
                    reveal_strlit("false");
                    assert("false"@ =~= false_word());
                }
                CondAtom::EqFlag(name, false)
            } else {
                proof {
                    reveal_strlit("true");
                    reveal_strlit("false");
                    assert("true"@ =~= true_word());
                    assert("false"@ =~= false_word());
                }
                CondAtom::Unknown
            }
        } else {
            CondAtom::Unknown
        }
    }
}

/// What an atomic clause means against the context: equality against the
/// bound text or flag; a missing or differently-typed binding, and the
/// `Unknown` form, are false.
pub open spec fn spec_eval_atom(a: SpecAtom, entries: Seq<(String, ContextValue)>) -> bool {
    match a {
        SpecAtom::EqText(name, lit) => text_of(entries, name) == Some(lit),
        SpecAtom::EqFlag(name, b) => flag_of(entries, name) == Some(b),
        SpecAtom::Unknown => false,
    }
}

/// An `||`-clause holds when any of its atomic clauses holds.
pub open spec fn spec_eval_or(s: Seq<char>, entries: Seq<(String, ContextValue)>) -> bool {
    let parts = spec_split2(s, '|', '|');
    if parts.len() >= 2 {
        exists|i: int|
            0 <= i < parts.len() && spec_eval_atom(spec_parse_atom(#[trigger] parts[i]), entries)
    } else {
        spec_eval_atom(spec_parse_atom(s), entries)
    }
}

/// A condition holds when all of its `&&`-joined clauses hold; splitting is
/// purely textual, `&&` first, then `||` within each part.
pub open spec fn spec_eval_condition(s: Seq<char>, entries: Seq<(String, ContextValue)>) -> bool {
    let parts = spec_split2(s, '&', '&');
    if parts.len() >= 2 {
        forall|i: int|
            0 <= i < parts.len() ==> spec_eval_or(#[trigger] parts[i], entries)
    } else {
        spec_eval_or(s, entries)
    }
}

fn eval_atom_on(a: &CondAtom, ctx: &RenderContext) -> (r: bool)
    ensures
        r == spec_eval_atom(a@, ctx.entries@),
{
    match a {
        CondAtom::EqText(name, lit) => {
            match ctx.get(name.as_str()) {
                Some(ContextValue::Text(s)) => str_eq(s.as_str(), lit.as_str()),
                _ => false,
            }
        },
        CondAtom::EqFlag(name, b) => {
            match ctx.get(name.as_str()) {
                Some(ContextValue::Flag(f)) => *f == *b,
                _ => false,
            }
        },
        CondAtom::Unknown => false,
    }
}

fn eval_atom_str(s: &str, ctx: &RenderContext) -> (r: bool)
    ensures
        r == spec_eval_atom(spec_parse_atom(s@), ctx.entries@),
{
    let a = parse_atom(s);
    eval_atom_on(&a, ctx)
}

fn eval_or_clause(s: &str, ctx: &RenderContext) -> (r: bool)
    ensures
        r == spec_eval_or(s@, ctx.entries@),
{
    let parts = split2(s, '|', '|');
    let ghost partsv = spec_split2(s@, '|', '|');
    if parts.len() >= 2 {
        let mut i: usize = 0;
        while i < parts.len()
            invariant
                0 <= i <= parts@.len(),
                parts@.map_values(|p: String| p@) == partsv,
                partsv == spec_split2(s@, '|', '|'),
                partsv.len() >= 2,
                forall|j: int|
                    0 <= j < i ==> !spec_eval_atom(spec_parse_atom(#[trigger] partsv[j]),
                    ctx.entries@),
            decreases parts@.len() - i,
        {
            proof {
                assert(partsv[i as int] == parts@.map_values(|p: String| p@)[i as int]);
            }
            if eval_atom_str(parts[i].as_str(), ctx) {
                return true;
            }
            i = i + 1;
        }
        false
    } else {
        proof {
            lemma_split2_len(s@, '|', '|');
        }
        eval_atom_str(s, ctx)
    }
}

/// Evaluates a condition against the context. A malformed clause counts as
/// false; evaluation never fails.
pub fn evaluate_condition(condition: &str, ctx: &RenderContext) -> (r: bool)
    ensures
        r == spec_eval_condition(condition@, ctx.entries@),
{
    let parts = split2(condition, '&', '&');
    let ghost partsv = spec_split2(condition@, '&', '&');
    if parts.len() >= 2 {
        let mut i: usize = 0;
        while i < parts.len()
            invariant
                0 <= i <= parts@.len(),
                parts@.map_values(|p: String| p@) == partsv,
                partsv == spec_split2(condition@, '&', '&'),
                partsv.len() >= 2,
                forall|j: int| 0 <= j < i ==> spec_eval_or(#[trigger] partsv[j], ctx.entries@),
            decreases parts@.len() - i,
        {
            proof {
                assert(partsv[i as int] == parts@.map_values(|p: String| p@)[i as int]);
            }
            if !eval_or_clause(parts[i].as_str(), ctx) {
                return false;
            }
            i = i + 1;
        }
        true
    } else {
        proof {
            lemma_split2_len(condition@, '&', '&');
        }
        eval_or_clause(condition, ctx)
    }
}

proof fn lemma_first2_shift_in(s: Seq<char>, c0: char, c1: char, i: int)
    requires
        0 <= i,
        i + 2 <= s.len(),
        s[i] == c0 && s[i + 1] == c1,
        forall|k: int| 0 <= k < i ==> !((#[trigger] s[k]) == c0 && s[k + 1] == c1),
    ensures
        first2(s, c0, c1) == i,
    decreases i,
{
    if i == 0 {
    } else {
        assert forall|k: int|
            0 <= k < i - 1 implies !((#[trigger] s.drop_first()[k]) == c0 && s.drop_first()[k + 1]
            == c1) by {
            assert(s[k + 1] == s.drop_first()[k]);
            assert(s[k + 2] == s.drop_first()[k + 1]);
        }
        assert(s.drop_first()[i - 1] == s[i]);
        assert(s.drop_first()[i] == s[i + 1]);
        lemma_first2_shift_in(s.drop_first(), c0, c1, i - 1);
    }
}

/// Splitting a string formed by joining a separator-free piece, the
/// separator itself, and a remainder splits exactly there.
proof fn lemma_split2_concat(p: Seq<char>, q: Seq<char>, c0: char, c1: char)
    requires
        first2(p, c0, c1) == -1,
        p.len() == 0 || p.last() != c0,
    ensures
        spec_split2(p + seq![c0, c1] + q, c0, c1) == seq![p] + spec_split2(q, c0, c1),
{
    let s = p + seq![c0, c1] + q;
    lemma_first2_props(p, c0, c1);
    assert(s[p.len() as int] == c0);
    assert(s[p.len() as int + 1] == c1);
    assert forall|k: int| 0 <= k < p.len() implies !((#[trigger] s[k]) == c0 && s[k + 1] == c1) by {
        if k + 1 < p.len() {
            assert(s[k] == p[k] && s[k + 1] == p[k + 1]);
        } else {
            assert(s[k] == p[k] && p[k] == p.last());
        }
    }
    lemma_first2_shift_in(s, c0, c1, p.len() as int);
    assert(s.subrange(0, p.len() as int) =~= p);
    assert(s.subrange(p.len() as int + 2, s.len() as int) =~= q);
}

proof fn lemma_first2_absent_concat(p: Seq<char>, m: Seq<char>, q: Seq<char>, c0: char, c1: char)
    requires
        first2(p, c0, c1) == -1,
        first2(q, c0, c1) == -1,
        m.len() == 2,
        m[0] != c1,
        !(m[0] == c0 && m[1] == c1),
        !(m[1] == c0 && q.len() > 0 && q[0] == c1),
    ensures
        first2(p + m + q, c0, c1) == -1,
{
    let s = p + m + q;
    let pl = p.len() as int;
    lemma_first2_props(p, c0, c1);
    lemma_first2_props(q, c0, c1);
    assert forall|k: int|
        0 <= k && k + 1 < s.len() implies !((#[trigger] s[k]) == c0 && s[k + 1] == c1) by {
        if k + 1 < pl {
            assert(s[k] == p[k] && s[k + 1] == p[k + 1]);
        } else if k + 1 == pl {
            assert(s[k + 1] == m[0]);
        } else if k == pl {
            assert(s[k] == m[0] && s[k + 1] == m[1]);
        } else if k == pl + 1 {
            assert(s[k] == m[1]);
            if k + 1 < s.len() {
                assert(s[k + 1] == q[0]);
            }
        } else {
            assert(s[k] == q[k - pl - 2] && s[k + 1] == q[k - pl - 1]);
        }
    }
    lemma_first2_none(s, c0, c1);
}

proof fn lemma_first2_none(s: Seq<char>, c0: char, c1: char)
    requires
        forall|k: int| 0 <= k && k + 1 < s.len() ==> !((#[trigger] s[k]) == c0 && s[k + 1] == c1),
    ensures
        first2(s, c0, c1) == -1,
    decreases s.len(),
{
    if s.len() >= 2 {
        assert forall|k: int|
            0 <= k && k + 1 < s.drop_first().len() implies !((#[trigger] s.drop_first()[k]) == c0
            && s.drop_first()[k + 1] == c1) by {
            assert(s[k + 1] == s.drop_first()[k]);
            assert(s[k + 2] == s.drop_first()[k + 1]);
        }
        lemma_first2_none(s.drop_first(), c0, c1);
    }
}

/// Law: a condition formed by joining two `&&`-free clauses with `&&` holds
/// exactly when both clauses hold. Together with the atomic-clause meaning
/// this pins down the conjunction semantics for every context.
pub proof fn lemma_and_join_semantics(
    p: Seq<char>,
    q: Seq<char>,
    entries: Seq<(String, ContextValue)>,
)
    requires
        first2(p, '&', '&') == -1,
        first2(q, '&', '&') == -1,
        p.len() == 0 || p.last() != '&',
    ensures
        spec_eval_condition(p + seq!['&', '&'] + q, entries) == (spec_eval_or(p, entries)
            && spec_eval_or(q, entries)),
{
    let s = p + seq!['&', '&'] + q;
    lemma_split2_concat(p, q, '&', '&');
    lemma_split2_len(q, '&', '&');
    let parts = spec_split2(s, '&', '&');
    assert(parts == seq![p] + spec_split2(q, '&', '&'));
    assert(spec_split2(q, '&', '&') == seq![q]);
    assert(parts =~= seq![p, q]);
    assert(parts[0] == p && parts[1] == q);
    if spec_eval_or(p, entries) && spec_eval_or(q, entries) {
        assert forall|i: int| 0 <= i < parts.len() implies spec_eval_or(
            #[trigger] parts[i],
            entries,
        ) by {
            if i == 0 {
            } else {
                assert(parts[i] == q);
            }
        }
    }
}

/// Law: a condition formed by joining two atomic clauses with `||` (with no
/// `&&` and no further `||` in either) holds exactly when either clause
/// holds.
pub proof fn lemma_or_join_semantics(
    p: Seq<char>,
    q: Seq<char>,
    entries: Seq<(String, ContextValue)>,
)
    requires
        first2(p, '|', '|') == -1,
        first2(q, '|', '|') == -1,
        first2(p, '&', '&') == -1,
        first2(q, '&', '&') == -1,
        p.len() == 0 || p.last() != '|',
    ensures
        spec_eval_condition(p + seq!['|', '|'] + q, entries) == (spec_eval_atom(
            spec_parse_atom(p),
            entries,
        ) || spec_eval_atom(spec_parse_atom(q), entries)),
{
    let s = p + seq!['|', '|'] + q;
    lemma_first2_absent_concat(p, seq!['|', '|'], q, '&', '&');
    lemma_split2_len(s, '&', '&');
    assert(spec_eval_condition(s, entries) == spec_eval_or(s, entries));
    lemma_split2_concat(p, q, '|', '|');
    lemma_split2_len(q, '|', '|');
    let parts = spec_split2(s, '|', '|');
    assert(parts == seq![p] + spec_split2(q, '|', '|'));
    assert(spec_split2(q, '|', '|') == seq![q]);
    assert(parts =~= seq![p, q]);
    assert(parts[0] == p && parts[1] == q);
    if spec_eval_atom(spec_parse_atom(p), entries) {
        assert(spec_eval_atom(spec_parse_atom(parts[0]), entries));
    }
    if spec_eval_atom(spec_parse_atom(q), entries) {
        assert(spec_eval_atom(spec_parse_atom(parts[1]), entries));
    }
    if spec_eval_or(s, entries) {
        let i = choose|i: int|
            0 <= i < parts.len() && spec_eval_atom(spec_parse_atom(#[trigger] parts[i]), entries);
        assert(i == 0 || i == 1);
    }
}

/// Law: a condition that is a single clause in no recognized form never
/// holds, whatever the context; a malformed condition fails closed.
pub proof fn lemma_unknown_fails_closed(s: Seq<char>, entries: Seq<(String, ContextValue)>)
    requires
        first2(s, '&', '&') == -1,
        first2(s, '|', '|') == -1,
        spec_parse_atom(s) is Unknown,
    ensures
        !spec_eval_condition(s, entries),
{
    lemma_split2_len(s, '&', '&');
    lemma_split2_len(s, '|', '|');
}

/// The pieces joined with a single space.
pub open spec fn join_space(parts: Seq<Seq<char>>) -> Seq<char>
    decreases parts.len(),
{
    if parts.len() == 0 {
        Seq::empty()
    } else if parts.len() == 1 {
        parts[0]
    } else {
        parts[0] + seq![' '] + join_space(parts.drop_first())
    }
}

proof fn lemma_join_space_push(parts: Seq<Seq<char>>, x: Seq<char>)
    ensures
        join_space(parts.push(x)) == if parts.len() == 0 {
            x
        } else {
            join_space(parts) + seq![' '] + x
        },
    decreases parts.len(),
{
    if parts.len() == 0 {
        assert(parts.push(x) =~= seq![x]);
    } else {
        lemma_join_space_push(parts.drop_first(), x);
        assert(parts.push(x).drop_first() =~= parts.drop_first().push(x));
        assert(parts.push(x)[0] == parts[0]);
    }
}

/// The lowered form of one atomic clause: an `eq` helper call, or the
/// literal word `false` for a clause in no recognized form.
pub open spec fn spec_convert_atom(s: Seq<char>) -> Seq<char> {
    match spec_parse_atom(s) {
        SpecAtom::EqText(name, lit) => seq!['(', 'e', 'q', ' '] + name + seq![' ', '\''] + lit
            + seq!['\'', ')'],
        SpecAtom::EqFlag(name, b) => seq!['(', 'e', 'q', ' '] + name + seq![' '] + (if b {
            true_word()
        } else {
            false_word()
        }) + seq![')'],
        SpecAtom::Unknown => false_word(),
    }
}

/// The lowered form of an `||`-clause: an `or` helper call over its atoms.
pub open spec fn spec_convert_or(s: Seq<char>) -> Seq<char> {
    let parts = spec_split2(s, '|', '|');
    if parts.len() >= 2 {
        seq!['(', 'o', 'r', ' '] + join_space(parts.map_values(|p: Seq<char>| spec_convert_atom(p)))
            + seq![')']
    } else {
        spec_convert_atom(s)
    }
}

/// The lowered form of a whole condition: an `and` helper call over its
/// `&&`-joined clauses.
pub open spec fn spec_convert_condition(s: Seq<char>) -> Seq<char> {
    let parts = spec_split2(s, '&', '&');
    if parts.len() >= 2 {
        seq!['(', 'a', 'n', 'd', ' '] + join_space(
            parts.map_values(|p: Seq<char>| spec_convert_or(p)),
        ) + seq![')']
    } else {
        spec_convert_or(s)
    }
}

fn convert_atom_str(s: &str) -> (r: String)
    ensures
        r@ == spec_convert_atom(s@),
{
    match parse_atom(s) {
        CondAtom::EqText(name, lit) => {
            let mut out = String::from_str("(eq ");
            out.append(name.as_str());
            out.append(" '");
            out.append(lit.as_str());
            out.append("')");
            proof {
                reveal_strlit("(eq ");
                reveal_strlit(" '");
                reveal_strlit("')");
                assert("(eq "@ =~= seq!['(', 'e', 'q', ' ']);
                assert(" '"@ =~= seq![' ', '\'']);
                assert("')"@ =~= seq!['\'', ')']);
                assert(out@ =~= spec_convert_atom(s@));
            }
            out
        },
        CondAtom::EqFlag(name, b) => {
            let mut out = String::from_str("(eq ");
            out.append(name.as_str());
            out.append(" ");
            if b {
                out.append("true");
            } else {
                out.append("false");
            }
            out.append(")");
            proof {
                reveal_strlit("(eq ");
                reveal_strlit(" ");
                reveal_strlit("true");
                reveal_strlit("false");
                reveal_strlit(")");
                assert("(eq "@ =~= seq!['(', 'e', 'q', ' ']);
                assert(" "@ =~= seq![' ']);
                assert("true"@ =~= true_word());
                assert("false"@ =~= false_word());
                assert(")"@ =~= seq![')']);
                assert(out@ =~= spec_convert_atom(s@));
            }
            out
        },
        CondAtom::Unknown => {
            let out = String::from_str("false");
            proof {
                reveal_strlit("false");
                assert("false"@ =~= false_word());
            }
            out
        },
    }
}

fn convert_or_clause(s: &str) -> (r: String)
    ensures
        r@ == spec_convert_or(s@),
{
    let parts = split2(s, '|', '|');
    let ghost partsv = spec_split2(s@, '|', '|');
    let ghost conv = partsv.map_values(|p: Seq<char>| spec_convert_atom(p));
    if parts.len() >= 2 {
        let mut out = String::from_str("(or ");
        proof {
            reveal_strlit("(or ");
            assert("(or "@ =~= seq!['(', 'o', 'r', ' ']);
            assert(conv.take(0) =~= Seq::<Seq<char>>::empty());
            assert(out@ =~= seq!['(', 'o', 'r', ' '] + join_space(conv.take(0)));
        }
        let mut i: usize = 0;
        while i < parts.len()
            invariant
                0 <= i <= parts@.len(),
                parts@.map_values(|p: String| p@) == partsv,
                conv == partsv.map_values(|p: Seq<char>| spec_convert_atom(p)),
                out@ == seq!['(', 'o', 'r', ' '] + join_space(conv.take(i as int)),
            decreases parts@.len() - i,
        {
            proof {
                assert(partsv[i as int] == parts@.map_values(|p: String| p@)[i as int]);
                assert(conv[i as int] == spec_convert_atom(partsv[i as int]));
            }
            if i > 0 {
                out.append(" ");
                proof {
                    reveal_strlit(" ");
                    assert(" "@ =~= seq![' ']);
                }
            }
            let piece = convert_atom_str(parts[i].as_str());
            out.append(piece.as_str());
            proof {
                lemma_join_space_push(conv.take(i as int), conv[i as int]);
                assert(conv.take(i as int + 1) =~= conv.take(i as int).push(conv[i as int]));
            }
            i = i + 1;
        }
        out.append(")");
        proof {
            reveal_strlit(")");
            assert(")"@ =~= seq![')']);
            assert(conv.take(parts@.len() as int) =~= conv);
            assert(out@ =~= spec_convert_or(s@));
        }
        out
    } else {
        proof {
            lemma_split2_len(s@, '|', '|');
        }
        convert_atom_str(s)
    }
}

/// Lowers a condition into the templating engine's helper syntax:
/// `integration == 'cmake' && minimal == false` becomes
/// `(and (eq integration 'cmake') (eq minimal false))`, and a clause in no
/// recognized form becomes the literal word `false`.
pub fn convert_condition_to_handlebars(condition: &str) -> (r: String)
    ensures
        r@ == spec_convert_condition(condition@),
{
    let parts = split2(condition, '&', '&');
    let ghost partsv = spec_split2(condition@, '&', '&');
    let ghost conv = partsv.map_values(|p: Seq<char>| spec_convert_or(p));
    if parts.len() >= 2 {
        let mut out = String::from_str("(and ");
        proof {
            reveal_strlit("(and ");
            assert("(and "@ =~= seq!['(', 'a', 'n', 'd', ' ']);
            assert(conv.take(0) =~= Seq::<Seq<char>>::empty());
            assert(out@ =~= seq!['(', 'a', 'n', 'd', ' '] + join_space(conv.take(0)));
        }
        let mut i: usize = 0;
        while i < parts.len()
            invariant
                0 <= i <= parts@.len(),
                parts@.map_values(|p: String| p@) == partsv,
                conv == partsv.map_values(|p: Seq<char>| spec_convert_or(p)),
                out@ == seq!['(', 'a', 'n', 'd', ' '] + join_space(conv.take(i as int)),
            decreases parts@.len() - i,
        {
            proof {
                assert(partsv[i as int] == parts@.map_values(|p: String| p@)[i as int]);
                assert(conv[i as int] == spec_convert_or(partsv[i as int]));
            }
            if i > 0 {
                out.append(" ");
                proof {
                    reveal_strlit(" ");
                    assert(" "@ =~= seq![' ']);
                }
            }
            let piece = convert_or_clause(parts[i].as_str());
            out.append(piece.as_str());
            proof {
                lemma_join_space_push(conv.take(i as int), conv[i as int]);
                assert(conv.take(i as int + 1) =~= conv.take(i as int).push(conv[i as int]));
            }
            i = i + 1;
        }
        out.append(")");
        proof {
            reveal_strlit(")");
            assert(")"@ =~= seq![')']);
            assert(conv.take(parts@.len() as int) =~= conv);
            assert(out@ =~= spec_convert_condition(condition@));
        }
        out
    } else {
        proof {
            lemma_split2_len(condition@, '&', '&');
        }
        convert_or_clause(condition)
    }
}

} // verus!
