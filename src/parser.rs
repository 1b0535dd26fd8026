//! The parser: source text to [`Ast`].
//!
//! The grammar is a parsing expression grammar. A program is a sequence of
//! terms with optional separators (white space and `#` comments) around and
//! between them. At each position the alternatives of a term are tried in a
//! fixed order, and the first that matches is taken.
use vstd::prelude::*;

use crate::ast::{term_view, terms_view, Ast, SpecTerm, Term};
use crate::chars::{
    digit, ident_char, ident_start, is_digit, is_ident_char, is_ident_start, is_space,
    space,
};
use crate::error::{CompilerError, Wanted};
use crate::numeral::{decimal_text, digits_value, lemma_nat_text, nat_text};

verus! {

/// The position after the separators that start at `i`; `in_comment` says
/// whether a comment is open at `i`.
pub open spec fn skip_from(s: Seq<char>, i: int, in_comment: bool) -> int
    decreases s.len() - i,
{
    if i < 0 || i >= s.len() {
        i
    } else if in_comment {
        skip_from(s, i + 1, s[i] != '\n')
    } else if is_space(s[i]) {
        skip_from(s, i + 1, false)
    } else if s[i] == '#' {
        skip_from(s, i + 1, true)
    } else {
        i
    }
}

/// The position after the run of separators that starts at `i`.
pub open spec fn skip_separators(s: Seq<char>, i: int) -> int {
    skip_from(s, i, false)
}

/// The end of the run of digits that starts at `i`.
pub open spec fn digits_end(s: Seq<char>, i: int) -> int
    decreases s.len() - i,
{
    if 0 <= i < s.len() && is_digit(s[i]) {
        digits_end(s, i + 1)
    } else {
        i
    }
}

/// The end of the run of identifier characters that starts at `i`.
pub open spec fn ident_end(s: Seq<char>, i: int) -> int
    decreases s.len() - i,
{
    if 0 <= i < s.len() && is_ident_char(s[i]) {
        ident_end(s, i + 1)
    } else {
        i
    }
}

/// Whether a sign character stands at `p`.
pub open spec fn has_sign(s: Seq<char>, p: int) -> bool {
    0 <= p < s.len() && (s[p] == '-' || s[p] == '+')
}

/// An integer literal at `p`: an optional sign and at least one digit, whose
/// value fits in 32 bits.
pub open spec fn int_at(s: Seq<char>, p: int) -> Option<(SpecTerm, int)> {
    let d = if has_sign(s, p) { p + 1 } else { p };
    let e = digits_end(s, d);
    let magnitude = digits_value(s.subrange(d, e));
    let value = if has_sign(s, p) && s[p] == '-' { -magnitude } else { magnitude };
    if d < e && i32::MIN <= value <= i32::MAX {
        Some((SpecTerm::Int(value as i32), e))
    } else {
        None
    }
}

/// The term that a reserved word stands for.
pub open spec fn keyword(w: Seq<char>) -> Option<SpecTerm> {
    if w == seq!['b'] {
        Some(SpecTerm::Bool)
    } else if w == seq!['a', 'n', 'd'] {
        Some(SpecTerm::And)
    } else if w == seq!['o', 'r'] {
        Some(SpecTerm::Or)
    } else if w == seq!['n', 'o', 't'] {
        Some(SpecTerm::Not)
    } else if w == seq!['t', 'a', 'k', 'e'] {
        Some(SpecTerm::Take)
    } else if w == seq!['d', 'u', 'p'] {
        Some(SpecTerm::Dup)
    } else if w == seq!['d', 'r', 'o', 'p'] {
        Some(SpecTerm::Drop)
    } else {
        None
    }
}

/// A word at `p`: a reserved word, or else a reference to an identifier.
pub open spec fn word_at(s: Seq<char>, p: int) -> Option<(SpecTerm, int)> {
    if 0 <= p < s.len() && is_ident_start(s[p]) {
        let e = ident_end(s, p + 1);
        let w = s.subrange(p, e);
        match keyword(w) {
            Some(k) => Some((k, e)),
            None => Some((SpecTerm::Put(w), e)),
        }
    } else {
        None
    }
}

/// A binding at `p`: `:` directly followed by an identifier that is not a
/// reserved word.
pub open spec fn bind_at(s: Seq<char>, p: int) -> Option<(SpecTerm, int)> {
    if 0 <= p && p + 1 < s.len() && s[p] == ':' && is_ident_start(s[p + 1]) {
        let e = ident_end(s, p + 2);
        let w = s.subrange(p + 1, e);
        if keyword(w) is None {
            Some((SpecTerm::Bind(w), e))
        } else {
            None
        }
    } else {
        None
    }
}

/// An operator at `p`; a two-character operator is preferred to its first
/// character alone.
pub open spec fn operator_at(s: Seq<char>, p: int) -> Option<(SpecTerm, int)> {
    if 0 <= p < s.len() {
        let c = s[p];
        let next_is_eq = p + 1 < s.len() && s[p + 1] == '=';
        if c == '+' {
            Some((SpecTerm::Add, p + 1))
        } else if c == '-' {
            Some((SpecTerm::Sub, p + 1))
        } else if c == '*' {
            Some((SpecTerm::Mul, p + 1))
        } else if c == '/' {
            Some((SpecTerm::Div, p + 1))
        } else if c == '.' {
            Some((SpecTerm::Print, p + 1))
        } else if c == '!' && next_is_eq {
            Some((SpecTerm::NotEquals, p + 2))
        } else if c == '=' && next_is_eq {
            Some((SpecTerm::Equals, p + 2))
        } else if c == '<' && next_is_eq {
            Some((SpecTerm::LessEquals, p + 2))
        } else if c == '<' {
            Some((SpecTerm::Less, p + 1))
        } else if c == '>' && next_is_eq {
            Some((SpecTerm::GreaterEquals, p + 2))
        } else if c == '>' {
            Some((SpecTerm::Greater, p + 1))
        } else if c == '!' {
            Some((SpecTerm::Apply, p + 1))
        } else if c == '?' {
            Some((SpecTerm::If, p + 1))
        } else {
            None
        }
    } else {
        None
    }
}

/// The term at `p` and the position after it, if one stands there.
pub open spec fn term_at(s: Seq<char>, p: int) -> Option<(SpecTerm, int)>
    decreases s.len() - p, 0int,
{
    if int_at(s, p) is Some {
        int_at(s, p)
    } else if word_at(s, p) is Some {
        word_at(s, p)
    } else if bind_at(s, p) is Some {
        bind_at(s, p)
    } else if 0 <= p < s.len() && s[p] == '[' {
        let q = skip_separators(s, p + 1);
        if p < q <= s.len() {
            let inner = terms_from(s, q);
            if 0 <= inner.1 < s.len() && s[inner.1] == ']' {
                Some((SpecTerm::List(inner.0), inner.1 + 1))
            } else {
                None
            }
        } else {
            None
        }
    } else {
        operator_at(s, p)
    }
}

/// The terms that follow one another from `p`, each with the separators
/// after it, and the position where the first of them fails.
pub open spec fn terms_from(s: Seq<char>, p: int) -> (Seq<SpecTerm>, int)
    decreases s.len() - p, 1int,
{
    match term_at(s, p) {
        Some((t, q)) => {
            let r = skip_separators(s, q);
            if p < r <= s.len() {
                let rest = terms_from(s, r);
                (seq![t] + rest.0, rest.1)
            } else {
                (Seq::empty(), p)
            }
        },
        None => (Seq::empty(), p),
    }
}

/// Where parsing of the whole text stops.
pub open spec fn parse_end(s: Seq<char>) -> int {
    terms_from(s, skip_separators(s, 0)).1
}

/// The terms of a program, if the whole text is one.
pub open spec fn parse_spec(s: Seq<char>) -> Option<Seq<SpecTerm>> {
    if parse_end(s) == s.len() {
        Some(terms_from(s, skip_separators(s, 0)).0)
    } else {
        None
    }
}

/// Where parsing stopped at `p`, needing a term or `wanted`, and, if a list
/// opens at `p`, first where parsing of its body stopped: innermost first.
pub open spec fn stop_trace(s: Seq<char>, p: int, wanted: Wanted) -> Seq<(int, Wanted)>
    decreases s.len() - p,
{
    if 0 <= p < s.len() && s[p] == '[' {
        let q = skip_separators(s, p + 1);
        let e = terms_from(s, q).1;
        if p < q <= e <= s.len() {
            stop_trace(s, e, Wanted::TermOrBracket).push((p, wanted))
        } else {
            seq![(p, wanted)]
        }
    } else {
        seq![(p, wanted)]
    }
}

/// The model of a trace.
pub open spec fn trace_view(t: Seq<(usize, Wanted)>) -> Seq<(int, Wanted)> {
    t.map_values(|e: (usize, Wanted)| (e.0 as int, e.1))
}

/// The model of a parsed term with the position after it.
pub open spec fn found_view(r: Option<(Term, usize)>) -> Option<(SpecTerm, int)> {
    match r {
        Some((t, e)) => Some((term_view(t), e as int)),
        None => None,
    }
}

/// Appending a term appends its model.
pub proof fn lemma_terms_view_push(ts: Seq<Term>, t: Term)
    ensures
        terms_view(ts.push(t)) == terms_view(ts) + seq![term_view(t)],
    decreases ts.len(),
{
    if ts.len() == 0 {
        assert(ts.push(t).subrange(1, 1) =~= Seq::<Term>::empty());
        assert(terms_view(Seq::<Term>::empty()) == Seq::<SpecTerm>::empty());
        assert(terms_view(ts.push(t)) =~= terms_view(ts) + seq![term_view(t)]);
    } else {
        let tail = ts.subrange(1, ts.len() as int);
        lemma_terms_view_push(tail, t);
        assert(ts.push(t).subrange(1, ts.len() as int + 1) =~= tail.push(t));
        assert(terms_view(ts.push(t)) =~= terms_view(ts) + seq![term_view(t)]);
    }
}

fn skip_seps(s: &Vec<char>, i: usize) -> (r: usize)
    requires
        i <= s.len(),
    ensures
        r == skip_separators(s@, i as int),
        i <= r <= s.len(),
{
    let mut j = i;
    let mut in_comment = false;
    while j < s.len()
        invariant
            i <= j <= s.len(),
            skip_from(s@, i as int, false) == skip_from(s@, j as int, in_comment),
        decreases s.len() - j,
    {
        let c = s[j];
        if in_comment {
            in_comment = c != '\n';
        } else if space(c) {
        } else if c == '#' {
            in_comment = true;
        } else {
            return j;
        }
        j = j + 1;
    }
    j
}

fn int_term(s: &Vec<char>, p: usize) -> (r: Option<(Term, usize)>)
    requires
        p <= s.len(),
    ensures
        found_view(r) == int_at(s@, p as int),
        r matches Some((_, e)) ==> p < e <= s.len(),
{
    let signed = p < s.len() && (s[p] == '-' || s[p] == '+');
    let negative = signed && s[p] == '-';
    let d = if signed { p + 1 } else { p };
    let mut j = d;
    let mut magnitude: u64 = 0;
    let mut too_big = false;
    while j < s.len() && digit(s[j])
        invariant
            d <= j <= s.len(),
            digits_end(s@, d as int) == digits_end(s@, j as int),
            !too_big ==> magnitude == digits_value(s@.subrange(d as int, j as int)),
            !too_big ==> magnitude <= 0x8000_0000,
            too_big ==> digits_value(s@.subrange(d as int, j as int)) > 0x8000_0000,
        decreases s.len() - j,
    {
        let ghost before = s@.subrange(d as int, j as int);
        assert(s@.subrange(d as int, j + 1).drop_last() =~= before);
        let dv = (s[j] as u32 - '0' as u32) as u64;
        if !too_big {
            let m = magnitude * 10 + dv;
            if m > 0x8000_0000 {
                too_big = true;
            } else {
                magnitude = m;
            }
        }
        j = j + 1;
    }
    if j == d || too_big {
        return None;
    }
    if negative {
        let v: i64 = -(magnitude as i64);
        if v < -0x8000_0000 {
            return None;
        }
        Some((Term::Int(v as i32), j))
    } else {
        if magnitude > 0x7fff_ffff {
            return None;
        }
        Some((Term::Int(magnitude as i32), j))
    }
}

fn ident_stop(s: &Vec<char>, i: usize) -> (r: usize)
    requires
        i <= s.len(),
    ensures
        r == ident_end(s@, i as int),
        i <= r <= s.len(),
{
    let mut j = i;
    while j < s.len() && ident_char(s[j])
        invariant
            i <= j <= s.len(),
            ident_end(s@, i as int) == ident_end(s@, j as int),
        decreases s.len() - j,
    {
        j = j + 1;
    }
    j
}

fn keyword_term(s: &Vec<char>, a: usize, e: usize) -> (r: Option<Term>)
    requires
        a <= e <= s.len(),
    ensures
        match r {
            Some(t) => keyword(s@.subrange(a as int, e as int)) == Some(term_view(t)),
            None => keyword(s@.subrange(a as int, e as int)) is None,
        },
{
    let ghost w = s@.subrange(a as int, e as int);
    let n = e - a;
    if n == 1 && s[a] == 'b' {
        assert(w =~= seq!['b']);
        Some(Term::Bool)
    } else if n == 3 && s[a] == 'a' && s[a + 1] == 'n' && s[a + 2] == 'd' {
        assert(w =~= seq!['a', 'n', 'd']);
        Some(Term::And)
    } else if n == 2 && s[a] == 'o' && s[a + 1] == 'r' {
        assert(w =~= seq!['o', 'r']);
        Some(Term::Or)
    } else if n == 3 && s[a] == 'n' && s[a + 1] == 'o' && s[a + 2] == 't' {
        assert(w =~= seq!['n', 'o', 't']);
        Some(Term::Not)
    } else if n == 4 && s[a] == 't' && s[a + 1] == 'a' && s[a + 2] == 'k' && s[a + 3] == 'e' {
        assert(w =~= seq!['t', 'a', 'k', 'e']);
        Some(Term::Take)
    } else if n == 3 && s[a] == 'd' && s[a + 1] == 'u' && s[a + 2] == 'p' {
        assert(w =~= seq!['d', 'u', 'p']);
        Some(Term::Dup)
    } else if n == 4 && s[a] == 'd' && s[a + 1] == 'r' && s[a + 2] == 'o' && s[a + 3] == 'p' {
        assert(w =~= seq!['d', 'r', 'o', 'p']);
        Some(Term::Drop)
    } else {
        assert(w.len() == n);
        assert(w != seq!['b']) by {
            if n == 1 { assert(w[0] == s@[a as int]); }
        }
        assert(w != seq!['a', 'n', 'd']) by {
            if n == 3 { assert(w[0] == s@[a as int] && w[1] == s@[a + 1] && w[2] == s@[a + 2]); }
        }
        assert(w != seq!['o', 'r']) by {
            if n == 2 { assert(w[0] == s@[a as int] && w[1] == s@[a + 1]); }
        }
        assert(w != seq!['n', 'o', 't']) by {
            if n == 3 { assert(w[0] == s@[a as int] && w[1] == s@[a + 1] && w[2] == s@[a + 2]); }
        }
        assert(w != seq!['t', 'a', 'k', 'e']) by {
            if n == 4 {
                assert(w[0] == s@[a as int] && w[1] == s@[a + 1] && w[2] == s@[a + 2] && w[3]
                    == s@[a + 3]);
            }
        }
        assert(w != seq!['d', 'u', 'p']) by {
            if n == 3 { assert(w[0] == s@[a as int] && w[1] == s@[a + 1] && w[2] == s@[a + 2]); }
        }
        assert(w != seq!['d', 'r', 'o', 'p']) by {
            if n == 4 {
                assert(w[0] == s@[a as int] && w[1] == s@[a + 1] && w[2] == s@[a + 2] && w[3]
                    == s@[a + 3]);
            }
        }
        None
    }
}

fn word_term(src: &str, s: &Vec<char>, p: usize) -> (r: Option<(Term, usize)>)
    requires
        p <= s.len(),
        s@ == src@,
    ensures
        found_view(r) == word_at(s@, p as int),
        r matches Some((_, e)) ==> p < e <= s.len(),
{
    if p < s.len() && ident_start(s[p]) {
        let e = ident_stop(s, p + 1);
        match keyword_term(s, p, e) {
            Some(k) => Some((k, e)),
            None => {
                let identifier = src.substring_char(p, e).to_owned();
                Some((Term::Put { identifier }, e))
            },
        }
    } else {
        None
    }
}

fn bind_term(src: &str, s: &Vec<char>, p: usize) -> (r: Option<(Term, usize)>)
    requires
        p <= s.len(),
        s@ == src@,
    ensures
        found_view(r) == bind_at(s@, p as int),
        r matches Some((_, e)) ==> p < e <= s.len(),
{
    if p < s.len() && p + 1 < s.len() && s[p] == ':' && ident_start(s[p + 1]) {
        let e = ident_stop(s, p + 2);
        match keyword_term(s, p + 1, e) {
            Some(_) => None,
            None => {
                let identifier = src.substring_char(p + 1, e).to_owned();
                Some((Term::Bind { identifier }, e))
            },
        }
    } else {
        None
    }
}

fn operator_term(s: &Vec<char>, p: usize) -> (r: Option<(Term, usize)>)
    requires
        p <= s.len(),
    ensures
        found_view(r) == operator_at(s@, p as int),
{
    if p >= s.len() {
        return None;
    }
    let c = s[p];
    let next_is_eq = p + 1 < s.len() && s[p + 1] == '=';
    if c == '+' {
        Some((Term::Add, p + 1))
    } else if c == '-' {
        Some((Term::Sub, p + 1))
    } else if c == '*' {
        Some((Term::Mul, p + 1))
    } else if c == '/' {
        Some((Term::Div, p + 1))
    } else if c == '.' {
        Some((Term::Print, p + 1))
    } else if c == '!' && next_is_eq {
        Some((Term::NotEquals, p + 2))
    } else if c == '=' && next_is_eq {
        Some((Term::Equals, p + 2))
    } else if c == '<' && next_is_eq {
        Some((Term::LessEquals, p + 2))
    } else if c == '<' {
        Some((Term::Less, p + 1))
    } else if c == '>' && next_is_eq {
        Some((Term::GreaterEquals, p + 2))
    } else if c == '>' {
        Some((Term::Greater, p + 1))
    } else if c == '!' {
        Some((Term::Apply, p + 1))
    } else if c == '?' {
        Some((Term::If, p + 1))
    } else {
        None
    }
}

fn term(src: &str, s: &Vec<char>, p: usize) -> (r: Option<(Term, usize)>)
    requires
        p <= s.len(),
        s@ == src@,
    ensures
        found_view(r) == term_at(s@, p as int),
        r matches Some((_, e)) ==> p < e <= s.len(),
    decreases s.len() - p, 0int,
{
    let r = int_term(s, p);
    if r.is_some() {
        return r;
    }
    let r = word_term(src, s, p);
    if r.is_some() {
        return r;
    }
    let r = bind_term(src, s, p);
    if r.is_some() {
        return r;
    }
    if p < s.len() && s[p] == '[' {
        let q = skip_seps(s, p + 1);
        let (terms, e) = term_sequence(src, s, q);
        if e < s.len() && s[e] == ']' {
            Some((Term::List { terms }, e + 1))
        } else {
            None
        }
    } else {
        operator_term(s, p)
    }
}

fn term_sequence(src: &str, s: &Vec<char>, p: usize) -> (r: (Vec<Term>, usize))
    requires
        p <= s.len(),
        s@ == src@,
    ensures
        terms_view(r.0@) == terms_from(s@, p as int).0,
        r.1 == terms_from(s@, p as int).1,
        p <= r.1 <= s.len(),
    decreases s.len() - p, 1int,
{
    let mut terms: Vec<Term> = Vec::new();
    let mut i = p;
    loop
        invariant
            p <= i <= s.len(),
            s@ == src@,
            terms_from(s@, p as int) == (
            terms_view(terms@) + terms_from(s@, i as int).0,
            terms_from(s@, i as int).1,
            ),
        decreases s.len() - i,
    {
        match term(src, s, i) {
            None => {
                assert(terms_view(terms@) + terms_from(s@, i as int).0 =~= terms_view(terms@));
                return (terms, i);
            },
            Some((t, q)) => {
                let r = skip_seps(s, q);
                proof {
                    lemma_terms_view_push(terms@, t);
                    let rest = terms_from(s@, r as int);
                    assert(terms_view(terms@.push(t)) + rest.0 =~= terms_view(terms@) + (seq![
                        term_view(t),
                    ] + rest.0));
                }
                terms.push(t);
                i = r;
            },
        }
    }
}

fn chars_of(src: &str) -> (r: Vec<char>)
    ensures
        r@ == src@,
{
    let mut r: Vec<char> = Vec::new();
    for c in it: src.chars()
        invariant
            r@ == it.seq().subrange(0, it.index() as int),
    {
        r.push(c);
    }
    r
}

/// Parses a whole program. The result is the program's terms when the whole
/// text is one, and otherwise an error that holds the text and the position
/// where parsing stopped.
pub fn parse(source: &str) -> (r: Result<Ast, CompilerError>)
    ensures
        match r {
            Ok(ast) => parse_spec(source@) == Some(ast@),
            Err(CompilerError::ParserError { source: text, position, trace }) => {
                &&& parse_spec(source@) is None
                &&& text@ == source@
                &&& position == parse_end(source@)
                &&& trace_view(trace@) == stop_trace(source@, position as int, Wanted::TermOrEnd)
            },
            Err(_) => false,
        },
        r is Ok <==> parse_spec(source@) is Some,
{
    let s = chars_of(source);
    let q = skip_seps(&s, 0);
    let (terms, e) = term_sequence(source, &s, q);
    if e == s.len() {
        Ok(Ast::from_terms(terms))
    } else {
        let trace = stop_trace_of(source, &s, e, Wanted::TermOrEnd);
        Err(CompilerError::parser_error(source.to_owned(), e, trace))
    }
}

fn stop_trace_of(src: &str, s: &Vec<char>, p: usize, wanted: Wanted) -> (r: Vec<(usize, Wanted)>)
    requires
        p <= s.len(),
        s@ == src@,
    ensures
        trace_view(r@) == stop_trace(s@, p as int, wanted),
    decreases s.len() - p,
{
    if p < s.len() && s[p] == '[' {
        let q = skip_seps(s, p + 1);
        let (_, e) = term_sequence(src, s, q);
        let mut r = stop_trace_of(src, s, e, Wanted::TermOrBracket);
        let ghost inner = r@;
        r.push((p, wanted));
        assert(trace_view(r@) =~= trace_view(inner).push((p as int, wanted)));
        r
    } else {
        let r = vec![(p, wanted)];
        assert(trace_view(r@) =~= seq![(p as int, wanted)]);
        r
    }
}

proof fn lemma_digits_end_all(s: Seq<char>, i: int)
    requires
        0 <= i <= s.len(),
        forall|k: int| i <= k < s.len() ==> is_digit(#[trigger] s[k]),
    ensures
        digits_end(s, i) == s.len(),
    decreases s.len() - i,
{
    if i < s.len() {
        lemma_digits_end_all(s, i + 1);
    }
}

/// The decimal text of any 32-bit integer, with a `-` in front when it is
/// negative, parses as a program of exactly that one integer literal.
pub proof fn lemma_parse_decimal(n: i32)
    ensures
        parse_spec(decimal_text(n as int)) == Some(seq![SpecTerm::Int(n)]),
{
    let s = decimal_text(n as int);
    let magnitude: nat = if n < 0 { (-n) as nat } else { n as nat };
    let digits = nat_text(magnitude);
    lemma_nat_text(magnitude);
    let d: int = if n < 0 { 1 } else { 0 };
    assert(s.subrange(d, s.len() as int) =~= digits);
    assert(forall|k: int| d <= k < s.len() ==> s[k] == digits[k - d]);
    assert(is_digit(digits[0]));
    assert(!has_sign(s, s.len() as int));
    lemma_digits_end_all(s, d);
    lemma_digits_end_all(s, s.len() as int);
    assert(skip_separators(s, 0) == 0);
    assert(int_at(s, 0) == Some((SpecTerm::Int(n), s.len() as int)));
    assert(int_at(s, s.len() as int) is None);
    assert(term_at(s, s.len() as int) is None);
    assert(terms_from(s, s.len() as int) == (Seq::<SpecTerm>::empty(), s.len() as int));
    assert(skip_separators(s, s.len() as int) == s.len());
    assert(term_at(s, 0) == Some((SpecTerm::Int(n), s.len() as int)));
    assert(s.len() >= 1);
    assert(terms_from(s, 0).0 =~= seq![SpecTerm::Int(n)] + Seq::<SpecTerm>::empty());
    assert(terms_from(s, 0).1 == s.len());
}

/// Nothing but separators follow the end of the text.
proof fn lemma_nothing_at_end(s: Seq<char>)
    ensures
        term_at(s, s.len() as int) is None,
        terms_from(s, s.len() as int) == (Seq::<SpecTerm>::empty(), s.len() as int),
{
    assert(digits_end(s, s.len() as int) == s.len());
    assert(int_at(s, s.len() as int) is None);
}

/// A text of nothing but white space and comments is the empty program.
pub proof fn lemma_separators_only(s: Seq<char>)
    requires
        skip_separators(s, 0) == s.len(),
    ensures
        parse_spec(s) == Some(Seq::<SpecTerm>::empty()),
{
    lemma_nothing_at_end(s);
}

} // verus!
