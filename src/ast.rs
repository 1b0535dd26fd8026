//! The abstract syntax tree of the language and its mathematical model.
use vstd::prelude::*;

verus! {

/// One operation or literal of the source language.
#[derive(PartialEq, Debug)]
pub enum Term {
    Int(i32),
    Add,
    Sub,
    Mul,
    Div,
    Print,
    Scan,
    Dup,
    Drop,
    Take,
    List { terms: Vec<Term> },
    Apply,
    If,
    Bool,
    Not,
    And,
    Or,
    Equals,
    NotEquals,
    Less,
    LessEquals,
    Greater,
    GreaterEquals,
    Bind { identifier: String },
    Put { identifier: String },
}

/// The mathematical model of a [`Term`]: vectors become sequences and
/// identifiers become sequences of characters.
pub enum SpecTerm {
    Int(i32),
    Add,
    Sub,
    Mul,
    Div,
    Print,
    Scan,
    Dup,
    Drop,
    Take,
    List(Seq<SpecTerm>),
    Apply,
    If,
    Bool,
    Not,
    And,
    Or,
    Equals,
    NotEquals,
    Less,
    LessEquals,
    Greater,
    GreaterEquals,
    Bind(Seq<char>),
    Put(Seq<char>),
}

/// The model of one term.
pub open spec fn term_view(t: Term) -> SpecTerm
    decreases t,
{
    match t {
        Term::Int(n) => SpecTerm::Int(n),
        Term::Add => SpecTerm::Add,
        Term::Sub => SpecTerm::Sub,
        Term::Mul => SpecTerm::Mul,
        Term::Div => SpecTerm::Div,
        Term::Print => SpecTerm::Print,
        Term::Scan => SpecTerm::Scan,
        Term::Dup => SpecTerm::Dup,
        Term::Drop => SpecTerm::Drop,
        Term::Take => SpecTerm::Take,
        Term::List { terms } => SpecTerm::List(terms_view(terms@)),
        Term::Apply => SpecTerm::Apply,
        Term::If => SpecTerm::If,
        Term::Bool => SpecTerm::Bool,
        Term::Not => SpecTerm::Not,
        Term::And => SpecTerm::And,
        Term::Or => SpecTerm::Or,
        Term::Equals => SpecTerm::Equals,
        Term::NotEquals => SpecTerm::NotEquals,
        Term::Less => SpecTerm::Less,
        Term::LessEquals => SpecTerm::LessEquals,
        Term::Greater => SpecTerm::Greater,
        Term::GreaterEquals => SpecTerm::GreaterEquals,
        Term::Bind { identifier } => SpecTerm::Bind(identifier@),
        Term::Put { identifier } => SpecTerm::Put(identifier@),
    }
}

/// The model of a sequence of terms, element by element.
pub open spec fn terms_view(ts: Seq<Term>) -> Seq<SpecTerm>
    decreases ts,
{
    if ts.len() == 0 {
        Seq::empty()
    } else {
        seq![term_view(ts[0])] + terms_view(ts.subrange(1, ts.len() as int))
    }
}

impl View for Term {
    type V = SpecTerm;

    open spec fn view(&self) -> SpecTerm {
        term_view(*self)
    }
}

/// A whole program: its terms in program order.
#[derive(PartialEq, Debug)]
pub struct Ast {
    pub terms: Vec<Term>,
}

impl View for Ast {
    type V = Seq<SpecTerm>;

    open spec fn view(&self) -> Seq<SpecTerm> {
        terms_view(self.terms@)
    }
}

impl Ast {
    /// The program made of `terms` in order.
    pub fn from_terms(terms: Vec<Term>) -> (r: Ast)
        ensures
            r.terms@ == terms@,
            r@ == terms_view(terms@),
    {
        Ast { terms }
    }
}

/// The model of a sequence of terms has one element, the model of the term,
/// for each term.
pub proof fn lemma_terms_view_index(ts: Seq<Term>)
    ensures
        terms_view(ts).len() == ts.len(),
        forall|i: int| 0 <= i < ts.len() ==> #[trigger] terms_view(ts)[i] == term_view(ts[i]),
    decreases ts.len(),
{
    if ts.len() > 0 {
        let tail = ts.subrange(1, ts.len() as int);
        lemma_terms_view_index(tail);
        assert forall|i: int| 0 <= i < ts.len() implies #[trigger] terms_view(ts)[i] == term_view(
            ts[i],
        ) by {
            if i > 0 {
                assert(terms_view(ts)[i] == terms_view(tail)[i - 1]);
                assert(tail[i - 1] == ts[i]);
            }
        }
    }
}

} // verus!
