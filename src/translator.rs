//! The translator: [`Ast`] to [`Asm`].
//!
//! Each term is translated by a fixed template (see [`crate::templates`]).
//! The body of a list goes to the out-of-line code after a fresh label, and
//! the list pushes that label's address. Each identifier gets a cell of its
//! own in the zero-initialised data the first time a `Bind` names it.
//!
//! Bindings are storage, resolved by name at translation time: a `Bind`
//! pops the top cell into the identifier's cell, overwriting what an earlier
//! `Bind` of the same name stored there, and a `Put` pushes what the cell
//! holds when it runs. A `Put` is accepted only if a `Bind` of the same name
//! stands before it in the written program, inside a list body or not.
use vstd::prelude::*;

use crate::assembly::{Asm, Instruction, Mnemonic, Operand, Symbol};
use crate::ast::{lemma_terms_view_index, term_view, terms_view, Ast, SpecTerm, Term};
use crate::error::CompilerError;
use crate::labels::LabelGenerator;
use crate::templates::{
    bind_code, bind_instrs, cell_code, cell_instrs, epilogue, epilogue_text, fixed_code,
    fixed_instrs, prelude, prelude_bss, prelude_rodata, prelude_text, push_code, push_instrs,
    put_code, put_instrs, take_code, take_instrs,
};

verus! {

/// What translating some terms emits, and the state after them.
pub struct Emitted {
    /// Code that runs in sequence.
    pub main: Seq<Instruction>,
    /// Out-of-line code of list bodies.
    pub tail: Seq<Instruction>,
    /// Storage cells of identifiers.
    pub cells: Seq<Instruction>,
    /// Each bound identifier with the number of its cell's label.
    pub env: Seq<(Seq<char>, u64)>,
    /// Labels handed out so far.
    pub count: nat,
}

/// The cell label of an identifier, if one was bound.
pub open spec fn lookup(env: Seq<(Seq<char>, u64)>, name: Seq<char>) -> Option<u64>
    decreases env.len(),
{
    if env.len() == 0 {
        None
    } else if env.last().0 == name {
        Some(env.last().1)
    } else {
        lookup(env.drop_last(), name)
    }
}

/// What translating `t` emits, given the bound identifiers and the labels
/// handed out so far; or the identifier of a `Put` that nothing bound.
pub open spec fn term_code(t: SpecTerm, env: Seq<(Seq<char>, u64)>, count: nat) -> Result<
    Emitted,
    Seq<char>,
>
    decreases t,
{
    let none = Seq::<Instruction>::empty();
    match t {
        SpecTerm::Take => Ok(
            Emitted {
                main: take_code(
                    Symbol::Generated((count + 1) as u64),
                    Symbol::Generated((count + 2) as u64),
                ),
                tail: none,
                cells: none,
                env,
                count: count + 2,
            },
        ),
        SpecTerm::List(ts) => {
            let label = Symbol::Generated((count + 1) as u64);
            match terms_code(ts, env, count + 1) {
                Ok(body) => Ok(
                    Emitted {
                        main: push_code(Operand::Addr(label)),
                        tail: seq![Instruction::Label(label)] + body.main + seq![
                            Instruction::Op0(Mnemonic::Ret),
                        ] + body.tail,
                        cells: body.cells,
                        env: body.env,
                        count: body.count,
                    },
                ),
                Err(name) => Err(name),
            }
        },
        SpecTerm::Bind(name) => match lookup(env, name) {
            Some(id) => Ok(
                Emitted {
                    main: bind_code(Symbol::Generated(id)),
                    tail: none,
                    cells: none,
                    env,
                    count,
                },
            ),
            None => {
                let cell = Symbol::Generated((count + 1) as u64);
                Ok(
                    Emitted {
                        main: bind_code(cell),
                        tail: none,
                        cells: cell_code(cell),
                        env: env.push((name, (count + 1) as u64)),
                        count: count + 1,
                    },
                )
            },
        },
        SpecTerm::Put(name) => match lookup(env, name) {
            Some(id) => Ok(
                Emitted { main: put_code(Symbol::Generated(id)), tail: none, cells: none, env, count },
            ),
            None => Err(name),
        },
        _ => Ok(Emitted { main: fixed_code(t), tail: none, cells: none, env, count }),
    }
}

/// `a` followed by `b`.
pub open spec fn join(a: Emitted, b: Emitted) -> Emitted {
    Emitted {
        main: a.main + b.main,
        tail: a.tail + b.tail,
        cells: a.cells + b.cells,
        env: b.env,
        count: b.count,
    }
}

/// `a` followed by what `r` emits, or the failure of `r`.
pub open spec fn then_join(a: Emitted, r: Result<Emitted, Seq<char>>) -> Result<Emitted, Seq<char>> {
    match r {
        Ok(b) => Ok(join(a, b)),
        Err(name) => Err(name),
    }
}

/// What translating the terms one after another emits.
pub open spec fn terms_code(ts: Seq<SpecTerm>, env: Seq<(Seq<char>, u64)>, count: nat) -> Result<
    Emitted,
    Seq<char>,
>
    decreases ts,
{
    if ts.len() == 0 {
        Ok(
            Emitted {
                main: Seq::empty(),
                tail: Seq::empty(),
                cells: Seq::empty(),
                env,
                count,
            },
        )
    } else {
        match term_code(ts[0], env, count) {
            Ok(first) => then_join(first, terms_code(ts.subrange(1, ts.len() as int), first.env, first.count)),
            Err(name) => Err(name),
        }
    }
}

/// The most labels that translating a term hands out.
pub open spec fn term_demand(t: SpecTerm) -> nat
    decreases t,
{
    match t {
        SpecTerm::Take => 2,
        SpecTerm::List(ts) => 1 + terms_demand(ts),
        SpecTerm::Bind(_) => 1,
        _ => 0,
    }
}

/// The most labels that translating the terms hands out.
pub open spec fn terms_demand(ts: Seq<SpecTerm>) -> nat
    decreases ts,
{
    if ts.len() == 0 {
        0
    } else {
        term_demand(ts[0]) + terms_demand(ts.subrange(1, ts.len() as int))
    }
}

/// The model of the bound identifiers.
pub open spec fn env_view(env: Seq<(String, u64)>) -> Seq<(Seq<char>, u64)> {
    env.map_values(|p: (String, u64)| (p.0@, p.1))
}

/// `a` holds exactly what `e` says was emitted, with no read-only data.
pub open spec fn holds_emitted(a: Asm, e: Emitted) -> bool {
    &&& a.rodata@ == Seq::<Instruction>::empty()
    &&& a.bss@ == e.cells
    &&& a.text@ == e.main
    &&& a.text_tail@ == e.tail
}

/// What `a` holds, as emitted code.
pub open spec fn emitted_of(a: Asm) -> Emitted {
    Emitted { main: a.text@, tail: a.text_tail@, cells: a.bss@, env: Seq::empty(), count: 0 }
}

proof fn lemma_then_join_assoc(a: Emitted, x: Emitted, r: Result<Emitted, Seq<char>>)
    ensures
        then_join(a, then_join(x, r)) == then_join(join(a, x), r),
{
    match r {
        Ok(b) => {
            assert(a.main + (x.main + b.main) =~= (a.main + x.main) + b.main);
            assert(a.tail + (x.tail + b.tail) =~= (a.tail + x.tail) + b.tail);
            assert(a.cells + (x.cells + b.cells) =~= (a.cells + x.cells) + b.cells);
        },
        Err(_) => {},
    }
}

fn lookup_cell(env: &Vec<(String, u64)>, name: &String) -> (r: Option<u64>)
    ensures
        r == lookup(env_view(env@), name@),
{
    let mut k = env.len();
    assert(env_view(env@).subrange(0, k as int) =~= env_view(env@));
    while k > 0
        invariant
            k <= env.len(),
            lookup(env_view(env@), name@) == lookup(env_view(env@).subrange(0, k as int), name@),
        decreases k,
    {
        let ghost prefix = env_view(env@).subrange(0, k as int);
        assert(prefix.drop_last() =~= env_view(env@).subrange(0, k - 1));
        if env[k - 1].0 == *name {
            return Some(env[k - 1].1);
        }
        k = k - 1;
    }
    assert(env_view(env@).subrange(0, 0) =~= Seq::<(Seq<char>, u64)>::empty());
    None
}

fn translate_term(term: &Term, labels: &mut LabelGenerator, env: &mut Vec<(String, u64)>) -> (r:
    Result<Asm, CompilerError>)
    requires
        old(labels).issued() + term_demand(term@) <= u64::MAX,
    ensures
        match term_code(term@, env_view(old(env)@), old(labels).issued()) {
            Ok(e) => r matches Ok(a) && holds_emitted(a, e) && env_view(final(env)@) == e.env
                && final(labels).issued() == e.count && e.count <= old(labels).issued()
                + term_demand(term@),
            Err(name) => r matches Err(CompilerError::UnboundIdentifier { identifier })
                && identifier@ == name,
        },
    decreases term,
{
    match term {
        Term::Take => {
            let repeat = labels.get_nameless_label();
            let done = labels.get_nameless_label();
            Ok(Asm::empty().text(take_instrs(repeat, done)))
        },
        Term::List { terms } => {
            let label = labels.get_nameless_label();
            match translate_terms(terms, labels, env) {
                Err(e) => Err(e),
                Ok(body) => {
                    let mut body = body;
                    let mut tail = vec![Instruction::Label(label)];
                    tail.append(&mut body.text);
                    tail.push(Instruction::Op0(Mnemonic::Ret));
                    tail.append(&mut body.text_tail);
                    proof {
                        let inner = terms_code(terms_view(terms@), env_view(old(env)@), (old(labels).issued() + 1) as nat)->Ok_0;
                        assert(tail@ =~= seq![Instruction::Label(label)] + inner.main + seq![
                            Instruction::Op0(Mnemonic::Ret),
                        ] + inner.tail);
                    }
                    Ok(Asm::new(Vec::new(), body.bss, push_instrs(Operand::Addr(label)), tail))
                },
            }
        },
        Term::Bind { identifier } => match lookup_cell(env, identifier) {
            Some(id) => Ok(Asm::empty().text(bind_instrs(Symbol::Generated(id)))),
            None => {
                let cell = labels.get_nameless_label();
                let id = match cell {
                    Symbol::Generated(n) => n,
                    _ => 0,
                };
                env.push((identifier.clone(), id));
                proof {
                    assert(env_view(env@) =~= env_view(old(env)@).push((identifier@, id)));
                }
                Ok(Asm::new(Vec::new(), cell_instrs(cell), bind_instrs(cell), Vec::new()))
            },
        },
        Term::Put { identifier } => match lookup_cell(env, identifier) {
            Some(id) => Ok(Asm::empty().text(put_instrs(Symbol::Generated(id)))),
            None => Err(CompilerError::UnboundIdentifier { identifier: identifier.clone() }),
        },
        _ => Ok(Asm::empty().text(fixed_instrs(term))),
    }
}

fn translate_terms(terms: &Vec<Term>, labels: &mut LabelGenerator, env: &mut Vec<(String, u64)>) -> (r:
    Result<Asm, CompilerError>)
    requires
        old(labels).issued() + terms_demand(terms_view(terms@)) <= u64::MAX,
    ensures
        match terms_code(terms_view(terms@), env_view(old(env)@), old(labels).issued()) {
            Ok(e) => r matches Ok(a) && holds_emitted(a, e) && env_view(final(env)@) == e.env
                && final(labels).issued() == e.count && e.count <= old(labels).issued()
                + terms_demand(terms_view(terms@)),
            Err(name) => r matches Err(CompilerError::UnboundIdentifier { identifier })
                && identifier@ == name,
        },
    decreases terms,
{
    let ghost whole = terms_view(terms@);
    let ghost env0 = env_view(env@);
    let ghost c0 = labels.issued();
    proof {
        lemma_terms_view_index(terms@);
        assert(whole.subrange(0, whole.len() as int) =~= whole);
    }
    let mut acc = Asm::empty();
    let mut i: usize = 0;
    while i < terms.len()
        invariant
            whole == terms_view(terms@),
            env0 == env_view(old(env)@),
            c0 == old(labels).issued(),
            whole.len() == terms@.len(),
            forall|j: int| 0 <= j < terms@.len() ==> #[trigger] whole[j] == term_view(terms@[j]),
            i <= terms.len(),
            acc.rodata@ == Seq::<Instruction>::empty(),
            terms_code(whole, env0, c0) == then_join(
                emitted_of(acc),
                terms_code(whole.subrange(i as int, whole.len() as int), env_view(env@), labels.issued()),
            ),
            labels.issued() + terms_demand(whole.subrange(i as int, whole.len() as int)) <= c0
                + terms_demand(whole),
            c0 + terms_demand(whole) <= u64::MAX,
        decreases terms.len() - i,
    {
        let ghost rest = whole.subrange(i as int, whole.len() as int);
        let ghost env_i = env_view(env@);
        let ghost c_i = labels.issued();
        proof {
            assert(rest[0] == term_view(terms@[i as int]));
            assert(rest.subrange(1, rest.len() as int) =~= whole.subrange(i + 1, whole.len() as int));
            vstd::std_specs::vec::axiom_vec_index_decreases(*terms, i as int);
        }
        match translate_term(&terms[i], labels, env) {
            Err(e) => {
                proof {
                    let name = term_code(rest[0], env_i, c_i)->Err_0;
                    assert(terms_code(rest, env_i, c_i) == Err::<Emitted, Seq<char>>(name));
                    assert(terms_code(whole, env0, c0) == Err::<Emitted, Seq<char>>(name));
                    assert(term_view(terms@[i as int]) == rest[0]);
                    assert(e matches CompilerError::UnboundIdentifier { identifier } && identifier@
                        == name);
                }
                return Err(e);
            },
            Ok(a) => {
                let ghost before = emitted_of(acc);
                acc = acc.append(a);
                proof {
                    let x = term_code(rest[0], env_i, c_i)->Ok_0;
                    let tail_code = terms_code(
                        rest.subrange(1, rest.len() as int),
                        x.env,
                        x.count,
                    );
                    assert(terms_code(rest, env_i, c_i) == then_join(x, tail_code));
                    lemma_then_join_assoc(before, x, tail_code);
                    match tail_code {
                        Ok(b) => {
                            assert(join(emitted_of(acc), b) == join(join(before, x), b));
                        },
                        Err(_) => {},
                    }
                }
                i = i + 1;
            },
        }
    }
    Ok(acc)
}

/// The program that the terms translate to, or the identifier of a `Put`
/// that no earlier `Bind` introduced.
pub open spec fn program_code(ts: Seq<SpecTerm>) -> Result<
    (Seq<Instruction>, Seq<Instruction>, Seq<Instruction>, Seq<Instruction>),
    Seq<char>,
> {
    match terms_code(ts, Seq::empty(), 0) {
        Ok(e) => Ok(
            (
                prelude_rodata(),
                prelude_bss() + e.cells,
                prelude_text() + e.main + epilogue_text(),
                e.tail,
            ),
        ),
        Err(name) => Err(name),
    }
}

/// Translates a program. Every `Put` must name an identifier that a `Bind`
/// earlier in the program introduced; the first `Put` that does not is the
/// error. Otherwise the result is the prelude, the code of the terms in
/// order, the exit, and the code of list bodies out of line.
pub fn translate(ast: &Ast) -> (r: Result<Asm, CompilerError>)
    requires
        terms_demand(ast@) <= u64::MAX,
    ensures
        match program_code(ast@) {
            Ok((rodata, bss, text, text_tail)) => r matches Ok(a) && a.rodata@ == rodata && a.bss@
                == bss && a.text@ == text && a.text_tail@ == text_tail,
            Err(name) => r matches Err(CompilerError::UnboundIdentifier { identifier })
                && identifier@ == name,
        },
{
    let mut labels = LabelGenerator::default();
    let mut env: Vec<(String, u64)> = Vec::new();
    assert(env_view(env@) =~= Seq::<(Seq<char>, u64)>::empty());
    match translate_terms(&ast.terms, &mut labels, &mut env) {
        Err(e) => Err(e),
        Ok(body) => Ok(prelude().append(body).append(epilogue())),
    }
}

/// The most labels that translating a term hands out, or `u64::MAX` if
/// that is more.
fn term_label_demand(term: &Term) -> (r: u64)
    ensures
        r as nat == if term_demand(term@) <= u64::MAX { term_demand(term@) } else { u64::MAX as nat },
    decreases term,
{
    match term {
        Term::Take => 2,
        Term::Bind { .. } => 1,
        Term::List { terms } => {
            let inner = terms_label_demand(terms);
            if inner == u64::MAX { u64::MAX } else { inner + 1 }
        },
        _ => 0,
    }
}

fn terms_label_demand(terms: &Vec<Term>) -> (r: u64)
    ensures
        r as nat == if terms_demand(terms_view(terms@)) <= u64::MAX {
            terms_demand(terms_view(terms@))
        } else {
            u64::MAX as nat
        },
    decreases terms,
{
    let ghost whole = terms_view(terms@);
    proof {
        lemma_terms_view_index(terms@);
    }
    let mut total: u64 = 0;
    let mut i = terms.len();
    assert(whole.subrange(whole.len() as int, whole.len() as int) =~= Seq::<SpecTerm>::empty());
    while i > 0
        invariant
            whole == terms_view(terms@),
            whole.len() == terms@.len(),
            forall|j: int| 0 <= j < terms@.len() ==> #[trigger] whole[j] == term_view(terms@[j]),
            i <= terms.len(),
            total as nat == if terms_demand(whole.subrange(i as int, whole.len() as int)) <= u64::MAX {
                terms_demand(whole.subrange(i as int, whole.len() as int))
            } else {
                u64::MAX as nat
            },
        decreases i,
    {
        i = i - 1;
        proof {
            let rest = whole.subrange(i as int, whole.len() as int);
            assert(rest[0] == term_view(terms@[i as int]));
            assert(rest.subrange(1, rest.len() as int) =~= whole.subrange(i + 1, whole.len() as int));
            vstd::std_specs::vec::axiom_vec_index_decreases(*terms, i as int);
        }
        let d = term_label_demand(&terms[i]);
        total = if total > u64::MAX - d { u64::MAX } else { total + d };
    }
    assert(whole.subrange(0, whole.len() as int) =~= whole);
    total
}

impl Ast {
    /// The most labels that translating this program hands out, or
    /// `u64::MAX` if that is more. [`translate`] needs the demand to be at
    /// most `u64::MAX`, which holds whenever this is less than `u64::MAX`.
    pub fn label_demand(&self) -> (r: u64)
        ensures
            r as nat == if terms_demand(self@) <= u64::MAX { terms_demand(self@) } else { u64::MAX as nat },
    {
        terms_label_demand(&self.terms)
    }
}

} // verus!
