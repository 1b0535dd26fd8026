//! Properties of every translation, stated over the models of the parser
//! and the translator.
use vstd::prelude::*;

use crate::assembly::{Instruction, Mnemonic, Operand, Symbol};
use crate::ast::SpecTerm;
use crate::parser::{lemma_separators_only, parse_spec, skip_separators};
use crate::templates::{
    bind_code, epilogue_text, fixed_code, prelude_bss, prelude_rodata, prelude_text, push_code,
    put_code, take_code,
};
use crate::translator::{
    join, lookup, program_code, term_code, term_demand, terms_code, terms_demand, Emitted,
};

verus! {

/// A text of nothing but white space and comments parses to no terms, and
/// translates to the program that only sets up the stack and exits with
/// status 0.
pub proof fn lemma_blank_program(s: Seq<char>)
    requires
        skip_separators(s, 0) == s.len(),
    ensures
        parse_spec(s) == Some(Seq::<SpecTerm>::empty()),
        program_code(Seq::empty()) == Ok::<_, Seq<char>>(
            (
                prelude_rodata(),
                prelude_bss(),
                prelude_text() + epilogue_text(),
                Seq::<Instruction>::empty(),
            ),
        ),
{
    lemma_separators_only(s);
    let e = terms_code(Seq::empty(), Seq::empty(), 0)->Ok_0;
    assert(prelude_bss() + e.cells =~= prelude_bss());
    assert(prelude_text() + e.main + epilogue_text() =~= prelude_text() + epilogue_text());
}

/// The terms in the order in which they are written: each list is followed
/// by the terms of its body.
pub open spec fn written_order(ts: Seq<SpecTerm>) -> Seq<SpecTerm>
    decreases ts,
{
    if ts.len() == 0 {
        Seq::empty()
    } else {
        term_written(ts[0]) + written_order(ts.subrange(1, ts.len() as int))
    }
}

/// A term followed, if it is a list, by the terms of its body in the order
/// in which they are written.
pub open spec fn term_written(t: SpecTerm) -> Seq<SpecTerm>
    decreases t,
{
    match t {
        SpecTerm::List(body) => seq![t] + written_order(body),
        _ => seq![t],
    }
}

/// The identifiers that some `Bind` among `w` introduces.
pub open spec fn binds_in(w: Seq<SpecTerm>) -> Set<Seq<char>> {
    Set::new(|n: Seq<char>| exists|j: int| 0 <= j < w.len() && w[j] == SpecTerm::Bind(n))
}

/// Some `Put` among `w` names an identifier that is neither `known` nor
/// introduced by a `Bind` before it.
pub open spec fn unbound_put(w: Seq<SpecTerm>, known: Set<Seq<char>>) -> bool {
    exists|i: int|
        0 <= i < w.len() && #[trigger] w[i] is Put && !known.contains(w[i]->Put_0) && !binds_in(
            w.take(i),
        ).contains(w[i]->Put_0)
}

/// The identifiers that have cells.
pub open spec fn env_names(env: Seq<(Seq<char>, u64)>) -> Set<Seq<char>> {
    Set::new(|n: Seq<char>| exists|k: int| 0 <= k < env.len() && env[k].0 == n)
}

proof fn lemma_lookup(env: Seq<(Seq<char>, u64)>, name: Seq<char>)
    ensures
        lookup(env, name) is Some <==> env_names(env).contains(name),
    decreases env.len(),
{
    if env.len() > 0 {
        lemma_lookup(env.drop_last(), name);
        if env_names(env).contains(name) && env.last().0 != name {
            let k = choose|k: int| 0 <= k < env.len() && env[k].0 == name;
            assert(env.drop_last()[k].0 == name);
        }
        if env_names(env.drop_last()).contains(name) {
            let k = choose|k: int| 0 <= k < env.len() - 1 && env.drop_last()[k].0 == name;
            assert(env[k].0 == name);
        }
        if env.last().0 == name {
            assert(env[env.len() - 1].0 == name);
        }
    }
}

proof fn lemma_env_names_push(env: Seq<(Seq<char>, u64)>, name: Seq<char>, id: u64)
    ensures
        env_names(env.push((name, id))) == env_names(env).insert(name),
{
    let pushed = env.push((name, id));
    assert forall|n: Seq<char>| env_names(pushed).contains(n) implies env_names(env).insert(
        name,
    ).contains(n) by {
        let k = choose|k: int| 0 <= k < pushed.len() && pushed[k].0 == n;
        if k < env.len() {
            assert(env[k].0 == n);
        }
    }
    assert forall|n: Seq<char>| env_names(env).insert(name).contains(n) implies env_names(
        pushed,
    ).contains(n) by {
        if n == name {
            assert(pushed[env.len() as int].0 == n);
        } else {
            let k = choose|k: int| 0 <= k < env.len() && env[k].0 == n;
            assert(pushed[k].0 == n);
        }
    }
    assert(env_names(pushed) =~= env_names(env).insert(name));
}

proof fn lemma_binds_in_concat(a: Seq<SpecTerm>, b: Seq<SpecTerm>)
    ensures
        binds_in(a + b) == binds_in(a) + binds_in(b),
{
    let ab = a + b;
    assert forall|n: Seq<char>| binds_in(ab).contains(n) implies (binds_in(a) + binds_in(
        b,
    )).contains(n) by {
        let j = choose|j: int| 0 <= j < ab.len() && ab[j] == SpecTerm::Bind(n);
        if j < a.len() {
            assert(a[j] == SpecTerm::Bind(n));
        } else {
            assert(b[j - a.len()] == SpecTerm::Bind(n));
        }
    }
    assert forall|n: Seq<char>| (binds_in(a) + binds_in(b)).contains(n) implies binds_in(
        ab,
    ).contains(n) by {
        if binds_in(a).contains(n) {
            let j = choose|j: int| 0 <= j < a.len() && a[j] == SpecTerm::Bind(n);
            assert(ab[j] == SpecTerm::Bind(n));
        } else {
            let j = choose|j: int| 0 <= j < b.len() && b[j] == SpecTerm::Bind(n);
            assert(ab[a.len() + j] == SpecTerm::Bind(n));
        }
    }
    assert(binds_in(ab) =~= binds_in(a) + binds_in(b));
}

proof fn lemma_unbound_concat(a: Seq<SpecTerm>, b: Seq<SpecTerm>, known: Set<Seq<char>>)
    ensures
        unbound_put(a + b, known) <==> unbound_put(a, known) || unbound_put(
            b,
            known + binds_in(a),
        ),
{
    let ab = a + b;
    if unbound_put(ab, known) {
        let i = choose|i: int|
            0 <= i < ab.len() && #[trigger] ab[i] is Put && !known.contains(ab[i]->Put_0)
                && !binds_in(ab.take(i)).contains(ab[i]->Put_0);
        if i < a.len() {
            assert(ab.take(i) =~= a.take(i));
            assert(a[i] == ab[i]);
        } else {
            let k = i - a.len();
            assert(ab.take(i) =~= a + b.take(k));
            lemma_binds_in_concat(a, b.take(k));
            assert(b[k] == ab[i]);
        }
    }
    if unbound_put(a, known) {
        let i = choose|i: int|
            0 <= i < a.len() && #[trigger] a[i] is Put && !known.contains(a[i]->Put_0)
                && !binds_in(a.take(i)).contains(a[i]->Put_0);
        assert(ab.take(i) =~= a.take(i));
        assert(ab[i] == a[i]);
    }
    if unbound_put(b, known + binds_in(a)) {
        let k = choose|k: int|
            0 <= k < b.len() && #[trigger] b[k] is Put && !(known + binds_in(a)).contains(
                b[k]->Put_0,
            ) && !binds_in(b.take(k)).contains(b[k]->Put_0);
        let i = a.len() + k;
        assert(ab.take(i) =~= a + b.take(k));
        lemma_binds_in_concat(a, b.take(k));
        assert(ab[i] == b[k]);
    }
}

proof fn lemma_single(t: SpecTerm, known: Set<Seq<char>>)
    ensures
        unbound_put(seq![t], known) <==> (t is Put && !known.contains(t->Put_0)),
        binds_in(seq![t]) == (if t is Bind {
            set![t->Bind_0]
        } else {
            Set::<Seq<char>>::empty()
        }),
{
    let w = seq![t];
    assert(w.take(0) =~= Seq::<SpecTerm>::empty());
    assert(binds_in(Seq::<SpecTerm>::empty()) =~= Set::<Seq<char>>::empty());
    if t is Put && !known.contains(t->Put_0) {
        assert(w[0] is Put);
    }
    if t is Bind {
        assert(w[0] == SpecTerm::Bind(t->Bind_0));
        assert(binds_in(w) =~= set![t->Bind_0]);
    } else {
        assert(binds_in(w) =~= Set::<Seq<char>>::empty());
    }
}

proof fn lemma_term_unbound(t: SpecTerm, env: Seq<(Seq<char>, u64)>, count: nat)
    ensures
        term_code(t, env, count) is Err <==> unbound_put(term_written(t), env_names(env)),
        term_code(t, env, count) is Ok ==> env_names(term_code(t, env, count)->Ok_0.env)
            == env_names(env) + binds_in(term_written(t)),
    decreases t,
{
    let known = env_names(env);
    lemma_single(t, known);
    match t {
        SpecTerm::List(body) => {
            lemma_terms_unbound(body, env, count + 1);
            lemma_unbound_concat(seq![t], written_order(body), known);
            lemma_binds_in_concat(seq![t], written_order(body));
            assert(known + Set::<Seq<char>>::empty() =~= known);
            assert(Set::<Seq<char>>::empty() + binds_in(written_order(body)) =~= binds_in(
                written_order(body),
            ));
        },
        SpecTerm::Bind(name) => {
            lemma_lookup(env, name);
            if lookup(env, name) is None {
                lemma_env_names_push(env, name, (count + 1) as u64);
            }
            assert(known + set![name] =~= known.insert(name));
            assert(known.contains(name) ==> known.insert(name) =~= known);
        },
        SpecTerm::Put(name) => {
            lemma_lookup(env, name);
            assert(known + Set::<Seq<char>>::empty() =~= known);
        },
        _ => {
            assert(known + Set::<Seq<char>>::empty() =~= known);
        },
    }
}

proof fn lemma_terms_unbound(ts: Seq<SpecTerm>, env: Seq<(Seq<char>, u64)>, count: nat)
    ensures
        terms_code(ts, env, count) is Err <==> unbound_put(written_order(ts), env_names(env)),
        terms_code(ts, env, count) is Ok ==> env_names(terms_code(ts, env, count)->Ok_0.env)
            == env_names(env) + binds_in(written_order(ts)),
    decreases ts,
{
    let known = env_names(env);
    if ts.len() == 0 {
        assert(binds_in(Seq::<SpecTerm>::empty()) =~= Set::<Seq<char>>::empty());
        assert(known + Set::<Seq<char>>::empty() =~= known);
    } else {
        let rest = ts.subrange(1, ts.len() as int);
        lemma_term_unbound(ts[0], env, count);
        lemma_unbound_concat(term_written(ts[0]), written_order(rest), known);
        lemma_binds_in_concat(term_written(ts[0]), written_order(rest));
        match term_code(ts[0], env, count) {
            Ok(first) => {
                lemma_terms_unbound(rest, first.env, first.count);
                assert(known + binds_in(term_written(ts[0])) + binds_in(written_order(rest))
                    =~= known + (binds_in(term_written(ts[0])) + binds_in(written_order(rest))));
            },
            Err(_) => {},
        }
    }
}

/// Translation fails exactly when some `Put`, in the order in which the
/// program is written, names an identifier that no `Bind` before it
/// introduced; it never falls back to some default value.
pub proof fn lemma_unbound_put_fails(ts: Seq<SpecTerm>)
    ensures
        program_code(ts) is Err <==> unbound_put(written_order(ts), Set::empty()),
{
    lemma_terms_unbound(ts, Seq::empty(), 0);
    assert(env_names(Seq::empty()) =~= Set::<Seq<char>>::empty());
}

/// How many times `l` is defined as a label in `s`.
pub open spec fn label_count(s: Seq<Instruction>, l: Symbol) -> nat
    decreases s.len(),
{
    if s.len() == 0 {
        0
    } else {
        label_count(s.drop_last(), l) + if s.last() == Instruction::Label(l) {
            1nat
        } else {
            0nat
        }
    }
}

/// Everything that was emitted, in one sequence.
pub open spec fn all_code(e: Emitted) -> Seq<Instruction> {
    e.main + e.tail + e.cells
}

/// No label is defined twice in `e`, and each defined label is a
/// generated one numbered above `lo` and at most `hi`.
pub open spec fn labels_fresh(e: Emitted, lo: nat, hi: nat) -> bool {
    forall|l: Symbol|
        #![trigger label_count(all_code(e), l)]
        label_count(all_code(e), l) <= 1 && (label_count(all_code(e), l) > 0 ==> (
        l is Generated && lo < l->Generated_0 <= hi))
}

proof fn lemma_label_count_concat(a: Seq<Instruction>, b: Seq<Instruction>, l: Symbol)
    ensures
        label_count(a + b, l) == label_count(a, l) + label_count(b, l),
    decreases b.len(),
{
    if b.len() > 0 {
        lemma_label_count_concat(a, b.drop_last(), l);
        assert((a + b).drop_last() =~= a + b.drop_last());
    } else {
        assert(a + b =~= a);
    }
}

proof fn lemma_no_labels(s: Seq<Instruction>, l: Symbol)
    requires
        forall|i: int| 0 <= i < s.len() ==> !(#[trigger] s[i] is Label),
    ensures
        label_count(s, l) == 0,
    decreases s.len(),
{
    if s.len() > 0 {
        assert forall|i: int| 0 <= i < s.drop_last().len() implies !(
        #[trigger] s.drop_last()[i] is Label) by {
            assert(s.drop_last()[i] == s[i]);
        }
        lemma_no_labels(s.drop_last(), l);
        assert(!(s[s.len() - 1] is Label));
    }
}

proof fn lemma_one_label(pre: Seq<Instruction>, post: Seq<Instruction>, d: Symbol, l: Symbol)
    requires
        forall|i: int| 0 <= i < pre.len() ==> !(#[trigger] pre[i] is Label),
        forall|i: int| 0 <= i < post.len() ==> !(#[trigger] post[i] is Label),
    ensures
        label_count(pre + seq![Instruction::Label(d)] + post, l) == if l == d {
            1nat
        } else {
            0nat
        },
{
    lemma_no_labels(pre, l);
    lemma_no_labels(post, l);
    lemma_single_count(Instruction::Label(d), l);
    lemma_label_count_concat(pre, seq![Instruction::Label(d)], l);
    lemma_label_count_concat(pre + seq![Instruction::Label(d)], post, l);
}

proof fn lemma_join_labels(a: Emitted, b: Emitted, l: Symbol)
    ensures
        label_count(all_code(join(a, b)), l) == label_count(all_code(a), l) + label_count(
            all_code(b),
            l,
        ),
{
    lemma_label_count_concat(a.main, b.main, l);
    lemma_label_count_concat(a.tail, b.tail, l);
    lemma_label_count_concat(a.cells, b.cells, l);
    lemma_label_count_concat(a.main + b.main, a.tail + b.tail, l);
    lemma_label_count_concat(a.main + b.main + (a.tail + b.tail), a.cells + b.cells, l);
    lemma_label_count_concat(a.main, a.tail, l);
    lemma_label_count_concat(a.main + a.tail, a.cells, l);
    lemma_label_count_concat(b.main, b.tail, l);
    lemma_label_count_concat(b.main + b.tail, b.cells, l);
    assert(all_code(join(a, b)) =~= a.main + b.main + (a.tail + b.tail) + (a.cells + b.cells));
}

proof fn lemma_fixed_code_unlabelled(t: SpecTerm)
    ensures
        forall|i: int| 0 <= i < fixed_code(t).len() ==> !(#[trigger] fixed_code(t)[i] is Label),
{
}

proof fn lemma_term_labels(t: SpecTerm, env: Seq<(Seq<char>, u64)>, count: nat)
    requires
        term_code(t, env, count) is Ok,
        count + term_demand(t) <= u64::MAX,
    ensures
        count <= term_code(t, env, count)->Ok_0.count <= count + term_demand(t),
        labels_fresh(term_code(t, env, count)->Ok_0, count, term_code(t, env, count)->Ok_0.count),
    decreases t,
{
    let e = term_code(t, env, count)->Ok_0;
    let none = Seq::<Instruction>::empty();
    match t {
        SpecTerm::Take => {
            let repeat = Symbol::Generated((count + 1) as u64);
            let done = Symbol::Generated((count + 2) as u64);
            let code = take_code(repeat, done);
            assert forall|l: Symbol| #![trigger label_count(all_code(e), l)]
                label_count(all_code(e), l) <= 1 && (label_count(all_code(e), l) > 0 ==> (
                l is Generated && count < l->Generated_0 <= e.count)) by {
                assert(all_code(e) =~= code);
                lemma_one_label(code.take(4), code.subrange(5, 11), repeat, l);
                assert(code =~= code.take(11) + seq![Instruction::Label(done)]);
                assert(code.take(11) =~= code.take(4) + seq![Instruction::Label(repeat)]
                    + code.subrange(5, 11));
                lemma_label_count_concat(code.take(11), seq![Instruction::Label(done)], l);
                lemma_single_count(Instruction::Label(done), l);
            }
        },
        SpecTerm::List(body) => {
            let label = Symbol::Generated((count + 1) as u64);
            let inner = terms_code(body, env, count + 1)->Ok_0;
            lemma_terms_labels(body, env, count + 1);
            let ret = seq![Instruction::Op0(Mnemonic::Ret)];
            assert forall|l: Symbol| #![trigger label_count(all_code(e), l)]
                label_count(all_code(e), l) <= 1 && (label_count(all_code(e), l) > 0 ==> (
                l is Generated && count < l->Generated_0 <= e.count)) by {
                let push = push_code(Operand::Addr(label));
                let head = push + seq![Instruction::Label(label)];
                lemma_one_label(push, none, label, l);
                assert(push + seq![Instruction::Label(label)] + none =~= head);
                lemma_no_labels(ret, l);
                assert(all_code(e) =~= head + inner.main + ret + inner.tail + inner.cells);
                lemma_label_count_concat(head, inner.main, l);
                lemma_label_count_concat(head + inner.main, ret, l);
                lemma_label_count_concat(head + inner.main + ret, inner.tail, l);
                lemma_label_count_concat(head + inner.main + ret + inner.tail, inner.cells, l);
                lemma_label_count_concat(inner.main, inner.tail, l);
                lemma_label_count_concat(inner.main + inner.tail, inner.cells, l);
                assert(all_code(inner) == inner.main + inner.tail + inner.cells);
                assert(label_count(all_code(inner), l) <= 1);
            }
        },
        SpecTerm::Bind(name) => {
            assert forall|l: Symbol| #![trigger label_count(all_code(e), l)]
                label_count(all_code(e), l) <= 1 && (label_count(all_code(e), l) > 0 ==> (
                l is Generated && count < l->Generated_0 <= e.count)) by {
                match lookup(env, name) {
                    Some(id) => {
                        assert(all_code(e) =~= bind_code(Symbol::Generated(id)));
                        lemma_no_labels(bind_code(Symbol::Generated(id)), l);
                    },
                    None => {
                        let cell = Symbol::Generated((count + 1) as u64);
                        let pre = bind_code(cell);
                        let post = seq![Instruction::Op1(Mnemonic::Resd, Operand::Imm(1))];
                        assert(all_code(e) =~= pre + seq![Instruction::Label(cell)] + post);
                        lemma_one_label(pre, post, cell, l);
                    },
                }
            }
        },
        SpecTerm::Put(name) => {
            let id = lookup(env, name)->Some_0;
            assert forall|l: Symbol| #![trigger label_count(all_code(e), l)]
                label_count(all_code(e), l) == 0 by {
                assert(all_code(e) =~= put_code(Symbol::Generated(id)));
                lemma_no_labels(put_code(Symbol::Generated(id)), l);
            }
        },
        _ => {
            lemma_fixed_code_unlabelled(t);
            assert forall|l: Symbol| #![trigger label_count(all_code(e), l)]
                label_count(all_code(e), l) == 0 by {
                assert(all_code(e) =~= fixed_code(t));
                lemma_no_labels(fixed_code(t), l);
            }
        },
    }
}

proof fn lemma_terms_labels(ts: Seq<SpecTerm>, env: Seq<(Seq<char>, u64)>, count: nat)
    requires
        terms_code(ts, env, count) is Ok,
        count + terms_demand(ts) <= u64::MAX,
    ensures
        count <= terms_code(ts, env, count)->Ok_0.count <= count + terms_demand(ts),
        labels_fresh(terms_code(ts, env, count)->Ok_0, count, terms_code(ts, env, count)->Ok_0.count),
    decreases ts,
{
    let e = terms_code(ts, env, count)->Ok_0;
    if ts.len() == 0 {
        assert forall|l: Symbol| #![trigger label_count(all_code(e), l)]
            label_count(all_code(e), l) == 0 by {
            assert(all_code(e) =~= Seq::<Instruction>::empty());
        }
    } else {
        let first = term_code(ts[0], env, count)->Ok_0;
        let rest = terms_code(ts.subrange(1, ts.len() as int), first.env, first.count)->Ok_0;
        lemma_term_labels(ts[0], env, count);
        lemma_terms_labels(ts.subrange(1, ts.len() as int), first.env, first.count);
        assert forall|l: Symbol| #![trigger label_count(all_code(e), l)]
            label_count(all_code(e), l) <= 1 && (label_count(all_code(e), l) > 0 ==> (
            l is Generated && count < l->Generated_0 <= e.count)) by {
            lemma_join_labels(first, rest, l);
            assert(label_count(all_code(first), l) <= 1);
            assert(label_count(all_code(rest), l) <= 1);
        }
    }
}

proof fn lemma_single_count(x: Instruction, l: Symbol)
    ensures
        label_count(seq![x], l) == if x == Instruction::Label(l) {
            1nat
        } else {
            0nat
        },
{
    assert(seq![x].drop_last() =~= Seq::<Instruction>::empty());
    assert(label_count(Seq::<Instruction>::empty(), l) == 0);
}

/// The labels that the fixed parts of every program define.
proof fn lemma_frame_labels(l: Symbol)
    ensures
        label_count(prelude_rodata(), l) == 0,
        label_count(epilogue_text(), l) == 0,
        label_count(prelude_bss(), l) == if l == Symbol::OpStackBase || l == Symbol::OpStack {
            1nat
        } else {
            0nat
        },
        label_count(prelude_text(), l) == if l == Symbol::Start {
            1nat
        } else {
            0nat
        },
{
    lemma_no_labels(prelude_rodata(), l);
    lemma_no_labels(epilogue_text(), l);
    let b = prelude_bss();
    assert(b =~= seq![b[0]] + seq![b[1]] + seq![b[2]] + seq![b[3]] + seq![b[4]]);
    lemma_single_count(b[0], l);
    lemma_single_count(b[1], l);
    lemma_single_count(b[2], l);
    lemma_single_count(b[3], l);
    lemma_single_count(b[4], l);
    lemma_label_count_concat(seq![b[0]], seq![b[1]], l);
    lemma_label_count_concat(seq![b[0]] + seq![b[1]], seq![b[2]], l);
    lemma_label_count_concat(seq![b[0]] + seq![b[1]] + seq![b[2]], seq![b[3]], l);
    lemma_label_count_concat(seq![b[0]] + seq![b[1]] + seq![b[2]] + seq![b[3]], seq![b[4]], l);
    let t = prelude_text();
    lemma_one_label(t.take(5), t.subrange(6, 9), Symbol::Start, l);
    assert(t =~= t.take(5) + seq![Instruction::Label(Symbol::Start)] + t.subrange(6, 9));
}

/// The segments of a program in the order in which they are written out.
pub open spec fn program_lines(
    p: (Seq<Instruction>, Seq<Instruction>, Seq<Instruction>, Seq<Instruction>),
) -> Seq<Instruction> {
    p.0 + p.1 + p.2 + p.3
}

/// A translated program defines no label twice: the labels of list bodies,
/// of `take` loops and of identifier cells are all distinct, and distinct
/// from the fixed labels of the prelude.
pub proof fn lemma_labels_defined_once(ts: Seq<SpecTerm>)
    requires
        program_code(ts) is Ok,
        terms_demand(ts) <= u64::MAX,
    ensures
        forall|l: Symbol| #[trigger] label_count(program_lines(program_code(ts)->Ok_0), l) <= 1,
{
    let e = terms_code(ts, Seq::empty(), 0)->Ok_0;
    lemma_terms_labels(ts, Seq::empty(), 0);
    let (rodata, bss, text, tail) = program_code(ts)->Ok_0;
    assert forall|l: Symbol| #[trigger] label_count(program_lines(program_code(ts)->Ok_0), l) <= 1 by {
        let r = prelude_rodata();
        let b = prelude_bss();
        let t = prelude_text();
        let x = epilogue_text();
        assert(label_count(all_code(e), l) <= 1);
        lemma_frame_labels(l);
        lemma_label_count_concat(e.main, e.tail, l);
        lemma_label_count_concat(e.main + e.tail, e.cells, l);
        lemma_label_count_concat(b, e.cells, l);
        lemma_label_count_concat(t, e.main, l);
        lemma_label_count_concat(t + e.main, x, l);
        lemma_label_count_concat(r, b + e.cells, l);
        lemma_label_count_concat(r + (b + e.cells), t + e.main + x, l);
        lemma_label_count_concat(r + (b + e.cells) + (t + e.main + x), e.tail, l);
        assert(rodata + bss + text + tail =~= r + (b + e.cells) + (t + e.main + x) + e.tail);
    }
}

} // verus!
