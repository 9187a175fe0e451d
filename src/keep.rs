use vstd::prelude::*;
use crate::eval::{eval_term, eval_list, slot, reference_children};
use crate::matcher::{match_term, match_pairs, match_all, match_any, match_window, FOLLOW_LIMIT};
use crate::node::{Term, ordinary, lemma_ordinary_group};
use crate::rule::{apply_rule, apply_first, after_passes};

verus! {

/// The children of a node that has a list of them, each smaller than the node.
pub proof fn lemma_children_smaller(t: Term)
    ensures
        t is Group ==> forall|i: int| 0 <= i < t->Group_1.len() ==> decreases_to!(t => #[trigger] t->Group_1[i]),
        t is Sequence ==> forall|i: int| 0 <= i < t->Sequence_1.len() ==> decreases_to!(t => #[trigger] t->Sequence_1[i]),
        t is Conjunctor ==> forall|i: int| 0 <= i < t->Conjunctor_0.len() ==> decreases_to!(t => #[trigger] t->Conjunctor_0[i]),
        t is Disjunctor ==> forall|i: int| 0 <= i < t->Disjunctor_0.len() ==> decreases_to!(t => #[trigger] t->Disjunctor_0[i]),
{
    if t is Group {
        assert forall|i: int| 0 <= i < t->Group_1.len() implies decreases_to!(t => #[trigger] t->Group_1[i]) by {
            assert(decreases_to!(t => t->Group_1));
            assert(decreases_to!(t->Group_1 => t->Group_1[i]));
        }
    }
    if t is Sequence {
        assert forall|i: int| 0 <= i < t->Sequence_1.len() implies decreases_to!(t => #[trigger] t->Sequence_1[i]) by {
            assert(decreases_to!(t => t->Sequence_1));
            assert(decreases_to!(t->Sequence_1 => t->Sequence_1[i]));
        }
    }
    if t is Conjunctor {
        assert forall|i: int| 0 <= i < t->Conjunctor_0.len() implies decreases_to!(t => #[trigger] t->Conjunctor_0[i]) by {
            assert(decreases_to!(t => t->Conjunctor_0));
            assert(decreases_to!(t->Conjunctor_0 => t->Conjunctor_0[i]));
        }
    }
    if t is Disjunctor {
        assert forall|i: int| 0 <= i < t->Disjunctor_0.len() implies decreases_to!(t => #[trigger] t->Disjunctor_0[i]) by {
            assert(decreases_to!(t => t->Disjunctor_0));
            assert(decreases_to!(t->Disjunctor_0 => t->Disjunctor_0[i]));
        }
    }
}

/// Every sequence variable of pattern `p` is in `seqs`.
pub open spec fn seq_vars_within(p: Term, seqs: Set<usize>) -> bool
    decreases p,
{
    match p {
        Term::Group(_, ps) => forall|i: int| 0 <= i < ps.len() ==> seq_vars_within(#[trigger] ps[i], seqs),
        Term::Sequence(v, ps) => seqs.contains(v) && forall|i: int| 0 <= i < ps.len() ==> seq_vars_within(#[trigger] ps[i], seqs),
        Term::Conjunctor(ps) => forall|i: int| 0 <= i < ps.len() ==> seq_vars_within(#[trigger] ps[i], seqs),
        Term::Disjunctor(ps) => forall|i: int| 0 <= i < ps.len() ==> seq_vars_within(#[trigger] ps[i], seqs),
        Term::Negator(q) => seq_vars_within(*q, seqs),
        _ => true,
    }
}

/// Template `tpl` is made of atoms, groups, sequences, and match points whose
/// variables are not in `seqs`.
pub open spec fn builds_ordinary(tpl: Term, seqs: Set<usize>) -> bool
    decreases tpl,
{
    match tpl {
        Term::Atom(_) => true,
        Term::Group(_, ls) => forall|i: int| 0 <= i < ls.len() ==> builds_ordinary(#[trigger] ls[i], seqs),
        Term::Sequence(_, ls) => forall|i: int| 0 <= i < ls.len() ==> builds_ordinary(#[trigger] ls[i], seqs),
        Term::MatchPoint(v) => !seqs.contains(v),
        _ => false,
    }
}

/// Every variable is bound to an ordinary node, or, if it is in `seqs`, to a splice.
pub open spec fn env_ordinary_outside(env: Map<usize, Term>, seqs: Set<usize>) -> bool {
    forall|k: usize| #[trigger] env.contains_key(k) ==> ordinary(env[k]) || (seqs.contains(k) && env[k] is SplicePair)
}

/// An ordinary node has no sequence variables at all.
proof fn lemma_ordinary_seq_free(b: Term, seqs: Set<usize>)
    requires
        ordinary(b),
    ensures
        seq_vars_within(b, seqs),
    decreases b,
{
    lemma_children_smaller(b);
    if b is Group {
        lemma_ordinary_group(b);
        assert forall|i: int| 0 <= i < b->Group_1.len() implies seq_vars_within(#[trigger] b->Group_1[i], seqs) by {
            lemma_ordinary_seq_free(b->Group_1[i], seqs);
        }
    }
}

/// A rule whose template builds ordinary trees from what its pattern binds:
/// no match point of the template names a sequence variable of the pattern,
/// and the template holds no combinator, splice or `NoNode`.
pub open spec fn keeps_ordinary(rule: (Term, Term)) -> bool {
    exists|seqs: Set<usize>| seq_vars_within(rule.0, seqs) && builds_ordinary(rule.1, seqs)
}

/// The outcome leaves the environment ordinary outside `seqs` whenever it succeeds.
pub open spec fn outcome_ordinary_outside(r: Result<(bool, Map<usize, Term>), crate::node::RewriteError>, seqs: Set<usize>) -> bool {
    r is Ok && r->Ok_0.0 ==> env_ordinary_outside(r->Ok_0.1, seqs)
}

proof fn lemma_pairs_keep(ps: Seq<Term>, ts: Seq<Term>, j: int, env: Map<usize, Term>, seqs: Set<usize>, fuel: nat)
    requires
        0 <= j,
        ps.len() <= ts.len(),
        forall|i: int| 0 <= i < ps.len() ==> seq_vars_within(#[trigger] ps[i], seqs),
        forall|i: int| 0 <= i < ts.len() ==> ordinary(#[trigger] ts[i]),
        env_ordinary_outside(env, seqs),
    ensures
        outcome_ordinary_outside(match_pairs(ps, ts, j, env, fuel), seqs),
    decreases fuel, ps, 0nat, ps.len() - j,
{
    if j < ps.len() {
        lemma_match_keeps(ps[j], ts[j], env, seqs, fuel);
        if let Ok((true, e1)) = match_term(ps[j], ts[j], env, fuel) {
            lemma_pairs_keep(ps, ts, j + 1, e1, seqs, fuel);
        }
    }
}

proof fn lemma_all_keep(ps: Seq<Term>, t: Term, j: int, env: Map<usize, Term>, seqs: Set<usize>, fuel: nat)
    requires
        0 <= j,
        forall|i: int| 0 <= i < ps.len() ==> seq_vars_within(#[trigger] ps[i], seqs),
        ordinary(t),
        env_ordinary_outside(env, seqs),
    ensures
        outcome_ordinary_outside(match_all(ps, t, j, env, fuel), seqs),
    decreases fuel, ps, 0nat, ps.len() - j,
{
    if j < ps.len() {
        lemma_match_keeps(ps[j], t, env, seqs, fuel);
        if let Ok((true, e1)) = match_term(ps[j], t, env, fuel) {
            lemma_all_keep(ps, t, j + 1, e1, seqs, fuel);
        }
    }
}

proof fn lemma_any_keep(ps: Seq<Term>, t: Term, j: int, env: Map<usize, Term>, seqs: Set<usize>, fuel: nat)
    requires
        0 <= j,
        forall|i: int| 0 <= i < ps.len() ==> seq_vars_within(#[trigger] ps[i], seqs),
        ordinary(t),
        env_ordinary_outside(env, seqs),
    ensures
        outcome_ordinary_outside(match_any(ps, t, j, env, fuel), seqs),
    decreases fuel, ps, 0nat, ps.len() - j,
{
    if j < ps.len() {
        lemma_match_keeps(ps[j], t, env, seqs, fuel);
        lemma_any_keep(ps, t, j + 1, env, seqs, fuel);
    }
}

proof fn lemma_window_keep(v: usize, ps: Seq<Term>, ts: Seq<Term>, env: Map<usize, Term>, i: int, seqs: Set<usize>, fuel: nat)
    requires
        0 <= i,
        seqs.contains(v),
        forall|k: int| 0 <= k < ps.len() ==> seq_vars_within(#[trigger] ps[k], seqs),
        forall|k: int| 0 <= k < ts.len() ==> ordinary(#[trigger] ts[k]),
        env_ordinary_outside(env, seqs),
    ensures
        outcome_ordinary_outside(match_window(v, ps, ts, env, i, fuel), seqs),
    decreases fuel, ps, 1nat, ts.len() + 1 - i,
{
    if i + ps.len() <= ts.len() {
        let w = ts.subrange(i, i + ps.len());
        assert forall|k: int| 0 <= k < w.len() implies ordinary(#[trigger] w[k]) by {
            assert(w[k] == ts[i + k]);
        }
        lemma_pairs_keep(ps, w, 0, env, seqs, fuel);
        lemma_window_keep(v, ps, ts, env, i + 1, seqs, fuel);
        if let Ok((true, e1)) = match_pairs(ps, w, 0, env, fuel) {
            let e2 = e1.insert(v, Term::SplicePair(i as nat, ps.len()));
            assert(env_ordinary_outside(e2, seqs));
        }
    }
}

/// Matching an ordinary target keeps every variable outside the sequence
/// variables bound to an ordinary node.
pub proof fn lemma_match_keeps(p: Term, t: Term, env: Map<usize, Term>, seqs: Set<usize>, fuel: nat)
    requires
        seq_vars_within(p, seqs),
        ordinary(t),
        env_ordinary_outside(env, seqs),
    ensures
        outcome_ordinary_outside(match_term(p, t, env, fuel), seqs),
    decreases fuel, p, 2nat, 0int,
{
    lemma_children_smaller(p);
    match p {
        Term::Group(n, ps) => {
            if t is Group && t->Group_0 == n && t->Group_1.len() == ps.len() {
                lemma_ordinary_group(t);
                lemma_pairs_keep(ps, t->Group_1, 0, env, seqs, fuel);
                assert(match_term(p, t, env, fuel) == match_pairs(ps, t->Group_1, 0, env, fuel));
            }
        },
        Term::MatchPoint(v) => {
            if !env.contains_key(v) {
                assert(env_ordinary_outside(env.insert(v, t), seqs));
            } else if fuel > 0 && ordinary(env[v]) {
                lemma_ordinary_seq_free(env[v], seqs);
                lemma_match_keeps(env[v], t, env, seqs, (fuel - 1) as nat);
            }
        },
        Term::Sequence(v, ps) => {
            if t is Group {
                lemma_ordinary_group(t);
                lemma_window_keep(v, ps, t->Group_1, env, 0, seqs, fuel);
                assert(match_term(p, t, env, fuel) == match_window(v, ps, t->Group_1, env, 0, fuel));
            }
        },
        Term::Conjunctor(ps) => {
            lemma_all_keep(ps, t, 0, env, seqs, fuel);
            assert(match_term(p, t, env, fuel) == match_all(ps, t, 0, env, fuel));
        },
        Term::Disjunctor(ps) => {
            lemma_any_keep(ps, t, 0, env, seqs, fuel);
            assert(match_term(p, t, env, fuel) == match_any(ps, t, 0, env, fuel));
        },
        _ => {},
    }
}

proof fn lemma_eval_list_keeps(ls: Seq<Term>, rs: Seq<Term>, off: int, n: int, env: Map<usize, Term>, seqs: Set<usize>)
    requires
        forall|i: int| 0 <= i < ls.len() ==> builds_ordinary(#[trigger] ls[i], seqs),
        forall|i: int| 0 <= i < rs.len() ==> ordinary(#[trigger] rs[i]),
        env_ordinary_outside(env, seqs),
    ensures
        eval_list(ls, rs, off, n, env) is Ok ==> forall|i: int|
            0 <= i < eval_list(ls, rs, off, n, env)->Ok_0.len() ==> ordinary(#[trigger] eval_list(ls, rs, off, n, env)->Ok_0[i]),
    decreases ls, 0nat, n,
{
    if 0 < n <= ls.len() {
        lemma_eval_list_keeps(ls, rs, off, n - 1, env, seqs);
        let r = slot(rs, off + n - 1);
        lemma_eval_keeps(ls[n - 1], r, env, seqs);
    }
}

/// A template that builds ordinary trees, evaluated against an ordinary
/// reference (or `NoNode`) under bindings that are ordinary outside the
/// sequence variables, gives an ordinary tree.
pub proof fn lemma_eval_keeps(tpl: Term, reference: Term, env: Map<usize, Term>, seqs: Set<usize>)
    requires
        builds_ordinary(tpl, seqs),
        ordinary(reference) || reference == Term::NoNode,
        env_ordinary_outside(env, seqs),
    ensures
        eval_term(tpl, reference, env) is Ok ==> ordinary(eval_term(tpl, reference, env)->Ok_0),
    decreases tpl, 1nat, 0int,
{
    lemma_children_smaller(tpl);
    match tpl {
        Term::Group(n, ls) => {
            let rs = reference_children(reference);
            if reference is Group {
                lemma_ordinary_group(reference);
            }
            lemma_eval_list_keeps(ls, rs, 0, ls.len() as int, env, seqs);
            if let Ok(cs) = eval_list(ls, rs, 0, ls.len() as int, env) {
                lemma_ordinary_group(Term::Group(n, cs));
            }
        },
        Term::Sequence(v, ls) => {
            if reference is Group && env.contains_key(v) && env[v] is SplicePair {
                lemma_ordinary_group(reference);
                let rs = reference->Group_1;
                let start = env[v]->SplicePair_0;
                let len = env[v]->SplicePair_1;
                let prefix = rs.subrange(0, if start <= rs.len() { start as int } else { rs.len() as int });
                let suffix = if start + len < rs.len() { rs.subrange((start + len) as int, rs.len() as int) } else { Seq::empty() };
                lemma_eval_list_keeps(ls, rs, start as int, ls.len() as int, env, seqs);
                if let Ok(cs) = eval_list(ls, rs, start as int, ls.len() as int, env) {
                    let all = prefix + cs + suffix;
                    assert forall|i: int| 0 <= i < all.len() implies ordinary(#[trigger] all[i]) by {
                        if i < prefix.len() {
                            assert(all[i] == prefix[i]);
                        } else if i < prefix.len() + cs.len() {
                            assert(all[i] == cs[i - prefix.len()]);
                        } else {
                            assert(all[i] == suffix[i - prefix.len() - cs.len()]);
                        }
                    }
                    lemma_ordinary_group(Term::Group(reference->Group_0, all));
                }
            }
        },
        _ => {},
    }
}

/// A rule that keeps trees ordinary, applied to an ordinary tree, gives an
/// ordinary tree when it fires.
pub proof fn lemma_rule_keeps(rule: (Term, Term), t: Term)
    requires
        keeps_ordinary(rule),
        ordinary(t),
    ensures
        apply_rule(rule, t) is Ok && apply_rule(rule, t)->Ok_0.0 ==> ordinary(apply_rule(rule, t)->Ok_0.1),
{
    let seqs = choose|seqs: Set<usize>| seq_vars_within(rule.0, seqs) && builds_ordinary(rule.1, seqs);
    assert(env_ordinary_outside(Map::<usize, Term>::empty(), seqs));
    lemma_match_keeps(rule.0, t, Map::empty(), seqs, FOLLOW_LIMIT as nat);
    if let Ok((true, env)) = match_term(rule.0, t, Map::empty(), FOLLOW_LIMIT as nat) {
        lemma_eval_keeps(rule.1, t, env, seqs);
    }
}

proof fn lemma_first_keeps(rules: Seq<(Term, Term)>, t: Term, j: int)
    requires
        forall|k: int| 0 <= k < rules.len() ==> keeps_ordinary(#[trigger] rules[k]),
        ordinary(t),
    ensures
        apply_first(rules, t, j) is Ok && apply_first(rules, t, j)->Ok_0.0 ==> ordinary(apply_first(rules, t, j)->Ok_0.1),
    decreases rules.len() - j,
{
    if 0 <= j < rules.len() {
        lemma_rule_keeps(rules[j], t);
        lemma_first_keeps(rules, t, j + 1);
    }
}

/// Starting from an ordinary tree, with rules whose templates build ordinary
/// trees from what their patterns bind, every tree the driver reaches is
/// ordinary: pattern nodes never appear in its result.
pub proof fn lemma_run_keeps_ordinary(rules: Seq<(Term, Term)>, t: Term, n: nat)
    requires
        ordinary(t),
        forall|k: int| 0 <= k < rules.len() ==> keeps_ordinary(#[trigger] rules[k]),
    ensures
        after_passes(rules, t, n) is Some ==> ordinary(after_passes(rules, t, n)->Some_0),
    decreases n,
{
    if n > 0 {
        lemma_run_keeps_ordinary(rules, t, (n - 1) as nat);
        if let Some(u) = after_passes(rules, t, (n - 1) as nat) {
            lemma_first_keeps(rules, u, 0);
        }
    }
}

} // verus!
