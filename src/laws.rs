use vstd::prelude::*;
use crate::matcher::{match_term, match_pairs, match_all, match_any, match_window, Outcome};
use crate::node::{Term, RewriteError, ordinary, lemma_ordinary_group};

verus! {

proof fn lemma_window_failure_keeps_env(v: usize, ps: Seq<Term>, ts: Seq<Term>, env: Map<usize, Term>, i: int, fuel: nat)
    ensures
        match_window(v, ps, ts, env, i, fuel) is Ok && !match_window(v, ps, ts, env, i, fuel)->Ok_0.0
            ==> match_window(v, ps, ts, env, i, fuel)->Ok_0.1 == env,
    decreases ts.len() + 1 - i,
{
    if 0 <= i && i + ps.len() <= ts.len() {
        lemma_window_failure_keeps_env(v, ps, ts, env, i + 1, fuel);
    }
}

proof fn lemma_any_failure_keeps_env(ps: Seq<Term>, t: Term, j: int, env: Map<usize, Term>, fuel: nat)
    ensures
        match_any(ps, t, j, env, fuel) is Ok && !match_any(ps, t, j, env, fuel)->Ok_0.0 ==> match_any(ps, t, j, env, fuel)->Ok_0.1 == env,
    decreases ps.len() - j,
{
    if 0 <= j < ps.len() {
        lemma_any_failure_keeps_env(ps, t, j + 1, env, fuel);
    }
}

/// A match that fails gives back the environment it was given.
pub proof fn lemma_failure_keeps_env(p: Term, t: Term, env: Map<usize, Term>, fuel: nat)
    ensures
        match_term(p, t, env, fuel) is Ok && !match_term(p, t, env, fuel)->Ok_0.0 ==> match_term(p, t, env, fuel)->Ok_0.1 == env,
    decreases fuel,
{
    if let Term::MatchPoint(v) = p {
        if env.contains_key(v) && fuel > 0 {
            lemma_failure_keeps_env(env[v], t, env, (fuel - 1) as nat);
        }
    }
    match p {
        Term::Sequence(v, ps) => {
            if t is Group {
                assert(match_term(p, t, env, fuel) == match_window(v, ps, t->Group_1, env, 0, fuel));
                lemma_window_failure_keeps_env(v, ps, t->Group_1, env, 0, fuel);
            }
        },
        Term::Group(n, ps) => {
            if t is Group && t->Group_0 == n && t->Group_1.len() == ps.len() {
                assert(match_term(p, t, env, fuel) == match_pairs(ps, t->Group_1, 0, env, fuel));
            }
        },
        Term::Conjunctor(ps) => {
            assert(match_term(p, t, env, fuel) == match_all(ps, t, 0, env, fuel));
        },
        Term::Disjunctor(ps) => {
            assert(match_term(p, t, env, fuel) == match_any(ps, t, 0, env, fuel));
            lemma_any_failure_keeps_env(ps, t, 0, env, fuel);
        },
        _ => {},
    }
}

/// A negation succeeds exactly when its pattern fails, and never extends the environment.
pub proof fn lemma_negation(p: Term, t: Term, env: Map<usize, Term>, fuel: nat)
    ensures
        match_term(Term::Negator(Box::new(p)), t, env, fuel) == match match_term(p, t, env, fuel) {
            Ok((b, _)) => Ok((!b, env)),
            Err(x) => Err::<(bool, Map<usize, Term>), RewriteError>(x),
        },
{
}

/// A conjunction or a disjunction of one pattern matches as that pattern does;
/// the empty conjunction always succeeds and the empty disjunction always fails,
/// both leaving the environment as it was.
pub proof fn lemma_single_combinators(p: Term, t: Term, env: Map<usize, Term>, fuel: nat)
    ensures
        match_term(Term::Conjunctor(seq![p]), t, env, fuel) == match_term(p, t, env, fuel),
        match_term(Term::Disjunctor(seq![p]), t, env, fuel) == match_term(p, t, env, fuel),
        match_term(Term::Conjunctor(Seq::empty()), t, env, fuel) == Ok::<(bool, Map<usize, Term>), RewriteError>((true, env)),
        match_term(Term::Disjunctor(Seq::empty()), t, env, fuel) == Ok::<(bool, Map<usize, Term>), RewriteError>((false, env)),
{
    lemma_failure_keeps_env(p, t, env, fuel);
    let one = seq![p];
    assert(one[0] == p);
    assert(match_term(Term::Conjunctor(one), t, env, fuel) == match_all(one, t, 0, env, fuel));
    assert(match_term(Term::Disjunctor(one), t, env, fuel) == match_any(one, t, 0, env, fuel));
    assert(match_term(Term::Conjunctor(Seq::empty()), t, env, fuel) == match_all(Seq::empty(), t, 0, env, fuel));
    assert(match_term(Term::Disjunctor(Seq::empty()), t, env, fuel) == match_any(Seq::empty(), t, 0, env, fuel));
    assert(match_all(Seq::empty(), t, 0, env, fuel) == Ok::<(bool, Map<usize, Term>), RewriteError>((true, env)));
    assert(match_any(Seq::empty(), t, 0, env, fuel) == Ok::<(bool, Map<usize, Term>), RewriteError>((false, env)));
    assert(match_any(one, t, 1, env, fuel) == Ok::<(bool, Map<usize, Term>), RewriteError>((false, env)));
    match match_term(p, t, env, fuel) {
        Ok((true, e1)) => {
            assert(match_all(one, t, 1, e1, fuel) == Ok::<(bool, Map<usize, Term>), RewriteError>((true, e1)));
        },
        _ => {},
    }
}

proof fn lemma_pairs_match_themselves(ps: Seq<Term>, j: int, env: Map<usize, Term>, fuel: nat)
    requires
        0 <= j <= ps.len(),
        forall|i: int| 0 <= i < ps.len() ==> ordinary(#[trigger] ps[i]),
    ensures
        match_pairs(ps, ps, j, env, fuel) == Ok::<(bool, Map<usize, Term>), RewriteError>((true, env)),
    decreases ps, 0nat, ps.len() - j,
{
    if j < ps.len() {
        lemma_ordinary_matches_itself(ps[j], env, fuel);
        lemma_pairs_match_themselves(ps, j + 1, env, fuel);
    }
}

/// An ordinary node, used as a pattern, matches itself and binds nothing.
pub proof fn lemma_ordinary_matches_itself(p: Term, env: Map<usize, Term>, fuel: nat)
    requires
        ordinary(p),
    ensures
        match_term(p, p, env, fuel) == Ok::<(bool, Map<usize, Term>), RewriteError>((true, env)),
    decreases p, 1nat, 0int,
{
    if p is Group {
        lemma_ordinary_group(p);
        lemma_pairs_match_themselves(p->Group_1, 0, env, fuel);
    }
}

/// A group of ordinary children matches itself from the empty environment,
/// and the environment stays empty.
pub proof fn lemma_group_matches_itself(n: usize, cs: Seq<Term>, fuel: nat)
    requires
        forall|i: int| 0 <= i < cs.len() ==> ordinary(#[trigger] cs[i]),
    ensures
        match_term(Term::Group(n, cs), Term::Group(n, cs), Map::empty(), fuel) == Ok::<(bool, Map<usize, Term>), RewriteError>((true, Map::empty())),
{
    lemma_pairs_match_themselves(cs, 0, Map::empty(), fuel);
}

/// Matching `ps` pairwise against the window of `ts` that starts at `i`.
pub open spec fn window_at(ps: Seq<Term>, ts: Seq<Term>, env: Map<usize, Term>, i: int, fuel: nat) -> Outcome {
    match_pairs(ps, ts.subrange(i, i + ps.len()), 0, env, fuel)
}

/// Whether the window at `i` is tried and fails without error.
pub open spec fn window_fails(ps: Seq<Term>, ts: Seq<Term>, env: Map<usize, Term>, i: int, fuel: nat) -> bool {
    window_at(ps, ts, env, i, fuel) is Ok && !window_at(ps, ts, env, i, fuel)->Ok_0.0
}

proof fn lemma_window_skips(v: usize, ps: Seq<Term>, ts: Seq<Term>, env: Map<usize, Term>, m: int, i: int, fuel: nat)
    requires
        0 <= m <= i,
        i + ps.len() <= ts.len(),
        forall|j: int| m <= j < i ==> #[trigger] window_fails(ps, ts, env, j, fuel),
    ensures
        match_window(v, ps, ts, env, m, fuel) == match_window(v, ps, ts, env, i, fuel),
    decreases i - m,
{
    if m < i {
        assert(window_fails(ps, ts, env, m, fuel));
        lemma_window_skips(v, ps, ts, env, m + 1, i, fuel);
    }
}

/// A sequence pattern binds its variable at the first window, from the left,
/// that its children match: when every window before `i` fails and the one at
/// `i` matches, the match succeeds with the bindings of that window and the
/// splice `(i, |ps|)`.
pub proof fn lemma_sequence_first_fit(v: usize, ps: Seq<Term>, g: usize, ts: Seq<Term>, env: Map<usize, Term>, i: int, fuel: nat)
    requires
        0 <= i,
        i + ps.len() <= ts.len(),
        forall|j: int| 0 <= j < i ==> #[trigger] window_fails(ps, ts, env, j, fuel),
        window_at(ps, ts, env, i, fuel) is Ok,
        window_at(ps, ts, env, i, fuel)->Ok_0.0,
    ensures
        match_term(Term::Sequence(v, ps), Term::Group(g, ts), env, fuel) == Ok::<(bool, Map<usize, Term>), RewriteError>(
            (true, window_at(ps, ts, env, i, fuel)->Ok_0.1.insert(v, Term::SplicePair(i as nat, ps.len())))),
{
    lemma_window_skips(v, ps, ts, env, 0, i, fuel);
    assert(match_term(Term::Sequence(v, ps), Term::Group(g, ts), env, fuel) == match_window(v, ps, ts, env, 0, fuel));
}

proof fn lemma_window_success(v: usize, ps: Seq<Term>, ts: Seq<Term>, env: Map<usize, Term>, m: int, fuel: nat)
    requires
        0 <= m,
        match_window(v, ps, ts, env, m, fuel) is Ok,
        match_window(v, ps, ts, env, m, fuel)->Ok_0.0,
    ensures
        exists|i: int| {
            &&& m <= i
            &&& i + ps.len() <= ts.len()
            &&& window_at(ps, ts, env, i, fuel) is Ok
            &&& window_at(ps, ts, env, i, fuel)->Ok_0.0
            &&& forall|j: int| m <= j < i ==> #[trigger] window_fails(ps, ts, env, j, fuel)
            &&& match_window(v, ps, ts, env, m, fuel) == Ok::<(bool, Map<usize, Term>), RewriteError>(
                (true, (#[trigger] window_at(ps, ts, env, i, fuel))->Ok_0.1.insert(v, Term::SplicePair(i as nat, ps.len()))))
        },
    decreases ts.len() + 1 - m,
{
    if window_at(ps, ts, env, m, fuel) is Ok && window_at(ps, ts, env, m, fuel)->Ok_0.0 {
        assert(forall|j: int| m <= j < m ==> #[trigger] window_fails(ps, ts, env, j, fuel));
    } else {
        assert(window_fails(ps, ts, env, m, fuel));
        lemma_window_success(v, ps, ts, env, m + 1, fuel);
        let i = choose|i: int| {
            &&& m + 1 <= i
            &&& i + ps.len() <= ts.len()
            &&& window_at(ps, ts, env, i, fuel) is Ok
            &&& window_at(ps, ts, env, i, fuel)->Ok_0.0
            &&& forall|j: int| m + 1 <= j < i ==> #[trigger] window_fails(ps, ts, env, j, fuel)
            &&& match_window(v, ps, ts, env, m + 1, fuel) == Ok::<(bool, Map<usize, Term>), RewriteError>(
                (true, (#[trigger] window_at(ps, ts, env, i, fuel))->Ok_0.1.insert(v, Term::SplicePair(i as nat, ps.len()))))
        };
        assert(forall|j: int| m <= j < i ==> #[trigger] window_fails(ps, ts, env, j, fuel));
    }
}

/// When a sequence pattern matches a group, it did so at a first window that
/// matches: every window before it fails, and the variable is bound to the
/// splice `(i, |ps|)` on top of that window's bindings.
pub proof fn lemma_sequence_success_is_first_fit(v: usize, ps: Seq<Term>, g: usize, ts: Seq<Term>, env: Map<usize, Term>, fuel: nat)
    requires
        match_term(Term::Sequence(v, ps), Term::Group(g, ts), env, fuel) is Ok,
        match_term(Term::Sequence(v, ps), Term::Group(g, ts), env, fuel)->Ok_0.0,
    ensures
        exists|i: int| {
            &&& 0 <= i
            &&& i + ps.len() <= ts.len()
            &&& window_at(ps, ts, env, i, fuel) is Ok
            &&& window_at(ps, ts, env, i, fuel)->Ok_0.0
            &&& forall|j: int| 0 <= j < i ==> #[trigger] window_fails(ps, ts, env, j, fuel)
            &&& match_term(Term::Sequence(v, ps), Term::Group(g, ts), env, fuel) == Ok::<(bool, Map<usize, Term>), RewriteError>(
                (true, (#[trigger] window_at(ps, ts, env, i, fuel))->Ok_0.1.insert(v, Term::SplicePair(i as nat, ps.len()))))
        },
{
    assert(match_term(Term::Sequence(v, ps), Term::Group(g, ts), env, fuel) == match_window(v, ps, ts, env, 0, fuel));
    lemma_window_success(v, ps, ts, env, 0, fuel);
}

} // verus!
