use vstd::prelude::*;
use crate::bindings::Bindings;
use crate::node::{Node, Term, RewriteError, view_nodes};

verus! {

/// What matching yields: whether it succeeded, with the environment after it,
/// or the error that stopped it.
pub type Outcome = Result<(bool, Map<usize, Term>), RewriteError>;

/// The value of an executable matching result.
pub open spec fn outcome_of(r: Result<(bool, Bindings), RewriteError>) -> Outcome {
    match r {
        Ok((b, e)) => Ok((b, e@)),
        Err(x) => Err(x),
    }
}

/// How many bound match points one match may follow, one inside another.
pub const FOLLOW_LIMIT: usize = 1024;

/// Matches pattern `p` against target `t` in environment `env`, following at
/// most `fuel` bound match points one inside another.
pub open spec fn match_term(p: Term, t: Term, env: Map<usize, Term>, fuel: nat) -> Outcome
    decreases fuel, p, 2nat, 0int,
{
    match p {
        Term::Atom(a) => Ok((t is Atom && t->Atom_0 == a, env)),
        Term::Group(n, ps) => {
            if t is Group && t->Group_0 == n && t->Group_1.len() == ps.len() {
                match_pairs(ps, t->Group_1, 0, env, fuel)
            } else {
                Ok((false, env))
            }
        },
        Term::MatchPoint(v) => {
            if env.contains_key(v) {
                // the bound node is matched as a pattern, one follow fewer left
                if fuel == 0 {
                    Err(RewriteError::FollowLimit)
                } else {
                    match_term(env[v], t, env, (fuel - 1) as nat)
                }
            } else {
                Ok((true, env.insert(v, t)))
            }
        },
        Term::Sequence(v, ps) => {
            if t is Group {
                match_window(v, ps, t->Group_1, env, 0, fuel)
            } else {
                Ok((false, env))
            }
        },
        Term::Conjunctor(ps) => match_all(ps, t, 0, env, fuel),
        Term::Disjunctor(ps) => match_any(ps, t, 0, env, fuel),
        Term::Negator(q) => match match_term(*q, t, env, fuel) {
            Ok((b, _)) => Ok((!b, env)),
            Err(x) => Err(x),
        },
        _ => Err(RewriteError::PatternShape),
    }
}

/// Matches `ps[j..]` pairwise against `ts[j..]`, threading the environment;
/// a failure gives back the environment it started from.
pub open spec fn match_pairs(ps: Seq<Term>, ts: Seq<Term>, j: int, env: Map<usize, Term>, fuel: nat) -> Outcome
    decreases fuel, ps, 0nat, ps.len() - j,
{
    if j < 0 || j >= ps.len() {
        Ok((true, env))
    } else {
        match match_term(ps[j], ts[j], env, fuel) {
            Err(x) => Err(x),
            Ok((false, _)) => Ok((false, env)),
            Ok((true, e1)) => match match_pairs(ps, ts, j + 1, e1, fuel) {
                Ok((false, _)) => Ok((false, env)),
                other => other,
            },
        }
    }
}

/// Matches every pattern of `ps[j..]` against the one target `t`, threading the environment.
pub open spec fn match_all(ps: Seq<Term>, t: Term, j: int, env: Map<usize, Term>, fuel: nat) -> Outcome
    decreases fuel, ps, 0nat, ps.len() - j,
{
    if j < 0 || j >= ps.len() {
        Ok((true, env))
    } else {
        match match_term(ps[j], t, env, fuel) {
            Err(x) => Err(x),
            Ok((false, _)) => Ok((false, env)),
            Ok((true, e1)) => match match_all(ps, t, j + 1, e1, fuel) {
                Ok((false, _)) => Ok((false, env)),
                other => other,
            },
        }
    }
}

/// The first pattern of `ps[j..]` that matches `t`, each tried from `env`.
pub open spec fn match_any(ps: Seq<Term>, t: Term, j: int, env: Map<usize, Term>, fuel: nat) -> Outcome
    decreases fuel, ps, 0nat, ps.len() - j,
{
    if j < 0 || j >= ps.len() {
        Ok((false, env))
    } else {
        match match_term(ps[j], t, env, fuel) {
            Err(x) => Err(x),
            Ok((true, e1)) => Ok((true, e1)),
            Ok((false, _)) => match_any(ps, t, j + 1, env, fuel),
        }
    }
}

/// Searches the first window `ts[i..i + |ps|]`, from `i` upward, that `ps`
/// matches pairwise, and binds `v` to where it lies.
pub open spec fn match_window(v: usize, ps: Seq<Term>, ts: Seq<Term>, env: Map<usize, Term>, i: int, fuel: nat) -> Outcome
    decreases fuel, ps, 1nat, ts.len() + 1 - i,
{
    if i < 0 || i + ps.len() > ts.len() {
        Ok((false, env))
    } else {
        match match_pairs(ps, ts.subrange(i, i + ps.len()), 0, env, fuel) {
            Err(x) => Err(x),
            Ok((true, e1)) => Ok((true, e1.insert(v, Term::SplicePair(i as nat, ps.len())))),
            Ok((false, _)) => match_window(v, ps, ts, env, i + 1, fuel),
        }
    }
}

/// Matches `ps[j..]` pairwise against the window `ts[off..off + |ps|]`.
fn match_list(ps: &Vec<Node>, ts: &Vec<Node>, off: usize, j: usize, env: Bindings, fuel: usize) -> (r: Result<(bool, Bindings), RewriteError>)
    requires
        off + ps.len() <= ts.len(),
        j <= ps.len(),
    ensures
        outcome_of(r) == match_pairs(view_nodes(*ps), view_nodes(*ts).subrange(off as int, off + ps.len()), j as int, env@, fuel as nat),
    decreases fuel, ps, 0nat, ps.len() - j,
{
    let ghost window = view_nodes(*ts).subrange(off as int, off + ps.len());
    if j >= ps.len() {
        return Ok((true, env));
    }
    assert(window[j as int] == ts[off + j]@);
    match ps[j].matches_within(&ts[off + j], env.clone(), fuel) {
        Err(x) => Err(x),
        Ok((false, _)) => Ok((false, env)),
        Ok((true, e1)) => match match_list(ps, ts, off, j + 1, e1, fuel) {
            Ok((false, _)) => Ok((false, env)),
            other => other,
        },
    }
}

/// Matches every pattern of `ps[j..]` against `t`, threading the environment.
fn match_list_all(ps: &Vec<Node>, t: &Node, j: usize, env: Bindings, fuel: usize) -> (r: Result<(bool, Bindings), RewriteError>)
    requires
        j <= ps.len(),
    ensures
        outcome_of(r) == match_all(view_nodes(*ps), t@, j as int, env@, fuel as nat),
    decreases fuel, ps, 0nat, ps.len() - j,
{
    if j >= ps.len() {
        return Ok((true, env));
    }
    match ps[j].matches_within(t, env.clone(), fuel) {
        Err(x) => Err(x),
        Ok((false, _)) => Ok((false, env)),
        Ok((true, e1)) => match match_list_all(ps, t, j + 1, e1, fuel) {
            Ok((false, _)) => Ok((false, env)),
            other => other,
        },
    }
}

/// Tries the patterns of `ps[j..]` against `t` in order, each from `env`.
fn match_list_any(ps: &Vec<Node>, t: &Node, j: usize, env: Bindings, fuel: usize) -> (r: Result<(bool, Bindings), RewriteError>)
    requires
        j <= ps.len(),
    ensures
        outcome_of(r) == match_any(view_nodes(*ps), t@, j as int, env@, fuel as nat),
    decreases fuel, ps, 0nat, ps.len() - j,
{
    if j >= ps.len() {
        return Ok((false, env));
    }
    match ps[j].matches_within(t, env.clone(), fuel) {
        Err(x) => Err(x),
        Ok((true, e1)) => Ok((true, e1)),
        Ok((false, _)) => match_list_any(ps, t, j + 1, env, fuel),
    }
}

impl Node {
    /// Matches this pattern against `other`, starting from `bindings`.
    /// On success the environment is extended with the bindings made; on
    /// failure it comes back as it was given. A bound match point matches its
    /// bound node, taken as a pattern, against the target. `SplicePair` and
    /// `NoNode` reached as patterns are shape errors; a chain of more than
    /// `FOLLOW_LIMIT` bound match points, one inside another, is an error too.
    pub fn matches(&self, other: &Node, bindings: Bindings) -> (r: Result<(bool, Bindings), RewriteError>)
        ensures
            outcome_of(r) == match_term(self@, other@, bindings@, FOLLOW_LIMIT as nat),
    {
        self.matches_within(other, bindings, FOLLOW_LIMIT)
    }

    /// Matches as `matches` does, following at most `fuel` bound match points
    /// one inside another.
    pub fn matches_within(&self, other: &Node, bindings: Bindings, fuel: usize) -> (r: Result<(bool, Bindings), RewriteError>)
        ensures
            outcome_of(r) == match_term(self@, other@, bindings@, fuel as nat),
        decreases fuel, self, 2nat, 0int,
    {
        match self {
            Node::Atom(a) => match other {
                Node::Atom(b) => Ok((*a == *b, bindings)),
                _ => Ok((false, bindings)),
            },
            Node::Group(n, ps) => match other {
                Node::Group(m, ts) => {
                    assert(self@ == Term::Group(*n, view_nodes(*ps)));
                    assert(other@ == Term::Group(*m, view_nodes(*ts)));
                    if *n != *m || ps.len() != ts.len() {
                        return Ok((false, bindings));
                    }
                    assert(view_nodes(*ts).subrange(0, ps.len() as int) =~= view_nodes(*ts));
                    match_list(ps, ts, 0, 0, bindings, fuel)
                },
                _ => Ok((false, bindings)),
            },
            Node::MatchPoint(v) => match bindings.find(*v) {
                Some(bound) => {
                    if fuel == 0 {
                        Err(RewriteError::FollowLimit)
                    } else {
                        bound.matches_within(other, bindings, fuel - 1)
                    }
                },
                None => {
                    let extended = bindings.plus(*v, other);
                    Ok((true, extended))
                },
            },
            Node::Sequence(v, ps) => match other {
                Node::Group(name, ts) => {
                    let ghost pv = view_nodes(*ps);
                    let ghost tv = view_nodes(*ts);
                    assert(self@ == Term::Sequence(*v, pv));
                    assert(other@ == Term::Group(*name, tv));
                    if ps.len() > ts.len() {
                        assert(match_window(*v, pv, tv, bindings@, 0, fuel as nat) == Ok::<(bool, Map<usize, Term>), RewriteError>((false, bindings@)));
                        return Ok((false, bindings));
                    }
                    let limit: usize = ts.len() - ps.len();
                    let mut i: usize = 0;
                    while i <= limit
                        invariant
                            limit == ts.len() - ps.len(),
                            *self == Node::Sequence(*v, *ps),
                            pv == view_nodes(*ps),
                            tv == view_nodes(*ts),
                            i <= limit + 1,
                            match_term(self@, other@, bindings@, fuel as nat) == match_window(*v, pv, tv, bindings@, i as int, fuel as nat),
                        decreases limit + 1 - i,
                    {
                        match match_list(ps, ts, i, 0, bindings.clone(), fuel) {
                            Err(x) => {
                                return Err(x);
                            },
                            Ok((true, e1)) => {
                                let splice = Node::SplicePair(i, ps.len());
                                assert(splice@ == Term::SplicePair(i as nat, pv.len()));
                                let extended = e1.plus(*v, &splice);
                                return Ok((true, extended));
                            },
                            Ok((false, _)) => {},
                        }
                        i = i + 1;
                    }
                    Ok((false, bindings))
                },
                _ => Ok((false, bindings)),
            },
            Node::Conjunctor(ps) => match_list_all(ps, other, 0, bindings, fuel),
            Node::Disjunctor(ps) => match_list_any(ps, other, 0, bindings, fuel),
            Node::Negator(q) => match q.matches_within(other, bindings.clone(), fuel) {
                Ok((b, _)) => Ok((!b, bindings)),
                Err(x) => Err(x),
            },
            _ => Err(RewriteError::PatternShape),
        }
    }
}

} // verus!
