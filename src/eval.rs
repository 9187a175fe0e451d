use vstd::prelude::*;
use crate::bindings::Bindings;
use crate::node::{Node, Term, RewriteError, view_nodes, copy_node};

verus! {

/// The value of an executable evaluation result.
pub open spec fn built_of(r: Result<Node, RewriteError>) -> Result<Term, RewriteError> {
    match r {
        Ok(n) => Ok(n@),
        Err(x) => Err(x),
    }
}

/// The reference child that position `k` of a template list is evaluated against:
/// `rs[k]`, or `NoNode` past the end.
pub open spec fn slot(rs: Seq<Term>, k: int) -> Term {
    if 0 <= k < rs.len() {
        rs[k]
    } else {
        Term::NoNode
    }
}

/// The children of a group reference; none for any other node.
pub open spec fn reference_children(t: Term) -> Seq<Term> {
    if t is Group {
        t->Group_1
    } else {
        Seq::empty()
    }
}

/// Builds the result of template `tpl` against reference `reference` under `env`.
pub open spec fn eval_term(tpl: Term, reference: Term, env: Map<usize, Term>) -> Result<Term, RewriteError>
    decreases tpl, 1nat, 0int,
{
    match tpl {
        Term::MatchPoint(v) => {
            if env.contains_key(v) {
                Ok(env[v])
            } else {
                Err(RewriteError::Template)
            }
        },
        Term::Group(n, ls) => match eval_list(ls, reference_children(reference), 0, ls.len() as int, env) {
            Ok(cs) => Ok(Term::Group(n, cs)),
            Err(x) => Err(x),
        },
        Term::Sequence(v, ls) => {
            if reference is Group && env.contains_key(v) && env[v] is SplicePair {
                let rs = reference->Group_1;
                let start = env[v]->SplicePair_0;
                let len = env[v]->SplicePair_1;
                let prefix = rs.subrange(0, if start <= rs.len() { start as int } else { rs.len() as int });
                let suffix = if start + len < rs.len() { rs.subrange((start + len) as int, rs.len() as int) } else { Seq::empty() };
                match eval_list(ls, rs, start as int, ls.len() as int, env) {
                    Ok(cs) => Ok(Term::Group(reference->Group_0, prefix + cs + suffix)),
                    Err(x) => Err(x),
                }
            } else {
                Err(RewriteError::Template)
            }
        },
        _ => Ok(tpl),
    }
}

/// Evaluates the first `n` templates of `ls`, the one at position `k` against
/// the reference child at `off + k`.
pub open spec fn eval_list(ls: Seq<Term>, rs: Seq<Term>, off: int, n: int, env: Map<usize, Term>) -> Result<Seq<Term>, RewriteError>
    decreases ls, 0nat, n,
{
    if n <= 0 || n > ls.len() {
        Ok(Seq::empty())
    } else {
        match eval_list(ls, rs, off, n - 1, env) {
            Err(x) => Err(x),
            Ok(cs) => match eval_term(ls[n - 1], slot(rs, off + n - 1), env) {
                Err(x) => Err(x),
                Ok(c) => Ok(cs.push(c)),
            },
        }
    }
}

/// Once evaluating a prefix of the list fails, every longer prefix fails the same way.
proof fn lemma_eval_list_err(ls: Seq<Term>, rs: Seq<Term>, off: int, n: int, m: int, env: Map<usize, Term>)
    requires
        0 < n <= m <= ls.len(),
        eval_list(ls, rs, off, n, env) is Err,
    ensures
        eval_list(ls, rs, off, m, env) == eval_list(ls, rs, off, n, env),
    decreases m - n,
{
    if m > n {
        lemma_eval_list_err(ls, rs, off, n, m - 1, env);
    }
}

/// Appends a copy of `n` to `out`.
fn push_copy(out: &mut Vec<Node>, n: &Node)
    ensures
        view_nodes(*final(out)) == view_nodes(*old(out)).push(n@),
{
    let ghost before = view_nodes(*out);
    out.push(copy_node(n));
    assert(view_nodes(*out) =~= before.push(n@));
}

/// Evaluates every template of `ls`, the one at position `k` against `rs[off + k]`
/// or against `NoNode` past the end of `rs`.
fn eval_children(ls: &Vec<Node>, rs: &Vec<Node>, off: usize, bindings: &Bindings) -> (r: Result<Vec<Node>, RewriteError>)
    ensures
        match r {
            Ok(cs) => eval_list(view_nodes(*ls), view_nodes(*rs), off as int, ls.len() as int, bindings@) == Ok::<Seq<Term>, RewriteError>(view_nodes(cs)),
            Err(x) => eval_list(view_nodes(*ls), view_nodes(*rs), off as int, ls.len() as int, bindings@) == Err::<Seq<Term>, RewriteError>(x),
        },
    decreases ls, 0nat, 0int,
{
    let ghost lv = view_nodes(*ls);
    let ghost rv = view_nodes(*rs);
    let no_node = Node::NoNode;
    let mut out: Vec<Node> = Vec::new();
    let mut k: usize = 0;
    assert(view_nodes(out) =~= Seq::<Term>::empty());
    while k < ls.len()
        invariant
            k <= ls.len(),
            lv == view_nodes(*ls),
            rv == view_nodes(*rs),
            no_node@ == Term::NoNode,
            eval_list(lv, rv, off as int, k as int, bindings@) == Ok::<Seq<Term>, RewriteError>(view_nodes(out)),
        decreases ls.len() - k,
    {
        let reference: &Node = if off < rs.len() && k < rs.len() - off {
            &rs[off + k]
        } else {
            &no_node
        };
        assert(reference@ == slot(rv, off + k));
        match ls[k].eval(reference, bindings) {
            Err(x) => {
                assert(eval_list(lv, rv, off as int, k + 1, bindings@) == Err::<Seq<Term>, RewriteError>(x));
                proof { lemma_eval_list_err(lv, rv, off as int, k + 1, ls.len() as int, bindings@); }
                return Err(x);
            },
            Ok(c) => {
                push_copy(&mut out, &c);
            },
        }
        k = k + 1;
    }
    Ok(out)
}

impl Node {
    /// Builds a new tree from this template, the bindings, and the reference
    /// node that the pattern matched.
    pub fn eval(&self, other: &Node, bindings: &Bindings) -> (r: Result<Node, RewriteError>)
        ensures
            built_of(r) == eval_term(self@, other@, bindings@),
        decreases self, 1nat, 0int,
    {
        match self {
            Node::MatchPoint(v) => match bindings.find(*v) {
                Some(n) => Ok(n),
                None => Err(RewriteError::Template),
            },
            Node::Group(name, ls) => {
                assert(self@ == Term::Group(*name, view_nodes(*ls)));
                let empty: Vec<Node> = Vec::new();
                let rs: &Vec<Node> = match other {
                    Node::Group(_, rs) => {
                        assert(other@ == Term::Group(other->Group_0, view_nodes(*rs)));
                        rs
                    },
                    _ => &empty,
                };
                assert(view_nodes(*rs) =~= reference_children(other@));
                match eval_children(ls, rs, 0, bindings) {
                    Ok(cs) => Ok(Node::Group(*name, cs)),
                    Err(x) => Err(x),
                }
            },
            Node::Sequence(v, ls) => {
                assert(self@ == Term::Sequence(*v, view_nodes(*ls)));
                match other {
                    Node::Group(name, rs) => {
                        let ghost rv = view_nodes(*rs);
                        assert(other@ == Term::Group(*name, rv));
                        let (start, len) = match bindings.find(*v) {
                            Some(Node::SplicePair(start, len)) => (start, len),
                            _ => {
                                return Err(RewriteError::Template);
                            },
                        };
                        let middle = match eval_children(ls, rs, start, bindings) {
                            Ok(cs) => cs,
                            Err(x) => {
                                return Err(x);
                            },
                        };
                        let mut out: Vec<Node> = Vec::new();
                        let mut k: usize = 0;
                        assert(view_nodes(out) =~= Seq::<Term>::empty());
                        while k < start && k < rs.len()
                            invariant
                                k <= rs.len(),
                                k <= start,
                                rv == view_nodes(*rs),
                                view_nodes(out) =~= rv.subrange(0, k as int),
                            decreases rs.len() - k,
                        {
                            push_copy(&mut out, &rs[k]);
                            k = k + 1;
                        }
                        assert(view_nodes(out) =~= rv.subrange(0, if start <= rs.len() { start as int } else { rs.len() as int }));
                        let ghost prefix = view_nodes(out);
                        let mut m: usize = 0;
                        while m < middle.len()
                            invariant
                                m <= middle.len(),
                                view_nodes(out) =~= prefix + view_nodes(middle).subrange(0, m as int),
                            decreases middle.len() - m,
                        {
                            push_copy(&mut out, &middle[m]);
                            m = m + 1;
                        }
                        assert(view_nodes(middle).subrange(0, m as int) =~= view_nodes(middle));
                        let ghost front = view_nodes(out);
                        if len < rs.len() && start < rs.len() - len {
                            let mut j: usize = start + len;
                            while j < rs.len()
                                invariant
                                    start + len <= j <= rs.len(),
                                    rv == view_nodes(*rs),
                                    view_nodes(out) =~= front + rv.subrange(start + len, j as int),
                                decreases rs.len() - j,
                            {
                                push_copy(&mut out, &rs[j]);
                                j = j + 1;
                            }
                        } else {
                            assert(view_nodes(out) =~= front + Seq::<Term>::empty());
                        }
                        Ok(Node::Group(*name, out))
                    },
                    _ => Err(RewriteError::Template),
                }
            },
            _ => Ok(copy_node(self)),
        }
    }
}

} // verus!
