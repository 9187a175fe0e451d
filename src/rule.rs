use vstd::prelude::*;
use crate::bindings::Bindings;
use crate::eval::eval_term;
use crate::matcher::{match_term, FOLLOW_LIMIT};
use crate::node::{Node, Term, RewriteError};

verus! {

/// A rewrite rule: a pattern and the template that replaces what it matched.
#[derive(Debug)]
pub struct Rule {
    pub lhs: Node,
    pub rhs: Node,
}

/// An ordered list of rules; the first that applies wins.
pub type RuleSet = Vec<Rule>;

impl View for Rule {
    type V = (Term, Term);

    open spec fn view(&self) -> (Term, Term) {
        (self.lhs@, self.rhs@)
    }
}

/// The rules as pairs of pattern and template.
pub open spec fn rules_view(rules: Seq<Rule>) -> Seq<(Term, Term)> {
    Seq::new(rules.len(), |i: int| rules[i]@)
}

/// Applies the rule `(lhs, rhs)` at the root of `t`: whether it fired, and the
/// rewritten tree (`NoNode` when it did not fire).
pub open spec fn apply_rule(rule: (Term, Term), t: Term) -> Result<(bool, Term), RewriteError> {
    match match_term(rule.0, t, Map::empty(), FOLLOW_LIMIT as nat) {
        Err(x) => Err(x),
        Ok((false, _)) => Ok((false, Term::NoNode)),
        Ok((true, env)) => match eval_term(rule.1, t, env) {
            Ok(n) => Ok((true, n)),
            Err(x) => Err(x),
        },
    }
}

/// Applies the first rule of `rules[j..]` that fires at the root of `t`.
pub open spec fn apply_first(rules: Seq<(Term, Term)>, t: Term, j: int) -> Result<(bool, Term), RewriteError>
    decreases rules.len() - j,
{
    if j < 0 || j >= rules.len() {
        Ok((false, Term::NoNode))
    } else {
        match apply_rule(rules[j], t) {
            Ok((false, _)) => apply_first(rules, t, j + 1),
            other => other,
        }
    }
}

/// The tree after `n` passes from `t`, each of which fired; `None` when one of
/// them did not fire or failed.
pub open spec fn after_passes(rules: Seq<(Term, Term)>, t: Term, n: nat) -> Option<Term>
    decreases n,
{
    if n == 0 {
        Some(t)
    } else {
        match after_passes(rules, t, (n - 1) as nat) {
            Some(u) => match apply_first(rules, u, 0) {
                Ok((true, v)) => Some(v),
                _ => None,
            },
            None => None,
        }
    }
}

/// The value of an executable rewriting step.
pub open spec fn step_of(r: Result<(bool, Node), RewriteError>) -> Result<(bool, Term), RewriteError> {
    match r {
        Ok((b, n)) => Ok((b, n@)),
        Err(x) => Err(x),
    }
}

impl Rule {
    /// Applies this rule at the root of `tree`: `(false, NoNode)` when the
    /// pattern does not match, else `(true, rewritten tree)`.
    pub fn exec(&self, tree: &Node) -> (r: Result<(bool, Node), RewriteError>)
        ensures
            step_of(r) == apply_rule(self@, tree@),
    {
        let bindings = Bindings::new();
        match self.lhs.matches(tree, bindings) {
            Err(x) => Err(x),
            Ok((false, _)) => Ok((false, Node::NoNode)),
            Ok((true, env)) => match self.rhs.eval(tree, &env) {
                Ok(n) => Ok((true, n)),
                Err(x) => Err(x),
            },
        }
    }
}

/// One pass: applies the first rule, in list order, that fires at the root of `tree`.
pub fn pass(tree: Node, rules: &RuleSet) -> (r: Result<(bool, Node), RewriteError>)
    ensures
        step_of(r) == apply_first(rules_view(rules@), tree@, 0),
{
    let ghost rv = rules_view(rules@);
    let mut j: usize = 0;
    while j < rules.len()
        invariant
            j <= rules.len(),
            rv == rules_view(rules@),
            apply_first(rv, tree@, 0) == apply_first(rv, tree@, j as int),
        decreases rules.len() - j,
    {
        let r = rules[j].exec(&tree);
        match r {
            Ok((false, _)) => {},
            _ => {
                return r;
            },
        }
        j = j + 1;
    }
    Ok((false, Node::NoNode))
}

/// Rewrites `tree` pass after pass until no rule fires, and counts the passes
/// that fired. A pass that fires when the count is already `u32::MAX` gives
/// `IterationLimit`; an error of a pass is returned as it is.
pub fn run(tree: &Node, rules: &RuleSet) -> (r: Result<(Node, u32), RewriteError>)
    ensures
        match r {
            Ok((out, n)) => {
                &&& after_passes(rules_view(rules@), tree@, n as nat) == Some(out@)
                &&& apply_first(rules_view(rules@), out@, 0) == Ok::<(bool, Term), RewriteError>((false, Term::NoNode))
            },
            Err(x) => {
                ||| x == RewriteError::IterationLimit && after_passes(rules_view(rules@), tree@, u32::MAX as nat + 1) is Some
                ||| exists|n: nat| {
                    &&& #[trigger] after_passes(rules_view(rules@), tree@, n) is Some
                    &&& apply_first(rules_view(rules@), after_passes(rules_view(rules@), tree@, n)->Some_0, 0) == Err::<(bool, Term), RewriteError>(x)
                }
            },
        },
{
    let ghost rv = rules_view(rules@);
    let mut iters: u32 = 0;
    let mut current = tree.clone();
    loop
        invariant
            rv == rules_view(rules@),
            after_passes(rv, tree@, iters as nat) == Some(current@),
        decreases u32::MAX - iters,
    {
        match pass(current.clone(), rules) {
            Err(x) => {
                return Err(x);
            },
            Ok((true, next)) => {
                if iters == u32::MAX {
                    return Err(RewriteError::IterationLimit);
                }
                current = next;
                iters = iters + 1;
            },
            Ok((false, _)) => {
                proof { lemma_no_fire(rv, current@); }
                return Ok((current, iters));
            },
        }
    }
}

/// A pass that does not fire yields `NoNode`.
proof fn lemma_no_fire(rules: Seq<(Term, Term)>, t: Term)
    ensures
        apply_first(rules, t, 0) is Ok && !apply_first(rules, t, 0)->Ok_0.0 ==> apply_first(rules, t, 0) == Ok::<(bool, Term), RewriteError>((false, Term::NoNode)),
{
    lemma_no_fire_from(rules, t, 0);
}

proof fn lemma_no_fire_from(rules: Seq<(Term, Term)>, t: Term, j: int)
    ensures
        apply_first(rules, t, j) is Ok && !apply_first(rules, t, j)->Ok_0.0 ==> apply_first(rules, t, j) == Ok::<(bool, Term), RewriteError>((false, Term::NoNode)),
    decreases rules.len() - j,
{
    if 0 <= j < rules.len() {
        lemma_no_fire_from(rules, t, j + 1);
    }
}

} // verus!
