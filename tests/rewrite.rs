use rtt::{Bindings, Node, RewriteError, Rule, pass, run};
use rtt::Node::{Atom, Conjunctor, Disjunctor, Group, MatchPoint, Negator, Sequence, SplicePair, NoNode};

#[test]
fn simple_seq() {
    let mut tree = Group(1, vec![Atom(1), Atom(3), Atom(2), Atom(3), Atom(3), Atom(1)]);
    let rules = vec![Rule { lhs: Sequence(1, vec![Atom(3)]), rhs: Sequence(1, vec![Atom(4), Atom(5)]) }];
    println!("{:?}", tree);
    let result = run(&tree, &rules).unwrap();
    tree = result.0;
    println!("{:?}", tree);
    println!("In {} iterations", result.1);
    assert_eq!(tree, Group(1, vec![Atom(1), Atom(4), Atom(5), Atom(2), Atom(4), Atom(5), Atom(4), Atom(5), Atom(1)]));
}

#[test]
fn simple_seq_group() {
    let mut tree = Group(1, vec![Atom(2), Group(2, vec![Atom(1), Atom(5), Group(3, vec![])]), Atom(1), Group(2, vec![Atom(1)]), Atom(3)]);
    let rules = vec![Rule { lhs: Sequence(1, vec![Group(2, vec![Atom(1)])]), rhs: Sequence(1, vec![Group(3, vec![Group(4, vec![Atom(1)])])]) }];
    println!("{:?}", tree);
    let result = run(&tree, &rules).unwrap();
    tree = result.0;
    println!("{:?}", tree);
    println!("In {} iterations", result.1);
    assert_eq!(tree, Group(1, vec![Atom(2), Group(2, vec![Atom(1), Atom(5), Group(3, vec![])]), Atom(1), Group(3, vec![Group(4, vec![Atom(1)])]), Atom(3)]));
}

#[test]
fn seq_replacement_counts_iterations() {
    let tree = Group(1, vec![Atom(1), Atom(3), Atom(2), Atom(3), Atom(3), Atom(1)]);
    let rules = vec![Rule { lhs: Sequence(1, vec![Atom(3)]), rhs: Sequence(1, vec![Atom(4), Atom(5)]) }];
    let (_, iters) = run(&tree, &rules).unwrap();
    assert_eq!(iters, 3);
}

#[test]
fn negator_scenario() {
    let p = Negator(Box::new(Atom(7)));
    let (ok, env) = p.matches(&Atom(7), Bindings::new()).unwrap();
    assert!(!ok);
    assert!(env.find(7).is_none());
    let (ok, _) = p.matches(&Atom(8), Bindings::new()).unwrap();
    assert!(ok);
}

#[test]
fn negator_never_binds() {
    let p = Negator(Box::new(MatchPoint(3)));
    let (ok, env) = p.matches(&Atom(8), Bindings::new()).unwrap();
    assert!(!ok);
    assert!(env.find(3).is_none());
}

#[test]
fn disjunctor_with_binding() {
    let p = Disjunctor(vec![MatchPoint(6), Atom(9)]);
    let (ok, env) = p.matches(&Atom(4), Bindings::new()).unwrap();
    assert!(ok);
    assert_eq!(env.find(6), Some(Atom(4)));
    let (ok, env) = p.matches(&Atom(9), Bindings::new()).unwrap();
    assert!(ok);
    assert_eq!(env.find(6), Some(Atom(9)));
}

#[test]
fn disjunctor_second_branch() {
    let p = Disjunctor(vec![Atom(1), Atom(9)]);
    let (ok, env) = p.matches(&Atom(9), Bindings::new()).unwrap();
    assert!(ok);
    assert!(env.find(1).is_none());
    assert!(env.find(9).is_none());
}

#[test]
fn conjunctor_consistency() {
    let p = Conjunctor(vec![MatchPoint(6), Atom(7)]);
    let (ok, env) = p.matches(&Atom(7), Bindings::new()).unwrap();
    assert!(ok);
    assert_eq!(env.find(6), Some(Atom(7)));
    let start = Bindings::new().plus(2, &Atom(5));
    let (ok, env) = p.matches(&Atom(8), start).unwrap();
    assert!(!ok);
    assert!(env.find(6).is_none());
    assert_eq!(env.find(2), Some(Atom(5)));
}

#[test]
fn single_and_empty_combinators() {
    let t = Atom(3);
    let (ok, env) = Conjunctor(vec![MatchPoint(1)]).matches(&t, Bindings::new()).unwrap();
    assert!(ok);
    assert_eq!(env.find(1), Some(Atom(3)));
    let (ok, env) = Disjunctor(vec![MatchPoint(1)]).matches(&t, Bindings::new()).unwrap();
    assert!(ok);
    assert_eq!(env.find(1), Some(Atom(3)));
    let (ok, _) = Conjunctor(vec![]).matches(&t, Bindings::new()).unwrap();
    assert!(ok);
    let (ok, _) = Disjunctor(vec![]).matches(&t, Bindings::new()).unwrap();
    assert!(!ok);
}

#[test]
fn failure_keeps_environment() {
    let start = Bindings::new().plus(4, &Atom(1));
    let p = Group(2, vec![MatchPoint(5), Atom(9)]);
    let (ok, env) = p.matches(&Group(2, vec![Atom(1), Atom(8)]), start).unwrap();
    assert!(!ok);
    assert!(env.find(5).is_none());
    assert_eq!(env.find(4), Some(Atom(1)));
}

#[test]
fn group_matches_itself() {
    let g = Group(3, vec![Atom(1), Group(4, vec![Atom(2)])]);
    let (ok, env) = g.matches(&g.clone(), Bindings::new()).unwrap();
    assert!(ok);
    assert!(env.find(1).is_none());
    assert!(env.find(3).is_none());
}

#[test]
fn match_point_consistency() {
    let p = Group(1, vec![MatchPoint(7), MatchPoint(7)]);
    let (ok, env) = p.matches(&Group(1, vec![Atom(2), Atom(2)]), Bindings::new()).unwrap();
    assert!(ok);
    assert_eq!(env.find(7), Some(Atom(2)));
    let (ok, env) = p.matches(&Group(1, vec![Atom(2), Atom(3)]), Bindings::new()).unwrap();
    assert!(!ok);
    assert!(env.find(7).is_none());
}

#[test]
fn sequence_binds_first_window() {
    let p = Sequence(8, vec![Atom(3), MatchPoint(1)]);
    let t = Group(1, vec![Atom(1), Atom(3), Atom(2), Atom(3), Atom(4)]);
    let (ok, env) = p.matches(&t, Bindings::new()).unwrap();
    assert!(ok);
    assert_eq!(env.find(8), Some(SplicePair(1, 2)));
    assert_eq!(env.find(1), Some(Atom(2)));
}

#[test]
fn sequence_edges() {
    let t = Group(1, vec![Atom(1)]);
    let (ok, env) = Sequence(8, vec![]).matches(&t, Bindings::new()).unwrap();
    assert!(ok);
    assert_eq!(env.find(8), Some(SplicePair(0, 0)));
    let (ok, _) = Sequence(8, vec![Atom(1), Atom(1)]).matches(&t, Bindings::new()).unwrap();
    assert!(!ok);
    let (ok, _) = Sequence(8, vec![Atom(1)]).matches(&Atom(1), Bindings::new()).unwrap();
    assert!(!ok);
}

#[test]
fn driver_fixed_point() {
    let tree = Group(1, vec![Atom(1)]);
    let rules = vec![Rule { lhs: Atom(1), rhs: Atom(1) }];
    let (out, iters) = run(&tree, &rules).unwrap();
    assert_eq!(out, tree);
    assert_eq!(iters, 0);
}

#[test]
fn pass_takes_first_rule_that_fires() {
    let rules = vec![
        Rule { lhs: Atom(2), rhs: Atom(9) },
        Rule { lhs: MatchPoint(1), rhs: Group(5, vec![MatchPoint(1)]) },
        Rule { lhs: Atom(1), rhs: Atom(8) },
    ];
    let (fired, out) = pass(Atom(1), &rules).unwrap();
    assert!(fired);
    assert_eq!(out, Group(5, vec![Atom(1)]));
    let (fired, out) = pass(Group(1, vec![]), &vec![Rule { lhs: Atom(2), rhs: Atom(9) }]).unwrap();
    assert!(!fired);
    assert_eq!(out, NoNode);
}

#[test]
fn exec_rewrites_at_root_only() {
    let rule = Rule { lhs: Group(1, vec![MatchPoint(2)]), rhs: Group(3, vec![MatchPoint(2), MatchPoint(2)]) };
    let (fired, out) = rule.exec(&Group(1, vec![Atom(4)])).unwrap();
    assert!(fired);
    assert_eq!(out, Group(3, vec![Atom(4), Atom(4)]));
    let (fired, out) = rule.exec(&Group(7, vec![Group(1, vec![Atom(4)])])).unwrap();
    assert!(!fired);
    assert_eq!(out, NoNode);
}

#[test]
fn eval_pads_with_no_node() {
    let tpl = Group(2, vec![Atom(1), Group(3, vec![])]);
    let out = tpl.eval(&Atom(5), &Bindings::new()).unwrap();
    assert_eq!(out, Group(2, vec![Atom(1), Group(3, vec![])]));
}

#[test]
fn eval_splices_window() {
    let env = Bindings::new().plus(9, &SplicePair(1, 2));
    let tpl = Sequence(9, vec![Atom(7)]);
    let out = tpl.eval(&Group(4, vec![Atom(1), Atom(2), Atom(3), Atom(4)]), &env).unwrap();
    assert_eq!(out, Group(4, vec![Atom(1), Atom(7), Atom(4)]));
}

#[test]
fn template_errors() {
    let env = Bindings::new();
    assert!(matches!(MatchPoint(3).eval(&Atom(1), &env), Err(RewriteError::Template)));
    assert!(matches!(Sequence(3, vec![]).eval(&Atom(1), &env), Err(RewriteError::Template)));
    let env = env.plus(3, &Atom(1));
    assert!(matches!(Sequence(3, vec![]).eval(&Group(1, vec![]), &env), Err(RewriteError::Template)));
}

#[test]
fn pattern_shape_errors() {
    assert!(matches!(NoNode.matches(&Atom(1), Bindings::new()), Err(RewriteError::PatternShape)));
    assert!(matches!(SplicePair(0, 1).matches(&Atom(1), Bindings::new()), Err(RewriteError::PatternShape)));
    let p = Group(1, vec![Sequence(2, vec![]), MatchPoint(2)]);
    let t = Group(1, vec![Group(5, vec![]), Atom(1)]);
    assert!(matches!(p.matches(&t, Bindings::new()), Err(RewriteError::PatternShape)));
}

#[test]
fn ordinary_nodes() {
    assert!(Atom(1).is_ordinary());
    assert!(Group(1, vec![Atom(2), Group(3, vec![])]).is_ordinary());
    assert!(!Group(1, vec![Atom(2), MatchPoint(3)]).is_ordinary());
    assert!(!NoNode.is_ordinary());
}

#[test]
fn bindings_are_persistent() {
    let a = Bindings::new();
    let b = a.plus(1, &Atom(5));
    let c = b.plus(1, &Atom(6));
    assert!(a.find(1).is_none());
    assert_eq!(b.find(1), Some(Atom(5)));
    assert_eq!(c.find(1), Some(Atom(6)));
    assert_eq!(c.clone().find(1), Some(Atom(6)));
}

#[test]
fn run_result_is_ordinary() {
    let tree = Group(1, vec![Atom(2), Atom(3), Atom(2)]);
    let rules = vec![
        Rule { lhs: Sequence(9, vec![Atom(2), MatchPoint(4)]), rhs: Sequence(9, vec![Group(6, vec![MatchPoint(4)])]) },
    ];
    let (out, iters) = run(&tree, &rules).unwrap();
    assert_eq!(iters, 1);
    assert_eq!(out, Group(1, vec![Group(6, vec![Atom(3)]), Atom(2)]));
    assert!(out.is_ordinary());
}

#[test]
fn bound_pattern_is_matched_as_pattern() {
    let env = Bindings::new().plus(1, &MatchPoint(2));
    let (ok, env) = MatchPoint(1).matches(&Atom(3), env).unwrap();
    assert!(ok);
    assert_eq!(env.find(2), Some(Atom(3)));
    let env = Bindings::new().plus(1, &Negator(Box::new(Atom(3))));
    let (ok, _) = MatchPoint(1).matches(&Atom(3), env).unwrap();
    assert!(!ok);
}

#[test]
fn binding_cycle_is_an_error() {
    let env = Bindings::new().plus(1, &MatchPoint(1));
    assert!(matches!(MatchPoint(1).matches(&Atom(3), env), Err(RewriteError::FollowLimit)));
}

#[test]
fn splice_bound_match_point_is_shape_error() {
    let env = Bindings::new().plus(1, &SplicePair(0, 1));
    assert!(matches!(MatchPoint(1).matches(&Atom(3), env), Err(RewriteError::PatternShape)));
}
