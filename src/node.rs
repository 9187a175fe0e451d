use vstd::prelude::*;

verus! {

/// A tree of the rewriting engine: ordinary nodes, pattern nodes and the two
/// internal helpers used while matching and evaluating.
#[derive(Debug, PartialEq, Eq)]
pub enum Node {
    Atom(usize),
    Group(usize, Vec<Node>),
    MatchPoint(usize),
    Sequence(usize, Vec<Node>),
    Conjunctor(Vec<Node>),
    Disjunctor(Vec<Node>),
    Negator(Box<Node>),
    SplicePair(usize, usize),
    NoNode,
}

/// Why a rewrite could not be carried out.
#[derive(Debug, Clone, Copy, PartialEq, Eq)]
pub enum RewriteError {
    /// A node that is no pattern stood where a pattern was matched.
    PatternShape,
    /// A template referred to a binding that is missing or of the wrong kind,
    /// or spliced a sequence into a node that is no group.
    Template,
    /// Matching followed more bound match points, one inside another, than
    /// its limit allows.
    FollowLimit,
    /// The driver fired more passes than its count can hold.
    IterationLimit,
}

/// The mathematical value of a `Node`: the same tree with sequences for children.
pub enum Term {
    Atom(usize),
    Group(usize, Seq<Term>),
    MatchPoint(usize),
    Sequence(usize, Seq<Term>),
    Conjunctor(Seq<Term>),
    Disjunctor(Seq<Term>),
    Negator(Box<Term>),
    SplicePair(nat, nat),
    NoNode,
}

pub open spec fn view_nodes(cs: Vec<Node>) -> Seq<Term>
    decreases cs, 0nat,
{
    Seq::new(cs.len() as nat, |i: int| if 0 <= i < cs.len() { view_node(cs[i]) } else { Term::NoNode })
}

pub open spec fn view_node(n: Node) -> Term
    decreases n, 1nat,
{
    match n {
        Node::Atom(s) => Term::Atom(s),
        Node::Group(s, cs) => Term::Group(s, view_nodes(cs)),
        Node::MatchPoint(s) => Term::MatchPoint(s),
        Node::Sequence(s, cs) => Term::Sequence(s, view_nodes(cs)),
        Node::Conjunctor(cs) => Term::Conjunctor(view_nodes(cs)),
        Node::Disjunctor(cs) => Term::Disjunctor(view_nodes(cs)),
        Node::Negator(b) => Term::Negator(Box::new(view_node(*b))),
        Node::SplicePair(a, b) => Term::SplicePair(a as nat, b as nat),
        Node::NoNode => Term::NoNode,
    }
}

impl View for Node {
    type V = Term;

    open spec fn view(&self) -> Term {
        view_node(*self)
    }
}

/// A term is ordinary when it is an atom, or a group whose children are all ordinary.
pub open spec fn ordinary(t: Term) -> bool
    decreases t,
{
    match t {
        Term::Atom(_) => true,
        Term::Group(_, cs) => forall|i: int| 0 <= i < cs.len() ==> ordinary(#[trigger] cs[i]),
        _ => false,
    }
}

/// Copies a list of nodes, child by child.
pub fn copy_nodes(cs: &Vec<Node>) -> (r: Vec<Node>)
    ensures
        view_nodes(r) == view_nodes(*cs),
    decreases cs, 0nat,
{
    let mut out: Vec<Node> = Vec::new();
    let mut i: usize = 0;
    while i < cs.len()
        invariant
            i <= cs.len(),
            out.len() == i,
            forall|k: int| 0 <= k < i ==> view_node(#[trigger] out[k]) == view_node(cs[k]),
        decreases cs.len() - i,
    {
        out.push(copy_node(&cs[i]));
        i = i + 1;
    }
    assert(view_nodes(out) =~= view_nodes(*cs));
    out
}

/// Copies a node, the whole tree below it included.
pub fn copy_node(n: &Node) -> (r: Node)
    ensures
        r@ == n@,
    decreases n, 1nat,
{
    match n {
        Node::Atom(s) => Node::Atom(*s),
        Node::Group(s, cs) => Node::Group(*s, copy_nodes(cs)),
        Node::MatchPoint(s) => Node::MatchPoint(*s),
        Node::Sequence(s, cs) => Node::Sequence(*s, copy_nodes(cs)),
        Node::Conjunctor(cs) => Node::Conjunctor(copy_nodes(cs)),
        Node::Disjunctor(cs) => Node::Disjunctor(copy_nodes(cs)),
        Node::Negator(b) => Node::Negator(Box::new(copy_node(b))),
        Node::SplicePair(a, b) => Node::SplicePair(*a, *b),
        Node::NoNode => Node::NoNode,
    }
}

/// Whether every node of the list is ordinary.
pub fn all_ordinary(cs: &Vec<Node>) -> (r: bool)
    ensures
        r == (forall|k: int| 0 <= k < cs.len() ==> ordinary(#[trigger] view_nodes(*cs)[k])),
    decreases cs, 0nat,
{
    let mut i: usize = 0;
    while i < cs.len()
        invariant
            i <= cs.len(),
            forall|k: int| 0 <= k < i ==> ordinary(#[trigger] view_nodes(*cs)[k]),
        decreases cs.len() - i,
    {
        if !cs[i].is_ordinary() {
            assert(!ordinary(view_nodes(*cs)[i as int]));
            return false;
        }
        i = i + 1;
    }
    true
}

/// A group is ordinary exactly when each of its children is.
pub proof fn lemma_ordinary_group(t: Term)
    requires
        t is Group,
    ensures
        ordinary(t) == (forall|i: int| 0 <= i < t->Group_1.len() ==> ordinary(#[trigger] t->Group_1[i])),
{
    assert forall|i: int| 0 <= i < t->Group_1.len() implies decreases_to!(t => t->Group_1[i]) by {
        assert(decreases_to!(t => t->Group_1));
        assert(decreases_to!(t->Group_1 => t->Group_1[i]));
    }
}

impl Node {
    /// Whether the node is an atom, or a group whose descendants are all ordinary.
    pub fn is_ordinary(&self) -> (r: bool)
        ensures
            r == ordinary(self@),
        decreases self, 1nat,
    {
        match self {
            Node::Atom(_) => true,
            Node::Group(s, cs) => {
                assert(self@ == Term::Group(*s, view_nodes(*cs)));
                proof { lemma_ordinary_group(self@); }
                all_ordinary(cs)
            },
            _ => false,
        }
    }
}

impl Clone for Node {
    fn clone(&self) -> (r: Node)
        ensures
            r@ == self@,
    {
        copy_node(self)
    }
}

} // verus!
