use vstd::prelude::*;
use crate::node::{Node, Term, view_nodes};
use crate::ns::Namespace;

verus! {

/// The text that `{:?}` writes for a string: quoted, with escapes.
pub uninterp spec fn debug_quoted(s: Seq<char>) -> Seq<char>;

/// Relies on the `Debug` formatting of `str`: the string quoted and escaped.
#[verifier::external_body]
fn quote(s: &str) -> (r: String)
    ensures
        r@ == debug_quoted(s@),
{
    format!("{:?}", s)
}

/// Relies on `String::push_str`: appends `t` to `s`.
#[verifier::external_body]
fn append(s: &mut String, t: &str)
    ensures
        final(s)@ == old(s)@ + t@,
{
    s.push_str(t)
}

/// The decimal digits of `n`.
pub open spec fn decimal(n: nat) -> Seq<char>
    decreases n,
{
    if n < 10 {
        seq![digit_char(n)]
    } else {
        decimal(n / 10).push(digit_char(n % 10))
    }
}

/// The character of a decimal digit.
pub open spec fn digit_char(d: nat) -> char {
    ((d + 48) as u8) as char
}

/// The string of symbol `v`, or `BAD_VALUE` when it has none.
pub open spec fn name_of(names: Seq<Seq<char>>, v: usize) -> Seq<char> {
    if v < names.len() {
        names[v as int]
    } else {
        "BAD_VALUE"@
    }
}

/// The surface syntax of a tree: atoms quoted, groups as `name[c1, c2]`,
/// pattern nodes as `<name>[...]`, `&[...]`, `|[...]` and `!node`.
pub open spec fn rendered(names: Seq<Seq<char>>, t: Term) -> Seq<char>
    decreases t, 1nat, 0int,
{
    match t {
        Term::Atom(v) => debug_quoted(name_of(names, v)),
        Term::Group(v, cs) => name_of(names, v) + "["@ + rendered_list(names, cs, cs.len() as int) + "]"@,
        Term::MatchPoint(v) => "<"@ + name_of(names, v) + ">"@,
        Term::Sequence(v, cs) => "<"@ + name_of(names, v) + ">"@ + "["@ + rendered_list(names, cs, cs.len() as int) + "]"@,
        Term::Conjunctor(cs) => "&"@ + "["@ + rendered_list(names, cs, cs.len() as int) + "]"@,
        Term::Disjunctor(cs) => "|"@ + "["@ + rendered_list(names, cs, cs.len() as int) + "]"@,
        Term::Negator(c) => "!"@ + rendered(names, *c),
        Term::SplicePair(s, l) => "SPLICE_PAIR(START:"@ + decimal(s) + ",LEN:"@ + decimal(l) + ")"@,
        Term::NoNode => "NO_NODE"@,
    }
}

/// The first `n` nodes of `cs` rendered and separated by `, `.
pub open spec fn rendered_list(names: Seq<Seq<char>>, cs: Seq<Term>, n: int) -> Seq<char>
    decreases cs, 0nat, n,
{
    if n <= 0 || n > cs.len() {
        Seq::empty()
    } else if n == 1 {
        rendered(names, cs[0])
    } else {
        rendered_list(names, cs, n - 1) + ", "@ + rendered(names, cs[n - 1])
    }
}

/// Writes `n` in decimal.
fn decimal_string(n: usize) -> (r: String)
    ensures
        r@ == decimal(n as nat),
    decreases n,
{
    let digits = ["0", "1", "2", "3", "4", "5", "6", "7", "8", "9"];
    let mut r = if n < 10 { String::new() } else { decimal_string(n / 10) };
    let d = digits[n % 10];
    proof {
        reveal_strlit("0");
        reveal_strlit("1");
        reveal_strlit("2");
        reveal_strlit("3");
        reveal_strlit("4");
        reveal_strlit("5");
        reveal_strlit("6");
        reveal_strlit("7");
        reveal_strlit("8");
        reveal_strlit("9");
        assert(d@ == seq![digit_char((n % 10) as nat)]);
    }
    append(&mut r, d);
    assert(r@ =~= decimal(n as nat));
    r
}

impl Namespace {
    fn append_name(&self, out: &mut String, v: usize)
        ensures
            final(out)@ == old(out)@ + name_of(self@, v),
    {
        match self.to_str(v) {
            Some(s) => append(out, s.as_str()),
            None => append(out, "BAD_VALUE"),
        }
    }

    fn append_children(&self, out: &mut String, cs: &Vec<Node>)
        ensures
            final(out)@ == old(out)@ + "["@ + rendered_list(self@, view_nodes(*cs), cs.len() as int) + "]"@,
        decreases cs, 0nat, 0int,
    {
        let ghost start = out@;
        let ghost cv = view_nodes(*cs);
        append(out, "[");
        let mut i: usize = 0;
        while i < cs.len()
            invariant
                i <= cs.len(),
                cv == view_nodes(*cs),
                out@ == start + "["@ + rendered_list(self@, cv, i as int),
            decreases cs.len() - i,
        {
            if i > 0 {
                append(out, ", ");
            }
            let piece = self.render(&cs[i]);
            append(out, piece.as_str());
            proof {
                if i == 0 {
                    assert(rendered_list(self@, cv, 0) =~= Seq::<char>::empty());
                }
            }
            assert(out@ =~= start + "["@ + rendered_list(self@, cv, i + 1));
            i = i + 1;
        }
        append(out, "]");
    }

    /// The tree written in the surface syntax, with the names this table gives.
    pub fn render(&self, node: &Node) -> (r: String)
        ensures
            r@ == rendered(self@, node@),
        decreases node, 1nat, 0int,
    {
        let mut out = String::new();
        match node {
            Node::Atom(v) => {
                let name = match self.to_str(*v) {
                    Some(s) => quote(s.as_str()),
                    None => quote("BAD_VALUE"),
                };
                append(&mut out, name.as_str());
            },
            Node::Group(v, cs) => {
                self.append_name(&mut out, *v);
                self.append_children(&mut out, cs);
            },
            Node::MatchPoint(v) => {
                append(&mut out, "<");
                self.append_name(&mut out, *v);
                append(&mut out, ">");
            },
            Node::Sequence(v, cs) => {
                append(&mut out, "<");
                self.append_name(&mut out, *v);
                append(&mut out, ">");
                self.append_children(&mut out, cs);
            },
            Node::Conjunctor(cs) => {
                append(&mut out, "&");
                self.append_children(&mut out, cs);
            },
            Node::Disjunctor(cs) => {
                append(&mut out, "|");
                self.append_children(&mut out, cs);
            },
            Node::Negator(c) => {
                append(&mut out, "!");
                let inner = self.render(c);
                append(&mut out, inner.as_str());
            },
            Node::SplicePair(s, l) => {
                append(&mut out, "SPLICE_PAIR(START:");
                let a = decimal_string(*s);
                append(&mut out, a.as_str());
                append(&mut out, ",LEN:");
                let b = decimal_string(*l);
                append(&mut out, b.as_str());
                append(&mut out, ")");
            },
            Node::NoNode => append(&mut out, "NO_NODE"),
        }
        assert(out@ =~= rendered(self@, node@));
        out
    }
}

} // verus!
