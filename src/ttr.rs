use vstd::prelude::*;
use crate::node::{Node, Term, view_nodes};
use crate::ns::{Namespace, interned_all, index_in};
use crate::rule::{Rule, RuleSet, rules_view};

verus! {

/// The symbols that the bootstrap rules are written with.
pub struct TtrSymbols {
    pub v_string: usize,
    pub v_oper: usize,
    pub v_ident: usize,
    pub k_atom: usize,
    pub k_matchpoint: usize,
    pub k_group: usize,
    pub k_sequence: usize,
    pub k_child: usize,
    pub k_children: usize,
    pub k_conjunctor: usize,
    pub k_disjunctor: usize,
    pub k_negator: usize,
    pub k_rule: usize,
    pub k_rules: usize,
    pub k_ruleset: usize,
    pub v_sequence: usize,
    pub v_x: usize,
    pub v_y: usize,
    pub v_a: usize,
    pub v_b: usize,
    pub op_lang: usize,
    pub op_rang: usize,
    pub op_lbra: usize,
    pub op_rbra: usize,
    pub op_lpar: usize,
    pub op_rpar: usize,
    pub op_exclm: usize,
    pub op_comma: usize,
    pub op_dash: usize,
    pub op_scol: usize,
    pub op_bar: usize,
    pub op_amp: usize,
    pub op_empty: usize,
}

/// The names that the bootstrap rules intern, in the order they intern them.
pub open spec fn ttr_names() -> Seq<Seq<char>> {
    seq![
        "string"@,
        "oper"@,
        "ident"@,
        "Atom"@,
        "MatchPoint"@,
        "Group"@,
        "Sequence"@,
        "Child"@,
        "Children"@,
        "Conjunctor"@,
        "Disjunctor"@,
        "Negator"@,
        "Rule"@,
        "Rules"@,
        "RuleSet"@,
        "sequence"@,
        "x"@,
        "y"@,
        "a"@,
        "b"@,
        "<"@,
        ">"@,
        "["@,
        "]"@,
        "("@,
        ")"@,
        "!"@,
        ","@,
        "-"@,
        ";"@,
        "|"@,
        "&"@,
        ""@,
    ]
}

/// The symbols of the bootstrap names in `table`.
pub open spec fn ttr_symbols(table: Seq<Seq<char>>) -> TtrSymbols {
    TtrSymbols {
        v_string: index_in(table, "string"@) as usize,
        v_oper: index_in(table, "oper"@) as usize,
        v_ident: index_in(table, "ident"@) as usize,
        k_atom: index_in(table, "Atom"@) as usize,
        k_matchpoint: index_in(table, "MatchPoint"@) as usize,
        k_group: index_in(table, "Group"@) as usize,
        k_sequence: index_in(table, "Sequence"@) as usize,
        k_child: index_in(table, "Child"@) as usize,
        k_children: index_in(table, "Children"@) as usize,
        k_conjunctor: index_in(table, "Conjunctor"@) as usize,
        k_disjunctor: index_in(table, "Disjunctor"@) as usize,
        k_negator: index_in(table, "Negator"@) as usize,
        k_rule: index_in(table, "Rule"@) as usize,
        k_rules: index_in(table, "Rules"@) as usize,
        k_ruleset: index_in(table, "RuleSet"@) as usize,
        v_sequence: index_in(table, "sequence"@) as usize,
        v_x: index_in(table, "x"@) as usize,
        v_y: index_in(table, "y"@) as usize,
        v_a: index_in(table, "a"@) as usize,
        v_b: index_in(table, "b"@) as usize,
        op_lang: index_in(table, "<"@) as usize,
        op_rang: index_in(table, ">"@) as usize,
        op_lbra: index_in(table, "["@) as usize,
        op_rbra: index_in(table, "]"@) as usize,
        op_lpar: index_in(table, "("@) as usize,
        op_rpar: index_in(table, ")"@) as usize,
        op_exclm: index_in(table, "!"@) as usize,
        op_comma: index_in(table, ","@) as usize,
        op_dash: index_in(table, "-"@) as usize,
        op_scol: index_in(table, ";"@) as usize,
        op_bar: index_in(table, "|"@) as usize,
        op_amp: index_in(table, "&"@) as usize,
        op_empty: index_in(table, ""@) as usize,
    }
}

/// The rules for string atoms and `<name>` match points.
pub open spec fn leaf_rules(s: TtrSymbols) -> Seq<(Term, Term)> {
    seq![
        (Term::Sequence(s.v_sequence, seq![Term::Group(s.v_string, seq![Term::MatchPoint(s.v_x)])]), Term::Sequence(s.v_sequence, seq![Term::Group(s.k_atom, seq![Term::MatchPoint(s.v_x)])])),
        (Term::Sequence(s.v_sequence, seq![Term::Group(s.v_oper, seq![Term::Atom(s.op_lang)]), Term::Group(s.v_ident, seq![Term::MatchPoint(s.v_x)]), Term::Group(s.v_oper, seq![Term::Atom(s.op_rang)])]), Term::Sequence(s.v_sequence, seq![Term::Group(s.k_matchpoint, seq![Term::MatchPoint(s.v_x)])])),
        (Term::Sequence(s.v_sequence, seq![Term::Group(s.v_oper, seq![Term::Atom(s.op_lang)]), Term::Group(s.v_oper, seq![Term::Atom(s.op_rang)])]), Term::Sequence(s.v_sequence, seq![Term::Group(s.k_matchpoint, seq![Term::Atom(s.op_empty)])])),
    ]
}

/// The rules that wrap a term and its children into a group or a sequence.
pub open spec fn group_rules(s: TtrSymbols) -> Seq<(Term, Term)> {
    seq![
        (Term::Sequence(s.v_sequence, seq![Term::Group(s.k_atom, seq![Term::MatchPoint(s.v_x)]), Term::Group(s.k_children, seq![Term::MatchPoint(s.v_y)])]), Term::Sequence(s.v_sequence, seq![Term::Group(s.k_group, seq![Term::MatchPoint(s.v_x), Term::Group(s.k_children, seq![Term::MatchPoint(s.v_y)])])])),
        (Term::Sequence(s.v_sequence, seq![Term::Group(s.v_ident, seq![Term::MatchPoint(s.v_x)]), Term::Group(s.k_children, seq![Term::MatchPoint(s.v_y)])]), Term::Sequence(s.v_sequence, seq![Term::Group(s.k_group, seq![Term::MatchPoint(s.v_x), Term::Group(s.k_children, seq![Term::MatchPoint(s.v_y)])])])),
        (Term::Sequence(s.v_sequence, seq![Term::Group(s.k_matchpoint, seq![Term::MatchPoint(s.v_x)]), Term::Group(s.k_children, seq![Term::MatchPoint(s.v_y)])]), Term::Sequence(s.v_sequence, seq![Term::Group(s.k_sequence, seq![Term::MatchPoint(s.v_x), Term::Group(s.k_children, seq![Term::MatchPoint(s.v_y)])])])),
        (Term::Sequence(s.v_sequence, seq![Term::Group(s.v_oper, seq![Term::Atom(s.op_lpar)]), Term::Group(s.v_ident, seq![Term::MatchPoint(s.v_x)]), Term::Group(s.v_oper, seq![Term::Atom(s.op_rpar)]), Term::Group(s.k_children, seq![Term::MatchPoint(s.v_y)])]), Term::Sequence(s.v_sequence, seq![Term::Group(s.k_sequence, seq![Term::MatchPoint(s.v_x), Term::Group(s.k_children, seq![Term::MatchPoint(s.v_y)])])])),
    ]
}

/// The rules for `|[...]` and `&[...]`.
pub open spec fn junction_rules(s: TtrSymbols) -> Seq<(Term, Term)> {
    seq![
        (Term::Sequence(s.v_sequence, seq![Term::Group(s.v_oper, seq![Term::Atom(s.op_bar)]), Term::Group(s.k_children, seq![Term::MatchPoint(s.v_x)])]), Term::Sequence(s.v_sequence, seq![Term::Group(s.k_disjunctor, seq![Term::Group(s.k_children, seq![Term::MatchPoint(s.v_x)])])])),
        (Term::Sequence(s.v_sequence, seq![Term::Group(s.v_oper, seq![Term::Atom(s.op_amp)]), Term::Group(s.k_children, seq![Term::MatchPoint(s.v_x)])]), Term::Sequence(s.v_sequence, seq![Term::Group(s.k_conjunctor, seq![Term::Group(s.k_children, seq![Term::MatchPoint(s.v_x)])])])),
    ]
}

/// The rules for `!term` and for the first child after `[`.
pub open spec fn negator_and_initiator_rules(s: TtrSymbols) -> Seq<(Term, Term)> {
    seq![
        (Term::Sequence(s.v_sequence, seq![Term::Group(s.v_oper, seq![Term::Atom(s.op_exclm)]), Term::Group(s.k_atom, seq![Term::MatchPoint(s.v_x)])]), Term::Sequence(s.v_sequence, seq![Term::Group(s.k_negator, seq![Term::Group(s.k_atom, seq![Term::MatchPoint(s.v_x)])])])),
        (Term::Sequence(s.v_sequence, seq![Term::Group(s.v_oper, seq![Term::Atom(s.op_exclm)]), Term::Group(s.k_matchpoint, seq![Term::MatchPoint(s.v_x)])]), Term::Sequence(s.v_sequence, seq![Term::Group(s.k_negator, seq![Term::Group(s.k_matchpoint, seq![Term::MatchPoint(s.v_x)])])])),
        (Term::Sequence(s.v_sequence, seq![Term::Group(s.v_oper, seq![Term::Atom(s.op_exclm)]), Term::Group(s.k_group, seq![Term::MatchPoint(s.v_x), Term::MatchPoint(s.v_y)])]), Term::Sequence(s.v_sequence, seq![Term::Group(s.k_negator, seq![Term::Group(s.k_group, seq![Term::MatchPoint(s.v_x), Term::MatchPoint(s.v_y)])])])),
        (Term::Sequence(s.v_sequence, seq![Term::Group(s.v_oper, seq![Term::Atom(s.op_exclm)]), Term::Group(s.k_sequence, seq![Term::MatchPoint(s.v_x), Term::MatchPoint(s.v_y)])]), Term::Sequence(s.v_sequence, seq![Term::Group(s.k_negator, seq![Term::Group(s.k_sequence, seq![Term::MatchPoint(s.v_x), Term::MatchPoint(s.v_y)])])])),
        (Term::Sequence(s.v_sequence, seq![Term::Group(s.v_oper, seq![Term::Atom(s.op_exclm)]), Term::Group(s.k_disjunctor, seq![Term::MatchPoint(s.v_x)])]), Term::Sequence(s.v_sequence, seq![Term::Group(s.k_negator, seq![Term::Group(s.k_disjunctor, seq![Term::MatchPoint(s.v_x)])])])),
        (Term::Sequence(s.v_sequence, seq![Term::Group(s.v_oper, seq![Term::Atom(s.op_exclm)]), Term::Group(s.k_conjunctor, seq![Term::MatchPoint(s.v_y)])]), Term::Sequence(s.v_sequence, seq![Term::Group(s.k_negator, seq![Term::Group(s.k_conjunctor, seq![Term::MatchPoint(s.v_y)])])])),
        (Term::Sequence(s.v_sequence, seq![Term::Group(s.v_oper, seq![Term::Atom(s.op_lbra)]), Term::Group(s.k_atom, seq![Term::MatchPoint(s.v_x)])]), Term::Sequence(s.v_sequence, seq![Term::Group(s.k_child, seq![Term::Group(s.k_atom, seq![Term::MatchPoint(s.v_x)])])])),
        (Term::Sequence(s.v_sequence, seq![Term::Group(s.v_oper, seq![Term::Atom(s.op_lbra)]), Term::Group(s.k_matchpoint, seq![Term::MatchPoint(s.v_x)])]), Term::Sequence(s.v_sequence, seq![Term::Group(s.k_child, seq![Term::Group(s.k_matchpoint, seq![Term::MatchPoint(s.v_x)])])])),
        (Term::Sequence(s.v_sequence, seq![Term::Group(s.v_oper, seq![Term::Atom(s.op_lbra)]), Term::Group(s.k_group, seq![Term::MatchPoint(s.v_x), Term::MatchPoint(s.v_y)])]), Term::Sequence(s.v_sequence, seq![Term::Group(s.k_child, seq![Term::Group(s.k_group, seq![Term::MatchPoint(s.v_x), Term::MatchPoint(s.v_y)])])])),
        (Term::Sequence(s.v_sequence, seq![Term::Group(s.v_oper, seq![Term::Atom(s.op_lbra)]), Term::Group(s.k_sequence, seq![Term::MatchPoint(s.v_x), Term::MatchPoint(s.v_y)])]), Term::Sequence(s.v_sequence, seq![Term::Group(s.k_child, seq![Term::Group(s.k_sequence, seq![Term::MatchPoint(s.v_x), Term::MatchPoint(s.v_y)])])])),
        (Term::Sequence(s.v_sequence, seq![Term::Group(s.v_oper, seq![Term::Atom(s.op_lbra)]), Term::Group(s.k_disjunctor, seq![Term::MatchPoint(s.v_x)])]), Term::Sequence(s.v_sequence, seq![Term::Group(s.k_child, seq![Term::Group(s.k_disjunctor, seq![Term::MatchPoint(s.v_x)])])])),
        (Term::Sequence(s.v_sequence, seq![Term::Group(s.v_oper, seq![Term::Atom(s.op_lbra)]), Term::Group(s.k_conjunctor, seq![Term::MatchPoint(s.v_y)])]), Term::Sequence(s.v_sequence, seq![Term::Group(s.k_child, seq![Term::Group(s.k_conjunctor, seq![Term::MatchPoint(s.v_y)])])])),
    ]
}

/// The rules that extend a child list after a comma.
pub open spec fn continuation_rules(s: TtrSymbols) -> Seq<(Term, Term)> {
    seq![
        (Term::Sequence(s.v_sequence, seq![Term::Group(s.k_child, seq![Term::MatchPoint(s.v_a)]), Term::Group(s.v_oper, seq![Term::Atom(s.op_comma)]), Term::Group(s.k_atom, seq![Term::MatchPoint(s.v_x)])]), Term::Sequence(s.v_sequence, seq![Term::Group(s.k_child, seq![Term::MatchPoint(s.v_a), Term::Group(s.k_atom, seq![Term::MatchPoint(s.v_x)])])])),
        (Term::Sequence(s.v_sequence, seq![Term::Group(s.k_child, seq![Term::MatchPoint(s.v_a)]), Term::Group(s.v_oper, seq![Term::Atom(s.op_comma)]), Term::Group(s.k_matchpoint, seq![Term::MatchPoint(s.v_x)])]), Term::Sequence(s.v_sequence, seq![Term::Group(s.k_child, seq![Term::MatchPoint(s.v_a), Term::Group(s.k_matchpoint, seq![Term::MatchPoint(s.v_x)])])])),
        (Term::Sequence(s.v_sequence, seq![Term::Group(s.k_child, seq![Term::MatchPoint(s.v_a)]), Term::Group(s.v_oper, seq![Term::Atom(s.op_comma)]), Term::Group(s.k_group, seq![Term::MatchPoint(s.v_x), Term::MatchPoint(s.v_y)])]), Term::Sequence(s.v_sequence, seq![Term::Group(s.k_child, seq![Term::MatchPoint(s.v_a), Term::Group(s.k_group, seq![Term::MatchPoint(s.v_x), Term::MatchPoint(s.v_y)])])])),
        (Term::Sequence(s.v_sequence, seq![Term::Group(s.k_child, seq![Term::MatchPoint(s.v_a)]), Term::Group(s.v_oper, seq![Term::Atom(s.op_comma)]), Term::Group(s.k_sequence, seq![Term::MatchPoint(s.v_x), Term::MatchPoint(s.v_y)])]), Term::Sequence(s.v_sequence, seq![Term::Group(s.k_child, seq![Term::MatchPoint(s.v_a), Term::Group(s.k_sequence, seq![Term::MatchPoint(s.v_x), Term::MatchPoint(s.v_y)])])])),
        (Term::Sequence(s.v_sequence, seq![Term::Group(s.k_child, seq![Term::MatchPoint(s.v_a)]), Term::Group(s.v_oper, seq![Term::Atom(s.op_comma)]), Term::Group(s.k_disjunctor, seq![Term::MatchPoint(s.v_x)])]), Term::Sequence(s.v_sequence, seq![Term::Group(s.k_child, seq![Term::MatchPoint(s.v_a), Term::Group(s.k_disjunctor, seq![Term::MatchPoint(s.v_x)])])])),
        (Term::Sequence(s.v_sequence, seq![Term::Group(s.k_child, seq![Term::MatchPoint(s.v_a)]), Term::Group(s.v_oper, seq![Term::Atom(s.op_comma)]), Term::Group(s.k_conjunctor, seq![Term::MatchPoint(s.v_y)])]), Term::Sequence(s.v_sequence, seq![Term::Group(s.k_child, seq![Term::MatchPoint(s.v_a), Term::Group(s.k_conjunctor, seq![Term::MatchPoint(s.v_y)])])])),
        (Term::Sequence(s.v_sequence, seq![Term::Group(s.k_child, seq![Term::MatchPoint(s.v_a), Term::MatchPoint(s.v_b)]), Term::Group(s.v_oper, seq![Term::Atom(s.op_comma)]), Term::Group(s.k_atom, seq![Term::MatchPoint(s.v_x)])]), Term::Sequence(s.v_sequence, seq![Term::Group(s.k_child, seq![Term::Group(s.k_child, seq![Term::MatchPoint(s.v_a), Term::MatchPoint(s.v_b)]), Term::Group(s.k_atom, seq![Term::MatchPoint(s.v_x)])])])),
        (Term::Sequence(s.v_sequence, seq![Term::Group(s.k_child, seq![Term::MatchPoint(s.v_a), Term::MatchPoint(s.v_b)]), Term::Group(s.v_oper, seq![Term::Atom(s.op_comma)]), Term::Group(s.k_matchpoint, seq![Term::MatchPoint(s.v_x)])]), Term::Sequence(s.v_sequence, seq![Term::Group(s.k_child, seq![Term::Group(s.k_child, seq![Term::MatchPoint(s.v_a), Term::MatchPoint(s.v_b)]), Term::Group(s.k_matchpoint, seq![Term::MatchPoint(s.v_x)])])])),
        (Term::Sequence(s.v_sequence, seq![Term::Group(s.k_child, seq![Term::MatchPoint(s.v_a), Term::MatchPoint(s.v_b)]), Term::Group(s.v_oper, seq![Term::Atom(s.op_comma)]), Term::Group(s.k_group, seq![Term::MatchPoint(s.v_x), Term::MatchPoint(s.v_y)])]), Term::Sequence(s.v_sequence, seq![Term::Group(s.k_child, seq![Term::Group(s.k_child, seq![Term::MatchPoint(s.v_a), Term::MatchPoint(s.v_b)]), Term::Group(s.k_group, seq![Term::MatchPoint(s.v_x), Term::MatchPoint(s.v_y)])])])),
        (Term::Sequence(s.v_sequence, seq![Term::Group(s.k_child, seq![Term::MatchPoint(s.v_a), Term::MatchPoint(s.v_b)]), Term::Group(s.v_oper, seq![Term::Atom(s.op_comma)]), Term::Group(s.k_sequence, seq![Term::MatchPoint(s.v_x), Term::MatchPoint(s.v_y)])]), Term::Sequence(s.v_sequence, seq![Term::Group(s.k_child, seq![Term::Group(s.k_child, seq![Term::MatchPoint(s.v_a), Term::MatchPoint(s.v_b)]), Term::Group(s.k_sequence, seq![Term::MatchPoint(s.v_x), Term::MatchPoint(s.v_y)])])])),
        (Term::Sequence(s.v_sequence, seq![Term::Group(s.k_child, seq![Term::MatchPoint(s.v_a), Term::MatchPoint(s.v_b)]), Term::Group(s.v_oper, seq![Term::Atom(s.op_comma)]), Term::Group(s.k_disjunctor, seq![Term::MatchPoint(s.v_x)])]), Term::Sequence(s.v_sequence, seq![Term::Group(s.k_child, seq![Term::Group(s.k_child, seq![Term::MatchPoint(s.v_a), Term::MatchPoint(s.v_b)]), Term::Group(s.k_disjunctor, seq![Term::MatchPoint(s.v_x)])])])),
        (Term::Sequence(s.v_sequence, seq![Term::Group(s.k_child, seq![Term::MatchPoint(s.v_a), Term::MatchPoint(s.v_b)]), Term::Group(s.v_oper, seq![Term::Atom(s.op_comma)]), Term::Group(s.k_conjunctor, seq![Term::MatchPoint(s.v_y)])]), Term::Sequence(s.v_sequence, seq![Term::Group(s.k_child, seq![Term::Group(s.k_child, seq![Term::MatchPoint(s.v_a), Term::MatchPoint(s.v_b)]), Term::Group(s.k_conjunctor, seq![Term::MatchPoint(s.v_y)])])])),
    ]
}

/// The rules that close a child list at `]`.
pub open spec fn terminator_rules(s: TtrSymbols) -> Seq<(Term, Term)> {
    seq![
        (Term::Sequence(s.v_sequence, seq![Term::Group(s.k_child, seq![Term::MatchPoint(s.v_a)]), Term::Group(s.v_oper, seq![Term::Atom(s.op_rbra)])]), Term::Sequence(s.v_sequence, seq![Term::Group(s.k_children, seq![Term::Group(s.k_child, seq![Term::MatchPoint(s.v_a)])])])),
        (Term::Sequence(s.v_sequence, seq![Term::Group(s.k_child, seq![Term::MatchPoint(s.v_a), Term::MatchPoint(s.v_b)]), Term::Group(s.v_oper, seq![Term::Atom(s.op_rbra)])]), Term::Sequence(s.v_sequence, seq![Term::Group(s.k_children, seq![Term::Group(s.k_child, seq![Term::MatchPoint(s.v_a), Term::MatchPoint(s.v_b)])])])),
    ]
}

/// The rules for `lhs -> rhs`.
pub open spec fn rule_rules(s: TtrSymbols) -> Seq<(Term, Term)> {
    seq![
        (Term::Sequence(s.v_sequence, seq![Term::Group(s.k_atom, seq![Term::MatchPoint(s.v_x)]), Term::Group(s.v_oper, seq![Term::Atom(s.op_dash)]), Term::Group(s.v_oper, seq![Term::Atom(s.op_rang)]), Term::Group(s.k_atom, seq![Term::MatchPoint(s.v_a)])]), Term::Sequence(s.v_sequence, seq![Term::Group(s.k_rule, seq![Term::Group(s.k_atom, seq![Term::MatchPoint(s.v_x)]), Term::Group(s.k_atom, seq![Term::MatchPoint(s.v_a)])])])),
        (Term::Sequence(s.v_sequence, seq![Term::Group(s.k_atom, seq![Term::MatchPoint(s.v_x)]), Term::Group(s.v_oper, seq![Term::Atom(s.op_dash)]), Term::Group(s.v_oper, seq![Term::Atom(s.op_rang)]), Term::Group(s.k_group, seq![Term::MatchPoint(s.v_a), Term::MatchPoint(s.v_b)])]), Term::Sequence(s.v_sequence, seq![Term::Group(s.k_rule, seq![Term::Group(s.k_atom, seq![Term::MatchPoint(s.v_x)]), Term::Group(s.k_group, seq![Term::MatchPoint(s.v_a), Term::MatchPoint(s.v_b)])])])),
        (Term::Sequence(s.v_sequence, seq![Term::Group(s.k_group, seq![Term::MatchPoint(s.v_x), Term::MatchPoint(s.v_y)]), Term::Group(s.v_oper, seq![Term::Atom(s.op_dash)]), Term::Group(s.v_oper, seq![Term::Atom(s.op_rang)]), Term::Group(s.k_atom, seq![Term::MatchPoint(s.v_a)])]), Term::Sequence(s.v_sequence, seq![Term::Group(s.k_rule, seq![Term::Group(s.k_group, seq![Term::MatchPoint(s.v_x), Term::MatchPoint(s.v_y)]), Term::Group(s.k_atom, seq![Term::MatchPoint(s.v_a)])])])),
        (Term::Sequence(s.v_sequence, seq![Term::Group(s.k_group, seq![Term::MatchPoint(s.v_x), Term::MatchPoint(s.v_y)]), Term::Group(s.v_oper, seq![Term::Atom(s.op_dash)]), Term::Group(s.v_oper, seq![Term::Atom(s.op_rang)]), Term::Group(s.k_group, seq![Term::MatchPoint(s.v_a), Term::MatchPoint(s.v_b)])]), Term::Sequence(s.v_sequence, seq![Term::Group(s.k_rule, seq![Term::Group(s.k_group, seq![Term::MatchPoint(s.v_x), Term::MatchPoint(s.v_y)]), Term::Group(s.k_group, seq![Term::MatchPoint(s.v_a), Term::MatchPoint(s.v_b)])])])),
        (Term::Sequence(s.v_sequence, seq![Term::Group(s.k_sequence, seq![Term::MatchPoint(s.v_x), Term::MatchPoint(s.v_y)]), Term::Group(s.v_oper, seq![Term::Atom(s.op_dash)]), Term::Group(s.v_oper, seq![Term::Atom(s.op_rang)]), Term::Group(s.k_sequence, seq![Term::MatchPoint(s.v_a), Term::MatchPoint(s.v_b)])]), Term::Sequence(s.v_sequence, seq![Term::Group(s.k_rule, seq![Term::Group(s.k_sequence, seq![Term::MatchPoint(s.v_x), Term::MatchPoint(s.v_y)]), Term::Group(s.k_sequence, seq![Term::MatchPoint(s.v_a), Term::MatchPoint(s.v_b)])])])),
    ]
}

/// The rules that collect rules closed by `;` into a rule set.
pub open spec fn ruleset_rules(s: TtrSymbols) -> Seq<(Term, Term)> {
    seq![
        (Term::Sequence(s.v_sequence, seq![Term::Group(s.k_rule, seq![Term::MatchPoint(s.v_x), Term::MatchPoint(s.v_y)]), Term::Group(s.v_oper, seq![Term::Atom(s.op_scol)])]), Term::Sequence(s.v_sequence, seq![Term::Group(s.k_ruleset, seq![Term::Group(s.k_rules, seq![Term::Group(s.k_rule, seq![Term::MatchPoint(s.v_x), Term::MatchPoint(s.v_y)])])])])),
        (Term::Sequence(s.v_sequence, seq![Term::Group(s.k_ruleset, seq![Term::Group(s.k_rules, seq![Term::MatchPoint(s.v_a)])]), Term::Group(s.k_rule, seq![Term::MatchPoint(s.v_x), Term::MatchPoint(s.v_y)]), Term::Group(s.v_oper, seq![Term::Atom(s.op_scol)])]), Term::Sequence(s.v_sequence, seq![Term::Group(s.k_ruleset, seq![Term::Group(s.k_rules, seq![Term::MatchPoint(s.v_a), Term::Group(s.k_rule, seq![Term::MatchPoint(s.v_x), Term::MatchPoint(s.v_y)])])])])),
        (Term::Sequence(s.v_sequence, seq![Term::Group(s.k_ruleset, seq![Term::Group(s.k_rules, seq![Term::MatchPoint(s.v_a), Term::MatchPoint(s.v_b)])]), Term::Group(s.k_rule, seq![Term::MatchPoint(s.v_x), Term::MatchPoint(s.v_y)]), Term::Group(s.v_oper, seq![Term::Atom(s.op_scol)])]), Term::Sequence(s.v_sequence, seq![Term::Group(s.k_ruleset, seq![Term::Group(s.k_rules, seq![Term::Group(s.k_rules, seq![Term::MatchPoint(s.v_a), Term::MatchPoint(s.v_b)]), Term::Group(s.k_rule, seq![Term::MatchPoint(s.v_x), Term::MatchPoint(s.v_y)])])])])),
        (Term::Sequence(s.v_sequence, seq![Term::Group(s.k_ruleset, seq![Term::MatchPoint(s.v_x)]), Term::Group(s.k_ruleset, seq![Term::MatchPoint(s.v_y)])]), Term::Sequence(s.v_sequence, seq![Term::Group(s.k_ruleset, seq![Term::Group(s.k_rules, seq![Term::MatchPoint(s.v_x), Term::MatchPoint(s.v_y)])])])),
    ]
}

/// The bootstrap rules over the symbols `s`, in the order they are tried.
pub open spec fn ttr_rules(s: TtrSymbols) -> Seq<(Term, Term)> {
    leaf_rules(s) + group_rules(s) + junction_rules(s) + negator_and_initiator_rules(s) + continuation_rules(s) + terminator_rules(s) + rule_rules(s) + ruleset_rules(s)
}

/// A group node.
fn group(n: usize, cs: Vec<Node>) -> (r: Node)
    ensures
        r@ == Term::Group(n, view_nodes(cs)),
{
    Node::Group(n, cs)
}

/// A list of one node.
fn one(a: Node) -> (r: Vec<Node>)
    ensures
        view_nodes(r) == seq![a@],
{
    let ghost av = a@;
    let v = vec![a];
    assert(view_nodes(v) =~= seq![av]);
    v
}

/// A list of two nodes.
fn two(a: Node, b: Node) -> (r: Vec<Node>)
    ensures
        view_nodes(r) == seq![a@, b@],
{
    let ghost (av, bv) = (a@, b@);
    let v = vec![a, b];
    assert(view_nodes(v) =~= seq![av, bv]);
    v
}

/// A list of three nodes.
fn three(a: Node, b: Node, c: Node) -> (r: Vec<Node>)
    ensures
        view_nodes(r) == seq![a@, b@, c@],
{
    let ghost (av, bv, cv) = (a@, b@, c@);
    let v = vec![a, b, c];
    assert(view_nodes(v) =~= seq![av, bv, cv]);
    v
}

/// A list of four nodes.
fn four(a: Node, b: Node, c: Node, d: Node) -> (r: Vec<Node>)
    ensures
        view_nodes(r) == seq![a@, b@, c@, d@],
{
    let ghost (av, bv, cv, dv) = (a@, b@, c@, d@);
    let v = vec![a, b, c, d];
    assert(view_nodes(v) =~= seq![av, bv, cv, dv]);
    v
}

/// Appends the rule that rewrites a window matching `lhs` into `rhs`.
fn push_rule(rules: &mut RuleSet, v: usize, lhs: Vec<Node>, rhs: Vec<Node>)
    ensures
        rules_view(final(rules)@) == rules_view(old(rules)@).push(
            (Term::Sequence(v, view_nodes(lhs)), Term::Sequence(v, view_nodes(rhs)))),
{
    let ghost (lv, rv) = (view_nodes(lhs), view_nodes(rhs));
    let rule = Rule { lhs: Node::Sequence(v, lhs), rhs: Node::Sequence(v, rhs) };
    assert(rule@ == (Term::Sequence(v, lv), Term::Sequence(v, rv)));
    rules.push(rule);
    assert(rules_view(rules@) =~= rules_view(old(rules)@).push((Term::Sequence(v, lv), Term::Sequence(v, rv))));
}

/// Adds the rules for string atoms and `<name>` match points.
fn add_leaf_rules(rules: &mut RuleSet, s: &TtrSymbols)
    ensures
        rules_view(final(rules)@) == rules_view(old(rules)@) + leaf_rules(*s),
{
    push_rule(rules, s.v_sequence, one(group(s.v_string, one(Node::MatchPoint(s.v_x)))), one(group(s.k_atom, one(Node::MatchPoint(s.v_x)))));
    push_rule(rules, s.v_sequence, three(group(s.v_oper, one(Node::Atom(s.op_lang))), group(s.v_ident, one(Node::MatchPoint(s.v_x))), group(s.v_oper, one(Node::Atom(s.op_rang)))), one(group(s.k_matchpoint, one(Node::MatchPoint(s.v_x)))));
    push_rule(rules, s.v_sequence, two(group(s.v_oper, one(Node::Atom(s.op_lang))), group(s.v_oper, one(Node::Atom(s.op_rang)))), one(group(s.k_matchpoint, one(Node::Atom(s.op_empty)))));
    assert(rules_view(rules@) =~= rules_view(old(rules)@) + leaf_rules(*s));
}

/// Adds the rules that wrap a term and its children into a group or a sequence.
fn add_group_rules(rules: &mut RuleSet, s: &TtrSymbols)
    ensures
        rules_view(final(rules)@) == rules_view(old(rules)@) + group_rules(*s),
{
    push_rule(rules, s.v_sequence, two(group(s.k_atom, one(Node::MatchPoint(s.v_x))), group(s.k_children, one(Node::MatchPoint(s.v_y)))), one(group(s.k_group, two(Node::MatchPoint(s.v_x), group(s.k_children, one(Node::MatchPoint(s.v_y)))))));
    push_rule(rules, s.v_sequence, two(group(s.v_ident, one(Node::MatchPoint(s.v_x))), group(s.k_children, one(Node::MatchPoint(s.v_y)))), one(group(s.k_group, two(Node::MatchPoint(s.v_x), group(s.k_children, one(Node::MatchPoint(s.v_y)))))));
    push_rule(rules, s.v_sequence, two(group(s.k_matchpoint, one(Node::MatchPoint(s.v_x))), group(s.k_children, one(Node::MatchPoint(s.v_y)))), one(group(s.k_sequence, two(Node::MatchPoint(s.v_x), group(s.k_children, one(Node::MatchPoint(s.v_y)))))));
    push_rule(rules, s.v_sequence, four(group(s.v_oper, one(Node::Atom(s.op_lpar))), group(s.v_ident, one(Node::MatchPoint(s.v_x))), group(s.v_oper, one(Node::Atom(s.op_rpar))), group(s.k_children, one(Node::MatchPoint(s.v_y)))), one(group(s.k_sequence, two(Node::MatchPoint(s.v_x), group(s.k_children, one(Node::MatchPoint(s.v_y)))))));
    assert(rules_view(rules@) =~= rules_view(old(rules)@) + group_rules(*s));
}

/// Adds the rules for `|[...]` and `&[...]`.
fn add_junction_rules(rules: &mut RuleSet, s: &TtrSymbols)
    ensures
        rules_view(final(rules)@) == rules_view(old(rules)@) + junction_rules(*s),
{
    push_rule(rules, s.v_sequence, two(group(s.v_oper, one(Node::Atom(s.op_bar))), group(s.k_children, one(Node::MatchPoint(s.v_x)))), one(group(s.k_disjunctor, one(group(s.k_children, one(Node::MatchPoint(s.v_x)))))));
    push_rule(rules, s.v_sequence, two(group(s.v_oper, one(Node::Atom(s.op_amp))), group(s.k_children, one(Node::MatchPoint(s.v_x)))), one(group(s.k_conjunctor, one(group(s.k_children, one(Node::MatchPoint(s.v_x)))))));
    assert(rules_view(rules@) =~= rules_view(old(rules)@) + junction_rules(*s));
}

/// Adds the rules for `!term` and for the first child after `[`.
fn add_negator_and_initiator_rules(rules: &mut RuleSet, s: &TtrSymbols)
    ensures
        rules_view(final(rules)@) == rules_view(old(rules)@) + negator_and_initiator_rules(*s),
{
    push_rule(rules, s.v_sequence, two(group(s.v_oper, one(Node::Atom(s.op_exclm))), group(s.k_atom, one(Node::MatchPoint(s.v_x)))), one(group(s.k_negator, one(group(s.k_atom, one(Node::MatchPoint(s.v_x)))))));
    push_rule(rules, s.v_sequence, two(group(s.v_oper, one(Node::Atom(s.op_exclm))), group(s.k_matchpoint, one(Node::MatchPoint(s.v_x)))), one(group(s.k_negator, one(group(s.k_matchpoint, one(Node::MatchPoint(s.v_x)))))));
    push_rule(rules, s.v_sequence, two(group(s.v_oper, one(Node::Atom(s.op_exclm))), group(s.k_group, two(Node::MatchPoint(s.v_x), Node::MatchPoint(s.v_y)))), one(group(s.k_negator, one(group(s.k_group, two(Node::MatchPoint(s.v_x), Node::MatchPoint(s.v_y)))))));
    push_rule(rules, s.v_sequence, two(group(s.v_oper, one(Node::Atom(s.op_exclm))), group(s.k_sequence, two(Node::MatchPoint(s.v_x), Node::MatchPoint(s.v_y)))), one(group(s.k_negator, one(group(s.k_sequence, two(Node::MatchPoint(s.v_x), Node::MatchPoint(s.v_y)))))));
    push_rule(rules, s.v_sequence, two(group(s.v_oper, one(Node::Atom(s.op_exclm))), group(s.k_disjunctor, one(Node::MatchPoint(s.v_x)))), one(group(s.k_negator, one(group(s.k_disjunctor, one(Node::MatchPoint(s.v_x)))))));
    push_rule(rules, s.v_sequence, two(group(s.v_oper, one(Node::Atom(s.op_exclm))), group(s.k_conjunctor, one(Node::MatchPoint(s.v_y)))), one(group(s.k_negator, one(group(s.k_conjunctor, one(Node::MatchPoint(s.v_y)))))));
    push_rule(rules, s.v_sequence, two(group(s.v_oper, one(Node::Atom(s.op_lbra))), group(s.k_atom, one(Node::MatchPoint(s.v_x)))), one(group(s.k_child, one(group(s.k_atom, one(Node::MatchPoint(s.v_x)))))));
    push_rule(rules, s.v_sequence, two(group(s.v_oper, one(Node::Atom(s.op_lbra))), group(s.k_matchpoint, one(Node::MatchPoint(s.v_x)))), one(group(s.k_child, one(group(s.k_matchpoint, one(Node::MatchPoint(s.v_x)))))));
    push_rule(rules, s.v_sequence, two(group(s.v_oper, one(Node::Atom(s.op_lbra))), group(s.k_group, two(Node::MatchPoint(s.v_x), Node::MatchPoint(s.v_y)))), one(group(s.k_child, one(group(s.k_group, two(Node::MatchPoint(s.v_x), Node::MatchPoint(s.v_y)))))));
    push_rule(rules, s.v_sequence, two(group(s.v_oper, one(Node::Atom(s.op_lbra))), group(s.k_sequence, two(Node::MatchPoint(s.v_x), Node::MatchPoint(s.v_y)))), one(group(s.k_child, one(group(s.k_sequence, two(Node::MatchPoint(s.v_x), Node::MatchPoint(s.v_y)))))));
    push_rule(rules, s.v_sequence, two(group(s.v_oper, one(Node::Atom(s.op_lbra))), group(s.k_disjunctor, one(Node::MatchPoint(s.v_x)))), one(group(s.k_child, one(group(s.k_disjunctor, one(Node::MatchPoint(s.v_x)))))));
    push_rule(rules, s.v_sequence, two(group(s.v_oper, one(Node::Atom(s.op_lbra))), group(s.k_conjunctor, one(Node::MatchPoint(s.v_y)))), one(group(s.k_child, one(group(s.k_conjunctor, one(Node::MatchPoint(s.v_y)))))));
    assert(rules_view(rules@) =~= rules_view(old(rules)@) + negator_and_initiator_rules(*s));
}

/// Adds the rules that extend a child list after a comma.
fn add_continuation_rules(rules: &mut RuleSet, s: &TtrSymbols)
    ensures
        rules_view(final(rules)@) == rules_view(old(rules)@) + continuation_rules(*s),
{
    push_rule(rules, s.v_sequence, three(group(s.k_child, one(Node::MatchPoint(s.v_a))), group(s.v_oper, one(Node::Atom(s.op_comma))), group(s.k_atom, one(Node::MatchPoint(s.v_x)))), one(group(s.k_child, two(Node::MatchPoint(s.v_a), group(s.k_atom, one(Node::MatchPoint(s.v_x)))))));
    push_rule(rules, s.v_sequence, three(group(s.k_child, one(Node::MatchPoint(s.v_a))), group(s.v_oper, one(Node::Atom(s.op_comma))), group(s.k_matchpoint, one(Node::MatchPoint(s.v_x)))), one(group(s.k_child, two(Node::MatchPoint(s.v_a), group(s.k_matchpoint, one(Node::MatchPoint(s.v_x)))))));
    push_rule(rules, s.v_sequence, three(group(s.k_child, one(Node::MatchPoint(s.v_a))), group(s.v_oper, one(Node::Atom(s.op_comma))), group(s.k_group, two(Node::MatchPoint(s.v_x), Node::MatchPoint(s.v_y)))), one(group(s.k_child, two(Node::MatchPoint(s.v_a), group(s.k_group, two(Node::MatchPoint(s.v_x), Node::MatchPoint(s.v_y)))))));
    push_rule(rules, s.v_sequence, three(group(s.k_child, one(Node::MatchPoint(s.v_a))), group(s.v_oper, one(Node::Atom(s.op_comma))), group(s.k_sequence, two(Node::MatchPoint(s.v_x), Node::MatchPoint(s.v_y)))), one(group(s.k_child, two(Node::MatchPoint(s.v_a), group(s.k_sequence, two(Node::MatchPoint(s.v_x), Node::MatchPoint(s.v_y)))))));
    push_rule(rules, s.v_sequence, three(group(s.k_child, one(Node::MatchPoint(s.v_a))), group(s.v_oper, one(Node::Atom(s.op_comma))), group(s.k_disjunctor, one(Node::MatchPoint(s.v_x)))), one(group(s.k_child, two(Node::MatchPoint(s.v_a), group(s.k_disjunctor, one(Node::MatchPoint(s.v_x)))))));
    push_rule(rules, s.v_sequence, three(group(s.k_child, one(Node::MatchPoint(s.v_a))), group(s.v_oper, one(Node::Atom(s.op_comma))), group(s.k_conjunctor, one(Node::MatchPoint(s.v_y)))), one(group(s.k_child, two(Node::MatchPoint(s.v_a), group(s.k_conjunctor, one(Node::MatchPoint(s.v_y)))))));
    push_rule(rules, s.v_sequence, three(group(s.k_child, two(Node::MatchPoint(s.v_a), Node::MatchPoint(s.v_b))), group(s.v_oper, one(Node::Atom(s.op_comma))), group(s.k_atom, one(Node::MatchPoint(s.v_x)))), one(group(s.k_child, two(group(s.k_child, two(Node::MatchPoint(s.v_a), Node::MatchPoint(s.v_b))), group(s.k_atom, one(Node::MatchPoint(s.v_x)))))));
    push_rule(rules, s.v_sequence, three(group(s.k_child, two(Node::MatchPoint(s.v_a), Node::MatchPoint(s.v_b))), group(s.v_oper, one(Node::Atom(s.op_comma))), group(s.k_matchpoint, one(Node::MatchPoint(s.v_x)))), one(group(s.k_child, two(group(s.k_child, two(Node::MatchPoint(s.v_a), Node::MatchPoint(s.v_b))), group(s.k_matchpoint, one(Node::MatchPoint(s.v_x)))))));
    push_rule(rules, s.v_sequence, three(group(s.k_child, two(Node::MatchPoint(s.v_a), Node::MatchPoint(s.v_b))), group(s.v_oper, one(Node::Atom(s.op_comma))), group(s.k_group, two(Node::MatchPoint(s.v_x), Node::MatchPoint(s.v_y)))), one(group(s.k_child, two(group(s.k_child, two(Node::MatchPoint(s.v_a), Node::MatchPoint(s.v_b))), group(s.k_group, two(Node::MatchPoint(s.v_x), Node::MatchPoint(s.v_y)))))));
    push_rule(rules, s.v_sequence, three(group(s.k_child, two(Node::MatchPoint(s.v_a), Node::MatchPoint(s.v_b))), group(s.v_oper, one(Node::Atom(s.op_comma))), group(s.k_sequence, two(Node::MatchPoint(s.v_x), Node::MatchPoint(s.v_y)))), one(group(s.k_child, two(group(s.k_child, two(Node::MatchPoint(s.v_a), Node::MatchPoint(s.v_b))), group(s.k_sequence, two(Node::MatchPoint(s.v_x), Node::MatchPoint(s.v_y)))))));
    push_rule(rules, s.v_sequence, three(group(s.k_child, two(Node::MatchPoint(s.v_a), Node::MatchPoint(s.v_b))), group(s.v_oper, one(Node::Atom(s.op_comma))), group(s.k_disjunctor, one(Node::MatchPoint(s.v_x)))), one(group(s.k_child, two(group(s.k_child, two(Node::MatchPoint(s.v_a), Node::MatchPoint(s.v_b))), group(s.k_disjunctor, one(Node::MatchPoint(s.v_x)))))));
    push_rule(rules, s.v_sequence, three(group(s.k_child, two(Node::MatchPoint(s.v_a), Node::MatchPoint(s.v_b))), group(s.v_oper, one(Node::Atom(s.op_comma))), group(s.k_conjunctor, one(Node::MatchPoint(s.v_y)))), one(group(s.k_child, two(group(s.k_child, two(Node::MatchPoint(s.v_a), Node::MatchPoint(s.v_b))), group(s.k_conjunctor, one(Node::MatchPoint(s.v_y)))))));
    assert(rules_view(rules@) =~= rules_view(old(rules)@) + continuation_rules(*s));
}

/// Adds the rules that close a child list at `]`.
fn add_terminator_rules(rules: &mut RuleSet, s: &TtrSymbols)
    ensures
        rules_view(final(rules)@) == rules_view(old(rules)@) + terminator_rules(*s),
{
    push_rule(rules, s.v_sequence, two(group(s.k_child, one(Node::MatchPoint(s.v_a))), group(s.v_oper, one(Node::Atom(s.op_rbra)))), one(group(s.k_children, one(group(s.k_child, one(Node::MatchPoint(s.v_a)))))));
    push_rule(rules, s.v_sequence, two(group(s.k_child, two(Node::MatchPoint(s.v_a), Node::MatchPoint(s.v_b))), group(s.v_oper, one(Node::Atom(s.op_rbra)))), one(group(s.k_children, one(group(s.k_child, two(Node::MatchPoint(s.v_a), Node::MatchPoint(s.v_b)))))));
    assert(rules_view(rules@) =~= rules_view(old(rules)@) + terminator_rules(*s));
}

/// Adds the rules for `lhs -> rhs`.
fn add_rule_rules(rules: &mut RuleSet, s: &TtrSymbols)
    ensures
        rules_view(final(rules)@) == rules_view(old(rules)@) + rule_rules(*s),
{
    push_rule(rules, s.v_sequence, four(group(s.k_atom, one(Node::MatchPoint(s.v_x))), group(s.v_oper, one(Node::Atom(s.op_dash))), group(s.v_oper, one(Node::Atom(s.op_rang))), group(s.k_atom, one(Node::MatchPoint(s.v_a)))), one(group(s.k_rule, two(group(s.k_atom, one(Node::MatchPoint(s.v_x))), group(s.k_atom, one(Node::MatchPoint(s.v_a)))))));
    push_rule(rules, s.v_sequence, four(group(s.k_atom, one(Node::MatchPoint(s.v_x))), group(s.v_oper, one(Node::Atom(s.op_dash))), group(s.v_oper, one(Node::Atom(s.op_rang))), group(s.k_group, two(Node::MatchPoint(s.v_a), Node::MatchPoint(s.v_b)))), one(group(s.k_rule, two(group(s.k_atom, one(Node::MatchPoint(s.v_x))), group(s.k_group, two(Node::MatchPoint(s.v_a), Node::MatchPoint(s.v_b)))))));
    push_rule(rules, s.v_sequence, four(group(s.k_group, two(Node::MatchPoint(s.v_x), Node::MatchPoint(s.v_y))), group(s.v_oper, one(Node::Atom(s.op_dash))), group(s.v_oper, one(Node::Atom(s.op_rang))), group(s.k_atom, one(Node::MatchPoint(s.v_a)))), one(group(s.k_rule, two(group(s.k_group, two(Node::MatchPoint(s.v_x), Node::MatchPoint(s.v_y))), group(s.k_atom, one(Node::MatchPoint(s.v_a)))))));
    push_rule(rules, s.v_sequence, four(group(s.k_group, two(Node::MatchPoint(s.v_x), Node::MatchPoint(s.v_y))), group(s.v_oper, one(Node::Atom(s.op_dash))), group(s.v_oper, one(Node::Atom(s.op_rang))), group(s.k_group, two(Node::MatchPoint(s.v_a), Node::MatchPoint(s.v_b)))), one(group(s.k_rule, two(group(s.k_group, two(Node::MatchPoint(s.v_x), Node::MatchPoint(s.v_y))), group(s.k_group, two(Node::MatchPoint(s.v_a), Node::MatchPoint(s.v_b)))))));
    push_rule(rules, s.v_sequence, four(group(s.k_sequence, two(Node::MatchPoint(s.v_x), Node::MatchPoint(s.v_y))), group(s.v_oper, one(Node::Atom(s.op_dash))), group(s.v_oper, one(Node::Atom(s.op_rang))), group(s.k_sequence, two(Node::MatchPoint(s.v_a), Node::MatchPoint(s.v_b)))), one(group(s.k_rule, two(group(s.k_sequence, two(Node::MatchPoint(s.v_x), Node::MatchPoint(s.v_y))), group(s.k_sequence, two(Node::MatchPoint(s.v_a), Node::MatchPoint(s.v_b)))))));
    assert(rules_view(rules@) =~= rules_view(old(rules)@) + rule_rules(*s));
}

/// Adds the rules that collect rules closed by `;` into a rule set.
fn add_ruleset_rules(rules: &mut RuleSet, s: &TtrSymbols)
    ensures
        rules_view(final(rules)@) == rules_view(old(rules)@) + ruleset_rules(*s),
{
    push_rule(rules, s.v_sequence, two(group(s.k_rule, two(Node::MatchPoint(s.v_x), Node::MatchPoint(s.v_y))), group(s.v_oper, one(Node::Atom(s.op_scol)))), one(group(s.k_ruleset, one(group(s.k_rules, one(group(s.k_rule, two(Node::MatchPoint(s.v_x), Node::MatchPoint(s.v_y)))))))));
    push_rule(rules, s.v_sequence, three(group(s.k_ruleset, one(group(s.k_rules, one(Node::MatchPoint(s.v_a))))), group(s.k_rule, two(Node::MatchPoint(s.v_x), Node::MatchPoint(s.v_y))), group(s.v_oper, one(Node::Atom(s.op_scol)))), one(group(s.k_ruleset, one(group(s.k_rules, two(Node::MatchPoint(s.v_a), group(s.k_rule, two(Node::MatchPoint(s.v_x), Node::MatchPoint(s.v_y)))))))));
    push_rule(rules, s.v_sequence, three(group(s.k_ruleset, one(group(s.k_rules, two(Node::MatchPoint(s.v_a), Node::MatchPoint(s.v_b))))), group(s.k_rule, two(Node::MatchPoint(s.v_x), Node::MatchPoint(s.v_y))), group(s.v_oper, one(Node::Atom(s.op_scol)))), one(group(s.k_ruleset, one(group(s.k_rules, two(group(s.k_rules, two(Node::MatchPoint(s.v_a), Node::MatchPoint(s.v_b))), group(s.k_rule, two(Node::MatchPoint(s.v_x), Node::MatchPoint(s.v_y)))))))));
    push_rule(rules, s.v_sequence, two(group(s.k_ruleset, one(Node::MatchPoint(s.v_x))), group(s.k_ruleset, one(Node::MatchPoint(s.v_y)))), one(group(s.k_ruleset, one(group(s.k_rules, two(Node::MatchPoint(s.v_x), Node::MatchPoint(s.v_y)))))));
    assert(rules_view(rules@) =~= rules_view(old(rules)@) + ruleset_rules(*s));
}

/// Interns the bootstrap names in order and gives their symbols.
fn intern_ttr_names(ns: &mut Namespace) -> (r: TtrSymbols)
    requires
        old(ns).wf(),
    ensures
        final(ns).wf(),
        final(ns)@ == interned_all(old(ns)@, ttr_names()),
        r == ttr_symbols(final(ns)@),
{
    let names: Vec<&str> = vec![
        "string",
        "oper",
        "ident",
        "Atom",
        "MatchPoint",
        "Group",
        "Sequence",
        "Child",
        "Children",
        "Conjunctor",
        "Disjunctor",
        "Negator",
        "Rule",
        "Rules",
        "RuleSet",
        "sequence",
        "x",
        "y",
        "a",
        "b",
        "<",
        ">",
        "[",
        "]",
        "(",
        ")",
        "!",
        ",",
        "-",
        ";",
        "|",
        "&",
        "",
    ];
    assert(names@.map_values(|n: &str| n@) =~= ttr_names());
    let mut syms: Vec<usize> = Vec::new();
    let mut i: usize = 0;
    assert(ttr_names().take(0) =~= Seq::<Seq<char>>::empty());
    while i < names.len()
        invariant
            i <= names.len(),
            names@.map_values(|n: &str| n@) == ttr_names(),
            ns.wf(),
            syms.len() == i,
            ns@ == interned_all(old(ns)@, ttr_names().take(i as int)),
            forall|j: int| 0 <= j < i ==> ns@.contains(#[trigger] ttr_names()[j]) && syms@[j] == index_in(ns@, ttr_names()[j]),
        decreases names.len() - i,
    {
        let ghost before = ns@;
        assert(names@[i as int]@ == ttr_names()[i as int]);
        let k = ns.to_int(names[i]);
        syms.push(k);
        assert(ttr_names().take(i + 1).drop_last() =~= ttr_names().take(i as int));
        assert(ns@[k as int] == ttr_names()[i as int]);
        assert forall|j: int| 0 <= j <= i implies ns@.contains(#[trigger] ttr_names()[j])
            && syms@[j] == index_in(ns@, ttr_names()[j]) by {
            if j < i {
                let w = choose|w: int| 0 <= w < before.len() && before[w] == ttr_names()[j];
                assert(ns@[w] == ttr_names()[j]);
                assert(index_in(ns@, ttr_names()[j]) == index_in(before, ttr_names()[j]));
            }
        }
        i = i + 1;
    }
    assert(ttr_names().take(33) =~= ttr_names());
    TtrSymbols {
        v_string: syms[0],
        v_oper: syms[1],
        v_ident: syms[2],
        k_atom: syms[3],
        k_matchpoint: syms[4],
        k_group: syms[5],
        k_sequence: syms[6],
        k_child: syms[7],
        k_children: syms[8],
        k_conjunctor: syms[9],
        k_disjunctor: syms[10],
        k_negator: syms[11],
        k_rule: syms[12],
        k_rules: syms[13],
        k_ruleset: syms[14],
        v_sequence: syms[15],
        v_x: syms[16],
        v_y: syms[17],
        v_a: syms[18],
        v_b: syms[19],
        op_lang: syms[20],
        op_rang: syms[21],
        op_lbra: syms[22],
        op_rbra: syms[23],
        op_lpar: syms[24],
        op_rpar: syms[25],
        op_exclm: syms[26],
        op_comma: syms[27],
        op_dash: syms[28],
        op_scol: syms[29],
        op_bar: syms[30],
        op_amp: syms[31],
        op_empty: syms[32],
    }
}

/// The bootstrap rules, which turn the tokens of the surface syntax into
/// pattern trees. Interns the names they use in `ns`, in order.
pub fn make_ttr_rules(ns: &mut Namespace) -> (r: RuleSet)
    requires
        old(ns).wf(),
    ensures
        final(ns).wf(),
        final(ns)@ == interned_all(old(ns)@, ttr_names()),
        rules_view(r@) == ttr_rules(ttr_symbols(final(ns)@)),
{
    let s = intern_ttr_names(ns);
    let mut rules: RuleSet = Vec::new();
    assert(rules_view(rules@) =~= Seq::<(Term, Term)>::empty());
    add_leaf_rules(&mut rules, &s);
    add_group_rules(&mut rules, &s);
    add_junction_rules(&mut rules, &s);
    add_negator_and_initiator_rules(&mut rules, &s);
    add_continuation_rules(&mut rules, &s);
    add_terminator_rules(&mut rules, &s);
    add_rule_rules(&mut rules, &s);
    add_ruleset_rules(&mut rules, &s);
    assert(rules_view(rules@) =~= ttr_rules(s));
    rules
}

} // verus!
