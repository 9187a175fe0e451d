use rtt::{LexError, Namespace, Node, Token, Tokenizer, make_ttr_rules, run, to_tree};

fn tokens_of(text: &str) -> Vec<String> {
    let mut t = Tokenizer::new(text.chars().collect());
    let mut out = Vec::new();
    loop {
        match t.nexttoken().unwrap() {
            Token::EOF => return out,
            tok => out.push(format!("{:?}", tok)),
        }
    }
}

#[test]
fn disp_ttr_rules() {
    let mut ns = Namespace::new();
    println!("{:?}", make_ttr_rules(&mut ns));
}

#[test]
fn bootstrap_rule_count() {
    let mut ns = Namespace::new();
    let rules = make_ttr_rules(&mut ns);
    assert_eq!(rules.len(), 44);
    assert_eq!(ns.to_int("string"), 0);
    assert_eq!(ns.to_int("sequence"), 15);
}

#[test]
fn namespace_interns_in_order() {
    let mut ns = Namespace::new();
    assert_eq!(ns.to_int("a"), 0);
    assert_eq!(ns.to_int("b"), 1);
    assert_eq!(ns.to_int("a"), 0);
    assert_eq!(ns.to_str(1).map(|s| s.as_str()), Some("b"));
    assert!(ns.to_str(2).is_none());
}

#[test]
fn lexes_each_kind() {
    assert_eq!(
        tokens_of(" foo_1 42 + \"a\\tb\" 'c' "),
        vec![
            "IDENT(\"foo_1\")".to_string(),
            "NUM(\"42\")".to_string(),
            "OPER('+')".to_string(),
            "STRING(\"a\\tb\")".to_string(),
            "STRING(\"c\")".to_string(),
        ]
    );
}

#[test]
fn lexes_escapes() {
    assert_eq!(tokens_of("\"\\x41\\0101\\q\""), vec!["STRING(\"AAq\")".to_string()]);
}

#[test]
fn comments_are_skipped() {
    assert_eq!(tokens_of("a /* x * y **/ b"), vec!["IDENT(\"a\")".to_string(), "IDENT(\"b\")".to_string()]);
    assert_eq!(tokens_of("a /* open"), vec!["IDENT(\"a\")".to_string()]);
    assert_eq!(tokens_of("a / b"), vec!["IDENT(\"a\")".to_string(), "OPER('/')".to_string(), "IDENT(\"b\")".to_string()]);
}

#[test]
fn lex_errors() {
    let mut t = Tokenizer::new("\"abc".chars().collect());
    assert_eq!(t.nexttoken().unwrap_err(), LexError::UnexpectedEof);
    let mut t = Tokenizer::new("\"\\x\"".chars().collect());
    assert_eq!(t.nexttoken().unwrap_err(), LexError::BadEscape);
    let mut t = Tokenizer::new("\"\\x100\"".chars().collect());
    assert_eq!(t.nexttoken().unwrap_err(), LexError::BadEscape);
    let mut t = Tokenizer::new("\u{e9}".chars().collect());
    assert_eq!(t.nexttoken().unwrap_err(), LexError::UnexpectedChar('\u{e9}'));
}

#[test]
fn document_tree() {
    let mut ns = Namespace::new();
    let tree = to_tree(Tokenizer::new("x 7".chars().collect()), &mut ns).unwrap();
    // document = 0, ident = 1, x = 2, num = 3, 7 = 4
    assert_eq!(
        tree,
        Node::Group(0, vec![Node::Group(1, vec![Node::Atom(2)]), Node::Group(3, vec![Node::Atom(4)])])
    );
}

#[test]
fn bootstrap_builds_rule() {
    let mut ns = Namespace::new();
    let rules = make_ttr_rules(&mut ns);
    let tree = to_tree(Tokenizer::new("\"a\" -> \"b\" ;".chars().collect()), &mut ns).unwrap();
    let (out, iters) = run(&tree, &rules).unwrap();
    assert!(iters > 0);
    let ruleset = ns.to_int("RuleSet");
    match out {
        Node::Group(_, children) => {
            assert_eq!(children.len(), 1);
            match &children[0] {
                Node::Group(name, _) => assert_eq!(*name, ruleset),
                other => panic!("unexpected {:?}", other),
            }
        },
        other => panic!("unexpected {:?}", other),
    }
}

#[test]
fn render_surface_syntax() {
    let mut ns = Namespace::new();
    let doc = ns.to_int("doc");
    let a = ns.to_int("a\"b");
    let x = ns.to_int("x");
    let tree = Node::Group(doc, vec![
        Node::Atom(a),
        Node::Group(x, vec![]),
        Node::Sequence(x, vec![Node::MatchPoint(x)]),
        Node::Conjunctor(vec![Node::Atom(x), Node::Atom(x)]),
        Node::Disjunctor(vec![]),
        Node::Negator(Box::new(Node::Atom(x))),
        Node::SplicePair(12, 305),
        Node::NoNode,
        Node::Atom(99),
    ]);
    assert_eq!(
        ns.render(&tree),
        "doc[\"a\\\"b\", x[], <x>[<x>], &[\"x\", \"x\"], |[], !\"x\", SPLICE_PAIR(START:12,LEN:305), NO_NODE, \"BAD_VALUE\"]"
    );
}

#[test]
fn bootstrap_interns_names_in_order() {
    let mut ns = Namespace::new();
    let _ = make_ttr_rules(&mut ns);
    let expected = [
        "string", "oper", "ident", "Atom", "MatchPoint", "Group", "Sequence", "Child", "Children",
        "Conjunctor", "Disjunctor", "Negator", "Rule", "Rules", "RuleSet", "sequence", "x", "y", "a", "b",
        "<", ">", "[", "]", "(", ")", "!", ",", "-", ";", "|", "&", "",
    ];
    for (i, name) in expected.iter().enumerate() {
        assert_eq!(ns.to_str(i).map(|s| s.as_str()), Some(*name));
    }
    assert!(ns.to_str(expected.len()).is_none());
}

#[test]
fn bootstrap_first_and_last_rules() {
    let mut ns = Namespace::new();
    let rules = make_ttr_rules(&mut ns);
    assert_eq!(rules[0].lhs, Node::Sequence(15, vec![Node::Group(0, vec![Node::MatchPoint(16)])]));
    assert_eq!(rules[0].rhs, Node::Sequence(15, vec![Node::Group(3, vec![Node::MatchPoint(16)])]));
    assert_eq!(rules[43].lhs, Node::Sequence(15, vec![Node::Group(14, vec![Node::MatchPoint(16)]), Node::Group(14, vec![Node::MatchPoint(17)])]));
    assert_eq!(rules[43].rhs, Node::Sequence(15, vec![Node::Group(14, vec![Node::Group(13, vec![Node::MatchPoint(16), Node::MatchPoint(17)])])]));
}
