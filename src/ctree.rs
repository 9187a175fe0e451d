use vstd::prelude::*;
use crate::ctok::{Token, TokenV, Tokenizer, LexError, lex, lemma_lex_progress};
use crate::node::{Node, Term, view_nodes};
use crate::ns::{Namespace, interned, interned_all, index_in};

verus! {

/// The tokens read from index `i` of `s` up to the end of the input.
pub open spec fn tokens_from(s: Seq<char>, i: int) -> Result<Seq<TokenV>, LexError>
    decreases s.len() - i,
    via tokens_from_decreases
{
    if i < 0 || i > s.len() {
        Ok(Seq::empty())
    } else {
        match lex(s, i) {
            (Err(x), _) => Err(x),
            (Ok(TokenV::Eof), _) => Ok(Seq::empty()),
            (Ok(t), e) => match tokens_from(s, e) {
                Ok(ts) => Ok(seq![t] + ts),
                Err(x) => Err(x),
            },
        }
    }
}

#[via_fn]
proof fn tokens_from_decreases(s: Seq<char>, i: int) {
    if 0 <= i <= s.len() {
        lemma_lex_progress(s, i);
    }
}

/// The name of the group that holds a token of this kind.
pub open spec fn token_kind(t: TokenV) -> Seq<char> {
    match t {
        TokenV::Str(_) => "string"@,
        TokenV::Oper(_) => "oper"@,
        TokenV::Num(_) => "num"@,
        TokenV::Ident(_) => "ident"@,
        TokenV::Eof => Seq::empty(),
    }
}

/// The text of a token.
pub open spec fn token_text(t: TokenV) -> Seq<char> {
    match t {
        TokenV::Str(v) => v,
        TokenV::Oper(c) => seq![c],
        TokenV::Num(v) => v,
        TokenV::Ident(v) => v,
        TokenV::Eof => Seq::empty(),
    }
}

/// The names that loading the tokens `toks` interns after `document`: each
/// token's kind, then its text.
pub open spec fn token_names(toks: Seq<TokenV>) -> Seq<Seq<char>>
    decreases toks.len(),
{
    if toks.len() == 0 {
        Seq::empty()
    } else {
        token_names(toks.drop_last()) + seq![token_kind(toks.last()), token_text(toks.last())]
    }
}

/// The document child of token `t`, with the symbols that `table` gives: a
/// group named by the token's kind around one atom of its text.
pub open spec fn token_term(table: Seq<Seq<char>>, t: TokenV) -> Term {
    Term::Group(index_in(table, token_kind(t)) as usize, seq![Term::Atom(index_in(table, token_text(t)) as usize)])
}

/// Interning two more keys after `keys` interns them one after the other.
proof fn lemma_interned_two(table: Seq<Seq<char>>, keys: Seq<Seq<char>>, x: Seq<char>, y: Seq<char>)
    ensures
        interned_all(table, keys + seq![x, y]) == interned(interned(interned_all(table, keys), x), y),
{
    let kx = keys + seq![x];
    let kxy = keys + seq![x, y];
    assert(kxy.drop_last() =~= kx);
    assert(kxy.last() == y);
    assert(kx.drop_last() =~= keys);
    assert(kx.last() == x);
    assert(interned_all(table, kxy) == interned(interned_all(table, kx), y));
    assert(interned_all(table, kx) == interned(interned_all(table, keys), x));
}

fn token_node(tok: Token, ns: &mut Namespace) -> (r: Node)
    requires
        old(ns).wf(),
        !(tok@ is Eof),
    ensures
        final(ns).wf(),
        final(ns)@ == interned(interned(old(ns)@, token_kind(tok@)), token_text(tok@)),
        forall|k: Seq<char>| old(ns)@.contains(k) ==> #[trigger] final(ns)@.contains(k),
        forall|k: Seq<char>| old(ns)@.contains(k) ==> #[trigger] index_in(final(ns)@, k) == index_in(old(ns)@, k),
        final(ns)@.contains(token_kind(tok@)),
        final(ns)@.contains(token_text(tok@)),
        r@ == token_term(final(ns)@, tok@),
{
    let ghost t = tok@;
    let (kind, text) = match tok {
        Token::STRING(s) => ("string", s),
        Token::OPER(c) => {
            let mut s = String::new();
            crate::ctok::push_char_to(&mut s, c);
            ("oper", s)
        },
        Token::NUM(s) => ("num", s),
        Token::IDENT(s) => ("ident", s),
        Token::EOF => ("", String::new()),
    };
    assert(text@ == token_text(t)) by {
        if t is Oper {
            assert(text@ =~= token_text(t));
        }
    }
    assert(kind@ == token_kind(t)) by {
        reveal_strlit("string");
        reveal_strlit("oper");
        reveal_strlit("num");
        reveal_strlit("ident");
    }
    let ghost ns0 = ns@;
    let g = ns.to_int(kind);
    let ghost ns1 = ns@;
    let a = ns.to_int(text.as_str());
    let atoms: Vec<Node> = vec![Node::Atom(a)];
    let r = Node::Group(g, atoms);
    assert(view_nodes(atoms) =~= seq![Term::Atom(a)]);
    assert(r@ == Term::Group(g, view_nodes(atoms)));
    assert(ns1.contains(kind@)) by {
        assert(ns1[g as int] == kind@);
    }
    assert(ns@.contains(text@)) by {
        assert(ns@[a as int] == text@);
    }
    assert forall|k: Seq<char>| ns0.contains(k) implies ns@.contains(k) && #[trigger] index_in(ns@, k) == index_in(ns0, k) by {
        let w = choose|w: int| 0 <= w < ns0.len() && ns0[w] == k;
        assert(ns1[w] == k);
        assert(ns1.contains(k));
        assert(ns@[w] == k);
        assert(index_in(ns1, k) == index_in(ns0, k));
    }
    assert forall|k: Seq<char>| ns0.contains(k) implies #[trigger] ns@.contains(k) by {
        assert(index_in(ns@, k) == index_in(ns0, k));
    }
    assert(ns@.contains(kind@) && index_in(ns@, kind@) == g) by {
        let w = choose|w: int| 0 <= w < ns1.len() && ns1[w] == kind@;
        assert(ns@[w] == kind@);
    }
    r
}

/// Reads every token of `t` and wraps each in the document tree: a group
/// named `document` whose children are the tokens, each a group named by its
/// kind (`string`, `oper`, `num` or `ident`) around one atom of its text.
/// Interns `document`, then each token's kind and text, in that order.
pub fn to_tree(t: Tokenizer, ns: &mut Namespace) -> (r: Result<Node, LexError>)
    requires
        t.wf(),
        old(ns).wf(),
    ensures
        final(ns).wf(),
        match r {
            Ok(n) => {
                &&& tokens_from(t.input(), t.position()) is Ok
                &&& final(ns)@ == interned_all(old(ns)@, seq!["document"@] + token_names(tokens_from(t.input(), t.position())->Ok_0))
                &&& n@ == Term::Group(
                    index_in(final(ns)@, "document"@) as usize,
                    tokens_from(t.input(), t.position())->Ok_0.map_values(|tok: TokenV| token_term(final(ns)@, tok)),
                )
            },
            Err(x) => tokens_from(t.input(), t.position()) == Err::<Seq<TokenV>, LexError>(x),
        },
{
    let ghost s = t.input();
    let ghost all = tokens_from(s, t.position());
    let ghost ns0 = ns@;
    let doc = ns.to_int("document");
    proof {
        t.lemma_position_in_input();
        assert((seq!["document"@] + token_names(Seq::<TokenV>::empty())).drop_last() =~= Seq::<Seq<char>>::empty());
        assert(seq!["document"@] + token_names(Seq::<TokenV>::empty()) =~= seq!["document"@]);
        assert(seq!["document"@].drop_last() =~= Seq::<Seq<char>>::empty());
        assert(interned_all(ns0, seq!["document"@]) == interned(interned_all(ns0, Seq::<Seq<char>>::empty()), "document"@));
        assert(ns@.contains("document"@)) by {
            assert(ns@[doc as int] == "document"@);
        }
    }
    let mut tokens = t;
    let mut children: Vec<Node> = Vec::new();
    let ghost mut seen: Seq<TokenV> = Seq::empty();
    assert(view_nodes(children) =~= Seq::<Term>::empty());
    loop
        invariant
            tokens.wf(),
            ns.wf(),
            tokens.input() == s,
            s == t.input(),
            all == tokens_from(s, t.position()),
            0 <= tokens.position() <= s.len(),
            ns@.contains("document"@),
            doc == index_in(ns@, "document"@),
            ns@ == interned_all(ns0, seq!["document"@] + token_names(seen)),
            ns0 == old(ns)@,
            all == match tokens_from(s, tokens.position()) {
                Ok(rest) => Ok::<Seq<TokenV>, LexError>(seen + rest),
                Err(x) => Err(x),
            },
            children.len() == seen.len(),
            forall|k: int| 0 <= k < seen.len() ==> ns@.contains(token_kind(#[trigger] seen[k])) && ns@.contains(token_text(seen[k])),
            forall|k: int| 0 <= k < children.len() ==> #[trigger] view_nodes(children)[k] == token_term(ns@, seen[k]),
        decreases s.len() - tokens.position(),
    {
        let ghost p = tokens.position();
        proof {
            lemma_lex_progress(s, p);
        }
        match tokens.nexttoken() {
            Err(x) => {
                assert(tokens_from(s, p) == Err::<Seq<TokenV>, LexError>(x));
                assert(all == Err::<Seq<TokenV>, LexError>(x));
                return Err(x);
            },
            Ok(Token::EOF) => {
                assert(seen + Seq::<TokenV>::empty() =~= seen);
                assert(tokens_from(s, p) == Ok::<Seq<TokenV>, LexError>(Seq::empty()));
                let ghost cv = view_nodes(children);
                let r = Node::Group(doc, children);
                assert(r@ == Term::Group(doc, cv));
                assert(all == Ok::<Seq<TokenV>, LexError>(seen));
                assert(cv =~= seen.map_values(|tok: TokenV| token_term(ns@, tok)));
                return Ok(r);
            },
            Ok(tok) => {
                let ghost tv = tok@;
                let ghost rest = tokens_from(s, tokens.position());
                let ghost names = ns@;
                let ghost before = view_nodes(children);
                proof {
                    tokens.lemma_position_in_input();
                }
                let child = token_node(tok, ns);
                children.push(child);
                proof {
                    if rest is Ok {
                        assert(seen + (seq![tv] + rest->Ok_0) =~= seen.push(tv) + rest->Ok_0);
                    }
                    assert(view_nodes(children) =~= before.push(child@));
                    assert(token_names(seen.push(tv)) =~= token_names(seen) + seq![token_kind(tv), token_text(tv)]) by {
                        assert(seen.push(tv).drop_last() =~= seen);
                    }
                    assert(seq!["document"@] + token_names(seen.push(tv))
                        =~= (seq!["document"@] + token_names(seen)) + seq![token_kind(tv), token_text(tv)]);
                    lemma_interned_two(ns0, seq!["document"@] + token_names(seen), token_kind(tv), token_text(tv));
                    assert(ns@.contains("document"@));
                    assert(index_in(ns@, "document"@) == index_in(names, "document"@));
                    assert forall|k: int| 0 <= k < seen.len() implies #[trigger] view_nodes(children)[k] == token_term(ns@, seen[k])
                        && ns@.contains(token_kind(seen[k])) && ns@.contains(token_text(seen[k])) by {
                        assert(view_nodes(children)[k] == before[k]);
                        assert(names.contains(token_kind(seen[k])));
                        assert(names.contains(token_text(seen[k])));
                        assert(index_in(ns@, token_kind(seen[k])) == index_in(names, token_kind(seen[k])));
                        assert(index_in(ns@, token_text(seen[k])) == index_in(names, token_text(seen[k])));
                    }
                    seen = seen.push(tv);
                }
            },
        }
    }
}

} // verus!
