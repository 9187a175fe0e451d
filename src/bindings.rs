use vstd::prelude::*;
use crate::node::{Node, Term, copy_node};

verus! {

#[verifier::external_type_specification]
#[verifier::external_body]
#[verifier::reject_recursive_types(K)]
#[verifier::reject_recursive_types(V)]
#[verifier::reject_recursive_types(R)]
pub struct ExHamt<K, V, R>(hamt::Hamt<K, V, R>);

#[verifier::external_type_specification]
#[verifier::external_body]
#[verifier::reject_recursive_types(K)]
#[verifier::reject_recursive_types(V)]
pub struct ExRcTrick<K, V>(hamt::RcTrick<K, V>);

/// A persistent hash trie from variable ids to nodes.
pub type Trie = hamt::HamtRc<usize, Node>;

/// The entries that a persistent trie holds.
pub uninterp spec fn trie_entries(m: Trie) -> Map<usize, Node>;

/// Relies on `hamt::Hamt::new`: the new trie is empty.
#[verifier::external_body]
fn trie_new() -> (r: Trie)
    ensures
        trie_entries(r).dom() == Set::<usize>::empty(),
{
    hamt::HamtRc::new()
}

/// Relies on `hamt::Hamt::get`: the value stored under a key that the trie holds.
#[verifier::external_body]
fn trie_get(m: &Trie, k: usize) -> (r: Option<&Node>)
    requires
        trie_entries(*m).contains_key(k),
    ensures
        r is Some && *r->Some_0 == trie_entries(*m)[k],
{
    m.get(&k)
}

/// Relies on `hamt::Hamt::remove`: a new trie without the key, the given one unchanged.
#[verifier::external_body]
fn trie_remove(m: &Trie, k: usize) -> (r: Trie)
    ensures
        trie_entries(r) == trie_entries(*m).remove(k),
{
    m.remove(&k)
}

/// Relies on `hamt::Hamt::len`: the number of entries.
#[verifier::external_body]
fn trie_len(m: &Trie) -> (r: usize)
    ensures
        r == trie_entries(*m).dom().len(),
{
    m.len()
}

/// Relies on `hamt::Hamt::insert`: a new trie with the key mapped to a copy of
/// the value, the given trie unchanged.
#[verifier::external_body]
fn trie_insert(m: &Trie, k: usize, v: &Node) -> (r: Trie)
    ensures
        trie_entries(r) == trie_entries(*m).insert(k, *v),
{
    m.insert(&k, v)
}

/// Relies on the `Clone` of `hamt::Hamt`: the copy shares the entries.
#[verifier::external_body]
fn trie_clone(m: &Trie) -> (r: Trie)
    ensures
        trie_entries(r) == trie_entries(*m),
{
    m.clone()
}

/// A persistent environment from variable ids to bound nodes: `plus` builds a
/// new environment and leaves the old one as it was.
pub struct Bindings {
    map: Trie,
}

impl View for Bindings {
    type V = Map<usize, Term>;

    closed spec fn view(&self) -> Map<usize, Term> {
        trie_entries(self.map).map_values(|n: Node| n@)
    }
}

impl Bindings {
    /// A trie built by `new` and `insert` holds finitely many entries.
    #[verifier::type_invariant]
    spec fn finite_entries(&self) -> bool {
        trie_entries(self.map).dom().finite()
    }

    /// The empty environment.
    pub fn new() -> (r: Bindings)
        ensures
            r@ == Map::<usize, Term>::empty(),
    {
        let r = Bindings { map: trie_new() };
        assert(r@ =~= Map::<usize, Term>::empty());
        r
    }

    /// A copy of the node bound to `key`, if there is one.
    pub fn find(&self, key: usize) -> (r: Option<Node>)
        ensures
            match r {
                Some(n) => self@.contains_key(key) && self@[key] == n@,
                None => !self@.contains_key(key),
            },
    {
        let without = trie_remove(&self.map, key);
        let fewer = trie_len(&without) < trie_len(&self.map);
        proof {
            use_type_invariant(self);
            let d = trie_entries(self.map).dom();
            assert(trie_entries(without).dom() =~= d.remove(key));
            if d.contains(key) {
                assert(d.remove(key).len() == d.len() - 1);
            } else {
                assert(d.remove(key) =~= d);
            }
        }
        if fewer {
            match trie_get(&self.map, key) {
                Some(n) => Some(copy_node(n)),
                None => None,
            }
        } else {
            None
        }
    }

    /// A new environment that also binds `key` to `value`.
    pub fn plus(&self, key: usize, value: &Node) -> (r: Bindings)
        ensures
            r@ == self@.insert(key, value@),
    {
        proof {
            use_type_invariant(self);
        }
        let r = Bindings { map: trie_insert(&self.map, key, value) };
        assert(r@ =~= self@.insert(key, value@));
        r
    }
}

impl Clone for Bindings {
    fn clone(&self) -> (r: Bindings)
        ensures
            r@ == self@,
    {
        proof {
            use_type_invariant(self);
        }
        Bindings { map: trie_clone(&self.map) }
    }
}

} // verus!
