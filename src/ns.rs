use vstd::prelude::*;

verus! {

/// A symbol table: symbol `i` stands for the `i`-th distinct string interned.
pub struct Namespace {
    names: Vec<String>,
}

/// The table after interning `key`: unchanged when it holds `key`, else with
/// `key` appended.
pub open spec fn interned(table: Seq<Seq<char>>, key: Seq<char>) -> Seq<Seq<char>> {
    if table.contains(key) {
        table
    } else {
        table.push(key)
    }
}

/// The table after interning each of `keys` in order.
pub open spec fn interned_all(table: Seq<Seq<char>>, keys: Seq<Seq<char>>) -> Seq<Seq<char>>
    decreases keys.len(),
{
    if keys.len() == 0 {
        table
    } else {
        interned(interned_all(table, keys.drop_last()), keys.last())
    }
}

/// The symbol of `key` in a table that holds it.
pub open spec fn index_in(table: Seq<Seq<char>>, key: Seq<char>) -> int {
    choose|i: int| 0 <= i < table.len() && table[i] == key
}

/// In a table of distinct strings, the symbol of a string it holds is its index.
pub proof fn lemma_index_in(table: Seq<Seq<char>>, i: int)
    requires
        0 <= i < table.len(),
        forall|a: int, b: int| 0 <= a < b < table.len() ==> table[a] != table[b],
    ensures
        index_in(table, table[i]) == i,
{
    let j = index_in(table, table[i]);
    assert(0 <= j < table.len() && table[j] == table[i]);
}

impl View for Namespace {
    type V = Seq<Seq<char>>;

    closed spec fn view(&self) -> Seq<Seq<char>> {
        Seq::new(self.names.len() as nat, |i: int| self.names[i]@)
    }
}

impl Namespace {
    /// The table's strings are pairwise distinct.
    pub open spec fn wf(&self) -> bool {
        forall|i: int, j: int| 0 <= i < j < self@.len() ==> self@[i] != self@[j]
    }

    /// An empty table.
    pub fn new() -> (r: Namespace)
        ensures
            r@ == Seq::<Seq<char>>::empty(),
            r.wf(),
    {
        let r = Namespace { names: Vec::new() };
        assert(r@ =~= Seq::<Seq<char>>::empty());
        r
    }

    /// The symbol of `key`: the one it already has, or the next free one, which
    /// it is then given.
    pub fn to_int(&mut self, key: &str) -> (r: usize)
        requires
            old(self).wf(),
        ensures
            final(self).wf(),
            final(self)@.len() >= old(self)@.len(),
            forall|i: int| 0 <= i < old(self)@.len() ==> #[trigger] final(self)@[i] == old(self)@[i],
            r < final(self)@.len(),
            final(self)@[r as int] == key@,
            final(self)@ == interned(old(self)@, key@),
            r == index_in(final(self)@, key@),
            forall|k: Seq<char>| old(self)@.contains(k) ==> #[trigger] index_in(final(self)@, k) == index_in(old(self)@, k),
            old(self)@.contains(key@) ==> final(self)@ == old(self)@ && final(self)@[r as int] == key@,
            !old(self)@.contains(key@) ==> final(self)@ == old(self)@.push(key@) && r == old(self)@.len(),
    {
        let owned = key.to_owned();
        let mut i: usize = 0;
        while i < self.names.len()
            invariant
                i <= self.names.len(),
                owned@ == key@,
                self.wf(),
                self@ == old(self)@,
                forall|k: int| 0 <= k < i ==> self@[k] != key@,
            decreases self.names.len() - i,
        {
            if self.names[i] == owned {
                assert(self@[i as int] == key@);
                proof {
                    lemma_index_in(self@, i as int);
                }
                return i;
            }
            i = i + 1;
        }
        let ghost before = self@;
        self.names.push(owned);
        assert(self@ =~= before.push(key@));
        assert(!before.contains(key@)) by {
            if before.contains(key@) {
                let k = choose|k: int| 0 <= k < before.len() && before[k] == key@;
                assert(before[k] != key@);
            }
        }
        proof {
            lemma_index_in(self@, i as int);
            assert forall|k: Seq<char>| before.contains(k) implies #[trigger] index_in(self@, k) == index_in(before, k) by {
                let j = choose|j: int| 0 <= j < before.len() && before[j] == k;
                lemma_index_in(before, j);
                lemma_index_in(self@, j);
            }
        }
        i
    }

    /// The string of symbol `key`, if it has one.
    pub fn to_str(&self, key: usize) -> (r: Option<&String>)
        ensures
            match r {
                Some(s) => key < self@.len() && s@ == self@[key as int],
                None => key >= self@.len(),
            },
    {
        if key < self.names.len() {
            Some(&self.names[key])
        } else {
            None
        }
    }
}

} // verus!
