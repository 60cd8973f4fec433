//! Finite sets of token addresses.

use vstd::prelude::*;
use crate::address::TokenAddress;

verus! {

/// A set of addresses, kept as a list in which nothing occurs twice.
#[derive(Debug)]
pub struct AddressSet {
    items: Vec<TokenAddress>,
}

impl AddressSet {
    /// The addresses held.
    pub closed spec fn view(&self) -> Set<TokenAddress> {
        self.items@.to_set()
    }

    /// Nothing is held twice.
    pub closed spec fn wf(&self) -> bool {
        self.items@.no_duplicates()
    }

    /// The addresses in the order in which they went in.
    pub closed spec fn order(&self) -> Seq<TokenAddress> {
        self.items@
    }

    pub proof fn lemma_order(&self)
        requires
            self.wf(),
        ensures
            self.order().no_duplicates(),
            self.order().to_set() == self@,
            self.order().len() == self@.len(),
            self@.finite(),
    {
        self.items@.unique_seq_to_set();
    }

    pub fn new() -> (s: AddressSet)
        ensures
            s.wf(),
            s@ == Set::<TokenAddress>::empty(),
    {
        let s = AddressSet { items: Vec::new() };
        assert(s.items@.to_set() =~= Set::<TokenAddress>::empty());
        s
    }

    pub fn contains(&self, a: TokenAddress) -> (b: bool)
        ensures
            b == self@.contains(a),
    {
        let mut i: usize = 0;
        while i < self.items.len()
            invariant
                i <= self.items@.len(),
                forall|k: int| 0 <= k < i ==> self.items@[k] != a,
            decreases self.items@.len() - i,
        {
            if self.items[i] == a {
                assert(self.items@.contains(a));
                return true;
            }
            i = i + 1;
        }
        false
    }

    /// Adds `a`; says whether it was new.
    pub fn insert(&mut self, a: TokenAddress) -> (added: bool)
        requires
            old(self).wf(),
        ensures
            final(self).wf(),
            final(self)@ == old(self)@.insert(a),
            added == !old(self)@.contains(a),
            added ==> final(self).order() == old(self).order().push(a),
            !added ==> final(self).order() == old(self).order(),
    {
        if self.contains(a) {
            assert(self@ =~= self@.insert(a));
            false
        } else {
            let ghost before = self.items@;
            self.items.push(a);
            proof {
                assert(self.items@ == before.push(a));
                assert forall|i: int, j: int|
                    0 <= i < self.items@.len() && 0 <= j < self.items@.len() && i != j implies self.items@[i]
                    != self.items@[j] by {
                    if i < before.len() {
                        assert(before.contains(before[i]));
                    }
                    if j < before.len() {
                        assert(before.contains(before[j]));
                    }
                }
                lemma_push_to_set(before, a);
            }
            true
        }
    }

    /// How many addresses are held.
    pub fn len(&self) -> (n: usize)
        requires
            self.wf(),
        ensures
            n == self@.len(),
            n == self.order().len(),
    {
        proof {
            self.lemma_order();
        }
        self.items.len()
    }

    pub fn is_empty(&self) -> (b: bool)
        ensures
            b == (self@ == Set::<TokenAddress>::empty()),
            b == (self.order().len() == 0),
    {
        proof {
            if self.items@.len() == 0 {
                assert(self.items@.to_set() =~= Set::<TokenAddress>::empty());
            } else {
                assert(self.items@.contains(self.items@[0]));
                assert(self.items@.to_set().contains(self.items@[0]));
            }
        }
        self.items.len() == 0
    }

    /// The `i`-th address in the order in which they went in.
    pub fn get(&self, i: usize) -> (a: TokenAddress)
        requires
            i < self.order().len(),
        ensures
            a == self.order()[i as int],
            self@.contains(a),
    {
        assert(self.items@.contains(self.items@[i as int]));
        self.items[i]
    }

    /// The set of the addresses listed, each kept once.
    pub fn from_slice(list: &[TokenAddress]) -> (s: AddressSet)
        ensures
            s.wf(),
            s@ == list@.to_set(),
    {
        let mut s = AddressSet::new();
        let mut i: usize = 0;
        while i < list.len()
            invariant
                i <= list@.len(),
                s.wf(),
                s@ == list@.subrange(0, i as int).to_set(),
            decreases list@.len() - i,
        {
            let ghost before = list@.subrange(0, i as int);
            s.insert(list[i]);
            proof {
                let after = list@.subrange(0, i + 1);
                assert(after =~= before.push(list@[i as int]));
                lemma_push_to_set(before, list@[i as int]);
            }
            i = i + 1;
        }
        assert(list@.subrange(0, list@.len() as int) =~= list@);
        s
    }

    /// The addresses held here and not in `other`.
    pub fn difference(&self, other: &AddressSet) -> (d: AddressSet)
        requires
            self.wf(),
        ensures
            d.wf(),
            d@ == self@.difference(other@),
    {
        let mut d = AddressSet::new();
        let mut i: usize = 0;
        while i < self.items.len()
            invariant
                i <= self.items@.len(),
                d.wf(),
                d@ == self.items@.subrange(0, i as int).to_set().difference(other@),
            decreases self.items@.len() - i,
        {
            let ghost before = self.items@.subrange(0, i as int);
            let a = self.items[i];
            proof {
                let after = self.items@.subrange(0, i + 1);
                assert(after =~= before.push(a));
                lemma_push_to_set(before, a);
            }
            if !other.contains(a) {
                d.insert(a);
                assert(d@ =~= before.push(a).to_set().difference(other@));
            } else {
                assert(d@ =~= before.push(a).to_set().difference(other@));
            }
            i = i + 1;
        }
        assert(self.items@.subrange(0, self.items@.len() as int) =~= self.items@);
        d
    }

    /// A copy of the set.
    pub fn duplicate(&self) -> (d: AddressSet)
        ensures
            d@ == self@,
            d.order() == self.order(),
            d.wf() == self.wf(),
    {
        let mut items: Vec<TokenAddress> = Vec::new();
        let mut i: usize = 0;
        while i < self.items.len()
            invariant
                i <= self.items@.len(),
                items@ == self.items@.subrange(0, i as int),
            decreases self.items@.len() - i,
        {
            items.push(self.items[i]);
            assert(self.items@.subrange(0, i + 1) =~= self.items@.subrange(0, i as int).push(
                self.items@[i as int],
            ));
            i = i + 1;
        }
        assert(self.items@.subrange(0, self.items@.len() as int) =~= self.items@);
        AddressSet { items }
    }
}

/// Appending to a list adds to the set of what it lists.
pub proof fn lemma_push_to_set(s: Seq<TokenAddress>, a: TokenAddress)
    ensures
        s.push(a).to_set() == s.to_set().insert(a),
{
    let t = s.push(a);
    assert forall|x: TokenAddress| t.to_set().contains(x) == s.to_set().insert(a).contains(x) by {
        if t.contains(x) {
            let k = choose|k: int| 0 <= k < t.len() && t[k] == x;
            if k < s.len() {
                assert(s[k] == x);
                assert(s.contains(x));
            }
        }
        if s.contains(x) {
            let k = choose|k: int| 0 <= k < s.len() && s[k] == x;
            assert(t[k] == x);
        }
        if x == a {
            assert(t[s.len() as int] == a);
        }
    }
    assert(t.to_set() =~= s.to_set().insert(a));
}

} // verus!
