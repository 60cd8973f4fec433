//! Address-keyed tables of token metadata.

use vstd::prelude::*;
use crate::address::TokenAddress;
use crate::address_set::AddressSet;
use crate::metadata::TokenMetadata;

verus! {

/// Whether some record of `s` describes `a`.
pub open spec fn has_key(s: Seq<TokenMetadata>, a: TokenAddress) -> bool {
    exists|i: int| 0 <= i < s.len() && (#[trigger] s[i]).address == a
}

/// Where in `s` the record of `a` stands.
pub open spec fn index_of(s: Seq<TokenMetadata>, a: TokenAddress) -> int {
    choose|i: int| 0 <= i < s.len() && (#[trigger] s[i]).address == a
}

/// No two records of `s` describe the same address.
pub open spec fn distinct_keys(s: Seq<TokenMetadata>) -> bool {
    forall|i: int, j: int|
        0 <= i < j < s.len() ==> (#[trigger] s[i]).address != (#[trigger] s[j]).address
}

/// The mapping that a list of records stands for.
pub open spec fn records_map(s: Seq<TokenMetadata>) -> Map<TokenAddress, TokenMetadata> {
    Map::new(|a: TokenAddress| has_key(s, a), |a: TokenAddress| s[index_of(s, a)])
}

/// The addresses that the records of `m` name as their components.
pub open spec fn components_of(m: Map<TokenAddress, TokenMetadata>) -> Set<TokenAddress> {
    Set::new(
        |a: TokenAddress|
            exists|k: TokenAddress| #[trigger] m.dom().contains(k) && m[k].names_component(a),
    )
}

/// Each record is filed under its own address.
pub open spec fn keyed_by_address(m: Map<TokenAddress, TokenMetadata>) -> bool {
    forall|k: TokenAddress| #[trigger] m.dom().contains(k) ==> m[k].address == k
}

/// With distinct keys, the mapping holds each record under its address and
/// nothing else.
pub proof fn lemma_records_map(s: Seq<TokenMetadata>)
    requires
        distinct_keys(s),
    ensures
        forall|i: int|
            0 <= i < s.len() ==> records_map(s).dom().contains((#[trigger] s[i]).address)
                && records_map(s)[s[i].address] == s[i],
        forall|a: TokenAddress| #[trigger]
            records_map(s).dom().contains(a) ==> 0 <= index_of(s, a) < s.len() && s[index_of(
                s,
                a,
            )].address == a,
        keyed_by_address(records_map(s)),
{
    assert forall|i: int| 0 <= i < s.len() implies records_map(s).dom().contains(
        (#[trigger] s[i]).address,
    ) && records_map(s)[s[i].address] == s[i] by {
        let a = s[i].address;
        assert(has_key(s, a));
        let j = index_of(s, a);
        assert(s[j].address == a);
        if j < i {
            assert(s[j].address != s[i].address);
        } else if i < j {
            assert(s[i].address != s[j].address);
        }
    }
}

/// Appending a record under a new address inserts it into the mapping.
pub proof fn lemma_records_map_push(s: Seq<TokenMetadata>, r: TokenMetadata)
    requires
        distinct_keys(s),
        !has_key(s, r.address),
    ensures
        distinct_keys(s.push(r)),
        records_map(s.push(r)) == records_map(s).insert(r.address, r),
{
    let t = s.push(r);
    assert forall|i: int, j: int| 0 <= i < j < t.len() implies (#[trigger] t[i]).address != (
    #[trigger] t[j]).address by {
        assert(t[i] == s[i]);
        if j < s.len() {
            assert(t[j] == s[j]);
        }
    }
    lemma_records_map(s);
    lemma_records_map(t);
    assert forall|a: TokenAddress|
        records_map(t).dom().contains(a) == records_map(s).insert(r.address, r).dom().contains(
            a,
        ) by {
        if has_key(t, a) {
            let i = index_of(t, a);
            if i < s.len() {
                assert(s[i].address == a);
            }
        }
        if has_key(s, a) {
            let i = index_of(s, a);
            assert(t[i].address == a);
        }
        if a == r.address {
            assert(t[s.len() as int].address == a);
        }
    }
    assert forall|a: TokenAddress| records_map(t).dom().contains(a) implies records_map(t)[a]
        == records_map(s).insert(r.address, r)[a] by {
        if a == r.address {
            assert(t[s.len() as int] == r);
        } else {
            let i = index_of(t, a);
            assert(t[i] == s[i]);
        }
    }
    assert(records_map(t) =~= records_map(s).insert(r.address, r));
}

/// A mapping from token addresses to their metadata, kept as a list of
/// records with distinct addresses.
#[derive(Debug)]
pub struct MetadataTable {
    records: Vec<TokenMetadata>,
}

impl MetadataTable {
    /// The mapping held.
    pub closed spec fn view(&self) -> Map<TokenAddress, TokenMetadata> {
        records_map(self.records@)
    }

    /// No address is described twice.
    pub closed spec fn wf(&self) -> bool {
        distinct_keys(self.records@)
    }

    /// The records in the order in which they went in.
    pub closed spec fn order(&self) -> Seq<TokenMetadata> {
        self.records@
    }

    /// How the list of records and the mapping relate.
    pub proof fn lemma_order(&self)
        requires
            self.wf(),
        ensures
            distinct_keys(self.order()),
            self@ == records_map(self.order()),
            keyed_by_address(self@),
            self@.dom().finite(),
            self@.dom().len() == self.order().len(),
    {
        lemma_records_map(self.records@);
        lemma_dom_len(self.records@);
    }

    pub fn new() -> (t: MetadataTable)
        ensures
            t.wf(),
            t@ == Map::<TokenAddress, TokenMetadata>::empty(),
            t.order().len() == 0,
    {
        let t = MetadataTable { records: Vec::new() };
        assert(t@ =~= Map::<TokenAddress, TokenMetadata>::empty());
        t
    }

    /// How many addresses are described.
    pub fn len(&self) -> (n: usize)
        requires
            self.wf(),
        ensures
            n == self@.dom().len(),
            n == self.order().len(),
    {
        proof {
            self.lemma_order();
        }
        self.records.len()
    }

    pub fn is_empty(&self) -> (b: bool)
        ensures
            b == (self@.dom() == Set::<TokenAddress>::empty()),
            b == (self.order().len() == 0),
    {
        proof {
            if self.records@.len() == 0 {
                assert(self@.dom() =~= Set::<TokenAddress>::empty());
            } else {
                assert(has_key(self.records@, self.records@[0].address));
                assert(self@.dom().contains(self.records@[0].address));
            }
        }
        self.records.len() == 0
    }

    /// The record of `a`, if there is one.
    pub fn get(&self, a: TokenAddress) -> (r: Option<&TokenMetadata>)
        requires
            self.wf(),
        ensures
            r.is_some() == self@.dom().contains(a),
            r.is_some() ==> *r.unwrap() == self@[a],
    {
        let mut i: usize = 0;
        while i < self.records.len()
            invariant
                i <= self.records@.len(),
                distinct_keys(self.records@),
                forall|k: int| 0 <= k < i ==> (#[trigger] self.records@[k]).address != a,
            decreases self.records@.len() - i,
        {
            if self.records[i].address == a {
                proof {
                    lemma_records_map(self.records@);
                }
                return Some(&self.records[i]);
            }
            i = i + 1;
        }
        None
    }

    pub fn contains_key(&self, a: TokenAddress) -> (b: bool)
        requires
            self.wf(),
        ensures
            b == self@.dom().contains(a),
    {
        self.get(a).is_some()
    }

    /// The `i`-th record in the order in which they went in.
    pub fn record(&self, i: usize) -> (r: &TokenMetadata)
        requires
            i < self.order().len(),
        ensures
            *r == self.order()[i as int],
    {
        &self.records[i]
    }

    /// Files `record` under its address unless that address is described
    /// already; says whether it went in.
    pub fn insert(&mut self, record: TokenMetadata) -> (added: bool)
        requires
            old(self).wf(),
        ensures
            final(self).wf(),
            added == !old(self)@.dom().contains(record.address),
            added ==> final(self)@ == old(self)@.insert(record.address, record),
            added ==> final(self).order() == old(self).order().push(record),
            !added ==> final(self)@ == old(self)@,
            !added ==> final(self).order() == old(self).order(),
    {
        if self.contains_key(record.address) {
            false
        } else {
            proof {
                lemma_records_map_push(self.records@, record);
            }
            self.records.push(record);
            true
        }
    }

    /// The addresses described.
    pub fn keys(&self) -> (s: AddressSet)
        requires
            self.wf(),
        ensures
            s.wf(),
            s@ == self@.dom(),
    {
        let mut s = AddressSet::new();
        let mut i: usize = 0;
        while i < self.records.len()
            invariant
                i <= self.records@.len(),
                s.wf(),
                s@ == records_map(self.records@.subrange(0, i as int)).dom(),
                distinct_keys(self.records@.subrange(0, i as int)),
                distinct_keys(self.records@),
            decreases self.records@.len() - i,
        {
            proof {
                lemma_prefix_step(self.records@, i as int);
            }
            s.insert(self.records[i].address);
            i = i + 1;
        }
        assert(self.records@.subrange(0, self.records@.len() as int) =~= self.records@);
        s
    }

    /// The records whose addresses are in `keys`.
    pub fn restrict(&self, keys: &AddressSet) -> (t: MetadataTable)
        requires
            self.wf(),
        ensures
            t.wf(),
            t@ == self@.restrict(keys@),
    {
        let mut t = MetadataTable::new();
        let mut i: usize = 0;
        assert(t@ =~= records_map(self.records@.subrange(0, 0)).restrict(keys@));
        while i < self.records.len()
            invariant
                i <= self.records@.len(),
                t.wf(),
                t@ == records_map(self.records@.subrange(0, i as int)).restrict(keys@),
                distinct_keys(self.records@.subrange(0, i as int)),
                distinct_keys(self.records@),
            decreases self.records@.len() - i,
        {
            let ghost before = records_map(self.records@.subrange(0, i as int));
            let ghost r = self.records@[i as int];
            proof {
                lemma_prefix_step(self.records@, i as int);
            }
            if keys.contains(self.records[i].address) {
                let added = t.insert(self.records[i].clone());
                assert(t@ =~= before.insert(r.address, r).restrict(keys@));
            } else {
                assert(t@ =~= before.insert(r.address, r).restrict(keys@));
            }
            i = i + 1;
        }
        assert(self.records@.subrange(0, self.records@.len() as int) =~= self.records@);
        t
    }

    /// Takes over the records of `other` whose addresses are not described
    /// here; what is here already stays as it is.
    pub fn absorb(&mut self, other: &MetadataTable)
        requires
            old(self).wf(),
            other.wf(),
        ensures
            final(self).wf(),
            final(self)@ == other@.union_prefer_right(old(self)@),
    {
        let ghost start = self@;
        let mut i: usize = 0;
        assert(self@ =~= records_map(other.records@.subrange(0, 0)).union_prefer_right(start));
        while i < other.records.len()
            invariant
                i <= other.records@.len(),
                self.wf(),
                self@ == records_map(other.records@.subrange(0, i as int)).union_prefer_right(
                    start,
                ),
                distinct_keys(other.records@.subrange(0, i as int)),
                distinct_keys(other.records@),
            decreases other.records@.len() - i,
        {
            let ghost before = records_map(other.records@.subrange(0, i as int));
            let ghost r = other.records@[i as int];
            proof {
                lemma_prefix_step(other.records@, i as int);
            }
            let added = self.insert(other.records[i].clone());
            assert(self@ =~= before.insert(r.address, r).union_prefer_right(start));
            i = i + 1;
        }
        assert(other.records@.subrange(0, other.records@.len() as int) =~= other.records@);
    }

    /// The addresses that the records name as their components.
    pub fn components(&self) -> (s: AddressSet)
        requires
            self.wf(),
        ensures
            s.wf(),
            s@ == components_of(self@),
    {
        let mut s = AddressSet::new();
        let mut i: usize = 0;
        assert(s@ =~= components_of(records_map(self.records@.subrange(0, 0))));
        while i < self.records.len()
            invariant
                i <= self.records@.len(),
                s.wf(),
                s@ == components_of(records_map(self.records@.subrange(0, i as int))),
                distinct_keys(self.records@.subrange(0, i as int)),
                distinct_keys(self.records@),
            decreases self.records@.len() - i,
        {
            let ghost before = records_map(self.records@.subrange(0, i as int));
            let ghost r = self.records@[i as int];
            let ghost s0 = s@;
            proof {
                lemma_prefix_step(self.records@, i as int);
                lemma_components_insert(before, r);
            }
            match self.records[i].component0 {
                Some(a) => {
                    s.insert(a);
                },
                None => {},
            }
            match self.records[i].component1 {
                Some(a) => {
                    s.insert(a);
                },
                None => {},
            }
            assert(s@ =~= s0.union(Set::new(|a: TokenAddress| r.names_component(a))));
            i = i + 1;
        }
        assert(self.records@.subrange(0, self.records@.len() as int) =~= self.records@);
        s
    }

    /// A copy of the table.
    pub fn duplicate(&self) -> (t: MetadataTable)
        ensures
            t@ == self@,
            t.order() == self.order(),
            t.wf() == self.wf(),
    {
        let mut records: Vec<TokenMetadata> = Vec::new();
        let mut i: usize = 0;
        while i < self.records.len()
            invariant
                i <= self.records@.len(),
                records@ == self.records@.subrange(0, i as int),
            decreases self.records@.len() - i,
        {
            records.push(self.records[i].clone());
            assert(self.records@.subrange(0, i + 1) =~= self.records@.subrange(0, i as int).push(
                self.records@[i as int],
            ));
            i = i + 1;
        }
        assert(self.records@.subrange(0, self.records@.len() as int) =~= self.records@);
        MetadataTable { records }
    }
}

/// The first `i + 1` records are the first `i` and one more, under a new
/// address.
pub proof fn lemma_prefix_step(s: Seq<TokenMetadata>, i: int)
    requires
        0 <= i < s.len(),
        distinct_keys(s),
    ensures
        distinct_keys(s.subrange(0, i)),
        distinct_keys(s.subrange(0, i + 1)),
        !records_map(s.subrange(0, i)).dom().contains(s[i].address),
        records_map(s.subrange(0, i + 1)) == records_map(s.subrange(0, i)).insert(
            s[i].address,
            s[i],
        ),
{
    let p = s.subrange(0, i);
    assert forall|a: int, b: int| 0 <= a < b < p.len() implies (#[trigger] p[a]).address != (
    #[trigger] p[b]).address by {
        assert(p[a] == s[a] && p[b] == s[b]);
    }
    if has_key(p, s[i].address) {
        let k = index_of(p, s[i].address);
        assert(p[k] == s[k]);
        assert(s[k].address != s[i].address);
    }
    lemma_records_map_push(p, s[i]);
    assert(s.subrange(0, i + 1) =~= p.push(s[i]));
}

/// A new record adds its components to those named so far.
pub proof fn lemma_components_insert(m: Map<TokenAddress, TokenMetadata>, r: TokenMetadata)
    requires
        !m.dom().contains(r.address),
    ensures
        components_of(m.insert(r.address, r)) == components_of(m).union(
            Set::new(|a: TokenAddress| r.names_component(a)),
        ),
{
    let n = m.insert(r.address, r);
    let extra = Set::new(|a: TokenAddress| r.names_component(a));
    assert forall|a: TokenAddress| components_of(n).contains(a) == components_of(m).union(
        extra,
    ).contains(a) by {
        if components_of(n).contains(a) {
            let k = choose|k: TokenAddress| #[trigger]
                n.dom().contains(k) && n[k].names_component(a);
            if k != r.address {
                assert(m.dom().contains(k) && m[k].names_component(a));
            }
        }
        if components_of(m).contains(a) {
            let k = choose|k: TokenAddress| #[trigger]
                m.dom().contains(k) && m[k].names_component(a);
            assert(n.dom().contains(k) && n[k].names_component(a));
        }
        if extra.contains(a) {
            assert(n.dom().contains(r.address) && n[r.address].names_component(a));
        }
    }
    assert(components_of(n) =~= components_of(m).union(extra));
}

/// A list of records with distinct addresses describes as many addresses as
/// it has records.
pub proof fn lemma_dom_len(s: Seq<TokenMetadata>)
    requires
        distinct_keys(s),
    ensures
        records_map(s).dom().finite(),
        records_map(s).dom().len() == s.len(),
    decreases s.len(),
{
    if s.len() == 0 {
        assert(records_map(s).dom() =~= Set::<TokenAddress>::empty());
    } else {
        let i = s.len() - 1;
        lemma_prefix_step(s, i);
        lemma_dom_len(s.subrange(0, i));
        assert(s.subrange(0, i + 1) =~= s);
    }
}

} // verus!
