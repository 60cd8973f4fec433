//! The resolver: which store and fetcher calls to make, and what to answer.
//!
//! The resolver performs no call itself. It is a machine that names the next
//! call as an [`Action`] and takes its answer as an [`Event`]; a driver
//! performs the calls. One resolution makes at most two passes: over the
//! requested addresses, and then over the components that their records name.

use vstd::prelude::*;
use crate::address::TokenAddress;
use crate::address_set::AddressSet;
use crate::metadata::TokenMetadata;
use crate::table::{MetadataTable, components_of};

verus! {

/// How many passes one resolution makes at most: the requested tokens, then
/// their direct components. Components of components are never followed.
pub const MAX_PASSES: u8 = 2;

/// Why the chain fetcher could not describe an address.
#[derive(Clone, Copy, Debug, PartialEq, Eq, Structural)]
pub enum FetchErrorKind {
    /// The address is not a token contract.
    NotAToken,
    /// The chain could not be reached.
    Network,
    /// The chain did not answer in time.
    Timeout,
}

/// One failed fetch.
#[derive(Clone, Copy, Debug, PartialEq, Eq, Structural)]
pub struct FetchError {
    pub address: TokenAddress,
    pub kind: FetchErrorKind,
}

/// A failure of the metadata store, as the driver reports it.
#[derive(Clone, Copy, Debug, PartialEq, Eq, Structural)]
pub struct StoreError {
    pub code: i32,
}

/// Why a resolution ended without a mapping.
#[derive(Debug)]
pub enum ResolveError {
    /// A store lookup or append failed.
    Store(StoreError),
    /// One or more fetches failed; each is listed.
    FetchFailure(Vec<FetchError>),
    /// After lookup and fetch these addresses still have no metadata.
    Incomplete(AddressSet),
    /// The driver answered a call that was not the one asked for.
    UnexpectedEvent,
}

/// [`ResolveError`] over sets and sequences.
pub enum Fault {
    Store(StoreError),
    FetchFailure(Seq<FetchError>),
    Incomplete(Set<TokenAddress>),
    UnexpectedEvent,
}

/// Which addresses a pass is about.
#[derive(Clone, Copy, Debug, PartialEq, Eq, Structural)]
pub enum Pass {
    /// The addresses that the caller asked for.
    Requested,
    /// The components named by the records of the requested addresses.
    Underlying,
}

/// Which answer the resolver waits for.
#[derive(Clone, Copy, Debug, PartialEq, Eq, Structural)]
pub enum Stage {
    Lookup,
    Fetch,
    Append,
    Finished,
}

/// What the driver is to do next.
#[derive(Debug)]
pub enum Action {
    /// Ask the store for these addresses.
    Lookup(AddressSet),
    /// Fetch each of these addresses from the chain, all at once.
    Fetch(AddressSet),
    /// Append these records to the store in one batch.
    Append(MetadataTable),
    /// The resolution is over, with this outcome.
    Done(Result<MetadataTable, ResolveError>),
}

/// [`Action`] over sets and maps.
pub enum ActionView {
    Lookup(Set<TokenAddress>),
    Fetch(Set<TokenAddress>),
    Append(Map<TokenAddress, TokenMetadata>),
    Done(Result<Map<TokenAddress, TokenMetadata>, Fault>),
}

/// The answer to the last action.
#[derive(Debug)]
pub enum Event {
    /// What the store holds of the addresses asked for, or its failure.
    LookedUp(Result<MetadataTable, StoreError>),
    /// The records fetched, and the fetches that failed.
    Fetched { records: MetadataTable, failures: Vec<FetchError> },
    /// Whether the batch was appended.
    Appended(Result<(), StoreError>),
}

/// [`Event`] over sets and maps.
pub enum EventView {
    LookedUp(Result<Map<TokenAddress, TokenMetadata>, StoreError>),
    Fetched { records: Map<TokenAddress, TokenMetadata>, failures: Seq<FetchError> },
    Appended(Result<(), StoreError>),
}

/// The state of one resolution over sets and maps.
pub struct ResolverView {
    pub chain: u64,
    pub pass: Pass,
    pub stage: Stage,
    /// The addresses that the current pass is to resolve.
    pub wanted: Set<TokenAddress>,
    /// What the current pass has resolved so far.
    pub found: Map<TokenAddress, TokenMetadata>,
    /// What was fetched and is being appended.
    pub pending: Map<TokenAddress, TokenMetadata>,
    /// What the first pass resolved, once the second has begun.
    pub resolved: Map<TokenAddress, TokenMetadata>,
}

/// Ends the resolution: nothing is kept but the outcome.
pub open spec fn finish(s: ResolverView, outcome: Result<Map<TokenAddress, TokenMetadata>, Fault>) -> (
    ResolverView,
    ActionView,
) {
    (
        ResolverView {
            chain: s.chain,
            pass: s.pass,
            stage: Stage::Finished,
            wanted: Set::empty(),
            found: Map::empty(),
            pending: Map::empty(),
            resolved: Map::empty(),
        },
        ActionView::Done(outcome),
    )
}

/// Ends a pass. A wanted address without metadata ends the resolution. The
/// first pass goes on to the components that its records name, if there are
/// any; the second pass adds what it found to the first pass's records,
/// which stay as they are.
pub open spec fn close_pass(s: ResolverView) -> (ResolverView, ActionView) {
    let missing = s.wanted.difference(s.found.dom());
    if missing != Set::<TokenAddress>::empty() {
        finish(s, Err(Fault::Incomplete(missing)))
    } else {
        match s.pass {
            Pass::Requested => {
                let underlying = components_of(s.found);
                if underlying == Set::<TokenAddress>::empty() {
                    finish(s, Ok(s.found))
                } else {
                    (
                        ResolverView {
                            chain: s.chain,
                            pass: Pass::Underlying,
                            stage: Stage::Lookup,
                            wanted: underlying,
                            found: Map::empty(),
                            pending: Map::empty(),
                            resolved: s.found,
                        },
                        ActionView::Lookup(underlying),
                    )
                }
            },
            Pass::Underlying => finish(s, Ok(s.found.union_prefer_right(s.resolved))),
        }
    }
}

/// How a resolution of `requested` begins: with a lookup of all of them, or,
/// where nothing is requested, with the empty mapping.
pub open spec fn initial(chain: u64, requested: Set<TokenAddress>) -> (ResolverView, ActionView) {
    let s = ResolverView {
        chain,
        pass: Pass::Requested,
        stage: Stage::Lookup,
        wanted: requested,
        found: Map::empty(),
        pending: Map::empty(),
        resolved: Map::empty(),
    };
    if requested == Set::<TokenAddress>::empty() {
        finish(s, Ok(Map::empty()))
    } else {
        (s, ActionView::Lookup(requested))
    }
}

/// The answer to a lookup: what the store holds of the wanted addresses is
/// kept; the rest is fetched, or the pass ends where nothing is missing.
pub open spec fn on_lookup(s: ResolverView, hits: Map<TokenAddress, TokenMetadata>) -> (
    ResolverView,
    ActionView,
) {
    let found = hits.restrict(s.wanted);
    let missing = s.wanted.difference(found.dom());
    let kept = ResolverView {
        chain: s.chain,
        pass: s.pass,
        stage: s.stage,
        wanted: s.wanted,
        found,
        pending: s.pending,
        resolved: s.resolved,
    };
    if missing == Set::<TokenAddress>::empty() {
        close_pass(kept)
    } else {
        (
            ResolverView {
                chain: s.chain,
                pass: s.pass,
                stage: Stage::Fetch,
                wanted: s.wanted,
                found,
                pending: s.pending,
                resolved: s.resolved,
            },
            ActionView::Fetch(missing),
        )
    }
}

/// The answer to a fetch: one failure ends the resolution; else the records
/// of the missing addresses are appended, or the pass ends where there are
/// none.
pub open spec fn on_fetch(
    s: ResolverView,
    records: Map<TokenAddress, TokenMetadata>,
    failures: Seq<FetchError>,
) -> (ResolverView, ActionView) {
    if failures.len() > 0 {
        finish(s, Err(Fault::FetchFailure(failures)))
    } else {
        let fresh = records.restrict(s.wanted.difference(s.found.dom()));
        if fresh.dom() == Set::<TokenAddress>::empty() {
            close_pass(s)
        } else {
            (
                ResolverView {
                    chain: s.chain,
                    pass: s.pass,
                    stage: Stage::Append,
                    wanted: s.wanted,
                    found: s.found,
                    pending: fresh,
                    resolved: s.resolved,
                },
                ActionView::Append(fresh),
            )
        }
    }
}

/// The answer to an append that went through: what was appended counts as
/// found, and the pass ends.
pub open spec fn on_append(s: ResolverView) -> (ResolverView, ActionView) {
    close_pass(
        ResolverView {
            chain: s.chain,
            pass: s.pass,
            stage: s.stage,
            wanted: s.wanted,
            found: s.pending.union_prefer_right(s.found),
            pending: Map::empty(),
            resolved: s.resolved,
        },
    )
}

/// The resolver's rule: from a state and the answer to its last action, the
/// next state and action.
pub open spec fn next(s: ResolverView, e: EventView) -> (ResolverView, ActionView) {
    match s.stage {
        Stage::Lookup => match e {
            EventView::LookedUp(Ok(hits)) => on_lookup(s, hits),
            EventView::LookedUp(Err(err)) => finish(s, Err(Fault::Store(err))),
            _ => finish(s, Err(Fault::UnexpectedEvent)),
        },
        Stage::Fetch => match e {
            EventView::Fetched { records, failures } => on_fetch(s, records, failures),
            _ => finish(s, Err(Fault::UnexpectedEvent)),
        },
        Stage::Append => match e {
            EventView::Appended(Ok(_)) => on_append(s),
            EventView::Appended(Err(err)) => finish(s, Err(Fault::Store(err))),
            _ => finish(s, Err(Fault::UnexpectedEvent)),
        },
        Stage::Finished => finish(s, Err(Fault::UnexpectedEvent)),
    }
}

impl ResolveError {
    pub open spec fn view(&self) -> Fault {
        match self {
            ResolveError::Store(e) => Fault::Store(*e),
            ResolveError::FetchFailure(list) => Fault::FetchFailure(list@),
            ResolveError::Incomplete(missing) => Fault::Incomplete(missing@),
            ResolveError::UnexpectedEvent => Fault::UnexpectedEvent,
        }
    }

    pub open spec fn wf(&self) -> bool {
        match self {
            ResolveError::Incomplete(missing) => missing.wf(),
            _ => true,
        }
    }
}

impl Action {
    pub open spec fn view(&self) -> ActionView {
        match self {
            Action::Lookup(set) => ActionView::Lookup(set@),
            Action::Fetch(set) => ActionView::Fetch(set@),
            Action::Append(table) => ActionView::Append(table@),
            Action::Done(Ok(table)) => ActionView::Done(Ok(table@)),
            Action::Done(Err(e)) => ActionView::Done(Err(e@)),
        }
    }

    pub open spec fn wf(&self) -> bool {
        match self {
            Action::Lookup(set) => set.wf(),
            Action::Fetch(set) => set.wf(),
            Action::Append(table) => table.wf(),
            Action::Done(Ok(table)) => table.wf(),
            Action::Done(Err(e)) => e.wf(),
        }
    }
}

/// The failures among the answers to a fetch, each with the address that
/// was asked for, in the order of the answers.
pub open spec fn failed_fetches(
    answers: Seq<(TokenAddress, Result<TokenMetadata, FetchErrorKind>)>,
) -> Seq<FetchError>
    decreases answers.len(),
{
    if answers.len() == 0 {
        Seq::empty()
    } else {
        let rest = failed_fetches(answers.drop_last());
        match answers.last().1 {
            Err(kind) => rest.push(FetchError { address: answers.last().0, kind }),
            Ok(_) => rest,
        }
    }
}

/// The records among the answers to a fetch, each under its own address;
/// of two records for one address the earlier one counts.
pub open spec fn fetched_records(
    answers: Seq<(TokenAddress, Result<TokenMetadata, FetchErrorKind>)>,
) -> Map<TokenAddress, TokenMetadata>
    decreases answers.len(),
{
    if answers.len() == 0 {
        Map::empty()
    } else {
        let rest = fetched_records(answers.drop_last());
        match answers.last().1 {
            Ok(record) => if rest.dom().contains(record.address) {
                rest
            } else {
                rest.insert(record.address, record)
            },
            Err(_) => rest,
        }
    }
}

impl Event {
    /// The answer to a fetch from the answers to its single fetches, each
    /// with the address that was asked for.
    pub fn from_fetches(answers: &Vec<(TokenAddress, Result<TokenMetadata, FetchErrorKind>)>) -> (e:
        Event)
        ensures
            e.wf(),
            e@ == (EventView::Fetched {
                records: fetched_records(answers@),
                failures: failed_fetches(answers@),
            }),
    {
        let mut records = MetadataTable::new();
        let mut failures: Vec<FetchError> = Vec::new();
        let mut i: usize = 0;
        assert(answers@.subrange(0, 0) =~= Seq::empty());
        while i < answers.len()
            invariant
                i <= answers@.len(),
                records.wf(),
                records@ == fetched_records(answers@.subrange(0, i as int)),
                failures@ == failed_fetches(answers@.subrange(0, i as int)),
            decreases answers@.len() - i,
        {
            proof {
                let longer = answers@.subrange(0, i + 1);
                assert(longer.drop_last() =~= answers@.subrange(0, i as int));
                assert(longer.last() == answers@[i as int]);
            }
            match &answers[i].1 {
                Ok(record) => {
                    records.insert(record.clone());
                },
                Err(kind) => {
                    failures.push(FetchError { address: answers[i].0, kind: *kind });
                },
            }
            i = i + 1;
        }
        assert(answers@.subrange(0, answers@.len() as int) =~= answers@);
        Event::Fetched { records, failures }
    }

    pub open spec fn view(&self) -> EventView {
        match self {
            Event::LookedUp(Ok(table)) => EventView::LookedUp(Ok(table@)),
            Event::LookedUp(Err(e)) => EventView::LookedUp(Err(*e)),
            Event::Fetched { records, failures } => EventView::Fetched {
                records: records@,
                failures: failures@,
            },
            Event::Appended(r) => EventView::Appended(*r),
        }
    }

    pub open spec fn wf(&self) -> bool {
        match self {
            Event::LookedUp(Ok(table)) => table.wf(),
            Event::Fetched { records, failures } => records.wf(),
            _ => true,
        }
    }
}

/// One resolution in progress.
#[derive(Debug)]
pub struct Resolver {
    chain: u64,
    pass: Pass,
    stage: Stage,
    wanted: AddressSet,
    found: MetadataTable,
    pending: MetadataTable,
    resolved: MetadataTable,
}

impl Resolver {
    pub closed spec fn view(&self) -> ResolverView {
        ResolverView {
            chain: self.chain,
            pass: self.pass,
            stage: self.stage,
            wanted: self.wanted@,
            found: self.found@,
            pending: self.pending@,
            resolved: self.resolved@,
        }
    }

    pub closed spec fn wf(&self) -> bool {
        self.wanted.wf() && self.found.wf() && self.pending.wf() && self.resolved.wf()
    }

    /// The chain whose tokens are resolved.
    pub fn chain(&self) -> (c: u64)
        ensures
            c == self@.chain,
    {
        self.chain
    }

    /// The pass that is under way.
    pub fn pass(&self) -> (p: Pass)
        ensures
            p == self@.pass,
    {
        self.pass
    }

    /// The answer that the resolver waits for.
    pub fn stage(&self) -> (s: Stage)
        ensures
            s == self@.stage,
    {
        self.stage
    }

    /// Begins the resolution of `requested` on `chain`.
    pub fn start(chain: u64, requested: AddressSet) -> (out: (Resolver, Action))
        requires
            requested.wf(),
        ensures
            out.0.wf(),
            out.1.wf(),
            (out.0@, out.1@) == initial(chain, requested@),
    {
        if requested.is_empty() {
            let r = Resolver {
                chain,
                pass: Pass::Requested,
                stage: Stage::Lookup,
                wanted: requested,
                found: MetadataTable::new(),
                pending: MetadataTable::new(),
                resolved: MetadataTable::new(),
            };
            r.finish(Ok(MetadataTable::new()))
        } else {
            let ask = requested.duplicate();
            let r = Resolver {
                chain,
                pass: Pass::Requested,
                stage: Stage::Lookup,
                wanted: requested,
                found: MetadataTable::new(),
                pending: MetadataTable::new(),
                resolved: MetadataTable::new(),
            };
            (r, Action::Lookup(ask))
        }
    }

    fn finish(self, outcome: Result<MetadataTable, ResolveError>) -> (out: (Resolver, Action))
        requires
            match outcome {
                Ok(table) => table.wf(),
                Err(e) => e.wf(),
            },
        ensures
            out.0.wf(),
            out.1.wf(),
            out.1 == Action::Done(outcome),
            (out.0@, out.1@) == finish(
                self@,
                match outcome {
                    Ok(table) => Ok(table@),
                    Err(e) => Err(e@),
                },
            ),
    {
        let r = Resolver {
            chain: self.chain,
            pass: self.pass,
            stage: Stage::Finished,
            wanted: AddressSet::new(),
            found: MetadataTable::new(),
            pending: MetadataTable::new(),
            resolved: MetadataTable::new(),
        };
        (r, Action::Done(outcome))
    }

    fn close_pass(self) -> (out: (Resolver, Action))
        requires
            self.wf(),
        ensures
            out.0.wf(),
            out.1.wf(),
            (out.0@, out.1@) == close_pass(self@),
    {
        let missing = self.wanted.difference(&self.found.keys());
        if !missing.is_empty() {
            return self.finish(Err(ResolveError::Incomplete(missing)));
        }
        match self.pass {
            Pass::Requested => {
                let underlying = self.found.components();
                if underlying.is_empty() {
                    let result = self.found.duplicate();
                    self.finish(Ok(result))
                } else {
                    let ask = underlying.duplicate();
                    let r = Resolver {
                        chain: self.chain,
                        pass: Pass::Underlying,
                        stage: Stage::Lookup,
                        wanted: underlying,
                        found: MetadataTable::new(),
                        pending: MetadataTable::new(),
                        resolved: self.found,
                    };
                    (r, Action::Lookup(ask))
                }
            },
            Pass::Underlying => {
                let mut result = self.resolved.duplicate();
                result.absorb(&self.found);
                self.finish(Ok(result))
            },
        }
    }

    /// Takes the answer to the last action and names the next one.
    ///
    /// An answer that does not belong to the action last named, or any answer
    /// once the resolution is over, ends the resolution with
    /// [`ResolveError::UnexpectedEvent`].
    pub fn step(self, event: Event) -> (out: (Resolver, Action))
        requires
            self.wf(),
            event.wf(),
        ensures
            out.0.wf(),
            out.1.wf(),
            (out.0@, out.1@) == next(self@, event@),
    {
        match self.stage {
            Stage::Lookup => match event {
                Event::LookedUp(Ok(hits)) => {
                    let found = hits.restrict(&self.wanted);
                    let missing = self.wanted.difference(&found.keys());
                    if missing.is_empty() {
                        let kept = Resolver {
                            chain: self.chain,
                            pass: self.pass,
                            stage: self.stage,
                            wanted: self.wanted,
                            found,
                            pending: self.pending,
                            resolved: self.resolved,
                        };
                        kept.close_pass()
                    } else {
                        let r = Resolver {
                            chain: self.chain,
                            pass: self.pass,
                            stage: Stage::Fetch,
                            wanted: self.wanted,
                            found,
                            pending: self.pending,
                            resolved: self.resolved,
                        };
                        (r, Action::Fetch(missing))
                    }
                },
                Event::LookedUp(Err(err)) => self.finish(Err(ResolveError::Store(err))),
                _ => self.finish(Err(ResolveError::UnexpectedEvent)),
            },
            Stage::Fetch => match event {
                Event::Fetched { records, failures } => {
                    if failures.len() > 0 {
                        self.finish(Err(ResolveError::FetchFailure(failures)))
                    } else {
                        let missing = self.wanted.difference(&self.found.keys());
                        let fresh = records.restrict(&missing);
                        if fresh.is_empty() {
                            self.close_pass()
                        } else {
                            let batch = fresh.duplicate();
                            let r = Resolver {
                                chain: self.chain,
                                pass: self.pass,
                                stage: Stage::Append,
                                wanted: self.wanted,
                                found: self.found,
                                pending: fresh,
                                resolved: self.resolved,
                            };
                            (r, Action::Append(batch))
                        }
                    }
                },
                _ => self.finish(Err(ResolveError::UnexpectedEvent)),
            },
            Stage::Append => match event {
                Event::Appended(Ok(_)) => {
                    let mut found = self.found;
                    found.absorb(&self.pending);
                    let r = Resolver {
                        chain: self.chain,
                        pass: self.pass,
                        stage: self.stage,
                        wanted: self.wanted,
                        found,
                        pending: MetadataTable::new(),
                        resolved: self.resolved,
                    };
                    r.close_pass()
                },
                Event::Appended(Err(err)) => self.finish(Err(ResolveError::Store(err))),
                _ => self.finish(Err(ResolveError::UnexpectedEvent)),
            },
            Stage::Finished => self.finish(Err(ResolveError::UnexpectedEvent)),
        }
    }
}

} // verus!
