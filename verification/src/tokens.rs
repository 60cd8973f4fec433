//! A whole resolution against a store and a chain that are held in memory.

use vstd::pervasive::unreached;
use vstd::prelude::*;
use crate::address::TokenAddress;
use crate::address_set::AddressSet;
use crate::metadata::TokenMetadata;
use crate::resolver::{
    Action, ActionView, Event, EventView, Fault, FetchError, FetchErrorKind, MAX_PASSES,
    ResolveError, Resolver, next,
};
use crate::table::MetadataTable;
use crate::world::{
    World, actions_left, drive, failures_of, in_step, lemma_actions_left_decreases,
    lemma_in_step_next, lemma_initial_in_step, max_actions, reply, resolve,
};

verus! {

/// An outcome over sets and maps.
pub open spec fn outcome_view(r: Result<MetadataTable, ResolveError>) -> Result<
    Map<TokenAddress, TokenMetadata>,
    Fault,
> {
    match r {
        Ok(table) => Ok(table@),
        Err(e) => Err(e@),
    }
}

/// Whether two outcomes are the same, but for which of the failed fetches
/// they list.
pub open spec fn same_outcome(
    mine: Result<Map<TokenAddress, TokenMetadata>, Fault>,
    other: Result<Map<TokenAddress, TokenMetadata>, Fault>,
) -> bool {
    match (mine, other) {
        (Err(Fault::FetchFailure(_)), Err(Fault::FetchFailure(_))) => true,
        _ => mine == other,
    }
}

/// One failure for each address, in their order.
fn failures_for(bad: &AddressSet) -> (list: Vec<FetchError>)
    requires
        bad.wf(),
    ensures
        list@.len() == bad@.len(),
        forall|i: int|
            0 <= i < list@.len() ==> bad@.contains((#[trigger] list@[i]).address) && list@[i].kind
                == FetchErrorKind::NotAToken,
{
    let mut list: Vec<FetchError> = Vec::new();
    let n = bad.len();
    let mut i: usize = 0;
    while i < n
        invariant
            i <= n,
            n == bad.order().len(),
            n == bad@.len(),
            list@.len() == i,
            forall|k: int|
                0 <= k < i ==> bad@.contains((#[trigger] list@[k]).address) && list@[k].kind
                    == FetchErrorKind::NotAToken,
        decreases n - i,
    {
        list.push(FetchError { address: bad.get(i), kind: FetchErrorKind::NotAToken });
        i = i + 1;
    }
    list
}

/// Resolves `tokens` against a store and a chain held in memory, and
/// appends to the store what had to be fetched.
///
/// The outcome and the store afterwards are those of the resolution that
/// `resolve` describes. Where fetches fail, the failures listed are of
/// addresses that the chain does not know, and the store is left as it was
/// before the failed batch.
pub fn get_tokens(chain: u64, store: &mut MetadataTable, source: &MetadataTable, tokens: AddressSet) -> (r:
    Result<MetadataTable, ResolveError>)
    requires
        old(store).wf(),
        source.wf(),
        tokens.wf(),
    ensures
        final(store).wf(),
        final(store)@ == resolve(
            chain,
            tokens@,
            World { store: old(store)@, source: source@ },
        ).store,
        same_outcome(
            outcome_view(r),
            resolve(chain, tokens@, World { store: old(store)@, source: source@ }).outcome,
        ),
        match r {
            Ok(table) => table.wf(),
            Err(ResolveError::FetchFailure(list)) => list@.len() > 0 && forall|i: int|
                0 <= i < list@.len() ==> !source@.dom().contains((#[trigger] list@[i]).address),
            Err(_) => true,
        },
{
    let ghost requested = tokens@;
    let ghost target = resolve(chain, requested, World { store: store@, source: source@ });
    let (mut resolver, mut action) = Resolver::start(chain, tokens);
    proof {
        lemma_initial_in_step(chain, requested, World { store: store@, source: source@ });
    }
    let mut fuel: u8 = 3 * MAX_PASSES;
    loop
        invariant
            resolver.wf(),
            action.wf(),
            store.wf(),
            source.wf(),
            fuel <= max_actions(),
            requested == tokens@,
            !(action@ matches ActionView::Done(Err(Fault::FetchFailure(_)))),
            in_step(resolver@, action@, World { store: store@, source: source@ }, requested),
            actions_left(resolver@, action@) <= fuel,
            target == resolve(chain, requested, World { store: old(store)@, source: source@ }),
            drive(resolver@, action@, World { store: store@, source: source@ }, fuel as nat).outcome
                == target.outcome,
            drive(resolver@, action@, World { store: store@, source: source@ }, fuel as nat).store
                == target.store,
        decreases fuel,
    {
        let ghost s = resolver@;
        let ghost a = action@;
        let ghost w = World { store: store@, source: source@ };
        proof {
            if !(a is Done) {
                lemma_in_step_next(s, a, w, requested);
                lemma_actions_left_decreases(s, a, w, requested);
            }
        }
        let event = match action {
            Action::Done(outcome) => {
                return outcome;
            },
            Action::Lookup(set) => {
                Event::LookedUp(Ok(store.restrict(&set)))
            },
            Action::Fetch(set) => {
                let records = source.restrict(&set);
                let bad = set.difference(&source.keys());
                if bad.is_empty() {
                    Event::Fetched { records, failures: Vec::new() }
                } else {
                    let failures = failures_for(&bad);
                    proof {
                        bad.lemma_order();
                        assert(bad@.len() != 0) by {
                            if bad@.len() == 0 {
                                assert(bad.order().to_set() =~= Set::<TokenAddress>::empty());
                            }
                        }
                        reveal_with_fuel(drive, 2);
                        let w = World { store: store@, source: source@ };
                        assert(failures_of(bad@).len() == 1);
                        assert(reply(w, action@).1 == EventView::Fetched {
                            records: records@,
                            failures: failures_of(bad@),
                        });
                        assert(next(resolver@, reply(w, action@).1).1 is Done);
                    }
                    let (_, last) = resolver.step(Event::Fetched { records, failures });
                    return match last {
                        Action::Done(outcome) => outcome,
                        _ => unreached(),
                    };
                }
            },
            Action::Append(batch) => {
                let mut appended = batch.duplicate();
                appended.absorb(store);
                *store = appended;
                Event::Appended(Ok(()))
            },
        };
        let (r2, a2) = resolver.step(event);
        resolver = r2;
        action = a2;
        fuel = fuel - 1;
    }
}

} // verus!
