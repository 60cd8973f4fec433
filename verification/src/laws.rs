//! What holds of every resolution, whatever the store and the fetcher answer.

use vstd::prelude::*;
use crate::address::TokenAddress;
use crate::metadata::TokenMetadata;
use crate::resolver::{
    ActionView, EventView, Fault, FetchError, Pass, ResolverView, Stage, close_pass, initial,
    next,
};
use crate::table::components_of;

verus! {

/// What a resolution of `requested` keeps true of its state: a pass has
/// found nothing that it does not want; the first pass wants the requested
/// addresses; the second pass holds a record for each requested address and
/// wants the components that those records name.
pub open spec fn on_track(s: ResolverView, requested: Set<TokenAddress>) -> bool {
    s.stage != Stage::Finished ==> {
        &&& s.found.dom().subset_of(s.wanted)
        &&& s.stage == Stage::Append ==> s.pending.dom().subset_of(s.wanted)
        &&& match s.pass {
            Pass::Requested => s.wanted == requested,
            Pass::Underlying => s.resolved.dom() == requested && s.wanted == components_of(
                s.resolved,
            ),
        }
    }
}

/// What a mapping must be to answer a request: it describes the requested
/// addresses and the components that their records name, and nothing else.
pub open spec fn answers(m: Map<TokenAddress, TokenMetadata>, requested: Set<TokenAddress>) -> bool {
    m.dom() == requested.union(components_of(m.restrict(requested)))
}

/// A mapping that answers a request describes every requested address, and
/// describes exactly the requested addresses where their records name no
/// component outside the request.
pub proof fn lemma_answer_keys(m: Map<TokenAddress, TokenMetadata>, requested: Set<TokenAddress>)
    requires
        answers(m, requested),
    ensures
        requested.subset_of(m.dom()),
        components_of(m.restrict(requested)).subset_of(requested) ==> m.dom() == requested,
{
    if components_of(m.restrict(requested)).subset_of(requested) {
        assert(m.dom() =~= requested);
    }
}

/// A resolution begins on track, and where it ends at once its mapping
/// answers the request.
pub proof fn lemma_initial_on_track(chain: u64, requested: Set<TokenAddress>)
    ensures
        on_track(initial(chain, requested).0, requested),
        match initial(chain, requested).1 {
            ActionView::Done(Ok(m)) => answers(m, requested),
            _ => true,
        },
{
    let empty = Map::<TokenAddress, TokenMetadata>::empty();
    if requested == Set::<TokenAddress>::empty() {
        assert(empty.restrict(requested) =~= empty);
        assert(components_of(empty) =~= Set::<TokenAddress>::empty());
        assert(empty.dom() =~= requested.union(components_of(empty.restrict(requested))));
    }
}

proof fn lemma_close_pass_on_track(s: ResolverView, requested: Set<TokenAddress>)
    requires
        on_track(s, requested),
        s.stage != Stage::Finished,
    ensures
        on_track(close_pass(s).0, requested),
        match close_pass(s).1 {
            ActionView::Done(Ok(m)) => answers(m, requested) && (s.pass == Pass::Underlying
                ==> m.restrict(requested) == s.resolved),
            ActionView::Lookup(set) => s.pass == Pass::Requested && close_pass(s).0.pass
                == Pass::Underlying && set == components_of(s.found) && s.found.dom()
                == requested,
            ActionView::Done(Err(_)) => true,
            _ => false,
        },
{
    let missing = s.wanted.difference(s.found.dom());
    if missing == Set::<TokenAddress>::empty() {
        assert(s.found.dom() =~= s.wanted) by {
            assert forall|a: TokenAddress| s.wanted.contains(a) implies s.found.dom().contains(
                a,
            ) by {
                if !s.found.dom().contains(a) {
                    assert(missing.contains(a));
                }
            }
        }
        match s.pass {
            Pass::Requested => {
                assert(s.found.restrict(requested) =~= s.found);
                if components_of(s.found) == Set::<TokenAddress>::empty() {
                    assert(s.found.dom() =~= requested.union(components_of(s.found)));
                }
            },
            Pass::Underlying => {
                let m = s.found.union_prefer_right(s.resolved);
                assert(m.restrict(requested) =~= s.resolved);
                assert(m.dom() =~= requested.union(components_of(s.resolved)));
            },
        }
    }
}

/// Every step keeps a resolution on track, whatever the answer was; and a
/// mapping that a step ends with answers the request.
pub proof fn lemma_next_on_track(s: ResolverView, e: EventView, requested: Set<TokenAddress>)
    requires
        on_track(s, requested),
    ensures
        on_track(next(s, e).0, requested),
        match next(s, e).1 {
            ActionView::Done(Ok(m)) => answers(m, requested),
            _ => true,
        },
{
    match s.stage {
        Stage::Lookup => match e {
            EventView::LookedUp(Ok(hits)) => {
                let found = hits.restrict(s.wanted);
                let kept = ResolverView {
                    chain: s.chain,
                    pass: s.pass,
                    stage: s.stage,
                    wanted: s.wanted,
                    found,
                    pending: s.pending,
                    resolved: s.resolved,
                };
                lemma_close_pass_on_track(kept, requested);
            },
            _ => {},
        },
        Stage::Fetch => match e {
            EventView::Fetched { records, failures } => {
                if failures.len() == 0 {
                    lemma_close_pass_on_track(s, requested);
                }
            },
            _ => {},
        },
        Stage::Append => match e {
            EventView::Appended(Ok(_)) => {
                let merged = ResolverView {
                    chain: s.chain,
                    pass: s.pass,
                    stage: s.stage,
                    wanted: s.wanted,
                    found: s.pending.union_prefer_right(s.found),
                    pending: Map::empty(),
                    resolved: s.resolved,
                };
                assert(merged.pending.dom() =~= Set::<TokenAddress>::empty());
                lemma_close_pass_on_track(merged, requested);
            },
            _ => {},
        },
        Stage::Finished => {},
    }
}

/// What the first pass resolved is what the result says of the requested
/// addresses: an address that is both requested and a component of a
/// requested token keeps its first record.
pub proof fn lemma_first_pass_records_stay(
    s: ResolverView,
    e: EventView,
    requested: Set<TokenAddress>,
)
    requires
        on_track(s, requested),
        s.stage != Stage::Finished,
        s.pass == Pass::Underlying,
    ensures
        match next(s, e).1 {
            ActionView::Done(Ok(m)) => m.restrict(requested) == s.resolved,
            _ => true,
        },
{
    match s.stage {
        Stage::Lookup => match e {
            EventView::LookedUp(Ok(hits)) => {
                let kept = ResolverView {
                    chain: s.chain,
                    pass: s.pass,
                    stage: s.stage,
                    wanted: s.wanted,
                    found: hits.restrict(s.wanted),
                    pending: s.pending,
                    resolved: s.resolved,
                };
                lemma_close_pass_on_track(kept, requested);
            },
            _ => {},
        },
        Stage::Fetch => match e {
            EventView::Fetched { records, failures } => {
                if failures.len() == 0 {
                    lemma_close_pass_on_track(s, requested);
                }
            },
            _ => {},
        },
        Stage::Append => match e {
            EventView::Appended(Ok(_)) => {
                let merged = ResolverView {
                    chain: s.chain,
                    pass: s.pass,
                    stage: s.stage,
                    wanted: s.wanted,
                    found: s.pending.union_prefer_right(s.found),
                    pending: Map::empty(),
                    resolved: s.resolved,
                };
                assert(merged.pending.dom() =~= Set::<TokenAddress>::empty());
                lemma_close_pass_on_track(merged, requested);
            },
            _ => {},
        },
        Stage::Finished => {},
    }
}

/// No third pass: a lookup is only ever asked for by the first pass, which
/// thereby becomes the second; the second pass asks for none. What is
/// looked up then is what the requested tokens' own records name.
pub proof fn lemma_depth_is_bounded(s: ResolverView, e: EventView)
    ensures
        match next(s, e).1 {
            ActionView::Lookup(set) => s.pass == Pass::Requested && next(s, e).0.pass
                == Pass::Underlying && set == components_of(next(s, e).0.resolved),
            _ => next(s, e).0.pass == s.pass,
        },
{
}

/// One failed fetch ends the resolution at once, with every failure that
/// the driver reported; nothing is appended for the failed batch.
pub proof fn lemma_failed_fetch_ends_resolution(
    s: ResolverView,
    records: Map<TokenAddress, TokenMetadata>,
    failures: Seq<FetchError>,
)
    requires
        s.stage == Stage::Fetch,
        failures.len() > 0,
    ensures
        next(s, EventView::Fetched { records, failures }).1 == ActionView::Done(
            Err(Fault::FetchFailure(failures)),
        ),
        next(s, EventView::Fetched { records, failures }).0.stage == Stage::Finished,
{
}

/// No call is asked for in vain: a lookup, a fetch or an append is never
/// of nothing.
pub proof fn lemma_no_empty_calls(s: ResolverView, e: EventView)
    ensures
        match next(s, e).1 {
            ActionView::Lookup(set) => set != Set::<TokenAddress>::empty(),
            ActionView::Fetch(set) => set != Set::<TokenAddress>::empty(),
            ActionView::Append(records) => records.dom() != Set::<TokenAddress>::empty(),
            ActionView::Done(_) => true,
        },
{
}

} // verus!
