//! A store and a chain as mappings, and a resolution run against them.
//!
//! This is the yardstick for what a resolution costs: how many fetches and
//! appends it asks for when the store and the chain answer as mappings do.

use vstd::prelude::*;
use crate::address::TokenAddress;
use crate::metadata::TokenMetadata;
use crate::laws::{answers, lemma_initial_on_track, lemma_next_on_track, on_track};
use crate::resolver::{
    ActionView, EventView, Fault, FetchError, FetchErrorKind, MAX_PASSES, Pass, ResolverView,
    Stage, initial, next,
};
use crate::table::components_of;

verus! {

/// The two collaborators of a resolution.
pub struct World {
    /// What the store holds.
    pub store: Map<TokenAddress, TokenMetadata>,
    /// What the chain says of each address that is a token.
    pub source: Map<TokenAddress, TokenMetadata>,
}

/// A finished resolution: its outcome, the store it leaves behind, and how
/// many fetch and append actions it took.
pub struct Run {
    pub outcome: Result<Map<TokenAddress, TokenMetadata>, Fault>,
    pub store: Map<TokenAddress, TokenMetadata>,
    pub fetches: nat,
    pub appends: nat,
}

/// The failures of a fetch of addresses that are no tokens.
pub open spec fn failures_of(bad: Set<TokenAddress>) -> Seq<FetchError> {
    if bad == Set::<TokenAddress>::empty() {
        Seq::empty()
    } else {
        seq![FetchError { address: bad.choose(), kind: FetchErrorKind::NotAToken }]
    }
}

/// How the world answers an action, and what it is afterwards. A lookup
/// returns what the store holds of the addresses; a fetch returns what the
/// chain says of them; an append overwrites.
pub open spec fn reply(w: World, a: ActionView) -> (World, EventView) {
    match a {
        ActionView::Lookup(set) => (w, EventView::LookedUp(Ok(w.store.restrict(set)))),
        ActionView::Fetch(set) => (
            w,
            EventView::Fetched {
                records: w.source.restrict(set),
                failures: failures_of(set.difference(w.source.dom())),
            },
        ),
        ActionView::Append(records) => (
            World { store: w.store.union_prefer_right(records), source: w.source },
            EventView::Appended(Ok(())),
        ),
        ActionView::Done(_) => (w, EventView::Appended(Ok(()))),
    }
}

/// Runs the resolver against the world for at most `fuel` actions.
pub open spec fn drive(s: ResolverView, a: ActionView, w: World, fuel: nat) -> Run
    decreases fuel,
{
    match a {
        ActionView::Done(outcome) => Run { outcome, store: w.store, fetches: 0, appends: 0 },
        _ => if fuel == 0 {
            Run { outcome: Err(Fault::UnexpectedEvent), store: w.store, fetches: 0, appends: 0 }
        } else {
            let (w2, e) = reply(w, a);
            let (s2, a2) = next(s, e);
            let rest = drive(s2, a2, w2, (fuel - 1) as nat);
            Run {
                outcome: rest.outcome,
                store: rest.store,
                fetches: rest.fetches + if a is Fetch {
                    1nat
                } else {
                    0nat
                },
                appends: rest.appends + if a is Append {
                    1nat
                } else {
                    0nat
                },
            }
        },
    }
}

/// The most actions one resolution takes: lookup, fetch and append in each
/// pass.
pub open spec fn max_actions() -> nat {
    3 * (MAX_PASSES as nat)
}

/// One whole resolution of `requested` against the world.
pub open spec fn resolve(chain: u64, requested: Set<TokenAddress>, w: World) -> Run {
    let (s, a) = initial(chain, requested);
    drive(s, a, w, max_actions())
}

/// What the store holds of the requested addresses and of the components
/// that their records name.
pub open spec fn cached_answer(
    store: Map<TokenAddress, TokenMetadata>,
    requested: Set<TokenAddress>,
) -> Map<TokenAddress, TokenMetadata> {
    store.restrict(requested.union(components_of(store.restrict(requested))))
}

/// A full cache hit costs nothing: where the store holds every requested
/// address and every component that their records name, the resolution
/// asks for no fetch and no append, leaves the store as it was, and returns
/// what the store holds.
pub proof fn lemma_full_hit_costs_nothing(chain: u64, requested: Set<TokenAddress>, w: World)
    requires
        requested.subset_of(w.store.dom()),
        components_of(w.store.restrict(requested)).subset_of(w.store.dom()),
    ensures
        resolve(chain, requested, w).fetches == 0,
        resolve(chain, requested, w).appends == 0,
        resolve(chain, requested, w).store == w.store,
        resolve(chain, requested, w).outcome == Ok::<Map<TokenAddress, TokenMetadata>, Fault>(
            cached_answer(w.store, requested),
        ),
{
    reveal_with_fuel(drive, 3);
    let empty_set = Set::<TokenAddress>::empty();
    let first = w.store.restrict(requested);
    let under = components_of(first);
    assert(first.restrict(requested) =~= first);
    assert(requested.difference(first.dom()) =~= empty_set);
    if requested == empty_set {
        assert(first =~= Map::<TokenAddress, TokenMetadata>::empty());
        assert(under =~= empty_set);
        assert(cached_answer(w.store, requested) =~= Map::<TokenAddress, TokenMetadata>::empty());
    } else if under == empty_set {
        assert(cached_answer(w.store, requested) =~= first);
    } else {
        let second = w.store.restrict(under);
        assert(second.restrict(under) =~= second);
        assert(under.difference(second.dom()) =~= empty_set);
        assert(cached_answer(w.store, requested) =~= second.union_prefer_right(first));
    }
}

/// What holds between a resolution under way, the action it has named and
/// the world that is to answer: the store holds every record that the
/// resolution has taken from it, and what is to be fetched or appended is
/// what the store lacks.
pub open spec fn in_step(
    s: ResolverView,
    a: ActionView,
    w: World,
    requested: Set<TokenAddress>,
) -> bool {
    &&& on_track(s, requested)
    &&& s.stage != Stage::Finished && s.pass == Pass::Underlying ==> s.resolved.submap_of(w.store)
    &&& match a {
        ActionView::Lookup(set) => s.stage == Stage::Lookup && set == s.wanted,
        ActionView::Fetch(set) => s.stage == Stage::Fetch && s.found == w.store.restrict(s.wanted)
            && set == s.wanted.difference(s.found.dom()),
        ActionView::Append(records) => s.stage == Stage::Append && s.found == w.store.restrict(
            s.wanted,
        ) && records == s.pending && s.pending.dom().subset_of(
            s.wanted.difference(s.found.dom()),
        ),
        ActionView::Done(Ok(m)) => m.submap_of(w.store) && answers(m, requested),
        ActionView::Done(Err(_)) => true,
    }
}

/// The world's answer to an action leads to a state and an action that are
/// in step with the world again.
pub proof fn lemma_in_step_next(
    s: ResolverView,
    a: ActionView,
    w: World,
    requested: Set<TokenAddress>,
)
    requires
        in_step(s, a, w, requested),
        !(a is Done),
    ensures
        in_step(next(s, reply(w, a).1).0, next(s, reply(w, a).1).1, reply(w, a).0, requested),
{
    let (w2, e) = reply(w, a);
    lemma_next_on_track(s, e, requested);
    match a {
        ActionView::Lookup(set) => {
            let hits = w.store.restrict(set);
            assert(hits.restrict(s.wanted) =~= w.store.restrict(s.wanted));
        },
        ActionView::Fetch(set) => {},
        ActionView::Append(records) => {
            let found = s.pending.union_prefer_right(s.found);
            assert(found.submap_of(w2.store));
            if s.pass == Pass::Underlying {
                assert(s.resolved.submap_of(w2.store));
            }
        },
        ActionView::Done(_) => {},
    }
}

/// A resolution begins in step with the world.
pub proof fn lemma_initial_in_step(chain: u64, requested: Set<TokenAddress>, w: World)
    ensures
        in_step(initial(chain, requested).0, initial(chain, requested).1, w, requested),
{
    lemma_initial_on_track(chain, requested);
}

/// Nothing is fetched or appended that the store holds already: a fetch
/// is of wanted addresses that the store lacks, and so is an append. An
/// address that was resolved in the first pass is therefore not fetched
/// again in the second.
pub proof fn lemma_fetch_only_what_store_lacks(
    s: ResolverView,
    a: ActionView,
    w: World,
    requested: Set<TokenAddress>,
)
    requires
        in_step(s, a, w, requested),
    ensures
        match a {
            ActionView::Fetch(set) => set.subset_of(s.wanted) && set.disjoint(w.store.dom()),
            ActionView::Append(records) => records.dom().subset_of(s.wanted)
                && records.dom().disjoint(w.store.dom()),
            _ => true,
        },
{
}

/// How many actions a resolution may still take before it ends.
pub open spec fn actions_left(s: ResolverView, a: ActionView) -> nat {
    let later: nat = match s.pass {
        Pass::Requested => 3,
        Pass::Underlying => 0,
    };
    match a {
        ActionView::Lookup(_) => later + 3,
        ActionView::Fetch(_) => later + 2,
        ActionView::Append(_) => later + 1,
        ActionView::Done(_) => 0,
    }
}

/// Each answer brings the end nearer.
pub proof fn lemma_actions_left_decreases(
    s: ResolverView,
    a: ActionView,
    w: World,
    requested: Set<TokenAddress>,
)
    requires
        in_step(s, a, w, requested),
        !(a is Done),
    ensures
        actions_left(next(s, reply(w, a).1).0, next(s, reply(w, a).1).1) < actions_left(s, a),
{
}

/// A resolution ends within the actions it has left: to allow it more
/// changes nothing. One resolution therefore never takes more than
/// `max_actions()` actions.
pub proof fn lemma_more_fuel_changes_nothing(
    s: ResolverView,
    a: ActionView,
    w: World,
    requested: Set<TokenAddress>,
    fuel: nat,
)
    requires
        in_step(s, a, w, requested),
        fuel >= actions_left(s, a),
    ensures
        drive(s, a, w, fuel) == drive(s, a, w, actions_left(s, a)),
    decreases fuel,
{
    if !(a is Done) {
        let (w2, e) = reply(w, a);
        let (s2, a2) = next(s, e);
        lemma_in_step_next(s, a, w, requested);
        lemma_actions_left_decreases(s, a, w, requested);
        lemma_more_fuel_changes_nothing(s2, a2, w2, requested, (fuel - 1) as nat);
        lemma_more_fuel_changes_nothing(
            s2,
            a2,
            w2,
            requested,
            (actions_left(s, a) - 1) as nat,
        );
    }
}

/// One resolution never takes more than `max_actions()` actions: with more
/// allowed it runs as it does with that many.
pub proof fn lemma_max_actions_suffice(
    chain: u64,
    requested: Set<TokenAddress>,
    w: World,
    fuel: nat,
)
    requires
        fuel >= max_actions(),
    ensures
        drive(initial(chain, requested).0, initial(chain, requested).1, w, fuel) == resolve(
            chain,
            requested,
            w,
        ),
{
    let (s, a) = initial(chain, requested);
    lemma_initial_in_step(chain, requested, w);
    lemma_more_fuel_changes_nothing(s, a, w, requested, fuel);
    lemma_more_fuel_changes_nothing(s, a, w, requested, max_actions());
}

/// A resolution that is in step with the world and ends with a mapping
/// leaves a store that holds every record of that mapping, and the mapping
/// answers the request.
pub proof fn lemma_drive_settles(
    s: ResolverView,
    a: ActionView,
    w: World,
    requested: Set<TokenAddress>,
    fuel: nat,
)
    requires
        in_step(s, a, w, requested),
    ensures
        match drive(s, a, w, fuel).outcome {
            Ok(m) => m.submap_of(drive(s, a, w, fuel).store) && answers(m, requested),
            Err(_) => true,
        },
    decreases fuel,
{
    if !(a is Done) && fuel > 0 {
        let (w2, e) = reply(w, a);
        let (s2, a2) = next(s, e);
        lemma_in_step_next(s, a, w, requested);
        lemma_drive_settles(s2, a2, w2, requested, (fuel - 1) as nat);
    }
}

/// Resolving again changes nothing: after a resolution that ended with a
/// mapping, a second resolution of the same addresses against the store
/// that the first left behind returns the same mapping, asks for no fetch
/// and no append, and leaves the store as it is.
pub proof fn lemma_resolve_again(chain: u64, requested: Set<TokenAddress>, w: World)
    requires
        resolve(chain, requested, w).outcome is Ok,
    ensures
        ({
            let first = resolve(chain, requested, w);
            let second = resolve(chain, requested, World { store: first.store, source: w.source });
            &&& second.outcome == first.outcome
            &&& second.fetches == 0
            &&& second.appends == 0
            &&& second.store == first.store
        }),
{
    let (s, a) = initial(chain, requested);
    lemma_initial_on_track(chain, requested);
    lemma_drive_settles(s, a, w, requested, max_actions());
    let first = resolve(chain, requested, w);
    let m = first.outcome->Ok_0;
    let again = World { store: first.store, source: w.source };
    assert forall|k: TokenAddress| requested.contains(k) implies first.store.dom().contains(
        k,
    ) by {
        assert(m.dom().contains(k));
    }
    assert(first.store.restrict(requested) =~= m.restrict(requested));
    assert forall|k: TokenAddress|
        components_of(m.restrict(requested)).contains(k) implies first.store.dom().contains(
        k,
    ) by {
        assert(m.dom().contains(k));
    }
    lemma_full_hit_costs_nothing(chain, requested, again);
    assert(cached_answer(first.store, requested) =~= m);
}

} // verus!
