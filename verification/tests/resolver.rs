use token_resolver::address::TokenAddress;
use token_resolver::address_set::AddressSet;
use token_resolver::metadata::TokenMetadata;
use token_resolver::resolver::{
    Action, Event, FetchError, FetchErrorKind, Pass, ResolveError, Resolver, Stage, StoreError,
    MAX_PASSES,
};
use token_resolver::table::MetadataTable;

const CHAIN: u64 = 1;

fn addr(n: u128) -> TokenAddress {
    TokenAddress { hi: 0, lo: n }
}

fn plain(n: u128, name: &str, symbol: &str, decimals: u8) -> TokenMetadata {
    TokenMetadata {
        chain: CHAIN,
        address: addr(n),
        name: name.to_string(),
        symbol: symbol.to_string(),
        decimals,
        component0: None,
        component1: None,
    }
}

fn pool(n: u128, name: &str, c0: u128, c1: u128) -> TokenMetadata {
    TokenMetadata {
        chain: CHAIN,
        address: addr(n),
        name: name.to_string(),
        symbol: "LP".to_string(),
        decimals: 18,
        component0: Some(addr(c0)),
        component1: Some(addr(c1)),
    }
}

/// A store and a chain held in memory, with a count of what was asked of them.
struct World {
    store: Vec<TokenMetadata>,
    chain: Vec<TokenMetadata>,
    lookups: Vec<Vec<TokenAddress>>,
    fetched: Vec<TokenAddress>,
    appended: Vec<Vec<TokenAddress>>,
}

impl World {
    fn new(store: Vec<TokenMetadata>, chain: Vec<TokenMetadata>) -> World {
        World { store, chain, lookups: vec![], fetched: vec![], appended: vec![] }
    }

    fn lookup(&mut self, set: &AddressSet) -> MetadataTable {
        let mut asked = vec![];
        let mut hits = MetadataTable::new();
        for i in 0..set.len() {
            let a = set.get(i);
            asked.push(a);
            if let Some(r) = self.store.iter().rev().find(|r| r.address == a) {
                hits.insert(r.clone());
            }
        }
        self.lookups.push(asked);
        hits
    }

    fn fetch(&mut self, set: &AddressSet) -> Event {
        let mut answers = vec![];
        for i in 0..set.len() {
            let a = set.get(i);
            self.fetched.push(a);
            match self.chain.iter().find(|r| r.address == a) {
                Some(r) => answers.push((a, Ok(r.clone()))),
                None => answers.push((a, Err(FetchErrorKind::Network))),
            }
        }
        Event::from_fetches(&answers)
    }

    fn append(&mut self, batch: &MetadataTable) {
        let mut keys = vec![];
        for i in 0..batch.len() {
            keys.push(batch.record(i).address);
            self.store.push(batch.record(i).clone());
        }
        self.appended.push(keys);
    }

    fn resolve(&mut self, requested: &[TokenAddress]) -> Result<MetadataTable, ResolveError> {
        let (mut resolver, mut action) = Resolver::start(CHAIN, AddressSet::from_slice(requested));
        loop {
            let event = match action {
                Action::Done(outcome) => {
                    assert_eq!(resolver.stage(), Stage::Finished);
                    return outcome;
                }
                Action::Lookup(set) => Event::LookedUp(Ok(self.lookup(&set))),
                Action::Fetch(set) => self.fetch(&set),
                Action::Append(batch) => {
                    self.append(&batch);
                    Event::Appended(Ok(()))
                }
            };
            let (r, a) = resolver.step(event);
            resolver = r;
            action = a;
        }
    }
}

fn sorted_keys(t: &MetadataTable) -> Vec<u128> {
    let mut keys: Vec<u128> = (0..t.len()).map(|i| t.record(i).address.lo).collect();
    keys.sort();
    keys
}

#[test]
fn plain_token_is_fetched_and_appended_once() {
    let foo = plain(0xA, "Foo", "FOO", 18);
    let mut world = World::new(vec![], vec![foo.clone()]);
    let result = world.resolve(&[addr(0xA)]).unwrap();
    assert_eq!(result.len(), 1);
    let got = result.get(addr(0xA)).unwrap();
    assert!(got.same_as(&foo));
    assert_eq!(got.name, "Foo");
    assert_eq!(got.symbol, "FOO");
    assert_eq!(got.decimals, 18);
    assert_eq!(got.component0, None);
    assert_eq!(got.component1, None);
    assert_eq!(world.fetched, vec![addr(0xA)]);
    assert_eq!(world.appended, vec![vec![addr(0xA)]]);
    assert_eq!(world.lookups.len(), 1);
}

#[test]
fn pool_brings_its_two_components() {
    let p = pool(0x50, "Pool", 0x58, 0x59);
    let x = plain(0x58, "X", "X", 6);
    let y = plain(0x59, "Y", "Y", 8);
    let mut world = World::new(vec![], vec![p.clone(), x.clone(), y.clone()]);
    let result = world.resolve(&[addr(0x50)]).unwrap();
    assert_eq!(result.len(), 3);
    assert_eq!(sorted_keys(&result), vec![0x50, 0x58, 0x59]);
    assert!(result.get(addr(0x50)).unwrap().same_as(&p));
    assert!(result.get(addr(0x58)).unwrap().same_as(&x));
    assert!(result.get(addr(0x59)).unwrap().same_as(&y));
    assert_eq!(world.fetched, vec![addr(0x50), addr(0x58), addr(0x59)]);
    assert_eq!(world.appended, vec![vec![addr(0x50)], vec![addr(0x58), addr(0x59)]]);
    assert_eq!(world.lookups, vec![vec![addr(0x50)], vec![addr(0x58), addr(0x59)]]);
}

#[test]
fn failed_fetch_ends_without_append() {
    let mut world = World::new(vec![], vec![]);
    match world.resolve(&[addr(0xA)]) {
        Err(ResolveError::FetchFailure(list)) => {
            assert_eq!(
                list,
                vec![FetchError { address: addr(0xA), kind: FetchErrorKind::Network }]
            );
        }
        other => panic!("unexpected outcome: {:?}", other),
    }
    assert!(world.appended.is_empty());
    assert!(world.store.is_empty());
}

#[test]
fn one_failure_among_many_fails_the_batch() {
    let mut world = World::new(vec![], vec![plain(1, "One", "ONE", 18)]);
    match world.resolve(&[addr(1), addr(2)]) {
        Err(ResolveError::FetchFailure(list)) => {
            assert_eq!(list.len(), 1);
            assert_eq!(list[0].address, addr(2));
        }
        other => panic!("unexpected outcome: {:?}", other),
    }
    assert!(world.appended.is_empty());
}

#[test]
fn result_keys_are_the_requested_addresses() {
    let mut world = World::new(
        vec![plain(1, "One", "ONE", 18)],
        vec![plain(2, "Two", "TWO", 6), plain(3, "Three", "THR", 8)],
    );
    let result = world.resolve(&[addr(3), addr(1), addr(2), addr(1)]).unwrap();
    assert_eq!(sorted_keys(&result), vec![1, 2, 3]);
    assert_eq!(world.fetched.len(), 2);
    assert_eq!(world.appended.len(), 1);
}

#[test]
fn full_cache_hit_fetches_and_appends_nothing() {
    let mut world = World::new(
        vec![pool(0x50, "Pool", 1, 2), plain(1, "One", "ONE", 18), plain(2, "Two", "TWO", 6)],
        vec![],
    );
    let result = world.resolve(&[addr(0x50), addr(1)]).unwrap();
    assert_eq!(sorted_keys(&result), vec![1, 2, 0x50]);
    assert!(world.fetched.is_empty());
    assert!(world.appended.is_empty());
    assert_eq!(world.store.len(), 3);
}

#[test]
fn requested_component_is_resolved_once() {
    let p = pool(0x50, "Pool", 1, 2);
    let one = plain(1, "One", "ONE", 18);
    let two = plain(2, "Two", "TWO", 6);
    let mut world = World::new(vec![], vec![p.clone(), one.clone(), two.clone()]);
    let result = world.resolve(&[addr(0x50), addr(1)]).unwrap();
    assert_eq!(sorted_keys(&result), vec![1, 2, 0x50]);
    assert!(result.get(addr(1)).unwrap().same_as(&one));
    assert_eq!(world.fetched, vec![addr(0x50), addr(1), addr(2)]);
    assert_eq!(world.appended, vec![vec![addr(0x50), addr(1)], vec![addr(2)]]);
}

#[test]
fn resolving_again_hits_the_cache() {
    let p = pool(0x50, "Pool", 0x58, 0x59);
    let chain = vec![p, plain(0x58, "X", "X", 6), plain(0x59, "Y", "Y", 8)];
    let mut world = World::new(vec![], chain);
    let first = world.resolve(&[addr(0x50)]).unwrap();
    let fetched = world.fetched.len();
    let appended = world.appended.len();
    let second = world.resolve(&[addr(0x50)]).unwrap();
    assert_eq!(world.fetched.len(), fetched);
    assert_eq!(world.appended.len(), appended);
    assert_eq!(first.len(), second.len());
    for i in 0..first.len() {
        let r = first.record(i);
        assert!(second.get(r.address).unwrap().same_as(r));
    }
}

#[test]
fn components_of_components_are_not_followed() {
    let outer = pool(0x50, "Outer", 0x60, 0x61);
    let inner = pool(0x60, "Inner", 0x70, 0x71);
    let leaf = plain(0x61, "Leaf", "LEAF", 18);
    let deep0 = plain(0x70, "Deep0", "D0", 18);
    let deep1 = plain(0x71, "Deep1", "D1", 18);
    let mut world = World::new(vec![], vec![outer, inner.clone(), leaf, deep0, deep1]);
    let result = world.resolve(&[addr(0x50)]).unwrap();
    assert_eq!(sorted_keys(&result), vec![0x50, 0x60, 0x61]);
    assert!(result.get(addr(0x60)).unwrap().same_as(&inner));
    assert!(result.get(addr(0x70)).is_none());
    assert_eq!(world.lookups.len(), usize::from(MAX_PASSES));
    assert_eq!(world.fetched, vec![addr(0x50), addr(0x60), addr(0x61)]);
}

#[test]
fn empty_request_asks_for_nothing() {
    let mut world = World::new(vec![plain(1, "One", "ONE", 18)], vec![]);
    let result = world.resolve(&[]).unwrap();
    assert!(result.is_empty());
    assert!(world.lookups.is_empty());
    assert!(world.fetched.is_empty());
    assert!(world.appended.is_empty());
}

#[test]
fn start_asks_for_a_lookup_of_the_request() {
    let (resolver, action) = Resolver::start(7, AddressSet::from_slice(&[addr(1), addr(2)]));
    assert_eq!(resolver.chain(), 7);
    assert_eq!(resolver.pass(), Pass::Requested);
    assert_eq!(resolver.stage(), Stage::Lookup);
    match action {
        Action::Lookup(set) => {
            assert_eq!(set.len(), 2);
            assert!(set.contains(addr(1)) && set.contains(addr(2)));
        }
        other => panic!("unexpected action: {:?}", other),
    }
}

#[test]
fn lookup_failure_is_surfaced_unchanged() {
    let (resolver, _) = Resolver::start(CHAIN, AddressSet::from_slice(&[addr(1)]));
    let (resolver, action) = resolver.step(Event::LookedUp(Err(StoreError { code: 503 })));
    assert_eq!(resolver.stage(), Stage::Finished);
    match action {
        Action::Done(Err(ResolveError::Store(e))) => assert_eq!(e, StoreError { code: 503 }),
        other => panic!("unexpected action: {:?}", other),
    }
}

#[test]
fn append_failure_is_surfaced_unchanged() {
    let (resolver, _) = Resolver::start(CHAIN, AddressSet::from_slice(&[addr(1)]));
    let (resolver, action) = resolver.step(Event::LookedUp(Ok(MetadataTable::new())));
    assert!(matches!(action, Action::Fetch(_)));
    let mut records = MetadataTable::new();
    records.insert(plain(1, "One", "ONE", 18));
    let (resolver, action) = resolver.step(Event::Fetched { records, failures: vec![] });
    assert_eq!(resolver.stage(), Stage::Append);
    assert!(matches!(action, Action::Append(_)));
    let (_, action) = resolver.step(Event::Appended(Err(StoreError { code: -1 })));
    match action {
        Action::Done(Err(ResolveError::Store(e))) => assert_eq!(e.code, -1),
        other => panic!("unexpected action: {:?}", other),
    }
}

#[test]
fn missing_record_is_an_incomplete_resolution() {
    let (resolver, _) = Resolver::start(CHAIN, AddressSet::from_slice(&[addr(1), addr(2)]));
    let (resolver, _) = resolver.step(Event::LookedUp(Ok(MetadataTable::new())));
    let mut records = MetadataTable::new();
    records.insert(plain(1, "One", "ONE", 18));
    let (resolver, action) = resolver.step(Event::Fetched { records, failures: vec![] });
    match action {
        Action::Append(batch) => assert_eq!(batch.len(), 1),
        other => panic!("unexpected action: {:?}", other),
    }
    let (resolver, action) = resolver.step(Event::Appended(Ok(())));
    assert_eq!(resolver.stage(), Stage::Finished);
    match action {
        Action::Done(Err(ResolveError::Incomplete(missing))) => {
            assert_eq!(missing.len(), 1);
            assert!(missing.contains(addr(2)));
        }
        other => panic!("unexpected action: {:?}", other),
    }
}

#[test]
fn empty_fetch_is_incomplete_without_append() {
    let (resolver, _) = Resolver::start(CHAIN, AddressSet::from_slice(&[addr(1)]));
    let (resolver, _) = resolver.step(Event::LookedUp(Ok(MetadataTable::new())));
    let (_, action) =
        resolver.step(Event::Fetched { records: MetadataTable::new(), failures: vec![] });
    match action {
        Action::Done(Err(ResolveError::Incomplete(missing))) => {
            assert!(missing.contains(addr(1)))
        }
        other => panic!("unexpected action: {:?}", other),
    }
}

#[test]
fn unsolicited_records_are_dropped() {
    let (resolver, _) = Resolver::start(CHAIN, AddressSet::from_slice(&[addr(1)]));
    let mut hits = MetadataTable::new();
    hits.insert(plain(9, "Nine", "NINE", 18));
    hits.insert(plain(1, "One", "ONE", 18));
    let (_, action) = resolver.step(Event::LookedUp(Ok(hits)));
    match action {
        Action::Done(Ok(result)) => {
            assert_eq!(result.len(), 1);
            assert!(result.contains_key(addr(1)));
            assert!(!result.contains_key(addr(9)));
        }
        other => panic!("unexpected action: {:?}", other),
    }
}

#[test]
fn wrong_answer_is_an_unexpected_event() {
    let (resolver, _) = Resolver::start(CHAIN, AddressSet::from_slice(&[addr(1)]));
    let (resolver, action) = resolver.step(Event::Appended(Ok(())));
    assert!(matches!(action, Action::Done(Err(ResolveError::UnexpectedEvent))));
    let (_, action) = resolver.step(Event::LookedUp(Ok(MetadataTable::new())));
    assert!(matches!(action, Action::Done(Err(ResolveError::UnexpectedEvent))));
}

#[test]
fn fetch_answers_are_gathered_in_order() {
    let answers = vec![
        (addr(1), Ok(plain(1, "One", "ONE", 18))),
        (addr(2), Err(FetchErrorKind::Timeout)),
        (addr(3), Ok(plain(3, "Three", "THR", 8))),
        (addr(4), Err(FetchErrorKind::NotAToken)),
        (addr(1), Ok(plain(1, "Again", "ONE", 18))),
    ];
    match Event::from_fetches(&answers) {
        Event::Fetched { records, failures } => {
            assert_eq!(records.len(), 2);
            assert_eq!(records.get(addr(1)).unwrap().name, "One");
            assert_eq!(records.get(addr(3)).unwrap().name, "Three");
            assert_eq!(
                failures,
                vec![
                    FetchError { address: addr(2), kind: FetchErrorKind::Timeout },
                    FetchError { address: addr(4), kind: FetchErrorKind::NotAToken },
                ]
            );
        }
        other => panic!("unexpected event: {:?}", other),
    }
    match Event::from_fetches(&vec![]) {
        Event::Fetched { records, failures } => {
            assert!(records.is_empty());
            assert!(failures.is_empty());
        }
        other => panic!("unexpected event: {:?}", other),
    }
}
