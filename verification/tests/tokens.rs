use token_resolver::address::TokenAddress;
use token_resolver::address_set::AddressSet;
use token_resolver::metadata::TokenMetadata;
use token_resolver::resolver::{FetchErrorKind, ResolveError};
use token_resolver::table::MetadataTable;
use token_resolver::tokens::get_tokens;

fn at(n: u128) -> TokenAddress {
    TokenAddress { hi: 0xabcd, lo: n }
}

fn token(n: u128, name: &str, c0: Option<u128>, c1: Option<u128>) -> TokenMetadata {
    TokenMetadata {
        chain: 1,
        address: at(n),
        name: name.to_string(),
        symbol: name.to_uppercase(),
        decimals: 18,
        component0: c0.map(at),
        component1: c1.map(at),
    }
}

fn table(records: Vec<TokenMetadata>) -> MetadataTable {
    let mut t = MetadataTable::new();
    for r in records {
        assert!(t.insert(r));
    }
    t
}

fn keys(t: &MetadataTable) -> Vec<u128> {
    let mut k: Vec<u128> = (0..t.len()).map(|i| t.record(i).address.lo).collect();
    k.sort();
    k
}

#[test]
fn get_tokens_fetches_a_plain_token() {
    let foo = TokenMetadata {
        chain: 1,
        address: at(0xA),
        name: "Foo".to_string(),
        symbol: "FOO".to_string(),
        decimals: 18,
        component0: None,
        component1: None,
    };
    let mut store = MetadataTable::new();
    let source = table(vec![foo.clone()]);
    let result = get_tokens(1, &mut store, &source, AddressSet::from_slice(&[at(0xA)])).unwrap();
    assert_eq!(keys(&result), vec![0xA]);
    assert!(result.get(at(0xA)).unwrap().same_as(&foo));
    assert_eq!(keys(&store), vec![0xA]);
    assert!(store.get(at(0xA)).unwrap().same_as(&foo));
}

#[test]
fn get_tokens_follows_a_pool_to_its_components() {
    let mut store = MetadataTable::new();
    let source = table(vec![
        token(0x50, "pool", Some(0x58), Some(0x59)),
        token(0x58, "x", None, None),
        token(0x59, "y", None, None),
        token(0x60, "other", None, None),
    ]);
    let result = get_tokens(1, &mut store, &source, AddressSet::from_slice(&[at(0x50)])).unwrap();
    assert_eq!(keys(&result), vec![0x50, 0x58, 0x59]);
    assert_eq!(result.get(at(0x58)).unwrap().name, "x");
    assert_eq!(keys(&store), vec![0x50, 0x58, 0x59]);
}

#[test]
fn get_tokens_names_the_failed_address() {
    let mut store = table(vec![token(1, "one", None, None)]);
    let source = table(vec![token(2, "two", None, None)]);
    let asked = AddressSet::from_slice(&[at(1), at(2), at(3)]);
    match get_tokens(1, &mut store, &source, asked) {
        Err(ResolveError::FetchFailure(list)) => {
            assert_eq!(list.len(), 1);
            assert_eq!(list[0].address, at(3));
            assert_eq!(list[0].kind, FetchErrorKind::NotAToken);
        }
        other => panic!("unexpected outcome: {:?}", other),
    }
    assert_eq!(keys(&store), vec![1]);
}

#[test]
fn get_tokens_keeps_what_a_failed_second_pass_found_first() {
    let mut store = MetadataTable::new();
    let source = table(vec![token(0x50, "pool", Some(0x58), Some(0x59)), token(0x58, "x", None, None)]);
    match get_tokens(1, &mut store, &source, AddressSet::from_slice(&[at(0x50)])) {
        Err(ResolveError::FetchFailure(list)) => {
            assert_eq!(list.len(), 1);
            assert_eq!(list[0].address, at(0x59));
        }
        other => panic!("unexpected outcome: {:?}", other),
    }
    assert_eq!(keys(&store), vec![0x50]);
}

#[test]
fn get_tokens_twice_gives_the_same_and_leaves_the_store() {
    let mut store = table(vec![token(7, "seven", None, None)]);
    let source = table(vec![
        token(0x50, "pool", Some(7), Some(0x59)),
        token(0x59, "y", None, None),
        token(7, "stale", None, None),
    ]);
    let first = get_tokens(1, &mut store, &source, AddressSet::from_slice(&[at(0x50)])).unwrap();
    assert_eq!(keys(&first), vec![7, 0x50, 0x59]);
    assert_eq!(first.get(at(7)).unwrap().name, "seven");
    assert_eq!(store.len(), 3);
    let nothing = MetadataTable::new();
    let second = get_tokens(1, &mut store, &nothing, AddressSet::from_slice(&[at(0x50)])).unwrap();
    assert_eq!(store.len(), 3);
    assert_eq!(second.len(), first.len());
    for i in 0..first.len() {
        let r = first.record(i);
        assert!(second.get(r.address).unwrap().same_as(r));
    }
}

#[test]
fn get_tokens_of_nothing_is_empty() {
    let mut store = table(vec![token(7, "seven", None, None)]);
    let source = MetadataTable::new();
    let result = get_tokens(1, &mut store, &source, AddressSet::new()).unwrap();
    assert!(result.is_empty());
    assert_eq!(store.len(), 1);
}
