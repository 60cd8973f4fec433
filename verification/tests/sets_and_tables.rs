use token_resolver::address::TokenAddress;
use token_resolver::address_set::AddressSet;
use token_resolver::metadata::TokenMetadata;
use token_resolver::table::MetadataTable;

fn a(n: u128) -> TokenAddress {
    TokenAddress { hi: 7, lo: n }
}

fn record(n: u128, name: &str, c0: Option<u128>, c1: Option<u128>) -> TokenMetadata {
    TokenMetadata {
        chain: 1,
        address: a(n),
        name: name.to_string(),
        symbol: name.to_uppercase(),
        decimals: 18,
        component0: c0.map(a),
        component1: c1.map(a),
    }
}

#[test]
fn set_keeps_each_address_once() {
    let s = AddressSet::from_slice(&[a(1), a(2), a(1), a(3), a(2)]);
    assert_eq!(s.len(), 3);
    assert!(s.contains(a(1)) && s.contains(a(2)) && s.contains(a(3)));
    assert!(!s.contains(a(4)));
    assert!(!s.is_empty());
    assert!(AddressSet::new().is_empty());
}

#[test]
fn set_insert_reports_new_members() {
    let mut s = AddressSet::new();
    assert!(s.insert(a(1)));
    assert!(!s.insert(a(1)));
    assert!(s.insert(TokenAddress { hi: 8, lo: 1 }));
    assert_eq!(s.len(), 2);
    assert_eq!(s.get(0), a(1));
}

#[test]
fn set_difference_is_requested_minus_found() {
    let requested = AddressSet::from_slice(&[a(1), a(2), a(3)]);
    let found = AddressSet::from_slice(&[a(2), a(9)]);
    let missing = requested.difference(&found);
    assert_eq!(missing.len(), 2);
    assert!(missing.contains(a(1)) && missing.contains(a(3)));
    assert!(!missing.contains(a(2)));
    assert!(requested.difference(&requested.duplicate()).is_empty());
}

#[test]
fn table_insert_keeps_the_first_record() {
    let mut t = MetadataTable::new();
    assert!(t.is_empty());
    assert!(t.insert(record(1, "first", None, None)));
    assert!(!t.insert(record(1, "second", None, None)));
    assert_eq!(t.len(), 1);
    assert_eq!(t.get(a(1)).unwrap().name, "first");
    assert!(t.get(a(2)).is_none());
    assert!(t.contains_key(a(1)));
}

#[test]
fn table_restrict_and_keys() {
    let mut t = MetadataTable::new();
    t.insert(record(1, "one", None, None));
    t.insert(record(2, "two", None, None));
    t.insert(record(3, "three", None, None));
    let keys = t.keys();
    assert_eq!(keys.len(), 3);
    let r = t.restrict(&AddressSet::from_slice(&[a(3), a(1), a(7)]));
    assert_eq!(r.len(), 2);
    assert!(r.contains_key(a(1)) && r.contains_key(a(3)) && !r.contains_key(a(2)));
    assert_eq!(r.get(a(3)).unwrap().name, "three");
}

#[test]
fn table_absorb_does_not_overwrite() {
    let mut first = MetadataTable::new();
    first.insert(record(1, "kept", None, None));
    let mut second = MetadataTable::new();
    second.insert(record(1, "ignored", None, None));
    second.insert(record(2, "added", None, None));
    first.absorb(&second);
    assert_eq!(first.len(), 2);
    assert_eq!(first.get(a(1)).unwrap().name, "kept");
    assert_eq!(first.get(a(2)).unwrap().name, "added");
}

#[test]
fn table_components_are_collected_once() {
    let mut t = MetadataTable::new();
    t.insert(record(1, "pool", Some(10), Some(11)));
    t.insert(record(2, "half", None, Some(10)));
    t.insert(record(3, "plain", None, None));
    let c = t.components();
    assert_eq!(c.len(), 2);
    assert!(c.contains(a(10)) && c.contains(a(11)));
    let copy = t.duplicate();
    assert_eq!(copy.len(), 3);
    assert!(copy.record(0).same_as(t.record(0)));
}

#[test]
fn metadata_clone_and_comparison() {
    let r = record(1, "pool", Some(10), None);
    let c = r.clone();
    assert!(r.same_as(&c));
    let mut other = r.clone();
    other.decimals = 6;
    assert!(!r.same_as(&other));
}
