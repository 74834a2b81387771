use iptoasn::addr::IpAddress;
use iptoasn::record::AsRecord;
use iptoasn::store::SnapshotStore;
use iptoasn::table::MalformedTableError;
use iptoasn::table::RangeTable;

fn rec(first: IpAddress, last: IpAddress, number: u32, country: &str, description: &str) -> AsRecord {
    AsRecord {
        first_ip: first,
        last_ip: last,
        number,
        country: country.to_string(),
        description: description.to_string(),
    }
}

fn v4(o1: u8, o2: u8, o3: u8, o4: u8) -> IpAddress {
    IpAddress::v4_from_octets(o1, o2, o3, o4)
}

#[test]
fn single_range_scenario() {
    let table = RangeTable::new(vec![rec(
        v4(10, 0, 0, 0),
        v4(10, 0, 0, 255),
        65000,
        "US",
        "Example Net",
    )])
    .unwrap();
    let store = SnapshotStore::new(table);

    let hit = store.resolve(&v4(10, 0, 0, 5)).unwrap();
    assert_eq!(hit.number, 65000);
    assert_eq!(hit.country, "US");
    assert_eq!(hit.description, "Example Net");

    assert!(store.resolve(&v4(10, 0, 1, 1)).is_none());

    let first = store.resolve(&v4(10, 0, 0, 0)).unwrap();
    assert_eq!(first.number, 65000);

    assert!(store.resolve(&v4(9, 255, 255, 255)).is_none());
}

#[test]
fn adjacent_ranges_scenario() {
    let table = RangeTable::new(vec![
        rec(v4(192, 0, 2, 0), v4(192, 0, 2, 127), 1, "AA", "first half"),
        rec(v4(192, 0, 2, 128), v4(192, 0, 2, 255), 2, "BB", "second half"),
    ])
    .unwrap();
    let store = SnapshotStore::new(table);

    assert_eq!(store.resolve(&v4(192, 0, 2, 127)).unwrap().number, 1);
    assert_eq!(store.resolve(&v4(192, 0, 2, 128)).unwrap().number, 2);
}

#[test]
fn boundaries_are_inclusive() {
    let table = RangeTable::new(vec![rec(
        v4(172, 16, 0, 0),
        v4(172, 16, 0, 9),
        64512,
        "ZZ",
        "isolated",
    )])
    .unwrap();

    assert_eq!(table.lookup(&v4(172, 16, 0, 0)).unwrap().number, 64512);
    assert_eq!(table.lookup(&v4(172, 16, 0, 9)).unwrap().number, 64512);
    assert!(table.lookup(&v4(172, 15, 255, 255)).is_none());
    assert!(table.lookup(&v4(172, 16, 0, 10)).is_none());

    let record = table.lookup(&v4(172, 16, 0, 5)).unwrap();
    assert!(record.contains(&record.first_ip));
    assert!(record.contains(&record.last_ip));
    assert!(!record.contains(&v4(172, 15, 255, 255)));
    assert!(!record.contains(&v4(172, 16, 0, 10)));
}

#[test]
fn empty_table_returns_nothing() {
    let table = RangeTable::new(Vec::new()).unwrap();
    assert_eq!(table.len(), 0);
    assert!(table.lookup(&IpAddress::v4(0)).is_none());
    assert!(table.lookup(&IpAddress::v4(u32::MAX)).is_none());
    assert!(table.lookup(&IpAddress::v6(0)).is_none());
    assert!(table.lookup(&IpAddress::v6(u128::MAX)).is_none());
}

#[test]
fn lookup_is_idempotent() {
    let table = RangeTable::new(vec![
        rec(v4(10, 0, 0, 0), v4(10, 0, 0, 255), 65000, "US", "a"),
        rec(v4(10, 0, 2, 0), v4(10, 0, 2, 255), 65001, "DE", "b"),
    ])
    .unwrap();

    let q = v4(10, 0, 2, 77);
    let a = table.lookup(&q).unwrap();
    let b = table.lookup(&q).unwrap();
    assert_eq!(a.number, b.number);
    assert_eq!(a.first_ip, b.first_ip);
    assert_eq!(a.last_ip, b.last_ip);
    assert_eq!(a.country, b.country);
    assert_eq!(a.description, b.description);

    let gap = v4(10, 0, 1, 0);
    assert!(table.lookup(&gap).is_none());
    assert!(table.lookup(&gap).is_none());
}

#[test]
fn families_never_cross() {
    let table = RangeTable::new(vec![
        rec(v4(10, 0, 0, 0), v4(10, 0, 0, 255), 65000, "US", "v4 range"),
        rec(IpAddress::v6(0), IpAddress::v6(u128::MAX), 65010, "SE", "all of v6"),
    ])
    .unwrap();

    // The IPv6 record covers its whole family, yet an IPv4 address outside
    // the IPv4 range matches nothing.
    assert!(table.lookup(&v4(11, 0, 0, 0)).is_none());
    assert_eq!(table.lookup(&v4(10, 0, 0, 1)).unwrap().number, 65000);
    // An IPv6 address never matches the IPv4 record.
    assert_eq!(table.lookup(&IpAddress::v6(1)).unwrap().number, 65010);
}

#[test]
fn rejects_inverted_range() {
    let err = RangeTable::new(vec![
        rec(v4(10, 0, 0, 0), v4(10, 0, 0, 255), 65000, "US", "fine"),
        rec(v4(10, 1, 0, 9), v4(10, 1, 0, 0), 65001, "US", "inverted"),
    ])
    .unwrap_err();
    assert_eq!(err, MalformedTableError::InvalidRange { index: 1 });
}

#[test]
fn rejects_mixed_family_range() {
    let err = RangeTable::new(vec![rec(
        v4(10, 0, 0, 0),
        IpAddress::v6(1),
        65000,
        "US",
        "mixed",
    )])
    .unwrap_err();
    assert_eq!(err, MalformedTableError::InvalidRange { index: 0 });
}

#[test]
fn rejects_oversized_v4_value() {
    let bad = IpAddress {
        is_v6: false,
        value: 0x1_0000_0000,
    };
    let err = RangeTable::new(vec![rec(bad, bad, 65000, "US", "too wide")]).unwrap_err();
    assert_eq!(err, MalformedTableError::InvalidRange { index: 0 });
}

#[test]
fn rejects_overlapping_ranges() {
    let err = RangeTable::new(vec![
        rec(v4(10, 0, 0, 0), v4(10, 0, 0, 200), 65000, "US", "a"),
        rec(v4(10, 0, 0, 100), v4(10, 0, 0, 255), 65001, "US", "b"),
    ])
    .unwrap_err();
    assert_eq!(err, MalformedTableError::OutOfOrder { index: 1 });
}

#[test]
fn rejects_unsorted_records() {
    let err = RangeTable::new(vec![
        rec(v4(10, 0, 1, 0), v4(10, 0, 1, 255), 65001, "US", "later"),
        rec(v4(10, 0, 0, 0), v4(10, 0, 0, 255), 65000, "US", "earlier"),
    ])
    .unwrap_err();
    assert_eq!(err, MalformedTableError::OutOfOrder { index: 1 });
}

#[test]
fn v4_from_octets_value() {
    let a = IpAddress::v4_from_octets(192, 0, 2, 128);
    assert!(!a.is_v6);
    assert_eq!(a.value, 192 * 0x100_0000 + 2 * 0x100 + 128);
    assert_eq!(a, IpAddress::v4(0xC000_0280));
}
