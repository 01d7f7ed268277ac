use smolgnet::routing::{GdpPrefix, InterfaceHandle, Route, RouteTable, RouteTableFull};
use smolgnet::time::Instant;
use smolgnet::wire::gdp::GdpAddress;

fn addr(v: u64) -> GdpAddress {
    GdpAddress(v)
}

#[test]
fn prefix_is_canonical_and_matches() {
    let prefix = GdpPrefix::new(addr(0x1234_5678_9abc_def0), 48).unwrap();
    assert_eq!(prefix.network(), addr(0x1234_5678_9abc_0000));
    assert!(prefix.contains(addr(0x1234_5678_9abc_0042)));
    assert!(!prefix.contains(addr(0x1234_5678_9abd_0001)));
    assert!(GdpPrefix::new(addr(0), 65).is_err());
}

#[test]
fn longest_prefix_wins_over_default() {
    let mut table: RouteTable<4> = RouteTable::new();
    table.add(Route::default_via(addr(1), InterfaceHandle(0))).unwrap();
    table
        .add(Route::static_via(
            GdpPrefix::new(addr(0x1234_0000_0000_0000), 16).unwrap(),
            addr(2),
            InterfaceHandle(1),
        ))
        .unwrap();
    table
        .add(Route::static_via(
            GdpPrefix::new(addr(0x1234_5600_0000_0000), 24).unwrap(),
            addr(3),
            InterfaceHandle(2),
        ))
        .unwrap();

    let route = table.lookup(addr(0x1234_5678_0000_0001), Instant::zero()).unwrap();
    assert_eq!(route.next_hop, Some(addr(3)));
    assert_eq!(route.interface, InterfaceHandle(2));

    let fallback = table.lookup(addr(0x9999_0000_0000_0001), Instant::zero()).unwrap();
    assert_eq!(fallback.next_hop, Some(addr(1)));
}

// The lookups use 0xaaaa_0000_0000_1234, an address inside 0xaaaa::/16;
// 0xaaaa_1234 lies outside that prefix, so it has no route at all (checked
// at the end).
#[test]
fn expiry_and_preference_are_honored() {
    let prefix = GdpPrefix::new(addr(0xaaaa_0000_0000_0000), 16).unwrap();
    let mut table: RouteTable<4> = RouteTable::new();

    let mut deprecated = Route::static_via(prefix, addr(10), InterfaceHandle(1));
    deprecated.preferred_until = Some(Instant::from_millis(10));
    deprecated.expires_at = Some(Instant::from_millis(100));
    deprecated.preference = 10;

    let mut preferred = Route::static_via(prefix, addr(20), InterfaceHandle(2));
    preferred.preference = 100;

    table.add(deprecated).unwrap();
    table.add(preferred).unwrap();

    assert_eq!(
        table.lookup(addr(0xaaaa_0000_0000_1234), Instant::from_millis(5)).unwrap().next_hop,
        Some(addr(10))
    );
    assert_eq!(
        table.lookup(addr(0xaaaa_0000_0000_1234), Instant::from_millis(20)).unwrap().next_hop,
        Some(addr(20))
    );

    assert!(table.lookup(addr(0xaaaa_1234), Instant::from_millis(5)).is_none());
    assert!(table.lookup(addr(0xaaaa_0000_0000_1234), Instant::from_millis(101)).unwrap().next_hop == Some(addr(20)));
}

#[test]
fn table_capacity_and_pruning_are_bounded() {
    let mut table: RouteTable<1> = RouteTable::new();
    let mut route = Route::default_via(addr(1), InterfaceHandle(0));
    route.expires_at = Some(Instant::from_millis(10));
    table.add(route).unwrap();
    assert_eq!(table.add(Route::default_via(addr(2), InterfaceHandle(1))), Err(RouteTableFull));
    assert_eq!(table.prune_expired(Instant::from_millis(11)), 1);
    assert!(table.is_empty());
}

#[test]
fn remove_and_set_default_replace_the_interface_default() {
    let mut table: RouteTable<2> = RouteTable::new();
    assert_eq!(table.capacity(), 2);
    assert_eq!(table.set_default(addr(1), InterfaceHandle(0)), Ok(None));
    let old = table.set_default(addr(2), InterfaceHandle(0)).unwrap().unwrap();
    assert_eq!(old.next_hop, Some(addr(1)));
    assert_eq!(table.len(), 1);
    let current = table.default_for_interface(InterfaceHandle(0)).unwrap();
    assert_eq!(current.next_hop, Some(addr(2)));
    assert!(table.default_for_interface(InterfaceHandle(1)).is_none());
    let removed = table.remove(GdpPrefix::default_route(), InterfaceHandle(0)).unwrap();
    assert_eq!(removed.next_hop, Some(addr(2)));
    assert!(table.is_empty());
}

#[test]
fn next_expiry_is_the_earliest_route_expiry() {
    let mut table: RouteTable<3> = RouteTable::new();
    assert_eq!(table.next_expiry(), None);
    let mut a = Route::new(GdpPrefix::new(addr(0x1000_0000_0000_0000), 8).unwrap(), addr(5));
    a.expires_at = Some(Instant::from_millis(300));
    let mut b = Route::new(GdpPrefix::new(addr(0x2000_0000_0000_0000), 8).unwrap(), addr(6));
    b.expires_at = Some(Instant::from_millis(200));
    table.add(a).unwrap();
    table.add(b).unwrap();
    table.add_default_route(addr(7)).unwrap();
    assert_eq!(table.next_expiry(), Some(Instant::from_millis(200)));
    assert_eq!(table.lookup(addr(0x3000_0000_0000_0001), Instant::zero()).unwrap().next_hop, Some(addr(7)));
}
