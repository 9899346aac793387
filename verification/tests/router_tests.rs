use routing_core::address::Address;
use routing_core::router::{NodeReply, Router};

fn addr(s: &str) -> Address {
    Address::from_string(s)
}

#[test]
fn register_then_resolve_by_alias() {
    let mut router = Router::new();
    let reply = router.register(addr("worker.a"), vec![addr("alias.1"), addr("alias.2")], 7);
    assert!(matches!(reply, NodeReply::Okay));
    let rec = router.resolve(&addr("alias.2")).expect("alias must resolve");
    assert_eq!(rec.primary.name(), "worker.a");
    assert_eq!(rec.sender, 7);
    let rec2 = router.resolve(&addr("worker.a")).expect("primary must resolve");
    assert_eq!(rec2.primary.name(), "worker.a");
}

#[test]
fn register_same_primary_twice_fails_and_keeps_first() {
    let mut router = Router::new();
    assert!(matches!(
        router.register(addr("worker.a"), vec![addr("alias.1")], 1),
        NodeReply::Okay
    ));
    let second = router.register(addr("worker.a"), vec![addr("other")], 2);
    assert!(matches!(second, NodeReply::AlreadyRegistered(_)));
    // the first registration is intact
    let rec = router.resolve(&addr("alias.1")).expect("first registration intact");
    assert_eq!(rec.sender, 1);
    // the second call's alias was not inserted
    assert!(router.resolve(&addr("other")).is_none());
}

#[test]
fn register_conflicting_alias_fails() {
    let mut router = Router::new();
    assert!(matches!(
        router.register(addr("worker.a"), vec![addr("shared")], 1),
        NodeReply::Okay
    ));
    let second = router.register(addr("worker.b"), vec![addr("shared")], 2);
    assert!(matches!(second, NodeReply::AlreadyRegistered(_)));
    assert!(router.resolve(&addr("worker.b")).is_none());
}

#[test]
fn stop_unknown_address_replies_no_such_address() {
    let mut router = Router::new();
    assert!(matches!(
        router.register(addr("worker.a"), vec![], 1),
        NodeReply::Okay
    ));
    let reply = router.stop_worker(&addr("nowhere"));
    assert!(matches!(reply, NodeReply::NoSuchAddress(_)));
    // the table is untouched
    assert!(router.resolve(&addr("worker.a")).is_some());
}

#[test]
fn stop_removes_every_alias() {
    let mut router = Router::new();
    assert!(matches!(
        router.register(addr("worker.a"), vec![addr("alias.1"), addr("alias.2")], 1),
        NodeReply::Okay
    ));
    assert!(matches!(
        router.register(addr("worker.b"), vec![addr("alias.3")], 2),
        NodeReply::Okay
    ));
    // stop through an alias, not the primary
    let reply = router.stop_worker(&addr("alias.1"));
    assert!(matches!(reply, NodeReply::Okay));
    assert!(router.resolve(&addr("worker.a")).is_none());
    assert!(router.resolve(&addr("alias.1")).is_none());
    assert!(router.resolve(&addr("alias.2")).is_none());
    // the other worker is untouched
    assert!(router.resolve(&addr("alias.3")).is_some());
    // a second stop of the same worker observes the removal
    let again = router.stop_worker(&addr("alias.2"));
    assert!(matches!(again, NodeReply::NoSuchAddress(_)));
}

#[test]
fn shutdown_refuses_subsequent_commands() {
    let mut router = Router::new();
    assert!(matches!(
        router.register(addr("worker.a"), vec![], 1),
        NodeReply::Okay
    ));
    router.shutdown();
    assert!(matches!(
        router.register(addr("worker.b"), vec![], 2),
        NodeReply::ShutDown
    ));
    assert!(matches!(
        router.stop_worker(&addr("worker.a")),
        NodeReply::ShutDown
    ));
    assert!(router.resolve(&addr("worker.a")).is_none());
}

/// The visible table invariant: every bound alias has a live record that
/// owns it, and no two records own the same address.
fn table_is_consistent(router: &Router) -> bool {
    for entry in &router.addr_map {
        let owners = router
            .internal
            .iter()
            .filter(|rec| rec.addresses.iter().any(|a| a == &entry.alias))
            .count();
        if owners != 1 {
            return false;
        }
        if !router.internal.iter().any(|rec| rec.primary == entry.primary) {
            return false;
        }
    }
    for (i, r1) in router.internal.iter().enumerate() {
        for r2 in router.internal.iter().skip(i + 1) {
            if r1.addresses.iter().any(|a| r2.addresses.contains(a)) {
                return false;
            }
        }
    }
    true
}

#[test]
fn table_invariant_holds_under_command_interleavings() {
    // commands two concurrent callers may submit; the router serializes
    // them, so every interleaving is a permutation of this set
    let registers = ["worker.a", "worker.b", "worker.c"];
    let stops = ["worker.a", "alias.worker.b", "nowhere", "worker.a"];
    for split in 0..=stops.len() {
        let mut router = Router::new();
        assert!(table_is_consistent(&router));
        for (i, name) in registers.iter().enumerate() {
            let alias = format!("alias.{name}");
            router.register(addr(name), vec![addr(&alias)], i as u64);
            assert!(table_is_consistent(&router));
        }
        for (i, name) in stops.iter().enumerate() {
            if i == split {
                router.register(addr("late.worker"), vec![], 9);
                assert!(table_is_consistent(&router));
            }
            router.stop_worker(&addr(name));
            assert!(table_is_consistent(&router));
        }
    }
}
