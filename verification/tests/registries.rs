use chat_relay::addr::PeerAddr;
use chat_relay::registry::Registry;

#[test]
fn new_registry_is_empty() {
    let registry: Registry<u8> = Registry::new();
    assert_eq!(registry.len(), 0);
    assert!(registry.addresses().is_empty());
    assert!(!registry.contains(PeerAddr::v4(0, 0)));
    assert_eq!(registry.handle(PeerAddr::v4(0, 0)), None);
    assert!(registry.recipients(PeerAddr::v4(0, 0)).is_empty());
    registry.known_valid();
    assert_eq!(registry.len(), 0);
}

#[test]
fn insert_keeps_each_address_once() {
    let a = PeerAddr::v4(1, 1);
    let b = PeerAddr::v4(1, 2);
    let mut registry: Registry<&str> = Registry::new();
    assert_eq!(registry.insert(a, "a1"), None);
    assert_eq!(registry.insert(b, "b1"), None);
    assert_eq!(registry.insert(a, "a2"), Some("a1"));
    assert_eq!(registry.len(), 2);
    assert_eq!(registry.addresses(), vec![a, b]);
    assert_eq!(registry.handle(a), Some(&"a2"));
    assert_eq!(registry.handle(b), Some(&"b1"));
}

#[test]
fn remove_returns_the_handle_once() {
    let a = PeerAddr::v4(1, 1);
    let b = PeerAddr::v4(1, 2);
    let c = PeerAddr::v4(1, 3);
    let mut registry: Registry<u8> = Registry::new();
    registry.insert(a, 10);
    registry.insert(b, 20);
    registry.insert(c, 30);
    assert_eq!(registry.remove(b), Some(20));
    assert_eq!(registry.remove(b), None);
    assert_eq!(registry.len(), 2);
    assert_eq!(registry.addresses(), vec![a, c]);
    assert!(!registry.contains(b));
    assert!(registry.contains(c));
    assert_eq!(registry.handle(c), Some(&30));
}

#[test]
fn recipients_are_all_but_the_sender_in_order() {
    let a = PeerAddr::v4(1, 1);
    let b = PeerAddr::v6(1, 1, 0, 0);
    let c = PeerAddr::v4(1, 3);
    let mut registry: Registry<u8> = Registry::new();
    registry.insert(a, 1);
    registry.insert(b, 2);
    registry.insert(c, 3);
    assert_eq!(registry.recipients(a), vec![b, c]);
    assert_eq!(registry.recipients(b), vec![a, c]);
    assert_eq!(registry.recipients(c), vec![a, b]);
    assert_eq!(registry.recipients(PeerAddr::v4(9, 9)), vec![a, b, c]);
}

#[test]
fn addresses_differ_by_variant_and_by_every_field() {
    let base = PeerAddr::v6(1, 2, 3, 4);
    assert!(base.same(&PeerAddr::v6(1, 2, 3, 4)));
    assert!(!base.same(&PeerAddr::v6(9, 2, 3, 4)));
    assert!(!base.same(&PeerAddr::v6(1, 9, 3, 4)));
    assert!(!base.same(&PeerAddr::v6(1, 2, 9, 4)));
    assert!(!base.same(&PeerAddr::v6(1, 2, 3, 9)));
    assert!(!PeerAddr::v4(1, 2).same(&PeerAddr::v6(1, 2, 0, 0)));
    assert!(PeerAddr::v4(1, 2).same(&PeerAddr::v4(1, 2)));
    assert!(!PeerAddr::v4(1, 2).same(&PeerAddr::v4(1, 3)));
    assert_eq!(PeerAddr::v4(5, 6), PeerAddr::V4 { ipv4: 5, port: 6 });
}
