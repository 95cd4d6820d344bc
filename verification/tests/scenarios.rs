use chat_relay::accept::register_connection;
use chat_relay::addr::PeerAddr;
use chat_relay::dispatch::{dispatch, Delivery};
use chat_relay::event::Event;
use chat_relay::ingest::{Ingestion, LineRead};
use chat_relay::registry::Registry;

fn is_stamp(s: &str) -> bool {
    let b = s.as_bytes();
    b.len() == 10
        && b[0] == b'['
        && b[3] == b':'
        && b[6] == b':'
        && b[9] == b']'
        && [1, 2, 4, 5, 7, 8].iter().all(|&i| b[i].is_ascii_digit())
}

fn connect(registry: &mut Registry<u32>, addr: PeerAddr, handle: u32) -> Ingestion {
    register_connection(registry, Some(addr), handle).unwrap()
}

fn feed(
    registry: &mut Registry<u32>,
    ingestion: &mut Ingestion,
    line: &str,
    inbox: &mut Vec<Delivery>,
) {
    if let Some(event) = ingestion.step(&LineRead::Line(line.to_string())) {
        inbox.extend(dispatch(registry, &event));
    }
}

#[test]
fn scenario_message_reaches_the_other_client_only() {
    let alice = PeerAddr::v4(0x7f00_0001, 40001);
    let bob = PeerAddr::v4(0x7f00_0001, 40002);
    let mut registry: Registry<u32> = Registry::new();
    let mut written: Vec<Delivery> = Vec::new();

    let mut alice_loop = connect(&mut registry, alice, 1);
    let mut bob_loop = connect(&mut registry, bob, 2);
    feed(&mut registry, &mut alice_loop, "alice\n", &mut written);
    feed(&mut registry, &mut bob_loop, "bob\n", &mut written);
    assert!(written.is_empty());
    feed(&mut registry, &mut alice_loop, "hi\n", &mut written);

    assert_eq!(written.len(), 1);
    assert_eq!(written[0].to, bob);
    let line = &written[0].line;
    assert_eq!(line.len(), "[00:00:00] alice > hi\n".len());
    assert!(is_stamp(&line[..10]));
    assert_eq!(&line[10..], " alice > hi\n");
    assert_eq!(line.lines().count(), 1);
    assert!(written.iter().all(|d| d.to != alice));
}

#[test]
fn scenario_three_clients_two_copies() {
    let a = PeerAddr::v4(0x0a00_0001, 5001);
    let b = PeerAddr::v4(0x0a00_0002, 5002);
    let c = PeerAddr::v6(1, 5003, 0, 0);
    let mut registry: Registry<u32> = Registry::new();
    let mut written: Vec<Delivery> = Vec::new();
    let mut a_loop = connect(&mut registry, a, 1);
    let mut b_loop = connect(&mut registry, b, 2);
    let mut c_loop = connect(&mut registry, c, 3);
    feed(&mut registry, &mut a_loop, "ann\n", &mut written);
    feed(&mut registry, &mut b_loop, "ben\n", &mut written);
    feed(&mut registry, &mut c_loop, "cat\n", &mut written);

    feed(&mut registry, &mut b_loop, "hello all\n", &mut written);

    assert_eq!(written.len(), 2);
    assert_eq!(written.iter().filter(|d| d.to == a).count(), 1);
    assert_eq!(written.iter().filter(|d| d.to == c).count(), 1);
    assert_eq!(written.iter().filter(|d| d.to == b).count(), 0);
    for d in &written {
        assert!(is_stamp(&d.line[..10]));
        assert_eq!(&d.line[10..], " ben > hello all\n");
    }
}

#[test]
fn scenario_closed_client_gets_no_delivery() {
    let a = PeerAddr::v4(0x0a00_0001, 5001);
    let b = PeerAddr::v4(0x0a00_0002, 5002);
    let mut registry: Registry<u32> = Registry::new();
    let mut written: Vec<Delivery> = Vec::new();
    let mut a_loop = connect(&mut registry, a, 1);
    let mut b_loop = connect(&mut registry, b, 2);
    feed(&mut registry, &mut a_loop, "ann\n", &mut written);
    feed(&mut registry, &mut b_loop, "ben\n", &mut written);

    // ben's stream ends: a read of nothing
    feed(&mut registry, &mut b_loop, "", &mut written);
    assert!(b_loop.is_finished());
    assert!(!registry.contains(b));
    assert_eq!(registry.len(), 1);

    feed(&mut registry, &mut a_loop, "anyone?\n", &mut written);
    assert!(written.is_empty());
}

#[test]
fn scenario_second_disconnect_is_a_no_op() {
    let a = PeerAddr::v4(0x0a00_0001, 5001);
    let b = PeerAddr::v4(0x0a00_0002, 5002);
    let mut registry: Registry<u32> = Registry::new();
    let _a_loop = connect(&mut registry, a, 1);
    let _b_loop = connect(&mut registry, b, 2);
    assert_eq!(registry.len(), 2);

    let gone = Event::Disconnect { address: a };
    assert!(dispatch(&mut registry, &gone).is_empty());
    assert_eq!(registry.len(), 1);
    assert!(dispatch(&mut registry, &gone).is_empty());
    assert_eq!(registry.len(), 1);
    assert_eq!(registry.addresses(), vec![b]);
    assert_eq!(registry.handle(b), Some(&2));
}
