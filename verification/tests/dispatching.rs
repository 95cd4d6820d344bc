use chat_relay::accept::{register_connection, AdmissionError};
use chat_relay::addr::PeerAddr;
use chat_relay::dispatch::{broadcast, dispatch};
use chat_relay::event::Event;
use chat_relay::ingest::{LineRead, Phase};
use chat_relay::registry::Registry;

fn peers(n: u16) -> (Registry<String>, Vec<PeerAddr>) {
    let mut registry: Registry<String> = Registry::new();
    let mut addrs = Vec::new();
    for i in 0..n {
        let addr = PeerAddr::v4(0xc0a8_0000 + u32::from(i), 6000 + i);
        register_connection(&mut registry, Some(addr), format!("handle {}", i)).unwrap();
        addrs.push(addr);
    }
    (registry, addrs)
}

fn message(from: PeerAddr, name: &str, text: &str) -> Event {
    Event::Message {
        sender_address: from,
        sender_name: name.to_string(),
        text: text.to_string(),
    }
}

#[test]
fn sender_is_never_a_recipient() {
    let (mut registry, addrs) = peers(5);
    for &sender in &addrs {
        let out = dispatch(&mut registry, &message(sender, "n", "t"));
        assert!(out.iter().all(|d| d.to != sender));
    }
}

#[test]
fn message_from_one_of_n_goes_to_n_minus_one() {
    for n in 1..6u16 {
        let (mut registry, addrs) = peers(n);
        let out = dispatch(&mut registry, &message(addrs[0], "n", "t"));
        assert_eq!(out.len(), usize::from(n) - 1);
        let to: Vec<PeerAddr> = out.iter().map(|d| d.to).collect();
        assert_eq!(to, addrs[1..].to_vec());
        assert_eq!(registry.len(), usize::from(n));
    }
}

#[test]
fn message_from_an_unregistered_sender_goes_to_everyone() {
    let (mut registry, addrs) = peers(3);
    let stranger = PeerAddr::v6(7, 7, 7, 7);
    let out = dispatch(&mut registry, &message(stranger, "s", "t"));
    let to: Vec<PeerAddr> = out.iter().map(|d| d.to).collect();
    assert_eq!(to, addrs);
}

#[test]
fn message_to_an_empty_registry_goes_nowhere() {
    let mut registry: Registry<String> = Registry::new();
    let out = dispatch(&mut registry, &message(PeerAddr::v4(1, 1), "n", "t"));
    assert!(out.is_empty());
    assert_eq!(registry.len(), 0);
}

#[test]
fn disconnect_of_an_absent_address_changes_nothing() {
    let (mut registry, addrs) = peers(3);
    let absent = PeerAddr::v4(9, 9);
    let out = dispatch(&mut registry, &Event::Disconnect { address: absent });
    assert!(out.is_empty());
    assert_eq!(registry.addresses(), addrs);
    for (i, &a) in addrs.iter().enumerate() {
        assert_eq!(registry.handle(a), Some(&format!("handle {}", i)));
    }
}

#[test]
fn disconnect_removes_exactly_its_address() {
    let (mut registry, addrs) = peers(3);
    let out = dispatch(&mut registry, &Event::Disconnect { address: addrs[1] });
    assert!(out.is_empty());
    assert_eq!(registry.addresses(), vec![addrs[0], addrs[2]]);
    assert_eq!(registry.handle(addrs[1]), None);
    assert_eq!(registry.handle(addrs[2]), Some(&"handle 2".to_string()));
}

#[test]
fn earlier_message_is_written_before_later_message() {
    let (mut registry, addrs) = peers(3);
    let mut written = Vec::new();
    written.extend(dispatch(&mut registry, &message(addrs[0], "zero", "first")));
    written.extend(dispatch(&mut registry, &message(addrs[1], "one", "second")));
    // the peer at addrs[2] receives both, the first before the second
    let seen: Vec<&str> =
        written.iter().filter(|d| d.to == addrs[2]).map(|d| &d.line[10..]).collect();
    assert_eq!(seen, vec![" zero > first\n", " one > second\n"]);
    // every line of the first event stands before every line of the second
    let places: Vec<bool> = written.iter().map(|d| d.line.ends_with("first\n")).collect();
    assert_eq!(places, vec![true, true, false, false]);
}

#[test]
fn broadcast_lines_carry_name_and_text() {
    let (registry, addrs) = peers(2);
    let out = broadcast(&registry, addrs[1], "bob", "good morning");
    assert_eq!(out.len(), 1);
    assert_eq!(out[0].to, addrs[0]);
    assert_eq!(&out[0].line[10..], " bob > good morning\n");
    let stamp = &out[0].line.as_bytes()[..10];
    let hour = (stamp[1] - b'0') * 10 + (stamp[2] - b'0');
    let minute = (stamp[4] - b'0') * 10 + (stamp[5] - b'0');
    let second = (stamp[7] - b'0') * 10 + (stamp[8] - b'0');
    assert!(hour < 24 && minute < 60 && second <= 60);
}

#[test]
fn admission_registers_before_the_loop_exists() {
    let mut registry: Registry<String> = Registry::new();
    let addr = PeerAddr::v4(0x7f00_0001, 1234);
    let mut ingestion = register_connection(&mut registry, Some(addr), "h".to_string()).unwrap();
    assert!(registry.contains(addr));
    assert_eq!(registry.len(), 1);
    assert_eq!(ingestion.address(), addr);
    assert_eq!(ingestion.phase(), Phase::Registered);
    // the only disconnect that this loop can send is for the registered address
    let sent = ingestion.step(&LineRead::Failed);
    assert_eq!(sent, Some(Event::Disconnect { address: addr }));
    assert!(dispatch(&mut registry, &sent.unwrap()).is_empty());
    assert_eq!(registry.len(), 0);
}

#[test]
fn admission_without_peer_address_is_turned_away() {
    let (mut registry, addrs) = peers(2);
    let r = register_connection(&mut registry, None, "lost".to_string());
    assert_eq!(r.err(), Some(AdmissionError::TransportError));
    assert_eq!(registry.addresses(), addrs);
    assert_eq!(AdmissionError::TransportError.message(), "peer address unavailable");
}

#[test]
fn admission_grows_the_registry_by_one() {
    let (mut registry, _) = peers(3);
    let before = registry.len();
    let addr = PeerAddr::v6(0xfe80_0000_0000_0000_0000_0000_0000_0001, 80, 0, 2);
    register_connection(&mut registry, Some(addr), "new".to_string()).unwrap();
    assert_eq!(registry.len(), before + 1);
    assert_eq!(registry.addresses().last(), Some(&addr));
}

#[test]
fn two_messages_in_a_row_stay_two_lines() {
    let (mut registry, addrs) = peers(2);
    let mut bytes = String::new();
    for d in dispatch(&mut registry, &message(addrs[0], "zero", "one")) {
        bytes.push_str(&d.line);
    }
    for d in dispatch(&mut registry, &message(addrs[0], "zero", "two")) {
        bytes.push_str(&d.line);
    }
    let lines: Vec<&str> = bytes.lines().map(|l| &l[10..]).collect();
    assert_eq!(lines, vec![" zero > one", " zero > two"]);
    assert!(bytes.ends_with('\n'));
}
