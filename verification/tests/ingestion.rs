use chat_relay::accept::register_connection;
use chat_relay::addr::PeerAddr;
use chat_relay::event::Event;
use chat_relay::ingest::{Ingestion, LineRead, Phase};
use chat_relay::registry::Registry;

fn fresh(addr: PeerAddr) -> Ingestion {
    let mut registry: Registry<u8> = Registry::new();
    register_connection(&mut registry, Some(addr), 0).unwrap()
}

fn line(s: &str) -> LineRead {
    LineRead::Line(s.to_string())
}

#[test]
fn first_line_is_the_name_and_sends_nothing() {
    let addr = PeerAddr::v4(1, 2);
    let mut ing = fresh(addr);
    assert_eq!(ing.name(), None);
    assert_eq!(ing.phase(), Phase::Registered);
    assert_eq!(ing.step(&line("  alice \r\n")), None);
    assert_eq!(ing.phase(), Phase::Active);
    assert_eq!(ing.name(), Some(&"alice".to_string()));
    assert!(!ing.is_finished());
}

#[test]
fn later_lines_are_messages_with_trimmed_text() {
    let addr = PeerAddr::v4(1, 2);
    let mut ing = fresh(addr);
    ing.step(&line("alice\n"));
    let sent = ing.step(&line("\t hello  world \n"));
    assert_eq!(
        sent,
        Some(Event::Message {
            sender_address: addr,
            sender_name: "alice".to_string(),
            text: "hello  world".to_string(),
        })
    );
    assert_eq!(ing.phase(), Phase::Active);
    assert_eq!(sent.unwrap().origin(), addr);
}

#[test]
fn blank_line_is_a_message_without_text() {
    let addr = PeerAddr::v4(1, 2);
    let mut ing = fresh(addr);
    ing.step(&line("al\n"));
    let sent = ing.step(&line("\n"));
    assert_eq!(
        sent,
        Some(Event::Message {
            sender_address: addr,
            sender_name: "al".to_string(),
            text: String::new(),
        })
    );
}

#[test]
fn name_has_no_minimum_length() {
    let mut ing = fresh(PeerAddr::v4(1, 2));
    assert_eq!(ing.step(&line("\n")), None);
    assert_eq!(ing.phase(), Phase::Active);
    assert_eq!(ing.name(), Some(&String::new()));
    assert_eq!(
        ing.step(&line("hello\n")),
        Some(Event::Message {
            sender_address: PeerAddr::v4(1, 2),
            sender_name: String::new(),
            text: "hello".to_string(),
        })
    );
}

#[test]
fn read_of_nothing_ends_the_loop_with_a_disconnect() {
    let addr = PeerAddr::v6(3, 4, 5, 6);
    let mut ing = fresh(addr);
    ing.step(&line("carol\n"));
    assert_eq!(ing.step(&line("")), Some(Event::Disconnect { address: addr }));
    assert_eq!(ing.phase(), Phase::Finished);
    assert!(ing.is_finished());
}

#[test]
fn read_of_nothing_before_the_name_ends_the_loop() {
    let addr = PeerAddr::v4(1, 2);
    let mut ing = fresh(addr);
    assert_eq!(ing.step(&line("")), Some(Event::Disconnect { address: addr }));
    assert!(ing.is_finished());
    assert_eq!(ing.name(), None);
}

#[test]
fn failed_read_ends_the_loop_with_a_disconnect() {
    let addr = PeerAddr::v4(1, 2);
    let mut ing = fresh(addr);
    assert_eq!(ing.step(&LineRead::Failed), Some(Event::Disconnect { address: addr }));
    assert!(ing.is_finished());

    let mut ing = fresh(addr);
    ing.step(&line("dave\n"));
    assert_eq!(ing.step(&LineRead::Failed), Some(Event::Disconnect { address: addr }));
    assert!(ing.is_finished());
}

#[test]
fn finished_loop_sends_nothing_more() {
    let addr = PeerAddr::v4(1, 2);
    let mut ing = fresh(addr);
    ing.step(&line("erin\n"));
    ing.step(&line(""));
    assert_eq!(ing.step(&line("late\n")), None);
    assert_eq!(ing.step(&line("")), None);
    assert_eq!(ing.step(&LineRead::Failed), None);
    assert!(ing.is_finished());
    assert_eq!(ing.phase(), Phase::Finished);
    assert_eq!(ing.name(), Some(&"erin".to_string()));
}

#[test]
fn event_origin_is_the_address_it_carries() {
    let a = PeerAddr::v4(1, 2);
    let b = PeerAddr::v6(1, 2, 0, 0);
    assert_eq!(Event::Disconnect { address: a }.origin(), a);
    let m = Event::Message { sender_address: b, sender_name: String::new(), text: String::new() };
    assert_eq!(m.origin(), b);
}
