use overlay_relay::frame::Frame;
use overlay_relay::network::{handle_event, Disposition, Event, Reaction, LISTEN_PORT};
use overlay_relay::payload::{IngestPolicy, Message, Rejection};
use overlay_relay::registry::ConnectionRegistry;
use overlay_relay::relay::FrameRelay;

const PNG_1X1: &str = "data:image/png;base64,iVBORw0KGgoAAAANSUhEUgAAAAEAAAABCAYAAAAfFcSJAAAADUlEQVR42mP4z8DwHwAFAAH/VscvDQAAAABJRU5ErkJggg==";

const PNG_1X1_BYTES: [u8; 70] = [
    137, 80, 78, 71, 13, 10, 26, 10, 0, 0, 0, 13, 73, 72, 68, 82, 0, 0, 0, 1, 0, 0, 0, 1, 8, 6, 0,
    0, 0, 31, 21, 196, 137, 0, 0, 0, 13, 73, 68, 65, 84, 120, 218, 99, 248, 207, 192, 240, 31, 0,
    5, 0, 1, 255, 86, 199, 47, 13, 0, 0, 0, 0, 73, 69, 78, 68, 174, 66, 96, 130,
];

const DOT_1X1: &str = "iVBORw0KGgoAAAANSUhEUgAAAAEAAAABCAYAAAAfFcSJAAAADUlEQVR42mNk+M9QDwADhgGAWjR9awAAAABJRU5ErkJggg==";

fn text(s: &str) -> Message {
    Message::Text(s.to_string())
}

#[test]
fn listener_port_is_fixed() {
    assert_eq!(LISTEN_PORT, 8080);
}

#[test]
fn connect_registers_and_asks_for_nothing() {
    let mut registry = ConnectionRegistry::new();
    let mut relay = FrameRelay::new();
    let policy = IngestPolicy::standard();
    let reaction = handle_event(&mut registry, &mut relay, &policy, Event::Connect(4, "four"));
    assert_eq!(reaction, Reaction { echo: None, disposition: None });
    assert_eq!(registry.responder(4), Some(&"four"));
    assert!(relay.is_empty());
}

#[test]
fn disconnect_removes_and_asks_for_nothing() {
    let mut registry = ConnectionRegistry::new();
    let mut relay = FrameRelay::new();
    let policy = IngestPolicy::standard();
    handle_event(&mut registry, &mut relay, &policy, Event::Connect(4, "four"));
    let reaction = handle_event(&mut registry, &mut relay, &policy, Event::Disconnect(4));
    assert_eq!(reaction, Reaction { echo: None, disposition: None });
    assert!(!registry.is_connected(4));
    assert_eq!(registry.len(), 0);
}

#[test]
fn frame_message_is_echoed_and_forwarded() {
    let mut registry = ConnectionRegistry::new();
    let mut relay = FrameRelay::new();
    let policy = IngestPolicy::standard();
    handle_event(&mut registry, &mut relay, &policy, Event::Connect(1, "one"));
    let reaction = handle_event(&mut registry, &mut relay, &policy, Event::Message(1, text(PNG_1X1)));
    assert_eq!(reaction.echo, Some((1, text(PNG_1X1))));
    assert_eq!(reaction.disposition, Some(Disposition::Forwarded));
    assert_eq!(relay.len(), 1);
    assert_eq!(relay.recv(), Frame::new(PNG_1X1_BYTES.to_vec()));
    assert!(registry.is_connected(1));
}

#[test]
fn plain_base64_png_is_forwarded_as_one_frame() {
    let mut registry = ConnectionRegistry::new();
    let mut relay = FrameRelay::new();
    let policy = IngestPolicy::standard();
    handle_event(&mut registry, &mut relay, &policy, Event::Connect(1, "one"));
    let reaction = handle_event(&mut registry, &mut relay, &policy, Event::Message(1, text(DOT_1X1)));
    assert_eq!(reaction.disposition, Some(Disposition::Forwarded));
    assert_eq!(reaction.echo, Some((1, text(DOT_1X1))));
    assert_eq!(relay.len(), 1);
    let frame = relay.recv();
    assert_eq!(frame.len(), 70);
    assert_eq!(frame.as_bytes()[..8], [0x89, 0x50, 0x4e, 0x47, 0x0d, 0x0a, 0x1a, 0x0a]);
    assert_eq!(frame.as_bytes()[66..], [0xae, 0x42, 0x60, 0x82]);
    assert!(relay.is_empty());
}

#[test]
fn plain_base64_is_queued_behind_pending_frames() {
    let mut registry: ConnectionRegistry<&str> = ConnectionRegistry::new();
    let mut relay = FrameRelay::new();
    let policy = IngestPolicy::standard();
    relay.send(Frame::new(vec![1; 9])).unwrap();
    relay.send(Frame::new(vec![2; 9])).unwrap();
    let reaction = handle_event(&mut registry, &mut relay, &policy, Event::Message(1, text("QUJDREVGR0hJ")));
    assert_eq!(reaction.disposition, Some(Disposition::Forwarded));
    assert_eq!(relay.len(), 3);
    assert_eq!(relay.recv(), Frame::new(vec![1; 9]));
    assert_eq!(relay.recv(), Frame::new(vec![2; 9]));
    assert_eq!(relay.recv(), Frame::new(b"ABCDEFGHI".to_vec()));
}

#[test]
fn five_byte_text_produces_zero_relay_sends() {
    let mut registry = ConnectionRegistry::new();
    let mut relay = FrameRelay::new();
    let policy = IngestPolicy::standard();
    handle_event(&mut registry, &mut relay, &policy, Event::Connect(1, "one"));
    let reaction = handle_event(&mut registry, &mut relay, &policy, Event::Message(1, text("hello")));
    assert_eq!(reaction.disposition, Some(Disposition::Dropped(Rejection::Malformed)));
    assert_eq!(reaction.echo, Some((1, text("hello"))));
    assert_eq!(relay.len(), 0);
    let reaction = handle_event(&mut registry, &mut relay, &policy, Event::Message(1, text(",QUJD")));
    assert_eq!(reaction.disposition, Some(Disposition::Dropped(Rejection::Undersized)));
    assert_eq!(relay.len(), 0);
    let reaction = handle_event(&mut registry, &mut relay, &policy, Event::Message(1, text("QUJD=")));
    assert_eq!(reaction.disposition, Some(Disposition::Dropped(Rejection::Undersized)));
    assert_eq!(relay.len(), 0);
    let reaction = handle_event(&mut registry, &mut relay, &policy, Event::Message(1, text("")));
    assert_eq!(reaction.disposition, Some(Disposition::Dropped(Rejection::Undersized)));
    assert_eq!(relay.len(), 0);
}

#[test]
fn malformed_base64_is_dropped_without_harm() {
    let mut registry = ConnectionRegistry::new();
    let mut relay = FrameRelay::new();
    let policy = IngestPolicy::standard();
    handle_event(&mut registry, &mut relay, &policy, Event::Connect(1, "one"));
    for bad in ["data:image/png;base64,@@@@ not base64 @@@@", "iVBORw0KGgoAAAANSUhEUgAAAAEAAAABC", "data:image/png;base64,iVBORw0KGgoAAAANSUhEUgAAAAEAAAABC", "iVBORw0KGgo=AAAA", "not base64"] {
        let reaction = handle_event(&mut registry, &mut relay, &policy, Event::Message(1, text(bad)));
        assert_eq!(reaction.disposition, Some(Disposition::Dropped(Rejection::Malformed)));
        assert_eq!(reaction.echo, Some((1, text(bad))));
    }
    assert!(relay.is_empty());
    assert!(relay.is_open());
}

#[test]
fn binary_message_is_echoed_but_not_forwarded() {
    let mut registry = ConnectionRegistry::new();
    let mut relay = FrameRelay::new();
    let policy = IngestPolicy::standard();
    handle_event(&mut registry, &mut relay, &policy, Event::Connect(1, "one"));
    let message = Message::Binary(PNG_1X1_BYTES.to_vec());
    let reaction = handle_event(&mut registry, &mut relay, &policy, Event::Message(1, message.clone()));
    assert_eq!(reaction.echo, Some((1, message)));
    assert_eq!(reaction.disposition, Some(Disposition::Dropped(Rejection::WrongType)));
    assert!(relay.is_empty());
}

#[test]
fn message_from_unregistered_client_is_not_echoed() {
    let mut registry: ConnectionRegistry<&str> = ConnectionRegistry::new();
    let mut relay = FrameRelay::new();
    let policy = IngestPolicy::standard();
    let reaction = handle_event(&mut registry, &mut relay, &policy, Event::Message(3, text(PNG_1X1)));
    assert_eq!(reaction.echo, None);
    assert_eq!(reaction.disposition, Some(Disposition::Forwarded));
    assert_eq!(relay.len(), 1);
    assert_eq!(registry.len(), 0);
}

#[test]
fn message_after_disconnect_is_not_echoed() {
    let mut registry = ConnectionRegistry::new();
    let mut relay = FrameRelay::new();
    let policy = IngestPolicy::standard();
    handle_event(&mut registry, &mut relay, &policy, Event::Connect(1, "one"));
    handle_event(&mut registry, &mut relay, &policy, Event::Connect(2, "two"));
    handle_event(&mut registry, &mut relay, &policy, Event::Disconnect(1));
    let reaction = handle_event(&mut registry, &mut relay, &policy, Event::Message(1, text("late")));
    assert_eq!(reaction.echo, None);
    let reaction = handle_event(&mut registry, &mut relay, &policy, Event::Message(2, text("still here")));
    assert_eq!(reaction.echo, Some((2, text("still here"))));
}

#[test]
fn frame_for_a_closed_relay_is_dropped() {
    let mut registry = ConnectionRegistry::new();
    let mut relay = FrameRelay::new();
    let policy = IngestPolicy::standard();
    handle_event(&mut registry, &mut relay, &policy, Event::Connect(1, "one"));
    relay.close();
    let reaction = handle_event(&mut registry, &mut relay, &policy, Event::Message(1, text(PNG_1X1)));
    assert_eq!(reaction.disposition, Some(Disposition::RelayClosed));
    assert_eq!(reaction.echo, Some((1, text(PNG_1X1))));
    assert!(relay.is_empty());
    let reaction = handle_event(&mut registry, &mut relay, &policy, Event::Message(1, text("x")));
    assert_eq!(reaction.disposition, Some(Disposition::Dropped(Rejection::Malformed)));
}

#[test]
fn frames_reach_the_relay_in_arrival_order() {
    let mut registry: ConnectionRegistry<&str> = ConnectionRegistry::new();
    let mut relay = FrameRelay::new();
    let policy = IngestPolicy::new(2);
    let texts = [",QUJD", "QUJDRA==", "x", ",REVGRw==", "SElKSw", ",QQ=="];
    for t in texts {
        handle_event(&mut registry, &mut relay, &policy, Event::Message(7, text(t)));
    }
    assert_eq!(relay.len(), 4);
    assert_eq!(relay.recv(), Frame::new(b"ABC".to_vec()));
    assert_eq!(relay.recv(), Frame::new(b"ABCD".to_vec()));
    assert_eq!(relay.recv(), Frame::new(b"DEFG".to_vec()));
    assert_eq!(relay.recv(), Frame::new(b"HIJK".to_vec()));
    assert!(relay.is_empty());
}
