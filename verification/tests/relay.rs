use overlay_relay::frame::Frame;
use overlay_relay::relay::{ChannelClosed, FrameRelay};

fn frame(tag: u8, len: usize) -> Frame {
    Frame::new(vec![tag; len])
}

#[test]
fn fresh_relay_is_open_and_empty() {
    let mut relay = FrameRelay::new();
    assert!(relay.is_open());
    assert!(relay.is_empty());
    assert_eq!(relay.len(), 0);
    assert_eq!(relay.try_recv(), None);
}

#[test]
fn frames_come_out_in_the_order_they_went_in() {
    let mut relay = FrameRelay::new();
    for i in 0..100u8 {
        assert_eq!(relay.send(frame(i, i as usize + 1)), Ok(()));
    }
    assert_eq!(relay.len(), 100);
    for i in 0..100u8 {
        assert_eq!(relay.try_recv(), Some(frame(i, i as usize + 1)));
    }
    assert_eq!(relay.try_recv(), None);
    assert!(relay.is_empty());
}

#[test]
fn interleaved_sends_and_receives_keep_order() {
    let mut relay = FrameRelay::new();
    let mut sent = Vec::new();
    let mut received = Vec::new();
    let mut next = 0u8;
    for round in 0..40usize {
        for _ in 0..(round % 3) {
            relay.send(frame(next, 2)).unwrap();
            sent.push(frame(next, 2));
            next += 1;
        }
        for _ in 0..(round % 2 + 1) {
            if let Some(f) = relay.try_recv() {
                received.push(f);
            }
        }
        assert_eq!(received.len() + relay.len(), sent.len());
        assert_eq!(received[..], sent[..received.len()]);
    }
    while !relay.is_empty() {
        received.push(relay.recv());
    }
    assert_eq!(received, sent);
}

#[test]
fn equal_frames_are_each_delivered() {
    let mut relay = FrameRelay::new();
    relay.send(frame(7, 3)).unwrap();
    relay.send(frame(7, 3)).unwrap();
    assert_eq!(relay.len(), 2);
    assert_eq!(relay.recv(), frame(7, 3));
    assert_eq!(relay.recv(), frame(7, 3));
    assert_eq!(relay.try_recv(), None);
}

#[test]
fn recv_takes_the_oldest() {
    let mut relay = FrameRelay::new();
    relay.send(frame(1, 1)).unwrap();
    relay.send(frame(2, 1)).unwrap();
    assert!(!relay.is_empty());
    assert_eq!(relay.recv(), frame(1, 1));
    assert_eq!(relay.len(), 1);
}

#[test]
fn send_after_close_fails_and_changes_nothing() {
    let mut relay = FrameRelay::new();
    relay.send(frame(1, 4)).unwrap();
    relay.close();
    assert!(!relay.is_open());
    assert_eq!(relay.len(), 0);
    assert_eq!(relay.send(frame(2, 4)), Err(ChannelClosed));
    assert_eq!(relay.len(), 0);
    assert_eq!(relay.try_recv(), None);
    relay.close();
    assert!(!relay.is_open());
}

#[test]
fn relay_has_no_capacity_limit_in_sight() {
    let mut relay = FrameRelay::new();
    for i in 0..10_000u32 {
        assert_eq!(relay.send(Frame::new(i.to_le_bytes().to_vec())), Ok(()));
    }
    assert_eq!(relay.len(), 10_000);
    for i in 0..10_000u32 {
        assert_eq!(relay.recv().into_bytes(), i.to_le_bytes().to_vec());
    }
}
