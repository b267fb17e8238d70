use chat_relay::client::{client_send_step, SendAction};
use chat_relay::codec::{decode, encode, Frame};
use chat_relay::registry::Registry;
use chat_relay::relay::{handler_step, plan_broadcast, HandlerAction, ReadEvent};
use chat_relay::router::MessageQueue;

#[test]
fn handler_publishes_decoded_frame() {
    let frame = encode("hello");
    match handler_step(ReadEvent::Frame(frame)) {
        HandlerAction::Publish(msg) => assert_eq!(msg, "hello"),
        _ => panic!("quadro v\u{e1}lido deve ser publicado"),
    }
}

#[test]
fn handler_discards_invalid_utf8_frame() {
    let mut bytes = vec![0u8; 32];
    bytes[0] = 0xff;
    let frame = Frame::from_vec(bytes);
    assert!(matches!(
        handler_step(ReadEvent::Frame(frame)),
        HandlerAction::Discard
    ));
}

#[test]
fn handler_yields_when_read_would_block() {
    assert!(matches!(handler_step(ReadEvent::WouldBlock), HandlerAction::Yield));
}

#[test]
fn handler_closes_on_read_error() {
    assert!(matches!(handler_step(ReadEvent::Closed), HandlerAction::Close));
}

#[test]
fn fanout_reaches_every_registered_peer() {
    let mut registry = Registry::new();
    registry.register(1);
    registry.register(2);
    registry.register(3);

    let (frame, targets) = plan_broadcast(&registry, "hello");

    assert_eq!(targets, vec![1, 2, 3]);
    assert_eq!(frame.bytes().len(), 32);
    assert_eq!(decode(&frame), Ok(String::from("hello")));
}

#[test]
fn failed_write_removes_peer_silently() {
    let mut registry = Registry::new();
    registry.register(1);
    registry.register(2);
    registry.register(3);

    let ok = vec![true, false, true];
    registry.retain_written(&ok);

    assert_eq!(registry.len(), 2);
    assert!(!registry.contains(2));
    assert_eq!(registry.targets(), vec![1, 3]);
    assert_eq!(registry.peer_at(0), 1);
    assert_eq!(registry.peer_at(1), 3);

    let (frame, targets) = plan_broadcast(&registry, "again");
    assert_eq!(targets, vec![1, 3]);
    assert_eq!(decode(&frame), Ok(String::from("again")));
}

#[test]
fn queue_drains_in_arrival_order() {
    let mut queue = MessageQueue::new();
    queue.publish(String::from("first"));
    queue.publish(String::from("second"));

    assert_eq!(queue.drain_one(), Some(String::from("first")));
    assert_eq!(queue.drain_one(), Some(String::from("second")));
    assert_eq!(queue.drain_one(), None);
    assert_eq!(queue.len(), 0);
}

#[test]
fn ping_from_one_peer_reaches_the_other() {
    // Peer A (id 1) and peer B (id 2) are connected.
    let mut registry = Registry::new();
    registry.register(1);
    registry.register(2);
    let mut queue = MessageQueue::new();

    // Peer A's client turns the line into one frame.
    let frame_a = match client_send_step("ping\n") {
        SendAction::Send(frame) => frame,
        SendAction::Quit => panic!("a linha comum n\u{e3}o encerra o cliente"),
    };

    // A's handler reads that frame and publishes the decoded text.
    match handler_step(ReadEvent::Frame(frame_a)) {
        HandlerAction::Publish(msg) => queue.publish(msg),
        _ => panic!("o quadro de A deve ser publicado"),
    }

    // The next cycle drains it and fans it out to every registered peer.
    let msg = queue.drain_one().expect("uma mensagem deve estar pendente");
    let (frame, targets) = plan_broadcast(&registry, &msg);

    assert!(targets.contains(&2), "o outro par deve receber o quadro");
    assert_eq!(decode(&frame), Ok(String::from("ping")));
}
