use tray_echo::echo::{
    describe_payload, EchoSession, PayloadText, SessionAction, StopReason, StreamEvent,
    RECEIVE_CAPACITY,
};

fn sent(a: &SessionAction) -> Vec<u8> {
    match a {
        SessionAction::Send(b) => b.clone(),
        other => panic!("expected a send, got {:?}", other),
    }
}

fn echoed(a: &SessionAction) -> Vec<u8> {
    match a {
        SessionAction::Echoed(b) => b.clone(),
        other => panic!("expected an echo, got {:?}", other),
    }
}

#[test]
fn fresh_session_asks_for_a_full_read() {
    let s = EchoSession::new();
    assert!(matches!(s.pending_action(), SessionAction::Receive(n) if n == 4098));
    assert_eq!(RECEIVE_CAPACITY, 4098);
    assert!(!s.is_closed());
}

#[test]
fn ping_is_echoed_then_close_lets_next_connection_echo() {
    let mut s = EchoSession::new();
    let a = s.step(StreamEvent::Received(b"PING".to_vec()));
    assert_eq!(sent(&a), b"PING".to_vec());
    let a = s.step(StreamEvent::Sent(4));
    let back = echoed(&a);
    assert_eq!(back, b"PING".to_vec());
    match describe_payload(&back) {
        PayloadText::Text(t) => assert!(t.contains("PING")),
        PayloadText::Undecodable => panic!("PING must decode"),
    }
    assert!(matches!(s.pending_action(), SessionAction::Receive(4098)));
    let a = s.step(StreamEvent::Received(Vec::new()));
    assert!(matches!(a, SessionAction::Stop(StopReason::PeerClosed)));
    assert!(s.is_closed());

    let mut second = EchoSession::new();
    let a = second.step(StreamEvent::Received(b"PONG".to_vec()));
    assert_eq!(sent(&a), b"PONG".to_vec());
    let a = second.step(StreamEvent::Sent(4));
    assert_eq!(echoed(&a), b"PONG".to_vec());
}

#[test]
fn full_capacity_read_round_trips_and_stays_open() {
    let payload: Vec<u8> = (0..4098u32).map(|i| (i % 251) as u8).collect();
    let mut s = EchoSession::new();
    assert_eq!(sent(&s.step(StreamEvent::Received(payload.clone()))), payload);
    assert_eq!(echoed(&s.step(StreamEvent::Sent(4098))), payload);
    assert_eq!(sent(&s.step(StreamEvent::Received(vec![7]))), vec![7]);
    assert_eq!(echoed(&s.step(StreamEvent::Sent(1))), vec![7]);
    assert!(!s.is_closed());
}

#[test]
fn oversized_payload_takes_several_cycles() {
    let payload: Vec<u8> = (0..10000u32).map(|i| (i % 256) as u8).collect();
    let mut s = EchoSession::new();
    let mut total = Vec::new();
    let mut cycles = 0;
    for chunk in payload.chunks(RECEIVE_CAPACITY) {
        assert_eq!(sent(&s.step(StreamEvent::Received(chunk.to_vec()))), chunk.to_vec());
        let back = echoed(&s.step(StreamEvent::Sent(chunk.len())));
        assert_eq!(back, chunk.to_vec());
        total.extend(back);
        cycles += 1;
    }
    assert_eq!(cycles, 3);
    assert_eq!(total, payload);
}

#[test]
fn short_write_ends_only_that_session() {
    let mut s = EchoSession::new();
    s.step(StreamEvent::Received(b"hello".to_vec()));
    let a = s.step(StreamEvent::Sent(3));
    assert!(matches!(a, SessionAction::Stop(StopReason::ShortWrite)));
    assert!(s.is_closed());
    let a = s.step(StreamEvent::Received(b"again".to_vec()));
    assert!(matches!(a, SessionAction::Stop(StopReason::ShortWrite)));

    let mut next = EchoSession::new();
    assert_eq!(sent(&next.step(StreamEvent::Received(b"hi".to_vec()))), b"hi".to_vec());
    assert_eq!(echoed(&next.step(StreamEvent::Sent(2))), b"hi".to_vec());
}

#[test]
fn read_and_write_failures_end_the_session() {
    let mut s = EchoSession::new();
    assert!(matches!(s.step(StreamEvent::ReadFailed), SessionAction::Stop(StopReason::ReadFailed)));
    let mut s = EchoSession::new();
    s.step(StreamEvent::Received(vec![1, 2]));
    assert!(matches!(s.step(StreamEvent::WriteFailed), SessionAction::Stop(StopReason::WriteFailed)));
    assert!(s.is_closed());
}

#[test]
fn unexpected_event_repeats_the_awaited_action() {
    let mut s = EchoSession::new();
    assert!(matches!(s.step(StreamEvent::Sent(3)), SessionAction::Receive(4098)));
    s.step(StreamEvent::Received(vec![9, 9]));
    assert_eq!(sent(&s.step(StreamEvent::Received(vec![1]))), vec![9, 9]);
    assert_eq!(echoed(&s.step(StreamEvent::Sent(2))), vec![9, 9]);
}

#[test]
fn invalid_utf8_is_reported_and_session_continues() {
    let bytes = vec![0xff, 0xfe, 0x41];
    let mut s = EchoSession::new();
    s.step(StreamEvent::Received(bytes.clone()));
    let back = echoed(&s.step(StreamEvent::Sent(3)));
    assert_eq!(describe_payload(&back), PayloadText::Undecodable);
    assert!(!s.is_closed());
    assert_eq!(describe_payload(&"héllo".as_bytes().to_vec()), PayloadText::Text("héllo".to_string()));
}
