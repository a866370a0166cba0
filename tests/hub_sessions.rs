use axum::extract::ws::Message;
use gomoku_server::hub::{deliver_eviction, kick_frames, Frame, Hub, KICKED_EVENT};
use tokio::sync::mpsc::unbounded_channel;

fn expect_kicked(msg: Message) {
    match msg {
        Message::Text(t) => {
            let v: serde_json::Value = serde_json::from_str(t.as_str()).unwrap();
            assert_eq!(v["v"], 1);
            assert_eq!(v["type"], "auth.kicked");
            assert_eq!(v["payload"]["reason"], "single_session");
        }
        other => panic!("expected auth.kicked, got {:?}", other),
    }
}

fn expect_close_4001(msg: Message) {
    match msg {
        Message::Close(Some(frame)) => {
            assert_eq!(frame.code, 4001);
            assert_eq!(frame.reason.as_str(), "single_session");
        }
        other => panic!("expected close 4001, got {:?}", other),
    }
}

#[test]
fn second_socket_evicts_first() {
    let mut hub = Hub::default();
    let (tx1, mut rx1) = unbounded_channel();
    let (tx2, mut rx2) = unbounded_channel();
    assert!(hub.register("alice".to_string(), tx1).is_none());
    let eviction = hub.register("alice".to_string(), tx2).unwrap();
    assert_eq!(eviction.frames.len(), 2);
    assert!(rx1.try_recv().is_err());
    deliver_eviction(eviction);
    expect_kicked(rx1.try_recv().unwrap());
    expect_close_4001(rx1.try_recv().unwrap());
    assert!(rx1.try_recv().is_err());
    assert!(rx2.try_recv().is_err());
    hub.send_text("alice", "hello".to_string());
    match rx2.try_recv().unwrap() {
        Message::Text(t) => assert_eq!(t.as_str(), "hello"),
        other => panic!("unexpected {:?}", other),
    }
}

#[test]
fn login_kick_evicts_live_socket() {
    let mut hub = Hub::default();
    let (tx, mut rx) = unbounded_channel();
    assert!(hub.register("alice".to_string(), tx).is_none());
    deliver_eviction(hub.kick("alice").unwrap());
    expect_kicked(rx.try_recv().unwrap());
    expect_close_4001(rx.try_recv().unwrap());
    // Nothing reaches a user without a socket.
    hub.send_text("alice", "late".to_string());
    assert!(rx.try_recv().is_err());
    assert!(hub.kick("bob").is_none());
}

#[test]
fn unregister_stops_delivery() {
    let mut hub = Hub::default();
    let (tx, mut rx) = unbounded_channel();
    let (other_tx, mut other_rx) = unbounded_channel();
    hub.register("alice".to_string(), tx);
    hub.register("bob".to_string(), other_tx);
    hub.unregister("alice");
    hub.send_text("alice", "x".to_string());
    hub.send_text("bob", "y".to_string());
    assert!(rx.try_recv().is_err());
    assert!(matches!(other_rx.try_recv().unwrap(), Message::Text(_)));
}

#[test]
fn kick_frames_are_event_then_close() {
    let frames = kick_frames();
    assert_eq!(frames.len(), 2);
    match &frames[0] {
        Frame::Text(t) => assert_eq!(t, KICKED_EVENT),
        other => panic!("unexpected {:?}", other),
    }
    match &frames[1] {
        Frame::Close { code, reason } => {
            assert_eq!(*code, 4001);
            assert_eq!(reason, "single_session");
        }
        other => panic!("unexpected {:?}", other),
    }
}
