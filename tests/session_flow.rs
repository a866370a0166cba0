use gomoku_server::rooms::{
    Color, Coord, MoveReply, OverReason, RoomError, RoomEvent, RoomService, RoomState, SeatKind,
};
use gomoku_server::session::{
    handle_match_move, handle_room_create, handle_room_join, handle_room_leave, handle_room_ready,
    handle_room_take_seat, leave_room_with_broadcast, Outbox, Reply,
};

fn sends(o: &Outbox) -> Vec<(String, &'static str)> {
    o.deliveries.iter().map(|d| (d.to.clone(), o.events[d.event].event_type())).collect()
}

fn started(svc: &mut RoomService) -> u128 {
    let (reply, _) = handle_room_create(svc, "alice", "R".to_string());
    let room_id = match reply {
        Reply::Created { room_id, .. } => room_id,
        _ => panic!("expected a created room"),
    };
    handle_room_join(svc, "bob", room_id);
    handle_room_take_seat(svc, "bob", SeatKind::White);
    handle_room_ready(svc, "alice", true);
    room_id
}

#[test]
fn create_sends_snapshot_to_creator_only() {
    let mut svc = RoomService::default();
    let (reply, out) = handle_room_create(&mut svc, "alice", "R".to_string());
    assert!(matches!(reply, Reply::Created { .. }));
    assert_eq!(sends(&out), vec![("alice".to_string(), "room.snapshot")]);
}

#[test]
fn create_while_in_a_room_leaves_it_first() {
    let mut svc = RoomService::default();
    let (reply, _) = handle_room_create(&mut svc, "alice", "R".to_string());
    let first = match reply {
        Reply::Created { room_id, .. } => room_id,
        _ => panic!("expected a created room"),
    };
    handle_room_join(&mut svc, "bob", first);
    let (reply, out) = handle_room_create(&mut svc, "alice", "S".to_string());
    let second = match reply {
        Reply::Created { room_id, .. } => room_id,
        _ => panic!("expected a created room"),
    };
    assert_ne!(first, second);
    assert_eq!(
        sends(&out),
        vec![("bob".to_string(), "room.snapshot"), ("alice".to_string(), "room.snapshot")]
    );
    assert_eq!(svc.participants(first), vec!["bob".to_string()]);
    assert_eq!(svc.room_id_for_user("alice"), Some(second));
}

#[test]
fn join_broadcasts_snapshot_to_all_participants() {
    let mut svc = RoomService::default();
    let (reply, _) = handle_room_create(&mut svc, "zoe", "R".to_string());
    let room_id = match reply {
        Reply::Created { room_id, .. } => room_id,
        _ => panic!("expected a created room"),
    };
    let (reply, out) = handle_room_join(&mut svc, "bob", room_id);
    assert!(matches!(reply, Reply::Room(_)));
    assert_eq!(
        sends(&out),
        vec![("bob".to_string(), "room.snapshot"), ("zoe".to_string(), "room.snapshot")]
    );
    let (reply, out) = handle_room_join(&mut svc, "bob", 7);
    assert!(matches!(reply, Reply::Failed(RoomError::RoomNotFound)));
    // bob left the first room on the way.
    assert_eq!(sends(&out), vec![("zoe".to_string(), "room.snapshot")]);
}

#[test]
fn ready_broadcasts_snapshot_then_match_start() {
    let mut svc = RoomService::default();
    started(&mut svc);
    let (reply, out) = handle_room_ready(&mut svc, "bob", true);
    assert!(matches!(reply, Reply::Room(_)));
    assert_eq!(
        sends(&out),
        vec![
            ("alice".to_string(), "room.snapshot"),
            ("bob".to_string(), "room.snapshot"),
            ("alice".to_string(), "match.start"),
            ("bob".to_string(), "match.start"),
        ]
    );
    let (reply, out) = handle_room_ready(&mut svc, "carol", true);
    assert!(matches!(reply, Reply::Failed(RoomError::NotInRoom)));
    assert!(out.events.is_empty() && out.deliveries.is_empty());
}

#[test]
fn winning_move_broadcasts_moved_over_snapshot() {
    let mut svc = RoomService::default();
    started(&mut svc);
    handle_room_ready(&mut svc, "bob", true);
    for c in 0..4 {
        handle_match_move(&mut svc, "alice", Coord { row: 5, col: c });
        handle_match_move(&mut svc, "bob", Coord { row: 9, col: c });
    }
    let (reply, out) = handle_match_move(&mut svc, "alice", Coord { row: 5, col: 4 });
    assert!(matches!(reply, Reply::Moved(MoveReply::Accepted { .. })));
    let kinds: Vec<&str> = out.events.iter().map(|e| e.event_type()).collect();
    assert_eq!(kinds, vec!["match.moved", "match.over", "room.snapshot"]);
    assert_eq!(out.deliveries.len(), 6);
    assert_eq!(
        sends(&out)[..2],
        [("alice".to_string(), "match.moved"), ("bob".to_string(), "match.moved")]
    );
    let (reply, out) = handle_match_move(&mut svc, "alice", Coord { row: 1, col: 1 });
    assert!(matches!(reply, Reply::Failed(RoomError::InvalidRoomState)));
    assert!(out.events.is_empty());
}

#[test]
fn refused_move_sends_nothing() {
    let mut svc = RoomService::default();
    started(&mut svc);
    handle_room_ready(&mut svc, "bob", true);
    let (reply, out) = handle_match_move(&mut svc, "bob", Coord { row: 1, col: 1 });
    assert!(matches!(reply, Reply::Moved(MoveReply::Rejected(_))));
    assert!(out.events.is_empty() && out.deliveries.is_empty());
}

#[test]
fn disconnect_mid_match_tells_remaining_player() {
    let mut svc = RoomService::default();
    started(&mut svc);
    handle_room_ready(&mut svc, "bob", true);
    handle_match_move(&mut svc, "alice", Coord { row: 7, col: 7 });
    let out = leave_room_with_broadcast(&mut svc, "alice").unwrap();
    assert_eq!(
        sends(&out),
        vec![("bob".to_string(), "match.over"), ("bob".to_string(), "room.snapshot")]
    );
    match &out.events[0] {
        RoomEvent::MatchOver { winner, reason, .. } => {
            assert_eq!(*winner, Some(Color::White));
            assert_eq!(*reason, OverReason::Disconnect);
        }
        _ => panic!("expected match.over"),
    }
    match &out.events[1] {
        RoomEvent::Snapshot(s) => {
            assert_eq!(s.state, RoomState::Waiting);
            assert!(s.seats.black.is_none());
        }
        _ => panic!("expected room.snapshot"),
    }
    assert!(leave_room_with_broadcast(&mut svc, "alice").is_none());
}

#[test]
fn leave_outside_a_room_fails() {
    let mut svc = RoomService::default();
    let (reply, out) = handle_room_leave(&mut svc, "alice");
    assert!(matches!(reply, Reply::Failed(RoomError::NotInRoom)));
    assert!(out.deliveries.is_empty());
    started(&mut svc);
    let (reply, out) = handle_room_leave(&mut svc, "bob");
    assert!(matches!(reply, Reply::Left));
    assert_eq!(sends(&out), vec![("alice".to_string(), "room.snapshot")]);
}

#[test]
fn take_seat_broadcasts_snapshot() {
    let mut svc = RoomService::default();
    started(&mut svc);
    let (reply, out) = handle_room_take_seat(&mut svc, "bob", SeatKind::Spectator);
    assert!(matches!(reply, Reply::Room(_)));
    assert_eq!(
        sends(&out),
        vec![("alice".to_string(), "room.snapshot"), ("bob".to_string(), "room.snapshot")]
    );
    let (reply, _) = handle_room_take_seat(&mut svc, "bob", SeatKind::Black);
    assert!(matches!(reply, Reply::Failed(RoomError::SeatTaken)));
}
