use gomoku_server::ids::parse_room_id;
use gomoku_server::rooms::{Color, Coord, RoomEvent, RoomService, SeatKind};

#[test]
fn service_flow_create_ready_move() {
    let mut svc = RoomService::default();

    let (_room_id, snap) = svc.create_room("alice", "t".to_string());
    assert_eq!(
        snap.seats.black.as_ref().map(|s| s.username.as_str()),
        Some("alice")
    );

    let room_id = parse_room_id(&snap.room_id).unwrap();
    let snap = svc.join_room("bob", room_id).unwrap();
    assert!(snap.spectators.iter().any(|u| u == "bob"));

    let (_room_id, snap) = svc.take_seat("bob", SeatKind::White).unwrap();
    assert_eq!(snap.seats.white.as_ref().map(|s| s.username.as_str()), Some("bob"));

    let (_room_id, _snap, start_evt) = svc.set_ready("alice", true).unwrap();
    assert!(start_evt.is_none());
    let (_room_id, _snap, start_evt) = svc.set_ready("bob", true).unwrap();
    assert!(start_evt.is_some());

    let (_room_id, payload, _events) = svc.match_move("alice", Coord { row: 7, col: 7 }).unwrap();
    assert!(payload.accepted());

    // Wrong side tries again
    let (_room_id, payload, _events) = svc.match_move("alice", Coord { row: 7, col: 8 }).unwrap();
    assert!(!payload.accepted());
}

#[test]
fn win_by_moves_emits_match_over() {
    let mut svc = RoomService::default();
    let (_room_id, snap) = svc.create_room("alice", "t".to_string());
    let room_id = parse_room_id(&snap.room_id).unwrap();
    let _ = svc.join_room("bob", room_id).unwrap();
    let _ = svc.take_seat("bob", SeatKind::White).unwrap();

    let _ = svc.set_ready("alice", true).unwrap();
    let _ = svc.set_ready("bob", true).unwrap();

    // Black: (7,3..7), White: elsewhere.
    let black_moves = [3, 4, 5, 6, 7];
    for (i, col) in black_moves.iter().enumerate() {
        let (_room_id, payload, events) = svc.match_move("alice", Coord { row: 7, col: *col }).unwrap();
        assert!(payload.accepted());

        if i == black_moves.len() - 1 {
            let over = events.iter().find(|e| e.event_type() == "match.over");
            assert!(over.is_some());
            let over = over.unwrap();
            assert!(matches!(over, RoomEvent::MatchOver { winner: Some(Color::Black), .. }));
            break;
        }

        let (_room_id, payload, _events) = svc.match_move("bob", Coord { row: 0, col: i as i32 }).unwrap();
        assert!(payload.accepted());
    }
}
