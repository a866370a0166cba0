use gomoku_server::board::{is_win, Match, Outcome, CELL_COUNT};
use gomoku_server::ids::parse_room_id;
use gomoku_server::rooms::{
    room_title, Color, Coord, MoveReject, MoveReply, OverReason, RoomError, RoomEvent, RoomService,
    RoomState, SeatKind, DEFAULT_TITLE,
};

fn playing_room() -> (RoomService, u128) {
    let mut svc = RoomService::default();
    let (room_id, _snap) = svc.create_room("alice", "R".to_string());
    svc.join_room("bob", room_id).unwrap();
    svc.take_seat("bob", SeatKind::White).unwrap();
    svc.set_ready("alice", true).unwrap();
    let (_, snap, start) = svc.set_ready("bob", true).unwrap();
    assert!(matches!(start, Some(RoomEvent::MatchStart { .. })));
    assert_eq!(snap.state, RoomState::Playing);
    (svc, room_id)
}

fn play(svc: &mut RoomService, user: &str, row: i32, col: i32) -> (MoveReply, Vec<RoomEvent>) {
    let (_, reply, events) = svc.match_move(user, Coord { row, col }).unwrap();
    (reply, events)
}

#[test]
fn win_by_row_ends_with_over_and_waiting_snapshot() {
    let (mut svc, _) = playing_room();
    let script = [
        ("alice", 7, 3), ("bob", 0, 0), ("alice", 7, 4), ("bob", 0, 1), ("alice", 7, 5),
        ("bob", 0, 2), ("alice", 7, 6), ("bob", 0, 3),
    ];
    for (user, r, c) in script {
        let (reply, events) = play(&mut svc, user, r, c);
        assert!(reply.accepted());
        assert_eq!(events.len(), 1);
        assert_eq!(events[0].event_type(), "match.moved");
    }
    let (reply, events) = play(&mut svc, "alice", 7, 7);
    assert!(reply.accepted());
    assert_eq!(events.len(), 3);
    assert_eq!(events[0].event_type(), "match.moved");
    match &events[1] {
        RoomEvent::MatchOver { winner, reason, .. } => {
            assert_eq!(*winner, Some(Color::Black));
            assert_eq!(*reason, OverReason::FiveInARow);
        }
        _ => panic!("expected match.over"),
    }
    match &events[2] {
        RoomEvent::Snapshot(s) => {
            assert_eq!(s.state, RoomState::Waiting);
            assert!(!s.seats.black.as_ref().unwrap().ready);
            assert!(!s.seats.white.as_ref().unwrap().ready);
        }
        _ => panic!("expected room.snapshot"),
    }
}

#[test]
fn wrong_turn_is_refused_without_change() {
    let (mut svc, room_id) = playing_room();
    let (reply, _) = play(&mut svc, "alice", 7, 7);
    assert!(reply.accepted());
    let (reply, events) = play(&mut svc, "alice", 7, 8);
    assert_eq!(reply, MoveReply::Rejected(MoveReject::NotYourTurn));
    assert!(events.is_empty());
    // Bob may still play (7, 8): the board is unchanged.
    let (reply, _) = play(&mut svc, "bob", 7, 8);
    assert!(reply.accepted());
    assert_eq!(svc.snapshot(room_id).unwrap().state, RoomState::Playing);
}

#[test]
fn overlap_is_refused() {
    let (mut svc, _) = playing_room();
    play(&mut svc, "alice", 7, 7);
    let (reply, events) = play(&mut svc, "bob", 7, 7);
    assert_eq!(reply, MoveReply::Rejected(MoveReject::Overlap));
    assert!(events.is_empty());
}

#[test]
fn corners_are_on_the_board_and_outside_is_out_of_range() {
    let (mut svc, _) = playing_room();
    for (r, c) in [(-1, 0), (15, 0), (0, 15)] {
        let (reply, _) = play(&mut svc, "alice", r, c);
        assert_eq!(reply, MoveReply::Rejected(MoveReject::OutOfRange));
    }
    let (reply, _) = play(&mut svc, "alice", 0, 0);
    assert!(reply.accepted());
    let (reply, _) = play(&mut svc, "bob", 14, 14);
    assert!(reply.accepted());
}

#[test]
fn accepted_move_reports_next_turn() {
    let (mut svc, _) = playing_room();
    let (reply, events) = play(&mut svc, "alice", 3, 4);
    let mv = gomoku_server::rooms::Move { color: Color::Black, coord: Coord { row: 3, col: 4 } };
    assert_eq!(reply, MoveReply::Accepted { turn: Color::White, mv });
    assert!(matches!(events[0], RoomEvent::MatchMoved { turn: Color::White, .. }));
}

#[test]
fn disconnect_mid_match_gives_win_to_remaining_player() {
    let (mut svc, room_id) = playing_room();
    play(&mut svc, "alice", 7, 7);
    let (snap, events) = svc.leave_room("alice").unwrap();
    assert_eq!(events.len(), 1);
    match &events[0] {
        RoomEvent::MatchOver { winner, reason, .. } => {
            assert_eq!(*winner, Some(Color::White));
            assert_eq!(*reason, OverReason::Disconnect);
        }
        _ => panic!("expected match.over"),
    }
    assert_eq!(snap.state, RoomState::Waiting);
    assert!(snap.seats.black.is_none());
    assert!(!snap.seats.white.as_ref().unwrap().ready);
    assert_eq!(svc.participants(room_id), vec!["bob".to_string()]);
    assert_eq!(svc.room_id_for_user("alice"), None);
}

#[test]
fn spectator_leaving_does_not_end_match() {
    let (mut svc, room_id) = playing_room();
    svc.join_room("carol", room_id).unwrap();
    let (snap, events) = svc.leave_room("carol").unwrap();
    assert!(events.is_empty());
    assert_eq!(snap.state, RoomState::Playing);
}

#[test]
fn last_member_leaving_removes_room() {
    let mut svc = RoomService::default();
    let (room_id, _) = svc.create_room("alice", "t".to_string());
    let (snap, events) = svc.leave_room("alice").unwrap();
    assert!(events.is_empty());
    assert!(snap.seats.black.is_none());
    assert!(svc.snapshot(room_id).is_none());
    assert!(svc.participants(room_id).is_empty());
    assert!(svc.leave_room("alice").is_none());
}

#[test]
fn join_twice_is_a_no_op() {
    let mut svc = RoomService::default();
    let (room_id, _) = svc.create_room("alice", "t".to_string());
    let first = svc.join_room("bob", room_id).unwrap();
    let second = svc.join_room("bob", room_id).unwrap();
    assert_eq!(first.spectators, vec!["bob".to_string()]);
    assert_eq!(second.spectators, vec!["bob".to_string()]);
    let again = svc.join_room("alice", room_id).unwrap();
    assert!(again.spectators == vec!["bob".to_string()]);
    assert_eq!(svc.room_id_for_user("bob"), Some(room_id));
}

#[test]
fn join_unknown_room_fails() {
    let mut svc = RoomService::default();
    assert_eq!(svc.join_room("bob", 42).unwrap_err(), RoomError::RoomNotFound);
}

#[test]
fn retaking_own_seat_only_clears_ready() {
    let mut svc = RoomService::default();
    let (room_id, _) = svc.create_room("alice", "t".to_string());
    svc.join_room("carol", room_id).unwrap();
    svc.set_ready("alice", true).unwrap();
    let (_, snap) = svc.take_seat("alice", SeatKind::Black).unwrap();
    let black = snap.seats.black.unwrap();
    assert_eq!(black.username, "alice");
    assert!(!black.ready);
    assert!(snap.seats.white.is_none());
    assert_eq!(snap.spectators, vec!["carol".to_string()]);
}

#[test]
fn seat_errors() {
    let mut svc = RoomService::default();
    assert_eq!(svc.take_seat("nobody", SeatKind::Black).unwrap_err(), RoomError::NotInRoom);
    let (room_id, _) = svc.create_room("alice", "t".to_string());
    svc.join_room("bob", room_id).unwrap();
    assert_eq!(svc.take_seat("bob", SeatKind::Black).unwrap_err(), RoomError::SeatTaken);
    // A refused seat change leaves the caller where they were.
    assert_eq!(svc.participants(room_id), vec!["alice".to_string(), "bob".to_string()]);
    assert_eq!(svc.set_ready("bob", true).unwrap_err(), RoomError::Forbidden);
    assert_eq!(svc.set_ready("nobody", true).unwrap_err(), RoomError::NotInRoom);
    assert_eq!(
        svc.match_move("alice", Coord { row: 0, col: 0 }).unwrap_err(),
        RoomError::InvalidRoomState
    );
    assert_eq!(
        svc.match_move("nobody", Coord { row: 0, col: 0 }).unwrap_err(),
        RoomError::NotInRoom
    );
    svc.take_seat("bob", SeatKind::White).unwrap();
    svc.set_ready("alice", true).unwrap();
    svc.set_ready("bob", true).unwrap();
    assert_eq!(svc.take_seat("bob", SeatKind::Spectator).unwrap_err(), RoomError::InvalidRoomState);
    assert_eq!(svc.set_ready("bob", false).unwrap_err(), RoomError::InvalidRoomState);
}

#[test]
fn spectator_to_spectator_moves_to_end() {
    let mut svc = RoomService::default();
    let (room_id, _) = svc.create_room("alice", "t".to_string());
    svc.join_room("bob", room_id).unwrap();
    svc.join_room("carol", room_id).unwrap();
    let (_, snap) = svc.take_seat("bob", SeatKind::Spectator).unwrap();
    assert_eq!(snap.spectators, vec!["carol".to_string(), "bob".to_string()]);
}

#[test]
fn participants_are_sorted() {
    let mut svc = RoomService::default();
    let (room_id, _) = svc.create_room("zed", "t".to_string());
    svc.join_room("mia", room_id).unwrap();
    svc.join_room("amy", room_id).unwrap();
    assert_eq!(
        svc.participants(room_id),
        vec!["amy".to_string(), "mia".to_string(), "zed".to_string()]
    );
}

#[test]
fn titles_are_trimmed_or_defaulted() {
    let mut svc = RoomService::default();
    let (_, snap) = svc.create_room("alice", "  Lobby  ".to_string());
    assert_eq!(snap.title, "Lobby");
    let (_, snap) = svc.create_room("bob", "   ".to_string());
    assert_eq!(snap.title, DEFAULT_TITLE);
    assert_eq!(room_title(""), "房间");
    assert_eq!(room_title("x"), "x");
}

#[test]
fn snapshot_room_id_round_trips() {
    let mut svc = RoomService::default();
    let (room_id, snap) = svc.create_room("alice", "t".to_string());
    assert_eq!(snap.room_id.len(), 36);
    assert_eq!(parse_room_id(&snap.room_id), Some(room_id));
    assert_eq!(snap.room_id, uuid::Uuid::from_u128(room_id).to_string());
    assert_eq!(parse_room_id("not a uuid"), None);
    assert_eq!(svc.room_id_for_user("alice"), Some(room_id));
}

/// Color of the cell in a full board without five in a row.
fn draw_color(r: i32, c: i32) -> Color {
    if ((r + 2 * c) / 2) % 2 == 1 {
        Color::White
    } else {
        Color::Black
    }
}

#[test]
fn full_board_without_five_is_a_draw() {
    let (mut svc, _) = playing_room();
    let mut blacks = vec![];
    let mut whites = vec![];
    for r in 0..15 {
        for c in 0..15 {
            match draw_color(r, c) {
                Color::Black => blacks.push((r, c)),
                Color::White => whites.push((r, c)),
            }
        }
    }
    assert_eq!(blacks.len(), 113);
    assert_eq!(whites.len(), 112);
    for i in 0..112 {
        let (reply, events) = play(&mut svc, "alice", blacks[i].0, blacks[i].1);
        assert!(reply.accepted());
        assert_eq!(events.len(), 1);
        let (reply, events) = play(&mut svc, "bob", whites[i].0, whites[i].1);
        assert!(reply.accepted());
        assert_eq!(events.len(), 1);
    }
    let (reply, events) = play(&mut svc, "alice", blacks[112].0, blacks[112].1);
    assert!(reply.accepted());
    assert_eq!(events.len(), 3);
    match &events[1] {
        RoomEvent::MatchOver { winner, reason, .. } => {
            assert_eq!(*winner, None);
            assert_eq!(*reason, OverReason::BoardFull);
        }
        _ => panic!("expected match.over"),
    }
}

#[test]
fn is_win_counts_lines_in_four_directions() {
    let mut board = vec![0u8; CELL_COUNT];
    for k in 0..5usize {
        board[(2 + k) * 15 + (10 - k)] = 2;
    }
    assert!(is_win(&board, 4, 8, 2));
    assert!(!is_win(&board, 4, 8, 1));
    let mut board = vec![0u8; CELL_COUNT];
    for k in 0..4usize {
        board[k * 15 + 14] = 1;
    }
    assert!(!is_win(&board, 0, 14, 1));
    board[4 * 15 + 14] = 1;
    assert!(is_win(&board, 4, 14, 1));
}

#[test]
fn match_play_flips_turn() {
    let mut m = Match::new(9);
    assert_eq!(m.turn, Color::Black);
    assert_eq!(m.play(Coord { row: 0, col: 0 }), Outcome::Continue);
    assert_eq!(m.turn, Color::White);
    assert_eq!(m.board[0], 1);
    assert_eq!(m.moves.len(), 1);
    assert_eq!(Color::Black.other(), Color::White);
    assert_eq!(Color::White.other(), Color::Black);
}

#[test]
fn reconnecting_member_gets_room_snapshot() {
    let mut svc = RoomService::default();
    let (room_id, _) = svc.create_room("alice", "t".to_string());
    let snap = svc.resume_snapshot("alice").unwrap();
    assert_eq!(parse_room_id(&snap.room_id), Some(room_id));
    assert!(svc.resume_snapshot("bob").is_none());
}
