use gomoku_server::error::ApiError;
use gomoku_server::protocol::{
    access_token, bearer_token, color_name, frame_action, is_ping, reason_name, reject_name,
    request_kind, response_type, result_name, seat_kind, state_name, FrameAction, RequestKind,
    WsQuery,
};
use gomoku_server::rooms::{Color, MoveReject, OverReason, RoomError, RoomState, SeatKind};

#[test]
fn request_types() {
    assert_eq!(request_kind("room.create"), Some(RequestKind::RoomCreate));
    assert_eq!(request_kind("room.join"), Some(RequestKind::RoomJoin));
    assert_eq!(request_kind("room.leave"), Some(RequestKind::RoomLeave));
    assert_eq!(request_kind("room.takeSeat"), Some(RequestKind::RoomTakeSeat));
    assert_eq!(request_kind("room.ready"), Some(RequestKind::RoomReady));
    assert_eq!(request_kind("match.move"), Some(RequestKind::MatchMove));
    assert_eq!(request_kind("room.destroy"), None);
    assert_eq!(response_type("room.join"), "room.join.resp");
}

#[test]
fn seats_by_name() {
    assert_eq!(seat_kind("black"), Some(SeatKind::Black));
    assert_eq!(seat_kind("white"), Some(SeatKind::White));
    assert_eq!(seat_kind("spectator"), Some(SeatKind::Spectator));
    assert_eq!(seat_kind("red"), None);
}

#[test]
fn frames_by_version_and_req_id() {
    assert!(is_ping("ping"));
    assert!(!is_ping("pong"));
    assert_eq!(frame_action(Some(1), false), FrameAction::Dispatch);
    assert_eq!(frame_action(Some(1), true), FrameAction::Dispatch);
    assert_eq!(frame_action(Some(2), true), FrameAction::Reject);
    assert_eq!(frame_action(Some(2), false), FrameAction::Drop);
    assert_eq!(frame_action(None, true), FrameAction::Reject);
    assert_eq!(frame_action(None, false), FrameAction::Drop);
}

#[test]
fn wire_names() {
    assert_eq!(color_name(Color::Black), "black");
    assert_eq!(color_name(Color::White), "white");
    assert_eq!(result_name(Some(Color::Black)), "black_win");
    assert_eq!(result_name(Some(Color::White)), "white_win");
    assert_eq!(result_name(None), "draw");
    assert_eq!(reason_name(OverReason::FiveInARow), "five_in_a_row");
    assert_eq!(reason_name(OverReason::BoardFull), "board_full");
    assert_eq!(reason_name(OverReason::Disconnect), "disconnect");
    assert_eq!(reject_name(MoveReject::NotYourTurn), "not_your_turn");
    assert_eq!(reject_name(MoveReject::OutOfRange), "out_of_range");
    assert_eq!(reject_name(MoveReject::Overlap), "overlap");
    assert_eq!(state_name(RoomState::Waiting), "waiting");
    assert_eq!(state_name(RoomState::Playing), "playing");
    assert_eq!(RoomError::SeatTaken.code_message().0, "seat_taken");
    assert_eq!(RoomError::RoomNotFound.code_message().0, "room_not_found");
    assert_eq!(ApiError::BadRequest.code_message().0, "bad_request");
}

#[test]
fn access_token_sources() {
    assert_eq!(bearer_token(Some("Bearer abc")), Some("abc".to_string()));
    assert_eq!(bearer_token(Some("Basic abc")), None);
    assert_eq!(bearer_token(None), None);
    let q = WsQuery { access_token: Some("q".to_string()) };
    assert_eq!(access_token(q, Some("Bearer h")), "q");
    let q = WsQuery { access_token: None };
    assert_eq!(access_token(q.clone(), Some("Bearer h")), "h");
    assert_eq!(access_token(q, None), "");
}
