//! The socket envelope protocol: request types, what to do with an inbound
//! frame, response types, the wire names of events and values, and where a
//! client's access token is read from.

use vstd::prelude::*;

use crate::board::Color;
use crate::rooms::{MoveReject, OverReason, RoomEvent, RoomState, SeatKind};

verus! {

/// The protocol version this server speaks.
pub const PROTOCOL_VERSION: u32 = 1;

/// Close code sent to a socket evicted by a newer session of the same user.
pub const KICK_CLOSE_CODE: u16 = 4001;

/// Reason carried by the eviction event and close frame.
pub const KICK_REASON: &'static str = "single_session";

/// Inbound request types.
#[derive(Debug, Clone, Copy, PartialEq, Eq, Structural)]
pub enum RequestKind {
    RoomCreate,
    RoomJoin,
    RoomLeave,
    RoomTakeSeat,
    RoomReady,
    MatchMove,
}

pub open spec fn spec_request_kind(t: Seq<char>) -> Option<RequestKind> {
    if t == "room.create"@ {
        Some(RequestKind::RoomCreate)
    } else if t == "room.join"@ {
        Some(RequestKind::RoomJoin)
    } else if t == "room.leave"@ {
        Some(RequestKind::RoomLeave)
    } else if t == "room.takeSeat"@ {
        Some(RequestKind::RoomTakeSeat)
    } else if t == "room.ready"@ {
        Some(RequestKind::RoomReady)
    } else if t == "match.move"@ {
        Some(RequestKind::MatchMove)
    } else {
        None
    }
}

pub open spec fn spec_seat_kind(t: Seq<char>) -> Option<SeatKind> {
    if t == "black"@ {
        Some(SeatKind::Black)
    } else if t == "white"@ {
        Some(SeatKind::White)
    } else if t == "spectator"@ {
        Some(SeatKind::Spectator)
    } else {
        None
    }
}

fn text_eq(a: &str, b: &str) -> (r: bool)
    ensures
        r == (a@ == b@),
{
    a.to_owned() == b.to_owned()
}

/// The request kind of an inbound `type`; unknown types have none.
pub fn request_kind(ty: &str) -> (r: Option<RequestKind>)
    ensures
        r == spec_request_kind(ty@),
{
    if text_eq(ty, "room.create") {
        Some(RequestKind::RoomCreate)
    } else if text_eq(ty, "room.join") {
        Some(RequestKind::RoomJoin)
    } else if text_eq(ty, "room.leave") {
        Some(RequestKind::RoomLeave)
    } else if text_eq(ty, "room.takeSeat") {
        Some(RequestKind::RoomTakeSeat)
    } else if text_eq(ty, "room.ready") {
        Some(RequestKind::RoomReady)
    } else if text_eq(ty, "match.move") {
        Some(RequestKind::MatchMove)
    } else {
        None
    }
}

/// The seat a `room.takeSeat` payload names.
pub fn seat_kind(s: &str) -> (r: Option<SeatKind>)
    ensures
        r == spec_seat_kind(s@),
{
    if text_eq(s, "black") {
        Some(SeatKind::Black)
    } else if text_eq(s, "white") {
        Some(SeatKind::White)
    } else if text_eq(s, "spectator") {
        Some(SeatKind::Spectator)
    } else {
        None
    }
}

/// The plain-text keep-alive frame is answered with `"pong"`.
pub fn is_ping(text: &str) -> (r: bool)
    ensures
        r == (text@ == "ping"@),
{
    text_eq(text, "ping")
}

/// What to do with an inbound text frame.
#[derive(Debug, Clone, Copy, PartialEq, Eq, Structural)]
pub enum FrameAction {
    /// Hand the envelope to the dispatcher.
    Dispatch,
    /// Ignore the frame.
    Drop,
    /// Answer with a `bad_request` error-response.
    Reject,
}

/// Decides on a frame: `version` is the envelope's `v` when the frame parsed
/// as an envelope, and `has_req_id` whether it carries a `reqId`. Frames of
/// another version, or that do not parse, are dropped unless they carry a
/// `reqId`.
pub fn frame_action(version: Option<u32>, has_req_id: bool) -> (r: FrameAction)
    ensures
        version == Some(PROTOCOL_VERSION) ==> r == FrameAction::Dispatch,
        version != Some(PROTOCOL_VERSION) && has_req_id ==> r == FrameAction::Reject,
        version != Some(PROTOCOL_VERSION) && !has_req_id ==> r == FrameAction::Drop,
{
    match version {
        Some(v) => {
            if v == PROTOCOL_VERSION {
                FrameAction::Dispatch
            } else if has_req_id {
                FrameAction::Reject
            } else {
                FrameAction::Drop
            }
        },
        None => {
            if has_req_id {
                FrameAction::Reject
            } else {
                FrameAction::Drop
            }
        },
    }
}

/// The `type` of the response to a request of type `ty`.
pub fn response_type(ty: &str) -> (r: String)
    ensures
        r@ == ty@ + ".resp"@,
{
    let mut r = ty.to_owned();
    r.append(".resp");
    r
}

pub open spec fn color_text(c: Color) -> Seq<char> {
    match c {
        Color::Black => "black"@,
        Color::White => "white"@,
    }
}

/// The wire name of a color.
pub fn color_name(c: Color) -> (r: &'static str)
    ensures
        r@ == color_text(c),
{
    match c {
        Color::Black => "black",
        Color::White => "white",
    }
}

pub open spec fn result_text(winner: Option<Color>) -> Seq<char> {
    match winner {
        Some(Color::Black) => "black_win"@,
        Some(Color::White) => "white_win"@,
        None => "draw"@,
    }
}

/// The `result` of a `match.over` event with this winner.
pub fn result_name(winner: Option<Color>) -> (r: &'static str)
    ensures
        r@ == result_text(winner),
{
    match winner {
        Some(Color::Black) => "black_win",
        Some(Color::White) => "white_win",
        None => "draw",
    }
}

pub open spec fn reason_text(reason: OverReason) -> Seq<char> {
    match reason {
        OverReason::FiveInARow => "five_in_a_row"@,
        OverReason::BoardFull => "board_full"@,
        OverReason::Disconnect => "disconnect"@,
    }
}

/// The wire name of why a match ended.
pub fn reason_name(reason: OverReason) -> (r: &'static str)
    ensures
        r@ == reason_text(reason),
{
    match reason {
        OverReason::FiveInARow => "five_in_a_row",
        OverReason::BoardFull => "board_full",
        OverReason::Disconnect => "disconnect",
    }
}

pub open spec fn reject_text(reason: MoveReject) -> Seq<char> {
    match reason {
        MoveReject::NotYourTurn => "not_your_turn"@,
        MoveReject::OutOfRange => "out_of_range"@,
        MoveReject::Overlap => "overlap"@,
    }
}

/// The wire name of why a move was refused.
pub fn reject_name(reason: MoveReject) -> (r: &'static str)
    ensures
        r@ == reject_text(reason),
{
    match reason {
        MoveReject::NotYourTurn => "not_your_turn",
        MoveReject::OutOfRange => "out_of_range",
        MoveReject::Overlap => "overlap",
    }
}

pub open spec fn state_text(state: RoomState) -> Seq<char> {
    match state {
        RoomState::Waiting => "waiting"@,
        RoomState::Playing => "playing"@,
    }
}

/// The wire name of a room state.
pub fn state_name(state: RoomState) -> (r: &'static str)
    ensures
        r@ == state_text(state),
{
    match state {
        RoomState::Waiting => "waiting",
        RoomState::Playing => "playing",
    }
}

pub open spec fn event_type_text(e: RoomEvent) -> Seq<char> {
    match e {
        RoomEvent::Snapshot(_) => "room.snapshot"@,
        RoomEvent::MatchStart { .. } => "match.start"@,
        RoomEvent::MatchMoved { .. } => "match.moved"@,
        RoomEvent::MatchOver { .. } => "match.over"@,
    }
}

impl RoomEvent {
    /// The envelope `type` of the event.
    pub fn event_type(&self) -> (r: &'static str)
        ensures
            r@ == event_type_text(*self),
    {
        match self {
            RoomEvent::Snapshot(_) => "room.snapshot",
            RoomEvent::MatchStart { .. } => "match.start",
            RoomEvent::MatchMoved { .. } => "match.moved",
            RoomEvent::MatchOver { .. } => "match.over",
        }
    }
}

/// Query string of a socket upgrade.
#[derive(Debug, Clone)]
pub struct WsQuery {
    pub access_token: Option<String>,
}

/// `h` without the `"Bearer "` prefix, when it has one.
pub open spec fn spec_bearer(h: Seq<char>) -> Option<Seq<char>> {
    if h.len() >= 7 && h.subrange(0, 7) == "Bearer "@ {
        Some(h.subrange(7, h.len() as int))
    } else {
        None
    }
}

/// Relies on str::strip_prefix: the rest of `h` after `"Bearer "`, when `h`
/// starts with it.
#[verifier::external_body]
fn strip_bearer(h: &str) -> (r: Option<&str>)
    ensures
        r.is_some() == spec_bearer(h@).is_some(),
        r.is_some() ==> r.unwrap()@ == spec_bearer(h@).unwrap(),
{
    h.strip_prefix("Bearer ")
}

/// The token of an `Authorization: Bearer` header.
pub fn bearer_token(authorization: Option<&str>) -> (r: Option<String>)
    ensures
        r.is_some() == (authorization.is_some() && spec_bearer(authorization.unwrap()@).is_some()),
        r.is_some() ==> r.unwrap()@ == spec_bearer(authorization.unwrap()@).unwrap(),
{
    match authorization {
        Some(h) => match strip_bearer(h) {
            Some(t) => Some(t.to_owned()),
            None => None,
        },
        None => None,
    }
}

/// The access token of a socket upgrade: the `accessToken` query parameter,
/// else the bearer token of the `Authorization` header, else empty.
pub fn access_token(query: WsQuery, authorization: Option<&str>) -> (r: String)
    ensures
        query.access_token.is_some() ==> r == query.access_token.unwrap(),
        query.access_token.is_none() && authorization.is_some() && spec_bearer(
            authorization.unwrap()@,
        ).is_some() ==> r@ == spec_bearer(authorization.unwrap()@).unwrap(),
        query.access_token.is_none() && !(authorization.is_some() && spec_bearer(
            authorization.unwrap()@,
        ).is_some()) ==> r@.len() == 0,
{
    match query.access_token {
        Some(t) => t,
        None => match bearer_token(authorization) {
            Some(t) => t,
            None => String::new(),
        },
    }
}

} // verus!
