//! Properties of the room service that hold in every reachable state, and
//! what its operations guarantee about the events a match produces.

use vstd::prelude::*;

use crate::board::{alternates, five_through, replay, Coord, CELL_COUNT};
use crate::rooms::{
    is_snapshot_of, leave_ends_match, move_rejection, over_event, MoveReject, OverReason, lemma_drop_name, moved_room, names, seat_is, seat_ready,
    seated_room, Room, RoomEvent, RoomService, RoomState, SeatKind,
};
use crate::session::left_with_broadcast;

verus! {

/// A user is a member of at most one room, and the user index names that room.
pub proof fn lemma_one_room_per_user(svc: RoomService, u: Seq<char>, a: u128, b: u128)
    requires
        svc.wf(),
        svc.rooms().contains_key(a),
        svc.rooms().contains_key(b),
        svc.rooms()[a].has_member(u),
        svc.rooms()[b].has_member(u),
    ensures
        a == b,
        svc.index().contains_key(u),
        svc.index()[u] == a,
{
}

/// A room plays exactly when it has a match, and then both seats are taken
/// by players who are ready.
pub proof fn lemma_playing_iff_match(svc: RoomService, id: u128)
    requires
        svc.wf(),
        svc.rooms().contains_key(id),
    ensures
        (svc.rooms()[id].state == RoomState::Playing) == svc.rooms()[id].current_match.is_some(),
        svc.rooms()[id].state == RoomState::Playing ==> seat_ready(svc.rooms()[id].seats.black)
            && seat_ready(svc.rooms()[id].seats.white),
{
}

/// The board of every active match is the replay of its moves, whose colors
/// alternate from Black, and fewer than 225 moves have been played.
pub proof fn lemma_match_replays_moves(svc: RoomService, id: u128)
    requires
        svc.wf(),
        svc.rooms().contains_key(id),
        svc.rooms()[id].current_match.is_some(),
    ensures
        svc.rooms()[id].current_match.unwrap().board@ == replay(
            svc.rooms()[id].current_match.unwrap().moves@,
        ),
        alternates(svc.rooms()[id].current_match.unwrap().moves@),
        svc.rooms()[id].current_match.unwrap().moves@.len() < CELL_COUNT,
{
}

/// A move that ends the match yields `match.moved`, then `match.over`, then
/// one snapshot of the room waiting with both ready flags cleared; a move that
/// does not end it yields `match.moved` alone.
pub proof fn lemma_move_event_order(room: Room, coord: Coord, after: Room, events: Seq<RoomEvent>)
    requires
        moved_room(room, coord, after, events),
    ensures
        events[0] is MatchMoved,
        events.len() == 1 || events.len() == 3,
        events.len() == 3 ==> {
            &&& events[1] is MatchOver
            &&& is_snapshot_of(events[2], after)
            &&& after.state == RoomState::Waiting
            &&& !seat_ready(after.seats.black)
            &&& !seat_ready(after.seats.white)
        },
{
}

/// Taking the seat one already holds changes nothing but clearing one's
/// ready flag.
pub proof fn lemma_retake_own_seat(room: Room, u: Seq<char>, kind: SeatKind, after: Room)
    requires
        room.wf(),
        kind == SeatKind::Black && seat_is(room.seats.black, u) || kind == SeatKind::White
            && seat_is(room.seats.white, u),
        seated_room(room, u, kind, after),
    ensures
        after.room_id == room.room_id,
        after.title == room.title,
        after.state == room.state,
        after.current_match == room.current_match,
        names(after.spectators@) == names(room.spectators@),
        kind == SeatKind::Black ==> after.seats.white == room.seats.white && seat_is(
            after.seats.black,
            u,
        ) && !seat_ready(after.seats.black),
        kind == SeatKind::White ==> after.seats.black == room.seats.black && seat_is(
            after.seats.white,
            u,
        ) && !seat_ready(after.seats.white),
{
    lemma_drop_name(names(room.spectators@), u);
}


/// For the player to move, the corner cells (0, 0) and (14, 14) of an empty
/// board are accepted, and (-1, 0), (15, 0) and (0, 15) are out of range.
pub proof fn lemma_board_bounds(room: Room, u: Seq<char>)
    requires
        room.current_match.is_some(),
        seat_is(room.seats.seat(room.current_match.unwrap().turn), u),
        room.current_match.unwrap().board@ == crate::board::empty_board(),
    ensures
        move_rejection(room, u, Coord { row: 0, col: 0 }).is_none(),
        move_rejection(room, u, Coord { row: 14, col: 14 }).is_none(),
        move_rejection(room, u, Coord { row: -1i32, col: 0 }) == Some(MoveReject::OutOfRange),
        move_rejection(room, u, Coord { row: 15, col: 0 }) == Some(MoveReject::OutOfRange),
        move_rejection(room, u, Coord { row: 0, col: 15 }) == Some(MoveReject::OutOfRange),
{
}

/// The move that fills the board without making five in a row ends the
/// match as a draw because the board is full.
pub proof fn lemma_full_board_draw(room: Room, coord: Coord, after: Room, events: Seq<RoomEvent>)
    requires
        room.current_match.is_some(),
        room.current_match.unwrap().moves@.len() + 1 == CELL_COUNT,
        !five_through(
            room.current_match.unwrap().board@.update(coord.index(), room.current_match.unwrap().turn.stone()),
            coord.row as int,
            coord.col as int,
            room.current_match.unwrap().turn.stone(),
        ),
        moved_room(room, coord, after, events),
    ensures
        events.len() == 3,
        events[1] == (RoomEvent::MatchOver {
            match_id: room.current_match.unwrap().match_id,
            winner: None,
            reason: OverReason::BoardFull,
        }),
        after.state == RoomState::Waiting,
{
    let m = room.current_match.unwrap();
    assert(events[1] == over_event(m.match_id, m.turn, crate::board::Outcome::BoardFull));
}

/// A snapshot event showing a waiting room whose seated players are not ready.
pub open spec fn waiting_snapshot(e: RoomEvent) -> bool {
    match e {
        RoomEvent::Snapshot(s) => {
            &&& s.state == RoomState::Waiting
            &&& s.seats.black.is_some() ==> !s.seats.black.unwrap().ready
            &&& s.seats.white.is_some() ==> !s.seats.white.unwrap().ready
        },
        _ => false,
    }
}

/// A seated player leaving a match in progress makes the remaining
/// participants receive `match.over`, then exactly one snapshot of the room
/// waiting with both ready flags cleared.
pub proof fn lemma_leave_event_order(
    old: RoomService,
    new: RoomService,
    u: Seq<char>,
    events: Seq<RoomEvent>,
    d: Seq<(Seq<char>, int)>,
)
    requires
        old.wf(),
        old.index().contains_key(u),
        leave_ends_match(old.rooms()[old.index()[u]], u),
        left_with_broadcast(old, new, u, events, d),
    ensures
        events.len() == 2,
        events[0] is MatchOver,
        waiting_snapshot(events[1]),
{
    let lr = choose|lr: Option<(crate::rooms::RoomSnapshot, Vec<RoomEvent>)>|
        {
            &&& #[trigger] crate::rooms::leave_room_result(old, new, u, lr)
            &&& lr.is_some()
            &&& events == lr.unwrap().1@.push(RoomEvent::Snapshot(lr.unwrap().0))
            &&& crate::session::broadcast(new, old.index()[u], events, d)
        };
    let room = old.rooms()[old.index()[u]];
    let after = choose|after: Room|
        {
            &&& #[trigger] crate::rooms::left_room(room, u, after)
            &&& lr.unwrap().0.describes(after)
            &&& if after.is_vacant() {
                new.rooms() == old.rooms().remove(old.index()[u])
            } else {
                new.rooms() == old.rooms().insert(old.index()[u], after)
            }
        };
    assert(events[1] == RoomEvent::Snapshot(lr.unwrap().0));
}

} // verus!
