//! What each socket request of a connected user does to the room service:
//! the reply to the requester, and the events the participants must receive,
//! each delivery naming its recipient and the event, in sending order.

use vstd::prelude::*;

use crate::rooms::{
    audience, create_room_result, is_snapshot_of, join_room_result, leave_room_result, match_move_result,
    names, set_ready_result, take_seat_result, Coord, MoveReply, RoomError, RoomEvent,
    RoomService, RoomSnapshot, SeatKind,
};

verus! {

/// One event for one user: `event` indexes the events of the outbox.
#[derive(Debug)]
pub struct Delivery {
    pub to: String,
    pub event: usize,
}

/// Events to send, and who receives which, in order.
#[derive(Debug)]
pub struct Outbox {
    pub events: Vec<RoomEvent>,
    pub deliveries: Vec<Delivery>,
}

/// The answer to the requester.
#[derive(Debug)]
pub enum Reply {
    Created { room_id: u128, room: RoomSnapshot },
    Room(RoomSnapshot),
    Left,
    Moved(MoveReply),
    Failed(RoomError),
}

/// Recipient and event index of each delivery.
pub open spec fn sent(d: Seq<Delivery>) -> Seq<(Seq<char>, int)> {
    d.map_values(|x: Delivery| (x.to@, x.event as int))
}

/// Event `event` to each of `ps`, in order.
pub open spec fn each_to(ps: Seq<Seq<char>>, event: int) -> Seq<(Seq<char>, int)> {
    ps.map_values(|p: Seq<char>| (p, event))
}

/// Events `0 .. count`, one after the other, each to all of `ps`.
pub open spec fn fan_out(ps: Seq<Seq<char>>, count: int) -> Seq<(Seq<char>, int)>
    decreases count,
{
    if count <= 0 {
        seq![]
    } else {
        fan_out(ps, count - 1) + each_to(ps, count - 1)
    }
}

/// `events` all go, one after the other, to every participant of room `id`
/// in `svc`.
pub open spec fn broadcast(svc: RoomService, id: u128, events: Seq<RoomEvent>, d: Seq<(Seq<char>, int)>) -> bool {
    exists|ps: Seq<String>| #[trigger] audience(svc, id, ps) && d == fan_out(names(ps), events.len() as int)
}

/// `u` left their room, turning `old` into `new`: the events are those of the
/// leave followed by a snapshot of the room, all sent to who remains there.
pub open spec fn left_with_broadcast(old: RoomService, new: RoomService, u: Seq<char>, events: Seq<RoomEvent>, d: Seq<(Seq<char>, int)>) -> bool {
    exists|lr: Option<(RoomSnapshot, Vec<RoomEvent>)>|
        {
            &&& #[trigger] leave_room_result(old, new, u, lr)
            &&& lr.is_some()
            &&& events == lr.unwrap().1@.push(RoomEvent::Snapshot(lr.unwrap().0))
            &&& broadcast(new, old.index()[u], events, d)
        }
}

/// A user leaving on the way to another room: nothing when not in a room.
pub open spec fn moved_out(old: RoomService, mid: RoomService, u: Seq<char>, events: Seq<RoomEvent>, d: Seq<(Seq<char>, int)>) -> bool {
    if old.index().contains_key(u) {
        left_with_broadcast(old, mid, u, events, d)
    } else {
        mid == old && events.len() == 0 && d.len() == 0
    }
}

fn send_each(out: &mut Vec<Delivery>, ps: &Vec<String>, event: usize)
    ensures
        sent(final(out)@) == sent(old(out)@) + each_to(names(ps@), event as int),
{
    let ghost start = out@;
    let mut i: usize = 0;
    while i < ps.len()
        invariant
            i <= ps@.len(),
            sent(out@) == sent(start) + each_to(names(ps@), event as int).subrange(0, i as int),
        decreases ps@.len() - i,
    {
        let ghost before = out@;
        out.push(Delivery { to: ps[i].clone(), event });
        i = i + 1;
        proof {
            assert(sent(out@) =~= sent(before).push((ps@[i - 1]@, event as int)));
            assert(each_to(names(ps@), event as int).subrange(0, i as int) =~= each_to(
                names(ps@),
                event as int,
            ).subrange(0, i - 1).push((ps@[i - 1]@, event as int)));
            assert(sent(out@) =~= sent(start) + each_to(names(ps@), event as int).subrange(0, i as int));
        }
    }
    proof {
        assert(each_to(names(ps@), event as int).subrange(0, ps@.len() as int) =~= each_to(
            names(ps@),
            event as int,
        ));
    }
}

/// Deliveries of events `0 .. count`, each to all of `ps`.
fn fan(ps: &Vec<String>, count: usize) -> (r: Vec<Delivery>)
    ensures
        sent(r@) == fan_out(names(ps@), count as int),
{
    let mut r: Vec<Delivery> = Vec::new();
    let mut k: usize = 0;
    proof {
        assert(sent(r@) =~= fan_out(names(ps@), 0));
    }
    while k < count
        invariant
            k <= count,
            sent(r@) == fan_out(names(ps@), k as int),
        decreases count - k,
    {
        send_each(&mut r, ps, k);
        k = k + 1;
    }
    r
}

/// Takes the user out of their room, with the events for who remains there;
/// nothing when the user is in no room.
pub fn leave_room_with_broadcast(rooms: &mut RoomService, username: &str) -> (r: Option<Outbox>)
    requires
        old(rooms).wf(),
    ensures
        final(rooms).wf(),
        r.is_none() == !old(rooms).index().contains_key(username@),
        r.is_none() ==> *final(rooms) == *old(rooms),
        r.is_some() ==> left_with_broadcast(
            *old(rooms),
            *final(rooms),
            username@,
            r.unwrap().events@,
            sent(r.unwrap().deliveries@),
        ),
{
    let room_id = match rooms.room_id_for_user(username) {
        Some(id) => id,
        None => {
            return None;
        },
    };
    let lr = rooms.leave_room(username);
    let ghost lr_ghost = lr;
    let (snapshot, extra) = match lr {
        Some(x) => x,
        None => {
            return None;
        },
    };
    let ps = rooms.participants(room_id);
    let mut events = extra;
    events.push(RoomEvent::Snapshot(snapshot));
    let deliveries = fan(&ps, events.len());
    proof {
        assert(audience(*rooms, room_id, ps@));
        assert(leave_room_result(*old(rooms), *rooms, username@, lr_ghost));
    }
    Some(Outbox { events, deliveries })
}

/// The room and snapshot of a `Created` reply.
pub open spec fn created_reply(r: Reply) -> Option<(u128, RoomSnapshot)> {
    match r {
        Reply::Created { room_id, room } => Some((room_id, room)),
        _ => None,
    }
}

/// The room operation result a `Room` or `Failed` reply carries.
pub open spec fn room_reply(r: Reply) -> Option<Result<RoomSnapshot, RoomError>> {
    match r {
        Reply::Room(s) => Some(Ok(s)),
        Reply::Failed(e) => Some(Err(e)),
        _ => None,
    }
}

/// Nothing to send.
pub open spec fn nothing_sent(o: Outbox) -> bool {
    o.events@.len() == 0 && o.deliveries@.len() == 0
}

/// `room.create`: leaves the current room, if any, with its broadcast; then
/// creates a room seating the user Black, whose snapshot goes to the user alone.
pub fn handle_room_create(rooms: &mut RoomService, username: &str, title: String) -> (r: (Reply, Outbox))
    requires
        old(rooms).wf(),
    ensures
        final(rooms).wf(),
        created_reply(r.0).is_some(),
        r.1.events@.len() >= 1,
        r.1.deliveries@.len() >= 1,
        exists|mid: RoomService|
            #![trigger create_room_result(mid, *final(rooms), username@, title@, created_reply(r.0).unwrap())]
            {
                let n = r.1.events@.len() as int;
                let d = sent(r.1.deliveries@);
                &&& moved_out(
                    *old(rooms),
                    mid,
                    username@,
                    r.1.events@.subrange(0, n - 1),
                    d.subrange(0, d.len() - 1),
                )
                &&& create_room_result(mid, *final(rooms), username@, title@, created_reply(r.0).unwrap())
                &&& is_snapshot_of(r.1.events@[n - 1], final(rooms).rooms()[created_reply(r.0).unwrap().0])
                &&& d[d.len() - 1] == (username@, n - 1)
            },
{
    let ghost start = *rooms;
    let mut events: Vec<RoomEvent> = Vec::new();
    let mut deliveries: Vec<Delivery> = Vec::new();
    match rooms.room_id_for_user(username) {
        Some(_) => match leave_room_with_broadcast(rooms, username) {
            Some(out) => {
                events = out.events;
                deliveries = out.deliveries;
            },
            None => {},
        },
        None => {},
    }
    let ghost mid = *rooms;
    let ghost pre_events = events@;
    let ghost pre_sent = sent(deliveries@);
    proof {
        assert(moved_out(start, mid, username@, pre_events, pre_sent));
    }
    let ghost title_view = title@;
    let (room_id, room) = rooms.create_room(username, title);
    let ghost room_g = room;
    let k = events.len();
    match rooms.snapshot(room_id) {
        Some(s) => {
            events.push(RoomEvent::Snapshot(s));
        },
        None => {},
    }
    deliveries.push(Delivery { to: username.to_owned(), event: k });
    proof {
        assert(events@.subrange(0, events@.len() - 1) =~= pre_events);
        assert(sent(deliveries@).subrange(0, sent(deliveries@).len() - 1) =~= pre_sent);
        assert(sent(deliveries@)[sent(deliveries@).len() - 1] == (username@, k as int));
    }
    let res = (Reply::Created { room_id, room }, Outbox { events, deliveries });
    proof {
        assert(created_reply(res.0) == Some((room_id, room_g)));
        assert(create_room_result(mid, *rooms, username@, title_view, created_reply(res.0).unwrap()));
    }
    res
}

/// A user leaving their room on the way to room `id`: nothing when already
/// in `id` or in no room.
pub open spec fn moved_out_to(old: RoomService, mid: RoomService, u: Seq<char>, id: u128, events: Seq<RoomEvent>, d: Seq<(Seq<char>, int)>) -> bool {
    if old.index().contains_key(u) && old.index()[u] != id {
        left_with_broadcast(old, mid, u, events, d)
    } else {
        mid == old && events.len() == 0 && d.len() == 0
    }
}

/// What `room.join` did, through `mid` once the user left another room:
/// the reply, the events, and the deliveries `d`, the join's snapshot going
/// to `ps`.
pub open spec fn join_outbox(
    old: RoomService,
    mid: RoomService,
    new: RoomService,
    u: Seq<char>,
    room_id: u128,
    reply: Reply,
    events: Seq<RoomEvent>,
    d: Seq<(Seq<char>, int)>,
    ps: Seq<String>,
) -> bool {
    let j = room_reply(reply).unwrap();
    let n = events.len() as int;
    let ne: int = if j.is_ok() { 1 } else { 0 };
    let nd: int = if j.is_ok() { ps.len() as int } else { 0 };
    &&& n >= ne
    &&& d.len() >= nd
    &&& moved_out_to(old, mid, u, room_id, events.subrange(0, n - ne), d.subrange(0, d.len() - nd))
    &&& join_room_result(mid, new, u, room_id, j)
    &&& j.is_ok() ==> {
        &&& is_snapshot_of(events[n - 1], new.rooms()[room_id])
        &&& audience(new, room_id, ps)
        &&& d.subrange(d.len() - nd, d.len() as int) == each_to(names(ps), n - 1)
    }
}

/// `room.join`: leaves another room first, with its broadcast; then joins,
/// and a snapshot of the joined room goes to all its participants.
pub fn handle_room_join(rooms: &mut RoomService, username: &str, room_id: u128) -> (r: (Reply, Outbox))
    requires
        old(rooms).wf(),
    ensures
        final(rooms).wf(),
        room_reply(r.0).is_some(),
        exists|mid: RoomService, ps: Seq<String>|
            #[trigger] join_outbox(*old(rooms), mid, *final(rooms), username@, room_id, r.0, r.1.events@, sent(r.1.deliveries@), ps),
{
    let ghost start = *rooms;
    let mut events: Vec<RoomEvent> = Vec::new();
    let mut deliveries: Vec<Delivery> = Vec::new();
    let elsewhere = match rooms.room_id_for_user(username) {
        Some(current) => current != room_id,
        None => false,
    };
    if elsewhere {
        match leave_room_with_broadcast(rooms, username) {
            Some(out) => {
                events = out.events;
                deliveries = out.deliveries;
            },
            None => {},
        }
    }
    let ghost mid = *rooms;
    let ghost pre_events = events@;
    let ghost pre_sent = sent(deliveries@);
    proof {
        assert(moved_out_to(start, mid, username@, room_id, pre_events, pre_sent));
    }
    let jr = rooms.join_room(username, room_id);
    let ghost j = jr;
    match jr {
        Ok(snapshot) => {
            let ps = rooms.participants(room_id);
            let k = events.len();
            match rooms.snapshot(room_id) {
                Some(s) => {
                    events.push(RoomEvent::Snapshot(s));
                },
                None => {},
            }
            send_each(&mut deliveries, &ps, k);
            proof {
                let d = sent(deliveries@);
                assert(events@.subrange(0, events@.len() - 1) =~= pre_events);
                assert(d.subrange(0, d.len() - ps@.len()) =~= pre_sent);
                assert(d.subrange(d.len() - ps@.len(), d.len() as int) =~= each_to(names(ps@), k as int));
                assert(audience(*rooms, room_id, ps@));
            }
            let res = (Reply::Room(snapshot), Outbox { events, deliveries });
            proof {
                assert(room_reply(res.0) == Some(j));
                assert(join_room_result(mid, *rooms, username@, room_id, room_reply(res.0).unwrap()));
                assert(audience(*rooms, room_id, ps@));
                let n = res.1.events@.len() as int;
                let d = sent(res.1.deliveries@);
                let nd = ps@.len() as int;
                assert(n >= 1);
                assert(d.len() >= nd);
                assert(moved_out_to(start, mid, username@, room_id, res.1.events@.subrange(0, n - 1), d.subrange(0, d.len() - nd)));
                assert(is_snapshot_of(res.1.events@[n - 1], rooms.rooms()[room_id]));
                assert(d.subrange(d.len() - nd, d.len() as int) == each_to(names(ps@), n - 1));
                assert(join_outbox(start, mid, *rooms, username@, room_id, res.0, res.1.events@, d, ps@));
            }
            res
        },
        Err(e) => {
            proof {
                assert(events@.subrange(0, events@.len() as int) =~= pre_events);
                assert(sent(deliveries@).subrange(0, sent(deliveries@).len() as int) =~= pre_sent);
            }
            let res = (Reply::Failed(e), Outbox { events, deliveries });
            proof {
                assert(room_reply(res.0) == Some(j));
                assert(join_room_result(mid, *rooms, username@, room_id, room_reply(res.0).unwrap()));
                let none = Seq::<String>::empty();
                assert(join_outbox(start, mid, *rooms, username@, room_id, res.0, res.1.events@, sent(res.1.deliveries@), none));
            }
            res
        },
    }
}

/// `room.leave`: fails with `not_in_room` outside a room; otherwise leaves,
/// with the broadcast to who remains.
pub fn handle_room_leave(rooms: &mut RoomService, username: &str) -> (r: (Reply, Outbox))
    requires
        old(rooms).wf(),
    ensures
        final(rooms).wf(),
        !old(rooms).index().contains_key(username@) ==> {
            &&& r.0 == Reply::Failed(RoomError::NotInRoom)
            &&& nothing_sent(r.1)
            &&& *final(rooms) == *old(rooms)
        },
        old(rooms).index().contains_key(username@) ==> {
            &&& r.0 == Reply::Left
            &&& left_with_broadcast(
                *old(rooms),
                *final(rooms),
                username@,
                r.1.events@,
                sent(r.1.deliveries@),
            )
        },
{
    match rooms.room_id_for_user(username) {
        Some(_) => {},
        None => {
            return (Reply::Failed(RoomError::NotInRoom), Outbox { events: Vec::new(), deliveries: Vec::new() });
        },
    }
    match leave_room_with_broadcast(rooms, username) {
        Some(out) => (Reply::Left, out),
        None => (Reply::Failed(RoomError::LeaveRoomFailed), Outbox { events: Vec::new(), deliveries: Vec::new() }),
    }
}

/// What `room.takeSeat` did: the seat change `ts`, answered with the room
/// and broadcast as one snapshot.
pub open spec fn seat_outbox(
    old: RoomService,
    new: RoomService,
    u: Seq<char>,
    seat: SeatKind,
    reply: Reply,
    events: Seq<RoomEvent>,
    d: Seq<(Seq<char>, int)>,
    ts: Result<(u128, RoomSnapshot), RoomError>,
) -> bool {
    &&& take_seat_result(old, new, u, seat, ts)
    &&& match ts {
        Ok((id, s)) => {
            &&& reply == Reply::Room(s)
            &&& events.len() == 1
            &&& is_snapshot_of(events[0], new.rooms()[id])
            &&& broadcast(new, id, events, d)
        },
        Err(e) => reply == Reply::Failed(e) && events.len() == 0 && d.len() == 0,
    }
}

/// `room.takeSeat`: the seat change, and a snapshot to all participants.
pub fn handle_room_take_seat(rooms: &mut RoomService, username: &str, seat: SeatKind) -> (r: (Reply, Outbox))
    requires
        old(rooms).wf(),
    ensures
        final(rooms).wf(),
        exists|ts: Result<(u128, RoomSnapshot), RoomError>|
            #[trigger] seat_outbox(*old(rooms), *final(rooms), username@, seat, r.0, r.1.events@, sent(r.1.deliveries@), ts),
{
    let ts = rooms.take_seat(username, seat);
    let ghost g = ts;
    match ts {
        Ok((id, snapshot)) => {
            let ps = rooms.participants(id);
            let mut events: Vec<RoomEvent> = Vec::new();
            match rooms.snapshot(id) {
                Some(s) => {
                    events.push(RoomEvent::Snapshot(s));
                },
                None => {},
            }
            let deliveries = fan(&ps, events.len());
            let res = (Reply::Room(snapshot), Outbox { events, deliveries });
            proof {
                assert(audience(*rooms, id, ps@));
                assert(seat_outbox(*old(rooms), *rooms, username@, seat, res.0, res.1.events@, sent(res.1.deliveries@), g));
            }
            res
        },
        Err(e) => {
            let res = (Reply::Failed(e), Outbox { events: Vec::new(), deliveries: Vec::new() });
            proof {
                assert(seat_outbox(*old(rooms), *rooms, username@, seat, res.0, res.1.events@, sent(res.1.deliveries@), g));
            }
            res
        },
    }
}

/// What `room.ready` did: the flag change `sr`, answered with the room, and
/// broadcast as a snapshot followed by `match.start` when a match started.
pub open spec fn ready_outbox(
    old: RoomService,
    new: RoomService,
    u: Seq<char>,
    ready: bool,
    reply: Reply,
    events: Seq<RoomEvent>,
    d: Seq<(Seq<char>, int)>,
    sr: Result<(u128, RoomSnapshot, Option<RoomEvent>), RoomError>,
) -> bool {
    &&& set_ready_result(old, new, u, ready, sr)
    &&& match sr {
        Ok((id, s, start)) => {
            &&& reply == Reply::Room(s)
            &&& events.len() == (if start.is_some() { 2int } else { 1int })
            &&& is_snapshot_of(events[0], new.rooms()[id])
            &&& start.is_some() ==> events[1] == start.unwrap()
            &&& broadcast(new, id, events, d)
        },
        Err(e) => reply == Reply::Failed(e) && events.len() == 0 && d.len() == 0,
    }
}

/// `room.ready`: the flag change; a snapshot, then `match.start` if a match
/// started, to all participants.
pub fn handle_room_ready(rooms: &mut RoomService, username: &str, ready: bool) -> (r: (Reply, Outbox))
    requires
        old(rooms).wf(),
    ensures
        final(rooms).wf(),
        exists|sr: Result<(u128, RoomSnapshot, Option<RoomEvent>), RoomError>|
            #[trigger] ready_outbox(*old(rooms), *final(rooms), username@, ready, r.0, r.1.events@, sent(r.1.deliveries@), sr),
{
    let sr = rooms.set_ready(username, ready);
    let ghost g = sr;
    match sr {
        Ok((id, snapshot, start)) => {
            let ps = rooms.participants(id);
            let mut events: Vec<RoomEvent> = Vec::new();
            match rooms.snapshot(id) {
                Some(s) => {
                    events.push(RoomEvent::Snapshot(s));
                },
                None => {},
            }
            match start {
                Some(evt) => {
                    events.push(evt);
                },
                None => {},
            }
            let deliveries = fan(&ps, events.len());
            let res = (Reply::Room(snapshot), Outbox { events, deliveries });
            proof {
                assert(audience(*rooms, id, ps@));
                assert(ready_outbox(*old(rooms), *rooms, username@, ready, res.0, res.1.events@, sent(res.1.deliveries@), g));
            }
            res
        },
        Err(e) => {
            let res = (Reply::Failed(e), Outbox { events: Vec::new(), deliveries: Vec::new() });
            proof {
                assert(ready_outbox(*old(rooms), *rooms, username@, ready, res.0, res.1.events@, sent(res.1.deliveries@), g));
            }
            res
        },
    }
}

/// What `match.move` did: the move `mr`, answered with its verdict, its
/// events going to all participants.
pub open spec fn move_outbox(
    old: RoomService,
    new: RoomService,
    u: Seq<char>,
    coord: Coord,
    reply: Reply,
    events: Seq<RoomEvent>,
    d: Seq<(Seq<char>, int)>,
    mr: Result<(u128, MoveReply, Vec<RoomEvent>), RoomError>,
) -> bool {
    &&& match_move_result(old, new, u, coord, mr)
    &&& match mr {
        Ok((id, verdict, evs)) => {
            &&& reply == Reply::Moved(verdict)
            &&& events == evs@
            &&& broadcast(new, id, events, d)
        },
        Err(e) => reply == Reply::Failed(e) && events.len() == 0 && d.len() == 0,
    }
}

/// `match.move`: the move, and its events to all participants.
pub fn handle_match_move(rooms: &mut RoomService, username: &str, coord: Coord) -> (r: (Reply, Outbox))
    requires
        old(rooms).wf(),
    ensures
        final(rooms).wf(),
        exists|mr: Result<(u128, MoveReply, Vec<RoomEvent>), RoomError>|
            #[trigger] move_outbox(*old(rooms), *final(rooms), username@, coord, r.0, r.1.events@, sent(r.1.deliveries@), mr),
{
    let mr = rooms.match_move(username, coord);
    let ghost g = mr;
    match mr {
        Ok((id, verdict, events)) => {
            let ps = rooms.participants(id);
            let deliveries = fan(&ps, events.len());
            let res = (Reply::Moved(verdict), Outbox { events, deliveries });
            proof {
                assert(audience(*rooms, id, ps@));
                assert(move_outbox(*old(rooms), *rooms, username@, coord, res.0, res.1.events@, sent(res.1.deliveries@), g));
            }
            res
        },
        Err(e) => {
            let res = (Reply::Failed(e), Outbox { events: Vec::new(), deliveries: Vec::new() });
            proof {
                assert(move_outbox(*old(rooms), *rooms, username@, coord, res.0, res.1.events@, sent(res.1.deliveries@), g));
            }
            res
        },
    }
}
} // verus!
