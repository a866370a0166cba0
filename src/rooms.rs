//! The room service: authoritative in-memory state of rooms, seats, ready
//! flags and the match of each room. Every operation returns the new state
//! and the events that must be broadcast; it performs no I/O.

use vstd::prelude::*;
use dashmap::DashMap;

pub use crate::board::{Color, Coord, Move};
use crate::board::{Match, Outcome, EMPTY};
use crate::auth::{trim_text, trimmed_text};
use crate::ids::{id_to_text, random_id, uuid_text};

verus! {

#[verifier::external_type_specification]
#[verifier::external_body]
#[verifier::reject_recursive_types(K)]
#[verifier::reject_recursive_types(V)]
#[verifier::reject_recursive_types(S)]
pub struct ExDashMap<K, V, S>(DashMap<K, V, S>);

/// The rooms a room table holds, by room identifier.
pub uninterp spec fn room_table(m: DashMap<u128, Room>) -> Map<u128, Room>;

/// The room identifier that a user index holds for each username.
pub uninterp spec fn user_table(m: DashMap<String, u128>) -> Map<Seq<char>, u128>;

/// Relies on DashMap::new: a new map is empty.
#[verifier::external_body]
fn new_room_table() -> (r: DashMap<u128, Room>)
    ensures
        room_table(r).dom().is_empty(),
{
    DashMap::new()
}

/// Relies on DashMap::new: a new map is empty.
#[verifier::external_body]
fn new_user_table() -> (r: DashMap<String, u128>)
    ensures
        user_table(r).dom().is_empty(),
{
    DashMap::new()
}

/// Relies on DashMap::contains_key.
#[verifier::external_body]
fn has_room(m: &DashMap<u128, Room>, id: u128) -> (r: bool)
    ensures
        r == room_table(*m).contains_key(id),
{
    m.contains_key(&id)
}

/// Relies on DashMap::remove: the entry leaves the map and its value is
/// handed back.
#[verifier::external_body]
fn take_room(m: &mut DashMap<u128, Room>, id: u128) -> (r: Option<Room>)
    ensures
        r == (if room_table(*old(m)).contains_key(id) {
            Some(room_table(*old(m))[id])
        } else {
            None::<Room>
        }),
        room_table(*final(m)) == room_table(*old(m)).remove(id),
{
    match m.remove(&id) {
        Some((_, room)) => Some(room),
        None => None,
    }
}

/// Relies on DashMap::insert: the entry for `id` becomes `room`.
#[verifier::external_body]
fn put_room(m: &mut DashMap<u128, Room>, id: u128, room: Room)
    ensures
        room_table(*final(m)) == room_table(*old(m)).insert(id, room),
{
    m.insert(id, room);
}

/// Relies on DashMap::view: `f` is applied to the room under `id`, if any.
#[verifier::external_body]
fn view_room<R, F: FnOnce(&u128, &Room) -> R>(m: &DashMap<u128, Room>, id: u128, f: F) -> (r: Option<R>)
    requires
        room_table(*m).contains_key(id) ==> f.requires((&id, &room_table(*m)[id])),
    ensures
        r.is_some() == room_table(*m).contains_key(id),
        r.is_some() ==> f.ensures((&id, &room_table(*m)[id]), r.unwrap()),
{
    m.view(&id, f)
}

/// Relies on DashMap::len: the number of entries.
#[verifier::external_body]
fn room_count(m: &DashMap<u128, Room>) -> (n: usize)
    ensures
        n == room_table(*m).len(),
{
    m.len()
}

/// Relies on DashMap::get.
#[verifier::external_body]
fn user_room_get(m: &DashMap<String, u128>, u: &str) -> (r: Option<u128>)
    ensures
        r == (if user_table(*m).contains_key(u@) {
            Some(user_table(*m)[u@])
        } else {
            None::<u128>
        }),
{
    match m.get(u) {
        Some(e) => Some(*e.value()),
        None => None,
    }
}

/// Relies on DashMap::insert: the entry for `u` becomes `id`.
#[verifier::external_body]
fn user_room_set(m: &mut DashMap<String, u128>, u: &str, id: u128)
    ensures
        user_table(*final(m)) == user_table(*old(m)).insert(u@, id),
{
    m.insert(u.to_string(), id);
}

/// Relies on DashMap::remove: the entry leaves the map and its value is
/// handed back.
#[verifier::external_body]
fn user_room_remove(m: &mut DashMap<String, u128>, u: &str) -> (r: Option<u128>)
    ensures
        r == (if user_table(*old(m)).contains_key(u@) {
            Some(user_table(*old(m))[u@])
        } else {
            None::<u128>
        }),
        user_table(*final(m)) == user_table(*old(m)).remove(u@),
{
    match m.remove(u) {
        Some((_, id)) => Some(id),
        None => None,
    }
}


/// Title given to a room whose requested title is blank.
pub const DEFAULT_TITLE: &'static str = "房间";

#[derive(Debug, Clone, Copy, PartialEq, Eq, Structural)]
pub enum RoomState {
    Waiting,
    Playing,
}

/// Where a user asks to sit.
#[derive(Debug, Clone, Copy, PartialEq, Eq, Structural)]
pub enum SeatKind {
    Black,
    White,
    Spectator,
}

/// A seated player as a snapshot shows it.
#[derive(Debug, Clone)]
pub struct SeatInfo {
    pub username: String,
    pub ready: bool,
}

#[derive(Debug, Clone)]
pub struct SeatsSnapshot {
    pub black: Option<SeatInfo>,
    pub white: Option<SeatInfo>,
}

/// Self-contained view of a room, from which a client rebuilds its state.
#[derive(Debug, Clone)]
pub struct RoomSnapshot {
    pub room_id: String,
    pub title: String,
    pub seats: SeatsSnapshot,
    pub spectators: Vec<String>,
    pub state: RoomState,
}

#[derive(Debug)]
pub struct Seat {
    pub username: String,
    pub ready: bool,
}

#[derive(Debug)]
pub struct Seats {
    pub black: Option<Seat>,
    pub white: Option<Seat>,
}

#[derive(Debug)]
pub struct Room {
    pub room_id: u128,
    pub title: String,
    pub seats: Seats,
    pub spectators: Vec<String>,
    pub state: RoomState,
    pub current_match: Option<Match>,
}

/// The usernames held in a list of strings.
pub open spec fn names(v: Seq<String>) -> Seq<Seq<char>> {
    v.map_values(|s: String| s@)
}

/// `s` with every occurrence of `u` taken out, the rest in order.
pub open spec fn drop_name(s: Seq<Seq<char>>, u: Seq<char>) -> Seq<Seq<char>> {
    s.filter(|x: Seq<char>| x != u)
}

/// The seat is occupied by `u`.
pub open spec fn seat_is(s: Option<Seat>, u: Seq<char>) -> bool {
    s.is_some() && s.unwrap().username@ == u
}

/// The seat is occupied and its player is ready.
pub open spec fn seat_ready(s: Option<Seat>) -> bool {
    s.is_some() && s.unwrap().ready
}

/// The snapshot entry shows the seat as it is.
pub open spec fn shows_seat(info: Option<SeatInfo>, s: Option<Seat>) -> bool {
    &&& info.is_some() == s.is_some()
    &&& s.is_some() ==> info.unwrap().username@ == s.unwrap().username@ && info.unwrap().ready
        == s.unwrap().ready
}

impl Seats {
    /// The color of the seat `u` occupies, if any.
    pub open spec fn color_of(self, u: Seq<char>) -> Option<Color> {
        if seat_is(self.black, u) {
            Some(Color::Black)
        } else if seat_is(self.white, u) {
            Some(Color::White)
        } else {
            None
        }
    }

    pub open spec fn seat(self, c: Color) -> Option<Seat> {
        match c {
            Color::Black => self.black,
            Color::White => self.white,
        }
    }
}

impl Room {
    pub open spec fn is_spectator(&self, u: Seq<char>) -> bool {
        names(self.spectators@).contains(u)
    }

    pub open spec fn has_member(&self, u: Seq<char>) -> bool {
        seat_is(self.seats.black, u) || seat_is(self.seats.white, u) || self.is_spectator(u)
    }

    /// Nobody is seated and nobody watches.
    pub open spec fn is_vacant(&self) -> bool {
        self.seats.black.is_none() && self.seats.white.is_none() && self.spectators@.len() == 0
    }

    /// A username holds at most one place in the room; the room plays exactly
    /// when it has a match, and then both seats are taken by ready players.
    pub open spec fn wf(&self) -> bool {
        &&& self.seats.black.is_some() && self.seats.white.is_some() ==> self.seats.black.unwrap().username@
            != self.seats.white.unwrap().username@
        &&& self.seats.black.is_some() ==> !self.is_spectator(self.seats.black.unwrap().username@)
        &&& self.seats.white.is_some() ==> !self.is_spectator(self.seats.white.unwrap().username@)
        &&& names(self.spectators@).no_duplicates()
        &&& (self.state == RoomState::Playing) == self.current_match.is_some()
        &&& self.state == RoomState::Playing ==> {
            &&& seat_ready(self.seats.black)
            &&& seat_ready(self.seats.white)
            &&& self.current_match.unwrap().wf()
        }
    }
}

impl RoomSnapshot {
    /// The snapshot shows `room` as it is.
    pub open spec fn describes(&self, room: Room) -> bool {
        &&& self.room_id@ == uuid_text(room.room_id)
        &&& self.title@ == room.title@
        &&& shows_seat(self.seats.black, room.seats.black)
        &&& shows_seat(self.seats.white, room.seats.white)
        &&& names(self.spectators@) == names(room.spectators@)
        &&& self.state == room.state
    }
}

fn copy_names(v: &Vec<String>) -> (r: Vec<String>)
    ensures
        r@ == v@,
{
    let mut r: Vec<String> = Vec::new();
    let mut i: usize = 0;
    while i < v.len()
        invariant
            i <= v@.len(),
            r@ == v@.subrange(0, i as int),
        decreases v@.len() - i,
    {
        r.push(v[i].clone());
        i = i + 1;
        proof {
            assert(r@ =~= v@.subrange(0, i as int));
        }
    }
    proof {
        assert(r@ =~= v@);
    }
    r
}

fn seat_info(s: &Option<Seat>) -> (r: Option<SeatInfo>)
    ensures
        shows_seat(r, *s),
{
    match s {
        Some(seat) => Some(SeatInfo { username: seat.username.clone(), ready: seat.ready }),
        None => None,
    }
}

fn holds_seat(s: &Option<Seat>, name: &String) -> (r: bool)
    ensures
        r == seat_is(*s, name@),
{
    match s {
        Some(seat) => seat.username == *name,
        None => false,
    }
}

fn contains_name(v: &Vec<String>, name: &String) -> (r: bool)
    ensures
        r == names(v@).contains(name@),
{
    let mut i: usize = 0;
    while i < v.len()
        invariant
            i <= v@.len(),
            forall|k: int| 0 <= k < i ==> v@[k]@ != name@,
        decreases v@.len() - i,
    {
        if v[i] == *name {
            proof {
                assert(names(v@)[i as int] == name@);
            }
            return true;
        }
        i = i + 1;
    }
    proof {
        if names(v@).contains(name@) {
            let k = choose|k: int| 0 <= k < names(v@).len() && names(v@)[k] == name@;
            assert(v@[k]@ == name@);
        }
    }
    false
}

/// `v` without `name`, the other names in order.
fn without_name(v: &Vec<String>, name: &String) -> (r: Vec<String>)
    ensures
        names(r@) == drop_name(names(v@), name@),
{
    let mut r: Vec<String> = Vec::new();
    let mut i: usize = 0;
    while i < v.len()
        invariant
            i <= v@.len(),
            names(r@) == drop_name(names(v@).subrange(0, i as int), name@),
        decreases v@.len() - i,
    {
        let ghost before = r@;
        proof {
            let pre = names(v@).subrange(0, i as int + 1);
            assert(pre.drop_last() =~= names(v@).subrange(0, i as int));
            reveal(Seq::filter);
            assert(drop_name(pre, name@) == (if pre.last() != name@ {
                drop_name(pre.drop_last(), name@).push(pre.last())
            } else {
                drop_name(pre.drop_last(), name@)
            }));
        }
        if v[i] != *name {
            r.push(v[i].clone());
            proof {
                assert(names(r@) =~= names(before).push(v@[i as int]@));
            }
        }
        i = i + 1;
    }
    proof {
        assert(names(v@).subrange(0, v@.len() as int) =~= names(v@));
    }
    r
}

impl Room {
    pub fn snapshot(&self) -> (s: RoomSnapshot)
        ensures
            s.describes(*self),
    {
        RoomSnapshot {
            room_id: id_to_text(self.room_id),
            title: self.title.clone(),
            seats: SeatsSnapshot {
                black: seat_info(&self.seats.black),
                white: seat_info(&self.seats.white),
            },
            spectators: copy_names(&self.spectators),
            state: self.state,
        }
    }
}


/// The title a room gets for a requested title that has been trimmed.
pub open spec fn title_for(trimmed: Seq<char>) -> Seq<char> {
    if trimmed.len() == 0 {
        DEFAULT_TITLE@
    } else {
        trimmed
    }
}

/// The title of a new room: the trimmed request, or the default when blank.
pub fn room_title(trimmed: &str) -> (r: String)
    ensures
        r@ == title_for(trimmed@),
{
    if trimmed.is_empty() {
        DEFAULT_TITLE.to_owned()
    } else {
        trimmed.to_owned()
    }
}

fn snapshot_entry(_id: &u128, room: &Room) -> (s: RoomSnapshot)
    ensures
        s.describes(*room),
{
    room.snapshot()
}


/// Membership in `drop_name(s, u)`, and no name twice there if none was twice in `s`.
pub proof fn lemma_drop_name(s: Seq<Seq<char>>, u: Seq<char>)
    ensures
        forall|x: Seq<char>| #[trigger] drop_name(s, u).contains(x) <==> s.contains(x) && x != u,
        s.no_duplicates() ==> drop_name(s, u).no_duplicates(),
        !s.contains(u) ==> drop_name(s, u) == s,
    decreases s.len(),
{
    reveal(Seq::filter);
    if s.len() > 0 {
        let rest = s.drop_last();
        lemma_drop_name(rest, u);
        assert forall|x: Seq<char>| s.contains(x) <==> rest.contains(x) || x == s.last() by {
            if s.contains(x) {
                let k = choose|k: int| 0 <= k < s.len() && s[k] == x;
                if k < s.len() - 1 {
                    assert(rest[k] == x);
                }
            }
            if rest.contains(x) {
                let k = choose|k: int| 0 <= k < rest.len() && rest[k] == x;
                assert(s[k] == x);
            }
            if x == s.last() {
                assert(s[s.len() - 1] == x);
            }
        }
        let d = drop_name(rest, u);
        if s.last() != u {
            assert(drop_name(s, u) == d.push(s.last()));
            assert forall|x: Seq<char>| #[trigger] d.push(s.last()).contains(x) <==> d.contains(x) || x == s.last() by {
                if d.push(s.last()).contains(x) {
                    let k = choose|k: int| 0 <= k < d.len() + 1 && d.push(s.last())[k] == x;
                    if k < d.len() {
                        assert(d[k] == x);
                    }
                }
                if d.contains(x) {
                    let k = choose|k: int| 0 <= k < d.len() && d[k] == x;
                    assert(d.push(s.last())[k] == x);
                }
                if x == s.last() {
                    assert(d.push(s.last())[d.len() as int] == x);
                }
            }
            if s.no_duplicates() {
                assert(rest.no_duplicates()) by {
                    assert forall|i: int, j: int| 0 <= i < rest.len() && 0 <= j < rest.len() && i != j implies rest[i] != rest[j] by {
                        assert(s[i] == rest[i] && s[j] == rest[j]);
                    }
                }
                assert(!rest.contains(s.last())) by {
                    if rest.contains(s.last()) {
                        let k = choose|k: int| 0 <= k < rest.len() && rest[k] == s.last();
                        assert(s[k] == s[s.len() - 1]);
                    }
                }
                assert forall|i: int, j: int| 0 <= i < d.len() + 1 && 0 <= j < d.len() + 1 && i != j implies d.push(s.last())[i] != d.push(s.last())[j] by {
                    if i == d.len() {
                        assert(d.contains(d[j]));
                    } else if j == d.len() {
                        assert(d.contains(d[i]));
                    }
                }
            }
            if !s.contains(u) {
                assert(d == rest);
                assert(d.push(s.last()) =~= s);
            }
        } else {
            assert(drop_name(s, u) == d);
            assert(s.contains(u)) by {
                assert(s[s.len() - 1] == u);
            }
            if s.no_duplicates() {
                assert forall|i: int, j: int| 0 <= i < rest.len() && 0 <= j < rest.len() && i != j implies rest[i] != rest[j] by {
                    assert(s[i] == rest[i] && s[j] == rest[j]);
                }
            }
        }
    }
}

/// The seat with `u` taken out of it.
pub open spec fn vacated(s: Option<Seat>, u: Seq<char>) -> Option<Seat> {
    if seat_is(s, u) {
        None
    } else {
        s
    }
}

/// The seat with its ready flag cleared.
pub open spec fn unready(s: Option<Seat>) -> Option<Seat> {
    match s {
        Some(x) => Some(Seat { username: x.username, ready: false }),
        None => None,
    }
}

/// The color whose seat alone stays occupied, if exactly one does.
pub open spec fn survivor(black: Option<Seat>, white: Option<Seat>) -> Option<Color> {
    if black.is_some() && white.is_none() {
        Some(Color::Black)
    } else if white.is_some() && black.is_none() {
        Some(Color::White)
    } else {
        None
    }
}

/// Leaving ends the match of `room`: it plays and `u` is seated.
pub open spec fn leave_ends_match(room: Room, u: Seq<char>) -> bool {
    room.state == RoomState::Playing && room.seats.color_of(u).is_some()
}

/// The black seat of `room` once `u` has left.
pub open spec fn black_after_leave(room: Room, u: Seq<char>) -> Option<Seat> {
    if leave_ends_match(room, u) {
        unready(vacated(room.seats.black, u))
    } else {
        vacated(room.seats.black, u)
    }
}

/// The white seat of `room` once `u` has left.
pub open spec fn white_after_leave(room: Room, u: Seq<char>) -> Option<Seat> {
    if leave_ends_match(room, u) {
        unready(vacated(room.seats.white, u))
    } else {
        vacated(room.seats.white, u)
    }
}

/// `after` is `room` once `u` has left it.
pub open spec fn left_room(room: Room, u: Seq<char>, after: Room) -> bool {
    &&& after.room_id == room.room_id
    &&& after.title == room.title
    &&& after.seats.black == black_after_leave(room, u)
    &&& after.seats.white == white_after_leave(room, u)
    &&& names(after.spectators@) == drop_name(names(room.spectators@), u)
    &&& after.state == (if leave_ends_match(room, u) {
        RoomState::Waiting
    } else {
        room.state
    })
    &&& after.current_match == (if leave_ends_match(room, u) {
        None
    } else {
        room.current_match
    })
}

/// The events that leaving `room` produces.
pub open spec fn leave_events(room: Room, u: Seq<char>) -> Seq<RoomEvent> {
    if leave_ends_match(room, u) {
        seq![
            RoomEvent::MatchOver {
                match_id: room.current_match.unwrap().match_id,
                winner: survivor(black_after_leave(room, u), white_after_leave(room, u)),
                reason: OverReason::Disconnect,
            },
        ]
    } else {
        seq![]
    }
}

/// `after` is `room` with `u` appended to the spectators.
pub open spec fn joined_room(room: Room, u: Seq<char>, after: Room) -> bool {
    &&& after.room_id == room.room_id
    &&& after.title == room.title
    &&& after.seats == room.seats
    &&& names(after.spectators@) == names(room.spectators@).push(u)
    &&& after.state == room.state
    &&& after.current_match == room.current_match
}

fn clear_ready(s: &mut Option<Seat>)
    ensures
        *final(s) == unready(*old(s)),
{
    match s {
        Some(x) => {
            x.ready = false;
        },
        None => {},
    }
}


/// Every room is well formed, keyed by its own identifier and occupied; a
/// user belongs to a room exactly when the index maps the user to it.
pub open spec fn coherent(rooms: Map<u128, Room>, index: Map<Seq<char>, u128>) -> bool {
    &&& rooms.dom().finite()
    &&& forall|id: u128| #[trigger]
        rooms.contains_key(id) ==> {
            &&& rooms[id].wf()
            &&& rooms[id].room_id == id
            &&& !rooms[id].is_vacant()
        }
    &&& forall|u: Seq<char>| #[trigger]
        index.contains_key(u) ==> {
            &&& rooms.contains_key(index[u])
            &&& rooms[index[u]].has_member(u)
        }
    &&& forall|u: Seq<char>, id: u128|
        rooms.contains_key(id) && #[trigger] rooms[id].has_member(u) ==> {
            &&& index.contains_key(u)
            &&& index[u] == id
        }
}

/// Replacing a room by a well-formed one with the same members keeps the
/// service coherent.
pub proof fn lemma_same_members(
    rooms: Map<u128, Room>,
    index: Map<Seq<char>, u128>,
    id: u128,
    after: Room,
)
    requires
        coherent(rooms, index),
        rooms.contains_key(id),
        after.wf(),
        after.room_id == id,
        forall|x: Seq<char>| #[trigger] after.has_member(x) == rooms[id].has_member(x),
    ensures
        coherent(rooms.insert(id, after), index),
{
    let r2 = rooms.insert(id, after);
    assert(!after.is_vacant()) by {
        let before = rooms[id];
        let x = if before.seats.black.is_some() {
            before.seats.black.unwrap().username@
        } else if before.seats.white.is_some() {
            before.seats.white.unwrap().username@
        } else {
            before.spectators@[0]@
        };
        if before.seats.black.is_none() && before.seats.white.is_none() {
            assert(names(before.spectators@)[0] == x);
        }
        assert(before.has_member(x));
        assert(after.has_member(x));
        if after.is_spectator(x) {
            assert(names(after.spectators@).len() > 0);
        }
    }
    assert forall|u: Seq<char>, k: u128| r2.contains_key(k) && #[trigger] r2[k].has_member(u) implies {
        &&& index.contains_key(u)
        &&& index[u] == k
    } by {
        assert(rooms[k].has_member(u));
    }
    assert forall|u: Seq<char>| #[trigger] index.contains_key(u) implies {
        &&& r2.contains_key(index[u])
        &&& r2[index[u]].has_member(u)
    } by {
        assert(rooms[index[u]].has_member(u));
    }
}


/// The seat with its ready flag set to `ready`.
pub open spec fn with_ready(s: Option<Seat>, ready: bool) -> Option<Seat> {
    match s {
        Some(x) => Some(Seat { username: x.username, ready }),
        None => None,
    }
}

fn set_ready_flag(s: &mut Option<Seat>, ready: bool)
    ensures
        *final(s) == with_ready(*old(s), ready),
{
    match s {
        Some(x) => {
            x.ready = ready;
        },
        None => {},
    }
}

/// The seat `kind` names is held by someone other than `u`.
pub open spec fn taken_by_other(room: Room, u: Seq<char>, kind: SeatKind) -> bool {
    match kind {
        SeatKind::Black => room.seats.black.is_some() && !seat_is(room.seats.black, u),
        SeatKind::White => room.seats.white.is_some() && !seat_is(room.seats.white, u),
        SeatKind::Spectator => false,
    }
}

/// `after` is `room` once `u` has left their place and taken the place `kind`,
/// not ready.
pub open spec fn seated_room(room: Room, u: Seq<char>, kind: SeatKind, after: Room) -> bool {
    &&& after.room_id == room.room_id
    &&& after.title == room.title
    &&& after.state == room.state
    &&& after.current_match == room.current_match
    &&& if kind == SeatKind::Black {
        seat_is(after.seats.black, u) && !seat_ready(after.seats.black)
    } else {
        after.seats.black == vacated(room.seats.black, u)
    }
    &&& if kind == SeatKind::White {
        seat_is(after.seats.white, u) && !seat_ready(after.seats.white)
    } else {
        after.seats.white == vacated(room.seats.white, u)
    }
    &&& names(after.spectators@) == if kind == SeatKind::Spectator {
        drop_name(names(room.spectators@), u).push(u)
    } else {
        drop_name(names(room.spectators@), u)
    }
}

/// Both seats are taken by ready players.
pub open spec fn all_ready(seats: Seats) -> bool {
    seat_ready(seats.black) && seat_ready(seats.white)
}

/// `after` is `room` once `u`, seated, has set their ready flag to `ready`,
/// and the match has started if both players are then ready.
pub open spec fn readied_room(room: Room, u: Seq<char>, ready: bool, after: Room) -> bool {
    let black = if seat_is(room.seats.black, u) {
        with_ready(room.seats.black, ready)
    } else {
        room.seats.black
    };
    let white = if seat_is(room.seats.white, u) {
        with_ready(room.seats.white, ready)
    } else {
        room.seats.white
    };
    &&& after.room_id == room.room_id
    &&& after.title == room.title
    &&& after.seats.black == black
    &&& after.seats.white == white
    &&& after.spectators == room.spectators
    &&& if seat_ready(black) && seat_ready(white) {
        &&& after.state == RoomState::Playing
        &&& after.current_match.is_some()
        &&& after.current_match.unwrap().turn == Color::Black
        &&& after.current_match.unwrap().moves@.len() == 0
        &&& after.current_match.unwrap().board@ == crate::board::empty_board()
    } else {
        &&& after.state == RoomState::Waiting
        &&& after.current_match.is_none()
    }
}

/// Why the move `u` asks for at `coord` is refused, if it is.
pub open spec fn move_rejection(room: Room, u: Seq<char>, coord: Coord) -> Option<MoveReject> {
    let m = room.current_match.unwrap();
    if !seat_is(room.seats.seat(m.turn), u) {
        Some(MoveReject::NotYourTurn)
    } else if !coord.on_board() {
        Some(MoveReject::OutOfRange)
    } else if m.board@[coord.index()] != EMPTY {
        Some(MoveReject::Overlap)
    } else {
        None
    }
}

/// The `match.over` event for a match that `out` ended, `color` having moved last.
pub open spec fn over_event(match_id: u128, color: Color, out: Outcome) -> RoomEvent {
    RoomEvent::MatchOver {
        match_id,
        winner: if out == Outcome::FiveInARow {
            Some(color)
        } else {
            None
        },
        reason: if out == Outcome::FiveInARow {
            OverReason::FiveInARow
        } else {
            OverReason::BoardFull
        },
    }
}

/// The event is a snapshot that shows `room`.
pub open spec fn is_snapshot_of(e: RoomEvent, room: Room) -> bool {
    match e {
        RoomEvent::Snapshot(s) => s.describes(room),
        _ => false,
    }
}

/// `after` and `events` are what an accepted move at `coord` makes of `room`.
pub open spec fn moved_room(room: Room, coord: Coord, after: Room, events: Seq<RoomEvent>) -> bool {
    let m = room.current_match.unwrap();
    let mv = Move { color: m.turn, coord };
    let board = m.board@.update(coord.index(), m.turn.stone());
    let out = crate::board::outcome_of(board, coord, m.turn, m.moves@.len() + 1 as int);
    &&& after.room_id == room.room_id
    &&& after.title == room.title
    &&& after.spectators == room.spectators
    &&& events.len() >= 1
    &&& events[0] == RoomEvent::MatchMoved { match_id: m.match_id, mv, turn: m.turn.opposite() }
    &&& if out == Outcome::Continue {
        &&& events.len() == 1
        &&& after.state == RoomState::Playing
        &&& after.seats == room.seats
        &&& after.current_match.is_some()
        &&& after.current_match.unwrap().match_id == m.match_id
        &&& after.current_match.unwrap().moves@ == m.moves@.push(mv)
        &&& after.current_match.unwrap().board@ == board
        &&& after.current_match.unwrap().turn == m.turn.opposite()
    } else {
        &&& events.len() == 3
        &&& events[1] == over_event(m.match_id, m.turn, out)
        &&& is_snapshot_of(events[2], after)
        &&& after.state == RoomState::Waiting
        &&& after.current_match.is_none()
        &&& after.seats.black == unready(room.seats.black)
        &&& after.seats.white == unready(room.seats.white)
    }
}


/// Order of texts by character codes, a prefix first; for UTF-8 strings this
/// is the order of their bytes.
pub open spec fn text_le(a: Seq<char>, b: Seq<char>) -> bool
    decreases a.len(),
{
    if a.len() == 0 {
        true
    } else if b.len() == 0 {
        false
    } else if a[0] != b[0] {
        (a[0] as u32) < (b[0] as u32)
    } else {
        text_le(a.drop_first(), b.drop_first())
    }
}

pub open spec fn sorted_texts(s: Seq<Seq<char>>) -> bool {
    forall|i: int, j: int| 0 <= i < j < s.len() ==> text_le(#[trigger] s[i], #[trigger] s[j])
}

/// Relies on slice::sort over String, whose order compares the bytes
/// lexicographically: the same strings, in ascending order.
#[verifier::external_body]
fn sort_texts(v: &mut Vec<String>)
    ensures
        final(v)@.to_multiset() == old(v)@.to_multiset(),
        sorted_texts(names(final(v)@)),
{
    v.sort();
}

/// The name in a seat, as a list of zero or one names.
pub open spec fn seat_names(s: Option<Seat>) -> Seq<String> {
    match s {
        Some(x) => seq![x.username],
        None => seq![],
    }
}

/// Everyone in the room: the black player, the white player, then the spectators.
pub open spec fn member_strings(room: Room) -> Seq<String> {
    seat_names(room.seats.black) + seat_names(room.seats.white) + room.spectators@
}


/// The members of a well-formed room are distinct.
pub proof fn lemma_members_distinct(room: Room)
    requires
        room.wf(),
    ensures
        names(member_strings(room)).no_duplicates(),
{
    let m = member_strings(room);
    let seats = seat_names(room.seats.black) + seat_names(room.seats.white);
    let k = seats.len() as int;
    assert(m == seats + room.spectators@);
    assert forall|i: int, j: int| 0 <= i < m.len() && 0 <= j < m.len() && i != j implies names(m)[i] != names(m)[j] by {
        assert(names(m)[i] == m[i]@ && names(m)[j] == m[j]@);
        if i >= k && j >= k {
            assert(m[i] == room.spectators@[i - k] && m[j] == room.spectators@[j - k]);
            assert(names(room.spectators@)[i - k] == m[i]@);
            assert(names(room.spectators@)[j - k] == m[j]@);
        } else if i < k && j < k {
            assert(room.seats.black.is_some() && room.seats.white.is_some());
            assert(seats =~= seq![room.seats.black.unwrap().username, room.seats.white.unwrap().username]);
        } else {
            let (s, t) = if i < k { (i, j) } else { (j, i) };
            assert(m[t] == room.spectators@[t - k]);
            assert(names(room.spectators@)[t - k] == m[t]@);
            assert(room.is_spectator(m[t]@));
            if room.seats.black.is_some() && s == 0 {
                assert(m[s] == room.seats.black.unwrap().username);
            } else {
                assert(m[s] == room.seats.white.unwrap().username);
            }
        }
    }
}

/// A list with the same elements as a list of distinct names has distinct
/// names.
pub proof fn lemma_permutation_distinct(a: Seq<String>, b: Seq<String>)
    requires
        a.to_multiset() == b.to_multiset(),
        names(b).no_duplicates(),
    ensures
        names(a).no_duplicates(),
{
    broadcast use vstd::seq_lib::group_to_multiset_ensures;

    assert(b.no_duplicates()) by {
        assert forall|i: int, j: int| 0 <= i < b.len() && 0 <= j < b.len() && i != j implies b[i] != b[j] by {
            assert(names(b)[i] == b[i]@ && names(b)[j] == b[j]@);
        }
    }
    b.lemma_multiset_has_no_duplicates();
    a.lemma_multiset_has_no_duplicates_conv();
    assert forall|i: int, j: int| 0 <= i < a.len() && 0 <= j < a.len() && i != j implies names(a)[i] != names(a)[j] by {
        assert(names(a)[i] == a[i]@ && names(a)[j] == a[j]@);
        assert(a.contains(a[i]) && a.contains(a[j]));
        assert(a.to_multiset().count(a[i]) > 0 && a.to_multiset().count(a[j]) > 0);
        assert(b.to_multiset().count(a[i]) > 0 && b.to_multiset().count(a[j]) > 0);
        assert(b.contains(a[i]) && b.contains(a[j]));
        let p = choose|p: int| 0 <= p < b.len() && b[p] == a[i];
        let q = choose|q: int| 0 <= q < b.len() && b[q] == a[j];
        assert(names(b)[p] == a[i]@ && names(b)[q] == a[j]@);
    }
}

fn member_entry(_id: &u128, room: &Room) -> (v: Vec<String>)
    ensures
        v@ == member_strings(*room),
{
    let mut v: Vec<String> = Vec::new();
    match &room.seats.black {
        Some(s) => v.push(s.username.clone()),
        None => {},
    }
    match &room.seats.white {
        Some(s) => v.push(s.username.clone()),
        None => {},
    }
    let ghost seated = v@;
    let mut i: usize = 0;
    while i < room.spectators.len()
        invariant
            i <= room.spectators@.len(),
            v@ == seated + room.spectators@.subrange(0, i as int),
        decreases room.spectators@.len() - i,
    {
        v.push(room.spectators[i].clone());
        i = i + 1;
        proof {
            assert(v@ =~= seated + room.spectators@.subrange(0, i as int));
        }
    }
    proof {
        assert(room.spectators@.subrange(0, room.spectators@.len() as int) =~= room.spectators@);
        assert(seated =~= seat_names(room.seats.black) + seat_names(room.seats.white));
    }
    v
}

/// `ps` is whom an event for room `id` goes to: its members once each, sorted
/// (nobody when there is no such room).
pub open spec fn audience(svc: RoomService, id: u128, ps: Seq<String>) -> bool {
    &&& sorted_texts(names(ps))
    &&& if svc.rooms().contains_key(id) {
        ps.to_multiset() == member_strings(svc.rooms()[id]).to_multiset()
    } else {
        ps.len() == 0
    }
}

/// Why a match ended.
#[derive(Debug, Clone, Copy, PartialEq, Eq, Structural)]
pub enum OverReason {
    FiveInARow,
    BoardFull,
    Disconnect,
}

/// An event that the participants of a room must receive.
#[derive(Debug, Clone)]
pub enum RoomEvent {
    Snapshot(RoomSnapshot),
    MatchStart { match_id: u128 },
    MatchMoved { match_id: u128, mv: Move, turn: Color },
    MatchOver { match_id: u128, winner: Option<Color>, reason: OverReason },
}

/// Why a move was refused without an error.
#[derive(Debug, Clone, Copy, PartialEq, Eq, Structural)]
pub enum MoveReject {
    NotYourTurn,
    OutOfRange,
    Overlap,
}

/// The answer to a move request.
#[derive(Debug, Clone, Copy, PartialEq, Eq, Structural)]
pub enum MoveReply {
    Accepted { turn: Color, mv: Move },
    Rejected(MoveReject),
}

/// Failures of room operations.
#[derive(Debug, Clone, Copy, PartialEq, Eq, Structural)]
pub enum RoomError {
    RoomNotFound,
    NotInRoom,
    SeatTaken,
    InvalidRoomState,
    MatchNotFound,
    Forbidden,
    LeaveRoomFailed,
}

/// What `create_room` does to the service and answers.
pub open spec fn create_room_result(old: RoomService, new: RoomService, username: Seq<char>, title: Seq<char>, r: (u128, RoomSnapshot)) -> bool {
    &&& !old.rooms().contains_key(r.0)
    &&& new.rooms() == old.rooms().insert(r.0, new.rooms()[r.0])
    &&& new.index() == old.index().insert(username, r.0)
    &&& seat_is(new.rooms()[r.0].seats.black, username)
    &&& !seat_ready(new.rooms()[r.0].seats.black)
    &&& new.rooms()[r.0].seats.white.is_none()
    &&& new.rooms()[r.0].spectators@.len() == 0
    &&& new.rooms()[r.0].state == RoomState::Waiting
    &&& new.rooms()[r.0].title@ == title_for(trimmed_text(title))
    &&& r.1.describes(new.rooms()[r.0])
}

/// What `join_room` does to the service and answers.
pub open spec fn join_room_result(old: RoomService, new: RoomService, username: Seq<char>, room_id: u128, r: Result<RoomSnapshot, RoomError>) -> bool {
    &&& r.is_err() == !old.rooms().contains_key(room_id)
    &&& r.is_err() ==> r == Err::<RoomSnapshot, RoomError>(RoomError::RoomNotFound)
    &&& r.is_err() ==> new.rooms() == old.rooms() && new.index() == old.index()
    &&& r.is_ok() && old.rooms()[room_id].has_member(username) ==> new.rooms()
        == old.rooms() && new.index() == old.index()
    &&& r.is_ok() && !old.rooms()[room_id].has_member(username) ==> {
        &&& new.index() == old.index().insert(username, room_id)
        &&& new.rooms() == old.rooms().insert(
            room_id,
            new.rooms()[room_id],
        )
        &&& joined_room(old.rooms()[room_id], username, new.rooms()[room_id])
    }
    &&& r.is_ok() ==> r.unwrap().describes(new.rooms()[room_id])
}

/// What `leave_room` does to the service and answers.
pub open spec fn leave_room_result(old: RoomService, new: RoomService, username: Seq<char>, r: Option<(RoomSnapshot, Vec<RoomEvent>)>) -> bool {
    &&& r.is_none() == !old.index().contains_key(username)
    &&& r.is_none() ==> new.rooms() == old.rooms() && new.index() == old.index()
    &&& r.is_some() ==> ({
        let id = old.index()[username];
        let room = old.rooms()[id];
        let (snapshot, events) = r.unwrap();
        &&& new.index() == old.index().remove(username)
        &&& events@ == leave_events(room, username)
        &&& exists|after: Room|
            {
                &&& #[trigger] left_room(room, username, after)
                &&& snapshot.describes(after)
                &&& if after.is_vacant() {
                    new.rooms() == old.rooms().remove(id)
                } else {
                    new.rooms() == old.rooms().insert(id, after)
                }
            }
    })
}

/// What `take_seat` does to the service and answers.
pub open spec fn take_seat_result(old: RoomService, new: RoomService, username: Seq<char>, seat: SeatKind, r: Result<(u128, RoomSnapshot), RoomError>) -> bool {
    &&& new.index() == old.index()
    &&& !old.index().contains_key(username) ==> r == Err::<(u128, RoomSnapshot), RoomError>(RoomError::NotInRoom)
    &&& r.is_err() ==> new.rooms() == old.rooms()
    &&& old.index().contains_key(username) ==> ({
        let id = old.index()[username];
        let room = old.rooms()[id];
        &&& room.state == RoomState::Playing ==> r == Err::<(u128, RoomSnapshot), RoomError>(RoomError::InvalidRoomState)
        &&& room.state != RoomState::Playing && taken_by_other(room, username, seat) ==> r == Err::<(u128, RoomSnapshot), RoomError>(RoomError::SeatTaken)
        &&& room.state != RoomState::Playing && !taken_by_other(room, username, seat) ==> {
            &&& r.is_ok()
            &&& r.unwrap().0 == id
            &&& new.rooms() == old.rooms().insert(id, new.rooms()[id])
            &&& seated_room(room, username, seat, new.rooms()[id])
            &&& r.unwrap().1.describes(new.rooms()[id])
        }
    })
}

/// What `set_ready` does to the service and answers.
pub open spec fn set_ready_result(old: RoomService, new: RoomService, username: Seq<char>, ready: bool, r: Result<(u128, RoomSnapshot, Option<RoomEvent>), RoomError>) -> bool {
    &&& new.index() == old.index()
    &&& !old.index().contains_key(username) ==> r == Err::<(u128, RoomSnapshot, Option<RoomEvent>), RoomError>(RoomError::NotInRoom)
    &&& r.is_err() ==> new.rooms() == old.rooms()
    &&& old.index().contains_key(username) ==> ({
        let id = old.index()[username];
        let room = old.rooms()[id];
        let seated = room.seats.color_of(username).is_some();
        &&& room.state == RoomState::Playing ==> r == Err::<(u128, RoomSnapshot, Option<RoomEvent>), RoomError>(RoomError::InvalidRoomState)
        &&& room.state != RoomState::Playing && !seated ==> r == Err::<(u128, RoomSnapshot, Option<RoomEvent>), RoomError>(RoomError::Forbidden)
        &&& room.state != RoomState::Playing && seated ==> {
            let after = new.rooms()[id];
            &&& r.is_ok()
            &&& r.unwrap().0 == id
            &&& new.rooms() == old.rooms().insert(id, after)
            &&& readied_room(room, username, ready, after)
            &&& r.unwrap().1.describes(after)
            &&& r.unwrap().2 == if after.state == RoomState::Playing {
                Some(RoomEvent::MatchStart { match_id: after.current_match.unwrap().match_id })
            } else {
                None::<RoomEvent>
            }
        }
    })
}

/// What `match_move` does to the service and answers.
pub open spec fn match_move_result(old: RoomService, new: RoomService, username: Seq<char>, coord: Coord, r: Result<(u128, MoveReply, Vec<RoomEvent>), RoomError>) -> bool {
    &&& new.index() == old.index()
    &&& !old.index().contains_key(username) ==> r == Err::<(u128, MoveReply, Vec<RoomEvent>), RoomError>(RoomError::NotInRoom)
    &&& r.is_err() ==> new.rooms() == old.rooms()
    &&& old.index().contains_key(username) ==> ({
        let id = old.index()[username];
        let room = old.rooms()[id];
        let m = room.current_match.unwrap();
        &&& room.state != RoomState::Playing ==> r == Err::<(u128, MoveReply, Vec<RoomEvent>), RoomError>(RoomError::InvalidRoomState)
        &&& room.state == RoomState::Playing && move_rejection(room, username, coord).is_some() ==> {
            &&& r.is_ok()
            &&& r.unwrap().0 == id
            &&& r.unwrap().1 == MoveReply::Rejected(move_rejection(room, username, coord).unwrap())
            &&& r.unwrap().2@.len() == 0
            &&& new.rooms() == old.rooms()
        }
        &&& room.state == RoomState::Playing && move_rejection(room, username, coord).is_none() ==> {
            let after = new.rooms()[id];
            &&& r.is_ok()
            &&& r.unwrap().0 == id
            &&& r.unwrap().1 == MoveReply::Accepted { turn: m.turn.opposite(), mv: Move { color: m.turn, coord } }
            &&& new.rooms() == old.rooms().insert(id, after)
            &&& moved_room(room, coord, after, r.unwrap().2@)
        }
    })
}

/// Rooms by identifier, and the room of each user.
#[derive(Debug)]
pub struct RoomService {
    rooms: DashMap<u128, Room>,
    user_room: DashMap<String, u128>,
}

impl Default for RoomService {
    fn default() -> (s: RoomService)
        ensures
            s.wf(),
            s.rooms().dom().is_empty(),
            s.index().dom().is_empty(),
    {
        RoomService::new()
    }
}

impl MoveReply {
    /// The move was played.
    pub fn accepted(&self) -> (r: bool)
        ensures
            r == (*self is Accepted),
    {
        match self {
            MoveReply::Accepted { .. } => true,
            MoveReply::Rejected(_) => false,
        }
    }
}

impl RoomService {
    pub closed spec fn rooms(&self) -> Map<u128, Room> {
        room_table(self.rooms)
    }

    pub closed spec fn index(&self) -> Map<Seq<char>, u128> {
        user_table(self.user_room)
    }

    /// Every room is well formed, keyed by its own identifier and occupied;
    /// a user belongs to a room exactly when the index maps the user to it.
    pub open spec fn wf(&self) -> bool {
        coherent(self.rooms(), self.index())
    }

    /// A service with no rooms.
    pub fn new() -> (s: RoomService)
        ensures
            s.wf(),
            s.rooms().dom().is_empty(),
            s.index().dom().is_empty(),
    {
        RoomService { rooms: new_room_table(), user_room: new_user_table() }
    }

    /// The room the user is in, if any.
    pub fn room_id_for_user(&self, username: &str) -> (r: Option<u128>)
        ensures
            r == (if self.index().contains_key(username@) {
                Some(self.index()[username@])
            } else {
                None::<u128>
            }),
    {
        user_room_get(&self.user_room, username)
    }

    /// A snapshot of the room, if it exists.
    pub fn snapshot(&self, room_id: u128) -> (r: Option<RoomSnapshot>)
        ensures
            r.is_some() == self.rooms().contains_key(room_id),
            r.is_some() ==> r.unwrap().describes(self.rooms()[room_id]),
    {
        view_room(&self.rooms, room_id, snapshot_entry)
    }

    /// The snapshot a reconnecting user receives: that of their room, if any.
    pub fn resume_snapshot(&self, username: &str) -> (r: Option<RoomSnapshot>)
        requires
            self.wf(),
        ensures
            r.is_some() == self.index().contains_key(username@),
            r.is_some() ==> r.unwrap().describes(self.rooms()[self.index()[username@]]),
    {
        match self.room_id_for_user(username) {
            Some(id) => self.snapshot(id),
            None => None,
        }
    }

    /// An identifier that no room has: a random one, else the least free one.
    fn fresh_room_id(&self) -> (id: u128)
        requires
            self.wf(),
        ensures
            !self.rooms().contains_key(id),
    {
        match random_id() {
            Some(id) => {
                if !has_room(&self.rooms, id) {
                    return id;
                }
            },
            None => {},
        }
        let n = room_count(&self.rooms);
        let mut c: u128 = 0;
        let ghost mut seen: Set<u128> = Set::empty();
        while has_room(&self.rooms, c)
            invariant
                self.wf(),
                n == self.rooms().len(),
                seen.finite(),
                seen.len() == c,
                seen.subset_of(self.rooms().dom()),
                forall|k: u128| #[trigger] seen.contains(k) ==> k < c,
            decreases n - c,
        {
            proof {
                assert(!seen.contains(c));
                let more = seen.insert(c);
                vstd::set_lib::lemma_len_subset(more, self.rooms().dom());
                seen = more;
            }
            c = c + 1;
        }
        c
    }

    /// Creates a room with the caller seated Black, not ready.
    pub fn create_room(&mut self, username: &str, title: String) -> (r: (u128, RoomSnapshot))
        requires
            old(self).wf(),
            !old(self).index().contains_key(username@),
        ensures
            final(self).wf(),
            create_room_result(*old(self), *final(self), username@, title@, r),

    {
        let room_id = self.fresh_room_id();
        let room = Room {
            room_id,
            title: room_title(trim_text(title.as_str())),
            seats: Seats {
                black: Some(Seat { username: username.to_owned(), ready: false }),
                white: None,
            },
            spectators: Vec::new(),
            state: RoomState::Waiting,
            current_match: None,
        };
        let snapshot = room.snapshot();
        proof {
            assert(names(room.spectators@) =~= Seq::<Seq<char>>::empty());
        }
        user_room_set(&mut self.user_room, username, room_id);
        put_room(&mut self.rooms, room_id, room);
        proof {
            assert forall|u: Seq<char>| #[trigger] self.index().contains_key(u) implies {
                &&& self.rooms().contains_key(self.index()[u])
                &&& self.rooms()[self.index()[u]].has_member(u)
            } by {
                if u != username@ {
                    assert(old(self).index().contains_key(u));
                }
            }
            assert forall|u: Seq<char>, id: u128|
                self.rooms().contains_key(id) && #[trigger] self.rooms()[id].has_member(u) implies {
                &&& self.index().contains_key(u)
                &&& self.index()[u] == id
            } by {
                if id != room_id {
                    assert(old(self).rooms()[id].has_member(u));
                    if u == username@ {
                        assert(old(self).index().contains_key(u));
                    }
                } else {
                    assert(!room.is_spectator(u));
                }
            }
        }
        (room_id, snapshot)
    }

    /// Joins a room as a spectator; a member of the room stays where they are.
    pub fn join_room(&mut self, username: &str, room_id: u128) -> (r: Result<RoomSnapshot, RoomError>)
        requires
            old(self).wf(),
            old(self).index().contains_key(username@) ==> old(self).index()[username@] == room_id,
        ensures
            final(self).wf(),
            join_room_result(*old(self), *final(self), username@, room_id, r),

    {
        let mut room = match take_room(&mut self.rooms, room_id) {
            Some(room) => room,
            None => {
                proof {
                    assert(self.rooms() =~= old(self).rooms());
                }
                return Err(RoomError::RoomNotFound);
            },
        };
        let name = username.to_owned();
        let member = holds_seat(&room.seats.black, &name) || holds_seat(&room.seats.white, &name)
            || contains_name(&room.spectators, &name);
        if member {
            let snapshot = room.snapshot();
            put_room(&mut self.rooms, room_id, room);
            user_room_set(&mut self.user_room, username, room_id);
            proof {
                assert(self.rooms() =~= old(self).rooms());
                assert(old(self).rooms()[room_id].has_member(username@));
                assert(old(self).index().contains_key(username@));
                assert(self.index() =~= old(self).index());
            }
            return Ok(snapshot);
        }
        let ghost before = room;
        room.spectators.push(name);
        proof {
            assert(names(room.spectators@) =~= names(before.spectators@).push(username@));
            assert(!names(before.spectators@).contains(username@));
            assert forall|i: int, j: int|
                0 <= i < names(room.spectators@).len() && 0 <= j < names(room.spectators@).len()
                    && i != j implies names(room.spectators@)[i] != names(room.spectators@)[j] by {
                let n = names(before.spectators@).len() as int;
                if i == n {
                    assert(names(before.spectators@)[j] == names(room.spectators@)[j]);
                } else if j == n {
                    assert(names(before.spectators@)[i] == names(room.spectators@)[i]);
                }
            }
            assert forall|x: Seq<char>| #[trigger] room.is_spectator(x) <==> before.is_spectator(x) || x == username@ by {
                let s1 = names(room.spectators@);
                let s0 = names(before.spectators@);
                if s1.contains(x) {
                    let k = choose|k: int| 0 <= k < s1.len() && s1[k] == x;
                    if k < s0.len() {
                        assert(s0[k] == x);
                    }
                }
                if s0.contains(x) {
                    let k = choose|k: int| 0 <= k < s0.len() && s0[k] == x;
                    assert(s1[k] == x);
                }
                if x == username@ {
                    assert(s1[s0.len() as int] == x);
                }
            }
        }
        let snapshot = room.snapshot();
        put_room(&mut self.rooms, room_id, room);
        user_room_set(&mut self.user_room, username, room_id);
        proof {
            assert(self.rooms() =~= old(self).rooms().insert(room_id, room));
            assert(old(self).rooms()[room_id] == before);
            assert forall|u: Seq<char>| #[trigger] self.index().contains_key(u) implies {
                &&& self.rooms().contains_key(self.index()[u])
                &&& self.rooms()[self.index()[u]].has_member(u)
            } by {
                if u != username@ {
                    assert(old(self).index().contains_key(u));
                    let id = old(self).index()[u];
                    assert(old(self).rooms()[id].has_member(u));
                }
            }
            assert forall|u: Seq<char>, id: u128|
                self.rooms().contains_key(id) && #[trigger] self.rooms()[id].has_member(u) implies {
                &&& self.index().contains_key(u)
                &&& self.index()[u] == id
            } by {
                if id != room_id {
                    assert(old(self).rooms()[id].has_member(u));
                    if u == username@ {
                        assert(old(self).index()[u] == id);
                    }
                } else if u != username@ {
                    assert(before.has_member(u));
                }
            }
        }
        Ok(snapshot)
    }

    /// Takes the user out of their room. A seated player leaving a match ends
    /// it, the remaining seated player winning; a room left empty is removed.
    pub fn leave_room(&mut self, username: &str) -> (r: Option<(RoomSnapshot, Vec<RoomEvent>)>)
        requires
            old(self).wf(),
        ensures
            final(self).wf(),
            leave_room_result(*old(self), *final(self), username@, r),

    {
        let room_id = match user_room_remove(&mut self.user_room, username) {
            Some(id) => id,
            None => {
                proof {
                    assert(self.index() =~= old(self).index());
                }
                return None;
            },
        };
        let mut room = match take_room(&mut self.rooms, room_id) {
            Some(room) => room,
            None => {
                proof {
                    assert(false);
                }
                return None;
            },
        };
        let ghost before = room;
        let name = username.to_owned();
        let was_black = holds_seat(&room.seats.black, &name);
        let was_white = holds_seat(&room.seats.white, &name);
        if was_black {
            room.seats.black = None;
        }
        if was_white {
            room.seats.white = None;
        }
        room.spectators = without_name(&room.spectators, &name);
        let mut events: Vec<RoomEvent> = Vec::new();
        if room.state == RoomState::Playing && (was_black || was_white) {
            let winner = if room.seats.black.is_some() && room.seats.white.is_none() {
                Some(Color::Black)
            } else if room.seats.white.is_some() && room.seats.black.is_none() {
                Some(Color::White)
            } else {
                None
            };
            match &room.current_match {
                Some(m) => {
                    events.push(
                        RoomEvent::MatchOver {
                            match_id: m.match_id,
                            winner,
                            reason: OverReason::Disconnect,
                        },
                    );
                },
                None => {},
            }
            room.state = RoomState::Waiting;
            room.current_match = None;
            clear_ready(&mut room.seats.black);
            clear_ready(&mut room.seats.white);
        }
        proof {
            lemma_drop_name(names(before.spectators@), username@);
            assert(left_room(before, username@, room));
            assert(events@ =~= leave_events(before, username@));
            assert forall|x: Seq<char>| #[trigger] room.has_member(x) implies before.has_member(x) && x
                != username@ by {
                if room.is_spectator(x) {
                    assert(drop_name(names(before.spectators@), username@).contains(x));
                }
            }
        }
        let empty = room.seats.black.is_none() && room.seats.white.is_none()
            && room.spectators.len() == 0;
        let snapshot = room.snapshot();
        if !empty {
            put_room(&mut self.rooms, room_id, room);
            proof {
                assert(self.rooms() =~= old(self).rooms().insert(room_id, room));
            }
        } else {
            proof {
                assert(self.rooms() =~= old(self).rooms().remove(room_id));
            }
        }
        proof {
            assert forall|u: Seq<char>| #[trigger] self.index().contains_key(u) implies {
                &&& self.rooms().contains_key(self.index()[u])
                &&& self.rooms()[self.index()[u]].has_member(u)
            } by {
                assert(old(self).index().contains_key(u));
                let id = old(self).index()[u];
                assert(old(self).rooms()[id].has_member(u));
                if id == room_id {
                    assert(before.has_member(u));
                    if before.is_spectator(u) {
                        assert(drop_name(names(before.spectators@), username@).contains(u));
                    }
                    assert(room.has_member(u));
                }
            }
            assert forall|u: Seq<char>, id: u128|
                self.rooms().contains_key(id) && #[trigger] self.rooms()[id].has_member(u) implies {
                &&& self.index().contains_key(u)
                &&& self.index()[u] == id
            } by {
                if id != room_id {
                    assert(old(self).rooms()[id].has_member(u));
                    assert(u != username@);
                } else {
                    assert(room.has_member(u));
                    assert(before.has_member(u));
                }
            }
            assert forall|id: u128| #[trigger] self.rooms().contains_key(id) implies {
                &&& self.rooms()[id].wf()
                &&& self.rooms()[id].room_id == id
                &&& !self.rooms()[id].is_vacant()
            } by {
                if id == room_id {
                    assert(room.seats.black.is_some() ==> before.seats.black.is_some()
                        && before.seats.black.unwrap().username == room.seats.black.unwrap().username);
                    assert(room.seats.white.is_some() ==> before.seats.white.is_some()
                        && before.seats.white.unwrap().username == room.seats.white.unwrap().username);
                    assert(room.seats.black.is_some() ==> !room.is_spectator(room.seats.black.unwrap().username@));
                    assert(room.seats.white.is_some() ==> !room.is_spectator(room.seats.white.unwrap().username@));
                }
            }
        }
        Some((snapshot, events))
    }

    /// Moves the user to the seat `seat` of their room, not ready.
    pub fn take_seat(&mut self, username: &str, seat: SeatKind) -> (r: Result<(u128, RoomSnapshot), RoomError>)
        requires
            old(self).wf(),
        ensures
            final(self).wf(),
            take_seat_result(*old(self), *final(self), username@, seat, r),

    {
        let room_id = match user_room_get(&self.user_room, username) {
            Some(id) => id,
            None => {
                return Err(RoomError::NotInRoom);
            },
        };
        let mut room = match take_room(&mut self.rooms, room_id) {
            Some(room) => room,
            None => {
                proof {
                    assert(false);
                }
                return Err(RoomError::RoomNotFound);
            },
        };
        let ghost before = room;
        if room.state == RoomState::Playing {
            put_room(&mut self.rooms, room_id, room);
            proof {
                assert(self.rooms() =~= old(self).rooms());
            }
            return Err(RoomError::InvalidRoomState);
        }
        let name = username.to_owned();
        let taken = match seat {
            SeatKind::Black => room.seats.black.is_some() && !holds_seat(&room.seats.black, &name),
            SeatKind::White => room.seats.white.is_some() && !holds_seat(&room.seats.white, &name),
            SeatKind::Spectator => false,
        };
        if taken {
            put_room(&mut self.rooms, room_id, room);
            proof {
                assert(self.rooms() =~= old(self).rooms());
            }
            return Err(RoomError::SeatTaken);
        }
        if holds_seat(&room.seats.black, &name) {
            room.seats.black = None;
        }
        if holds_seat(&room.seats.white, &name) {
            room.seats.white = None;
        }
        room.spectators = without_name(&room.spectators, &name);
        let ghost middle = room.spectators@;
        match seat {
            SeatKind::Black => {
                room.seats.black = Some(Seat { username: name, ready: false });
            },
            SeatKind::White => {
                room.seats.white = Some(Seat { username: name, ready: false });
            },
            SeatKind::Spectator => {
                room.spectators.push(name);
            },
        }
        proof {
            let d = drop_name(names(before.spectators@), username@);
            lemma_drop_name(names(before.spectators@), username@);
            assert(before.has_member(username@));
            if seat == SeatKind::Spectator {
                assert(names(room.spectators@) =~= names(middle).push(username@));
                assert forall|x: Seq<char>| #[trigger] d.push(username@).contains(x) <==> d.contains(x) || x == username@ by {
                    if d.push(username@).contains(x) {
                        let k = choose|k: int| 0 <= k < d.len() + 1 && d.push(username@)[k] == x;
                        if k < d.len() {
                            assert(d[k] == x);
                        }
                    }
                    if d.contains(x) {
                        let k = choose|k: int| 0 <= k < d.len() && d[k] == x;
                        assert(d.push(username@)[k] == x);
                    }
                    if x == username@ {
                        assert(d.push(username@)[d.len() as int] == x);
                    }
                }
                assert forall|i: int, j: int| 0 <= i < d.len() + 1 && 0 <= j < d.len() + 1 && i != j implies d.push(username@)[i] != d.push(username@)[j] by {
                    if i == d.len() {
                        assert(d.contains(d[j]));
                    } else if j == d.len() {
                        assert(d.contains(d[i]));
                    }
                }
            }
            assert(seated_room(before, username@, seat, room));
            assert forall|x: Seq<char>| #[trigger] room.has_member(x) == before.has_member(x) by {
                if x != username@ {
                    if before.is_spectator(x) {
                        assert(d.contains(x));
                        if seat == SeatKind::Spectator {
                            assert(d.push(username@).contains(x));
                        }
                    }
                    if room.is_spectator(x) && seat == SeatKind::Spectator {
                        assert(d.push(username@).contains(x));
                    }
                }
            }
            assert(room.seats.black.is_some() ==> !room.is_spectator(room.seats.black.unwrap().username@));
            assert(room.seats.white.is_some() ==> !room.is_spectator(room.seats.white.unwrap().username@));
            lemma_same_members(old(self).rooms(), old(self).index(), room_id, room);
        }
        let snapshot = room.snapshot();
        put_room(&mut self.rooms, room_id, room);
        proof {
            assert(self.rooms() =~= old(self).rooms().insert(room_id, room));
        }
        Ok((room_id, snapshot))
    }

    /// Sets the ready flag of a seated user; when both seated players are
    /// then ready, a match starts with Black to move on an empty board.
    pub fn set_ready(&mut self, username: &str, ready: bool) -> (r: Result<(u128, RoomSnapshot, Option<RoomEvent>), RoomError>)
        requires
            old(self).wf(),
        ensures
            final(self).wf(),
            set_ready_result(*old(self), *final(self), username@, ready, r),

    {
        let room_id = match user_room_get(&self.user_room, username) {
            Some(id) => id,
            None => {
                return Err(RoomError::NotInRoom);
            },
        };
        let mut room = match take_room(&mut self.rooms, room_id) {
            Some(room) => room,
            None => {
                proof {
                    assert(false);
                }
                return Err(RoomError::RoomNotFound);
            },
        };
        let ghost before = room;
        if room.state == RoomState::Playing {
            put_room(&mut self.rooms, room_id, room);
            proof {
                assert(self.rooms() =~= old(self).rooms());
            }
            return Err(RoomError::InvalidRoomState);
        }
        let name = username.to_owned();
        let is_black = holds_seat(&room.seats.black, &name);
        let is_white = holds_seat(&room.seats.white, &name);
        if !is_black && !is_white {
            put_room(&mut self.rooms, room_id, room);
            proof {
                assert(self.rooms() =~= old(self).rooms());
            }
            return Err(RoomError::Forbidden);
        }
        if is_black {
            set_ready_flag(&mut room.seats.black, ready);
        }
        if is_white {
            set_ready_flag(&mut room.seats.white, ready);
        }
        let starts = match (&room.seats.black, &room.seats.white) {
            (Some(b), Some(w)) => b.ready && w.ready,
            _ => false,
        };
        let mut event: Option<RoomEvent> = None;
        if starts {
            // Without a random draw the room's own identifier names the match.
            let match_id = match random_id() {
                Some(id) => id,
                None => room_id,
            };
            room.state = RoomState::Playing;
            room.current_match = Some(Match::new(match_id));
            event = Some(RoomEvent::MatchStart { match_id });
        }
        proof {
            assert(readied_room(before, username@, ready, room));
            assert forall|x: Seq<char>| #[trigger] room.has_member(x) == before.has_member(x) by {}
            lemma_same_members(old(self).rooms(), old(self).index(), room_id, room);
        }
        let snapshot = room.snapshot();
        put_room(&mut self.rooms, room_id, room);
        proof {
            assert(self.rooms() =~= old(self).rooms().insert(room_id, room));
        }
        Ok((room_id, snapshot, event))
    }

    /// Plays the user's stone at `coord`. Errors leave everything unchanged;
    /// a move by the wrong player, off the board, or onto a stone is refused
    /// without change; an accepted move is broadcast, and a win or a full
    /// board ends the match.
    pub fn match_move(&mut self, username: &str, coord: Coord) -> (r: Result<(u128, MoveReply, Vec<RoomEvent>), RoomError>)
        requires
            old(self).wf(),
        ensures
            final(self).wf(),
            match_move_result(*old(self), *final(self), username@, coord, r),

    {
        let room_id = match user_room_get(&self.user_room, username) {
            Some(id) => id,
            None => {
                return Err(RoomError::NotInRoom);
            },
        };
        let mut room = match take_room(&mut self.rooms, room_id) {
            Some(room) => room,
            None => {
                proof {
                    assert(false);
                }
                return Err(RoomError::RoomNotFound);
            },
        };
        let ghost before = room;
        if room.state != RoomState::Playing {
            put_room(&mut self.rooms, room_id, room);
            proof {
                assert(self.rooms() =~= old(self).rooms());
            }
            return Err(RoomError::InvalidRoomState);
        }
        let (match_id, turn) = match &room.current_match {
            Some(m) => (m.match_id, m.turn),
            None => {
                put_room(&mut self.rooms, room_id, room);
                proof {
                    assert(self.rooms() =~= old(self).rooms());
                }
                return Err(RoomError::MatchNotFound);
            },
        };
        let name = username.to_owned();
        let mover = match turn {
            Color::Black => holds_seat(&room.seats.black, &name),
            Color::White => holds_seat(&room.seats.white, &name),
        };
        let rejection = if !mover {
            Some(MoveReject::NotYourTurn)
        } else if coord.row < 0 || coord.col < 0 || coord.row >= 15 || coord.col >= 15 {
            Some(MoveReject::OutOfRange)
        } else {
            let idx = (coord.row * 15 + coord.col) as usize;
            let occupied = match &room.current_match {
                Some(m) => m.board[idx] != EMPTY,
                None => false,
            };
            if occupied {
                Some(MoveReject::Overlap)
            } else {
                None
            }
        };
        match rejection {
            Some(reason) => {
                put_room(&mut self.rooms, room_id, room);
                proof {
                    assert(self.rooms() =~= old(self).rooms());
                }
                return Ok((room_id, MoveReply::Rejected(reason), Vec::new()));
            },
            None => {},
        }
        let outcome = match &mut room.current_match {
            Some(m) => m.play(coord),
            None => Outcome::Continue,
        };
        let mv = Move { color: turn, coord };
        let mut events: Vec<RoomEvent> = Vec::new();
        events.push(RoomEvent::MatchMoved { match_id, mv, turn: turn.other() });
        if outcome != Outcome::Continue {
            let won = outcome == Outcome::FiveInARow;
            events.push(
                RoomEvent::MatchOver {
                    match_id,
                    winner: if won {
                        Some(turn)
                    } else {
                        None
                    },
                    reason: if won {
                        OverReason::FiveInARow
                    } else {
                        OverReason::BoardFull
                    },
                },
            );
            room.state = RoomState::Waiting;
            room.current_match = None;
            clear_ready(&mut room.seats.black);
            clear_ready(&mut room.seats.white);
            events.push(RoomEvent::Snapshot(room.snapshot()));
        }
        proof {
            assert(moved_room(before, coord, room, events@));
            assert forall|x: Seq<char>| #[trigger] room.has_member(x) == before.has_member(x) by {}
            lemma_same_members(old(self).rooms(), old(self).index(), room_id, room);
        }
        put_room(&mut self.rooms, room_id, room);
        proof {
            assert(self.rooms() =~= old(self).rooms().insert(room_id, room));
        }
        Ok((room_id, MoveReply::Accepted { turn: turn.other(), mv }, events))
    }

    /// Everyone in the room, sorted; nobody when there is no such room.
    pub fn participants(&self, room_id: u128) -> (r: Vec<String>)
        requires
            self.wf(),
        ensures
            audience(*self, room_id, r@),
            names(r@).no_duplicates(),
            !self.rooms().contains_key(room_id) ==> r@.len() == 0,
            self.rooms().contains_key(room_id) ==> r@.to_multiset() == member_strings(
                self.rooms()[room_id],
            ).to_multiset(),
            sorted_texts(names(r@)),
    {
        match view_room(&self.rooms, room_id, member_entry) {
            Some(v) => {
                let mut v = v;
                sort_texts(&mut v);
                proof {
                    lemma_members_distinct(self.rooms()[room_id]);
                    lemma_permutation_distinct(v@, member_strings(self.rooms()[room_id]));
                }
                v
            },
            None => Vec::new(),
        }
    }
}

} // verus!
