//! The registry of live socket send queues, one per username. Registering a
//! second socket for a user evicts the first: it is told why and closed.

use vstd::prelude::*;
use axum::extract::ws::Message;
use dashmap::DashMap;
use tokio::sync::mpsc::UnboundedSender;

use crate::protocol::{KICK_CLOSE_CODE, KICK_REASON};

verus! {

#[verifier::external_type_specification]
#[verifier::external_body]
#[verifier::reject_recursive_types(T)]
pub struct ExUnboundedSender<T>(UnboundedSender<T>);

#[verifier::external_type_specification]
#[verifier::external_body]
pub struct ExMessage(Message);

/// The `auth.kicked` event sent to an evicted socket before it is closed.
pub const KICKED_EVENT: &'static str = "{\"v\":1,\"type\":\"auth.kicked\",\"payload\":{\"reason\":\"single_session\"}}";

/// The send queue registered under each username.
pub uninterp spec fn hub_table(m: DashMap<String, UnboundedSender<Message>>) -> Map<Seq<char>, UnboundedSender<Message>>;

/// Relies on DashMap::new: a new map is empty.
#[verifier::external_body]
fn new_hub_table() -> (r: DashMap<String, UnboundedSender<Message>>)
    ensures
        hub_table(r).dom().is_empty(),
{
    DashMap::new()
}

/// Relies on DashMap::insert: the entry for `u` becomes `tx`, and the value
/// it replaces is handed back.
#[verifier::external_body]
fn hub_insert(m: &mut DashMap<String, UnboundedSender<Message>>, u: String, tx: UnboundedSender<Message>) -> (r: Option<UnboundedSender<Message>>)
    ensures
        r == (if hub_table(*old(m)).contains_key(u@) {
            Some(hub_table(*old(m))[u@])
        } else {
            None::<UnboundedSender<Message>>
        }),
        hub_table(*final(m)) == hub_table(*old(m)).insert(u@, tx),
{
    m.insert(u, tx)
}

/// Relies on DashMap::remove: the entry leaves the map and its value is
/// handed back.
#[verifier::external_body]
fn hub_remove(m: &mut DashMap<String, UnboundedSender<Message>>, u: &str) -> (r: Option<UnboundedSender<Message>>)
    ensures
        r == (if hub_table(*old(m)).contains_key(u@) {
            Some(hub_table(*old(m))[u@])
        } else {
            None::<UnboundedSender<Message>>
        }),
        hub_table(*final(m)) == hub_table(*old(m)).remove(u@),
{
    match m.remove(u) {
        Some((_, tx)) => Some(tx),
        None => None,
    }
}

/// Relies on DashMap::get, and on the Clone of UnboundedSender, a handle to
/// the same queue.
#[verifier::external_body]
fn hub_get(m: &DashMap<String, UnboundedSender<Message>>, u: &str) -> (r: Option<UnboundedSender<Message>>)
    ensures
        r.is_some() == hub_table(*m).contains_key(u@),
{
    match m.get(u) {
        Some(e) => Some(e.value().clone()),
        None => None,
    }
}

/// Relies on tokio's UnboundedSender::send: queues the message, or drops it
/// when the receiving side is gone.
#[verifier::external_body]
fn queue(tx: &UnboundedSender<Message>, msg: Message) {
    let _ = tx.send(msg);
}

/// A frame to send on a socket.
#[derive(Debug)]
pub enum Frame {
    Text(String),
    Close { code: u16, reason: String },
}

/// Relies on axum's Message::Text and Message::Close with a close frame.
#[verifier::external_body]
fn to_message(frame: Frame) -> (r: Message) {
    match frame {
        Frame::Text(text) => Message::Text(text.into()),
        Frame::Close { code, reason } => Message::Close(Some(axum::extract::ws::CloseFrame { code, reason: reason.into() })),
    }
}

/// The frames an evicted socket receives, in order: the `auth.kicked` event,
/// then a close frame with code 4001 and reason `single_session`.
pub open spec fn kick_sequence(frames: Seq<Frame>) -> bool {
    &&& frames.len() == 2
    &&& match frames[0] {
        Frame::Text(t) => t@ == KICKED_EVENT@,
        _ => false,
    }
    &&& match frames[1] {
        Frame::Close { code, reason } => code == KICK_CLOSE_CODE && reason@ == KICK_REASON@,
        _ => false,
    }
}

/// The frames that tell a socket it is evicted by a newer session.
pub fn kick_frames() -> (r: Vec<Frame>)
    ensures
        kick_sequence(r@),
{
    let mut r: Vec<Frame> = Vec::new();
    r.push(Frame::Text(KICKED_EVENT.to_owned()));
    r.push(Frame::Close { code: KICK_CLOSE_CODE, reason: KICK_REASON.to_owned() });
    r
}

/// A socket taken out of the hub, and the frames it must receive before it
/// is dropped.
#[derive(Debug)]
pub struct Eviction {
    pub sender: UnboundedSender<Message>,
    pub frames: Vec<Frame>,
}

/// Queues the frames of an eviction on its socket, in order, then drops the
/// sender.
pub fn deliver_eviction(eviction: Eviction) {
    let sender = eviction.sender;
    let mut frames = eviction.frames;
    while frames.len() > 0
        decreases frames@.len(),
    {
        let frame = frames.remove(0);
        queue(&sender, to_message(frame));
    }
}

/// Live send queues by username.
#[derive(Debug)]
pub struct Hub {
    conns: DashMap<String, UnboundedSender<Message>>,
}

impl Hub {
    pub closed spec fn table(&self) -> Map<Seq<char>, UnboundedSender<Message>> {
        hub_table(self.conns)
    }

    pub fn new() -> (h: Hub)
        ensures
            h.table().dom().is_empty(),
    {
        Hub { conns: new_hub_table() }
    }

    /// Best-effort delivery: dropped when the user has no socket or its
    /// queue is closed.
    pub fn send(&self, username: &str, msg: Message) {
        match hub_get(&self.conns, username) {
            Some(tx) => queue(&tx, msg),
            None => {},
        }
    }

    /// Delivers a text frame, best effort.
    pub fn send_text(&self, username: &str, text: String) {
        self.send(username, to_message(Frame::Text(text)));
    }

    /// Takes the user's socket, if any, out of the hub, with the frames that
    /// tell it why it is evicted.
    pub fn kick(&mut self, username: &str) -> (r: Option<Eviction>)
        ensures
            final(self).table() == old(self).table().remove(username@),
            r.is_some() == old(self).table().contains_key(username@),
            r.is_some() ==> r.unwrap().sender == old(self).table()[username@] && kick_sequence(
                r.unwrap().frames@,
            ),
    {
        match hub_remove(&mut self.conns, username) {
            Some(sender) => Some(Eviction { sender, frames: kick_frames() }),
            None => None,
        }
    }

    /// Registers the user's socket in place of the one registered before,
    /// which comes back with the frames that tell it why it is evicted.
    pub fn register(&mut self, username: String, tx: UnboundedSender<Message>) -> (r: Option<Eviction>)
        ensures
            final(self).table() == old(self).table().insert(username@, tx),
            r.is_some() == old(self).table().contains_key(username@),
            r.is_some() ==> r.unwrap().sender == old(self).table()[username@] && kick_sequence(
                r.unwrap().frames@,
            ),
    {
        match hub_insert(&mut self.conns, username, tx) {
            Some(sender) => Some(Eviction { sender, frames: kick_frames() }),
            None => None,
        }
    }

    /// Drops the user's entry, if present.
    pub fn unregister(&mut self, username: &str)
        ensures
            final(self).table() == old(self).table().remove(username@),
    {
        let _ = hub_remove(&mut self.conns, username);
    }
}

impl Default for Hub {
    fn default() -> (h: Hub)
        ensures
            h.table().dom().is_empty(),
    {
        Hub::new()
    }
}

/// Whatever was registered before, after `register` the user has exactly one
/// socket: the new one.
pub proof fn lemma_one_socket_per_user(before: Hub, after: Hub, u: Seq<char>, tx: UnboundedSender<Message>)
    requires
        after.table() == before.table().insert(u, tx),
    ensures
        after.table().contains_key(u),
        after.table()[u] == tx,
        forall|v: Seq<char>| v != u ==> #[trigger] after.table().contains_key(v) == before.table().contains_key(v),
{
}

} // verus!
