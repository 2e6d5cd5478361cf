use std::collections::HashMap;
use vstd::prelude::*;

use crate::heartbeat::{is_overdue, overdue};
use crate::protocol::{frame_of, from_be32, from_be_bytes, FrameModel, FrameType};
use crate::relay::{
    relay_next, relay_run, relay_step, theorem_relay_ends_with_both_directions, Direction,
    RelayAction, RelayEvent, RelayPhase,
};
use crate::session::{id_after, SessionIds};

verus! {

broadcast use vstd::std_specs::hash::group_hash_axioms;

/// What the connections of a server share. `C` is the handle by which frames
/// reach the client's control connection, `W` the handle by which a data
/// connection reaches the session that waits for it.
pub struct ServerState<C, W> {
    control: Option<C>,
    registration: u64,
    pending: HashMap<u32, W>,
    next_session_id: SessionIds,
    last_heartbeat: u128,
    secret: String,
}

/// The shared state of a server.
#[verifier::ext_equal]
pub struct ServerModel<C, W> {
    /// The control connection of the client, if one is there.
    pub control: Option<C>,
    /// The number of the last registration of a control connection.
    pub registration: u64,
    /// The sessions that wait for a data connection.
    pub pending: Map<u32, W>,
    /// The id of the next session.
    pub next_session_id: u32,
    /// When the client was last heard of, in nanoseconds.
    pub last_heartbeat: u128,
    /// What a client has to know.
    pub secret: Seq<char>,
}

impl<C, W> View for ServerState<C, W> {
    type V = ServerModel<C, W>;

    closed spec fn view(&self) -> ServerModel<C, W> {
        ServerModel {
            control: self.control,
            registration: self.registration,
            pending: self.pending@,
            next_session_id: self.next_session_id@,
            last_heartbeat: self.last_heartbeat,
            secret: self.secret@,
        }
    }
}

impl<C, W> ServerState<C, W> {
    /// A server without a client and without sessions.
    pub fn new(secret: String, now: u128) -> (state: Self)
        ensures
            state@ == fresh_server::<C, W>(secret@, now),
    {
        let state = ServerState {
            control: None,
            registration: 0,
            pending: HashMap::new(),
            next_session_id: SessionIds::new(),
            last_heartbeat: now,
            secret,
        };
        state
    }

    /// The control connection of the client, if one is there.
    pub fn control(&self) -> (control: Option<&C>)
        ensures
            match control {
                Some(c) => self@.control == Some(*c),
                None => self@.control is None,
            },
    {
        self.control.as_ref()
    }
}

/// A server without a client and without sessions.
pub open spec fn fresh_server<C, W>(secret: Seq<char>, now: u128) -> ServerModel<C, W> {
    ServerModel {
        control: None,
        registration: 0,
        pending: Map::empty(),
        next_session_id: 1,
        last_heartbeat: now,
        secret,
    }
}

/// The server when its client is lost: no control connection, and nobody waits
/// for a data connection any more.
pub open spec fn client_lost<C, W>(m: ServerModel<C, W>) -> ServerModel<C, W> {
    ServerModel { control: None, pending: Map::empty(), ..m }
}

/// The number of the registration that follows the one with number `n`.
pub open spec fn registration_after(n: u64) -> u64 {
    if n == u64::MAX {
        0
    } else {
        (n + 1) as u64
    }
}

/// How far a control connection has come.
#[derive(Debug, Clone, Copy, PartialEq, Eq, Structural)]
pub enum ControlPhase {
    /// The client has to prove that it knows the secret.
    Handshake,
    /// The client has proved it, but does not know yet.
    Accepted,
    /// The client is served; its registration has this number.
    Serving(u64),
    /// Nothing more is read.
    Closed,
}

/// What happens on a control connection.
pub enum ControlEvent<C> {
    /// A frame came in.
    Frame((FrameType, u32, Vec<u8>)),
    /// No further frame can be read.
    ReadFailed,
    /// The client was told that it is accepted; frames reach it by this handle.
    Ready(C),
    /// The client could not be told that it is accepted.
    ReplyFailed,
}

/// What a control connection has to do next.
#[derive(Debug, Clone, Copy, PartialEq, Eq, Structural)]
pub enum ControlAction {
    /// Tell the client that it is accepted.
    Accept,
    /// Tell the client that it is refused, and stop.
    Refuse,
    /// Read the next frame.
    Read,
    /// Answer the heartbeat by way of the control handle, then read.
    SendPong,
    /// The frame is none that the server does anything about; read the next one.
    Unexpected,
    /// Stop.
    Stop,
    /// The event is none that the phase waits for.
    Ignore,
}

/// The frame that goes to the client by an action, if any.
pub open spec fn control_reply(action: ControlAction) -> Option<FrameModel> {
    match action {
        ControlAction::Accept => Some(
            FrameModel { frame_type: FrameType::AuthOk, session_id: 0, payload: Seq::empty() },
        ),
        ControlAction::Refuse => Some(
            FrameModel {
                frame_type: FrameType::Close,
                session_id: 0,
                payload: vstd::utf8::encode_utf8("auth failed"@),
            },
        ),
        ControlAction::SendPong => Some(
            FrameModel { frame_type: FrameType::Pong, session_id: 0, payload: Seq::empty() },
        ),
        _ => None,
    }
}

impl ControlAction {
    /// The frame that goes to the client, if any.
    pub fn reply(self) -> (frame: Option<(FrameType, u32, Vec<u8>)>)
        ensures
            match frame {
                Some(f) => control_reply(self) == Some(frame_of(f)),
                None => control_reply(self) is None,
            },
    {
        match self {
            ControlAction::Accept => {
                let payload: Vec<u8> = Vec::new();
                assert(payload@ =~= Seq::empty());
                Some((FrameType::AuthOk, 0, payload))
            },
            ControlAction::Refuse => {
                Some((FrameType::Close, 0, vstd::slice::slice_to_vec("auth failed".as_bytes())))
            },
            ControlAction::SendPong => {
                let payload: Vec<u8> = Vec::new();
                assert(payload@ =~= Seq::empty());
                Some((FrameType::Pong, 0, payload))
            },
            _ => None,
        }
    }
}

/// A client proves itself by a frame of type `Auth` whose payload is the secret,
/// byte for byte.
pub open spec fn proves_itself(
    frame_type: FrameType,
    payload: Seq<u8>,
    secret: Seq<char>,
) -> bool {
    frame_type == FrameType::Auth && payload == vstd::utf8::encode_utf8(secret)
}

/// Whether two payloads are the same.
fn same_bytes(a: &[u8], b: &[u8]) -> (same: bool)
    ensures
        same == (a@ == b@),
{
    if a.len() != b.len() {
        return false;
    }
    let mut i: usize = 0;
    while i < a.len()
        invariant
            i <= a@.len(),
            a@.len() == b@.len(),
            forall|j: int| 0 <= j < i ==> a@[j] == b@[j],
        decreases a@.len() - i,
    {
        if a[i] != b[i] {
            return false;
        }
        i = i + 1;
    }
    assert(a@ =~= b@);
    true
}

/// What the first frame of a control connection comes to.
pub fn answer_auth(frame_type: FrameType, payload: &[u8], secret: &str) -> (r: (
    ControlPhase,
    ControlAction,
))
    ensures
        r == if proves_itself(frame_type, payload@, secret@) {
            (ControlPhase::Accepted, ControlAction::Accept)
        } else {
            (ControlPhase::Closed, ControlAction::Refuse)
        },
{
    if frame_type != FrameType::Auth || !same_bytes(payload, secret.as_bytes()) {
        (ControlPhase::Closed, ControlAction::Refuse)
    } else {
        (ControlPhase::Accepted, ControlAction::Accept)
    }
}

/// What an event on a control connection comes to.
///
/// A connection speaks for the client as long as no other one has been registered
/// since. Whichever connection a heartbeat comes on, the client has been heard of,
/// and the answer goes to the connection that speaks for it, if one is there. Only
/// the end of that connection loses the client.
pub open spec fn control_next<C, W>(
    m: ServerModel<C, W>,
    phase: ControlPhase,
    event: ControlEvent<C>,
    now: u128,
) -> (ServerModel<C, W>, ControlPhase, ControlAction) {
    match (phase, event) {
        (ControlPhase::Handshake, ControlEvent::Frame(f)) => if proves_itself(
            f.0,
            f.2@,
            m.secret,
        ) {
            (m, ControlPhase::Accepted, ControlAction::Accept)
        } else {
            (m, ControlPhase::Closed, ControlAction::Refuse)
        },
        (ControlPhase::Handshake, ControlEvent::ReadFailed) => (
            m,
            ControlPhase::Closed,
            ControlAction::Stop,
        ),
        (ControlPhase::Accepted, ControlEvent::Ready(control)) => {
            let number = registration_after(m.registration);
            (
                ServerModel {
                    control: Some(control),
                    registration: number,
                    last_heartbeat: now,
                    ..m
                },
                ControlPhase::Serving(number),
                ControlAction::Read,
            )
        },
        (ControlPhase::Accepted, ControlEvent::ReplyFailed) => (
            m,
            ControlPhase::Closed,
            ControlAction::Stop,
        ),
        (ControlPhase::Serving(_), ControlEvent::Frame(f)) => if f.0 == FrameType::Ping {
            (
                ServerModel { last_heartbeat: now, ..m },
                phase,
                if m.control is Some {
                    ControlAction::SendPong
                } else {
                    ControlAction::Read
                },
            )
        } else {
            (m, phase, ControlAction::Unexpected)
        },
        (ControlPhase::Serving(number), ControlEvent::ReadFailed) => (
            if m.registration == number {
                client_lost(m)
            } else {
                m
            },
            ControlPhase::Closed,
            ControlAction::Stop,
        ),
        _ => (m, phase, ControlAction::Ignore),
    }
}

/// Handles one event on a control connection. `now` is the time in nanoseconds.
pub fn handle_control<C, W>(
    state: &mut ServerState<C, W>,
    phase: ControlPhase,
    event: ControlEvent<C>,
    now: u128,
) -> (r: (ControlPhase, ControlAction))
    ensures
        (final(state)@, r.0, r.1) == control_next(old(state)@, phase, event, now),
{
    match (phase, event) {
        (ControlPhase::Handshake, ControlEvent::Frame(frame)) => {
            answer_auth(frame.0, frame.2.as_slice(), state.secret.as_str())
        },
        (ControlPhase::Handshake, ControlEvent::ReadFailed) => {
            (ControlPhase::Closed, ControlAction::Stop)
        },
        (ControlPhase::Accepted, ControlEvent::Ready(control)) => {
            let number: u64 = state.registration.wrapping_add(1);
            state.last_heartbeat = now;
            state.control = Some(control);
            state.registration = number;
            (ControlPhase::Serving(number), ControlAction::Read)
        },
        (ControlPhase::Accepted, ControlEvent::ReplyFailed) => {
            (ControlPhase::Closed, ControlAction::Stop)
        },
        (ControlPhase::Serving(_), ControlEvent::Frame(frame)) => {
            if frame.0 == FrameType::Ping {
                state.last_heartbeat = now;
                if state.control.is_some() {
                    (phase, ControlAction::SendPong)
                } else {
                    (phase, ControlAction::Read)
                }
            } else {
                (phase, ControlAction::Unexpected)
            }
        },
        (ControlPhase::Serving(number), ControlEvent::ReadFailed) => {
            if state.registration == number {
                state.control = None;
                state.pending.clear();
            }
            (ControlPhase::Closed, ControlAction::Stop)
        },
        (phase, _) => (phase, ControlAction::Ignore),
    }
}

/// The session that a frame at the front of a data connection names: the payload
/// is its id as four bytes; a frame with another payload names it in its header.
pub open spec fn session_named(frame: FrameModel) -> u32 {
    if frame.payload.len() == 4 {
        from_be32(frame.payload)
    } else {
        frame.session_id
    }
}

/// What a frame that opens a data connection comes to: the session that it is
/// for, if that session waits, no longer waits.
pub open spec fn data_next<C, W>(m: ServerModel<C, W>, frame: FrameModel) -> (
    ServerModel<C, W>,
    Option<W>,
) {
    let id = session_named(frame);
    if frame.frame_type == FrameType::DataConnect && m.pending.contains_key(id) {
        (ServerModel { pending: m.pending.remove(id), ..m }, Some(m.pending[id]))
    } else {
        (m, None)
    }
}

/// Handles the first frame of a data connection: gives the handle of the session
/// that the connection goes to, if there is one.
pub fn handle_data_connect<C, W>(
    state: &mut ServerState<C, W>,
    frame: (FrameType, u32, Vec<u8>),
) -> (waiter: Option<W>)
    ensures
        (final(state)@, waiter) == data_next(old(state)@, frame_of(frame)),
{
    if frame.0 != FrameType::DataConnect {
        return None;
    }
    let id: u32 = if frame.2.len() == 4 {
        assert(frame.2@.subrange(0, 4) =~= frame.2@);
        from_be_bytes(frame.2.as_slice(), 0)
    } else {
        frame.1
    };
    let waiter = state.pending.remove(&id);
    assert(waiter is None ==> old(state)@.pending.remove(id) =~= old(state)@.pending);
    waiter
}

/// How far the connection of an outside user has come.
#[derive(Debug, Clone, Copy, PartialEq, Eq, Structural)]
pub enum ProxyPhase {
    /// The connection is new.
    Arriving,
    /// The client is being told of the session.
    Announcing(u32),
    /// The session waits for its data connection.
    Waiting(u32),
    /// The session relays, as far as its relay has come.
    Bridging(u32, RelayPhase),
    /// The session is over.
    Done,
}

/// What happens to the connection of an outside user.
pub enum ProxyEvent<W> {
    /// It was accepted; its data connection is handed over by this handle.
    Arrived(W),
    /// The client was told of the session.
    Announced,
    /// The client could not be told.
    AnnounceFailed,
    /// The data connection came.
    DataArrived,
    /// The data connection did not come in time, or will not come.
    WaitFailed,
    /// Something happened to the relay.
    Relay(RelayEvent),
}

/// What the connection of an outside user has to do next.
#[derive(Debug, Clone, Copy, PartialEq, Eq, Structural)]
pub enum ProxyAction {
    /// There is no client: stop.
    Reject,
    /// Tell the client of the session.
    Announce(u32),
    /// Wait for the data connection.
    AwaitData(u32),
    /// Relay both ways.
    Bridge(u32),
    /// Tell the receiving side that nothing more comes in this direction, and go
    /// on with the other one.
    PassEnd(u32, Direction),
    /// Shut both connections down, and stop.
    Shutdown(u32),
    /// The session came to nothing: stop.
    GiveUp(u32),
    /// The event is none that the phase waits for.
    Ignore,
}

/// How long a session waits for its data connection, in seconds.
pub const DATA_CONNECT_TIMEOUT: u64 = 10;

/// The frame that tells the client of a session.
pub open spec fn new_connection(session_id: u32) -> FrameModel {
    FrameModel { frame_type: FrameType::NewConnection, session_id, payload: Seq::empty() }
}

/// The frame that tells the client of a session.
pub fn announcement(session_id: u32) -> (frame: (FrameType, u32, Vec<u8>))
    ensures
        frame_of(frame) == new_connection(session_id),
{
    let payload: Vec<u8> = Vec::new();
    assert(payload@ =~= Seq::empty());
    (FrameType::NewConnection, session_id, payload)
}

/// What an event on the connection of an outside user comes to.
pub open spec fn proxy_next<C, W>(
    m: ServerModel<C, W>,
    phase: ProxyPhase,
    event: ProxyEvent<W>,
) -> (ServerModel<C, W>, ProxyPhase, ProxyAction) {
    match (phase, event) {
        (ProxyPhase::Arriving, ProxyEvent::Arrived(waiter)) => if m.control is None {
            (m, ProxyPhase::Done, ProxyAction::Reject)
        } else {
            let id = m.next_session_id;
            (
                ServerModel {
                    pending: m.pending.insert(id, waiter),
                    next_session_id: id_after(id),
                    ..m
                },
                ProxyPhase::Announcing(id),
                ProxyAction::Announce(id),
            )
        },
        (ProxyPhase::Announcing(id), ProxyEvent::Announced) => (
            m,
            ProxyPhase::Waiting(id),
            ProxyAction::AwaitData(id),
        ),
        (ProxyPhase::Waiting(id), ProxyEvent::DataArrived) => (
            m,
            ProxyPhase::Bridging(id, RelayPhase::Open),
            ProxyAction::Bridge(id),
        ),
        (ProxyPhase::Announcing(id), ProxyEvent::AnnounceFailed) | (
            ProxyPhase::Waiting(id),
            ProxyEvent::WaitFailed,
        ) => (
            ServerModel { pending: m.pending.remove(id), ..m },
            ProxyPhase::Done,
            ProxyAction::GiveUp(id),
        ),
        (ProxyPhase::Bridging(id, relay), ProxyEvent::Relay(relay_event)) => {
            let (relay_phase, relay_action) = relay_next(relay, relay_event);
            (
                m,
                if relay_phase == RelayPhase::Over {
                    ProxyPhase::Done
                } else {
                    ProxyPhase::Bridging(id, relay_phase)
                },
                match relay_action {
                    RelayAction::PassEnd(direction) => ProxyAction::PassEnd(id, direction),
                    RelayAction::Shutdown => ProxyAction::Shutdown(id),
                    RelayAction::Ignore => ProxyAction::Ignore,
                },
            )
        },
        _ => (m, phase, ProxyAction::Ignore),
    }
}

/// Handles one event on the connection of an outside user.
pub fn handle_proxy<C, W>(
    state: &mut ServerState<C, W>,
    phase: ProxyPhase,
    event: ProxyEvent<W>,
) -> (r: (ProxyPhase, ProxyAction))
    ensures
        (final(state)@, r.0, r.1) == proxy_next(old(state)@, phase, event),
{
    match (phase, event) {
        (ProxyPhase::Arriving, ProxyEvent::Arrived(waiter)) => {
            if state.control.is_none() {
                return (ProxyPhase::Done, ProxyAction::Reject);
            }
            let id: u32 = state.next_session_id.allocate();
            state.pending.insert(id, waiter);
            (ProxyPhase::Announcing(id), ProxyAction::Announce(id))
        },
        (ProxyPhase::Announcing(id), ProxyEvent::Announced) => {
            (ProxyPhase::Waiting(id), ProxyAction::AwaitData(id))
        },
        (ProxyPhase::Waiting(id), ProxyEvent::DataArrived) => {
            (ProxyPhase::Bridging(id, RelayPhase::Open), ProxyAction::Bridge(id))
        },
        (ProxyPhase::Announcing(id), ProxyEvent::AnnounceFailed) => {
            state.pending.remove(&id);
            (ProxyPhase::Done, ProxyAction::GiveUp(id))
        },
        (ProxyPhase::Waiting(id), ProxyEvent::WaitFailed) => {
            state.pending.remove(&id);
            (ProxyPhase::Done, ProxyAction::GiveUp(id))
        },
        (ProxyPhase::Bridging(id, relay), ProxyEvent::Relay(relay_event)) => {
            let (relay_phase, relay_action) = relay_step(relay, relay_event);
            let next = if relay_phase == RelayPhase::Over {
                ProxyPhase::Done
            } else {
                ProxyPhase::Bridging(id, relay_phase)
            };
            let action = match relay_action {
                RelayAction::PassEnd(direction) => ProxyAction::PassEnd(id, direction),
                RelayAction::Shutdown => ProxyAction::Shutdown(id),
                RelayAction::Ignore => ProxyAction::Ignore,
            };
            (next, action)
        },
        (phase, _) => (phase, ProxyAction::Ignore),
    }
}

/// How often the server looks after its client's heartbeat, in seconds.
pub const WATCHDOG_PERIOD: u64 = 5;

/// The server after a look at its client's heartbeat: a client that has not been
/// heard of for longer than `timeout` seconds is lost.
pub open spec fn watchdog_next<C, W>(
    m: ServerModel<C, W>,
    now: u128,
    timeout: u64,
) -> ServerModel<C, W> {
    if m.control is Some && overdue(m.last_heartbeat, now, timeout) {
        client_lost(m)
    } else {
        m
    }
}

/// Looks after the client's heartbeat, and says whether the client was lost by
/// it. `now` is the time in nanoseconds, `timeout` is in seconds.
pub fn watchdog<C, W>(state: &mut ServerState<C, W>, now: u128, timeout: u64) -> (dropped: bool)
    ensures
        final(state)@ == watchdog_next(old(state)@, now, timeout),
        dropped == (old(state)@.control is Some && final(state)@.control is None),
{
    if is_overdue(state.last_heartbeat, now, timeout) {
        if state.control.is_some() {
            state.control = None;
            state.pending.clear();
            return true;
        }
    }
    false
}

/// The server when the writing side of the control connection with this
/// registration has come to its end: if no other connection has been registered
/// since, there is no control connection any more. Sessions that wait go on
/// waiting.
pub open spec fn writer_ended_next<C, W>(m: ServerModel<C, W>, number: u64) -> ServerModel<C, W> {
    if m.registration == number {
        ServerModel { control: None, ..m }
    } else {
        m
    }
}

/// The writing side of a control connection has come to its end.
pub fn writer_ended<C, W>(state: &mut ServerState<C, W>, number: u64)
    ensures
        final(state)@ == writer_ended_next(old(state)@, number),
{
    if state.registration == number {
        state.control = None;
    }
}

/// A server starts without a client: nobody speaks for one, nobody waits, and the first
/// session will have the id one.
pub proof fn theorem_fresh_server<C, W>(secret: String, now: u128, state: ServerState<C, W>)
    requires
        call_ensures(ServerState::<C, W>::new, (secret, now), state),
    ensures
        ({
            let m = state@;
            &&& m.control is None
            &&& m.registration == 0
            &&& forall|id: u32| !m.pending.contains_key(id)
            &&& m.next_session_id == 1
            &&& m.last_heartbeat == now
            &&& m.secret == secret@
        }),
{
}

/// A client is accepted exactly when it sends the bytes of the secret in a frame of the type
/// for that; there is no other way in, and no other answer than acceptance and refusal.
pub proof fn theorem_only_the_secret_is_accepted(
    frame_type: FrameType,
    payload: &[u8],
    secret: &str,
    r: (ControlPhase, ControlAction),
)
    requires
        call_ensures(answer_auth, (frame_type, payload, secret), r),
    ensures
        r.1 is Accept <==> frame_type == FrameType::Auth && payload@ == vstd::utf8::encode_utf8(
            secret@,
        ),
        r.1 is Accept <==> r.0 is Accepted,
        r.1 is Refuse <==> r.0 is Closed,
        r.1 is Accept || r.1 is Refuse,
{
}

/// What an event on a control connection changes, and what it leaves alone:
/// - ids and the secret, never;
/// - who speaks for the client, by a registration, and by the end of the connection that
///   does;
/// - the sessions that wait, by that end alone, which leaves none;
/// - when the client was heard of, by a registration and by a heartbeat of a client that
///   is served, and then to the present.
pub proof fn theorem_control_effects<C, W>(
    state: &mut ServerState<C, W>,
    phase: ControlPhase,
    event: ControlEvent<C>,
    now: u128,
    r: (ControlPhase, ControlAction),
)
    requires
        call_ensures(handle_control::<C, W>, (state, phase, event, now), r),
    ensures
        ({
            let m = old(state)@;
            let after = final(state)@;
            let registered = phase is Accepted && event is Ready;
            let lost = phase == ControlPhase::Serving(m.registration) && event is ReadFailed;
            let heard = phase is Serving && (event matches ControlEvent::Frame(f) && f.0
                == FrameType::Ping);
            &&& after.secret == m.secret
            &&& after.next_session_id == m.next_session_id
            &&& !registered ==> after.registration == m.registration
            &&& registered && m.registration < u64::MAX ==> after.registration == m.registration
                + 1
            &&& registered && m.registration == u64::MAX ==> after.registration == 0
            &&& registered ==> (event matches ControlEvent::Ready(c) && after.control == Some(c))
            &&& lost ==> after.control is None
            &&& lost ==> forall|id: u32| !after.pending.contains_key(id)
            &&& !registered && !lost ==> after.control == m.control
            &&& !lost ==> after.pending == m.pending
            &&& registered || heard ==> after.last_heartbeat == now
            &&& !registered && !heard ==> after.last_heartbeat == m.last_heartbeat
        }),
{
}

/// When a control connection does what: each action comes on the events given here and on
/// no others.
pub proof fn theorem_control_actions<C, W>(
    state: &mut ServerState<C, W>,
    phase: ControlPhase,
    event: ControlEvent<C>,
    now: u128,
    r: (ControlPhase, ControlAction),
)
    requires
        call_ensures(handle_control::<C, W>, (state, phase, event, now), r),
    ensures
        ({
            let m = old(state)@;
            let action = r.1;
            let is_secret = event matches ControlEvent::Frame(f) && f.0 == FrameType::Auth && f.2@
                == vstd::utf8::encode_utf8(m.secret);
            let is_ping = event matches ControlEvent::Frame(f) && f.0 == FrameType::Ping;
            &&& action is Accept <==> phase is Handshake && is_secret
            &&& action is Refuse <==> phase is Handshake && event is Frame && !is_secret
            &&& action is SendPong <==> phase is Serving && is_ping && m.control is Some
            &&& action is Unexpected <==> phase is Serving && event is Frame && !is_ping
            &&& action is Stop <==> {
                ||| phase is Handshake && event is ReadFailed
                ||| phase is Accepted && event is ReplyFailed
                ||| phase is Serving && event is ReadFailed
            }
            &&& action is Read <==> {
                ||| phase is Accepted && event is Ready
                ||| phase is Serving && is_ping && m.control is None
            }
        }),
{
}

/// Where a control connection goes by what it does: a client that is told so is accepted,
/// one that is refused or stops is closed, and one that is registered is served under the
/// number of its registration; nothing else takes a connection to another phase.
pub proof fn theorem_control_phases<C, W>(
    state: &mut ServerState<C, W>,
    phase: ControlPhase,
    event: ControlEvent<C>,
    now: u128,
    r: (ControlPhase, ControlAction),
)
    requires
        call_ensures(handle_control::<C, W>, (state, phase, event, now), r),
    ensures
        ({
            let (next, action) = r;
            &&& action is Accept ==> next is Accepted
            &&& action is Refuse || action is Stop ==> next is Closed
            &&& phase is Accepted && event is Ready ==> next == ControlPhase::Serving(
                final(state)@.registration,
            )
            &&& action is Read && !(phase is Accepted) ==> next == phase
            &&& action is SendPong || action is Unexpected || action is Ignore ==> next == phase
        }),
{
}

/// What goes to the client by which action: the acceptance, the refusal and the answer to
/// a heartbeat, and no other frame by any other action.
pub proof fn theorem_control_replies(
    action: ControlAction,
    reply: Option<(FrameType, u32, Vec<u8>)>,
)
    requires
        call_ensures(ControlAction::reply, (action,), reply),
    ensures
        reply is Some <==> action is Accept || action is Refuse
            || action is SendPong,
        reply matches Some(frame) ==> {
            &&& frame.1 == 0
            &&& action is Accept ==> frame.0 == FrameType::AuthOk && frame.2@.len()
                == 0
            &&& action is SendPong ==> frame.0 == FrameType::Pong && frame.2@.len()
                == 0
            &&& action is Refuse ==> frame.0 == FrameType::Close && frame.2@
                == vstd::utf8::encode_utf8("auth failed"@)
        },
{
}

/// A session is announced by its id alone.
pub proof fn theorem_announcement_names_the_session(id: u32, frame: (FrameType, u32, Vec<u8>))
    requires
        call_ensures(announcement, (id,), frame),
    ensures
        frame.0 == FrameType::NewConnection,
        frame.1 == id,
        frame.2@.len() == 0,
{
}

/// A client whose control connection breaks is gone, whether or not sessions wait: a user
/// who comes next is turned away, and no data connection is handed to anybody.
pub proof fn theorem_broken_connection_loses_the_client<C, W>(
    m: ServerModel<C, W>,
    now: u128,
    user: W,
    opening: FrameModel,
)
    ensures
        ({
            let after = control_next(
                m,
                ControlPhase::Serving(m.registration),
                ControlEvent::ReadFailed,
                now,
            ).0;
            &&& after.control is None
            &&& after.pending == Map::<u32, W>::empty()
            &&& proxy_next(after, ProxyPhase::Arriving, ProxyEvent::Arrived(user)).2
                == ProxyAction::Reject
            &&& data_next(after, opening).1 is None
        }),
{
}

/// A client counts as heard of when it is registered, not only at its first heartbeat: a
/// look within the timeout changes nothing, and a later one drops it if it stays silent.
pub proof fn theorem_registration_counts_as_heartbeat<C, W>(
    m: ServerModel<C, W>,
    control: C,
    since: u128,
    now: u128,
    timeout: u64,
)
    ensures
        ({
            let ready = control_next(
                m,
                ControlPhase::Accepted,
                ControlEvent::Ready(control),
                since,
            ).0;
            let looked = watchdog_next(ready, now, timeout);
            &&& now <= since + timeout * 1_000_000_000 ==> looked == ready && looked.control
                == Some(control)
            &&& now > since + timeout * 1_000_000_000 ==> looked.control is None
        }),
{
}

/// What a look after the heartbeat changes: a client that is there and was last heard of
/// more than `timeout` seconds ago is gone, with all sessions that wait, and that is said;
/// else nothing changes, and nothing else ever does.
pub proof fn theorem_watchdog_effects<C, W>(
    state: &mut ServerState<C, W>,
    now: u128,
    timeout: u64,
    dropped: bool,
)
    requires
        call_ensures(watchdog::<C, W>, (state, now, timeout), dropped),
    ensures
        ({
            let m = old(state)@;
            let after = final(state)@;
            let silent = now > m.last_heartbeat + timeout * 1_000_000_000;
            &&& dropped <==> m.control is Some && silent
            &&& dropped ==> after.control is None && forall|id: u32|
                !after.pending.contains_key(id)
            &&& !dropped ==> after == m
            &&& after.registration == m.registration
            &&& after.next_session_id == m.next_session_id
            &&& after.last_heartbeat == m.last_heartbeat
            &&& after.secret == m.secret
        }),
{
}

/// What the end of a writing side changes: nobody speaks for the client any more, if that
/// connection did; else nothing, and nothing else ever does.
pub proof fn theorem_writer_end_effects<C, W>(state: &mut ServerState<C, W>, number: u64)
    requires
        call_ensures(writer_ended::<C, W>, (state, number), ()),
    ensures
        ({
            let m = old(state)@;
            let after = final(state)@;
            &&& number == m.registration ==> after.control is None
            &&& number != m.registration ==> after.control == m.control
            &&& after.pending == m.pending
            &&& after.registration == m.registration
            &&& after.next_session_id == m.next_session_id
            &&& after.last_heartbeat == m.last_heartbeat
            &&& after.secret == m.secret
        }),
{
}

/// Whom a data connection goes to: the session whose id is its first frame's payload, as
/// four bytes, or stands in that frame's header, if the payload has another length. That
/// session, and no other, waits no longer; a frame of another type, or for a session that
/// does not wait, changes nothing.
pub proof fn theorem_data_connection_goes_to_its_session<C, W>(
    state: &mut ServerState<C, W>,
    frame: (FrameType, u32, Vec<u8>),
    waiter: Option<W>,
    id: u32,
)
    requires
        call_ensures(handle_data_connect::<C, W>, (state, frame), waiter),
        if frame.2@.len() == 4 {
            id == frame.2@[0] * 0x100_0000 + frame.2@[1] * 0x1_0000 + frame.2@[2]
                * 0x100 + frame.2@[3]
        } else {
            id == frame.1
        },
    ensures
        ({
            let m = old(state)@;
            let after = final(state)@;
            let met = frame.0 == FrameType::DataConnect && m.pending.contains_key(id);
            &&& met ==> waiter == Some(m.pending[id])
            &&& met ==> !after.pending.contains_key(id)
            &&& met ==> forall|other: u32|
                other != id ==> {
                    &&& after.pending.contains_key(other) == m.pending.contains_key(other)
                    &&& m.pending.contains_key(other) ==> after.pending[other] == m.pending[other]
                }
            &&& !met ==> waiter is None && after == m
            &&& after.control == m.control
            &&& after.registration == m.registration
            &&& after.next_session_id == m.next_session_id
            &&& after.last_heartbeat == m.last_heartbeat
            &&& after.secret == m.secret
        }),
{
}

/// What an event on the connection of a user changes, and what it leaves alone:
/// - the client, never;
/// - the next id, when a user comes while a client is there, and then by one, past zero;
/// - the sessions that wait: that user's session begins to, and a session that cannot be
///   announced or is not met in time ceases to; no other session is touched.
pub proof fn theorem_proxy_effects<C, W>(
    state: &mut ServerState<C, W>,
    phase: ProxyPhase,
    event: ProxyEvent<W>,
    r: (ProxyPhase, ProxyAction),
    other: u32,
)
    requires
        call_ensures(handle_proxy::<C, W>, (state, phase, event), r),
    ensures
        ({
            let m = old(state)@;
            let after = final(state)@;
            let opened = phase is Arriving && event is Arrived && m.control is Some;
            let failed = |id: u32|
                {
                    ||| phase == ProxyPhase::Announcing(id) && event is AnnounceFailed
                    ||| phase == ProxyPhase::Waiting(id) && event is WaitFailed
                };
            &&& after.control == m.control
            &&& after.registration == m.registration
            &&& after.last_heartbeat == m.last_heartbeat
            &&& after.secret == m.secret
            &&& !opened ==> after.next_session_id == m.next_session_id
            &&& opened && m.next_session_id < u32::MAX ==> after.next_session_id
                == m.next_session_id + 1
            &&& opened && m.next_session_id == u32::MAX ==> after.next_session_id == 1
            &&& opened ==> after.pending.contains_key(m.next_session_id)
            &&& opened ==> (event matches ProxyEvent::Arrived(user)
                && after.pending[m.next_session_id] == user)
            &&& failed(other) ==> !after.pending.contains_key(other)
            &&& !failed(other) && !(opened && other == m.next_session_id) ==> {
                &&& after.pending.contains_key(other) == m.pending.contains_key(other)
                &&& m.pending.contains_key(other) ==> after.pending[other] == m.pending[other]
            }
        }),
{
}

/// When the connection of a user does what: each action comes on the events given here and
/// on no others, whatever other sessions do.
pub proof fn theorem_proxy_actions<C, W>(
    state: &mut ServerState<C, W>,
    phase: ProxyPhase,
    event: ProxyEvent<W>,
    r: (ProxyPhase, ProxyAction),
    id: u32,
    direction: Direction,
)
    requires
        call_ensures(handle_proxy::<C, W>, (state, phase, event), r),
    ensures
        ({
            let m = old(state)@;
            let action = r.1;
            let arrives = phase is Arriving && event is Arrived;
            let relaying = phase matches ProxyPhase::Bridging(i, relay) && i == id && !(
            relay is Over);
            let other_ended = phase matches ProxyPhase::Bridging(i, RelayPhase::Half(ended))
                && event matches ProxyEvent::Relay(RelayEvent::Ended(d)) && d != ended;
            &&& action is Reject <==> arrives && m.control is None
            &&& action == ProxyAction::Announce(id) <==> arrives && m.control is Some && id
                == m.next_session_id
            &&& action == ProxyAction::AwaitData(id) <==> phase == ProxyPhase::Announcing(id)
                && event is Announced
            &&& action == ProxyAction::Bridge(id) <==> phase == ProxyPhase::Waiting(id)
                && event is DataArrived
            &&& action == ProxyAction::GiveUp(id) <==> {
                ||| phase == ProxyPhase::Announcing(id) && event is AnnounceFailed
                ||| phase == ProxyPhase::Waiting(id) && event is WaitFailed
            }
            &&& action == ProxyAction::PassEnd(id, direction) <==> phase == ProxyPhase::Bridging(
                id,
                RelayPhase::Open,
            ) && event == ProxyEvent::<W>::Relay(RelayEvent::Ended(direction))
            &&& action == ProxyAction::Shutdown(id) <==> relaying && (event
                == ProxyEvent::<W>::Relay(RelayEvent::Failed) || other_ended)
        }),
{
}

/// Where the connection of a user goes by what it does.
pub proof fn theorem_proxy_phases<C, W>(
    state: &mut ServerState<C, W>,
    phase: ProxyPhase,
    event: ProxyEvent<W>,
    r: (ProxyPhase, ProxyAction),
)
    requires
        call_ensures(handle_proxy::<C, W>, (state, phase, event), r),
    ensures
        ({
            let (next, action) = r;
            match action {
                ProxyAction::Announce(id) => next == ProxyPhase::Announcing(id),
                ProxyAction::AwaitData(id) => next == ProxyPhase::Waiting(id),
                ProxyAction::Bridge(id) => next == ProxyPhase::Bridging(id, RelayPhase::Open),
                ProxyAction::PassEnd(id, direction) => next == ProxyPhase::Bridging(
                    id,
                    RelayPhase::Half(direction),
                ),
                ProxyAction::Reject => next is Done,
                ProxyAction::GiveUp(id) => next is Done,
                ProxyAction::Shutdown(id) => next is Done,
                ProxyAction::Ignore => next == phase || (phase matches ProxyPhase::Bridging(
                    id,
                    relay,
                ) && relay is Over && next is Done),
            }
        }),
{
}

/// A session goes its way whatever other sessions wait: once it is announced it waits, and
/// once its data connection comes it is bridged, and the server's state is not touched.
pub proof fn theorem_met_session_is_bridged<C, W>(m: ServerModel<C, W>, id: u32)
    ensures
        proxy_next(m, ProxyPhase::Announcing(id), ProxyEvent::Announced) == (
            m,
            ProxyPhase::Waiting(id),
            ProxyAction::AwaitData(id),
        ),
        proxy_next(m, ProxyPhase::Waiting(id), ProxyEvent::DataArrived) == (
            m,
            ProxyPhase::Bridging(id, RelayPhase::Open),
            ProxyAction::Bridge(id),
        ),
{
}

/// The phase of a session's connection after several events of its relay, in their order,
/// whatever the server's states in between.
pub open spec fn bridge_run<C, W>(
    states: Seq<ServerModel<C, W>>,
    id: u32,
    events: Seq<RelayEvent>,
) -> ProxyPhase
    decreases events.len(),
{
    if events.len() == 0 {
        ProxyPhase::Bridging(id, RelayPhase::Open)
    } else {
        proxy_next(
            states[events.len() - 1],
            bridge_run(states, id, events.drop_last()),
            ProxyEvent::<W>::Relay(events.last()),
        ).1
    }
}

/// A session's user and data connection are relayed until both directions have come to
/// their end or the relay has failed, and not longer: the session is done exactly then; the
/// end of the first direction is passed on; and the event that makes the session done shuts
/// both connections down.
pub proof fn theorem_session_lasts_as_long_as_its_relay<C, W>(
    states: Seq<ServerModel<C, W>>,
    id: u32,
    events: Seq<RelayEvent>,
    m: ServerModel<C, W>,
    direction: Direction,
    next: RelayEvent,
)
    ensures
        ({
            let over = |seen: Seq<RelayEvent>|
                {
                    ||| seen.contains(RelayEvent::Failed)
                    ||| seen.contains(RelayEvent::Ended(Direction::ToService)) && seen.contains(
                        RelayEvent::Ended(Direction::ToUser),
                    )
                };
            let phase = bridge_run(states, id, events);
            let step = proxy_next(m, phase, ProxyEvent::<W>::Relay(next));
            let none_ended = !events.contains(RelayEvent::Ended(Direction::ToService))
                && !events.contains(RelayEvent::Ended(Direction::ToUser));
            &&& phase is Done <==> over(events)
            &&& step.0 == m
            &&& step.1 is Done <==> over(events.push(next))
            &&& !over(events) && over(events.push(next)) <==> step.2 == ProxyAction::Shutdown(id)
            &&& !over(events) && none_ended && next == RelayEvent::Ended(direction) <==> step.2
                == ProxyAction::PassEnd(id, direction)
        }),
{
    lemma_bridge_run(states, id, events);
    theorem_relay_ends_with_both_directions(events);
    assert forall|e: RelayEvent| #[trigger]
        events.push(next).contains(e) <==> events.contains(e) || e == next by {
        if events.contains(e) {
            let i = choose|i: int| 0 <= i < events.len() && events[i] == e;
            assert(events.push(next)[i] == e);
        }
        if e == next {
            assert(events.push(next)[events.len() as int] == e);
        }
        if events.push(next).contains(e) && e != next {
            let i = choose|i: int| 0 <= i < events.len() + 1 && events.push(next)[i] == e;
            assert(events[i] == e);
        }
    }
}

/// A session's connection is bridged as far as its relay has come, and done when that is
/// over.
proof fn lemma_bridge_run<C, W>(
    states: Seq<ServerModel<C, W>>,
    id: u32,
    events: Seq<RelayEvent>,
)
    ensures
        bridge_run(states, id, events) == if relay_run(events) is Over {
            ProxyPhase::Done
        } else {
            ProxyPhase::Bridging(id, relay_run(events))
        },
    decreases events.len(),
{
    if events.len() > 0 {
        lemma_bridge_run(states, id, events.drop_last());
    }
}

/// Who can be let in: a user's session is announced exactly when there is a control
/// connection to announce it on, and else the user is turned away.
pub proof fn theorem_users_need_a_client<C, W>(
    state: &mut ServerState<C, W>,
    control: Option<&C>,
    user: W,
    r: (ProxyPhase, ProxyAction),
)
    requires
        call_ensures(ServerState::<C, W>::control, (&*old(state),), control),
        call_ensures(
            handle_proxy::<C, W>,
            (state, ProxyPhase::Arriving, ProxyEvent::Arrived(user)),
            r,
        ),
    ensures
        control matches Some(c) ==> old(state)@.control == Some(*c),
        control is Some <==> r.1 is Announce,
        control is None <==> r.1 is Reject,
{
}

} // verus!
