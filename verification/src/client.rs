use std::collections::HashMap;
use vstd::prelude::*;
use vstd::string::StringExecFns;
use vstd::utf8::encode_utf8;

use crate::heartbeat::{is_overdue, overdue};
use crate::protocol::{
    be32, frame_of, theorem_be32_is_the_number, to_be_bytes, FrameModel, FrameType,
};
use crate::relay::{relay_next, relay_step, Direction, RelayAction, RelayEvent, RelayPhase};
use crate::text::{lossy_text, payload_text, text_of, theorem_text_round_trip};

verus! {

broadcast use vstd::std_specs::hash::group_hash_axioms;

/// A session that a client relays. `S` is a handle of its relay; once the handle is
/// gone, nothing more goes to the local service, and the relay ends with what still
/// comes from there.
pub struct LocalSession<S> {
    pub handle: S,
    pub relay: RelayPhase,
}

/// What a client keeps while it is connected.
pub struct ClientState<S> {
    sessions: HashMap<u32, LocalSession<S>>,
    last_pong: u128,
}

/// The state of a client.
#[verifier::ext_equal]
pub struct ClientModel<S> {
    /// The sessions that are relayed.
    pub sessions: Map<u32, LocalSession<S>>,
    /// When the server was last heard of, in nanoseconds.
    pub last_pong: u128,
}

impl<S> View for ClientState<S> {
    type V = ClientModel<S>;

    closed spec fn view(&self) -> ClientModel<S> {
        ClientModel { sessions: self.sessions@, last_pong: self.last_pong }
    }
}

impl<S> ClientState<S> {
    /// A client without sessions.
    pub fn new(now: u128) -> (state: Self)
        ensures
            state@ == (ClientModel::<S> { sessions: Map::empty(), last_pong: now }),
    {
        ClientState { sessions: HashMap::new(), last_pong: now }
    }
}

/// How far a client's connection to the server has come.
#[derive(Debug, Clone, Copy, PartialEq, Eq, Structural)]
pub enum ClientPhase {
    /// The control connection is being opened.
    Connecting,
    /// The server has to accept the client.
    Authenticating,
    /// The server sends sessions.
    Serving,
    /// The connection is over.
    Ended,
}

/// What happens to a client.
pub enum ClientEvent<S> {
    /// The control connection is open.
    Connected,
    /// A frame came in on the control connection.
    Frame((FrameType, u32, Vec<u8>)),
    /// Opening, writing or reading the control connection failed.
    ControlFailed,
    /// It is time for a heartbeat.
    Tick,
    /// The local service and the server's data port are connected for a session.
    SessionOpened(u32, S),
    /// One of the two could not be connected.
    SessionFailed(u32),
    /// Something happened to the relay of a session.
    Relay(u32, RelayEvent),
}

/// What a client has to do next.
#[derive(Debug)]
pub enum ClientAction {
    /// Send the secret to the server, and wait for its answer.
    Authenticate,
    /// Start to read frames and to send heartbeats.
    Serve,
    /// Send a heartbeat.
    SendPing,
    /// Connect the local service and the server's data port for a session.
    OpenSession(u32),
    /// Tell the server on the data connection which session it is for, then relay.
    Join(u32),
    /// Tell the receiving side of a session's relay that nothing more comes in this
    /// direction, and go on with the other one.
    PassEnd(u32, Direction),
    /// Tell the server that a session is over.
    SendClose(u32),
    /// Nothing.
    Continue,
    /// The frame is none that a server sends.
    Unexpected,
    /// Stop; the connection was refused, for this reason.
    Refused(String),
    /// Stop; the connection failed before the server accepted the client.
    Failed,
    /// Stop; the connection is over.
    Finished,
    /// The event is none that the phase waits for.
    Ignore,
}

/// How many heartbeat intervals a client waits for the server's answer.
pub const MISSED_HEARTBEATS: u64 = 3;

/// The frame by which a client proves itself.
pub open spec fn auth_request(secret: Seq<char>) -> FrameModel {
    FrameModel { frame_type: FrameType::Auth, session_id: 0, payload: encode_utf8(secret) }
}

/// The frame that says which session a data connection is for.
pub open spec fn data_connect(session_id: u32) -> FrameModel {
    FrameModel { frame_type: FrameType::DataConnect, session_id, payload: be32(session_id) }
}

/// A frame without a payload.
pub open spec fn bare(frame_type: FrameType, session_id: u32) -> FrameModel {
    FrameModel { frame_type, session_id, payload: Seq::empty() }
}

/// The frame that goes to the server by an action, if any.
pub open spec fn client_request(action: ClientAction, secret: Seq<char>) -> Option<FrameModel> {
    match action {
        ClientAction::Authenticate => Some(auth_request(secret)),
        ClientAction::SendPing => Some(bare(FrameType::Ping, 0)),
        ClientAction::Join(id) => Some(data_connect(id)),
        ClientAction::SendClose(id) => Some(bare(FrameType::Close, id)),
        _ => None,
    }
}

impl ClientAction {
    /// The frame that goes to the server, if any: on the data connection of the
    /// session for `Join`, on the control connection else.
    pub fn request(&self, secret: &str) -> (frame: Option<(FrameType, u32, Vec<u8>)>)
        ensures
            match frame {
                Some(f) => client_request(*self, secret@) == Some(frame_of(f)),
                None => client_request(*self, secret@) is None,
            },
    {
        match self {
            ClientAction::Authenticate => {
                Some((FrameType::Auth, 0, vstd::slice::slice_to_vec(secret.as_bytes())))
            },
            ClientAction::SendPing => {
                let payload: Vec<u8> = Vec::new();
                assert(payload@ =~= Seq::empty());
                Some((FrameType::Ping, 0, payload))
            },
            ClientAction::Join(id) => {
                Some((FrameType::DataConnect, *id, vstd::slice::slice_to_vec(&to_be_bytes(*id))))
            },
            ClientAction::SendClose(id) => {
                let payload: Vec<u8> = Vec::new();
                assert(payload@ =~= Seq::empty());
                Some((FrameType::Close, *id, payload))
            },
            _ => None,
        }
    }
}

/// Why the server refused, given the text of its answer.
pub open spec fn refusal(text: Seq<char>) -> Seq<char> {
    "Auth failed: "@ + text
}

/// What the server's answer to the secret comes to, given the text of its
/// payload: nothing, or the reason of a refusal.
pub fn judge_answer(frame_type: FrameType, text: &str) -> (refused: Option<String>)
    ensures
        match refused {
            Some(reason) => frame_type != FrameType::AuthOk && reason@ == refusal(text@),
            None => frame_type == FrameType::AuthOk,
        },
{
    if frame_type != FrameType::AuthOk {
        let reason: String = "Auth failed: ".to_owned();
        Some(reason.concat(text))
    } else {
        None
    }
}

/// The client when its connection is over: all sessions are given up.
pub open spec fn disconnected<S>(m: ClientModel<S>) -> ClientModel<S> {
    ClientModel { sessions: Map::empty(), ..m }
}

/// What an event comes to, but for the answer of the server to the secret.
///
/// The server is told of the end of every session, once the session is over on the
/// local side: when its relay is over, or, for a session that the server has closed
/// and the client keeps no more, when nothing more comes from the local service.
pub open spec fn client_next<S>(
    m: ClientModel<S>,
    phase: ClientPhase,
    event: ClientEvent<S>,
    now: u128,
    heartbeat_interval: u64,
) -> (ClientModel<S>, ClientPhase, ClientAction) {
    match (phase, event) {
        (ClientPhase::Connecting, ClientEvent::Connected) => (
            m,
            ClientPhase::Authenticating,
            ClientAction::Authenticate,
        ),
        (ClientPhase::Connecting, ClientEvent::ControlFailed) | (
            ClientPhase::Authenticating,
            ClientEvent::ControlFailed,
        ) => (m, ClientPhase::Ended, ClientAction::Failed),
        (ClientPhase::Serving, ClientEvent::Frame(f)) => match f.0 {
            FrameType::Pong => (
                ClientModel { last_pong: now, ..m },
                ClientPhase::Serving,
                ClientAction::Continue,
            ),
            FrameType::NewConnection => (m, ClientPhase::Serving, ClientAction::OpenSession(f.1)),
            FrameType::Close => (
                ClientModel { sessions: m.sessions.remove(f.1), ..m },
                ClientPhase::Serving,
                if m.sessions.contains_key(f.1) && m.sessions[f.1].relay == RelayPhase::Half(
                    Direction::ToUser,
                ) {
                    ClientAction::SendClose(f.1)
                } else {
                    ClientAction::Continue
                },
            ),
            _ => (m, ClientPhase::Serving, ClientAction::Unexpected),
        },
        (ClientPhase::Serving, ClientEvent::ControlFailed) => (
            disconnected(m),
            ClientPhase::Ended,
            ClientAction::Finished,
        ),
        (ClientPhase::Serving, ClientEvent::Tick) => if overdue(
            m.last_pong,
            now,
            (heartbeat_interval * MISSED_HEARTBEATS) as u64,
        ) {
            (disconnected(m), ClientPhase::Ended, ClientAction::Finished)
        } else {
            (m, ClientPhase::Serving, ClientAction::SendPing)
        },
        (ClientPhase::Serving, ClientEvent::SessionOpened(id, session)) => (
            ClientModel {
                sessions: m.sessions.insert(
                    id,
                    LocalSession { handle: session, relay: RelayPhase::Open },
                ),
                ..m
            },
            ClientPhase::Serving,
            ClientAction::Join(id),
        ),
        (ClientPhase::Serving, ClientEvent::SessionFailed(id)) => (
            m,
            ClientPhase::Serving,
            ClientAction::SendClose(id),
        ),
        (ClientPhase::Serving, ClientEvent::Relay(id, relay_event)) => if m.sessions.contains_key(
            id,
        ) {
            let session = m.sessions[id];
            let (relay, relay_action) = relay_next(session.relay, relay_event);
            if relay == RelayPhase::Over {
                (
                    ClientModel { sessions: m.sessions.remove(id), ..m },
                    ClientPhase::Serving,
                    ClientAction::SendClose(id),
                )
            } else {
                (
                    ClientModel {
                        sessions: m.sessions.insert(id, LocalSession { relay, ..session }),
                        ..m
                    },
                    ClientPhase::Serving,
                    match relay_action {
                        RelayAction::PassEnd(direction) => ClientAction::PassEnd(id, direction),
                        _ => ClientAction::Continue,
                    },
                )
            }
        } else {
            (
                m,
                ClientPhase::Serving,
                if relay_event == RelayEvent::Ended(Direction::ToService) {
                    ClientAction::Continue
                } else {
                    ClientAction::SendClose(id)
                },
            )
        },
        _ => (m, phase, ClientAction::Ignore),
    }
}

/// An event takes a client from one state and phase to another, by this action.
pub open spec fn client_steps<S>(
    m: ClientModel<S>,
    phase: ClientPhase,
    event: ClientEvent<S>,
    now: u128,
    heartbeat_interval: u64,
    next: (ClientModel<S>, ClientPhase, ClientAction),
) -> bool {
    match (phase, event) {
        (ClientPhase::Authenticating, ClientEvent::Frame(f)) => if f.0 == FrameType::AuthOk {
            &&& next.0 == (ClientModel::<S> { sessions: Map::empty(), last_pong: now })
            &&& next.1 == ClientPhase::Serving
            &&& next.2 == ClientAction::Serve
        } else {
            &&& next.0 == m
            &&& next.1 == ClientPhase::Ended
            &&& next.2 matches ClientAction::Refused(reason) && reason@ == refusal(
                payload_text(f.2@),
            )
        },
        _ => next == client_next(m, phase, event, now, heartbeat_interval),
    }
}

/// Handles one event of a client. `now` is the time in nanoseconds,
/// `heartbeat_interval` is in seconds.
pub fn run_client<S>(
    state: &mut ClientState<S>,
    phase: ClientPhase,
    event: ClientEvent<S>,
    now: u128,
    heartbeat_interval: u64,
) -> (r: (ClientPhase, ClientAction))
    requires
        event is Tick ==> heartbeat_interval * MISSED_HEARTBEATS <= u64::MAX,
    ensures
        client_steps(
            old(state)@,
            phase,
            event,
            now,
            heartbeat_interval,
            (final(state)@, r.0, r.1),
        ),
{
    match (phase, event) {
        (ClientPhase::Connecting, ClientEvent::Connected) => {
            (ClientPhase::Authenticating, ClientAction::Authenticate)
        },
        (ClientPhase::Connecting, ClientEvent::ControlFailed) => {
            (ClientPhase::Ended, ClientAction::Failed)
        },
        (ClientPhase::Authenticating, ClientEvent::ControlFailed) => {
            (ClientPhase::Ended, ClientAction::Failed)
        },
        (ClientPhase::Authenticating, ClientEvent::Frame(frame)) => {
            let text: String = text_of(frame.2.as_slice());
            match judge_answer(frame.0, text.as_str()) {
                Some(reason) => (ClientPhase::Ended, ClientAction::Refused(reason)),
                None => {
                    state.sessions.clear();
                    state.last_pong = now;
                    (ClientPhase::Serving, ClientAction::Serve)
                },
            }
        },
        (ClientPhase::Serving, ClientEvent::Frame(frame)) => match frame.0 {
            FrameType::Pong => {
                state.last_pong = now;
                (ClientPhase::Serving, ClientAction::Continue)
            },
            FrameType::NewConnection => (ClientPhase::Serving, ClientAction::OpenSession(frame.1)),
            FrameType::Close => {
                match state.sessions.remove(&frame.1) {
                    Some(session) => {
                        if session.relay == RelayPhase::Half(Direction::ToUser) {
                            (ClientPhase::Serving, ClientAction::SendClose(frame.1))
                        } else {
                            (ClientPhase::Serving, ClientAction::Continue)
                        }
                    },
                    None => (ClientPhase::Serving, ClientAction::Continue),
                }
            },
            _ => (ClientPhase::Serving, ClientAction::Unexpected),
        },
        (ClientPhase::Serving, ClientEvent::ControlFailed) => {
            state.sessions.clear();
            (ClientPhase::Ended, ClientAction::Finished)
        },
        (ClientPhase::Serving, ClientEvent::Tick) => {
            if is_overdue(state.last_pong, now, heartbeat_interval * MISSED_HEARTBEATS) {
                state.sessions.clear();
                (ClientPhase::Ended, ClientAction::Finished)
            } else {
                (ClientPhase::Serving, ClientAction::SendPing)
            }
        },
        (ClientPhase::Serving, ClientEvent::SessionOpened(id, session)) => {
            state.sessions.insert(id, LocalSession { handle: session, relay: RelayPhase::Open });
            (ClientPhase::Serving, ClientAction::Join(id))
        },
        (ClientPhase::Serving, ClientEvent::SessionFailed(id)) => {
            (ClientPhase::Serving, ClientAction::SendClose(id))
        },
        (ClientPhase::Serving, ClientEvent::Relay(id, relay_event)) => {
            match state.sessions.remove(&id) {
                None => {
                    assert(old(state)@.sessions.remove(id) =~= old(state)@.sessions);
                    if relay_event == RelayEvent::Ended(Direction::ToService) {
                        (ClientPhase::Serving, ClientAction::Continue)
                    } else {
                        (ClientPhase::Serving, ClientAction::SendClose(id))
                    }
                },
                Some(session) => {
                    let (relay, relay_action) = relay_step(session.relay, relay_event);
                    if relay == RelayPhase::Over {
                        return (ClientPhase::Serving, ClientAction::SendClose(id));
                    }
                    state.sessions.insert(id, LocalSession { handle: session.handle, relay });
                    assert(state@.sessions =~= old(state)@.sessions.insert(
                        id,
                        LocalSession { relay, ..session },
                    ));
                    match relay_action {
                        RelayAction::PassEnd(direction) => {
                            (ClientPhase::Serving, ClientAction::PassEnd(id, direction))
                        },
                        _ => (ClientPhase::Serving, ClientAction::Continue),
                    }
                },
            }
        },
        (phase, _) => (phase, ClientAction::Ignore),
    }
}

/// When the server was last heard of: the present, once it accepts the client or answers a
/// heartbeat of a client that is served; no other event changes that.
pub proof fn theorem_client_hears_the_server<S>(
    state: &mut ClientState<S>,
    phase: ClientPhase,
    event: ClientEvent<S>,
    now: u128,
    heartbeat_interval: u64,
    r: (ClientPhase, ClientAction),
)
    requires
        call_ensures(run_client::<S>, (state, phase, event, now, heartbeat_interval), r),
    ensures
        ({
            let m = old(state)@;
            let heard = event matches ClientEvent::Frame(f) && {
                ||| phase is Authenticating && f.0 == FrameType::AuthOk
                ||| phase is Serving && f.0 == FrameType::Pong
            };
            &&& heard ==> final(state)@.last_pong == now
            &&& !heard ==> final(state)@.last_pong == m.last_pong
        }),
{
}

/// What becomes of the session `id` of a client by an event:
/// - it begins, with both directions open, when it is opened;
/// - it ends when the server closes it, when its relay fails or has nothing more to pass in
///   either direction, and, as all sessions do, when the connection begins or is over;
/// - it keeps its handle and remembers the direction that has come to its end, when the
///   first does;
/// - no other event touches it, and none that is about another session.
pub proof fn theorem_client_keeps_its_sessions<S>(
    state: &mut ClientState<S>,
    phase: ClientPhase,
    event: ClientEvent<S>,
    now: u128,
    heartbeat_interval: u64,
    r: (ClientPhase, ClientAction),
    id: u32,
)
    requires
        call_ensures(run_client::<S>, (state, phase, event, now, heartbeat_interval), r),
        event is Tick ==> heartbeat_interval * MISSED_HEARTBEATS <= u64::MAX,
    ensures
        ({
            let m = old(state)@;
            let after = final(state)@.sessions;
            let silent = now > m.last_pong + 3 * heartbeat_interval * 1_000_000_000;
            let opens = phase is Serving && (event matches ClientEvent::SessionOpened(i, s) && i
                == id);
            let relay_event = event matches ClientEvent::Relay(i, e) && i == id && phase is Serving;
            let ends = {
                ||| phase is Authenticating && (event matches ClientEvent::Frame(f) && f.0
                    == FrameType::AuthOk)
                ||| phase is Serving && (event is ControlFailed || event is Tick && silent)
                ||| phase is Serving && (event matches ClientEvent::Frame(f) && f.0
                    == FrameType::Close && f.1 == id)
                ||| relay_event && m.sessions.contains_key(id) && (event matches ClientEvent::Relay(
                    i,
                    e,
                ) && match m.sessions[id].relay {
                    RelayPhase::Open => e is Failed,
                    RelayPhase::Half(ended) => e is Failed || e != RelayEvent::Ended(ended),
                    RelayPhase::Over => true,
                })
            };
            let halves = relay_event && m.sessions.contains_key(id) && m.sessions[id].relay is Open
                && (event matches ClientEvent::Relay(i, e) && e is Ended);
            &&& opens ==> (event matches ClientEvent::SessionOpened(i, s) && after.contains_key(id)
                && after[id].handle == s && after[id].relay == RelayPhase::Open)
            &&& ends ==> !after.contains_key(id)
            &&& halves ==> {
                &&& after.contains_key(id)
                &&& after[id].handle == m.sessions[id].handle
                &&& event matches ClientEvent::Relay(i, RelayEvent::Ended(d)) && after[id].relay
                    == RelayPhase::Half(d)
            }
            &&& !opens && !ends && !halves ==> {
                &&& after.contains_key(id) == m.sessions.contains_key(id)
                &&& m.sessions.contains_key(id) ==> after[id] == m.sessions[id]
            }
        }),
{
}

/// When a client does what: each action comes on the events given here and on no others,
/// whatever other sessions do.
pub proof fn theorem_client_actions<S>(
    state: &mut ClientState<S>,
    phase: ClientPhase,
    event: ClientEvent<S>,
    now: u128,
    heartbeat_interval: u64,
    r: (ClientPhase, ClientAction),
    id: u32,
    direction: Direction,
)
    requires
        call_ensures(run_client::<S>, (state, phase, event, now, heartbeat_interval), r),
        event is Tick ==> heartbeat_interval * MISSED_HEARTBEATS <= u64::MAX,
    ensures
        ({
            let m = old(state)@;
            let action = r.1;
            let silent = now > m.last_pong + 3 * heartbeat_interval * 1_000_000_000;
            let serving = phase is Serving;
            let frame = |frame_type: FrameType|
                event matches ClientEvent::Frame(f) && f.0 == frame_type;
            let frame_for = |frame_type: FrameType|
                event matches ClientEvent::Frame(f) && f.0 == frame_type && f.1 == id;
            let kept = m.sessions.contains_key(id);
            let relay = m.sessions[id].relay;
            &&& action is Authenticate <==> phase is Connecting && event is Connected
            &&& action is Serve <==> phase is Authenticating && frame(FrameType::AuthOk)
            &&& action is Refused <==> phase is Authenticating && event is Frame && !frame(
                FrameType::AuthOk,
            )
            &&& action is Failed <==> (phase is Connecting || phase is Authenticating)
                && event is ControlFailed
            &&& action is Finished <==> serving && (event is ControlFailed || event is Tick
                && silent)
            &&& action is SendPing <==> serving && event is Tick && !silent
            &&& action is Unexpected <==> serving && (frame(FrameType::Auth) || frame(
                FrameType::AuthOk,
            ) || frame(FrameType::DataConnect) || frame(FrameType::Ping))
            &&& action == ClientAction::OpenSession(id) <==> serving && frame_for(
                FrameType::NewConnection,
            )
            &&& action == ClientAction::Join(id) <==> serving && (event
                matches ClientEvent::SessionOpened(i, s) && i == id)
            &&& action == ClientAction::PassEnd(id, direction) <==> serving && kept && relay is Open
                && event == ClientEvent::<S>::Relay(id, RelayEvent::Ended(direction))
            &&& action == ClientAction::SendClose(id) <==> serving && {
                ||| event == ClientEvent::<S>::SessionFailed(id)
                ||| frame_for(FrameType::Close) && kept && relay == RelayPhase::Half(
                    Direction::ToUser,
                )
                ||| event == ClientEvent::<S>::Relay(id, RelayEvent::Failed)
                ||| event == ClientEvent::<S>::Relay(id, RelayEvent::Ended(Direction::ToUser)) && (
                !kept || relay == RelayPhase::Half(Direction::ToService))
                ||| event == ClientEvent::<S>::Relay(id, RelayEvent::Ended(Direction::ToService))
                    && kept && relay == RelayPhase::Half(Direction::ToUser)
                ||| event matches ClientEvent::Relay(i, e) && i == id && kept && relay is Over
            }
            &&& action is Ignore <==> match phase {
                ClientPhase::Connecting => !(event is Connected) && !(event is ControlFailed),
                ClientPhase::Authenticating => !(event is Frame) && !(event is ControlFailed),
                ClientPhase::Serving => event is Connected,
                ClientPhase::Ended => true,
            }
        }),
{
}

/// Where a client goes by what it does: it proves itself once it is connected, serves once
/// it is accepted, and is over once it has failed, is refused or has finished; nothing else
/// takes it to another phase.
pub proof fn theorem_client_phases<S>(
    state: &mut ClientState<S>,
    phase: ClientPhase,
    event: ClientEvent<S>,
    now: u128,
    heartbeat_interval: u64,
    r: (ClientPhase, ClientAction),
)
    requires
        call_ensures(run_client::<S>, (state, phase, event, now, heartbeat_interval), r),
    ensures
        match r.1 {
            ClientAction::Authenticate => r.0 is Authenticating,
            ClientAction::Serve => r.0 is Serving,
            ClientAction::Refused(reason) => r.0 is Ended,
            ClientAction::Failed => r.0 is Ended,
            ClientAction::Finished => r.0 is Ended,
            _ => r.0 == phase,
        },
{
}

/// A refused client says why: it names the refusal, and then gives the text that the
/// server sent, as it was sent where it is text.
pub proof fn theorem_refusal_quotes_the_server<S>(
    state: &mut ClientState<S>,
    frame: (FrameType, u32, Vec<u8>),
    now: u128,
    heartbeat_interval: u64,
    r: (ClientPhase, ClientAction),
)
    requires
        frame.0 != FrameType::AuthOk,
        call_ensures(
            run_client::<S>,
            (
                state,
                ClientPhase::Authenticating,
                ClientEvent::Frame(frame),
                now,
                heartbeat_interval,
            ),
            r,
        ),
    ensures
        r.1 matches ClientAction::Refused(reason) && {
            let text = reason@.skip(13);
            &&& reason@.take(13) == "Auth failed: "@
            &&& forall|sent: Seq<char>| frame.2@ == encode_utf8(sent) ==> text == sent
            &&& !vstd::utf8::valid_utf8(frame.2@) ==> text == lossy_text(frame.2@)
        },
{
    reveal_strlit("Auth failed: ");
    let text = payload_text(frame.2@);
    assert(("Auth failed: "@ + text).skip(13) =~= text);
    assert(("Auth failed: "@ + text).take(13) =~= "Auth failed: "@);
    assert forall|sent: Seq<char>| frame.2@ == encode_utf8(sent) implies text == sent by {
        theorem_text_round_trip(sent);
    }
}

/// Only the acceptance is no refusal, and the reason of a refusal ends with the text of the
/// answer.
pub proof fn theorem_only_acceptance_is_no_refusal(
    frame_type: FrameType,
    text: &str,
    refused: Option<String>,
)
    requires
        call_ensures(judge_answer, (frame_type, text), refused),
    ensures
        refused is None <==> frame_type == FrameType::AuthOk,
        refused matches Some(reason) ==> reason@.len() == 13 + text@.len() && reason@.take(13)
            == "Auth failed: "@ && reason@.skip(13) == text@,
{
    reveal_strlit("Auth failed: ");
    assert(("Auth failed: "@ + text@).skip(13) =~= text@);
    assert(("Auth failed: "@ + text@).take(13) =~= "Auth failed: "@);
}

/// A client whose control connection breaks has finished, and has given up all its
/// sessions, however long ago the server was heard of.
pub proof fn theorem_broken_connection_ends_the_client<S>(
    state: &mut ClientState<S>,
    now: u128,
    heartbeat_interval: u64,
    r: (ClientPhase, ClientAction),
)
    requires
        call_ensures(
            run_client::<S>,
            (
                state,
                ClientPhase::Serving,
                ClientEvent::ControlFailed,
                now,
                heartbeat_interval,
            ),
            r,
        ),
    ensures
        r.0 is Ended,
        r.1 is Finished,
        final(state)@.sessions == Map::<u32, LocalSession<S>>::empty(),
{
}

/// What goes to the server by which action: the secret, a heartbeat, which session a data
/// connection is for, and the end of a session; no other frame by any other action.
pub proof fn theorem_client_requests(
    action: ClientAction,
    secret: &str,
    request: Option<(FrameType, u32, Vec<u8>)>,
)
    requires
        call_ensures(ClientAction::request, (&action, secret), request),
    ensures
        ({
            &&& action is Authenticate ==> (request matches Some(frame) && frame.0
                == FrameType::Auth && frame.1 == 0 && frame.2@ == encode_utf8(secret@))
            &&& action is SendPing ==> (request matches Some(frame) && frame.0
                == FrameType::Ping && frame.1 == 0 && frame.2@.len() == 0)
            &&& action matches ClientAction::Join(id) ==> (request matches Some(frame)
                && frame.0 == FrameType::DataConnect && frame.1 == id
                && frame.2@.len() == 4 && id == frame.2@[0] * 0x100_0000
                + frame.2@[1] * 0x1_0000 + frame.2@[2] * 0x100 + frame.2@[3])
            &&& action matches ClientAction::SendClose(id) ==> (request matches Some(frame)
                && frame.0 == FrameType::Close && frame.1 == id
                && frame.2@.len() == 0)
            &&& request is Some ==> action is Authenticate || action is SendPing || action is Join
                || action is SendClose
        }),
{
    if let ClientAction::Join(id) = action {
        theorem_be32_is_the_number(id);
    }
}

/// A client starts without sessions.
pub proof fn theorem_fresh_client<S>(now: u128, state: ClientState<S>)
    requires
        call_ensures(ClientState::<S>::new, (now,), state),
    ensures
        forall|id: u32| !state@.sessions.contains_key(id),
        state@.last_pong == now,
{
}

} // verus!
