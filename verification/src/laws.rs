use vstd::prelude::*;
use vstd::utf8::encode_utf8;

use crate::client::{
    auth_request, bare, client_next, client_request, client_steps, data_connect, refusal,
    ClientAction, ClientEvent, ClientModel, ClientPhase, LocalSession, MISSED_HEARTBEATS,
};
use crate::heartbeat::{overdue, NANOS_PER_SEC};
use crate::protocol::{
    be32, frame_bytes, frame_of, from_be32, lemma_be32_round_trip, reads_as,
    theorem_read_after_write, FrameModel, FrameType, MAX_PAYLOAD,
};
use crate::relay::{Direction, RelayEvent, RelayPhase};
use crate::server::{
    control_next, control_reply, data_next, fresh_server, new_connection, proves_itself, proxy_next,
    session_named, watchdog_next, writer_ended_next, ControlAction, ControlEvent, ControlPhase,
    ProxyAction, ProxyEvent, ProxyPhase, ServerModel,
};
use crate::session::{id_after, nth_id, theorem_ids_do_not_repeat_early, ID_COUNT};
use crate::text::{payload_text, theorem_text_round_trip};

verus! {

/// `received` is what the peer reads when `sent` is written to it.
pub open spec fn arrives_as(sent: FrameModel, received: (FrameType, u32, Vec<u8>)) -> bool {
    exists|rest: Seq<u8>, n: nat|
        #[trigger] reads_as(frame_bytes(sent) + rest, Ok((frame_of(received), n)))
}

/// A frame that is written arrives as it is, whatever is written behind it.
pub proof fn theorem_frames_arrive_unchanged(
    sent: FrameModel,
    received: (FrameType, u32, Vec<u8>),
)
    requires
        sent.payload.len() <= MAX_PAYLOAD,
        arrives_as(sent, received),
    ensures
        frame_of(received) == sent,
{
    let (rest, n) = choose|rest: Seq<u8>, n: nat|
        #[trigger] reads_as(frame_bytes(sent) + rest, Ok((frame_of(received), n)));
    theorem_read_after_write(sent, rest, Ok((frame_of(received), n)));
}

/// A client that knows the secret is accepted, and learns it: the server takes
/// its request for proof, and the server's answer lets the client serve. The
/// server's state is not touched until then.
pub proof fn theorem_right_secret_connects<C, W, S>(
    server: ServerModel<C, W>,
    client: ClientModel<S>,
    request: (FrameType, u32, Vec<u8>),
    answer: (FrameType, u32, Vec<u8>),
    server_now: u128,
    client_now: u128,
    heartbeat_interval: u64,
    next: (ClientModel<S>, ClientPhase, ClientAction),
)
    requires
        encode_utf8(server.secret).len() <= MAX_PAYLOAD,
        arrives_as(auth_request(server.secret), request),
        arrives_as(control_reply(ControlAction::Accept)->0, answer),
        client_steps(
            client,
            ClientPhase::Authenticating,
            ClientEvent::Frame(answer),
            client_now,
            heartbeat_interval,
            next,
        ),
    ensures
        control_next(
            server,
            ControlPhase::Handshake,
            ControlEvent::Frame(request),
            server_now,
        ) == (server, ControlPhase::Accepted, ControlAction::Accept),
        next == (
            ClientModel::<S> { sessions: Map::empty(), last_pong: client_now },
            ClientPhase::Serving,
            ClientAction::Serve,
        ),
{
    theorem_frames_arrive_unchanged(auth_request(server.secret), request);
    theorem_frames_arrive_unchanged(control_reply(ControlAction::Accept)->0, answer);
}

/// The answer to a refused client is short, and reads as what it says.
proof fn lemma_refusal_text()
    ensures
        encode_utf8("auth failed"@).len() == 11,
        payload_text(encode_utf8("auth failed"@)) == "auth failed"@,
{
    reveal_strlit("auth failed");
    vstd::utf8::is_ascii_chars_encode_utf8("auth failed"@);
    theorem_text_round_trip("auth failed"@);
}

/// A client that takes another secret for the server's is refused: the server
/// turns it away and changes nothing, and the client stops and says why.
pub proof fn theorem_wrong_secret_is_refused<C, W, S>(
    server: ServerModel<C, W>,
    client: ClientModel<S>,
    secret: Seq<char>,
    request: (FrameType, u32, Vec<u8>),
    answer: (FrameType, u32, Vec<u8>),
    server_now: u128,
    client_now: u128,
    heartbeat_interval: u64,
    next: (ClientModel<S>, ClientPhase, ClientAction),
)
    requires
        secret != server.secret,
        encode_utf8(secret).len() <= MAX_PAYLOAD,
        arrives_as(auth_request(secret), request),
        arrives_as(control_reply(ControlAction::Refuse)->0, answer),
        client_steps(
            client,
            ClientPhase::Authenticating,
            ClientEvent::Frame(answer),
            client_now,
            heartbeat_interval,
            next,
        ),
    ensures
        control_next(
            server,
            ControlPhase::Handshake,
            ControlEvent::Frame(request),
            server_now,
        ) == (server, ControlPhase::Closed, ControlAction::Refuse),
        next.0 == client,
        next.1 == ClientPhase::Ended,
        next.2 matches ClientAction::Refused(reason) && reason@ == refusal("auth failed"@),
{
    lemma_refusal_text();
    theorem_frames_arrive_unchanged(auth_request(secret), request);
    theorem_frames_arrive_unchanged(control_reply(ControlAction::Refuse)->0, answer);
    vstd::utf8::encode_utf8_decode_utf8(secret);
    vstd::utf8::encode_utf8_decode_utf8(server.secret);
}

/// Before a client has proved itself, nothing that it does changes the server's
/// state or is served, and a frame that is no proof closes the connection.
pub proof fn theorem_no_service_without_proof<C, W>(
    m: ServerModel<C, W>,
    event: ControlEvent<C>,
    now: u128,
)
    ensures
        control_next(m, ControlPhase::Handshake, event, now).0 == m,
        !(control_next(m, ControlPhase::Handshake, event, now).1 is Serving),
        control_next(m, ControlPhase::Handshake, event, now).1 == ControlPhase::Accepted <==> (
        event matches ControlEvent::Frame(f) && proves_itself(f.0, f.2@, m.secret)),
{
}

/// A heartbeat is heard and answered: the client's frame renews the server's
/// account of the client, and the server's answer renews the client's account of
/// the server.
pub proof fn theorem_heartbeat_round_trip<C, W, S>(
    server: ServerModel<C, W>,
    client: ClientModel<S>,
    ping: (FrameType, u32, Vec<u8>),
    pong: (FrameType, u32, Vec<u8>),
    secret: Seq<char>,
    number: u64,
    server_now: u128,
    client_now: u128,
    heartbeat_interval: u64,
)
    requires
        server.control is Some,
        server.registration == number,
        arrives_as(client_request(ClientAction::SendPing, secret)->0, ping),
        arrives_as(control_reply(ControlAction::SendPong)->0, pong),
    ensures
        control_next(
            server,
            ControlPhase::Serving(number),
            ControlEvent::Frame(ping),
            server_now,
        ) == (
            (ServerModel { last_heartbeat: server_now, ..server }),
            ControlPhase::Serving(number),
            ControlAction::SendPong,
        ),
        client_next(
            client,
            ClientPhase::Serving,
            ClientEvent::Frame(pong),
            client_now,
            heartbeat_interval,
        ) == (
            (ClientModel { last_pong: client_now, ..client }),
            ClientPhase::Serving,
            ClientAction::Continue,
        ),
{
    theorem_frames_arrive_unchanged(client_request(ClientAction::SendPing, secret)->0, ping);
    theorem_frames_arrive_unchanged(control_reply(ControlAction::SendPong)->0, pong);
}

/// A client whose heartbeat is no older than the timeout is kept; one whose
/// heartbeat is older is lost, and with it all sessions that wait.
pub proof fn theorem_silent_client_is_dropped<C, W>(
    m: ServerModel<C, W>,
    number: u64,
    ping: (FrameType, u32, Vec<u8>),
    heard: u128,
    now: u128,
    timeout: u64,
)
    requires
        ping.0 == FrameType::Ping,
        m.control is Some,
    ensures
        ({
            let after = control_next(
                m,
                ControlPhase::Serving(number),
                ControlEvent::Frame(ping),
                heard,
            ).0;
            let looked = watchdog_next(after, now, timeout);
            &&& now <= heard + timeout * NANOS_PER_SEC ==> looked == after
            &&& now > heard + timeout * NANOS_PER_SEC ==> looked.control is None
                && looked.pending == Map::<u32, W>::empty()
        }),
{
}

/// A client sends heartbeats as long as the server's last answer is no older than
/// three intervals, and disconnects at the first heartbeat that finds it older.
pub proof fn theorem_silent_server_is_left<S>(
    m: ClientModel<S>,
    pong: (FrameType, u32, Vec<u8>),
    heard: u128,
    now: u128,
    heartbeat_interval: u64,
)
    requires
        pong.0 == FrameType::Pong,
        heartbeat_interval * MISSED_HEARTBEATS <= u64::MAX,
    ensures
        ({
            let after = client_next(
                m,
                ClientPhase::Serving,
                ClientEvent::Frame(pong),
                heard,
                heartbeat_interval,
            ).0;
            let ticked = client_next(
                after,
                ClientPhase::Serving,
                ClientEvent::Tick,
                now,
                heartbeat_interval,
            );
            &&& now <= heard + 3 * heartbeat_interval * NANOS_PER_SEC ==> ticked == (
                after,
                ClientPhase::Serving,
                ClientAction::SendPing,
            )
            &&& now > heard + 3 * heartbeat_interval * NANOS_PER_SEC ==> ticked == (
                (ClientModel { sessions: Map::empty(), ..after }),
                ClientPhase::Ended,
                ClientAction::Finished,
            )
        }),
{
    assert(3 * heartbeat_interval * NANOS_PER_SEC == (heartbeat_interval * MISSED_HEARTBEATS)
        * NANOS_PER_SEC);
}

/// A client that was served and stops has no session left.
pub proof fn theorem_stopped_client_has_no_sessions<S>(
    m: ClientModel<S>,
    event: ClientEvent<S>,
    now: u128,
    heartbeat_interval: u64,
    next: (ClientModel<S>, ClientPhase, ClientAction),
)
    requires
        client_steps(m, ClientPhase::Serving, event, now, heartbeat_interval, next),
        next.1 != ClientPhase::Serving,
    ensures
        next.0.sessions == Map::<u32, LocalSession<S>>::empty(),
        next.1 == ClientPhase::Ended,
        next.2 == ClientAction::Finished,
{
}

/// A user who comes while there is no client is turned away, and nothing changes:
/// no id is used up, and no session waits.
pub proof fn theorem_no_client_no_session<C, W>(m: ServerModel<C, W>, waiter: W)
    requires
        m.control is None,
    ensures
        proxy_next(m, ProxyPhase::Arriving, ProxyEvent::Arrived(waiter)) == (
            m,
            ProxyPhase::Done,
            ProxyAction::Reject,
        ),
{
}

/// A session reaches the user who asked for it: the client learns of the session
/// that the server opens for the user, the client's data connection says that it
/// is for this session, by its id and by its payload, and the server hands the
/// connection to this user, whatever else has happened while the session waited.
pub proof fn theorem_session_reaches_its_user<C, W, S>(
    server: ServerModel<C, W>,
    later: ServerModel<C, W>,
    client: ClientModel<S>,
    user: W,
    session: S,
    announced: (FrameType, u32, Vec<u8>),
    opening: (FrameType, u32, Vec<u8>),
    secret: Seq<char>,
    now: u128,
    heartbeat_interval: u64,
)
    requires
        server.control is Some,
        arrives_as(new_connection(server.next_session_id), announced),
        arrives_as(
            client_request(ClientAction::Join(server.next_session_id), secret)->0,
            opening,
        ),
        later.pending.contains_key(server.next_session_id),
        later.pending[server.next_session_id] == user,
    ensures
        ({
            let id = server.next_session_id;
            let opened = proxy_next(server, ProxyPhase::Arriving, ProxyEvent::Arrived(user));
            &&& opened.1 == ProxyPhase::Announcing(id)
            &&& opened.2 == ProxyAction::Announce(id)
            &&& opened.0.pending.contains_key(id)
            &&& opened.0.pending[id] == user
            &&& client_next(
                client,
                ClientPhase::Serving,
                ClientEvent::Frame(announced),
                now,
                heartbeat_interval,
            ) == (client, ClientPhase::Serving, ClientAction::OpenSession(id))
            &&& client_next(
                client,
                ClientPhase::Serving,
                ClientEvent::SessionOpened(id, session),
                now,
                heartbeat_interval,
            ).2 == ClientAction::Join(id)
            &&& opening.2@.len() == 4
            &&& from_be32(opening.2@) == id
            &&& data_next(later, frame_of(opening)) == (
                (ServerModel { pending: later.pending.remove(id), ..later }),
                Some(user),
            )
        }),
{
    let id = server.next_session_id;
    theorem_frames_arrive_unchanged(new_connection(id), announced);
    theorem_frames_arrive_unchanged(data_connect(id), opening);
    lemma_be32_round_trip(id, be32(id));
}

/// A session that comes to nothing, because the client cannot be told of it or
/// does not connect, waits no longer, and no other session is touched.
pub proof fn theorem_failed_session_leaves_no_trace<C, W>(m: ServerModel<C, W>, user: W)
    requires
        m.control is Some,
        !m.pending.contains_key(m.next_session_id),
    ensures
        ({
            let id = m.next_session_id;
            let opened = proxy_next(m, ProxyPhase::Arriving, ProxyEvent::Arrived(user)).0;
            let untold = proxy_next(opened, ProxyPhase::Announcing(id), ProxyEvent::AnnounceFailed);
            let unmet = proxy_next(opened, ProxyPhase::Waiting(id), ProxyEvent::WaitFailed);
            &&& untold.0 == (ServerModel { next_session_id: id_after(id), ..m })
            &&& unmet.0 == untold.0
            &&& untold.1 == ProxyPhase::Done
            &&& unmet.1 == ProxyPhase::Done
        }),
{
    let id = m.next_session_id;
    assert(m.pending.insert(id, user).remove(id) =~= m.pending);
}

/// What is over stays over: no event has any effect any more.
pub proof fn theorem_final_phases<C, W, S>(
    m: ServerModel<C, W>,
    client: ClientModel<S>,
    control: ControlEvent<C>,
    proxy: ProxyEvent<W>,
    event: ClientEvent<S>,
    now: u128,
    heartbeat_interval: u64,
)
    ensures
        control_next(m, ControlPhase::Closed, control, now) == (
            m,
            ControlPhase::Closed,
            ControlAction::Ignore,
        ),
        proxy_next(m, ProxyPhase::Done, proxy) == (m, ProxyPhase::Done, ProxyAction::Ignore),
        client_next(client, ClientPhase::Ended, event, now, heartbeat_interval) == (
            client,
            ClientPhase::Ended,
            ClientAction::Ignore,
        ),
{
}

/// Anything that changes the shared state of a server.
pub enum ServerOp<C, W> {
    /// An event on a control connection.
    Control(ControlPhase, ControlEvent<C>, u128),
    /// The end of the writing side of the control connection with this registration.
    WriterEnded(u64),
    /// The first frame of a data connection.
    Data(FrameModel),
    /// An event on the connection of an outside user.
    Proxy(ProxyPhase, ProxyEvent<W>),
    /// A look after the client's heartbeat.
    Watchdog(u128, u64),
}

/// The server after one operation.
pub open spec fn server_step<C, W>(m: ServerModel<C, W>, op: ServerOp<C, W>) -> ServerModel<C, W> {
    match op {
        ServerOp::Control(phase, event, now) => control_next(m, phase, event, now).0,
        ServerOp::WriterEnded(number) => writer_ended_next(m, number),
        ServerOp::Data(frame) => data_next(m, frame).0,
        ServerOp::Proxy(phase, event) => proxy_next(m, phase, event).0,
        ServerOp::Watchdog(now, timeout) => watchdog_next(m, now, timeout),
    }
}

/// The server after several operations, in their order.
pub open spec fn server_run<C, W>(
    m: ServerModel<C, W>,
    ops: Seq<ServerOp<C, W>>,
) -> ServerModel<C, W>
    decreases ops.len(),
{
    if ops.len() == 0 {
        m
    } else {
        server_step(server_run(m, ops.drop_last()), ops.last())
    }
}

/// The operation opens a session.
pub open spec fn opens<C, W>(m: ServerModel<C, W>, op: ServerOp<C, W>) -> bool {
    op matches ServerOp::Proxy(phase, event) && proxy_next(m, phase, event).2 is Announce
}

/// How many sessions the operations open.
pub open spec fn opened<C, W>(m: ServerModel<C, W>, ops: Seq<ServerOp<C, W>>) -> nat
    decreases ops.len(),
{
    if ops.len() == 0 {
        0
    } else {
        let before = server_run(m, ops.drop_last());
        opened(m, ops.drop_last()) + if opens(before, ops.last()) {
            1nat
        } else {
            0nat
        }
    }
}

/// The operation loses the client: its control connection can no longer be read, or
/// it has been silent for too long.
pub open spec fn loses_client<C, W>(m: ServerModel<C, W>, op: ServerOp<C, W>) -> bool {
    match op {
        ServerOp::Control(phase, event, now) => phase == ControlPhase::Serving(m.registration)
            && event is ReadFailed,
        ServerOp::Watchdog(now, timeout) => m.control is Some && overdue(
            m.last_heartbeat,
            now,
            timeout,
        ),
        _ => false,
    }
}

/// The operation ends the wait of this session: its data connection comes, or it
/// is given up.
pub open spec fn ends_wait<C, W>(op: ServerOp<C, W>, session_id: u32) -> bool {
    match op {
        ServerOp::Data(frame) => frame.frame_type == FrameType::DataConnect && session_named(frame)
            == session_id,
        ServerOp::Proxy(phase, event) => {
            ||| phase == ProxyPhase::Announcing(session_id) && event is AnnounceFailed
            ||| phase == ProxyPhase::Waiting(session_id) && event is WaitFailed
        },
        _ => false,
    }
}

/// The next id is not zero, and no session has the id zero.
pub open spec fn ids_valid<C, W>(m: ServerModel<C, W>) -> bool {
    &&& m.next_session_id != 0
    &&& !m.pending.contains_key(0)
}

/// Whatever happens to a server: its secret stays the same, the ids of its
/// sessions follow one another, and none is zero.
pub proof fn theorem_server_keeps<C, W>(m: ServerModel<C, W>, ops: Seq<ServerOp<C, W>>)
    ensures
        server_run(m, ops).secret == m.secret,
        server_run(m, ops).next_session_id == nth_id(m.next_session_id, opened(m, ops)),
        ids_valid(m) ==> ids_valid(server_run(m, ops)),
    decreases ops.len(),
{
    if ops.len() > 0 {
        theorem_server_keeps(m, ops.drop_last());
    }
}

/// Sessions do not get into each other's way: an operation that neither is about
/// a session nor loses the client leaves the wait of that session as it is.
pub proof fn theorem_waits_are_independent<C, W>(
    m: ServerModel<C, W>,
    op: ServerOp<C, W>,
    session_id: u32,
)
    requires
        !ends_wait(op, session_id),
        !loses_client(m, op),
        !(opens(m, op) && m.next_session_id == session_id),
    ensures
        server_step(m, op).pending.contains_key(session_id) == m.pending.contains_key(session_id),
        m.pending.contains_key(session_id) ==> server_step(m, op).pending[session_id]
            == m.pending[session_id],
{
}

/// The event is about this session of a client.
pub open spec fn is_about<S>(event: ClientEvent<S>, session_id: u32) -> bool {
    match event {
        ClientEvent::Frame(f) => f.0 == FrameType::Close && f.1 == session_id,
        ClientEvent::SessionOpened(id, session) => id == session_id,
        ClientEvent::Relay(id, relay_event) => id == session_id,
        _ => false,
    }
}

/// As long as a client is served, an event that is not about a session leaves that
/// session as it is.
pub proof fn theorem_relays_are_independent<S>(
    m: ClientModel<S>,
    event: ClientEvent<S>,
    now: u128,
    heartbeat_interval: u64,
    next: (ClientModel<S>, ClientPhase, ClientAction),
    session_id: u32,
)
    requires
        client_steps(m, ClientPhase::Serving, event, now, heartbeat_interval, next),
        next.1 == ClientPhase::Serving,
        !is_about(event, session_id),
    ensures
        next.0.sessions.contains_key(session_id) == m.sessions.contains_key(session_id),
        m.sessions.contains_key(session_id) ==> next.0.sessions[session_id]
            == m.sessions[session_id],
{
}

/// A run of a client: the events that happen to it and when, the states and phases
/// that it goes through, and its actions.
pub struct ClientRun<S> {
    pub events: Seq<ClientEvent<S>>,
    pub times: Seq<u128>,
    pub states: Seq<(ClientModel<S>, ClientPhase)>,
    pub actions: Seq<ClientAction>,
}

/// The client has been told by the server to open this session, before its `i`-th
/// event.
pub open spec fn told_to_open<S>(run: ClientRun<S>, session_id: u32, i: int) -> bool {
    exists|j: int|
        0 <= j < i && #[trigger] run.actions[j] == ClientAction::OpenSession(session_id)
}

/// The server has announced this session, before the `i`-th event of the client.
pub open spec fn announced_before<S>(run: ClientRun<S>, session_id: u32, i: int) -> bool {
    exists|j: int|
        0 <= j < i && (#[trigger] run.events[j] matches ClientEvent::Frame(f) && f.0
            == FrameType::NewConnection && f.1 == session_id)
}

/// Every step of the run is one of a client, from the start of a connection on, and
/// what happens to a session follows the action to open it.
pub open spec fn is_client_run<S>(run: ClientRun<S>, heartbeat_interval: u64) -> bool {
    let n = run.events.len();
    &&& run.times.len() == n
    &&& run.actions.len() == n
    &&& run.states.len() == n + 1
    &&& run.states[0].1 == ClientPhase::Connecting
    &&& forall|i: int|
        0 <= i < n ==> client_steps(
            run.states[i].0,
            run.states[i].1,
            #[trigger] run.events[i],
            run.times[i],
            heartbeat_interval,
            (run.states[i + 1].0, run.states[i + 1].1, run.actions[i]),
        )
    &&& forall|i: int|
        0 <= i < n ==> match #[trigger] run.events[i] {
            ClientEvent::SessionOpened(id, session) => told_to_open(run, id, i),
            ClientEvent::SessionFailed(id) => told_to_open(run, id, i),
            ClientEvent::Relay(id, relay_event) => told_to_open(run, id, i),
            _ => true,
        }
}

/// The frame that goes to the server on the control connection by an action, if
/// any. The frame of `Join` opens a data connection.
pub open spec fn control_request(action: ClientAction, secret: Seq<char>) -> Option<FrameModel> {
    if action is Join {
        None
    } else {
        client_request(action, secret)
    }
}

/// What has been sent when a run has come to its `i`-th phase: nothing before the
/// client has a connection, and the secret before it waits or is served.
proof fn lemma_sent_so_far<S>(
    run: ClientRun<S>,
    heartbeat_interval: u64,
    secret: Seq<char>,
    i: int,
)
    requires
        is_client_run(run, heartbeat_interval),
        0 <= i <= run.events.len(),
    ensures
        run.states[i].1 is Connecting ==> forall|j: int|
            0 <= j < i ==> control_request(#[trigger] run.actions[j], secret) is None,
        run.states[i].1 is Authenticating || run.states[i].1 is Serving ==> exists|j: int|
            0 <= j < i && #[trigger] run.actions[j] is Authenticate,
        forall|j: int|
            0 <= j < i && #[trigger] run.actions[j] is Authenticate ==> !(
            run.states[i].1 is Connecting),
    decreases i,
{
    if i > 0 {
        lemma_sent_so_far(run, heartbeat_interval, secret, i - 1);
        let event = run.events[i - 1];
        if run.states[i].1 is Authenticating || run.states[i].1 is Serving {
            if run.states[i - 1].1 is Connecting {
                assert(run.actions[i - 1] is Authenticate);
            } else {
                let j = choose|j: int|
                    0 <= j < i - 1 && #[trigger] run.actions[j] is Authenticate;
                assert(run.actions[j] is Authenticate);
            }
        }
    }
}

/// A session that the client was told to open is one that the server announced.
proof fn lemma_opened_is_announced<S>(
    run: ClientRun<S>,
    heartbeat_interval: u64,
    session_id: u32,
    i: int,
)
    requires
        is_client_run(run, heartbeat_interval),
        0 <= i <= run.events.len(),
        told_to_open(run, session_id, i),
    ensures
        announced_before(run, session_id, i),
{
    let j = choose|j: int|
        0 <= j < i && #[trigger] run.actions[j] == ClientAction::OpenSession(session_id);
    let event = run.events[j];
    assert(event matches ClientEvent::Frame(f) && f.0 == FrameType::NewConnection && f.1
        == session_id);
}

/// A session that a client keeps while it is served is one that it was told to open.
proof fn lemma_kept_was_opened<S>(
    run: ClientRun<S>,
    heartbeat_interval: u64,
    session_id: u32,
    i: int,
)
    requires
        is_client_run(run, heartbeat_interval),
        0 <= i <= run.events.len(),
        run.states[i].1 is Serving,
        run.states[i].0.sessions.contains_key(session_id),
    ensures
        told_to_open(run, session_id, i),
    decreases i,
{
    if i > 0 {
        let event = run.events[i - 1];
        if run.states[i - 1].1 is Serving {
            if run.states[i - 1].0.sessions.contains_key(session_id) {
                lemma_kept_was_opened(run, heartbeat_interval, session_id, i - 1);
            }
            assert(told_to_open(run, session_id, i - 1));
            let j = choose|j: int|
                0 <= j < i - 1 && #[trigger] run.actions[j] == ClientAction::OpenSession(
                    session_id,
                );
            assert(run.actions[j] == ClientAction::OpenSession(session_id));
        }
    }
}

/// The control connection carries heartbeats and signals only: what the client
/// sends on it is the secret, once and before all else, or a heartbeat, or the
/// close of a session that the server has announced. No data of a session goes over
/// it.
pub proof fn theorem_control_connection_carries_signals_only<S>(
    run: ClientRun<S>,
    heartbeat_interval: u64,
    secret: Seq<char>,
    i: int,
)
    requires
        is_client_run(run, heartbeat_interval),
        0 <= i < run.events.len(),
        control_request(run.actions[i], secret) is Some,
    ensures
        ({
            let frame = control_request(run.actions[i], secret)->0;
            if run.actions[i] is Authenticate {
                &&& frame == auth_request(secret)
                &&& forall|j: int|
                    0 <= j < i ==> control_request(#[trigger] run.actions[j], secret) is None
                &&& forall|j: int|
                    i < j < run.actions.len() ==> !(#[trigger] run.actions[j] is Authenticate)
            } else {
                &&& exists|j: int| 0 <= j < i && #[trigger] run.actions[j] is Authenticate
                &&& {
                    ||| frame == bare(FrameType::Ping, 0)
                    ||| {
                        &&& frame == bare(FrameType::Close, frame.session_id)
                        &&& announced_before(run, frame.session_id, i)
                    }
                }
            }
        }),
{
    lemma_sent_so_far(run, heartbeat_interval, secret, i);
    let event = run.events[i];
    if run.actions[i] is Authenticate {
        assert(run.states[i].1 is Connecting);
        assert forall|j: int| i < j < run.actions.len() implies !(
        #[trigger] run.actions[j] is Authenticate) by {
            lemma_sent_so_far(run, heartbeat_interval, secret, j);
            assert(run.actions[i] is Authenticate);
            let later = run.events[j];
        }
    } else {
        assert(run.states[i].1 is Serving);
        if let ClientAction::SendClose(id) = run.actions[i] {
            if run.states[i].0.sessions.contains_key(id) {
                lemma_kept_was_opened(run, heartbeat_interval, id, i);
            }
            lemma_opened_is_announced(run, heartbeat_interval, id, i);
        }
    }
}

/// The server is told when the local side of a session ends, also when it has closed
/// the session itself, be that before or after the local side ends.
pub proof fn theorem_server_is_told_of_the_end<S>(
    m: ClientModel<S>,
    session_id: u32,
    closing: (FrameType, u32, Vec<u8>),
    now: u128,
    heartbeat_interval: u64,
)
    requires
        m.sessions.contains_key(session_id),
        m.sessions[session_id].relay == RelayPhase::Open,
        closing.0 == FrameType::Close,
        closing.1 == session_id,
    ensures
        ({
            let serving = ClientPhase::Serving;
            let close = ClientEvent::<S>::Frame(closing);
            let local_end = ClientEvent::<S>::Relay(
                session_id,
                RelayEvent::Ended(Direction::ToUser),
            );
            let server_end = ClientEvent::<S>::Relay(
                session_id,
                RelayEvent::Ended(Direction::ToService),
            );
            let closed = client_next(m, serving, close, now, heartbeat_interval);
            let half = client_next(m, serving, local_end, now, heartbeat_interval);
            let told = ClientAction::SendClose(session_id);
            &&& closed.2 == ClientAction::Continue
            &&& client_next(closed.0, serving, local_end, now, heartbeat_interval) == (
                closed.0,
                serving,
                told,
            )
            &&& half.2 == ClientAction::PassEnd(session_id, Direction::ToUser)
            &&& client_next(half.0, serving, close, now, heartbeat_interval).2 == told
            &&& client_next(half.0, serving, server_end, now, heartbeat_interval).2 == told
        }),
{
}

/// What happens to a server from the moment on at which one control connection comes
/// in: the operations, which of them are events on this connection, the states of the
/// server and the phases of the connection.
pub struct ControlRun<C, W> {
    pub ops: Seq<ServerOp<C, W>>,
    pub mine: Seq<bool>,
    pub states: Seq<ServerModel<C, W>>,
    pub phases: Seq<ControlPhase>,
}

/// The operation is an event on a control connection in this phase.
pub open spec fn is_event_in<C, W>(op: ServerOp<C, W>, phase: ControlPhase) -> bool {
    op matches ServerOp::Control(p, event, now) && p == phase
}

/// What an operation on control connections has to do next.
pub open spec fn control_action<C, W>(m: ServerModel<C, W>, op: ServerOp<C, W>) -> ControlAction {
    match op {
        ServerOp::Control(phase, event, now) => control_next(m, phase, event, now).2,
        _ => ControlAction::Ignore,
    }
}

/// The phase of the connection after an operation that is an event on it.
pub open spec fn control_phase<C, W>(m: ServerModel<C, W>, op: ServerOp<C, W>) -> ControlPhase {
    match op {
        ServerOp::Control(phase, event, now) => control_next(m, phase, event, now).1,
        _ => ControlPhase::Closed,
    }
}

/// Every step of the run is one of a server, and the events on the connection take it
/// from phase to phase.
pub open spec fn is_control_run<C, W>(run: ControlRun<C, W>) -> bool {
    let n = run.ops.len();
    &&& run.mine.len() == n
    &&& run.states.len() == n + 1
    &&& run.phases.len() == n + 1
    &&& run.phases[0] == ControlPhase::Handshake
    &&& forall|i: int|
        0 <= i < n ==> {
            &&& run.states[i + 1] == server_step(run.states[i], #[trigger] run.ops[i])
            &&& if run.mine[i] {
                &&& is_event_in(run.ops[i], run.phases[i])
                &&& run.phases[i + 1] == control_phase(run.states[i], run.ops[i])
            } else {
                run.phases[i + 1] == run.phases[i]
            }
        }
}

/// The frame that the `i`-th operation sends on the connection, if any: the answer to
/// its own request, or, while the connection speaks for the client, the answer to a
/// heartbeat or the announcement of a session.
pub open spec fn sent_on<C, W>(run: ControlRun<C, W>, i: int) -> Option<FrameModel> {
    let m = run.states[i];
    let speaks = run.phases[i] == ControlPhase::Serving(m.registration);
    match run.ops[i] {
        ServerOp::Control(phase, event, now) => {
            let action = control_action(m, run.ops[i]);
            let goes_here = if action is SendPong {
                speaks
            } else {
                run.mine[i]
            };
            if goes_here {
                control_reply(action)
            } else {
                None
            }
        },
        ServerOp::Proxy(phase, event) => match proxy_next(m, phase, event).2 {
            ProxyAction::Announce(id) => if speaks {
                Some(new_connection(id))
            } else {
                None
            },
            _ => None,
        },
        _ => None,
    }
}

/// What has been sent on a connection when a run has come to its `i`-th phase: nothing
/// during the handshake, and the acceptance once the client is accepted or served.
proof fn lemma_sent_on_so_far<C, W>(run: ControlRun<C, W>, i: int)
    requires
        is_control_run(run),
        0 <= i <= run.ops.len(),
    ensures
        run.phases[i] is Handshake ==> forall|j: int|
            0 <= j < i ==> #[trigger] sent_on(run, j) is None,
        run.phases[i] is Accepted || run.phases[i] is Serving ==> exists|j: int|
            0 <= j < i && #[trigger] sent_on(run, j) == Some(bare(FrameType::AuthOk, 0)),
    decreases i,
{
    if i > 0 {
        lemma_sent_on_so_far(run, i - 1);
        let op = run.ops[i - 1];
        if run.phases[i] is Handshake {
            assert(run.phases[i - 1] is Handshake);
            assert(sent_on(run, i - 1) is None);
        }
        if run.phases[i] is Accepted || run.phases[i] is Serving {
            if run.phases[i - 1] is Handshake {
                assert(sent_on(run, i - 1) == Some(bare(FrameType::AuthOk, 0)));
            } else {
                let j = choose|j: int|
                    0 <= j < i - 1 && #[trigger] sent_on(run, j) == Some(
                        bare(FrameType::AuthOk, 0),
                    );
                assert(sent_on(run, j) == Some(bare(FrameType::AuthOk, 0)));
            }
        }
    }
}

/// A connection past its handshake is never in it again, and a closed one stays closed.
proof fn lemma_phases_go_on<C, W>(run: ControlRun<C, W>, i: int, j: int)
    requires
        is_control_run(run),
        0 <= i <= j <= run.ops.len(),
    ensures
        !(run.phases[i] is Handshake) ==> !(run.phases[j] is Handshake),
        run.phases[i] is Closed ==> run.phases[j] is Closed,
    decreases j - i,
{
    if i < j {
        lemma_phases_go_on(run, i, j - 1);
        let op = run.ops[j - 1];
    }
}

/// Nor does any data of a session go the other way, and the server keeps an order: what
/// it sends on a control connection is that the client is refused, which is the first
/// and last frame, or that it is accepted, which is the first frame and comes once, or,
/// after that, the answer to a heartbeat or the announcement of a session; and no
/// session is announced with the id zero.
pub proof fn theorem_server_sends_signals_in_order<C, W>(
    secret: Seq<char>,
    started: u128,
    earlier: Seq<ServerOp<C, W>>,
    run: ControlRun<C, W>,
    i: int,
)
    requires
        is_control_run(run),
        run.states[0] == server_run(fresh_server::<C, W>(secret, started), earlier),
        0 <= i < run.ops.len(),
        sent_on(run, i) is Some,
    ensures
        ({
            let frame = sent_on(run, i)->0;
            let first = forall|j: int| 0 <= j < i ==> #[trigger] sent_on(run, j) is None;
            match frame.frame_type {
                FrameType::Close => {
                    &&& frame == (FrameModel {
                        payload: encode_utf8("auth failed"@),
                        ..bare(FrameType::Close, 0)
                    })
                    &&& first
                    &&& forall|j: int|
                        i < j < run.ops.len() ==> #[trigger] sent_on(run, j) is None
                },
                FrameType::AuthOk => {
                    &&& frame == bare(FrameType::AuthOk, 0)
                    &&& first
                    &&& forall|j: int|
                        i < j < run.ops.len() ==> #[trigger] sent_on(run, j) != Some(frame)
                },
                FrameType::Pong => {
                    &&& frame == bare(FrameType::Pong, 0)
                    &&& exists|j: int|
                        0 <= j < i && #[trigger] sent_on(run, j) == Some(
                            bare(FrameType::AuthOk, 0),
                        )
                },
                FrameType::NewConnection => {
                    &&& frame == bare(FrameType::NewConnection, frame.session_id)
                    &&& frame.session_id != 0
                    &&& exists|j: int|
                        0 <= j < i && #[trigger] sent_on(run, j) == Some(
                            bare(FrameType::AuthOk, 0),
                        )
                },
                _ => false,
            }
        }),
{
    let frame = sent_on(run, i)->0;
    let op = run.ops[i];
    lemma_sent_on_so_far(run, i);
    lemma_states_keep_ids(secret, started, earlier, run, i);
    if frame.frame_type == FrameType::Close || frame.frame_type == FrameType::AuthOk {
        assert(run.mine[i] && run.phases[i] is Handshake);
        assert forall|j: int| i < j < run.ops.len() implies if frame.frame_type
            == FrameType::Close {
            #[trigger] sent_on(run, j) is None
        } else {
            sent_on(run, j) != Some(frame)
        } by {
            lemma_phases_go_on(run, i + 1, j);
            let later = run.ops[j];
        }
    }
}

/// In every state of the run the ids are valid.
proof fn lemma_states_keep_ids<C, W>(
    secret: Seq<char>,
    started: u128,
    earlier: Seq<ServerOp<C, W>>,
    run: ControlRun<C, W>,
    i: int,
)
    requires
        is_control_run(run),
        run.states[0] == server_run(fresh_server::<C, W>(secret, started), earlier),
        0 <= i <= run.ops.len(),
    ensures
        ids_valid(run.states[i]),
    decreases i,
{
    if i > 0 {
        lemma_states_keep_ids(secret, started, earlier, run, i - 1);
        let op = run.ops[i - 1];
    } else {
        theorem_server_keeps(fresh_server::<C, W>(secret, started), earlier);
    }
}

/// A session waits until its data connection comes, it is given up or the client
/// is lost: nothing else that happens to the server takes its place, as long as
/// not all other ids have been handed out since.
pub proof fn theorem_session_keeps_waiting<C, W>(
    m: ServerModel<C, W>,
    user: W,
    ops: Seq<ServerOp<C, W>>,
)
    requires
        m.control is Some,
        m.next_session_id != 0,
        ({
            let start = proxy_next(m, ProxyPhase::Arriving, ProxyEvent::Arrived(user)).0;
            &&& opened(start, ops) < ID_COUNT
            &&& forall|i: int|
                0 <= i < ops.len() ==> {
                    &&& !ends_wait(#[trigger] ops[i], m.next_session_id)
                    &&& !loses_client(server_run(start, ops.take(i)), ops[i])
                }
        }),
    ensures
        ({
            let start = proxy_next(m, ProxyPhase::Arriving, ProxyEvent::Arrived(user)).0;
            let pending = server_run(start, ops).pending;
            pending.contains_key(m.next_session_id) && pending[m.next_session_id] == user
        }),
    decreases ops.len(),
{
    let id = m.next_session_id;
    let start = proxy_next(m, ProxyPhase::Arriving, ProxyEvent::Arrived(user)).0;
    if ops.len() > 0 {
        let before = ops.drop_last();
        let n = ops.len() - 1;
        assert(ops.take(n) =~= before);
        assert(ops[n] == ops.last());
        assert forall|i: int| 0 <= i < before.len() implies {
            &&& !ends_wait(#[trigger] before[i], id)
            &&& !loses_client(server_run(start, before.take(i)), before[i])
        } by {
            assert(before[i] == ops[i]);
            assert(before.take(i) =~= ops.take(i));
        }
        theorem_session_keeps_waiting(m, user, before);
        let now = server_run(start, before);
        theorem_server_keeps(start, before);
        if opens(now, ops.last()) {
            let k = opened(start, before);
            lemma_nth_id_shift(id, k);
            theorem_ids_do_not_repeat_early(id, 0, k + 1);
            assert(now.next_session_id != id);
        }
        theorem_waits_are_independent(now, ops.last(), id);
    }
}

/// A session takes one data connection at most, whatever happens to the server
/// between a first and a second one, unless its id is given to a new session.
pub proof fn theorem_session_is_joined_once<C, W>(
    m: ServerModel<C, W>,
    first: FrameModel,
    ops: Seq<ServerOp<C, W>>,
    second: FrameModel,
)
    requires
        first.frame_type == FrameType::DataConnect,
        session_named(first) == session_named(second),
        ({
            let start = data_next(m, first).0;
            forall|i: int|
                0 <= i < ops.len() ==> {
                    let before = server_run(start, ops.take(i));
                    !(opens(before, #[trigger] ops[i]) && before.next_session_id == session_named(
                        first,
                    ))
                }
        }),
    ensures
        !server_run(data_next(m, first).0, ops).pending.contains_key(session_named(first)),
        data_next(server_run(data_next(m, first).0, ops), second).1 is None,
    decreases ops.len(),
{
    let start = data_next(m, first).0;
    if ops.len() > 0 {
        let before = ops.drop_last();
        let n = ops.len() - 1;
        assert(ops.take(n) =~= before);
        assert(ops[n] == ops.last());
        assert forall|i: int| 0 <= i < before.len() implies {
            let state = server_run(start, before.take(i));
            !(opens(state, #[trigger] before[i]) && state.next_session_id == session_named(first))
        } by {
            assert(before[i] == ops[i]);
            assert(before.take(i) =~= ops.take(i));
        }
        theorem_session_is_joined_once(m, first, before, second);
    }
}

/// The operation registers a control connection.
pub open spec fn registers<C, W>(op: ServerOp<C, W>) -> bool {
    op matches ServerOp::Control(phase, event, now) && phase is Accepted && event is Ready
}

/// How many control connections the operations register.
pub open spec fn registered<C, W>(ops: Seq<ServerOp<C, W>>) -> nat
    decreases ops.len(),
{
    if ops.len() == 0 {
        0
    } else {
        registered(ops.drop_last()) + if registers(ops.last()) {
            1nat
        } else {
            0nat
        }
    }
}

/// Registrations are numbered one after the other.
pub proof fn theorem_registrations_are_numbered<C, W>(
    m: ServerModel<C, W>,
    ops: Seq<ServerOp<C, W>>,
)
    ensures
        server_run(m, ops).registration == (m.registration + registered(ops)) % (u64::MAX + 1),
    decreases ops.len(),
{
    let all = u64::MAX + 1;
    if ops.len() > 0 {
        theorem_registrations_are_numbered(m, ops.drop_last());
        let a = m.registration + registered(ops.drop_last());
        if registers(ops.last()) {
            if a % all == all - 1 {
                assert((a + 1) % all == 0) by (nonlinear_arith)
                    requires
                        all > 0,
                        a % all == all - 1,
                ;
            } else {
                assert((a + 1) % all == a % all + 1) by (nonlinear_arith)
                    requires
                        all > 0,
                        a % all < all - 1,
                ;
            }
        }
    } else {
        assert(m.registration as int % all == m.registration);
    }
}

/// The operation ends the registration with this number: its connection ends, the
/// client is lost by its silence, or another connection is registered.
pub open spec fn ends_registration<C, W>(
    m: ServerModel<C, W>,
    op: ServerOp<C, W>,
    number: u64,
) -> bool {
    match op {
        ServerOp::Control(phase, event, now) => {
            ||| phase == ControlPhase::Serving(number) && event is ReadFailed
            ||| registers(op)
        },
        ServerOp::WriterEnded(n) => n == number,
        ServerOp::Watchdog(now, timeout) => overdue(m.last_heartbeat, now, timeout),
        _ => false,
    }
}

/// A client that was registered stays registered until its own connection ends,
/// it is silent for too long or another connection is registered, whatever else
/// happens to the server. As long as it is, every user who comes is announced to
/// it, and its heartbeats are answered.
pub proof fn theorem_client_stays_registered<C, W>(
    m: ServerModel<C, W>,
    control: C,
    since: u128,
    ops: Seq<ServerOp<C, W>>,
    user: W,
    ping: (FrameType, u32, Vec<u8>),
    now: u128,
)
    requires
        ping.0 == FrameType::Ping,
        ({
            let start = control_next(
                m,
                ControlPhase::Accepted,
                ControlEvent::Ready(control),
                since,
            ).0;
            forall|i: int|
                0 <= i < ops.len() ==> !ends_registration(
                    server_run(start, ops.take(i)),
                    #[trigger] ops[i],
                    start.registration,
                )
        }),
    ensures
        ({
            let ready = control_next(
                m,
                ControlPhase::Accepted,
                ControlEvent::Ready(control),
                since,
            );
            let later = server_run(ready.0, ops);
            &&& ready.1 == ControlPhase::Serving(ready.0.registration)
            &&& ready.0.pending == m.pending
            &&& later.control == Some(control)
            &&& later.registration == ready.0.registration
            &&& proxy_next(later, ProxyPhase::Arriving, ProxyEvent::Arrived(user)).2
                == ProxyAction::Announce(later.next_session_id)
            &&& control_next(later, ready.1, ControlEvent::Frame(ping), now).2
                == ControlAction::SendPong
        }),
    decreases ops.len(),
{
    let start = control_next(m, ControlPhase::Accepted, ControlEvent::Ready(control), since).0;
    if ops.len() > 0 {
        let before = ops.drop_last();
        let n = ops.len() - 1;
        assert(ops.take(n) =~= before);
        assert(ops[n] == ops.last());
        assert forall|i: int| 0 <= i < before.len() implies !ends_registration(
            server_run(start, before.take(i)),
            #[trigger] before[i],
            start.registration,
        ) by {
            assert(before[i] == ops[i]);
            assert(before.take(i) =~= ops.take(i));
        }
        theorem_client_stays_registered(m, control, since, before, user, ping, now);
    }
}

/// A client that reconnects is not disturbed by its old connection: once another
/// connection has been registered, the end of the old one changes nothing, as long as
/// fewer than all numbers have been used up since.
pub proof fn theorem_old_connection_does_no_harm<C, W>(
    m: ServerModel<C, W>,
    old_control: C,
    since: u128,
    ops: Seq<ServerOp<C, W>>,
    now: u128,
)
    requires
        0 < registered(ops) <= u64::MAX,
    ensures
        ({
            let ready = control_next(
                m,
                ControlPhase::Accepted,
                ControlEvent::Ready(old_control),
                since,
            );
            let number = ready.0.registration;
            let later = server_run(ready.0, ops);
            &&& ready.1 == ControlPhase::Serving(number)
            &&& later.registration != number
            &&& control_next(later, ready.1, ControlEvent::ReadFailed, now).0 == later
            &&& writer_ended_next(later, number) == later
        }),
{
    let start = control_next(m, ControlPhase::Accepted, ControlEvent::Ready(old_control), since).0;
    theorem_registrations_are_numbered(start, ops);
    let all = u64::MAX + 1;
    let r = start.registration as int;
    let k = registered(ops) as int;
    if r + k < all {
        assert((r + k) % all == r + k);
    } else {
        assert((r + k) % all == r + k - all);
    }
}

/// Counting on from the id behind `first` is counting on from `first`.
proof fn lemma_nth_id_shift(first: u32, k: nat)
    ensures
        nth_id(id_after(first), k) == nth_id(first, k + 1),
    decreases k,
{
    if k > 0 {
        lemma_nth_id_shift(first, (k - 1) as nat);
    } else {
        assert(nth_id(first, 1) == id_after(nth_id(first, 0)));
    }
}

} // verus!
