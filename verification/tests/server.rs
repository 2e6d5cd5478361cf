use proxy_ssh::client::{ClientAction, ClientEvent, ClientPhase, ClientState, run_client};
use proxy_ssh::protocol::{read_frame, write_frame, FrameType};
use proxy_ssh::relay::{relay_step, Direction, RelayAction, RelayEvent, RelayPhase};
use proxy_ssh::server::{
    announcement, answer_auth, handle_control, handle_data_connect, handle_proxy, watchdog,
    writer_ended, ControlAction, ControlEvent, ControlPhase, ProxyAction, ProxyEvent, ProxyPhase,
    ServerState, DATA_CONNECT_TIMEOUT, WATCHDOG_PERIOD,
};
use proxy_ssh::session::SessionIds;

const SECOND: u128 = 1_000_000_000;

/// The phase of the first control connection that is registered.
const FIRST: ControlPhase = ControlPhase::Serving(1);

type State = ServerState<&'static str, u64>;

fn fresh() -> State {
    ServerState::new("geheim ü".to_string(), 0)
}

/// A server whose client is there since time 0.
fn connected() -> State {
    let mut state = fresh();
    let r = handle_control(&mut state, ControlPhase::Accepted, ControlEvent::Ready("home"), 0);
    assert_eq!(r, (FIRST, ControlAction::Read));
    state
}

fn frame(frame_type: FrameType, payload: &[u8]) -> ControlEvent<&'static str> {
    ControlEvent::Frame((frame_type, 0, payload.to_vec()))
}

/// A frame that opens a data connection for a session.
fn opening(frame_type: FrameType, id: u32) -> (FrameType, u32, Vec<u8>) {
    (frame_type, id, id.to_be_bytes().to_vec())
}

/// Opens a session for `user`, and gives its id.
fn open(state: &mut State, user: u64) -> u32 {
    match handle_proxy(state, ProxyPhase::Arriving, ProxyEvent::Arrived(user)) {
        (ProxyPhase::Announcing(a), ProxyAction::Announce(b)) => {
            assert_eq!(a, b);
            a
        }
        other => panic!("{other:?}"),
    }
}

#[test]
fn right_secret_is_accepted() {
    let mut state = fresh();
    let r = handle_control(
        &mut state,
        ControlPhase::Handshake,
        frame(FrameType::Auth, "geheim ü".as_bytes()),
        5,
    );
    assert_eq!(r, (ControlPhase::Accepted, ControlAction::Accept));
    assert_eq!(r.1.reply(), Some((FrameType::AuthOk, 0, vec![])));
    assert_eq!(state.control(), None);
}

#[test]
fn anything_else_is_refused() {
    for event in [
        frame(FrameType::Auth, b"geheim"),
        frame(FrameType::Auth, b""),
        frame(FrameType::Auth, b"geheim \xff"),
        frame(FrameType::Ping, "geheim ü".as_bytes()),
        frame(FrameType::DataConnect, "geheim ü".as_bytes()),
    ] {
        let mut state = fresh();
        let r = handle_control(&mut state, ControlPhase::Handshake, event, 5);
        assert_eq!(r, (ControlPhase::Closed, ControlAction::Refuse));
        assert_eq!(r.1.reply(), Some((FrameType::Close, 0, b"auth failed".to_vec())));
        assert_eq!(state.control(), None);
    }
}

#[test]
fn bytes_that_only_look_like_the_secret_are_refused() {
    let bytes = [6, 0, 0, 0, 0, 0, 0, 0, 1, 255];
    let (received, _) = read_frame(&bytes).unwrap();
    let mut state: State = ServerState::new("\u{FFFD}".to_string(), 0);
    let (phase, action) =
        handle_control(&mut state, ControlPhase::Handshake, ControlEvent::Frame(received), 0);
    assert_eq!((phase, action), (ControlPhase::Closed, ControlAction::Refuse));
    let (frame_type, session_id, payload) = action.reply().unwrap();
    let mut sent = vec![5, 0, 0, 0, 0, 0, 0, 0, 11];
    sent.extend_from_slice(b"auth failed");
    assert_eq!(write_frame(frame_type, session_id, &payload), sent);
    assert_eq!(state.control(), None);
    let r = handle_control(
        &mut state,
        ControlPhase::Handshake,
        frame(FrameType::Auth, &[0xef, 0xbf, 0xbd]),
        0,
    );
    assert_eq!(r.1, ControlAction::Accept);
}

#[test]
fn answer_to_a_given_payload() {
    let accepted = (ControlPhase::Accepted, ControlAction::Accept);
    let refused = (ControlPhase::Closed, ControlAction::Refuse);
    assert_eq!(answer_auth(FrameType::Auth, b"s", "s"), accepted);
    assert_eq!(answer_auth(FrameType::Auth, b"", ""), accepted);
    assert_eq!(answer_auth(FrameType::Auth, b"S", "s"), refused);
    assert_eq!(answer_auth(FrameType::Auth, b"ss", "s"), refused);
    assert_eq!(answer_auth(FrameType::Close, b"s", "s"), refused);
}

#[test]
fn handshake_failures() {
    let mut state = fresh();
    let stopped = (ControlPhase::Closed, ControlAction::Stop);
    assert_eq!(
        handle_control(&mut state, ControlPhase::Handshake, ControlEvent::ReadFailed, 1),
        stopped
    );
    assert_eq!(
        handle_control(&mut state, ControlPhase::Accepted, ControlEvent::ReplyFailed, 1),
        stopped
    );
    assert_eq!(state.control(), None);
}

#[test]
fn ping_is_answered() {
    let mut state = connected();
    let r = handle_control(&mut state, FIRST, frame(FrameType::Ping, b""), 7);
    assert_eq!(r, (FIRST, ControlAction::SendPong));
    assert_eq!(r.1.reply(), Some((FrameType::Pong, 0, vec![])));
    writer_ended(&mut state, 1);
    let r = handle_control(&mut state, FIRST, frame(FrameType::Ping, b""), 8);
    assert_eq!(r, (FIRST, ControlAction::Read));
    assert_eq!(r.1.reply(), None);
}

#[test]
fn other_frames_are_unexpected() {
    for frame_type in [
        FrameType::Pong,
        FrameType::NewConnection,
        FrameType::Close,
        FrameType::Auth,
        FrameType::AuthOk,
        FrameType::DataConnect,
    ] {
        let mut state = connected();
        let r = handle_control(&mut state, FIRST, frame(frame_type, b""), 7);
        assert_eq!(r, (FIRST, ControlAction::Unexpected));
        assert_eq!(state.control(), Some(&"home"));
        assert!(!watchdog(&mut state, 30 * SECOND, 30));
        assert!(watchdog(&mut state, 30 * SECOND + 1, 30));
    }
}

#[test]
fn lost_client_takes_waiting_sessions_along() {
    let mut state = connected();
    let id = open(&mut state, 11);
    let r = handle_control(&mut state, FIRST, ControlEvent::ReadFailed, 9);
    assert_eq!(r, (ControlPhase::Closed, ControlAction::Stop));
    assert_eq!(state.control(), None);
    assert_eq!(handle_data_connect(&mut state, opening(FrameType::DataConnect, id)), None);
}

#[test]
fn ended_writer_leaves_waiting_sessions() {
    let mut state = connected();
    let id = open(&mut state, 11);
    writer_ended(&mut state, 1);
    assert_eq!(state.control(), None);
    assert_eq!(handle_data_connect(&mut state, opening(FrameType::DataConnect, id)), Some(11));
}

#[test]
fn watchdog_waits_for_the_whole_timeout() {
    assert_eq!(WATCHDOG_PERIOD, 5);
    let mut state = connected();
    let id = open(&mut state, 11);
    handle_control(&mut state, FIRST, frame(FrameType::Ping, b""), 4 * SECOND);
    assert!(!watchdog(&mut state, 3 * SECOND, 30));
    assert!(!watchdog(&mut state, 34 * SECOND, 30));
    assert_eq!(state.control(), Some(&"home"));
    assert!(watchdog(&mut state, 34 * SECOND + 1, 30));
    assert_eq!(state.control(), None);
    assert_eq!(handle_data_connect(&mut state, opening(FrameType::DataConnect, id)), None);
    assert!(!watchdog(&mut state, 90 * SECOND, 30));
}

#[test]
fn watchdog_without_a_client_leaves_sessions() {
    let mut state = connected();
    let id = open(&mut state, 11);
    writer_ended(&mut state, 1);
    assert!(!watchdog(&mut state, 90 * SECOND, 30));
    assert_eq!(handle_data_connect(&mut state, opening(FrameType::DataConnect, id)), Some(11));
}

#[test]
fn no_client_no_session() {
    let mut state = fresh();
    let r = handle_proxy(&mut state, ProxyPhase::Arriving, ProxyEvent::Arrived(1));
    assert_eq!(r, (ProxyPhase::Done, ProxyAction::Reject));
    handle_control(&mut state, ControlPhase::Accepted, ControlEvent::Ready("home"), 0);
    assert_eq!(open(&mut state, 2), 1);
}

#[test]
fn session_ids_count_from_one() {
    let mut ids = SessionIds::new();
    assert_eq!((ids.allocate(), ids.allocate(), ids.allocate()), (1, 2, 3));
}

#[test]
fn a_session_from_start_to_end() {
    let mut state = connected();
    let id = open(&mut state, 42);
    assert_eq!(announcement(id), (FrameType::NewConnection, 1, vec![]));
    assert_eq!(
        handle_proxy(&mut state, ProxyPhase::Announcing(id), ProxyEvent::Announced),
        (ProxyPhase::Waiting(id), ProxyAction::AwaitData(id))
    );
    assert_eq!(DATA_CONNECT_TIMEOUT, 10);
    assert_eq!(handle_data_connect(&mut state, opening(FrameType::Ping, id)), None);
    assert_eq!(handle_data_connect(&mut state, opening(FrameType::DataConnect, id + 1)), None);
    assert_eq!(handle_data_connect(&mut state, opening(FrameType::DataConnect, id)), Some(42));
    assert_eq!(handle_data_connect(&mut state, opening(FrameType::DataConnect, id)), None);
    let (phase, action) =
        handle_proxy(&mut state, ProxyPhase::Waiting(id), ProxyEvent::DataArrived);
    assert_eq!(phase, ProxyPhase::Bridging(id, RelayPhase::Open));
    assert_eq!(action, ProxyAction::Bridge(id));
    let ended = ProxyEvent::Relay(RelayEvent::Ended(Direction::ToService));
    let (phase, action) = handle_proxy(&mut state, phase, ended);
    assert_eq!(phase, ProxyPhase::Bridging(id, RelayPhase::Half(Direction::ToService)));
    assert_eq!(action, ProxyAction::PassEnd(id, Direction::ToService));
    let ended = ProxyEvent::Relay(RelayEvent::Ended(Direction::ToUser));
    assert_eq!(
        handle_proxy(&mut state, phase, ended),
        (ProxyPhase::Done, ProxyAction::Shutdown(id))
    );
}

#[test]
fn a_failed_relay_is_over_at_once() {
    let mut state = connected();
    for relay in [RelayPhase::Open, RelayPhase::Half(Direction::ToUser)] {
        let failed = ProxyEvent::Relay(RelayEvent::Failed);
        assert_eq!(
            handle_proxy(&mut state, ProxyPhase::Bridging(4, relay), failed),
            (ProxyPhase::Done, ProxyAction::Shutdown(4))
        );
    }
}

#[test]
fn relay_phases() {
    let (service, user) = (Direction::ToService, Direction::ToUser);
    for (one, other) in [(service, user), (user, service)] {
        let half = RelayPhase::Half(one);
        assert_eq!(
            relay_step(RelayPhase::Open, RelayEvent::Ended(one)),
            (half, RelayAction::PassEnd(one))
        );
        assert_eq!(relay_step(half, RelayEvent::Ended(one)), (half, RelayAction::Ignore));
        assert_eq!(
            relay_step(half, RelayEvent::Ended(other)),
            (RelayPhase::Over, RelayAction::Shutdown)
        );
        assert_eq!(
            relay_step(RelayPhase::Over, RelayEvent::Ended(one)),
            (RelayPhase::Over, RelayAction::Ignore)
        );
    }
    assert_eq!(
        relay_step(RelayPhase::Open, RelayEvent::Failed),
        (RelayPhase::Over, RelayAction::Shutdown)
    );
}

#[test]
fn the_payload_names_the_session() {
    let mut state = connected();
    for user in 1..=8 {
        open(&mut state, user);
    }
    let bytes = [8, 0, 0, 0, 0, 0, 0, 0, 4, 0, 0, 0, 7];
    let (received, _) = read_frame(&bytes).unwrap();
    assert_eq!(handle_data_connect(&mut state, received), Some(7));
    let other_header = (FrameType::DataConnect, 3, vec![0, 0, 0, 5]);
    assert_eq!(handle_data_connect(&mut state, other_header), Some(5));
    assert_eq!(handle_data_connect(&mut state, (FrameType::DataConnect, 3, vec![])), Some(3));
    assert_eq!(handle_data_connect(&mut state, (FrameType::DataConnect, 0, vec![])), None);
}

#[test]
fn joined_once_whatever_comes_between() {
    let mut state = connected();
    let id = open(&mut state, 5);
    assert_eq!(handle_data_connect(&mut state, opening(FrameType::DataConnect, id)), Some(5));
    open(&mut state, 6);
    handle_control(&mut state, FIRST, frame(FrameType::Ping, b""), 7);
    writer_ended(&mut state, 1);
    assert_eq!(handle_data_connect(&mut state, opening(FrameType::DataConnect, id)), None);
}

#[test]
fn failed_sessions_wait_no_longer() {
    let mut state = connected();
    let first = open(&mut state, 1);
    let second = open(&mut state, 2);
    let third = open(&mut state, 3);
    assert_eq!((first, second, third), (1, 2, 3));
    assert_eq!(
        handle_proxy(&mut state, ProxyPhase::Announcing(first), ProxyEvent::AnnounceFailed),
        (ProxyPhase::Done, ProxyAction::GiveUp(first))
    );
    assert_eq!(
        handle_proxy(&mut state, ProxyPhase::Waiting(second), ProxyEvent::WaitFailed),
        (ProxyPhase::Done, ProxyAction::GiveUp(second))
    );
    assert_eq!(handle_data_connect(&mut state, opening(FrameType::DataConnect, first)), None);
    assert_eq!(handle_data_connect(&mut state, opening(FrameType::DataConnect, second)), None);
    assert_eq!(handle_data_connect(&mut state, opening(FrameType::DataConnect, third)), Some(3));
}

#[test]
fn final_phases_ignore_events() {
    let mut state = connected();
    assert_eq!(
        handle_control(&mut state, ControlPhase::Closed, ControlEvent::ReadFailed, 1),
        (ControlPhase::Closed, ControlAction::Ignore)
    );
    assert_eq!(
        handle_proxy(&mut state, ProxyPhase::Done, ProxyEvent::Arrived(5)),
        (ProxyPhase::Done, ProxyAction::Ignore)
    );
    assert_eq!(state.control(), Some(&"home"));
    assert_eq!(open(&mut state, 6), 1);
}

#[test]
fn a_new_client_takes_the_place_of_the_old_one() {
    let mut state = connected();
    let id = open(&mut state, 8);
    handle_control(&mut state, ControlPhase::Accepted, ControlEvent::Ready("other"), 3);
    assert_eq!(state.control(), Some(&"other"));
    let r = handle_control(&mut state, FIRST, frame(FrameType::Ping, b""), 4);
    assert_eq!(r, (FIRST, ControlAction::SendPong));
    assert_eq!(state.control(), Some(&"other"));
    writer_ended(&mut state, 1);
    let r = handle_control(&mut state, FIRST, ControlEvent::ReadFailed, 5);
    assert_eq!(r, (ControlPhase::Closed, ControlAction::Stop));
    assert_eq!(state.control(), Some(&"other"));
    let second = ControlPhase::Serving(2);
    let r = handle_control(&mut state, second, frame(FrameType::Ping, b""), 6);
    assert_eq!(r, (second, ControlAction::SendPong));
    assert_eq!(open(&mut state, 9), 2);
    assert_eq!(handle_data_connect(&mut state, opening(FrameType::DataConnect, id)), Some(8));
}

/// Sends a frame as bytes, and gives what the peer reads.
fn over_the_wire(frame: (FrameType, u32, Vec<u8>)) -> (FrameType, u32, Vec<u8>) {
    let bytes = write_frame(frame.0, frame.1, &frame.2);
    let (read, n) = read_frame(&bytes).unwrap();
    assert_eq!(n, bytes.len());
    read
}

#[test]
fn client_and_server_together() {
    let secret = "geheim ü";
    let mut server = fresh();
    let mut client: ClientState<&'static str> = ClientState::new(0);

    let (phase, action) =
        run_client(&mut client, ClientPhase::Connecting, ClientEvent::Connected, 0, 10);
    let request = over_the_wire(action.request(secret).unwrap());
    let (control_phase, control_action) =
        handle_control(&mut server, ControlPhase::Handshake, ControlEvent::Frame(request), 0);
    let answer = over_the_wire(control_action.reply().unwrap());
    let (phase, action) = run_client(&mut client, phase, ClientEvent::Frame(answer), 0, 10);
    assert!(matches!(action, ClientAction::Serve));
    let (control_phase, _) =
        handle_control(&mut server, control_phase, ControlEvent::Ready("home"), 0);

    let (_, action) = run_client(&mut client, phase, ClientEvent::Tick, 10 * SECOND, 10);
    let ping = over_the_wire(action.request(secret).unwrap());
    let (control_phase, control_action) =
        handle_control(&mut server, control_phase, ControlEvent::Frame(ping), 11 * SECOND);
    assert_eq!(control_phase, FIRST);
    let pong = over_the_wire(control_action.reply().unwrap());
    run_client(&mut client, phase, ClientEvent::Frame(pong), 12 * SECOND, 10);
    assert!(!watchdog(&mut server, 41 * SECOND, 30));
    let (_, action) = run_client(&mut client, phase, ClientEvent::Tick, 42 * SECOND, 10);
    assert!(matches!(action, ClientAction::SendPing));

    let id = open(&mut server, 99);
    let announced = over_the_wire(announcement(id));
    let (phase, action) = run_client(&mut client, phase, ClientEvent::Frame(announced), 1, 10);
    assert!(matches!(action, ClientAction::OpenSession(1)));
    let (_, action) =
        run_client(&mut client, phase, ClientEvent::SessionOpened(id, "relay"), 1, 10);
    let opening = over_the_wire(action.request(secret).unwrap());
    assert_eq!(opening, (FrameType::DataConnect, 1, vec![0, 0, 0, 1]));
    assert_eq!(handle_data_connect(&mut server, opening), Some(99));
}

#[test]
fn frames_on_one_control_connection() {
    let mut state = fresh();
    let mut sent = Vec::new();
    let mut refused = ControlPhase::Handshake;
    for event in [
        frame(FrameType::Auth, b"wrong"),
        frame(FrameType::Auth, "geheim ü".as_bytes()),
        frame(FrameType::Ping, b""),
        ControlEvent::Ready("late"),
    ] {
        let (next, action) = handle_control(&mut state, refused, event, 0);
        refused = next;
        sent.extend(action.reply());
    }
    assert_eq!(sent, vec![(FrameType::Close, 0, b"auth failed".to_vec())]);
    assert_eq!(state.control(), None);

    let mut sent = Vec::new();
    let mut phase = ControlPhase::Handshake;
    for event in [
        frame(FrameType::Auth, "geheim ü".as_bytes()),
        ControlEvent::Ready("home"),
        frame(FrameType::Ping, b""),
    ] {
        let (next, action) = handle_control(&mut state, phase, event, 0);
        phase = next;
        sent.extend(action.reply());
    }
    sent.push(announcement(open(&mut state, 1)));
    assert_eq!(
        sent,
        vec![
            (FrameType::AuthOk, 0, vec![]),
            (FrameType::Pong, 0, vec![]),
            (FrameType::NewConnection, 1, vec![]),
        ]
    );
}
