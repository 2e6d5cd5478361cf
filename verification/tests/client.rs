use proxy_ssh::client::{
    judge_answer, run_client, ClientAction, ClientEvent, ClientPhase, ClientState,
    MISSED_HEARTBEATS,
};
use proxy_ssh::config::{
    DEFAULT_CONTROL_PORT, DEFAULT_DATA_PORT, DEFAULT_HEARTBEAT_INTERVAL,
    DEFAULT_HEARTBEAT_TIMEOUT, DEFAULT_LOCAL_TARGET, DEFAULT_MAX_RECONNECT_DELAY,
    DEFAULT_PROXY_PORT, DEFAULT_SECRET, DEFAULT_SERVER,
};
use proxy_ssh::heartbeat::is_overdue;
use proxy_ssh::protocol::FrameType;
use proxy_ssh::reconnect::Backoff;
use proxy_ssh::relay::{Direction, RelayEvent};
use std::rc::{Rc, Weak};

const SECOND: u128 = 1_000_000_000;

type State = ClientState<Rc<u32>>;

fn step(state: &mut State, event: ClientEvent<Rc<u32>>, now: u128) -> ClientAction {
    let (phase, action) = run_client(state, ClientPhase::Serving, event, now, 10);
    let ended = matches!(action, ClientAction::Finished);
    assert_eq!(phase, if ended { ClientPhase::Ended } else { ClientPhase::Serving });
    action
}

fn frame(frame_type: FrameType, session_id: u32) -> ClientEvent<Rc<u32>> {
    ClientEvent::Frame((frame_type, session_id, vec![]))
}

/// Opens a session, and gives a handle that tells whether the client keeps it.
fn open(state: &mut State, session_id: u32) -> Weak<u32> {
    let session = Rc::new(session_id);
    let kept = Rc::downgrade(&session);
    match step(state, ClientEvent::SessionOpened(session_id, session), 0) {
        ClientAction::Join(id) => assert_eq!(id, session_id),
        other => panic!("{other:?}"),
    }
    kept
}

fn kept(session: &Weak<u32>) -> bool {
    session.upgrade().is_some()
}

#[test]
fn authentication() {
    let mut state = State::new(0);
    let (phase, action) =
        run_client(&mut state, ClientPhase::Connecting, ClientEvent::Connected, 1, 10);
    assert_eq!(phase, ClientPhase::Authenticating);
    assert_eq!(action.request("sé"), Some((FrameType::Auth, 0, vec![b's', 0xc3, 0xa9])));
    let (phase, action) = run_client(&mut state, phase, frame(FrameType::AuthOk, 0), 5, 10);
    assert_eq!(phase, ClientPhase::Serving);
    assert!(matches!(action, ClientAction::Serve));
    assert!(matches!(step(&mut state, ClientEvent::Tick, 30 * SECOND + 5), ClientAction::SendPing));
    assert!(matches!(step(&mut state, ClientEvent::Tick, 30 * SECOND + 6), ClientAction::Finished));
}

#[test]
fn refusal_gives_the_reason() {
    let mut state = State::new(0);
    for (frame_type, payload, reason) in [
        (FrameType::Close, b"auth failed".to_vec(), "Auth failed: auth failed"),
        (FrameType::Ping, vec![], "Auth failed: "),
        (FrameType::Close, b"no\xff".to_vec(), "Auth failed: no\u{FFFD}"),
    ] {
        let event = ClientEvent::Frame((frame_type, 0, payload));
        let (phase, action) =
            run_client(&mut state, ClientPhase::Authenticating, event, 1, 10);
        assert_eq!(phase, ClientPhase::Ended);
        match action {
            ClientAction::Refused(text) => assert_eq!(text, reason),
            other => panic!("{other:?}"),
        }
    }
}

#[test]
fn judging_an_answer() {
    assert_eq!(judge_answer(FrameType::AuthOk, "whatever"), None);
    assert_eq!(judge_answer(FrameType::Close, "x"), Some("Auth failed: x".to_string()));
}

#[test]
fn failures_before_service() {
    for phase in [ClientPhase::Connecting, ClientPhase::Authenticating] {
        let mut state = State::new(0);
        let (next, action) = run_client(&mut state, phase, ClientEvent::ControlFailed, 1, 10);
        assert_eq!(next, ClientPhase::Ended);
        assert!(matches!(action, ClientAction::Failed));
    }
}

#[test]
fn heartbeats_go_on_while_the_server_answers() {
    assert_eq!(MISSED_HEARTBEATS, 3);
    let mut state = State::new(0);
    let action = step(&mut state, ClientEvent::Tick, 10 * SECOND);
    assert_eq!(action.request("s"), Some((FrameType::Ping, 0, vec![])));
    assert!(matches!(
        step(&mut state, frame(FrameType::Pong, 0), 29 * SECOND),
        ClientAction::Continue
    ));
    assert!(matches!(step(&mut state, ClientEvent::Tick, 59 * SECOND), ClientAction::SendPing));
    let session = open(&mut state, 4);
    assert!(matches!(step(&mut state, ClientEvent::Tick, 59 * SECOND + 1), ClientAction::Finished));
    assert!(!kept(&session));
}

#[test]
fn sessions_open_and_close() {
    let mut state = State::new(0);
    assert!(matches!(
        step(&mut state, frame(FrameType::NewConnection, 7), 0),
        ClientAction::OpenSession(7)
    ));
    let seventh = open(&mut state, 7);
    let eighth = open(&mut state, 8);
    assert!(matches!(step(&mut state, frame(FrameType::Close, 7), 0), ClientAction::Continue));
    assert!(!kept(&seventh));
    assert!(kept(&eighth));
    assert!(matches!(step(&mut state, ClientEvent::ControlFailed, 0), ClientAction::Finished));
    assert!(!kept(&eighth));
}

#[test]
fn joining_a_session() {
    let mut state = State::new(0);
    let action = step(&mut state, ClientEvent::SessionOpened(0x0102_0304, Rc::new(0)), 0);
    assert_eq!(
        action.request("s"),
        Some((FrameType::DataConnect, 0x0102_0304, vec![1, 2, 3, 4]))
    );
}

#[test]
fn relays_end_with_both_directions() {
    let mut state = State::new(0);
    let first = open(&mut state, 1);
    let second = open(&mut state, 2);
    let ended = |direction| ClientEvent::Relay(1, RelayEvent::Ended(direction));
    let action = step(&mut state, ended(Direction::ToService), 0);
    assert!(matches!(action, ClientAction::PassEnd(1, Direction::ToService)));
    assert_eq!(action.request("s"), None);
    assert!(kept(&first));
    let action = step(&mut state, ended(Direction::ToService), 0);
    assert!(matches!(action, ClientAction::Continue));
    assert!(kept(&first));
    let action = step(&mut state, ended(Direction::ToUser), 0);
    assert_eq!(action.request("s"), Some((FrameType::Close, 1, vec![])));
    assert!(!kept(&first));
    let action = step(&mut state, ClientEvent::Relay(2, RelayEvent::Failed), 0);
    assert_eq!(action.request("s"), Some((FrameType::Close, 2, vec![])));
    assert!(!kept(&second));
}

#[test]
fn session_that_cannot_be_opened() {
    let mut state = State::new(0);
    let other = open(&mut state, 5);
    let action = step(&mut state, ClientEvent::SessionFailed(6), 0);
    assert_eq!(action.request("s"), Some((FrameType::Close, 6, vec![])));
    assert!(kept(&other));
}

#[test]
fn unexpected_frames() {
    let mut state = State::new(0);
    for frame_type in
        [FrameType::Ping, FrameType::Auth, FrameType::AuthOk, FrameType::DataConnect]
    {
        assert!(matches!(step(&mut state, frame(frame_type, 1), 0), ClientAction::Unexpected));
    }
}

#[test]
fn ended_client_ignores_events() {
    let mut state = State::new(0);
    let (phase, action) =
        run_client(&mut state, ClientPhase::Ended, frame(FrameType::NewConnection, 1), 0, 10);
    assert_eq!(phase, ClientPhase::Ended);
    assert!(matches!(action, ClientAction::Ignore));
}

#[test]
fn overdue_means_more_than_the_limit() {
    assert!(!is_overdue(5, 5 + 2 * SECOND, 2));
    assert!(is_overdue(5, 6 + 2 * SECOND, 2));
    assert!(!is_overdue(9 * SECOND, SECOND, 0));
    assert!(!is_overdue(0, u64::MAX as u128 * SECOND, u64::MAX));
    assert!(is_overdue(0, u64::MAX as u128 * SECOND + 1, u64::MAX));
}

#[test]
fn waits_double_up_to_a_minute() {
    let mut backoff = Backoff::new(DEFAULT_MAX_RECONNECT_DELAY);
    let waits: Vec<u64> = (0..9).map(|_| backoff.after(false)).collect();
    assert_eq!(waits, vec![1, 2, 4, 8, 16, 32, 60, 60, 60]);
}

#[test]
fn closed_connection_starts_the_waits_anew() {
    let mut backoff = Backoff::new(60);
    for _ in 0..5 {
        backoff.after(false);
    }
    assert_eq!(backoff.after(true), 1);
    assert_eq!(backoff.after(false), 2);
    assert_eq!(backoff.after(false), 4);
}

#[test]
fn short_limits() {
    let mut none = Backoff::new(0);
    assert_eq!((none.after(false), none.after(true), none.after(false)), (0, 0, 0));
    let mut three = Backoff::new(3);
    assert_eq!((three.after(false), three.after(false), three.after(false)), (1, 2, 3));
}

#[test]
fn waits_that_cannot_be_doubled() {
    let mut backoff = Backoff::new(u64::MAX);
    for k in 0..63 {
        assert!(backoff.can_double(false));
        assert_eq!(backoff.after(false), 1 << k);
    }
    assert!(!backoff.can_double(false));
    assert!(backoff.can_double(true));
    assert_eq!(backoff.after(true), 1);
}

#[test]
fn defaults() {
    assert_eq!(
        (DEFAULT_CONTROL_PORT, DEFAULT_PROXY_PORT, DEFAULT_DATA_PORT),
        (7000, 7001, 7002)
    );
    assert_eq!(DEFAULT_SECRET, "change-me-secret");
    assert_eq!(DEFAULT_SERVER, "104.244.95.160");
    assert_eq!(DEFAULT_LOCAL_TARGET, "127.0.0.1:22");
    assert_eq!((DEFAULT_HEARTBEAT_INTERVAL, DEFAULT_HEARTBEAT_TIMEOUT), (10, 30));
    assert_eq!(DEFAULT_HEARTBEAT_TIMEOUT, DEFAULT_HEARTBEAT_INTERVAL * MISSED_HEARTBEATS);
    assert_eq!(DEFAULT_MAX_RECONNECT_DELAY, 60);
}

#[test]
fn control_connection_carries_signals_only() {
    let mut state = State::new(0);
    let mut phase = ClientPhase::Connecting;
    let mut sent = Vec::new();
    let events = vec![
        ClientEvent::Tick,
        ClientEvent::Connected,
        ClientEvent::Connected,
        frame(FrameType::AuthOk, 0),
        ClientEvent::Connected,
        ClientEvent::Tick,
        frame(FrameType::NewConnection, 7),
        ClientEvent::SessionOpened(7, Rc::new(0)),
        frame(FrameType::NewConnection, 8),
        ClientEvent::SessionFailed(8),
        ClientEvent::Relay(7, RelayEvent::Ended(Direction::ToUser)),
        ClientEvent::Relay(7, RelayEvent::Ended(Direction::ToService)),
        ClientEvent::ControlFailed,
        ClientEvent::Tick,
    ];
    for event in events {
        let (next, action) = run_client(&mut state, phase, event, 1, 10);
        phase = next;
        if !matches!(action, ClientAction::Join(_)) {
            sent.extend(action.request("s"));
        }
    }
    assert_eq!(
        sent,
        vec![
            (FrameType::Auth, 0, b"s".to_vec()),
            (FrameType::Ping, 0, vec![]),
            (FrameType::Close, 8, vec![]),
            (FrameType::Close, 7, vec![]),
        ]
    );
}

#[test]
fn local_end_after_the_server_closed() {
    let mut state = State::new(0);
    let session = open(&mut state, 3);
    assert!(matches!(step(&mut state, frame(FrameType::Close, 3), 0), ClientAction::Continue));
    assert!(!kept(&session));
    let ended = |direction| ClientEvent::Relay(3, RelayEvent::Ended(direction));
    let action = step(&mut state, ended(Direction::ToService), 0);
    assert!(matches!(action, ClientAction::Continue));
    let action = step(&mut state, ended(Direction::ToUser), 0);
    assert_eq!(action.request("s"), Some((FrameType::Close, 3, vec![])));
}

#[test]
fn relay_fails_after_the_server_closed() {
    let mut state = State::new(0);
    open(&mut state, 3);
    step(&mut state, frame(FrameType::Close, 3), 0);
    let action = step(&mut state, ClientEvent::Relay(3, RelayEvent::Failed), 0);
    assert_eq!(action.request("s"), Some((FrameType::Close, 3, vec![])));
}

#[test]
fn server_closes_after_the_local_end() {
    let mut state = State::new(0);
    let session = open(&mut state, 3);
    let ended = ClientEvent::Relay(3, RelayEvent::Ended(Direction::ToUser));
    assert!(matches!(
        step(&mut state, ended, 0),
        ClientAction::PassEnd(3, Direction::ToUser)
    ));
    let action = step(&mut state, frame(FrameType::Close, 3), 0);
    assert_eq!(action.request("s"), Some((FrameType::Close, 3, vec![])));
    assert!(!kept(&session));
}
