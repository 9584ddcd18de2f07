use openwhoop::discovery::{advertises, find_target, Advertisement, DeviceAddress, DeviceListing};
use openwhoop::session::{Session, SessionError, SessionState, StreamEnd};
use openwhoop::store::PacketStore;
use openwhoop::terminate::{RetryPolicy, TerminateAction, TerminateLoop};

const SERVICE: u128 = 0x6108_0001_8d6d_82b8_614a_1c8c_b0f8_dcc6;

fn ad(address: u64, services: Vec<u128>) -> Advertisement {
    Advertisement {
        address: DeviceAddress { value: address },
        name: Some(format!("dev{}", address)),
        rssi: Some(-60),
        services,
    }
}

fn fixed(backoff: u64) -> RetryPolicy {
    RetryPolicy { initial_backoff_ms: backoff, max_backoff_ms: backoff, max_attempts: None }
}

/// A transport that is disconnected for the first `down` checks.
struct FlakyLink {
    down: u32,
    checks: u32,
    reconnects: u32,
    sent: u32,
}

impl FlakyLink {
    fn is_connected(&mut self) -> bool {
        self.checks += 1;
        self.checks > self.down
    }
}

fn run_terminate(link: &mut FlakyLink, policy: RetryPolicy) -> (Vec<u64>, TerminateAction) {
    let mut lp = TerminateLoop::new(policy);
    let mut waits = Vec::new();
    loop {
        match lp.on_check(link.is_connected()) {
            TerminateAction::ReconnectThenWait { wait_ms } => {
                link.reconnects += 1;
                waits.push(wait_ms);
            }
            TerminateAction::SendTerminate => {
                link.sent += 1;
                return (waits, TerminateAction::SendTerminate);
            }
            other => return (waits, other),
        }
    }
}

#[test]
fn terminate_sent_once_after_reconnects() {
    let mut link = FlakyLink { down: 4, checks: 0, reconnects: 0, sent: 0 };
    let (waits, last) = run_terminate(&mut link, fixed(1000));
    assert_eq!(last, TerminateAction::SendTerminate);
    assert_eq!(link.sent, 1);
    assert_eq!(link.reconnects, 4);
    assert_eq!(waits, vec![1000, 1000, 1000, 1000]);
}

#[test]
fn terminate_immediately_when_connected() {
    let mut link = FlakyLink { down: 0, checks: 0, reconnects: 0, sent: 0 };
    let (waits, last) = run_terminate(&mut link, fixed(1000));
    assert_eq!(last, TerminateAction::SendTerminate);
    assert!(waits.is_empty());
    assert_eq!(link.sent, 1);
}

#[test]
fn terminate_backoff_doubles_up_to_cap() {
    let policy = RetryPolicy { initial_backoff_ms: 100, max_backoff_ms: 500, max_attempts: None };
    let mut link = FlakyLink { down: 5, checks: 0, reconnects: 0, sent: 0 };
    let (waits, _) = run_terminate(&mut link, policy);
    assert_eq!(waits, vec![100, 200, 400, 500, 500]);
}

#[test]
fn terminate_gives_up_at_ceiling() {
    let policy = RetryPolicy { initial_backoff_ms: 10, max_backoff_ms: 10, max_attempts: Some(2) };
    let mut link = FlakyLink { down: 10, checks: 0, reconnects: 0, sent: 0 };
    let (waits, last) = run_terminate(&mut link, policy);
    assert_eq!(last, TerminateAction::GiveUp);
    assert_eq!(waits, vec![10, 10]);
    assert_eq!(link.sent, 0);
    let mut lp = TerminateLoop::new(policy);
    lp.finished = true;
    assert_eq!(lp.on_check(true), TerminateAction::Finished);
}

#[test]
fn discovery_ignores_entries_without_service() {
    let target = DeviceAddress { value: 0xA1B2_C3D4_E5F6 };
    let ads = vec![ad(0xA1B2_C3D4_E5F6, vec![7]), ad(0x11, vec![SERVICE])];
    assert_eq!(find_target(&ads, SERVICE, target), None);
    let ads = vec![ad(0x11, vec![SERVICE]), ad(0xA1B2_C3D4_E5F6, vec![7]), ad(0xA1B2_C3D4_E5F6, vec![3, SERVICE])];
    assert_eq!(find_target(&ads, SERVICE, target), Some(2));
    assert!(advertises(&ads[2], SERVICE));
    assert!(!advertises(&ads[1], SERVICE));
}

#[test]
fn listing_reports_each_matching_device_once() {
    let mut listing = DeviceListing::new();
    let first = vec![ad(1, vec![SERVICE]), ad(2, vec![9]), ad(3, vec![SERVICE]), ad(1, vec![SERVICE])];
    assert_eq!(listing.observe(&first, SERVICE), vec![0, 2]);
    let second = vec![ad(3, vec![SERVICE]), ad(4, vec![SERVICE]), ad(2, vec![9])];
    assert_eq!(listing.observe(&second, SERVICE), vec![1]);
    assert!(listing.has_seen(DeviceAddress { value: 4 }));
    assert!(!listing.has_seen(DeviceAddress { value: 2 }));
}

#[test]
fn interrupted_sync_keeps_packets_and_still_terminates() {
    let mut store = PacketStore::new();
    let mut session = Session::new(fixed(1000));
    assert_eq!(session.on_connect(true), Ok(()));
    assert_eq!(session.on_initialize(true), Ok(()));
    assert_eq!(session.start_streaming(), Ok(()));
    for i in 0..3u8 {
        assert_eq!(session.on_packet(&mut store, vec![i, i]), Ok(u64::from(i) + 1));
    }
    assert_eq!(session.on_stream_end(StreamEnd::Disconnected), Ok(()));
    assert_eq!(session.state, SessionState::Draining);
    assert_eq!(store.len(), 3);
    let ids: Vec<u64> = store.read_from(0, 10).iter().map(|p| p.id).collect();
    assert_eq!(ids, vec![1, 2, 3]);
    assert_eq!(
        session.on_connection_check(false),
        Ok(TerminateAction::ReconnectThenWait { wait_ms: 1000 })
    );
    assert_eq!(session.on_connection_check(true), Ok(TerminateAction::SendTerminate));
    assert_eq!(session.state, SessionState::Terminated);
    assert_eq!(session.terminate.attempts, 1);
    assert_eq!(session.captured, 3);
    assert_eq!(session.stream_end, Some(StreamEnd::Disconnected));
    assert_eq!(store.len(), 3);
}

#[test]
fn connect_and_handshake_failures_abort() {
    let mut session = Session::new(fixed(5));
    assert_eq!(session.on_connect(false), Err(SessionError::Transport));
    assert_eq!(session.state, SessionState::Failed);
    let mut session = Session::new(fixed(5));
    assert_eq!(session.on_connect(true), Ok(()));
    assert_eq!(session.on_connect(true), Ok(()));
    assert_eq!(session.on_initialize(false), Err(SessionError::Protocol));
    assert_eq!(session.state, SessionState::Failed);
}

#[test]
fn out_of_order_events_are_refused() {
    let mut store = PacketStore::new();
    let mut session = Session::new(fixed(5));
    assert_eq!(session.on_initialize(true), Err(SessionError::OutOfOrder));
    assert_eq!(session.start_streaming(), Err(SessionError::OutOfOrder));
    assert_eq!(session.on_packet(&mut store, vec![1]), Err(SessionError::OutOfOrder));
    assert_eq!(session.on_stream_end(StreamEnd::EndOfHistory), Err(SessionError::OutOfOrder));
    assert_eq!(session.on_connection_check(true), Err(SessionError::OutOfOrder));
    assert_eq!(session.state, SessionState::Discovering);
    assert_eq!(store.len(), 0);
}

#[test]
fn session_gives_up_when_ceiling_reached() {
    let policy = RetryPolicy { initial_backoff_ms: 5, max_backoff_ms: 5, max_attempts: Some(1) };
    let mut store = PacketStore::new();
    let mut session = Session::new(policy);
    session.on_connect(true).unwrap();
    session.on_initialize(true).unwrap();
    session.start_streaming().unwrap();
    session.on_packet(&mut store, vec![9]).unwrap();
    session.on_stream_end(StreamEnd::EndOfHistory).unwrap();
    assert_eq!(session.on_connection_check(false), Ok(TerminateAction::ReconnectThenWait { wait_ms: 5 }));
    assert_eq!(session.on_connection_check(false), Err(SessionError::TerminateNotDelivered));
    assert_eq!(session.state, SessionState::Failed);
    assert_eq!(store.len(), 1);
}
