use durable_stream::drain::drain_continues;
use durable_stream::endpoint::Endpoint;
use durable_stream::kind::{is_disconnect_error, ErrorKind};
use durable_stream::retry::{AfterAttempt, AfterReconnect, PendingReconnect, Retry, ATTEMPTS};

fn local_9000() -> Endpoint {
    Endpoint::V4 { octets: [127, 0, 0, 1], port: 9000 }
}

fn expect_reconnect(step: AfterAttempt) -> PendingReconnect {
    match step {
        AfterAttempt::Reconnect(pending) => pending,
        other => panic!("expected a reconnect, got {:?}", other),
    }
}

fn expect_again(step: AfterReconnect) -> Retry {
    match step {
        AfterReconnect::Again(retry) => retry,
        other => panic!("expected another attempt, got {:?}", other),
    }
}

#[test]
fn disconnect_kinds_are_classified() {
    let disconnect = [
        ErrorKind::NotFound,
        ErrorKind::PermissionDenied,
        ErrorKind::ConnectionRefused,
        ErrorKind::ConnectionReset,
        ErrorKind::ConnectionAborted,
        ErrorKind::NotConnected,
        ErrorKind::AddrInUse,
        ErrorKind::AddrNotAvailable,
        ErrorKind::BrokenPipe,
        ErrorKind::AlreadyExists,
    ];
    for kind in disconnect.iter() {
        assert!(is_disconnect_error(kind), "{:?}", kind);
    }
    let other = [
        ErrorKind::WouldBlock,
        ErrorKind::InvalidInput,
        ErrorKind::InvalidData,
        ErrorKind::TimedOut,
        ErrorKind::WriteZero,
        ErrorKind::Interrupted,
        ErrorKind::Unsupported,
        ErrorKind::UnexpectedEof,
        ErrorKind::OutOfMemory,
        ErrorKind::Other,
    ];
    for kind in other.iter() {
        assert!(!is_disconnect_error(kind), "{:?}", kind);
    }
}

#[test]
fn first_attempt_success_returns_count() {
    let retry = Retry::new(local_9000());
    assert_eq!(retry.attempt_number(), 1);
    assert_eq!(retry.after_attempt(Ok(7)), AfterAttempt::Done(7));
    assert_eq!(retry.after_attempt(Ok(0)), AfterAttempt::Done(0));
}

#[test]
fn write_reconnects_once_after_server_closes() {
    let address = local_9000();
    // First write goes through.
    let first = Retry::new(address);
    assert_eq!(first.after_attempt(Ok(3)), AfterAttempt::Done(3));
    // The server closed in between: the second write fails, reconnects once, then goes through.
    let second = Retry::new(address);
    let pending = expect_reconnect(second.after_attempt(Err(ErrorKind::ConnectionReset)));
    assert_eq!(pending.target(), address);
    let again = expect_again(pending.after_reconnect(true));
    assert_eq!(again.attempt_number(), 2);
    assert_eq!(again.after_attempt(Ok(3)), AfterAttempt::Done(3));
}

#[test]
fn success_on_last_attempt_of_budget() {
    let mut retry = Retry::new(local_9000());
    for _ in 1..ATTEMPTS {
        let pending = expect_reconnect(retry.after_attempt(Err(ErrorKind::BrokenPipe)));
        retry = expect_again(pending.after_reconnect(true));
    }
    assert_eq!(retry.attempt_number(), ATTEMPTS);
    assert_eq!(retry.after_attempt(Ok(12)), AfterAttempt::Done(12));
}

#[test]
fn budget_exhausted_after_five_attempts() {
    assert_eq!(ATTEMPTS, 5);
    let mut retry = Retry::new(local_9000());
    let mut reconnects = 0;
    loop {
        let pending = expect_reconnect(retry.after_attempt(Err(ErrorKind::ConnectionAborted)));
        reconnects += 1;
        match pending.after_reconnect(true) {
            AfterReconnect::Again(next) => retry = next,
            AfterReconnect::Exhausted(n) => {
                assert_eq!(n, 5);
                break;
            }
            AfterReconnect::Surface => panic!("a successful reconnect surfaced an error"),
        }
    }
    assert_eq!(reconnects, 5);
}

#[test]
fn invalid_input_is_not_retried() {
    let retry = Retry::new(local_9000());
    assert_eq!(retry.after_attempt(Err(ErrorKind::InvalidInput)), AfterAttempt::Surface);
    assert_eq!(retry.after_attempt(Err(ErrorKind::TimedOut)), AfterAttempt::Surface);
    assert_eq!(retry.after_attempt(Err(ErrorKind::WouldBlock)), AfterAttempt::Surface);
}

#[test]
fn failed_reconnect_surfaces_original_error() {
    let retry = Retry::new(local_9000());
    let pending = expect_reconnect(retry.after_attempt(Err(ErrorKind::ConnectionRefused)));
    assert_eq!(pending.after_reconnect(false), AfterReconnect::Surface);
}

#[test]
fn reconnects_keep_the_captured_address() {
    let address = Endpoint::V6 {
        segments: [0xfe80, 0, 0, 0, 0, 0, 0, 1],
        port: 4242,
        flowinfo: 0,
        scope_id: 3,
    };
    let mut retry = Retry::new(address);
    let mut targets = Vec::new();
    loop {
        let pending = expect_reconnect(retry.after_attempt(Err(ErrorKind::NotConnected)));
        targets.push(pending.target());
        match pending.after_reconnect(true) {
            AfterReconnect::Again(next) => retry = next,
            _ => break,
        }
    }
    assert_eq!(targets.len(), 5);
    assert!(targets.iter().all(|t| *t == address));
}

#[test]
fn drain_stops_when_nothing_is_pending() {
    assert!(!drain_continues(&Ok(0)));
    assert!(!drain_continues(&Err(ErrorKind::TimedOut)));
    assert!(!drain_continues(&Err(ErrorKind::WouldBlock)));
    assert!(!drain_continues(&Err(ErrorKind::ConnectionReset)));
}

#[test]
fn drain_consumes_pending_chunks() {
    let reads: Vec<Result<usize, ErrorKind>> = vec![Ok(4), Ok(1), Ok(9), Err(ErrorKind::TimedOut), Ok(5)];
    let mut consumed = 0;
    let mut made = 0;
    for outcome in reads.iter() {
        made += 1;
        if !drain_continues(outcome) {
            break;
        }
        consumed += outcome.unwrap();
    }
    assert_eq!(made, 4);
    assert_eq!(consumed, 14);
}
