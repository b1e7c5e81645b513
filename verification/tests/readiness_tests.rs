use lambda_web_adapter::readiness::{
    probe_ready, startup_readiness, Checkpoint, ProbeObservation, ReadinessFlag,
    RETRY_INTERVAL_MS, STARTUP_PROBE_BUDGET_MS,
};
use lambda_web_adapter::Protocol;

#[test]
fn http_probe_status_200_is_ready() {
    assert!(probe_ready(Protocol::Http, 500, &ProbeObservation::HttpStatus(200)));
}

#[test]
fn http_probe_status_500_is_not_ready() {
    assert!(!probe_ready(Protocol::Http, 500, &ProbeObservation::HttpStatus(500)));
}

#[test]
fn http_probe_status_403_is_not_ready_under_threshold_400() {
    assert!(!probe_ready(Protocol::Http, 400, &ProbeObservation::HttpStatus(403)));
}

#[test]
fn http_probe_boundaries() {
    // ready exactly when 100 <= status < threshold
    assert!(probe_ready(Protocol::Http, 500, &ProbeObservation::HttpStatus(100)));
    assert!(!probe_ready(Protocol::Http, 500, &ProbeObservation::HttpStatus(99)));
    assert!(probe_ready(Protocol::Http, 500, &ProbeObservation::HttpStatus(499)));
    assert!(!probe_ready(Protocol::Http, 500, &ProbeObservation::HttpStatus(503)));
    assert!(!probe_ready(Protocol::Http, 500, &ProbeObservation::Unreachable));
}

#[test]
fn tcp_probe_depends_only_on_connection() {
    assert!(probe_ready(Protocol::Tcp, 500, &ProbeObservation::TcpConnect(true)));
    assert!(probe_ready(Protocol::Tcp, 0, &ProbeObservation::TcpConnect(true)));
    assert!(!probe_ready(Protocol::Tcp, 500, &ProbeObservation::TcpConnect(false)));
    assert!(!probe_ready(Protocol::Tcp, 0, &ProbeObservation::TcpConnect(false)));
    // an HTTP status means nothing to a TCP probe
    assert!(!probe_ready(Protocol::Tcp, 500, &ProbeObservation::HttpStatus(200)));
    assert!(!probe_ready(Protocol::Tcp, 500, &ProbeObservation::Unreachable));
}

#[test]
fn startup_readiness_false_on_timeout() {
    assert!(startup_readiness(true, true));
    assert!(!startup_readiness(true, false));
    // the budget expired before the probe finished
    assert!(!startup_readiness(false, true));
    assert!(!startup_readiness(false, false));
}

#[test]
fn constants_are_as_documented() {
    assert_eq!(RETRY_INTERVAL_MS, 10);
    assert_eq!(STARTUP_PROBE_BUDGET_MS, 9800);
}

#[test]
fn checkpoint_doubles_and_never_decreases() {
    let mut cp = Checkpoint::new();
    assert_eq!(cp.next_ms(), 10);
    assert!(!cp.lapsed(9));
    assert!(cp.lapsed(10));
    // no log due: nothing changes
    assert!(!cp.tick(5));
    assert_eq!(cp.next_ms(), 10);
    // a log is due: the threshold doubles
    assert!(cp.tick(12));
    assert_eq!(cp.next_ms(), 20);
    assert!(!cp.tick(12));
    assert!(cp.tick(40));
    assert_eq!(cp.next_ms(), 40);
    assert!(cp.tick(40));
    assert_eq!(cp.next_ms(), 80);
}

#[test]
fn readiness_flag_is_monotonic() {
    let mut flag = ReadinessFlag::new();
    assert!(!flag.observe());
    flag.set_ready();
    assert!(flag.observe());
    // redundant writes are tolerated and change nothing
    flag.set_ready();
    assert!(flag.observe());
    assert!(flag.observe());
}
