use fac_test::session::{ConnectDecision, ConnectOutcome, ConnectRetry, UploadProgress};
use fac_test::types::DeviceState;

#[test]
fn retries_then_gives_last_error() {
    let mut r = ConnectRetry::new();
    assert!(matches!(r.after(ConnectOutcome::TcpFailed("t".to_string())), ConnectDecision::Retry(2000)));
    assert!(matches!(r.after(ConnectOutcome::SessionFailed("s".to_string())), ConnectDecision::Retry(4000)));
    match r.after(ConnectOutcome::HandshakeFailed("h".to_string())) {
        ConnectDecision::Fail(e) => assert_eq!(e, "SSH 握手失败(第3次): h"),
        _ => panic!("expected failure"),
    }
}

#[test]
fn login_answers_end_at_once() {
    let mut r = ConnectRetry::new();
    assert!(matches!(r.after(ConnectOutcome::LoggedIn), ConnectDecision::Succeed));
    let mut r = ConnectRetry::new();
    match r.after(ConnectOutcome::AuthFailed("bad".to_string())) {
        ConnectDecision::Fail(e) => assert_eq!(e, "认证失败: bad"),
        _ => panic!(),
    }
    let mut r = ConnectRetry::new();
    match r.after(ConnectOutcome::NotAuthenticated) {
        ConnectDecision::Fail(e) => assert_eq!(e, "SSH 认证失败"),
        _ => panic!(),
    }
    let mut r = ConnectRetry::new();
    let _ = r.after(ConnectOutcome::TcpFailed("x".to_string()));
    assert_eq!(r.last_err, "TCP 连接失败: x");
}

#[test]
fn upload_reports_every_two_percent() {
    let mut p = UploadProgress::new(100);
    assert!(matches!(p.advance(1), Some(DeviceState::Transferring { done: 1, total: 100 })));
    assert!(p.advance(2).is_none());
    assert!(matches!(p.advance(1), Some(DeviceState::Transferring { done: 4, total: 100 })));
    assert!(p.advance(96).is_some());
    let mut e = UploadProgress::new(0);
    assert!(matches!(e.advance(0), Some(DeviceState::Transferring { done: 0, total: 0 })));
    assert!(e.advance(10).is_none());
}
