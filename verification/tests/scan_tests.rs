use fac_test::scan::{HostProbe, ProbeAction, ProbeEvent, ScanError, ScanPlan};
use fac_test::types::{DeviceState, WorkerMsg};

#[test]
fn plan_refuses_reversed_range() {
    assert!(matches!(ScanPlan::new(10, 9), Err(ScanError::StartAfterEnd)));
    assert_eq!(ScanError::StartAfterEnd.message(), "错误: 起始 IP 大于结束 IP");
}

#[test]
fn plan_batches_and_progress() {
    let p = ScanPlan::new(0xc0a8_0101, 0xc0a8_01fe).ok().unwrap();
    assert_eq!(p.total(), 254);
    assert_eq!(p.batches(), 8);
    assert_eq!(p.batch(0), (0xc0a8_0101, 0xc0a8_0120));
    assert_eq!(p.batch(7), (0xc0a8_01e1, 0xc0a8_01fe));
    assert_eq!(p.scanned_after(0), 32);
    assert_eq!(p.scanned_after(7), 254);
    assert_eq!(p.start_message(), "开始扫描 192.168.1.1 - 192.168.1.254 (共 254 个地址)");
    assert_eq!(p.progress_message(7), "扫描进度: 254/254");
    let one = ScanPlan::new(5, 5).ok().unwrap();
    assert_eq!((one.total(), one.batches(), one.batch(0), one.scanned_after(0)), (1, 1, (5, 5), 1));
}

#[test]
fn batches_cover_range_without_gaps() {
    let p = ScanPlan::new(100, 200).ok().unwrap();
    let mut next = 100;
    for k in 0..p.batches() {
        let (a, b) = p.batch(k);
        assert_eq!(a, next);
        next = b + 1;
    }
    assert_eq!(next, 201);
}

fn logs(r: &[WorkerMsg]) -> Vec<String> {
    r.iter()
        .filter_map(|m| match m {
            WorkerMsg::Log(t) => Some(t.clone()),
            _ => None,
        })
        .collect()
}

#[test]
fn closed_port_reports_nothing() {
    let mut p = HostProbe::new("10.0.0.3".to_string());
    let s = p.step(ProbeEvent::Start);
    assert!(matches!(s.action, ProbeAction::Probe));
    let s = p.step(ProbeEvent::ProbeFailed);
    assert!(s.reports.is_empty());
    assert!(matches!(s.action, ProbeAction::Finish));
}

#[test]
fn second_login_finds_device() {
    let mut p = HostProbe::new("10.0.0.3".to_string());
    let _ = p.step(ProbeEvent::Start);
    let s = p.step(ProbeEvent::ProbeOk);
    assert_eq!(logs(&s.reports), vec!["10.0.0.3: SSH 端口开放"]);
    assert!(matches!(&s.action, ProbeAction::Login { user, password } if user == "linaro" && password == "linaro"));
    let s = p.step(ProbeEvent::AuthFailed("denied".to_string()));
    assert_eq!(logs(&s.reports), vec!["10.0.0.3: linaro:linaro 认证失败 - denied"]);
    assert!(matches!(s.action, ProbeAction::Sleep(1000)));
    let s = p.step(ProbeEvent::Slept);
    assert!(matches!(s.action, ProbeAction::Reconnect));
    let s = p.step(ProbeEvent::Reconnected);
    assert!(matches!(&s.action, ProbeAction::Login { user, password } if user == "root" && password == "ematech"));
    let s = p.step(ProbeEvent::LoggedIn);
    assert_eq!(logs(&s.reports), vec!["10.0.0.3: 使用 root:ematech 登录成功"]);
    assert!(matches!(&s.action, ProbeAction::Query(c) if c == "source /etc/profile 2>/dev/null; bm_get_basic_info"));
    let s = p.step(ProbeEvent::Output(Some("device sn: ABC\n".to_string())));
    assert!(s.reports.is_empty());
    assert!(matches!(&s.action, ProbeAction::Query(c) if c.starts_with("cat /sys/class/net/eth0/address")));
    let s = p.step(ProbeEvent::Output(None));
    assert_eq!(logs(&s.reports), vec!["10.0.0.3: SN=ABC, MAC=unknown"]);
    match &s.reports[1] {
        WorkerMsg::DeviceFound(d) => {
            assert_eq!((d.sn.as_str(), d.ip.as_str(), d.mac.as_str()), ("ABC", "10.0.0.3", "unknown"));
            assert_eq!((d.username.as_str(), d.password.as_str()), ("root", "ematech"));
            assert!(d.selected);
            assert!(matches!(d.state, DeviceState::Discovered));
        }
        _ => panic!("expected a found device"),
    }
    assert!(matches!(s.action, ProbeAction::Finish));
}

#[test]
fn all_logins_fail() {
    let mut p = HostProbe::new("h".to_string());
    let _ = p.step(ProbeEvent::Start);
    let _ = p.step(ProbeEvent::ProbeOk);
    let s = p.step(ProbeEvent::HandshakeFailed("hs".to_string()));
    assert_eq!(logs(&s.reports), vec!["h: linaro:linaro 握手失败: hs"]);
    let _ = p.step(ProbeEvent::Slept);
    let s = p.step(ProbeEvent::ReconnectFailed("rst".to_string()));
    assert_eq!(logs(&s.reports), vec!["h: 重连失败: rst"]);
    let _ = p.step(ProbeEvent::Slept);
    let _ = p.step(ProbeEvent::Reconnected);
    let s = p.step(ProbeEvent::NotAuthenticated);
    assert_eq!(logs(&s.reports), vec!["h: admin:admin 未通过认证", "h: 所有凭据均失败"]);
    assert!(matches!(s.action, ProbeAction::Finish));
}

#[test]
fn missing_serial_skips_device() {
    let mut p = HostProbe::new("h".to_string());
    let _ = p.step(ProbeEvent::Start);
    let _ = p.step(ProbeEvent::ProbeOk);
    let _ = p.step(ProbeEvent::LoggedIn);
    let s = p.step(ProbeEvent::Output(Some("nothing".to_string())));
    assert_eq!(logs(&s.reports), vec!["h: bm_get_basic_info 未返回有效 SN, 跳过"]);
    assert!(matches!(s.action, ProbeAction::Finish));
}
