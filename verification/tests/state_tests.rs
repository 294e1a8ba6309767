use fac_test::state::{state_color_css, ApiError, SharedState};
use fac_test::types::{AgingDuration, DeviceInfo, DeviceState, NetworkInterface, WorkerMsg};

fn iface(ip: u32, mask: u32) -> NetworkInterface {
    NetworkInterface { name: "eth0".to_string(), ip, netmask: mask }
}

fn dev(ip: &str, selected: bool) -> DeviceInfo {
    DeviceInfo {
        sn: format!("SN-{}", ip),
        ip: ip.to_string(),
        mac: "m".to_string(),
        username: "root".to_string(),
        password: "p".to_string(),
        state: DeviceState::Discovered,
        selected,
    }
}

fn state() -> SharedState {
    SharedState::new(vec![iface(0xc0a8_0105, 0xffff_ff00), iface(0x0a00_0001, 0xff00_0000)], None)
}

#[test]
fn initial_state() {
    let s = state();
    assert_eq!((s.scan_start.as_str(), s.scan_end.as_str()), ("192.168.1.1", "192.168.1.254"));
    assert_eq!(s.duration, AgingDuration::Min5);
    assert_eq!(s.upload_buf_kb, 64);
    assert!(s.test_program.is_empty());
    let e = SharedState::new(vec![], Some("/x/p.tgz".to_string()));
    assert!(e.scan_start.is_empty() && e.scan_end.is_empty());
    assert_eq!(e.test_program, "/x/p.tgz");
}

#[test]
fn choosing_interface_resets_range() {
    let mut s = state();
    s.set_interface_from_body(r#"{"idx": 1}"#);
    assert_eq!(s.selected_iface_idx, 1);
    assert_eq!((s.scan_start.as_str(), s.scan_end.as_str()), ("10.0.0.1", "10.0.0.254"));
    s.set_interface(Some(5));
    assert_eq!(s.selected_iface_idx, 1);
    s.set_interface_from_body("not json");
    assert_eq!(s.selected_iface_idx, 1);
}

#[test]
fn log_lines_are_stamped() {
    let mut s = state();
    s.add_log_at("12:00:00", "hello");
    assert_eq!(s.log_lines, vec!["[12:00:00] hello".to_string()]);
    s.add_log("x");
    let l = &s.log_lines[1];
    assert_eq!(l.len(), "[hh:mm:ss] x".len());
    assert!(l.starts_with('[') && l.ends_with("] x"));
}

#[test]
fn worker_messages() {
    let mut s = state();
    s.scanning = true;
    s.process_message_at(WorkerMsg::Log("a".to_string()), "01:02:03");
    s.process_message_at(WorkerMsg::DeviceFound(dev("10.0.0.2", true)), "01:02:03");
    s.process_message_at(WorkerMsg::ScanComplete, "01:02:04");
    assert!(!s.scanning);
    assert!(s.show_confirm);
    assert_eq!(s.log_lines, vec!["[01:02:03] a".to_string(), "[01:02:04] 扫描完成, 发现 1 台设备".to_string()]);
    s.confirm();
    assert!(!s.show_confirm);
}

#[test]
fn empty_scan_asks_nothing() {
    let mut s = state();
    s.process_message(WorkerMsg::ScanComplete);
    assert!(!s.show_confirm);
    assert!(s.log_lines[0].ends_with("扫描完成, 发现 0 台设备"));
}

#[test]
fn test_run_ends_when_selected_devices_finish() {
    let mut s = state();
    s.devices = vec![dev("10.0.0.2", true), dev("10.0.0.3", true), dev("10.0.0.4", false)];
    s.testing = true;
    s.process_message_at(
        WorkerMsg::DeviceStateChanged { ip: "10.0.0.2".to_string(), state: DeviceState::Passed },
        "t",
    );
    assert!(s.testing);
    s.process_message_at(
        WorkerMsg::DeviceStateChanged { ip: "10.0.0.3".to_string(), state: DeviceState::Error("e".to_string()) },
        "t",
    );
    assert!(!s.testing);
    assert_eq!(s.log_lines.last().unwrap(), "[t] 所有选中设备测试已完成");
    assert!(matches!(s.devices[0].state, DeviceState::Passed));
    assert!(matches!(s.devices[2].state, DeviceState::Discovered));
}

#[test]
fn state_change_for_unknown_ip_changes_nothing() {
    let mut s = state();
    s.devices = vec![dev("10.0.0.2", true)];
    s.process_message_at(
        WorkerMsg::DeviceStateChanged { ip: "10.9.9.9".to_string(), state: DeviceState::Failed },
        "t",
    );
    assert!(matches!(s.devices[0].state, DeviceState::Discovered));
}

#[test]
fn scan_requests() {
    let mut s = state();
    let r = s.begin_scan_at(Some("10.0.0.1".to_string()), Some("10.0.0.20".to_string()), "t");
    assert_eq!(r, Ok((0x0a00_0001, 0x0a00_0014)));
    assert!(s.scanning && s.devices.is_empty());
    assert_eq!(s.begin_scan_at(None, None, "t"), Err(ApiError::Busy));

    let mut s = state();
    assert_eq!(s.begin_scan_at(Some("10.0.0.300".to_string()), None, "t"), Err(ApiError::BadStart));
    assert_eq!(s.log_lines, vec!["[t] 错误: 无效的起始 IP 地址".to_string()]);
    assert_eq!(s.begin_scan_at(Some("10.0.0.1".to_string()), Some("x".to_string()), "t"), Err(ApiError::BadEnd));
    assert!(!s.scanning);

    let mut e = SharedState::new(vec![], None);
    assert_eq!(e.begin_scan_at(None, None, "t"), Err(ApiError::NoInterface));

    let mut s = state();
    let r = s.begin_scan_from_body(r#"{"scan_start": "192.168.1.10", "scan_end": "192.168.1.12"}"#);
    assert_eq!(r, Ok((0xc0a8_010a, 0xc0a8_010c)));
    assert_eq!(s.scan_start, "192.168.1.10");
}

#[test]
fn test_requests() {
    let mut s = state();
    s.apply_test_settings(None, None, None);
    assert_eq!(s.start_test_at(true, "t").err(), Some(ApiError::NoProgram));
    s.apply_test_settings(Some("/p.tgz".to_string()), Some("180".to_string()), Some(2048));
    assert_eq!(s.duration, AgingDuration::Hour3);
    assert_eq!(s.upload_buf_kb, 64);
    s.apply_test_settings_from_body(r#"{"duration": "bogus", "upload_buf_kb": 128}"#);
    assert_eq!(s.duration, AgingDuration::Hour3);
    assert_eq!(s.upload_buf_kb, 128);
    assert_eq!(s.start_test_at(false, "t").err(), Some(ApiError::ProgramMissing));
    assert_eq!(s.start_test_at(true, "t").err(), Some(ApiError::NoDeviceSelected));
    s.devices = vec![dev("a", false), dev("b", true), dev("c", true)];
    let l = s.start_test_at(true, "t").ok().unwrap();
    assert!(s.testing);
    let ips: Vec<&str> = l.devices.iter().map(|d| d.ip.as_str()).collect();
    assert_eq!(ips, vec!["b", "c"]);
    assert_eq!(l.program, "/p.tgz");
    assert_eq!(l.duration, AgingDuration::Hour3);
    assert_eq!(l.buf_size, 128 * 1024);
    assert_eq!(s.log_lines.last().unwrap(), "[t] 开始测试 2 台设备...");
}

#[test]
fn buffer_size_uses_low_32_bits() {
    let mut s = state();
    s.apply_test_settings(None, None, Some((1u64 << 32) + 16));
    assert_eq!(s.upload_buf_kb, 16);
    s.apply_test_settings(None, None, Some(0));
    assert_eq!(s.upload_buf_kb, 16);
}

#[test]
fn selection_requests() {
    let mut s = state();
    s.devices = vec![dev("a", true), dev("b", false)];
    s.toggle_device(Some(1));
    assert!(s.devices[1].selected);
    s.toggle_device(Some(1));
    assert!(!s.devices[1].selected);
    s.toggle_device_from_body(r#"{"idx": 0}"#);
    assert!(!s.devices[0].selected);
    s.toggle_device(Some(9));
    s.select_all();
    assert!(s.devices.iter().all(|d| d.selected));
    s.deselect_all();
    assert!(s.devices.iter().all(|d| !d.selected));
    s.testing = true;
    s.select_all();
    s.toggle_device(Some(0));
    assert!(s.devices.iter().all(|d| !d.selected));
}

#[test]
fn settings_request() {
    let mut s = state();
    s.update_settings_from_body(
        r#"{"test_program": "/a", "scan_start": "1.1.1.1", "scan_end": "1.1.1.9", "duration": "1", "upload_buf_kb": 1024}"#,
    );
    assert_eq!(s.test_program, "/a");
    assert_eq!((s.scan_start.as_str(), s.scan_end.as_str()), ("1.1.1.1", "1.1.1.9"));
    assert_eq!(s.duration, AgingDuration::Min1);
    assert_eq!(s.upload_buf_kb, 1024);
    s.update_settings(None, None, None, None, Some(1025));
    assert_eq!(s.upload_buf_kb, 1024);
}

#[test]
fn error_messages_and_colors() {
    assert_eq!(ApiError::Busy.message(), "正在扫描或测试中");
    assert_eq!(ApiError::NoInterface.message(), "无可用网络接口");
    assert_eq!(ApiError::BadStart.message(), "无效的起始 IP 地址");
    assert_eq!(ApiError::BadEnd.message(), "无效的结束 IP 地址");
    assert_eq!(ApiError::NoProgram.message(), "请先设置产测程序路径");
    assert_eq!(ApiError::ProgramMissing.message(), "产测程序文件不存在");
    assert_eq!(ApiError::NoDeviceSelected.message(), "未选择任何设备");
    assert_eq!(state_color_css(&DeviceState::Passed), "#16a34a");
    assert_eq!(state_color_css(&DeviceState::Failed), "#dc2626");
    assert_eq!(state_color_css(&DeviceState::Error(String::new())), "#ea580c");
    assert_eq!(state_color_css(&DeviceState::Testing), "#d97706");
    assert_eq!(state_color_css(&DeviceState::Transferring { done: 0, total: 1 }), "#1a73e8");
    assert_eq!(state_color_css(&DeviceState::Extracting), "#7c3aed");
    assert_eq!(state_color_css(&DeviceState::Discovered), "#666666");
}

#[test]
fn later_interface_without_range_is_accepted() {
    // 0.0.0.0/32 has no scan range; only the chosen interface's range matters.
    let mut s = SharedState::new(vec![iface(0xc0a8_0164, 0xffff_ff00), iface(0, 0xffff_ffff)], None);
    assert_eq!((s.scan_start.as_str(), s.scan_end.as_str()), ("192.168.1.1", "192.168.1.254"));
    assert_eq!(s.interfaces.len(), 2);
    assert!(!s.try_set_interface_from_body(r#"{"idx": 1}"#));
    assert_eq!(s.selected_iface_idx, 0);
    assert_eq!(s.scan_start, "192.168.1.1");
    assert!(s.try_set_interface_from_body(r#"{"idx": 7}"#));
    assert_eq!(s.selected_iface_idx, 0);
    assert!(s.try_set_interface_from_body(r#"{"idx": 0}"#));
    assert_eq!(s.scan_end, "192.168.1.254");
}
