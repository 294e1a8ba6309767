use fac_test::types::{upload_percent, AgingDuration, DeviceState, NetworkInterface};

#[test]
fn labels() {
    assert_eq!(DeviceState::Discovered.label(), "已发现");
    assert_eq!(DeviceState::Extracting.label(), "解压中");
    assert_eq!(DeviceState::Testing.label(), "测试中");
    assert_eq!(DeviceState::Passed.label(), "通过");
    assert_eq!(DeviceState::Failed.label(), "失败");
    assert_eq!(DeviceState::Error("超时".to_string()).label(), "错误: 超时");
    assert_eq!(DeviceState::Transferring { done: 1, total: 4 }.label(), "传输中 25%");
    assert_eq!(DeviceState::Transferring { done: 0, total: 1 }.label(), "传输中 0%");
}

#[test]
fn percent_rounds_half_to_even() {
    assert_eq!(upload_percent(1, 8), 12);
    assert_eq!(upload_percent(3, 8), 38);
    assert_eq!(upload_percent(2, 3), 67);
    assert_eq!(upload_percent(5, 0), 100);
    assert_eq!(upload_percent(10, 10), 100);
}

#[test]
fn finished_states() {
    assert!(DeviceState::Passed.is_finished());
    assert!(DeviceState::Failed.is_finished());
    assert!(DeviceState::Error(String::new()).is_finished());
    assert!(!DeviceState::Testing.is_finished());
    assert!(!DeviceState::Discovered.is_finished());
}

#[test]
fn durations() {
    let minutes: Vec<u32> = AgingDuration::all().iter().map(|d| d.minutes()).collect();
    assert_eq!(minutes, vec![1, 5, 10, 20, 30, 60, 180, 360, 1440]);
    assert_eq!(AgingDuration::Hour3.display_text(), "3 小时");
    assert_eq!(AgingDuration::Min5.display_text(), "5 分钟");
    assert_eq!(AgingDuration::Hour24.to_value(), "1440");
}

#[test]
fn duration_values_read_back() {
    for d in AgingDuration::all() {
        assert_eq!(AgingDuration::from_value(&d.to_value()), Some(d));
    }
    assert_eq!(AgingDuration::from_value("7"), None);
    assert_eq!(AgingDuration::from_value("05"), None);
    assert_eq!(AgingDuration::from_value(""), None);
}

#[test]
fn interface_display() {
    let i = NetworkInterface { name: "eth0".to_string(), ip: 0xc0a8_0102, netmask: 0xffff_ff00 };
    assert_eq!(i.display_text(), "eth0 (192.168.1.2)");
}
