use fac_test::platform::{interfaces_from, select_interfaces, RawInterface};
use fac_test::state::SharedState;
use fac_test::types::{AgingDuration, DeviceInfo, DeviceState, NetworkInterface};
use fac_test::workflow::{FileLogger, Workflow};
use fac_test::web::{classify_route, parse_port, HttpMethod, Route};

#[test]
fn routes() {
    assert_eq!(classify_route(HttpMethod::Get, "/"), Route::Index);
    assert_eq!(classify_route(HttpMethod::Get, "/api/state"), Route::State);
    assert_eq!(classify_route(HttpMethod::Post, "/api/set-interface"), Route::SetInterface);
    assert_eq!(classify_route(HttpMethod::Post, "/api/scan"), Route::Scan);
    assert_eq!(classify_route(HttpMethod::Post, "/api/test"), Route::Test);
    assert_eq!(classify_route(HttpMethod::Post, "/api/toggle-device"), Route::ToggleDevice);
    assert_eq!(classify_route(HttpMethod::Post, "/api/select-all"), Route::SelectAll);
    assert_eq!(classify_route(HttpMethod::Post, "/api/deselect-all"), Route::DeselectAll);
    assert_eq!(classify_route(HttpMethod::Post, "/api/update-settings"), Route::UpdateSettings);
    assert_eq!(classify_route(HttpMethod::Post, "/api/confirm"), Route::Confirm);
    assert_eq!(classify_route(HttpMethod::Get, "/api/scan"), Route::NotFound);
    assert_eq!(classify_route(HttpMethod::Post, "/"), Route::NotFound);
    assert_eq!(classify_route(HttpMethod::Other, "/"), Route::NotFound);
}

#[test]
fn ports() {
    assert_eq!(parse_port("9090"), Some(9090));
    assert_eq!(parse_port("+80"), Some(80));
    assert_eq!(parse_port("0080"), Some(80));
    assert_eq!(parse_port("65535"), Some(65535));
    assert_eq!(parse_port("65536"), None);
    assert_eq!(parse_port(""), None);
    assert_eq!(parse_port("+"), None);
    assert_eq!(parse_port("-1"), None);
    assert_eq!(parse_port("80a"), None);
    assert_eq!(parse_port("99999999999999999999"), None);
}

fn iface(ip: u32, mask: u32) -> NetworkInterface {
    NetworkInterface { name: "eth0".to_string(), ip, netmask: mask }
}

fn device(ip: &str) -> DeviceInfo {
    DeviceInfo {
        sn: "S".to_string(),
        ip: ip.to_string(),
        mac: "m".to_string(),
        username: "root".to_string(),
        password: "p".to_string(),
        state: DeviceState::Discovered,
        selected: true,
    }
}

#[test]
fn request_fields_are_read_from_json() {
    let mut s = SharedState::new(vec![iface(0xc0a8_0105, 0xffff_ff00), iface(0x0a00_0001, 0xff00_0000)], None);
    s.set_interface_from_body(r#"{"idx": 1, "name": "x", "neg": -1}"#);
    assert_eq!(s.selected_iface_idx, 1);
    s.set_interface_from_body(r#"{"idx": -1}"#);
    assert_eq!(s.selected_iface_idx, 1);
    s.set_interface_from_body(r#"{"idx": "0"}"#);
    assert_eq!(s.selected_iface_idx, 1);
    s.set_interface_from_body("garbage");
    assert_eq!(s.selected_iface_idx, 1);
    s.set_interface_from_body(r#"{"idx": 0}"#);
    assert_eq!(s.selected_iface_idx, 0);
    s.update_settings_from_body(r#"{"test_program": "/p/a.tgz", "upload_buf_kb": 7}"#);
    assert_eq!((s.test_program.as_str(), s.upload_buf_kb), ("/p/a.tgz", 7));
    s.update_settings_from_body(r#"{"test_program": 5, "upload_buf_kb": "8"}"#);
    assert_eq!((s.test_program.as_str(), s.upload_buf_kb), ("/p/a.tgz", 7));
    s.update_settings_from_body(r#"[1]"#);
    assert_eq!((s.test_program.as_str(), s.upload_buf_kb), ("/p/a.tgz", 7));
}

#[test]
fn program_file_names() {
    let d = device("10.0.0.2");
    let name = |p: &str| Workflow::for_device(&d, p, AgingDuration::Min1).file_name;
    assert_eq!(name("/opt/a/b.tgz"), "b.tgz");
    assert_eq!(name("b.tgz"), "b.tgz");
    assert_eq!(name("/opt/a/"), "a");
    assert_eq!(name("/opt/.."), "");
    assert_eq!(name(""), "");
}

#[test]
fn clock_texts_have_their_shape() {
    let mut s = SharedState::new(vec![], None);
    s.add_log("x");
    let b = s.log_lines[0].as_bytes();
    assert_eq!(b.len(), "[12:34:56] x".len());
    assert_eq!((b[0], b[3], b[6], b[9]), (b'[', b':', b':', b']'));
    let e = FileLogger::new("l.log").entry("m");
    let b = e.as_bytes();
    assert_eq!(b.len(), "[2024-01-02 03:04:05] m\n".len());
    assert_eq!((b[0], b[5], b[8], b[11], b[14], b[17], b[20]), (b'[', b'-', b'-', b' ', b':', b':', b']'));
}

#[test]
fn interface_selection_skips_loopback_and_ipv6() {
    let raw = vec![
        RawInterface { name: "lo".to_string(), v4: Some((0x7f00_0001, 0xff00_0000)) },
        RawInterface { name: "eth0".to_string(), v4: Some((0xc0a8_0002, 0xffff_ff00)) },
        RawInterface { name: "eth0".to_string(), v4: None },
        RawInterface { name: "wlan0".to_string(), v4: Some((0x0a00_0005, 0xff00_0000)) },
    ];
    let r = select_interfaces(raw);
    let names: Vec<&str> = r.iter().map(|i| i.name.as_str()).collect();
    assert_eq!(names, vec!["eth0", "wlan0"]);
    assert_eq!((r[0].ip, r[0].netmask), (0xc0a8_0002, 0xffff_ff00));
}

#[test]
fn interface_listing() {
    assert!(interfaces_from(None).is_empty());
    let raw = vec![
        RawInterface { name: "lo".to_string(), v4: Some((0x7f00_0001, 0xff00_0000)) },
        RawInterface { name: "eth1".to_string(), v4: Some((0xc0a8_0a02, 0xffff_0000)) },
    ];
    let r = interfaces_from(Some(raw));
    assert_eq!(r.len(), 1);
    assert_eq!((r[0].name.as_str(), r[0].ip, r[0].netmask), ("eth1", 0xc0a8_0a02, 0xffff_0000));
}
