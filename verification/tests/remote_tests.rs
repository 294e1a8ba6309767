use fac_test::remote::{
    classify_marker, combine_exec_output, extract_command, log_file_name, parse_mac, parse_sn,
    remote_path, started_in_background, test_command, trimmed, with_profile, Verdict,
};

#[test]
fn sn_prefers_device_sn() {
    let out = "chip sn: CHIP123\ndevice sn: DEV456\nother: x\n";
    assert_eq!(parse_sn(out), Some("DEV456".to_string()));
}

#[test]
fn sn_falls_back_to_chip_sn() {
    let out = "board: se7\r\n  chip sn:   CHIP789  \r\ndevice sn:\r\n";
    assert_eq!(parse_sn(out), Some("CHIP789".to_string()));
}

#[test]
fn sn_takes_last_nonempty_value() {
    let out = "device sn: FIRST\ndevice sn: SECOND\ndevice sn:   \n";
    assert_eq!(parse_sn(out), Some("SECOND".to_string()));
}

#[test]
fn sn_missing_gives_none() {
    assert_eq!(parse_sn(""), None);
    assert_eq!(parse_sn("no serial here\n"), None);
    assert_eq!(parse_sn("device sn:\nchip sn: \t\n"), None);
    assert_eq!(parse_sn("x device sn: A"), None);
}

#[test]
fn sn_handles_unicode_whitespace() {
    assert_eq!(parse_sn("\u{3000}device sn:\u{a0}SN1\u{2003}"), Some("SN1".to_string()));
}

#[test]
fn mac_is_trimmed_output() {
    assert_eq!(parse_mac("aa:bb:cc:dd:ee:ff\n"), Some("aa:bb:cc:dd:ee:ff".to_string()));
    assert_eq!(parse_mac("  \n"), None);
    assert_eq!(parse_mac(""), None);
}

#[test]
fn exec_output_appends_stderr_on_failure() {
    assert_eq!(combine_exec_output("out".to_string(), "bad", Some(2)), "out\n[stderr exit=2] bad");
    assert_eq!(combine_exec_output("out".to_string(), "bad", None), "out\n[stderr exit=-1] bad");
    assert_eq!(combine_exec_output("out".to_string(), "warn", Some(0)), "out");
    assert_eq!(combine_exec_output("out".to_string(), "", Some(1)), "out");
    assert_eq!(
        combine_exec_output(String::new(), "e", Some(i32::MIN)),
        "\n[stderr exit=-2147483648] e"
    );
}

#[test]
fn commands_are_built_as_expected() {
    assert_eq!(with_profile("ls"), "source /etc/profile 2>/dev/null; ls");
    assert_eq!(remote_path("a.tgz"), "/data/a.tgz");
    assert_eq!(
        extract_command("a.tgz"),
        "rm -f /tmp/tar_done /tmp/tar.log; nohup sh -c '. /etc/profile 2>/dev/null; cd /data && tar -xaf a.tgz > /tmp/tar.log 2>&1; echo $? > /tmp/tar_done' </dev/null >/dev/null 2>&1 & echo BG_OK"
    );
    assert_eq!(
        test_command(5),
        "rm -f /data/aging_done; nohup sh -c '. /etc/profile 2>/dev/null; cd /data/bm1684x_soc_aging && ./bm1684x_soc_aging --restart_all --run_time 5 >/data/aging_output.log 2>&1; echo $? > /data/aging_done' </dev/null >/dev/null 2>&1 & echo BG_OK"
    );
    assert_eq!(log_file_name("10.0.0.2", "SN9"), "10.0.0.2_SN9.log");
}

#[test]
fn marker_verdicts() {
    assert_eq!(classify_marker("QA_AGING_PASS\n"), Verdict::Pass);
    assert_eq!(classify_marker("QA_AGING_FAILED"), Verdict::Fail);
    assert_eq!(classify_marker(" QA_AGING_FAIL "), Verdict::Fail);
    assert_eq!(classify_marker(""), Verdict::NoMarker);
    assert_eq!(classify_marker("QA_AGING"), Verdict::NoMarker);
}

#[test]
fn background_start_and_trim() {
    assert!(started_in_background("pid 12\nBG_OK\n"));
    assert!(!started_in_background("BG_O"));
    assert_eq!(trimmed("  0\n"), "0");
}

#[test]
fn log_files_differ_per_address() {
    let a = log_file_name("10.0.0.2", "SN1");
    let b = log_file_name("10.0.0.20", "SN1");
    let c = log_file_name("10.0.0.2", "0_SN1");
    assert_ne!(a, b);
    assert_ne!(b, c);
    assert_eq!(c, "10.0.0.2_0_SN1.log");
}
