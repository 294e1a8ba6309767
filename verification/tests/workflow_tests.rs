use fac_test::types::{AgingDuration, DeviceInfo, DeviceState};
use fac_test::workflow::{Action, Event, FileLogger, Note, Phase, Step, Workflow};

fn wf() -> Workflow {
    Workflow::new("10.0.0.7".to_string(), "pkg.tgz".to_string(), 5)
}

fn logs(step: &Step) -> Vec<String> {
    step.notes
        .iter()
        .filter_map(|n| match n {
            Note::Log(t) => Some(t.clone()),
            _ => None,
        })
        .collect()
}

fn last_state(step: &Step) -> Option<&DeviceState> {
    step.notes.iter().rev().find_map(|n| match n {
        Note::State(s) => Some(s),
        _ => None,
    })
}

fn is_connect(a: &Action) -> bool {
    matches!(a, Action::Connect { .. })
}

#[test]
fn happy_path_passes() {
    let mut w = wf();
    let s = w.step(Event::Start, 0);
    assert!(is_connect(&s.action));
    let s = w.step(Event::Connected, 10);
    assert_eq!(logs(&s), vec!["10.0.0.7: SSH 连接成功"]);
    assert!(matches!(&s.action, Action::Exec(c) if c == "mkdir -p /data"));
    let s = w.step(Event::ExecOk(String::new()), 20);
    assert!(matches!(last_state(&s), Some(DeviceState::Transferring { done: 0, total: 1 })));
    assert_eq!(logs(&s), vec!["10.0.0.7: 开始上传文件 (第1次)"]);
    let s = w.step(Event::Connected, 30);
    assert!(matches!(&s.action, Action::Upload(p) if p == "/data/pkg.tgz"));
    let s = w.step(Event::Uploaded, 40);
    assert!(matches!(last_state(&s), Some(DeviceState::Extracting)));
    let s = w.step(Event::Connected, 50);
    assert!(matches!(&s.action, Action::Exec(c) if c.contains("tar -xaf pkg.tgz")));
    let s = w.step(Event::ExecOk("BG_OK\n".to_string()), 60);
    assert!(matches!(s.action, Action::Sleep(3000)));
    let s = w.step(Event::Slept, 3060);
    assert!(is_connect(&s.action));
    let s = w.step(Event::Connected, 3070);
    assert!(matches!(&s.action, Action::Exec(c) if c == "cat /tmp/tar_done 2>/dev/null"));
    // Not done yet: poll again.
    let s = w.step(Event::ExecOk("\n".to_string()), 3080);
    assert!(matches!(s.action, Action::Sleep(3000)));
    let _ = w.step(Event::Slept, 6080);
    let _ = w.step(Event::Connected, 6090);
    let s = w.step(Event::ExecOk("0\n".to_string()), 6100);
    assert_eq!(logs(&s), vec!["10.0.0.7: 解压完成"]);
    let s = w.step(Event::Connected, 6110);
    assert!(matches!(&s.action, Action::Exec(c) if c.starts_with("source /etc/profile 2>/dev/null; test -x")));
    let s = w.step(Event::ExecOk("OK\n".to_string()), 6120);
    assert!(matches!(last_state(&s), Some(DeviceState::Testing)));
    assert_eq!(logs(&s), vec!["10.0.0.7: 启动老化测试 (5分钟)..."]);
    let s = w.step(Event::Connected, 6130);
    assert!(matches!(&s.action, Action::Exec(c) if c.contains("--run_time 5 ")));
    let s = w.step(Event::ExecOk("BG_OK".to_string()), 6140);
    assert!(matches!(s.action, Action::Sleep(2000)));
    let _ = w.step(Event::Slept, 8140);
    let s = w.step(Event::Connected, 8150);
    assert!(matches!(&s.action, Action::Exec(c) if c.starts_with("pgrep")));
    let s = w.step(Event::ExecOk("4242\n".to_string()), 8160);
    assert!(matches!(&s.notes[0], Note::FileLog(t) if t == "测试进程 PID: 4242"));
    assert!(matches!(s.action, Action::Sleep(30000)));
    let s = w.step(Event::Slept, 38160);
    assert!(matches!(s.action, Action::Connect { io_timeout_ms: 30000 }));
    let _ = w.step(Event::Connected, 38170);
    let s = w.step(Event::ExecOk("0\n".to_string()), 38180);
    assert_eq!(logs(&s), vec!["10.0.0.7: 测试完成, 检查结果..."]);
    let _ = w.step(Event::Connected, 38190);
    let s = w.step(Event::ExecOk("QA_AGING_PASS\n".to_string()), 38200);
    assert!(matches!(last_state(&s), Some(DeviceState::Passed)));
    assert!(matches!(s.action, Action::Finish));
    assert_eq!(w.phase, Phase::Done);
    let s = w.step(Event::Slept, 40000);
    assert!(s.notes.is_empty() && matches!(s.action, Action::Finish));
}

#[test]
fn first_connection_failure_is_reported_everywhere() {
    let mut w = wf();
    let _ = w.step(Event::Start, 0);
    let s = w.step(Event::ConnectFailed("refused".to_string()), 1);
    assert!(matches!(&s.notes[0], Note::FileLog(t) if t == "SSH 连接失败: refused"));
    assert_eq!(logs(&s), vec!["10.0.0.7: SSH 连接失败: refused"]);
    assert!(matches!(last_state(&s), Some(DeviceState::Error(e)) if e == "SSH 连接失败: refused"));
    assert!(matches!(s.action, Action::Finish));
}

#[test]
fn upload_gives_up_after_seven_attempts() {
    let mut w = wf();
    let _ = w.step(Event::Start, 0);
    let _ = w.step(Event::Connected, 0);
    let _ = w.step(Event::ExecOk(String::new()), 0);
    let mut uploads = 0;
    for a in 1..=7u64 {
        let _ = w.step(Event::Connected, 0);
        uploads += 1;
        let s = w.step(Event::UploadFailed("io".to_string()), 0);
        if a < 7 {
            assert!(matches!(s.action, Action::Sleep(ms) if ms == 5000 * a));
            let s = w.step(Event::Slept, 0);
            assert_eq!(logs(&s), vec![format!("10.0.0.7: 开始上传文件 (第{}次)", a + 1)]);
        } else {
            assert!(matches!(last_state(&s), Some(DeviceState::Error(e)) if e == "文件上传失败, 已重试7次"));
            assert!(matches!(s.action, Action::Finish));
        }
    }
    assert_eq!(uploads, 7);
}

#[test]
fn upload_reconnect_failure_retries() {
    let mut w = wf();
    let _ = w.step(Event::Start, 0);
    let _ = w.step(Event::Connected, 0);
    let _ = w.step(Event::ExecOk(String::new()), 0);
    let s = w.step(Event::ConnectFailed("timeout".to_string()), 0);
    assert!(matches!(&s.notes[0], Note::FileLog(t) if t == "上传重连失败: timeout"));
    assert!(matches!(s.action, Action::Sleep(5000)));
}

fn to_extract_poll(w: &mut Workflow, t: u64) {
    let _ = w.step(Event::Start, 0);
    let _ = w.step(Event::Connected, 0);
    let _ = w.step(Event::ExecOk(String::new()), 0);
    let _ = w.step(Event::Connected, 0);
    let _ = w.step(Event::Uploaded, 0);
    let _ = w.step(Event::Connected, 0);
    let _ = w.step(Event::ExecOk("BG_OK".to_string()), t);
}

#[test]
fn extraction_times_out() {
    let mut w = wf();
    to_extract_poll(&mut w, 1000);
    let s = w.step(Event::Slept, 1000 + 600_001);
    assert!(matches!(last_state(&s), Some(DeviceState::Error(e)) if e == "解压超时 (超过10分钟)"));
}

#[test]
fn extraction_failure_reads_tar_log() {
    let mut w = wf();
    to_extract_poll(&mut w, 0);
    let _ = w.step(Event::Slept, 3000);
    let _ = w.step(Event::Connected, 3000);
    let s = w.step(Event::ExecOk("2\n".to_string()), 3000);
    assert!(matches!(&s.action, Action::Exec(c) if c == "tail -20 /tmp/tar.log 2>/dev/null"));
    let s = w.step(Event::ExecOk("corrupt".to_string()), 3000);
    assert!(matches!(&s.notes[0], Note::FileLog(t) if t == "解压失败 (exit=2): corrupt"));
    assert_eq!(logs(&s), vec!["10.0.0.7: 解压失败 (exit=2)"]);
    assert!(matches!(last_state(&s), Some(DeviceState::Error(e)) if e == "文件解压失败"));
}

#[test]
fn background_start_without_marker_fails() {
    let mut w = wf();
    let _ = w.step(Event::Start, 0);
    let _ = w.step(Event::Connected, 0);
    let _ = w.step(Event::ExecOk(String::new()), 0);
    let _ = w.step(Event::Connected, 0);
    let _ = w.step(Event::Uploaded, 0);
    let _ = w.step(Event::Connected, 0);
    let s = w.step(Event::ExecOk("nope".to_string()), 0);
    assert!(matches!(last_state(&s), Some(DeviceState::Error(e)) if e == "启动后台解压失败"));
}

fn to_test_poll(w: &mut Workflow) {
    to_extract_poll(w, 0);
    let _ = w.step(Event::Slept, 3000);
    let _ = w.step(Event::Connected, 3000);
    let _ = w.step(Event::ExecOk("0".to_string()), 3000);
    let _ = w.step(Event::Connected, 3000);
    let _ = w.step(Event::ExecOk("OK".to_string()), 3000);
    let _ = w.step(Event::Connected, 3000);
    let _ = w.step(Event::ExecOk("BG_OK".to_string()), 3000);
    let _ = w.step(Event::Slept, 5000);
}

#[test]
fn unreachable_check_warns_and_keeps_polling() {
    let mut w = wf();
    to_test_poll(&mut w);
    let s = w.step(Event::ConnectFailed("down".to_string()), 5000);
    assert_eq!(logs(&s), vec!["10.0.0.7: 测试进程已提交, 无法确认启动状态"]);
    assert!(matches!(s.action, Action::Connect { io_timeout_ms: 0 }));
    let s = w.step(Event::ConnectFailed("down".to_string()), 5000);
    assert_eq!(logs(&s), vec!["10.0.0.7: 警告: 未检测到测试进程"]);
    assert!(matches!(s.action, Action::Sleep(30000)));
}

#[test]
fn test_times_out_after_length_plus_fifteen_minutes() {
    let mut w = wf();
    to_test_poll(&mut w);
    let _ = w.step(Event::Connected, 5000);
    let _ = w.step(Event::ExecOk(String::new()), 5000);
    let s = w.step(Event::Slept, 5000 + 20 * 60_000 + 1);
    assert!(matches!(last_state(&s), Some(DeviceState::Error(e)) if e == "测试超时 (已等待20分钟, 预期5分钟)"));
}

#[test]
fn failed_and_unmarked_results() {
    let mut w = wf();
    to_test_poll(&mut w);
    let _ = w.step(Event::Connected, 5000);
    let _ = w.step(Event::ExecOk(String::new()), 5000);
    let _ = w.step(Event::Slept, 35000);
    let _ = w.step(Event::Connected, 35000);
    let _ = w.step(Event::ExecOk("1".to_string()), 35000);
    let _ = w.step(Event::Connected, 35000);
    let s = w.step(Event::ExecOk("QA_AGING_FAILED".to_string()), 35000);
    assert!(matches!(last_state(&s), Some(DeviceState::Failed)));

    let mut w = wf();
    to_test_poll(&mut w);
    let _ = w.step(Event::Connected, 5000);
    let _ = w.step(Event::ExecOk(String::new()), 5000);
    let _ = w.step(Event::Slept, 35000);
    let _ = w.step(Event::Connected, 35000);
    let _ = w.step(Event::ExecOk("0".to_string()), 35000);
    let _ = w.step(Event::Connected, 35000);
    let s = w.step(Event::ExecOk(String::new()), 35000);
    assert!(matches!(&s.action, Action::Exec(c) if c == "tail -30 /data/aging_output.log 2>/dev/null"));
    let s = w.step(Event::ExecFailed("x".to_string()), 35000);
    assert!(matches!(&s.notes[0], Note::FileLog(t) if t == "日志尾部:\n"));
    assert!(matches!(last_state(&s), Some(DeviceState::Error(e)) if e == "未检测到 QA_AGING_PASS/FAILED/FAIL 标识"));
}

#[test]
fn workflow_for_device_uses_file_name() {
    let d = DeviceInfo {
        sn: "S".to_string(),
        ip: "10.0.0.9".to_string(),
        mac: "m".to_string(),
        username: "root".to_string(),
        password: "p".to_string(),
        state: DeviceState::Discovered,
        selected: true,
    };
    let w = Workflow::for_device(&d, "/opt/programs/aging_v3.tgz", AgingDuration::Hour1);
    assert_eq!(w.file_name, "aging_v3.tgz");
    assert_eq!(w.minutes, 60);
    assert_eq!(w.ip, "10.0.0.9");
}

#[test]
fn file_log_entries() {
    let f = FileLogger::new("logs/x.log");
    assert_eq!(f.path, "logs/x.log");
    assert_eq!(f.entry_at("2024-01-02 03:04:05", "hi"), "[2024-01-02 03:04:05] hi\n");
    let e = f.entry("msg");
    assert!(e.starts_with('[') && e.ends_with("] msg\n"));
    assert_eq!(e.len(), "[2024-01-02 03:04:05] msg\n".len());
}
