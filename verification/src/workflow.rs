//! The per-device burn-in workflow as a state machine: connect, make the data
//! directory, upload the test program (with retries), unpack it in the
//! background and poll until it is unpacked, check the test binary, start the
//! burn-in in the background, poll until it ends, and read the verdict.
//!
//! The caller performs each action (SSH connections, remote commands, the
//! upload, sleeping) and hands the outcome back as the next event, with the
//! milliseconds elapsed since the workflow began.
use vstd::prelude::*;
use crate::remote::{
    Verdict, classify_marker, extract_command, extract_command_spec, profile_prefix,
    remote_path, remote_path_spec, started_in_background, test_command, test_command_spec,
    trimmed, verdict_of, with_profile,
};
use crate::text::{concat2, contains_seq, dec_text, owned, push_decimal, push_str, trim};
use crate::platform::{clock_datetime, file_name_of, is_datetime_text, path_file_name};
use crate::types::{AgingDuration, DeviceInfo, DeviceState, DeviceStateView};

verus! {

/// How many times the upload is tried before the workflow gives up.
pub const MAX_UPLOAD_RETRIES: u32 = 7;

/// How long unpacking may take, in milliseconds.
pub const EXTRACT_TIMEOUT_MS: u64 = 600_000;

/// The pause between two checks of the unpacking, in milliseconds.
pub const EXTRACT_POLL_MS: u64 = 3_000;

/// The pause between starting the test and checking for its process, in milliseconds.
pub const SETTLE_MS: u64 = 2_000;

/// The pause between two checks of the running test, in milliseconds.
pub const TEST_POLL_MS: u64 = 30_000;

/// The I/O timeout of the session that checks the running test, in milliseconds.
pub const POLL_SESSION_TIMEOUT_MS: u32 = 30_000;

/// Where the workflow stands; the data is an upload attempt number or the
/// time (in milliseconds since the start) at which a polling loop began.
#[derive(Clone, Copy, PartialEq, Eq, Structural, Debug)]
pub enum Phase {
    Init,
    MainConnect,
    MakeDir,
    UploadConnect(u32),
    Uploading(u32),
    UploadBackoff(u32),
    ExtractConnect,
    ExtractStart,
    ExtractWait(u64),
    ExtractPollConnect(u64),
    ExtractPoll(u64),
    ExtractFailLog,
    VerifyConnect,
    VerifyExec,
    StartConnect,
    StartExec,
    SettleWait,
    CheckConnect,
    CheckReconnect,
    CheckExec,
    TestWait(u64),
    TestPollConnect(u64),
    TestPoll(u64),
    ResultConnect,
    ResultExec,
    ResultTail,
    Done,
}

/// What the caller is to do next.
pub enum Action {
    /// Open a new SSH session to the device with its credentials; a nonzero
    /// `io_timeout_ms` is set on the session once it is open.
    Connect { io_timeout_ms: u32 },
    /// Run a command on the session opened last.
    Exec(String),
    /// Upload the test program to this remote path over SFTP on the session opened last.
    Upload(String),
    /// Wait this many milliseconds.
    Sleep(u64),
    /// The workflow has ended.
    Finish,
}

/// What came of the last action.
pub enum Event {
    /// The workflow is to begin.
    Start,
    Connected,
    ConnectFailed(String),
    ExecOk(String),
    ExecFailed(String),
    Uploaded,
    UploadFailed(String),
    Slept,
}

/// A report that goes with a step.
pub enum Note {
    /// A line for the user's log.
    Log(String),
    /// A line for the device's log file.
    FileLog(String),
    /// The device's new state.
    State(DeviceState),
}

/// The reports of one step, in order, and the next action.
pub struct Step {
    pub notes: Vec<Note>,
    pub action: Action,
}

#[verifier::ext_equal]
pub enum ActionView {
    Connect { io_timeout_ms: u32 },
    Exec(Seq<char>),
    Upload(Seq<char>),
    Sleep(u64),
    Finish,
}

#[verifier::ext_equal]
pub enum EventView {
    Start,
    Connected,
    ConnectFailed(Seq<char>),
    ExecOk(Seq<char>),
    ExecFailed(Seq<char>),
    Uploaded,
    UploadFailed(Seq<char>),
    Slept,
}

#[verifier::ext_equal]
pub enum NoteView {
    Log(Seq<char>),
    FileLog(Seq<char>),
    State(DeviceStateView),
}

#[verifier::ext_equal]
pub struct StepView {
    pub notes: Seq<NoteView>,
    pub action: ActionView,
}

impl View for Action {
    type V = ActionView;

    open spec fn view(&self) -> ActionView {
        match self {
            Action::Connect { io_timeout_ms } => ActionView::Connect { io_timeout_ms: *io_timeout_ms },
            Action::Exec(c) => ActionView::Exec(c@),
            Action::Upload(p) => ActionView::Upload(p@),
            Action::Sleep(ms) => ActionView::Sleep(*ms),
            Action::Finish => ActionView::Finish,
        }
    }
}

impl View for Event {
    type V = EventView;

    open spec fn view(&self) -> EventView {
        match self {
            Event::Start => EventView::Start,
            Event::Connected => EventView::Connected,
            Event::ConnectFailed(e) => EventView::ConnectFailed(e@),
            Event::ExecOk(o) => EventView::ExecOk(o@),
            Event::ExecFailed(e) => EventView::ExecFailed(e@),
            Event::Uploaded => EventView::Uploaded,
            Event::UploadFailed(e) => EventView::UploadFailed(e@),
            Event::Slept => EventView::Slept,
        }
    }
}

impl View for Note {
    type V = NoteView;

    open spec fn view(&self) -> NoteView {
        match self {
            Note::Log(t) => NoteView::Log(t@),
            Note::FileLog(t) => NoteView::FileLog(t@),
            Note::State(s) => NoteView::State(s@),
        }
    }
}

impl View for Step {
    type V = StepView;

    open spec fn view(&self) -> StepView {
        StepView { notes: self.notes@.map_values(|n: Note| n@), action: self.action@ }
    }
}

/// The workflow of one device.
pub struct Workflow {
    /// The device's address, which prefixes its lines in the user's log.
    pub ip: String,
    /// The name of the test program's archive.
    pub file_name: String,
    /// The length of the burn-in test in minutes.
    pub minutes: u32,
    pub phase: Phase,
    /// The exit status that the unpacking reported, when it failed.
    pub exit_code: String,
}

#[verifier::ext_equal]
pub struct WorkflowView {
    pub ip: Seq<char>,
    pub file_name: Seq<char>,
    pub minutes: u32,
    pub phase: Phase,
    pub exit_code: Seq<char>,
}

impl View for Workflow {
    type V = WorkflowView;

    open spec fn view(&self) -> WorkflowView {
        WorkflowView {
            ip: self.ip@,
            file_name: self.file_name@,
            minutes: self.minutes,
            phase: self.phase,
            exit_code: self.exit_code@,
        }
    }
}

// ---------------------------------------------------------------------------
// The transition relation
// ---------------------------------------------------------------------------

/// A line of the user's log about the device at `ip`.
pub open spec fn device_line(ip: Seq<char>, msg: Seq<char>) -> Seq<char> {
    ip + ": "@ + msg
}

/// Time elapsed since `start`.
pub open spec fn elapsed(now: u64, start: u64) -> int {
    if now >= start {
        now - start
    } else {
        0
    }
}

/// How long the burn-in test may take in all, in milliseconds: its length and
/// fifteen more minutes.
pub open spec fn test_deadline_ms(minutes: u32) -> int {
    (minutes + 15) * 60_000
}

/// The command that reads the unpacking's exit status.
pub open spec fn tar_done_query() -> Seq<char> {
    "cat /tmp/tar_done 2>/dev/null"@
}

/// The command that reads the end of tar's log.
pub open spec fn tar_log_query() -> Seq<char> {
    "tail -20 /tmp/tar.log 2>/dev/null"@
}

/// The command that checks that the test binary is there and executable.
pub open spec fn verify_query() -> Seq<char> {
    profile_prefix() + "test -x /data/bm1684x_soc_aging/bm1684x_soc_aging && echo OK || echo MISSING"@
}

/// The command that looks for the running test process.
pub open spec fn pgrep_query() -> Seq<char> {
    "pgrep -f 'bm1684x_soc_aging --restart_all'"@
}

/// The command that reads the test's exit status.
pub open spec fn aging_done_query() -> Seq<char> {
    "cat /data/aging_done 2>/dev/null"@
}

/// The command that finds the last verdict marker in the test's output.
pub open spec fn marker_query() -> Seq<char> {
    "grep -o 'QA_AGING_PASS\\|QA_AGING_FAILED\\|QA_AGING_FAIL' /data/aging_output.log | tail -1"@
}

/// The command that reads the end of the test's output.
pub open spec fn output_tail_query() -> Seq<char> {
    "tail -30 /data/aging_output.log 2>/dev/null"@
}

/// The workflow with a new phase.
pub open spec fn with_phase(w: WorkflowView, p: Phase) -> WorkflowView {
    WorkflowView { phase: p, ..w }
}

/// A step to phase `p`.
pub open spec fn go(w: WorkflowView, p: Phase, notes: Seq<NoteView>, action: ActionView) -> (
    WorkflowView,
    StepView,
) {
    (with_phase(w, p), StepView { notes, action })
}

/// A new SSH session without an I/O timeout.
pub open spec fn connect() -> ActionView {
    ActionView::Connect { io_timeout_ms: 0 }
}

/// The reports of a failure with `msg`: the file log, the user's log when
/// `to_ui`, and the error state.
pub open spec fn error_notes(ip: Seq<char>, msg: Seq<char>, to_ui: bool) -> Seq<NoteView> {
    if to_ui {
        seq![
            NoteView::FileLog(msg),
            NoteView::Log(device_line(ip, msg)),
            NoteView::State(DeviceStateView::Error(msg)),
        ]
    } else {
        seq![NoteView::FileLog(msg), NoteView::State(DeviceStateView::Error(msg))]
    }
}

/// The workflow stops with the error `msg`.
pub open spec fn fail(w: WorkflowView, msg: Seq<char>, to_ui: bool) -> (WorkflowView, StepView) {
    go(w, Phase::Done, error_notes(w.ip, msg, to_ui), ActionView::Finish)
}

/// The reports that open upload attempt `a`.
pub open spec fn attempt_notes(ip: Seq<char>, a: u32) -> Seq<NoteView> {
    seq![
        NoteView::Log(device_line(ip, "开始上传文件 (第"@ + dec_text(a as nat) + "次)"@)),
        NoteView::FileLog("开始上传文件 (第"@ + dec_text(a as nat) + "次尝试)"@),
    ]
}

/// After a failed upload attempt `a`: wait `5 * a` seconds and try again, or
/// give up after the last attempt.
pub open spec fn after_failed_attempt(w: WorkflowView, a: u32, notes: Seq<NoteView>) -> (
    WorkflowView,
    StepView,
) {
    if a < MAX_UPLOAD_RETRIES {
        go(w, Phase::UploadBackoff(a), notes, ActionView::Sleep((5000 * a) as u64))
    } else {
        let msg = "文件上传失败, 已重试7次"@;
        go(w, Phase::Done, notes + error_notes(w.ip, msg, false), ActionView::Finish)
    }
}

/// The reports and first action of the unpacking stage.
pub open spec fn begin_extract(w: WorkflowView, notes: Seq<NoteView>) -> (WorkflowView, StepView) {
    go(
        w,
        Phase::ExtractConnect,
        notes + seq![
            NoteView::State(DeviceStateView::Extracting),
            NoteView::Log(device_line(w.ip, "开始解压文件..."@)),
            NoteView::FileLog("开始解压文件"@),
        ],
        connect(),
    )
}

/// Start polling the running test at time `now`.
pub open spec fn begin_test_poll(w: WorkflowView, notes: Seq<NoteView>, now: u64) -> (
    WorkflowView,
    StepView,
) {
    go(w, Phase::TestWait(now), notes, ActionView::Sleep(TEST_POLL_MS))
}

/// The reports when the test process could not be seen.
pub open spec fn no_process_notes(ip: Seq<char>) -> Seq<NoteView> {
    seq![
        NoteView::FileLog("警告: 未检测到测试进程, 可能启动延迟"@),
        NoteView::Log(device_line(ip, "警告: 未检测到测试进程"@)),
    ]
}

/// One step of the workflow `w` on `event` at `now` milliseconds: the next
/// workflow, the reports, and the next action.
pub open spec fn transition(w: WorkflowView, event: EventView, now: u64) -> (WorkflowView, StepView) {
    let ip = w.ip;
    match w.phase {
        Phase::Init => go(w, Phase::MainConnect, seq![], connect()),
        Phase::MainConnect => match event {
            EventView::Connected => go(
                w,
                Phase::MakeDir,
                seq![
                    NoteView::Log(device_line(ip, "SSH 连接成功"@)),
                    NoteView::FileLog("SSH 连接成功"@),
                ],
                ActionView::Exec("mkdir -p /data"@),
            ),
            EventView::ConnectFailed(e) => fail(w, "SSH 连接失败: "@ + e, true),
            _ => (w, StepView { notes: seq![], action: ActionView::Finish }),
        },
        Phase::MakeDir => match event {
            EventView::ExecOk(_) => go(
                w,
                Phase::UploadConnect(1),
                seq![NoteView::State(DeviceStateView::Transferring { done: 0, total: 1 })]
                    + attempt_notes(ip, 1),
                connect(),
            ),
            EventView::ExecFailed(e) => fail(w, "创建 /data 目录失败: "@ + e, false),
            _ => (w, StepView { notes: seq![], action: ActionView::Finish }),
        },
        Phase::UploadConnect(a) => match event {
            EventView::Connected => go(
                w,
                Phase::Uploading(a),
                seq![],
                ActionView::Upload(remote_path_spec(w.file_name)),
            ),
            EventView::ConnectFailed(e) => after_failed_attempt(
                w,
                a,
                seq![NoteView::FileLog("上传重连失败: "@ + e)],
            ),
            _ => (w, StepView { notes: seq![], action: ActionView::Finish }),
        },
        Phase::Uploading(a) => match event {
            EventView::Uploaded => begin_extract(
                w,
                seq![
                    NoteView::Log(device_line(ip, "文件上传完成"@)),
                    NoteView::FileLog("文件上传完成"@),
                ],
            ),
            EventView::UploadFailed(e) => after_failed_attempt(
                w,
                a,
                seq![
                    NoteView::FileLog("上传失败: "@ + e),
                    NoteView::Log(device_line(ip, "上传失败: "@ + e)),
                ],
            ),
            _ => (w, StepView { notes: seq![], action: ActionView::Finish }),
        },
        Phase::UploadBackoff(a) => go(
            w,
            Phase::UploadConnect((a + 1) as u32),
            attempt_notes(ip, (a + 1) as u32),
            connect(),
        ),
        Phase::ExtractConnect => match event {
            EventView::Connected => go(
                w,
                Phase::ExtractStart,
                seq![],
                ActionView::Exec(extract_command_spec(w.file_name)),
            ),
            EventView::ConnectFailed(e) => fail(w, "解压阶段 SSH 连接失败: "@ + e, false),
            _ => (w, StepView { notes: seq![], action: ActionView::Finish }),
        },
        Phase::ExtractStart => match event {
            EventView::ExecOk(out) => if contains_seq(out, "BG_OK"@) {
                go(w, Phase::ExtractWait(now), seq![], ActionView::Sleep(EXTRACT_POLL_MS))
            } else {
                fail(w, "启动后台解压失败"@, false)
            },
            EventView::ExecFailed(e) => fail(w, "启动解压命令失败: "@ + e, false),
            _ => (w, StepView { notes: seq![], action: ActionView::Finish }),
        },
        Phase::ExtractWait(start) => if elapsed(now, start) > EXTRACT_TIMEOUT_MS {
            fail(w, "解压超时 (超过10分钟)"@, false)
        } else {
            go(w, Phase::ExtractPollConnect(start), seq![], connect())
        },
        Phase::ExtractPollConnect(start) => match event {
            EventView::Connected => go(
                w,
                Phase::ExtractPoll(start),
                seq![],
                ActionView::Exec(tar_done_query()),
            ),
            _ => go(w, Phase::ExtractWait(start), seq![], ActionView::Sleep(EXTRACT_POLL_MS)),
        },
        Phase::ExtractPoll(start) => match event {
            EventView::ExecOk(out) => {
                let code = trim(out);
                if code.len() == 0 {
                    go(w, Phase::ExtractWait(start), seq![], ActionView::Sleep(EXTRACT_POLL_MS))
                } else if code == "0"@ {
                    go(
                        w,
                        Phase::VerifyConnect,
                        seq![
                            NoteView::Log(device_line(ip, "解压完成"@)),
                            NoteView::FileLog("解压完成"@),
                        ],
                        connect(),
                    )
                } else {
                    (
                        WorkflowView { phase: Phase::ExtractFailLog, exit_code: code, ..w },
                        StepView { notes: seq![], action: ActionView::Exec(tar_log_query()) },
                    )
                }
            },
            _ => go(w, Phase::ExtractWait(start), seq![], ActionView::Sleep(EXTRACT_POLL_MS)),
        },
        Phase::ExtractFailLog => {
            let log = match event {
                EventView::ExecOk(out) => out,
                _ => Seq::<char>::empty(),
            };
            go(
                w,
                Phase::Done,
                seq![
                    NoteView::FileLog("解压失败 (exit="@ + w.exit_code + "): "@ + log),
                    NoteView::Log(device_line(ip, "解压失败 (exit="@ + w.exit_code + ")"@)),
                    NoteView::State(DeviceStateView::Error("文件解压失败"@)),
                ],
                ActionView::Finish,
            )
        },
        Phase::VerifyConnect => match event {
            EventView::Connected => go(
                w,
                Phase::VerifyExec,
                seq![],
                ActionView::Exec(verify_query()),
            ),
            EventView::ConnectFailed(e) => fail(w, "验证阶段 SSH 连接失败: "@ + e, false),
            _ => (w, StepView { notes: seq![], action: ActionView::Finish }),
        },
        Phase::VerifyExec => match event {
            EventView::ExecOk(out) => if trim(out) == "OK"@ {
                go(
                    w,
                    Phase::StartConnect,
                    seq![
                        NoteView::State(DeviceStateView::Testing),
                        NoteView::Log(
                            device_line(
                                ip,
                                "启动老化测试 ("@ + dec_text(w.minutes as nat) + "分钟)..."@,
                            ),
                        ),
                        NoteView::FileLog(
                            "启动老化测试, 时长: "@ + dec_text(w.minutes as nat) + "分钟"@,
                        ),
                    ],
                    connect(),
                )
            } else {
                fail(w, "解压后未找到老化测试程序"@, false)
            },
            EventView::ExecFailed(e) => fail(w, "验证测试程序失败: "@ + e, false),
            _ => (w, StepView { notes: seq![], action: ActionView::Finish }),
        },
        Phase::StartConnect => match event {
            EventView::Connected => go(
                w,
                Phase::StartExec,
                seq![NoteView::FileLog("执行命令: "@ + test_command_spec(w.minutes as nat))],
                ActionView::Exec(test_command_spec(w.minutes as nat)),
            ),
            EventView::ConnectFailed(e) => fail(w, "启动测试 SSH 连接失败: "@ + e, false),
            _ => (w, StepView { notes: seq![], action: ActionView::Finish }),
        },
        Phase::StartExec => match event {
            EventView::ExecOk(out) => if contains_seq(out, "BG_OK"@) {
                go(w, Phase::SettleWait, seq![], ActionView::Sleep(SETTLE_MS))
            } else {
                fail(w, "启动后台测试进程失败"@, false)
            },
            EventView::ExecFailed(e) => fail(w, "启动测试失败: "@ + e, false),
            _ => (w, StepView { notes: seq![], action: ActionView::Finish }),
        },
        Phase::SettleWait => go(w, Phase::CheckConnect, seq![], connect()),
        Phase::CheckConnect => match event {
            EventView::Connected => go(w, Phase::CheckExec, seq![], ActionView::Exec(pgrep_query())),
            EventView::ConnectFailed(e) => go(
                w,
                Phase::CheckReconnect,
                seq![
                    NoteView::FileLog("验证进程启动连接失败: "@ + e),
                    NoteView::Log(device_line(ip, "测试进程已提交, 无法确认启动状态"@)),
                ],
                connect(),
            ),
            _ => (w, StepView { notes: seq![], action: ActionView::Finish }),
        },
        Phase::CheckReconnect => begin_test_poll(w, no_process_notes(ip), now),
        Phase::CheckExec => match event {
            EventView::ExecOk(out) => if trim(out).len() > 0 {
                begin_test_poll(w, seq![NoteView::FileLog("测试进程 PID: "@ + trim(out))], now)
            } else {
                begin_test_poll(w, no_process_notes(ip), now)
            },
            _ => begin_test_poll(w, no_process_notes(ip), now),
        },
        Phase::TestWait(start) => if elapsed(now, start) > test_deadline_ms(w.minutes) {
            fail(
                w,
                "测试超时 (已等待"@ + dec_text((elapsed(now, start) / 60_000) as nat) + "分钟, 预期"@
                    + dec_text(w.minutes as nat) + "分钟)"@,
                false,
            )
        } else {
            go(
                w,
                Phase::TestPollConnect(start),
                seq![],
                ActionView::Connect { io_timeout_ms: POLL_SESSION_TIMEOUT_MS },
            )
        },
        Phase::TestPollConnect(start) => match event {
            EventView::Connected => go(
                w,
                Phase::TestPoll(start),
                seq![],
                ActionView::Exec(aging_done_query()),
            ),
            EventView::ConnectFailed(e) => go(
                w,
                Phase::TestWait(start),
                seq![NoteView::FileLog("轮询重连失败: "@ + e + ", 继续等待..."@)],
                ActionView::Sleep(TEST_POLL_MS),
            ),
            _ => (w, StepView { notes: seq![], action: ActionView::Finish }),
        },
        Phase::TestPoll(start) => match event {
            EventView::ExecOk(out) => {
                let code = trim(out);
                if code.len() == 0 {
                    go(w, Phase::TestWait(start), seq![], ActionView::Sleep(TEST_POLL_MS))
                } else {
                    go(
                        w,
                        Phase::ResultConnect,
                        seq![
                            NoteView::FileLog("测试进程已结束 (exit="@ + code + "), 读取结果..."@),
                            NoteView::Log(device_line(ip, "测试完成, 检查结果..."@)),
                        ],
                        connect(),
                    )
                }
            },
            EventView::ExecFailed(e) => go(
                w,
                Phase::TestWait(start),
                seq![NoteView::FileLog("轮询检查失败: "@ + e)],
                ActionView::Sleep(TEST_POLL_MS),
            ),
            _ => (w, StepView { notes: seq![], action: ActionView::Finish }),
        },
        Phase::ResultConnect => match event {
            EventView::Connected => go(
                w,
                Phase::ResultExec,
                seq![],
                ActionView::Exec(marker_query()),
            ),
            EventView::ConnectFailed(e) => fail(w, "读取结果连接失败: "@ + e, false),
            _ => (w, StepView { notes: seq![], action: ActionView::Finish }),
        },
        Phase::ResultExec => match event {
            EventView::ExecOk(marker) => match verdict_of(marker) {
                Verdict::Pass => go(
                    w,
                    Phase::Done,
                    seq![
                        NoteView::Log(device_line(ip, "老化测试通过!"@)),
                        NoteView::State(DeviceStateView::Passed),
                    ],
                    ActionView::Finish,
                ),
                Verdict::Fail => go(
                    w,
                    Phase::Done,
                    seq![
                        NoteView::Log(device_line(ip, "老化测试失败!"@)),
                        NoteView::State(DeviceStateView::Failed),
                    ],
                    ActionView::Finish,
                ),
                Verdict::NoMarker => go(
                    w,
                    Phase::ResultTail,
                    seq![],
                    ActionView::Exec(output_tail_query()),
                ),
            },
            EventView::ExecFailed(e) => fail(w, "读取测试日志失败: "@ + e, false),
            _ => (w, StepView { notes: seq![], action: ActionView::Finish }),
        },
        Phase::ResultTail => {
            let tail = match event {
                EventView::ExecOk(out) => out,
                _ => Seq::<char>::empty(),
            };
            let msg = "未检测到 QA_AGING_PASS/FAILED/FAIL 标识"@;
            go(
                w,
                Phase::Done,
                seq![
                    NoteView::FileLog("日志尾部:\n"@ + tail),
                    NoteView::Log(device_line(ip, msg)),
                    NoteView::State(DeviceStateView::Error(msg)),
                ],
                ActionView::Finish,
            )
        },
        Phase::Done => (w, StepView { notes: seq![], action: ActionView::Finish }),
    }
}

/// The events that can answer the action pending in `phase`.
pub open spec fn accepts(phase: Phase, event: EventView) -> bool {
    match phase {
        Phase::Init => event is Start,
        Phase::MainConnect | Phase::UploadConnect(_) | Phase::ExtractConnect
        | Phase::ExtractPollConnect(_) | Phase::VerifyConnect | Phase::StartConnect
        | Phase::CheckConnect | Phase::CheckReconnect | Phase::TestPollConnect(_)
        | Phase::ResultConnect => event is Connected || event is ConnectFailed,
        Phase::MakeDir | Phase::ExtractStart | Phase::ExtractPoll(_) | Phase::ExtractFailLog
        | Phase::VerifyExec | Phase::StartExec | Phase::CheckExec | Phase::TestPoll(_)
        | Phase::ResultExec | Phase::ResultTail => event is ExecOk || event is ExecFailed,
        Phase::Uploading(_) => event is Uploaded || event is UploadFailed,
        Phase::UploadBackoff(_) | Phase::ExtractWait(_) | Phase::SettleWait | Phase::TestWait(_) =>
            event is Slept,
        Phase::Done => true,
    }
}

/// The workflow's own invariant: an upload attempt is numbered 1 to 7, and a
/// wait before another attempt follows one of the first six.
pub open spec fn wf(w: WorkflowView) -> bool {
    match w.phase {
        Phase::UploadConnect(a) | Phase::Uploading(a) => 1 <= a <= MAX_UPLOAD_RETRIES,
        Phase::UploadBackoff(a) => 1 <= a < MAX_UPLOAD_RETRIES,
        _ => true,
    }
}

// ---------------------------------------------------------------------------
// The executable machine
// ---------------------------------------------------------------------------

/// A line of the user's log about the device at `ip`.
pub fn make_device_line(ip: &str, msg: &str) -> (r: String)
    ensures
        r@ == device_line(ip@, msg@),
{
    let mut s = owned(ip);
    push_str(&mut s, ": ");
    push_str(&mut s, msg);
    s
}

fn attempt_notes_exec(ip: &str, a: u32) -> (r: Vec<Note>)
    ensures
        r@.map_values(|n: Note| n@) == attempt_notes(ip@, a),
{
    let mut ui = owned("开始上传文件 (第");
    push_decimal(&mut ui, a as u128);
    push_str(&mut ui, "次)");
    let mut file = owned("开始上传文件 (第");
    push_decimal(&mut file, a as u128);
    push_str(&mut file, "次尝试)");
    let mut v: Vec<Note> = Vec::new();
    v.push(Note::Log(make_device_line(ip, ui.as_str())));
    v.push(Note::FileLog(file));
    proof {
        assert(v@.map_values(|n: Note| n@) == attempt_notes(ip@, a));
    }
    v
}

fn no_process_notes_exec(ip: &str) -> (r: Vec<Note>)
    ensures
        r@.map_values(|n: Note| n@) == no_process_notes(ip@),
{
    let mut v: Vec<Note> = Vec::new();
    v.push(Note::FileLog(owned("警告: 未检测到测试进程, 可能启动延迟")));
    v.push(Note::Log(make_device_line(ip, "警告: 未检测到测试进程")));
    proof {
        assert(v@.map_values(|n: Note| n@) == no_process_notes(ip@));
    }
    v
}

fn error_notes_exec(ip: &str, msg: &str, to_ui: bool) -> (r: Vec<Note>)
    ensures
        r@.map_values(|n: Note| n@) == error_notes(ip@, msg@, to_ui),
{
    let mut v: Vec<Note> = Vec::new();
    v.push(Note::FileLog(owned(msg)));
    if to_ui {
        v.push(Note::Log(make_device_line(ip, msg)));
    }
    v.push(Note::State(DeviceState::Error(owned(msg))));
    proof {
        assert(v@.map_values(|n: Note| n@) == error_notes(ip@, msg@, to_ui));
    }
    v
}

fn append_notes(a: &mut Vec<Note>, b: Vec<Note>)
    ensures
        final(a)@.map_values(|n: Note| n@) == old(a)@.map_values(|n: Note| n@) + b@.map_values(
            |n: Note| n@,
        ),
{
    let mut b = b;
    let ghost a0 = a@;
    let ghost b0 = b@;
    a.append(&mut b);
    assert(a@ == a0 + b0);
    assert(a@.map_values(|n: Note| n@) =~= a0.map_values(|n: Note| n@) + b0.map_values(|n: Note| n@));
}

impl Workflow {
    /// A workflow for the device at `ip` that installs the archive
    /// `file_name` and runs the burn-in test for `minutes` minutes.
    pub fn new(ip: String, file_name: String, minutes: u32) -> (r: Workflow)
        ensures
            r@ == (WorkflowView {
                ip: ip@,
                file_name: file_name@,
                minutes,
                phase: Phase::Init,
                exit_code: Seq::<char>::empty(),
            }),
            wf(r@),
    {
        Workflow { ip, file_name, minutes, phase: Phase::Init, exit_code: String::new() }
    }

    /// The workflow of `device` that installs the test program at
    /// `program_path` and runs the test for `duration`.
    pub fn for_device(device: &DeviceInfo, program_path: &str, duration: AgingDuration) -> (r: Workflow)
        ensures
            r@ == (WorkflowView {
                ip: device.ip@,
                file_name: path_file_name(program_path@),
                minutes: duration.spec_minutes() as u32,
                phase: Phase::Init,
                exit_code: Seq::<char>::empty(),
            }),
            wf(r@),
    {
        let file_name = file_name_of(program_path);
        Workflow::new(device.ip.clone(), file_name, duration.minutes())
    }

    fn goto(&mut self, p: Phase, notes: Vec<Note>, action: Action) -> (r: Step)
        ensures
            (final(self)@, r@) == go(old(self)@, p, notes@.map_values(|n: Note| n@), action@),
    {
        self.phase = p;
        Step { notes, action }
    }

    fn fail_with(&mut self, msg: &str, to_ui: bool) -> (r: Step)
        ensures
            (final(self)@, r@) == fail(old(self)@, msg@, to_ui),
    {
        let notes = error_notes_exec(self.ip.as_str(), msg, to_ui);
        self.goto(Phase::Done, notes, Action::Finish)
    }

    fn after_failed_attempt_exec(&mut self, a: u32, notes: Vec<Note>) -> (r: Step)
        requires
            1 <= a <= MAX_UPLOAD_RETRIES,
        ensures
            (final(self)@, r@) == after_failed_attempt(
                old(self)@,
                a,
                notes@.map_values(|n: Note| n@),
            ),
    {
        if a < MAX_UPLOAD_RETRIES {
            self.goto(Phase::UploadBackoff(a), notes, Action::Sleep(5000 * a as u64))
        } else {
            let mut notes = notes;
            let more = error_notes_exec(self.ip.as_str(), "文件上传失败, 已重试7次", false);
            append_notes(&mut notes, more);
            self.goto(Phase::Done, notes, Action::Finish)
        }
    }

    fn begin_extract_exec(&mut self, notes: Vec<Note>) -> (r: Step)
        ensures
            (final(self)@, r@) == begin_extract(old(self)@, notes@.map_values(|n: Note| n@)),
    {
        let mut notes = notes;
        let mut more: Vec<Note> = Vec::new();
        more.push(Note::State(DeviceState::Extracting));
        more.push(Note::Log(make_device_line(self.ip.as_str(), "开始解压文件...")));
        more.push(Note::FileLog(owned("开始解压文件")));
        proof {
            assert(more@.map_values(|n: Note| n@) == seq![
                NoteView::State(DeviceStateView::Extracting),
                NoteView::Log(device_line(self.ip@, "开始解压文件..."@)),
                NoteView::FileLog("开始解压文件"@),
            ]);
        }
        append_notes(&mut notes, more);
        self.goto(Phase::ExtractConnect, notes, Action::Connect { io_timeout_ms: 0 })
    }

    fn begin_test_poll_exec(&mut self, notes: Vec<Note>, now: u64) -> (r: Step)
        ensures
            (final(self)@, r@) == begin_test_poll(old(self)@, notes@.map_values(|n: Note| n@), now),
    {
        self.goto(Phase::TestWait(now), notes, Action::Sleep(TEST_POLL_MS))
    }

    /// Takes the outcome of the pending action at `now` milliseconds since the
    /// workflow began, and gives the reports to make and the next action.
    pub fn step(&mut self, event: Event, now: u64) -> (r: Step)
        requires
            accepts(old(self).phase, event@),
            wf(old(self)@),
        ensures
            final(self)@ == transition(old(self)@, event@, now).0,
            r@ == transition(old(self)@, event@, now).1,
            wf(final(self)@),
    {
        let r = self.step_inner(event, now);
        proof {
            law_steps_keep_wf(old(self)@, event@, now);
        }
        r
    }

    fn step_inner(&mut self, event: Event, now: u64) -> (r: Step)
        requires
            accepts(old(self).phase, event@),
            wf(old(self)@),
        ensures
            (final(self)@, r@) == transition(old(self)@, event@, now),
    {
        let empty: Vec<Note> = Vec::new();
        proof {
            assert(empty@.map_values(|n: Note| n@) == Seq::<NoteView>::empty());
        }
        match self.phase {
            Phase::Init => self.goto(Phase::MainConnect, empty, Action::Connect { io_timeout_ms: 0 }),
            Phase::MainConnect => match event {
                Event::Connected => {
                    let mut notes: Vec<Note> = Vec::new();
                    notes.push(Note::Log(make_device_line(self.ip.as_str(), "SSH 连接成功")));
                    notes.push(Note::FileLog(owned("SSH 连接成功")));
                    self.goto(Phase::MakeDir, notes, Action::Exec(owned("mkdir -p /data")))
                },
                Event::ConnectFailed(e) => {
                    let msg = concat2("SSH 连接失败: ", e.as_str());
                    self.fail_with(msg.as_str(), true)
                },
                _ => Step { notes: empty, action: Action::Finish },
            },
            Phase::MakeDir => match event {
                Event::ExecOk(_) => {
                    let mut notes: Vec<Note> = Vec::new();
                    notes.push(Note::State(DeviceState::Transferring { done: 0, total: 1 }));
                    let more = attempt_notes_exec(self.ip.as_str(), 1);
                    append_notes(&mut notes, more);
                    self.goto(Phase::UploadConnect(1), notes, Action::Connect { io_timeout_ms: 0 })
                },
                Event::ExecFailed(e) => {
                    let msg = concat2("创建 /data 目录失败: ", e.as_str());
                    self.fail_with(msg.as_str(), false)
                },
                _ => Step { notes: empty, action: Action::Finish },
            },
            Phase::UploadConnect(a) => match event {
                Event::Connected => {
                    let path = remote_path(self.file_name.as_str());
                    self.goto(Phase::Uploading(a), empty, Action::Upload(path))
                },
                Event::ConnectFailed(e) => {
                    let mut notes: Vec<Note> = Vec::new();
                    notes.push(Note::FileLog(concat2("上传重连失败: ", e.as_str())));
                    self.after_failed_attempt_exec(a, notes)
                },
                _ => Step { notes: empty, action: Action::Finish },
            },
            Phase::Uploading(a) => match event {
                Event::Uploaded => {
                    let mut notes: Vec<Note> = Vec::new();
                    notes.push(Note::Log(make_device_line(self.ip.as_str(), "文件上传完成")));
                    notes.push(Note::FileLog(owned("文件上传完成")));
                    self.begin_extract_exec(notes)
                },
                Event::UploadFailed(e) => {
                    let msg = concat2("上传失败: ", e.as_str());
                    let mut notes: Vec<Note> = Vec::new();
                    notes.push(Note::FileLog(owned(msg.as_str())));
                    notes.push(Note::Log(make_device_line(self.ip.as_str(), msg.as_str())));
                    self.after_failed_attempt_exec(a, notes)
                },
                _ => Step { notes: empty, action: Action::Finish },
            },
            Phase::UploadBackoff(a) => {
                let notes = attempt_notes_exec(self.ip.as_str(), a + 1);
                self.goto(Phase::UploadConnect(a + 1), notes, Action::Connect { io_timeout_ms: 0 })
            },
            Phase::ExtractConnect => match event {
                Event::Connected => {
                    let cmd = extract_command(self.file_name.as_str());
                    self.goto(Phase::ExtractStart, empty, Action::Exec(cmd))
                },
                Event::ConnectFailed(e) => {
                    let msg = concat2("解压阶段 SSH 连接失败: ", e.as_str());
                    self.fail_with(msg.as_str(), false)
                },
                _ => Step { notes: empty, action: Action::Finish },
            },
            Phase::ExtractStart => match event {
                Event::ExecOk(out) => {
                    if started_in_background(out.as_str()) {
                        self.goto(Phase::ExtractWait(now), empty, Action::Sleep(EXTRACT_POLL_MS))
                    } else {
                        self.fail_with("启动后台解压失败", false)
                    }
                },
                Event::ExecFailed(e) => {
                    let msg = concat2("启动解压命令失败: ", e.as_str());
                    self.fail_with(msg.as_str(), false)
                },
                _ => Step { notes: empty, action: Action::Finish },
            },
            Phase::ExtractWait(start) => {
                let el: u64 = if now >= start { now - start } else { 0 };
                if el > EXTRACT_TIMEOUT_MS {
                    self.fail_with("解压超时 (超过10分钟)", false)
                } else {
                    self.goto(Phase::ExtractPollConnect(start), empty, Action::Connect { io_timeout_ms: 0 })
                }
            },
            Phase::ExtractPollConnect(start) => match event {
                Event::Connected => self.goto(
                    Phase::ExtractPoll(start),
                    empty,
                    Action::Exec(owned("cat /tmp/tar_done 2>/dev/null")),
                ),
                _ => self.goto(Phase::ExtractWait(start), empty, Action::Sleep(EXTRACT_POLL_MS)),
            },
            Phase::ExtractPoll(start) => match event {
                Event::ExecOk(out) => {
                    let code = trimmed(out.as_str());
                    if code.as_str().is_empty() {
                        self.goto(Phase::ExtractWait(start), empty, Action::Sleep(EXTRACT_POLL_MS))
                    } else if crate::text::str_equal(code.as_str(), "0") {
                        let mut notes: Vec<Note> = Vec::new();
                        notes.push(Note::Log(make_device_line(self.ip.as_str(), "解压完成")));
                        notes.push(Note::FileLog(owned("解压完成")));
                        self.goto(Phase::VerifyConnect, notes, Action::Connect { io_timeout_ms: 0 })
                    } else {
                        self.exit_code = code;
                        self.goto(
                            Phase::ExtractFailLog,
                            empty,
                            Action::Exec(owned("tail -20 /tmp/tar.log 2>/dev/null")),
                        )
                    }
                },
                _ => self.goto(Phase::ExtractWait(start), empty, Action::Sleep(EXTRACT_POLL_MS)),
            },
            Phase::ExtractFailLog => {
                let log = match event {
                    Event::ExecOk(out) => out,
                    _ => String::new(),
                };
                let mut file = owned("解压失败 (exit=");
                push_str(&mut file, self.exit_code.as_str());
                push_str(&mut file, "): ");
                push_str(&mut file, log.as_str());
                let mut ui = owned("解压失败 (exit=");
                push_str(&mut ui, self.exit_code.as_str());
                push_str(&mut ui, ")");
                let mut notes: Vec<Note> = Vec::new();
                notes.push(Note::FileLog(file));
                notes.push(Note::Log(make_device_line(self.ip.as_str(), ui.as_str())));
                notes.push(Note::State(DeviceState::Error(owned("文件解压失败"))));
                self.goto(Phase::Done, notes, Action::Finish)
            },
            Phase::VerifyConnect => match event {
                Event::Connected => {
                    let cmd = with_profile(
                        "test -x /data/bm1684x_soc_aging/bm1684x_soc_aging && echo OK || echo MISSING",
                    );
                    self.goto(Phase::VerifyExec, empty, Action::Exec(cmd))
                },
                Event::ConnectFailed(e) => {
                    let msg = concat2("验证阶段 SSH 连接失败: ", e.as_str());
                    self.fail_with(msg.as_str(), false)
                },
                _ => Step { notes: empty, action: Action::Finish },
            },
            Phase::VerifyExec => match event {
                Event::ExecOk(out) => {
                    let t = trimmed(out.as_str());
                    if crate::text::str_equal(t.as_str(), "OK") {
                        let mut ui = owned("启动老化测试 (");
                        push_decimal(&mut ui, self.minutes as u128);
                        push_str(&mut ui, "分钟)...");
                        let mut file = owned("启动老化测试, 时长: ");
                        push_decimal(&mut file, self.minutes as u128);
                        push_str(&mut file, "分钟");
                        let mut notes: Vec<Note> = Vec::new();
                        notes.push(Note::State(DeviceState::Testing));
                        notes.push(Note::Log(make_device_line(self.ip.as_str(), ui.as_str())));
                        notes.push(Note::FileLog(file));
                        self.goto(Phase::StartConnect, notes, Action::Connect { io_timeout_ms: 0 })
                    } else {
                        self.fail_with("解压后未找到老化测试程序", false)
                    }
                },
                Event::ExecFailed(e) => {
                    let msg = concat2("验证测试程序失败: ", e.as_str());
                    self.fail_with(msg.as_str(), false)
                },
                _ => Step { notes: empty, action: Action::Finish },
            },
            Phase::StartConnect => match event {
                Event::Connected => {
                    let cmd = test_command(self.minutes);
                    let mut notes: Vec<Note> = Vec::new();
                    notes.push(Note::FileLog(concat2("执行命令: ", cmd.as_str())));
                    self.goto(Phase::StartExec, notes, Action::Exec(cmd))
                },
                Event::ConnectFailed(e) => {
                    let msg = concat2("启动测试 SSH 连接失败: ", e.as_str());
                    self.fail_with(msg.as_str(), false)
                },
                _ => Step { notes: empty, action: Action::Finish },
            },
            Phase::StartExec => match event {
                Event::ExecOk(out) => {
                    if started_in_background(out.as_str()) {
                        self.goto(Phase::SettleWait, empty, Action::Sleep(SETTLE_MS))
                    } else {
                        self.fail_with("启动后台测试进程失败", false)
                    }
                },
                Event::ExecFailed(e) => {
                    let msg = concat2("启动测试失败: ", e.as_str());
                    self.fail_with(msg.as_str(), false)
                },
                _ => Step { notes: empty, action: Action::Finish },
            },
            Phase::SettleWait => self.goto(Phase::CheckConnect, empty, Action::Connect { io_timeout_ms: 0 }),
            Phase::CheckConnect => match event {
                Event::Connected => self.goto(
                    Phase::CheckExec,
                    empty,
                    Action::Exec(owned("pgrep -f 'bm1684x_soc_aging --restart_all'")),
                ),
                Event::ConnectFailed(e) => {
                    let mut notes: Vec<Note> = Vec::new();
                    notes.push(Note::FileLog(concat2("验证进程启动连接失败: ", e.as_str())));
                    notes.push(
                        Note::Log(make_device_line(self.ip.as_str(), "测试进程已提交, 无法确认启动状态")),
                    );
                    self.goto(Phase::CheckReconnect, notes, Action::Connect { io_timeout_ms: 0 })
                },
                _ => Step { notes: empty, action: Action::Finish },
            },
            Phase::CheckReconnect => {
                let notes = no_process_notes_exec(self.ip.as_str());
                self.begin_test_poll_exec(notes, now)
            },
            Phase::CheckExec => match event {
                Event::ExecOk(out) => {
                    let t = trimmed(out.as_str());
                    if !t.as_str().is_empty() {
                        let mut notes: Vec<Note> = Vec::new();
                        notes.push(Note::FileLog(concat2("测试进程 PID: ", t.as_str())));
                        self.begin_test_poll_exec(notes, now)
                    } else {
                        let notes = no_process_notes_exec(self.ip.as_str());
                        self.begin_test_poll_exec(notes, now)
                    }
                },
                _ => {
                    let notes = no_process_notes_exec(self.ip.as_str());
                    self.begin_test_poll_exec(notes, now)
                },
            },
            Phase::TestWait(start) => {
                let el: u64 = if now >= start { now - start } else { 0 };
                let limit: u64 = (self.minutes as u64 + 15) * 60_000;
                if el > limit {
                    let mut msg = owned("测试超时 (已等待");
                    push_decimal(&mut msg, (el / 60_000) as u128);
                    push_str(&mut msg, "分钟, 预期");
                    push_decimal(&mut msg, self.minutes as u128);
                    push_str(&mut msg, "分钟)");
                    self.fail_with(msg.as_str(), false)
                } else {
                    self.goto(
                        Phase::TestPollConnect(start),
                        empty,
                        Action::Connect { io_timeout_ms: POLL_SESSION_TIMEOUT_MS },
                    )
                }
            },
            Phase::TestPollConnect(start) => match event {
                Event::Connected => self.goto(
                    Phase::TestPoll(start),
                    empty,
                    Action::Exec(owned("cat /data/aging_done 2>/dev/null")),
                ),
                Event::ConnectFailed(e) => {
                    let mut file = owned("轮询重连失败: ");
                    push_str(&mut file, e.as_str());
                    push_str(&mut file, ", 继续等待...");
                    let mut notes: Vec<Note> = Vec::new();
                    notes.push(Note::FileLog(file));
                    self.goto(Phase::TestWait(start), notes, Action::Sleep(TEST_POLL_MS))
                },
                _ => Step { notes: empty, action: Action::Finish },
            },
            Phase::TestPoll(start) => match event {
                Event::ExecOk(out) => {
                    let code = trimmed(out.as_str());
                    if code.as_str().is_empty() {
                        self.goto(Phase::TestWait(start), empty, Action::Sleep(TEST_POLL_MS))
                    } else {
                        let mut file = owned("测试进程已结束 (exit=");
                        push_str(&mut file, code.as_str());
                        push_str(&mut file, "), 读取结果...");
                        let mut notes: Vec<Note> = Vec::new();
                        notes.push(Note::FileLog(file));
                        notes.push(Note::Log(make_device_line(self.ip.as_str(), "测试完成, 检查结果...")));
                        self.goto(Phase::ResultConnect, notes, Action::Connect { io_timeout_ms: 0 })
                    }
                },
                Event::ExecFailed(e) => {
                    let mut notes: Vec<Note> = Vec::new();
                    notes.push(Note::FileLog(concat2("轮询检查失败: ", e.as_str())));
                    self.goto(Phase::TestWait(start), notes, Action::Sleep(TEST_POLL_MS))
                },
                _ => Step { notes: empty, action: Action::Finish },
            },
            Phase::ResultConnect => match event {
                Event::Connected => self.goto(
                    Phase::ResultExec,
                    empty,
                    Action::Exec(
                        owned(
                            "grep -o 'QA_AGING_PASS\\|QA_AGING_FAILED\\|QA_AGING_FAIL' /data/aging_output.log | tail -1",
                        ),
                    ),
                ),
                Event::ConnectFailed(e) => {
                    let msg = concat2("读取结果连接失败: ", e.as_str());
                    self.fail_with(msg.as_str(), false)
                },
                _ => Step { notes: empty, action: Action::Finish },
            },
            Phase::ResultExec => match event {
                Event::ExecOk(marker) => match classify_marker(marker.as_str()) {
                    Verdict::Pass => {
                        let mut notes: Vec<Note> = Vec::new();
                        notes.push(Note::Log(make_device_line(self.ip.as_str(), "老化测试通过!")));
                        notes.push(Note::State(DeviceState::Passed));
                        self.goto(Phase::Done, notes, Action::Finish)
                    },
                    Verdict::Fail => {
                        let mut notes: Vec<Note> = Vec::new();
                        notes.push(Note::Log(make_device_line(self.ip.as_str(), "老化测试失败!")));
                        notes.push(Note::State(DeviceState::Failed));
                        self.goto(Phase::Done, notes, Action::Finish)
                    },
                    Verdict::NoMarker => self.goto(
                        Phase::ResultTail,
                        empty,
                        Action::Exec(owned("tail -30 /data/aging_output.log 2>/dev/null")),
                    ),
                },
                Event::ExecFailed(e) => {
                    let msg = concat2("读取测试日志失败: ", e.as_str());
                    self.fail_with(msg.as_str(), false)
                },
                _ => Step { notes: empty, action: Action::Finish },
            },
            Phase::ResultTail => {
                let tail = match event {
                    Event::ExecOk(out) => out,
                    _ => String::new(),
                };
                let msg = "未检测到 QA_AGING_PASS/FAILED/FAIL 标识";
                let mut notes: Vec<Note> = Vec::new();
                notes.push(Note::FileLog(concat2("日志尾部:\n", tail.as_str())));
                notes.push(Note::Log(make_device_line(self.ip.as_str(), msg)));
                notes.push(Note::State(DeviceState::Error(owned(msg))));
                self.goto(Phase::Done, notes, Action::Finish)
            },
            Phase::Done => Step { notes: empty, action: Action::Finish },
        }
    }
}

/// The log file of one device.
pub struct FileLogger {
    /// Where the log file is.
    pub path: String,
}

/// A line of a device log file: date and time in brackets, the message, and
/// a line break.
pub open spec fn file_entry(stamp: Seq<char>, msg: Seq<char>) -> Seq<char> {
    "["@ + stamp + "] "@ + msg + "\n"@
}

impl FileLogger {
    /// A log file at `path`.
    pub fn new(path: &str) -> (r: FileLogger)
        ensures
            r.path@ == path@,
    {
        FileLogger { path: owned(path) }
    }

    /// The line that logs `msg` at `stamp`.
    pub fn entry_at(&self, stamp: &str, msg: &str) -> (r: String)
        ensures
            r@ == file_entry(stamp@, msg@),
    {
        let mut s = owned("[");
        push_str(&mut s, stamp);
        push_str(&mut s, "] ");
        push_str(&mut s, msg);
        push_str(&mut s, "\n");
        s
    }

    /// The line that logs `msg` now, stamped with the local date and time.
    pub fn entry(&self, msg: &str) -> (r: String)
        ensures
            exists|stamp: Seq<char>| is_datetime_text(stamp) && r@ == file_entry(stamp, msg@),
    {
        let stamp = clock_datetime();
        self.entry_at(stamp.as_str(), msg)
    }
}

// ---------------------------------------------------------------------------
// Laws
// ---------------------------------------------------------------------------

/// Whether `n` reports a state that ends the test.
pub open spec fn is_verdict_note(n: NoteView) -> bool {
    match n {
        NoteView::State(s) => s.is_terminal(),
        _ => false,
    }
}

/// A running workflow finishes exactly when it reaches its end, and then its
/// last report is the device's final state (passed, failed or an error); no
/// other report of any step is a final state.
pub proof fn law_finish_reports_verdict(w: WorkflowView, e: EventView, now: u64)
    requires
        wf(w),
        accepts(w.phase, e),
        w.phase != Phase::Done,
    ensures
        ({
            let (w2, st) = transition(w, e, now);
            &&& (st.action is Finish) == (w2.phase == Phase::Done)
            &&& w2.phase == Phase::Done ==> st.notes.len() > 0 && is_verdict_note(st.notes.last())
            &&& forall|i: int|
                0 <= i < st.notes.len() && !(w2.phase == Phase::Done && i == st.notes.len() - 1)
                    ==> !is_verdict_note(#[trigger] st.notes[i])
        }),
{
    let (w2, st) = transition(w, e, now);
    assert forall|i: int|
        0 <= i < st.notes.len() && !(w2.phase == Phase::Done && i == st.notes.len() - 1)
            implies !is_verdict_note(#[trigger] st.notes[i]) by {
        match w.phase {
            Phase::UploadConnect(a) | Phase::Uploading(a) => {
                if a >= MAX_UPLOAD_RETRIES {
                    let notes0 = match e {
                        EventView::ConnectFailed(x) => seq![NoteView::FileLog("上传重连失败: "@ + x)],
                        EventView::UploadFailed(x) => seq![
                            NoteView::FileLog("上传失败: "@ + x),
                            NoteView::Log(device_line(w.ip, "上传失败: "@ + x)),
                        ],
                        _ => Seq::<NoteView>::empty(),
                    };
                    if i < notes0.len() {
                        assert(st.notes[i] == notes0[i]);
                    }
                }
            },
            _ => {},
        }
    }
}

/// A finished workflow stays finished and reports nothing more.
pub proof fn law_done_is_final(w: WorkflowView, e: EventView, now: u64)
    requires
        w.phase == Phase::Done,
    ensures
        transition(w, e, now).0 == w,
        transition(w, e, now).1.notes.len() == 0,
        transition(w, e, now).1.action is Finish,
{
}

/// Every step keeps the upload attempt numbers between 1 and 7.
pub proof fn law_steps_keep_wf(w: WorkflowView, e: EventView, now: u64)
    requires
        wf(w),
        accepts(w.phase, e),
    ensures
        wf(transition(w, e, now).0),
{
}

/// The upload is tried at most seven times: an upload happens only as
/// attempt `a` (1 to 7) after the connection of that attempt, a new attempt
/// is numbered one more than the last, and a failure of the seventh ends the
/// workflow with an error.
pub proof fn law_upload_attempts(w: WorkflowView, e: EventView, now: u64)
    requires
        wf(w),
        accepts(w.phase, e),
    ensures
        ({
            let (w2, st) = transition(w, e, now);
            &&& st.action is Upload ==> (w.phase matches Phase::UploadConnect(a) && w2.phase
                == Phase::Uploading(a) && 1 <= a <= MAX_UPLOAD_RETRIES)
            &&& w2.phase matches Phase::UploadConnect(b) ==> (b == 1 && w.phase == Phase::MakeDir)
                || (w.phase == Phase::UploadBackoff((b - 1) as u32) && 2 <= b <= MAX_UPLOAD_RETRIES)
            &&& (w.phase == Phase::Uploading(MAX_UPLOAD_RETRIES) && e is UploadFailed) ==> (w2.phase
                == Phase::Done && st.notes.last() == NoteView::State(
                DeviceStateView::Error("文件上传失败, 已重试7次"@),
            ))
        }),
{
}

/// Unpacking that has not ended ten minutes after it started, or a test that
/// has not ended fifteen minutes after its planned length, ends the workflow
/// with an error at the next check.
pub proof fn law_polling_times_out(w: WorkflowView, now: u64)
    ensures
        (w.phase matches Phase::ExtractWait(start) && elapsed(now, start) > EXTRACT_TIMEOUT_MS) ==> {
            let (w2, st) = transition(w, EventView::Slept, now);
            w2.phase == Phase::Done && st.notes.last() == NoteView::State(
                DeviceStateView::Error("解压超时 (超过10分钟)"@),
            )
        },
        (w.phase matches Phase::TestWait(start) && elapsed(now, start) > test_deadline_ms(w.minutes))
            ==> {
            let (w2, st) = transition(w, EventView::Slept, now);
            w2.phase == Phase::Done && st.notes.last() is State && is_verdict_note(st.notes.last())
        },
{
}


/// While the burn-in test runs, a check that comes before the test's length
/// plus fifteen minutes have passed since polling began does not end the
/// workflow: it opens a new session with a 30-second I/O timeout to look
/// for the test's exit status, and reports nothing.
pub proof fn law_test_poll_continues_before_deadline(w: WorkflowView, start: u64, now: u64)
    requires
        w.phase == Phase::TestWait(start),
        now < start || now - start <= (w.minutes + 15) * 60_000,
    ensures
        transition(w, EventView::Slept, now) == (
            WorkflowView { phase: Phase::TestPollConnect(start), ..w },
            StepView { notes: seq![], action: ActionView::Connect { io_timeout_ms: 30_000 } },
        ),
{
}

/// A failed connection or a failed command while polling the running test
/// never ends the workflow: the failure goes to the device's log file and
/// the workflow sleeps 30 seconds and checks again, with the same start
/// time; an empty exit status (test still running) waits the same way.
pub proof fn law_test_poll_failures_keep_waiting(w: WorkflowView, start: u64, now: u64, e: Seq<char>)
    ensures
        w.phase == Phase::TestPollConnect(start) ==> transition(w, EventView::ConnectFailed(e), now)
            == (
            WorkflowView { phase: Phase::TestWait(start), ..w },
            StepView {
                notes: seq![NoteView::FileLog("轮询重连失败: "@ + e + ", 继续等待..."@)],
                action: ActionView::Sleep(30_000),
            },
        ),
        w.phase == Phase::TestPoll(start) ==> transition(w, EventView::ExecFailed(e), now) == (
            WorkflowView { phase: Phase::TestWait(start), ..w },
            StepView {
                notes: seq![NoteView::FileLog("轮询检查失败: "@ + e)],
                action: ActionView::Sleep(30_000),
            },
        ),
        (w.phase == Phase::TestPoll(start) && trim(e).len() == 0) ==> transition(
            w,
            EventView::ExecOk(e),
            now,
        ) == (
            WorkflowView { phase: Phase::TestWait(start), ..w },
            StepView { notes: seq![], action: ActionView::Sleep(30_000) },
        ),
{
}

/// While the test is polled, the workflow ends only at a check past the
/// test's length plus fifteen minutes, and leaves polling for the result
/// only when the exit status file holds something.
pub proof fn law_test_polling_ends_only_by_deadline_or_status(
    w: WorkflowView,
    start: u64,
    e: EventView,
    now: u64,
)
    requires
        w.phase == Phase::TestWait(start) || w.phase == Phase::TestPollConnect(start)
            || w.phase == Phase::TestPoll(start),
        accepts(w.phase, e),
    ensures
        ({
            let (w2, st) = transition(w, e, now);
            &&& w2.phase == Phase::Done ==> (w.phase == Phase::TestWait(start) && now > start
                && now - start > (w.minutes + 15) * 60_000)
            &&& w2.phase == Phase::ResultConnect ==> (w.phase == Phase::TestPoll(start)
                && (e matches EventView::ExecOk(out) && trim(out).len() > 0))
            &&& (w2.phase != Phase::Done && w2.phase != Phase::ResultConnect) ==> (w2.phase
                == Phase::TestWait(start) || w2.phase == Phase::TestPollConnect(start)
                || w2.phase == Phase::TestPoll(start))
        }),
{
}

/// While unpacking is polled, a check before ten minutes have passed opens
/// a new session, and a failed connection or command, or an empty status,
/// waits three seconds and checks again with the same start time.
pub proof fn law_extract_poll_keeps_waiting(w: WorkflowView, start: u64, now: u64, e: EventView)
    ensures
        (w.phase == Phase::ExtractWait(start) && (now < start || now - start <= 600_000))
            ==> transition(w, EventView::Slept, now) == (
            WorkflowView { phase: Phase::ExtractPollConnect(start), ..w },
            StepView { notes: seq![], action: ActionView::Connect { io_timeout_ms: 0 } },
        ),
        (w.phase == Phase::ExtractPollConnect(start) && e is ConnectFailed) ==> transition(w, e, now)
            == (
            WorkflowView { phase: Phase::ExtractWait(start), ..w },
            StepView { notes: seq![], action: ActionView::Sleep(3_000) },
        ),
        (w.phase == Phase::ExtractPoll(start) && (e is ExecFailed || ((e matches EventView::ExecOk(
            out,
        ) && trim(out).len() == 0)))) ==> transition(w, e, now) == (
            WorkflowView { phase: Phase::ExtractWait(start), ..w },
            StepView { notes: seq![], action: ActionView::Sleep(3_000) },
        ),
{
}

/// The verdict follows the last marker in the test's output: a pass marker
/// passes the device, else a fail marker fails it, and without either the
/// workflow reads the output's tail before reporting an error.
pub proof fn law_verdict_follows_marker(w: WorkflowView, marker: Seq<char>, now: u64)
    requires
        w.phase == Phase::ResultExec,
    ensures
        ({
            let (w2, st) = transition(w, EventView::ExecOk(marker), now);
            let m = trim(marker);
            &&& contains_seq(m, "QA_AGING_PASS"@) ==> (w2.phase == Phase::Done && st.action
                is Finish && st.notes.last() == NoteView::State(DeviceStateView::Passed))
            &&& (!contains_seq(m, "QA_AGING_PASS"@) && (contains_seq(m, "QA_AGING_FAILED"@)
                || contains_seq(m, "QA_AGING_FAIL"@))) ==> (
            w2.phase == Phase::Done && st.action is Finish && st.notes.last() == NoteView::State(
                DeviceStateView::Failed,
            ))
            &&& (!contains_seq(m, "QA_AGING_PASS"@) && !contains_seq(m, "QA_AGING_FAILED"@)
                && !contains_seq(m, "QA_AGING_FAIL"@)) ==> (
            w2.phase == Phase::ResultTail && st.action == ActionView::Exec(
                "tail -30 /data/aging_output.log 2>/dev/null"@,
            ))
        }),
{
}

/// A failed upload attempt `a` (its connection or its transfer) before the
/// seventh waits `5 * a` seconds and then starts attempt `a + 1` with a new
/// connection.
pub proof fn law_upload_backoff(w: WorkflowView, a: u32, e: EventView, now: u64)
    requires
        1 <= a < 7,
        (w.phase == Phase::UploadConnect(a) && (e is ConnectFailed)) || (w.phase == Phase::Uploading(
            a,
        ) && (e is UploadFailed)),
    ensures
        transition(w, e, now).0.phase == Phase::UploadBackoff(a),
        transition(w, e, now).1.action == ActionView::Sleep((5000 * a) as u64),
        transition(with_phase(w, Phase::UploadBackoff(a)), EventView::Slept, now).0.phase
            == Phase::UploadConnect((a + 1) as u32),
        transition(with_phase(w, Phase::UploadBackoff(a)), EventView::Slept, now).1.action == (
        ActionView::Connect { io_timeout_ms: 0 }),
{
}

/// The unpacking's exit status decides: `0` goes on to check the test
/// binary over a new connection; any other status reads tar's log and then
/// ends the workflow with the error `文件解压失败`.
pub proof fn law_unpack_status_decides(w: WorkflowView, start: u64, out: Seq<char>, log: Seq<char>, now: u64)
    requires
        w.phase == Phase::ExtractPoll(start),
        trim(out).len() > 0,
    ensures
        trim(out) == "0"@ ==> transition(w, EventView::ExecOk(out), now).0.phase == Phase::VerifyConnect
            && transition(w, EventView::ExecOk(out), now).1.action == (ActionView::Connect {
            io_timeout_ms: 0,
        }),
        trim(out) != "0"@ ==> ({
            let (w2, st) = transition(w, EventView::ExecOk(out), now);
            let (w3, st3) = transition(w2, EventView::ExecOk(log), now);
            &&& st.action == ActionView::Exec("tail -20 /tmp/tar.log 2>/dev/null"@)
            &&& w3.phase == Phase::Done
            &&& st3.action is Finish
            &&& st3.notes.last() == NoteView::State(DeviceStateView::Error("文件解压失败"@))
            &&& st3.notes[0] == NoteView::FileLog("解压失败 (exit="@ + trim(out) + "): "@ + log)
        }),
{
}

} // verus!
