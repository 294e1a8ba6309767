//! Scanning an address range for devices: the plan that splits the range
//! into batches and reports progress, and the per-host probe that tries the
//! known logins and reads the device's serial number and MAC address.
use vstd::prelude::*;
use crate::ipv4::{ipv4_text, ipv4_to_string};
use crate::remote::{mac_of_output, opt_string, parse_mac, parse_sn, sn_of_output, unknown_mac};
use crate::text::{dec_text, owned, push_decimal, push_str, trim};
use crate::types::{DeviceInfo, DeviceInfoView, DeviceState, DeviceStateView, WorkerMsg};

verus! {

/// How many hosts are probed at once.
pub const SCAN_BATCH: u32 = 32;

/// A scan of the addresses `start` to `end`, both included.
pub struct ScanPlan {
    pub start: u32,
    pub end: u32,
}

/// Why a scan cannot run.
#[derive(PartialEq, Eq, Structural, Clone, Copy, Debug)]
pub enum ScanError {
    /// The first address is above the last.
    StartAfterEnd,
}

impl ScanError {
    pub open spec fn message_spec(&self) -> Seq<char> {
        "错误: 起始 IP 大于结束 IP"@
    }

    /// The line for the user's log.
    pub fn message(&self) -> (r: String)
        ensures
            r@ == self.message_spec(),
    {
        owned("错误: 起始 IP 大于结束 IP")
    }
}

impl ScanPlan {
    /// How many addresses the scan covers.
    pub open spec fn total_spec(&self) -> int {
        self.end - self.start + 1
    }

    /// How many batches the scan takes.
    pub open spec fn batches_spec(&self) -> int {
        (self.total_spec() + SCAN_BATCH - 1) / (SCAN_BATCH as int)
    }

    /// The first address of batch `k`.
    pub open spec fn batch_first(&self, k: int) -> int {
        self.start + k * SCAN_BATCH
    }

    /// The last address of batch `k`.
    pub open spec fn batch_last(&self, k: int) -> int {
        let l = self.start + k * SCAN_BATCH + SCAN_BATCH - 1;
        if l < self.end {
            l
        } else {
            self.end as int
        }
    }

    /// How many addresses have been probed once batch `k` is done.
    pub open spec fn scanned_after_spec(&self, k: int) -> int {
        let s = (k + 1) * SCAN_BATCH;
        if s < self.total_spec() {
            s
        } else {
            self.total_spec()
        }
    }

    /// Whether the plan describes a nonempty range that a 32-bit count can hold.
    pub open spec fn wf(&self) -> bool {
        self.start <= self.end && self.end - self.start < u32::MAX
    }

    /// Plans a scan from `start` to `end`; refused when `start` is above `end`.
    pub fn new(start: u32, end: u32) -> (r: Result<ScanPlan, ScanError>)
        requires
            end - start < u32::MAX,
        ensures
            match r {
                Ok(p) => p.start == start && p.end == end && p.wf() && start <= end,
                Err(e) => e == ScanError::StartAfterEnd && start > end,
            },
    {
        if start > end {
            Err(ScanError::StartAfterEnd)
        } else {
            Ok(ScanPlan { start, end })
        }
    }

    /// How many addresses the scan covers.
    pub fn total(&self) -> (r: u32)
        requires
            self.wf(),
        ensures
            r == self.total_spec(),
    {
        self.end - self.start + 1
    }

    /// How many batches the scan takes.
    pub fn batches(&self) -> (r: u32)
        requires
            self.wf(),
        ensures
            r == self.batches_spec(),
    {
        let t = self.total() as u64;
        ((t + 31) / 32) as u32
    }

    /// The first and last address of batch `k`.
    pub fn batch(&self, k: u32) -> (r: (u32, u32))
        requires
            self.wf(),
            k < self.batches_spec(),
        ensures
            r.0 == self.batch_first(k as int),
            r.1 == self.batch_last(k as int),
    {
        proof {
            lemma_batch_in_range(self, k as int);
        }
        let first: u64 = self.start as u64 + k as u64 * 32;
        let last: u64 = first + 31;
        let l = if last < self.end as u64 {
            last
        } else {
            self.end as u64
        };
        (first as u32, l as u32)
    }

    /// How many addresses have been probed once batch `k` is done.
    pub fn scanned_after(&self, k: u32) -> (r: u32)
        requires
            self.wf(),
            k < self.batches_spec(),
        ensures
            r == self.scanned_after_spec(k as int),
    {
        let s: u64 = (k as u64 + 1) * 32;
        let t = self.total() as u64;
        if s < t {
            s as u32
        } else {
            t as u32
        }
    }

    pub open spec fn start_message_spec(&self) -> Seq<char> {
        "开始扫描 "@ + ipv4_text(self.start) + " - "@ + ipv4_text(self.end) + " (共 "@ + dec_text(
            self.total_spec() as nat,
        ) + " 个地址)"@
    }

    /// The log line that announces the scan.
    pub fn start_message(&self) -> (r: String)
        requires
            self.wf(),
        ensures
            r@ == self.start_message_spec(),
    {
        let mut s = owned("开始扫描 ");
        push_str(&mut s, ipv4_to_string(self.start).as_str());
        push_str(&mut s, " - ");
        push_str(&mut s, ipv4_to_string(self.end).as_str());
        push_str(&mut s, " (共 ");
        push_decimal(&mut s, self.total() as u128);
        push_str(&mut s, " 个地址)");
        s
    }

    pub open spec fn progress_message_spec(&self, k: int) -> Seq<char> {
        "扫描进度: "@ + dec_text(self.scanned_after_spec(k) as nat) + "/"@ + dec_text(
            self.total_spec() as nat,
        )
    }

    /// The log line after batch `k`.
    pub fn progress_message(&self, k: u32) -> (r: String)
        requires
            self.wf(),
            k < self.batches_spec(),
        ensures
            r@ == self.progress_message_spec(k as int),
    {
        let mut s = owned("扫描进度: ");
        push_decimal(&mut s, self.scanned_after(k) as u128);
        push_str(&mut s, "/");
        push_decimal(&mut s, self.total() as u128);
        s
    }
}

proof fn lemma_batch_in_range(p: &ScanPlan, k: int)
    requires
        p.wf(),
        0 <= k < p.batches_spec(),
    ensures
        p.batch_first(k) <= p.end,
{
    let t = p.total_spec();
    assert(k * 32 < t) by (nonlinear_arith)
        requires
            0 <= k,
            k < (t + 31) / 32,
            t >= 1,
    ;
}

/// The batches of a scan follow one another without gap or overlap, from the
/// first address to the last, and the progress count grows to the total.
pub proof fn law_batches_cover_range(p: ScanPlan, k: int)
    requires
        p.wf(),
        0 <= k < p.batches_spec(),
    ensures
        p.batch_first(0) == p.start,
        p.batch_first(k) <= p.batch_last(k) <= p.end,
        k + 1 < p.batches_spec() ==> p.batch_last(k) + 1 == p.batch_first(k + 1),
        k + 1 == p.batches_spec() ==> p.batch_last(k) == p.end,
        p.scanned_after_spec(k) == p.batch_last(k) - p.start + 1,
        k + 1 == p.batches_spec() ==> p.scanned_after_spec(k) == p.total_spec(),
{
    lemma_batch_in_range(&p, k);
    let t = p.total_spec();
    if k + 1 < p.batches_spec() {
        assert((k + 1) * 32 < t) by (nonlinear_arith)
            requires
                0 <= k,
                k + 1 < (t + 31) / 32,
                t >= 1,
        ;
    } else {
        assert((k + 1) * 32 >= t) by (nonlinear_arith)
            requires
                0 <= k,
                k + 1 == (t + 31) / 32,
                t >= 1,
        ;
    }
}

/// A scan of `start` to `end` probes `end - start + 1` addresses, 32 at a
/// time: every batch but the last holds exactly 32 addresses, and the last
/// holds 1 to 32.
pub proof fn law_batches_of_32(p: ScanPlan, k: int)
    requires
        p.wf(),
        0 <= k < p.batches_spec(),
    ensures
        p.total_spec() == p.end - p.start + 1,
        k + 1 < p.batches_spec() ==> p.batch_last(k) - p.batch_first(k) + 1 == 32,
        1 <= p.batch_last(k) - p.batch_first(k) + 1 <= 32,
        p.batch_first(k) == p.start + 32 * k,
{
    law_batches_cover_range(p, k);
    let t = p.total_spec();
    if k + 1 < p.batches_spec() {
        assert((k + 1) * 32 < t) by (nonlinear_arith)
            requires
                0 <= k,
                k + 1 < (t + 31) / 32,
                t >= 1,
        ;
    }
}

// ---------------------------------------------------------------------------
// Probing one host
// ---------------------------------------------------------------------------

/// The logins tried on each host, in order.
pub open spec fn credentials() -> Seq<(Seq<char>, Seq<char>)> {
    seq![("linaro"@, "linaro"@), ("root"@, "ematech"@), ("admin"@, "admin"@)]
}

/// The user name of login `i`.
pub fn credential_user(i: usize) -> (r: String)
    requires
        i < 3,
    ensures
        r@ == credentials()[i as int].0,
{
    if i == 0 {
        owned("linaro")
    } else if i == 1 {
        owned("root")
    } else {
        owned("admin")
    }
}

/// The password of login `i`.
pub fn credential_password(i: usize) -> (r: String)
    requires
        i < 3,
    ensures
        r@ == credentials()[i as int].1,
{
    if i == 0 {
        owned("linaro")
    } else if i == 1 {
        owned("ematech")
    } else {
        owned("admin")
    }
}

/// Where the probe of a host stands; `i` is the login being tried.
#[derive(Clone, Copy, PartialEq, Eq, Structural, Debug)]
pub enum ProbePhase {
    Init,
    Probing,
    Pause(usize),
    Reconnect(usize),
    Login(usize),
    ReadSn(usize),
    ReadMac(usize),
    Done,
}

/// What the caller is to do next for the probed host.
pub enum ProbeAction {
    /// Open a TCP connection to port 22 with a two-second timeout.
    Probe,
    /// Wait this many milliseconds.
    Sleep(u64),
    /// Open a new TCP connection to port 22 with a five-second timeout.
    Reconnect,
    /// Make an SSH handshake on the open connection and log in with this user
    /// name and password.
    Login { user: String, password: String },
    /// Run this command on the logged-in session and hand back its output,
    /// or `None` when it could not be run or read.
    Query(String),
    /// The probe has ended.
    Finish,
}

/// What came of the last probe action.
pub enum ProbeEvent {
    Start,
    ProbeFailed,
    ProbeOk,
    Slept,
    ReconnectFailed(String),
    Reconnected,
    HandshakeFailed(String),
    AuthFailed(String),
    NotAuthenticated,
    LoggedIn,
    Output(Option<String>),
}

pub enum ProbeActionView {
    Probe,
    Sleep(u64),
    Reconnect,
    Login { user: Seq<char>, password: Seq<char> },
    Query(Seq<char>),
    Finish,
}

pub enum ProbeEventView {
    Start,
    ProbeFailed,
    ProbeOk,
    Slept,
    ReconnectFailed(Seq<char>),
    Reconnected,
    HandshakeFailed(Seq<char>),
    AuthFailed(Seq<char>),
    NotAuthenticated,
    LoggedIn,
    Output(Option<Seq<char>>),
}

/// A worker report, with its texts as characters.
#[verifier::ext_equal]
pub enum WorkerMsgView {
    Log(Seq<char>),
    DeviceFound(DeviceInfoView),
    ScanComplete,
    DeviceStateChanged { ip: Seq<char>, state: DeviceStateView },
}

impl View for WorkerMsg {
    type V = WorkerMsgView;

    open spec fn view(&self) -> WorkerMsgView {
        match self {
            WorkerMsg::Log(t) => WorkerMsgView::Log(t@),
            WorkerMsg::DeviceFound(d) => WorkerMsgView::DeviceFound(d@),
            WorkerMsg::ScanComplete => WorkerMsgView::ScanComplete,
            WorkerMsg::DeviceStateChanged { ip, state } => WorkerMsgView::DeviceStateChanged {
                ip: ip@,
                state: state@,
            },
        }
    }
}

impl View for ProbeAction {
    type V = ProbeActionView;

    open spec fn view(&self) -> ProbeActionView {
        match self {
            ProbeAction::Probe => ProbeActionView::Probe,
            ProbeAction::Sleep(ms) => ProbeActionView::Sleep(*ms),
            ProbeAction::Reconnect => ProbeActionView::Reconnect,
            ProbeAction::Login { user, password } => ProbeActionView::Login {
                user: user@,
                password: password@,
            },
            ProbeAction::Query(c) => ProbeActionView::Query(c@),
            ProbeAction::Finish => ProbeActionView::Finish,
        }
    }
}

impl View for ProbeEvent {
    type V = ProbeEventView;

    open spec fn view(&self) -> ProbeEventView {
        match self {
            ProbeEvent::Start => ProbeEventView::Start,
            ProbeEvent::ProbeFailed => ProbeEventView::ProbeFailed,
            ProbeEvent::ProbeOk => ProbeEventView::ProbeOk,
            ProbeEvent::Slept => ProbeEventView::Slept,
            ProbeEvent::ReconnectFailed(e) => ProbeEventView::ReconnectFailed(e@),
            ProbeEvent::Reconnected => ProbeEventView::Reconnected,
            ProbeEvent::HandshakeFailed(e) => ProbeEventView::HandshakeFailed(e@),
            ProbeEvent::AuthFailed(e) => ProbeEventView::AuthFailed(e@),
            ProbeEvent::NotAuthenticated => ProbeEventView::NotAuthenticated,
            ProbeEvent::LoggedIn => ProbeEventView::LoggedIn,
            ProbeEvent::Output(o) => ProbeEventView::Output(opt_string(*o)),
        }
    }
}

/// The reports of one probe step, in order, and the next action.
pub struct ProbeStep {
    pub reports: Vec<WorkerMsg>,
    pub action: ProbeAction,
}

#[verifier::ext_equal]
pub struct ProbeStepView {
    pub reports: Seq<WorkerMsgView>,
    pub action: ProbeActionView,
}

impl View for ProbeStep {
    type V = ProbeStepView;

    open spec fn view(&self) -> ProbeStepView {
        ProbeStepView { reports: self.reports@.map_values(|m: WorkerMsg| m@), action: self.action@ }
    }
}

/// The probe of the host at `ip`.
pub struct HostProbe {
    pub ip: String,
    pub phase: ProbePhase,
    /// The serial number read from the device.
    pub sn: String,
}

#[verifier::ext_equal]
pub struct HostProbeView {
    pub ip: Seq<char>,
    pub phase: ProbePhase,
    pub sn: Seq<char>,
}

impl View for HostProbe {
    type V = HostProbeView;

    open spec fn view(&self) -> HostProbeView {
        HostProbeView { ip: self.ip@, phase: self.phase, sn: self.sn@ }
    }
}

/// A line of the user's log about the host at `ip`.
pub open spec fn host_line(ip: Seq<char>, msg: Seq<char>) -> Seq<char> {
    ip + ": "@ + msg
}

/// `user:password` as the log shows a login.
pub open spec fn login_text(i: int) -> Seq<char> {
    credentials()[i].0 + ":"@ + credentials()[i].1
}

/// A probe step to phase `p`.
pub open spec fn probe_go(w: HostProbeView, p: ProbePhase, reports: Seq<WorkerMsgView>, a: ProbeActionView) -> (
    HostProbeView,
    ProbeStepView,
) {
    (HostProbeView { phase: p, ..w }, ProbeStepView { reports, action: a })
}

/// After login `i` failed with the report `r`: try the next login after a
/// pause, or give up after the last one.
pub open spec fn next_login(w: HostProbeView, i: int, r: Seq<char>) -> (HostProbeView, ProbeStepView) {
    if i + 1 < 3 {
        probe_go(
            w,
            ProbePhase::Pause((i + 1) as usize),
            seq![WorkerMsgView::Log(r)],
            ProbeActionView::Sleep(1000),
        )
    } else {
        probe_go(
            w,
            ProbePhase::Done,
            seq![
                WorkerMsgView::Log(r),
                WorkerMsgView::Log(host_line(w.ip, "所有凭据均失败"@)),
            ],
            ProbeActionView::Finish,
        )
    }
}

/// The login action for login `i`.
pub open spec fn login_action(i: int) -> ProbeActionView {
    ProbeActionView::Login { user: credentials()[i].0, password: credentials()[i].1 }
}

/// The device record of a host that logged in with login `i`.
pub open spec fn found_device(ip: Seq<char>, sn: Seq<char>, mac: Seq<char>, i: int) -> DeviceInfoView {
    DeviceInfoView {
        sn,
        ip,
        mac,
        username: credentials()[i].0,
        password: credentials()[i].1,
        state: DeviceStateView::Discovered,
        selected: true,
    }
}

/// One step of the probe `w` on `event`.
pub open spec fn probe_transition(w: HostProbeView, event: ProbeEventView) -> (HostProbeView, ProbeStepView) {
    let ip = w.ip;
    match w.phase {
        ProbePhase::Init => probe_go(w, ProbePhase::Probing, seq![], ProbeActionView::Probe),
        ProbePhase::Probing => match event {
            ProbeEventView::ProbeOk => probe_go(
                w,
                ProbePhase::Login(0),
                seq![WorkerMsgView::Log(host_line(ip, "SSH 端口开放"@))],
                login_action(0),
            ),
            _ => probe_go(w, ProbePhase::Done, seq![], ProbeActionView::Finish),
        },
        ProbePhase::Pause(i) => probe_go(w, ProbePhase::Reconnect(i), seq![], ProbeActionView::Reconnect),
        ProbePhase::Reconnect(i) => match event {
            ProbeEventView::Reconnected => probe_go(w, ProbePhase::Login(i), seq![], login_action(i as int)),
            ProbeEventView::ReconnectFailed(e) => next_login(
                w,
                i as int,
                host_line(ip, "重连失败: "@ + e),
            ),
            _ => probe_go(w, ProbePhase::Done, seq![], ProbeActionView::Finish),
        },
        ProbePhase::Login(i) => match event {
            ProbeEventView::HandshakeFailed(e) => next_login(
                w,
                i as int,
                host_line(ip, login_text(i as int) + " 握手失败: "@ + e),
            ),
            ProbeEventView::AuthFailed(e) => next_login(
                w,
                i as int,
                host_line(ip, login_text(i as int) + " 认证失败 - "@ + e),
            ),
            ProbeEventView::NotAuthenticated => next_login(
                w,
                i as int,
                host_line(ip, login_text(i as int) + " 未通过认证"@),
            ),
            ProbeEventView::LoggedIn => probe_go(
                w,
                ProbePhase::ReadSn(i),
                seq![WorkerMsgView::Log(host_line(ip, "使用 "@ + login_text(i as int) + " 登录成功"@))],
                ProbeActionView::Query(crate::remote::sn_query_spec()),
            ),
            _ => probe_go(w, ProbePhase::Done, seq![], ProbeActionView::Finish),
        },
        ProbePhase::ReadSn(i) => {
            let sn = match event {
                ProbeEventView::Output(Some(out)) => sn_of_output(out),
                _ => None,
            };
            match sn {
                Some(s) => (
                    HostProbeView { phase: ProbePhase::ReadMac(i), sn: s, ..w },
                    ProbeStepView {
                        reports: seq![],
                        action: ProbeActionView::Query(crate::remote::mac_query_spec()),
                    },
                ),
                None => probe_go(
                    w,
                    ProbePhase::Done,
                    seq![
                        WorkerMsgView::Log(host_line(ip, "bm_get_basic_info 未返回有效 SN, 跳过"@)),
                    ],
                    ProbeActionView::Finish,
                ),
            }
        },
        ProbePhase::ReadMac(i) => {
            let mac = match event {
                ProbeEventView::Output(Some(out)) => match mac_of_output(out) {
                    Some(m) => m,
                    None => unknown_mac(),
                },
                _ => unknown_mac(),
            };
            probe_go(
                w,
                ProbePhase::Done,
                seq![
                    WorkerMsgView::Log(host_line(ip, "SN="@ + w.sn + ", MAC="@ + mac)),
                    WorkerMsgView::DeviceFound(found_device(ip, w.sn, mac, i as int)),
                ],
                ProbeActionView::Finish,
            )
        },
        ProbePhase::Done => probe_go(w, ProbePhase::Done, seq![], ProbeActionView::Finish),
    }
}

/// The events that can answer the action pending in `phase`.
pub open spec fn probe_accepts(phase: ProbePhase, event: ProbeEventView) -> bool {
    match phase {
        ProbePhase::Init => event is Start,
        ProbePhase::Probing => event is ProbeOk || event is ProbeFailed,
        ProbePhase::Pause(_) => event is Slept,
        ProbePhase::Reconnect(_) => event is Reconnected || event is ReconnectFailed,
        ProbePhase::Login(_) => event is HandshakeFailed || event is AuthFailed
            || event is NotAuthenticated || event is LoggedIn,
        ProbePhase::ReadSn(_) | ProbePhase::ReadMac(_) => event is Output,
        ProbePhase::Done => true,
    }
}

/// The login numbers stay within the list of logins.
pub open spec fn probe_wf(w: HostProbeView) -> bool {
    match w.phase {
        ProbePhase::Pause(i) | ProbePhase::Reconnect(i) => 1 <= i < 3,
        ProbePhase::Login(i) | ProbePhase::ReadSn(i) | ProbePhase::ReadMac(i) => i < 3,
        _ => true,
    }
}

fn host_line_exec(ip: &str, msg: &str) -> (r: String)
    ensures
        r@ == host_line(ip@, msg@),
{
    let mut s = owned(ip);
    push_str(&mut s, ": ");
    push_str(&mut s, msg);
    s
}

fn login_text_exec(i: usize) -> (r: String)
    requires
        i < 3,
    ensures
        r@ == login_text(i as int),
{
    let mut s = credential_user(i);
    push_str(&mut s, ":");
    push_str(&mut s, credential_password(i).as_str());
    s
}

fn login_action_exec(i: usize) -> (r: ProbeAction)
    requires
        i < 3,
    ensures
        r@ == login_action(i as int),
{
    ProbeAction::Login { user: credential_user(i), password: credential_password(i) }
}

impl HostProbe {
    /// A probe of the host at `ip`.
    pub fn new(ip: String) -> (r: HostProbe)
        ensures
            r@ == (HostProbeView { ip: ip@, phase: ProbePhase::Init, sn: Seq::<char>::empty() }),
    {
        HostProbe { ip, phase: ProbePhase::Init, sn: String::new() }
    }

    fn go(&mut self, p: ProbePhase, reports: Vec<WorkerMsg>, a: ProbeAction) -> (r: ProbeStep)
        ensures
            (final(self)@, r@) == probe_go(
                old(self)@,
                p,
                reports@.map_values(|m: WorkerMsg| m@),
                a@,
            ),
    {
        self.phase = p;
        ProbeStep { reports, action: a }
    }

    fn next_login_exec(&mut self, i: usize, r: String) -> (res: ProbeStep)
        requires
            i < 3,
        ensures
            (final(self)@, res@) == next_login(old(self)@, i as int, r@),
    {
        let mut reports: Vec<WorkerMsg> = Vec::new();
        reports.push(WorkerMsg::Log(r));
        if i + 1 < 3 {
            self.go(ProbePhase::Pause(i + 1), reports, ProbeAction::Sleep(1000))
        } else {
            reports.push(WorkerMsg::Log(host_line_exec(self.ip.as_str(), "所有凭据均失败")));
            self.go(ProbePhase::Done, reports, ProbeAction::Finish)
        }
    }

    /// Takes the outcome of the pending action, and gives the reports to make
    /// and the next action.
    pub fn step(&mut self, event: ProbeEvent) -> (r: ProbeStep)
        requires
            probe_accepts(old(self).phase, event@),
            probe_wf(old(self)@),
        ensures
            (final(self)@, r@) == probe_transition(old(self)@, event@),
            probe_wf(final(self)@),
    {
        let empty: Vec<WorkerMsg> = Vec::new();
        proof {
            assert(empty@.map_values(|m: WorkerMsg| m@) == Seq::<WorkerMsgView>::empty());
        }
        match self.phase {
            ProbePhase::Init => self.go(ProbePhase::Probing, empty, ProbeAction::Probe),
            ProbePhase::Probing => match event {
                ProbeEvent::ProbeOk => {
                    let mut reports: Vec<WorkerMsg> = Vec::new();
                    reports.push(WorkerMsg::Log(host_line_exec(self.ip.as_str(), "SSH 端口开放")));
                    self.go(ProbePhase::Login(0), reports, login_action_exec(0))
                },
                _ => self.go(ProbePhase::Done, empty, ProbeAction::Finish),
            },
            ProbePhase::Pause(i) => self.go(ProbePhase::Reconnect(i), empty, ProbeAction::Reconnect),
            ProbePhase::Reconnect(i) => match event {
                ProbeEvent::Reconnected => self.go(ProbePhase::Login(i), empty, login_action_exec(i)),
                ProbeEvent::ReconnectFailed(e) => {
                    let m = crate::text::concat2("重连失败: ", e.as_str());
                    let r = host_line_exec(self.ip.as_str(), m.as_str());
                    self.next_login_exec(i, r)
                },
                _ => self.go(ProbePhase::Done, empty, ProbeAction::Finish),
            },
            ProbePhase::Login(i) => match event {
                ProbeEvent::HandshakeFailed(e) => {
                    let mut m = login_text_exec(i);
                    push_str(&mut m, " 握手失败: ");
                    push_str(&mut m, e.as_str());
                    let r = host_line_exec(self.ip.as_str(), m.as_str());
                    self.next_login_exec(i, r)
                },
                ProbeEvent::AuthFailed(e) => {
                    let mut m = login_text_exec(i);
                    push_str(&mut m, " 认证失败 - ");
                    push_str(&mut m, e.as_str());
                    let r = host_line_exec(self.ip.as_str(), m.as_str());
                    self.next_login_exec(i, r)
                },
                ProbeEvent::NotAuthenticated => {
                    let mut m = login_text_exec(i);
                    push_str(&mut m, " 未通过认证");
                    let r = host_line_exec(self.ip.as_str(), m.as_str());
                    self.next_login_exec(i, r)
                },
                ProbeEvent::LoggedIn => {
                    let mut m = owned("使用 ");
                    push_str(&mut m, login_text_exec(i).as_str());
                    push_str(&mut m, " 登录成功");
                    let mut reports: Vec<WorkerMsg> = Vec::new();
                    reports.push(WorkerMsg::Log(host_line_exec(self.ip.as_str(), m.as_str())));
                    self.go(ProbePhase::ReadSn(i), reports, ProbeAction::Query(crate::remote::sn_query()))
                },
                _ => self.go(ProbePhase::Done, empty, ProbeAction::Finish),
            },
            ProbePhase::ReadSn(i) => {
                let sn = match event {
                    ProbeEvent::Output(Some(out)) => parse_sn(out.as_str()),
                    _ => None,
                };
                match sn {
                    Some(s) => {
                        self.sn = s;
                        self.go(
                            ProbePhase::ReadMac(i),
                            empty,
                            ProbeAction::Query(crate::remote::mac_query()),
                        )
                    },
                    None => {
                        let mut reports: Vec<WorkerMsg> = Vec::new();
                        reports.push(
                            WorkerMsg::Log(
                                host_line_exec(self.ip.as_str(), "bm_get_basic_info 未返回有效 SN, 跳过"),
                            ),
                        );
                        self.go(ProbePhase::Done, reports, ProbeAction::Finish)
                    },
                }
            },
            ProbePhase::ReadMac(i) => {
                let mac = match event {
                    ProbeEvent::Output(Some(out)) => match parse_mac(out.as_str()) {
                        Some(m) => m,
                        None => owned("unknown"),
                    },
                    _ => owned("unknown"),
                };
                let mut m = owned("SN=");
                push_str(&mut m, self.sn.as_str());
                push_str(&mut m, ", MAC=");
                push_str(&mut m, mac.as_str());
                let line = host_line_exec(self.ip.as_str(), m.as_str());
                let dev = DeviceInfo {
                    sn: self.sn.clone(),
                    ip: self.ip.clone(),
                    mac,
                    username: credential_user(i),
                    password: credential_password(i),
                    state: DeviceState::Discovered,
                    selected: true,
                };
                let mut reports: Vec<WorkerMsg> = Vec::new();
                reports.push(WorkerMsg::Log(line));
                reports.push(WorkerMsg::DeviceFound(dev));
                self.go(ProbePhase::Done, reports, ProbeAction::Finish)
            },
            ProbePhase::Done => self.go(ProbePhase::Done, empty, ProbeAction::Finish),
        }
    }
}

/// A probe reports at most one device, only after a login succeeded and a
/// serial number was read, and then ends; a host whose port is closed ends
/// the probe without any report.
pub proof fn law_probe_reports_device_once(w: HostProbeView, e: ProbeEventView)
    requires
        probe_wf(w),
        probe_accepts(w.phase, e),
    ensures
        ({
            let (w2, st) = probe_transition(w, e);
            &&& (exists|i: int| 0 <= i < st.reports.len() && #[trigger] st.reports[i] is DeviceFound)
                ==> (w.phase matches ProbePhase::ReadMac(_) && w2.phase == ProbePhase::Done
                && st.action is Finish)
            &&& (w.phase == ProbePhase::Probing && e is ProbeFailed) ==> (st.reports.len() == 0
                && st.action is Finish)
        }),
{
    let (w2, st) = probe_transition(w, e);
    if exists|i: int| 0 <= i < st.reports.len() && #[trigger] st.reports[i] is DeviceFound {
        let i = choose|i: int| 0 <= i < st.reports.len() && #[trigger] st.reports[i] is DeviceFound;
        match w.phase {
            ProbePhase::ReadMac(_) => {},
            _ => {
                assert(!(st.reports[i] is DeviceFound));
            },
        }
    }
}

/// The logins are tried in the listed order, each at most once: a new login
/// is the next in the list, and after the last one fails the probe ends.
pub proof fn law_logins_in_order(w: HostProbeView, e: ProbeEventView)
    requires
        probe_wf(w),
        probe_accepts(w.phase, e),
    ensures
        ({
            let (w2, st) = probe_transition(w, e);
            &&& st.action is Login ==> (w2.phase matches ProbePhase::Login(j) && st.action
                == login_action(j as int) && (j == 0 ==> w.phase == ProbePhase::Probing) && (j > 0
                ==> w.phase == ProbePhase::Reconnect(j)))
            &&& w2.phase matches ProbePhase::Pause(j) ==> (w.phase == ProbePhase::Login((j - 1) as usize)
                || w.phase == ProbePhase::Reconnect((j - 1) as usize))
        }),
{
}


/// The device a probe reports carries the MAC address that the MAC query
/// printed (without surrounding whitespace), or `unknown` when the query
/// gave nothing; with it go the address, the serial number read before, the
/// login that worked, the discovered state and the selection. The log line
/// before it shows the serial number and that MAC address.
pub proof fn law_probe_reports_read_mac(w: HostProbeView, i: usize, out: Option<Seq<char>>)
    requires
        w.phase == ProbePhase::ReadMac(i),
        i < 3,
    ensures
        ({
            let (w2, st) = probe_transition(w, ProbeEventView::Output(out));
            let mac = match out {
                Some(o) => if trim(o).len() > 0 {
                    trim(o)
                } else {
                    "unknown"@
                },
                None => "unknown"@,
            };
            &&& w2.phase == ProbePhase::Done
            &&& st.action is Finish
            &&& st.reports == seq![
                WorkerMsgView::Log(w.ip + ": "@ + ("SN="@ + w.sn + ", MAC="@ + mac)),
                WorkerMsgView::DeviceFound(
                    DeviceInfoView {
                        sn: w.sn,
                        ip: w.ip,
                        mac,
                        username: credentials()[i as int].0,
                        password: credentials()[i as int].1,
                        state: DeviceStateView::Discovered,
                        selected: true,
                    },
                ),
            ]
        }),
{
}

/// After a login, the serial number that the query's output gives is kept
/// for the report and the MAC address is asked next; without one the probe
/// ends with a log line and reports no device.
pub proof fn law_probe_keeps_read_sn(w: HostProbeView, i: usize, out: Option<Seq<char>>)
    requires
        w.phase == ProbePhase::ReadSn(i),
        i < 3,
    ensures
        ({
            let (w2, st) = probe_transition(w, ProbeEventView::Output(out));
            match out {
                Some(o) => match sn_of_output(o) {
                    Some(sn) => w2 == (HostProbeView { phase: ProbePhase::ReadMac(i), sn, ..w })
                        && st.reports.len() == 0 && st.action is Query,
                    None => w2.phase == ProbePhase::Done && st.action is Finish && st.reports.len() == 1
                        && st.reports[0] is Log,
                },
                None => w2.phase == ProbePhase::Done && st.action is Finish && st.reports.len() == 1
                    && st.reports[0] is Log,
            }
        }),
{
}
} // verus!
