//! The state that the web interface shows and changes: interfaces, scan
//! range, test settings, devices, the log, and the scan and test flags; how
//! worker reports update it; and what each request of the web interface does.
use vstd::prelude::*;
use crate::ipv4::{ipv4_of, ipv4_text, parse_ipv4, scan_bounds, scan_range_defined, scan_range_is_defined, compute_scan_range};
use crate::platform::{clock_hms, interfaces_view, is_clock_text, json_str_at, json_str_field, json_u64_at, json_u64_field};
use crate::remote::opt_string;
use crate::scan::WorkerMsgView;
use crate::text::{dec_text, owned, push_decimal, push_str, str_equal};
use crate::types::{
    AgingDuration, DeviceInfo, DeviceInfoView, DeviceState, DeviceStateView, InterfaceView,
    NetworkInterface, WorkerMsg,
};

verus! {

/// The state behind the web interface.
pub struct SharedState {
    pub interfaces: Vec<NetworkInterface>,
    pub selected_iface_idx: usize,
    pub scan_start: String,
    pub scan_end: String,
    pub test_program: String,
    pub duration: AgingDuration,
    pub upload_buf_kb: u32,
    pub devices: Vec<DeviceInfo>,
    pub log_lines: Vec<String>,
    pub scanning: bool,
    pub testing: bool,
    pub show_confirm: bool,
}

#[verifier::ext_equal]
pub struct StateView {
    pub interfaces: Seq<InterfaceView>,
    pub selected_iface_idx: usize,
    pub scan_start: Seq<char>,
    pub scan_end: Seq<char>,
    pub test_program: Seq<char>,
    pub duration: AgingDuration,
    pub upload_buf_kb: u32,
    pub devices: Seq<DeviceInfoView>,
    pub log_lines: Seq<Seq<char>>,
    pub scanning: bool,
    pub testing: bool,
    pub show_confirm: bool,
}

/// The views of a list of devices.
pub open spec fn devices_view(v: Seq<DeviceInfo>) -> Seq<DeviceInfoView> {
    v.map_values(|d: DeviceInfo| d@)
}

/// The views of a list of strings.
pub open spec fn lines_view(v: Seq<String>) -> Seq<Seq<char>> {
    v.map_values(|s: String| s@)
}

impl View for SharedState {
    type V = StateView;

    open spec fn view(&self) -> StateView {
        StateView {
            interfaces: interfaces_view(self.interfaces@),
            selected_iface_idx: self.selected_iface_idx,
            scan_start: self.scan_start@,
            scan_end: self.scan_end@,
            test_program: self.test_program@,
            duration: self.duration,
            upload_buf_kb: self.upload_buf_kb,
            devices: devices_view(self.devices@),
            log_lines: lines_view(self.log_lines@),
            scanning: self.scanning,
            testing: self.testing,
            show_confirm: self.show_confirm,
        }
    }
}

/// Whether the interface that `idx` chooses, when it names one, has a scan
/// range within the address space.
pub open spec fn chosen_range_defined(ifs: Seq<InterfaceView>, idx: Option<u64>) -> bool {
    match idx {
        Some(i) => i < ifs.len() ==> scan_range_defined(ifs[i as int].ip, ifs[i as int].netmask),
        None => true,
    }
}

/// A log line: the time of day in brackets, then the message.
pub open spec fn stamped(ts: Seq<char>, msg: Seq<char>) -> Seq<char> {
    "["@ + ts + "] "@ + msg
}

/// `s` with `msg` logged at `ts`.
pub open spec fn logged(s: StateView, ts: Seq<char>, msg: Seq<char>) -> StateView {
    StateView { log_lines: s.log_lines.push(stamped(ts, msg)), ..s }
}

/// The selected devices, in order.
pub open spec fn selected_devices(devs: Seq<DeviceInfoView>) -> Seq<DeviceInfoView> {
    devs.filter(|d: DeviceInfoView| d.selected)
}

/// Whether every selected device's test has ended.
pub open spec fn all_selected_finished(devs: Seq<DeviceInfoView>) -> bool {
    forall|i: int| 0 <= i < devs.len() && #[trigger] devs[i].selected ==> devs[i].state.is_terminal()
}

/// Whether `i` is the first device with address `ip`.
pub open spec fn is_first_with_ip(devs: Seq<DeviceInfoView>, ip: Seq<char>, i: int) -> bool {
    0 <= i < devs.len() && devs[i].ip == ip && forall|j: int| 0 <= j < i ==> #[trigger] devs[j].ip != ip
}

/// `devs` with the first device at address `ip` moved to `st`.
pub open spec fn set_state_of(devs: Seq<DeviceInfoView>, ip: Seq<char>, st: DeviceStateView) -> Seq<
    DeviceInfoView,
> {
    if exists|i: int| is_first_with_ip(devs, ip, i) {
        let i = choose|i: int| is_first_with_ip(devs, ip, i);
        devs.update(i, DeviceInfoView { state: st, ..devs[i] })
    } else {
        devs
    }
}

/// The check after a device changes state: while testing, once every
/// selected device has ended, testing stops and the log says so.
pub open spec fn check_done_spec(s: StateView, ts: Seq<char>) -> StateView {
    if s.testing && all_selected_finished(s.devices) {
        logged(StateView { testing: false, ..s }, ts, "所有选中设备测试已完成"@)
    } else {
        s
    }
}

/// What a worker report does to the state, at time of day `ts`.
pub open spec fn process_spec(s: StateView, m: WorkerMsgView, ts: Seq<char>) -> StateView {
    match m {
        WorkerMsgView::Log(text) => logged(s, ts, text),
        WorkerMsgView::DeviceFound(d) => StateView { devices: s.devices.push(d), ..s },
        WorkerMsgView::ScanComplete => {
            let count = s.devices.len();
            let s1 = logged(
                StateView { scanning: false, ..s },
                ts,
                "扫描完成, 发现 "@ + dec_text(count) + " 台设备"@,
            );
            if count > 0 {
                StateView { show_confirm: true, ..s1 }
            } else {
                s1
            }
        },
        WorkerMsgView::DeviceStateChanged { ip, state } => check_done_spec(
            StateView { devices: set_state_of(s.devices, ip, state), ..s },
            ts,
        ),
    }
}

/// Choosing interface `idx`: a valid index selects it and resets the scan
/// range to the interface's; anything else changes nothing.
pub open spec fn set_interface_spec(s: StateView, idx: Option<u64>) -> StateView {
    match idx {
        Some(i) => if i < s.interfaces.len() {
            let f = s.interfaces[i as int];
            StateView {
                selected_iface_idx: i as usize,
                scan_start: ipv4_text(scan_bounds(f.ip, f.netmask).0 as u32),
                scan_end: ipv4_text(scan_bounds(f.ip, f.netmask).1 as u32),
                ..s
            }
        } else {
            s
        },
        None => s,
    }
}

/// Flipping the selection of device `idx`, refused while testing.
pub open spec fn toggle_spec(s: StateView, idx: Option<u64>) -> StateView {
    match idx {
        Some(i) => if i < s.devices.len() && !s.testing {
            StateView {
                devices: s.devices.update(
                    i as int,
                    DeviceInfoView { selected: !s.devices[i as int].selected, ..s.devices[i as int] },
                ),
                ..s
            }
        } else {
            s
        },
        None => s,
    }
}

/// Selecting (`on`) or deselecting every device, refused while testing.
pub open spec fn select_all_spec(s: StateView, on: bool) -> StateView {
    if s.testing {
        s
    } else {
        StateView {
            devices: Seq::new(
                s.devices.len(),
                |i: int| DeviceInfoView { selected: on, ..s.devices[i] },
            ),
            ..s
        }
    }
}

/// The upload buffer size from a form field: the field as a 32-bit number
/// (its low 32 bits), kept when it is 1 to 1024 kB.
pub open spec fn buf_kb_spec(old_kb: u32, field: Option<u64>) -> u32 {
    match field {
        Some(b) => {
            let t = (b % 0x1_0000_0000) as u32;
            if 1 <= t <= 1024 {
                t
            } else {
                old_kb
            }
        },
        None => old_kb,
    }
}

/// The duration from a form field, when it names one.
pub open spec fn duration_spec(old_d: AgingDuration, field: Option<Seq<char>>) -> AgingDuration {
    match field {
        Some(v) => match AgingDuration::of_value(v) {
            Some(d) => d,
            None => old_d,
        },
        None => old_d,
    }
}

/// A text setting from a form field, when present.
pub open spec fn text_spec(old_t: Seq<char>, field: Option<Seq<char>>) -> Seq<char> {
    match field {
        Some(v) => v,
        None => old_t,
    }
}

/// The test settings a test request carries.
pub open spec fn test_settings_spec(
    s: StateView,
    program: Option<Seq<char>>,
    duration: Option<Seq<char>>,
    buf_kb: Option<u64>,
) -> StateView {
    StateView {
        test_program: text_spec(s.test_program, program),
        duration: duration_spec(s.duration, duration),
        upload_buf_kb: buf_kb_spec(s.upload_buf_kb, buf_kb),
        ..s
    }
}

/// The settings a settings request carries.
pub open spec fn update_settings_spec(
    s: StateView,
    program: Option<Seq<char>>,
    start: Option<Seq<char>>,
    end: Option<Seq<char>>,
    duration: Option<Seq<char>>,
    buf_kb: Option<u64>,
) -> StateView {
    StateView {
        test_program: text_spec(s.test_program, program),
        scan_start: text_spec(s.scan_start, start),
        scan_end: text_spec(s.scan_end, end),
        duration: duration_spec(s.duration, duration),
        upload_buf_kb: buf_kb_spec(s.upload_buf_kb, buf_kb),
        ..s
    }
}

/// Why a request of the web interface was refused.
#[derive(PartialEq, Eq, Structural, Clone, Copy, Debug)]
pub enum ApiError {
    /// A scan or test is under way.
    Busy,
    /// There is no network interface to scan from.
    NoInterface,
    /// The first address of the scan range is not an IPv4 address.
    BadStart,
    /// The last address of the scan range is not an IPv4 address.
    BadEnd,
    /// No test program is set.
    NoProgram,
    /// The test program file does not exist.
    ProgramMissing,
    /// No device is selected.
    NoDeviceSelected,
}

impl ApiError {
    pub open spec fn message_spec(&self) -> Seq<char> {
        match self {
            ApiError::Busy => "正在扫描或测试中"@,
            ApiError::NoInterface => "无可用网络接口"@,
            ApiError::BadStart => "无效的起始 IP 地址"@,
            ApiError::BadEnd => "无效的结束 IP 地址"@,
            ApiError::NoProgram => "请先设置产测程序路径"@,
            ApiError::ProgramMissing => "产测程序文件不存在"@,
            ApiError::NoDeviceSelected => "未选择任何设备"@,
        }
    }

    /// The error text that the web interface shows.
    pub fn message(&self) -> (r: String)
        ensures
            r@ == self.message_spec(),
    {
        match self {
            ApiError::Busy => owned("正在扫描或测试中"),
            ApiError::NoInterface => owned("无可用网络接口"),
            ApiError::BadStart => owned("无效的起始 IP 地址"),
            ApiError::BadEnd => owned("无效的结束 IP 地址"),
            ApiError::NoProgram => owned("请先设置产测程序路径"),
            ApiError::ProgramMissing => owned("产测程序文件不存在"),
            ApiError::NoDeviceSelected => owned("未选择任何设备"),
        }
    }
}

/// A scan request with the scan range fields `start` and `end` at time of
/// day `ts`: refused while busy or without interfaces; otherwise the fields
/// given replace the range, which must read as two addresses (a bad one is
/// logged); then the device list is cleared and scanning begins.
pub open spec fn begin_scan_spec(
    s: StateView,
    start: Option<Seq<char>>,
    end: Option<Seq<char>>,
    ts: Seq<char>,
) -> (StateView, Result<(u32, u32), ApiError>) {
    if s.scanning || s.testing {
        (s, Err(ApiError::Busy))
    } else if s.interfaces.len() == 0 {
        (s, Err(ApiError::NoInterface))
    } else {
        let s1 = StateView {
            scan_start: text_spec(s.scan_start, start),
            scan_end: text_spec(s.scan_end, end),
            ..s
        };
        match ipv4_of(s1.scan_start) {
            None => (logged(s1, ts, "错误: 无效的起始 IP 地址"@), Err(ApiError::BadStart)),
            Some(a) => match ipv4_of(s1.scan_end) {
                None => (logged(s1, ts, "错误: 无效的结束 IP 地址"@), Err(ApiError::BadEnd)),
                Some(b) => (
                    StateView { devices: Seq::<DeviceInfoView>::empty(), scanning: true, ..s1 },
                    Ok((a, b)),
                ),
            },
        }
    }
}

/// What a started test run works on.
pub struct TestLaunch {
    /// The selected devices, in order.
    pub devices: Vec<DeviceInfo>,
    /// The test program's path.
    pub program: String,
    pub duration: AgingDuration,
    /// The upload buffer size in bytes.
    pub buf_size: u64,
}

pub struct TestLaunchView {
    pub devices: Seq<DeviceInfoView>,
    pub program: Seq<char>,
    pub duration: AgingDuration,
    pub buf_size: u64,
}

impl View for TestLaunch {
    type V = TestLaunchView;

    open spec fn view(&self) -> TestLaunchView {
        TestLaunchView {
            devices: devices_view(self.devices@),
            program: self.program@,
            duration: self.duration,
            buf_size: self.buf_size,
        }
    }
}

/// Whether a test start's result is the one described.
pub open spec fn launch_matches(r: Result<TestLaunch, ApiError>, rv: Result<TestLaunchView, ApiError>) -> bool {
    match (r, rv) {
        (Ok(l), Ok(lv)) => l@ == lv,
        (Err(e), Err(ev)) => e == ev,
        _ => false,
    }
}

/// Starting a test run at time of day `ts`, when `program_exists` tells
/// whether the test program's file is there: refused (and logged) without a
/// program, without its file, or without a selected device; otherwise
/// testing begins, the log counts the devices, and the run takes the
/// selected devices, the program, the duration and the buffer size.
pub open spec fn start_test_spec(s: StateView, program_exists: bool, ts: Seq<char>) -> (
    StateView,
    Result<TestLaunchView, ApiError>,
) {
    if s.test_program.len() == 0 {
        (logged(s, ts, "错误: 请先设置产测程序路径"@), Err(ApiError::NoProgram))
    } else if !program_exists {
        (logged(s, ts, "错误: 产测程序文件不存在"@), Err(ApiError::ProgramMissing))
    } else {
        let sel = selected_devices(s.devices);
        if sel.len() == 0 {
            (logged(s, ts, "错误: 未选择任何设备"@), Err(ApiError::NoDeviceSelected))
        } else {
            (
                logged(
                    StateView { testing: true, ..s },
                    ts,
                    "开始测试 "@ + dec_text(sel.len()) + " 台设备..."@,
                ),
                Ok(
                    TestLaunchView {
                        devices: sel,
                        program: s.test_program,
                        duration: s.duration,
                        buf_size: (s.upload_buf_kb * 1024) as u64,
                    },
                ),
            )
        }
    }
}

/// The color that shows a device state.
pub open spec fn state_color_spec(st: DeviceStateView) -> Seq<char> {
    match st {
        DeviceStateView::Passed => "#16a34a"@,
        DeviceStateView::Failed => "#dc2626"@,
        DeviceStateView::Error(_) => "#ea580c"@,
        DeviceStateView::Testing => "#d97706"@,
        DeviceStateView::Transferring { .. } => "#1a73e8"@,
        DeviceStateView::Extracting => "#7c3aed"@,
        DeviceStateView::Discovered => "#666666"@,
    }
}

/// The CSS color that shows a device state.
pub fn state_color_css(state: &DeviceState) -> (r: &'static str)
    ensures
        r@ == state_color_spec(state@),
{
    match state {
        DeviceState::Passed => "#16a34a",
        DeviceState::Failed => "#dc2626",
        DeviceState::Error(_) => "#ea580c",
        DeviceState::Testing => "#d97706",
        DeviceState::Transferring { .. } => "#1a73e8",
        DeviceState::Extracting => "#7c3aed",
        DeviceState::Discovered => "#666666",
    }
}

fn stamped_exec(ts: &str, msg: &str) -> (r: String)
    ensures
        r@ == stamped(ts@, msg@),
{
    let mut s = owned("[");
    push_str(&mut s, ts);
    push_str(&mut s, "] ");
    push_str(&mut s, msg);
    s
}

impl SharedState {
    /// The state at start-up with the machine's `interfaces` and, when the
    /// default test program was found, its path: the first interface's scan
    /// range, a five-minute test, a 64 kB upload buffer, and nothing else yet.
    pub fn new(interfaces: Vec<NetworkInterface>, default_program: Option<String>) -> (r: SharedState)
        requires
            interfaces@.len() > 0 ==> scan_range_defined(interfaces@[0].ip, interfaces@[0].netmask),
        ensures
            r@.interfaces == interfaces_view(interfaces@),
            r@.selected_iface_idx == 0,
            interfaces@.len() > 0 ==> r@.scan_start == ipv4_text(
                scan_bounds(interfaces@[0].ip, interfaces@[0].netmask).0 as u32,
            ) && r@.scan_end == ipv4_text(
                scan_bounds(interfaces@[0].ip, interfaces@[0].netmask).1 as u32,
            ),
            interfaces@.len() == 0 ==> r@.scan_start.len() == 0 && r@.scan_end.len() == 0,
            r@.test_program == match opt_string(default_program) {
                Some(p) => p,
                None => Seq::<char>::empty(),
            },
            r@.duration == AgingDuration::Min5,
            r@.upload_buf_kb == 64,
            r@.devices.len() == 0,
            r@.log_lines.len() == 0,
            !r@.scanning,
            !r@.testing,
            !r@.show_confirm,
    {
        let (scan_start, scan_end) = if interfaces.len() > 0 {
            compute_scan_range(&interfaces[0])
        } else {
            (String::new(), String::new())
        };
        let test_program = match default_program {
            Some(p) => p,
            None => String::new(),
        };
        let r = SharedState {
            interfaces,
            selected_iface_idx: 0,
            scan_start,
            scan_end,
            test_program,
            duration: AgingDuration::Min5,
            upload_buf_kb: 64,
            devices: Vec::new(),
            log_lines: Vec::new(),
            scanning: false,
            testing: false,
            show_confirm: false,
        };
        proof {
            assert(devices_view(r.devices@).len() == 0);
            assert(lines_view(r.log_lines@).len() == 0);
        }
        r
    }

    /// Logs `msg` stamped with `ts`.
    pub fn add_log_at(&mut self, ts: &str, msg: &str)
        ensures
            final(self)@ == logged(old(self)@, ts@, msg@),
    {
        let line = stamped_exec(ts, msg);
        self.log_lines.push(line);
        proof {
            assert(lines_view(self.log_lines@) == lines_view(old(self).log_lines@).push(
                stamped(ts@, msg@),
            ));
        }
    }

    /// Logs `msg` stamped with the local time of day.
    pub fn add_log(&mut self, msg: &str)
        ensures
            exists|ts: Seq<char>| is_clock_text(ts) && final(self)@ == logged(old(self)@, ts, msg@),
    {
        let ts = clock_hms();
        self.add_log_at(ts.as_str(), msg);
    }

    /// Once every selected device has ended while testing, stops testing and
    /// logs it with the stamp `ts`.
    pub fn check_all_tests_done_at(&mut self, ts: &str)
        ensures
            final(self)@ == check_done_spec(old(self)@, ts@),
    {
        if !self.testing {
            return;
        }
        let n = self.devices.len();
        let mut i: usize = 0;
        while i < n
            invariant
                n == self.devices@.len(),
                i <= n,
                self@ == old(self)@,
                self.testing,
                forall|j: int|
                    0 <= j < i && #[trigger] devices_view(self.devices@)[j].selected ==> devices_view(
                        self.devices@,
                    )[j].state.is_terminal(),
            decreases n - i,
        {
            let d = &self.devices[i];
            if d.selected && !d.state.is_finished() {
                proof {
                    assert(devices_view(self.devices@)[i as int] == self.devices@[i as int]@);
                    assert(devices_view(self.devices@)[i as int].selected);
                    assert(!all_selected_finished(self@.devices));
                }
                return;
            }
            proof {
                assert(devices_view(self.devices@)[i as int] == self.devices@[i as int]@);
            }
            i = i + 1;
        }
        self.testing = false;
        self.add_log_at(ts, "所有选中设备测试已完成");
    }

    /// Takes a worker report at the time of day `ts`: logs a log line, adds
    /// a found device, ends the scan (asking for confirmation when devices
    /// were found), or moves the first device at the reported address to its
    /// new state and then checks whether the test run has ended.
    pub fn process_message_at(&mut self, msg: WorkerMsg, ts: &str)
        ensures
            final(self)@ == process_spec(old(self)@, msg@, ts@),
    {
        match msg {
            WorkerMsg::Log(text) => {
                self.add_log_at(ts, text.as_str());
            },
            WorkerMsg::DeviceFound(device) => {
                self.devices.push(device);
                proof {
                    assert(devices_view(self.devices@) == devices_view(old(self).devices@).push(
                        device@,
                    ));
                }
            },
            WorkerMsg::ScanComplete => {
                self.scanning = false;
                let count = self.devices.len();
                let mut m = owned("扫描完成, 发现 ");
                push_decimal(&mut m, count as u128);
                push_str(&mut m, " 台设备");
                self.add_log_at(ts, m.as_str());
                if count > 0 {
                    self.show_confirm = true;
                }
            },
            WorkerMsg::DeviceStateChanged { ip, state } => {
                self.set_device_state(&ip, state);
                self.check_all_tests_done_at(ts);
            },
        }
    }

    /// Takes a worker report at the local time of day.
    pub fn process_message(&mut self, msg: WorkerMsg)
        ensures
            exists|ts: Seq<char>| is_clock_text(ts) && final(self)@ == process_spec(old(self)@, msg@, ts),
    {
        let ts = clock_hms();
        self.process_message_at(msg, ts.as_str());
    }

    fn set_device_state(&mut self, ip: &String, state: DeviceState)
        ensures
            final(self)@ == (StateView {
                devices: set_state_of(old(self)@.devices, ip@, state@),
                ..old(self)@
            }),
    {
        let ghost dv = devices_view(self.devices@);
        let n = self.devices.len();
        let mut i: usize = 0;
        while i < n
            invariant
                n == self.devices@.len(),
                i <= n,
                self@ == old(self)@,
                dv == devices_view(self.devices@),
                forall|j: int| 0 <= j < i ==> #[trigger] dv[j].ip != ip@,
            decreases n - i,
        {
            proof {
                assert(dv[i as int] == self.devices@[i as int]@);
            }
            if self.devices[i].ip == *ip {
                proof {
                    assert(is_first_with_ip(dv, ip@, i as int));
                    let k = choose|k: int| is_first_with_ip(dv, ip@, k);
                    if k < i {
                        assert(dv[k].ip != ip@);
                    }
                    if k > i {
                        assert(dv[i as int].ip != ip@);
                    }
                    assert(k == i);
                }
                self.devices[i].state = state;
                proof {
                    assert(devices_view(self.devices@) =~= dv.update(
                        i as int,
                        DeviceInfoView { state: state@, ..dv[i as int] },
                    ));
                }
                return;
            }
            i = i + 1;
        }
        proof {
            assert(!exists|k: int| is_first_with_ip(dv, ip@, k));
        }
    }

    /// Chooses interface `idx`, when valid, and takes its scan range.
    pub fn set_interface(&mut self, idx: Option<u64>)
        requires
            chosen_range_defined(old(self)@.interfaces, idx),
        ensures
            final(self)@ == set_interface_spec(old(self)@, idx),
    {
        match idx {
            Some(i) => {
                if i < self.interfaces.len() as u64 {
                    let k = i as usize;
                    proof {
                        assert(interfaces_view(self.interfaces@)[k as int] == self.interfaces@[k as int]@);
                    }
                    let (start, end) = compute_scan_range(&self.interfaces[k]);
                    self.selected_iface_idx = k;
                    self.scan_start = start;
                    self.scan_end = end;
                }
            },
            None => {},
        }
    }

    /// The interface request: its body's `idx` field chooses the interface.
    pub fn set_interface_from_body(&mut self, body: &str)
        requires
            chosen_range_defined(old(self)@.interfaces, json_u64_at(body@, "idx"@)),
        ensures
            final(self)@ == set_interface_spec(old(self)@, json_u64_at(body@, "idx"@)),
    {
        let idx = json_u64_field(body, "idx");
        self.set_interface(idx);
    }

    /// The interface request, taken only when the interface that its body's
    /// `idx` field chooses has a scan range within the address space; tells
    /// whether it was taken (a refused request changes nothing).
    pub fn try_set_interface_from_body(&mut self, body: &str) -> (r: bool)
        ensures
            r == chosen_range_defined(old(self)@.interfaces, json_u64_at(body@, "idx"@)),
            r ==> final(self)@ == set_interface_spec(old(self)@, json_u64_at(body@, "idx"@)),
            !r ==> final(self)@ == old(self)@,
    {
        let idx = json_u64_field(body, "idx");
        let ok = match idx {
            Some(i) => {
                if i < self.interfaces.len() as u64 {
                    let k = i as usize;
                    proof {
                        assert(interfaces_view(self.interfaces@)[k as int] == self.interfaces@[k as int]@);
                    }
                    scan_range_is_defined(self.interfaces[k].ip, self.interfaces[k].netmask)
                } else {
                    true
                }
            },
            None => true,
        };
        if ok {
            self.set_interface_from_body(body);
        }
        ok
    }

    /// A scan request with range fields `start` and `end`, logged at `ts`.
    pub fn begin_scan_at(&mut self, start: Option<String>, end: Option<String>, ts: &str) -> (r: Result<
        (u32, u32),
        ApiError,
    >)
        ensures
            (final(self)@, r) == begin_scan_spec(old(self)@, opt_string(start), opt_string(end), ts@),
    {
        if self.scanning || self.testing {
            return Err(ApiError::Busy);
        }
        if self.interfaces.len() == 0 {
            return Err(ApiError::NoInterface);
        }
        match start {
            Some(s) => {
                self.scan_start = s;
            },
            None => {},
        }
        match end {
            Some(e) => {
                self.scan_end = e;
            },
            None => {},
        }
        let a = match parse_ipv4(self.scan_start.as_str()) {
            Some(a) => a,
            None => {
                self.add_log_at(ts, "错误: 无效的起始 IP 地址");
                return Err(ApiError::BadStart);
            },
        };
        let b = match parse_ipv4(self.scan_end.as_str()) {
            Some(b) => b,
            None => {
                self.add_log_at(ts, "错误: 无效的结束 IP 地址");
                return Err(ApiError::BadEnd);
            },
        };
        self.devices = Vec::new();
        self.scanning = true;
        proof {
            assert(devices_view(self.devices@) == Seq::<DeviceInfoView>::empty());
        }
        Ok((a, b))
    }

    /// The scan request: its body's `scan_start` and `scan_end` fields, with
    /// the local time of day for the log.
    pub fn begin_scan_from_body(&mut self, body: &str) -> (r: Result<(u32, u32), ApiError>)
        ensures
            exists|ts: Seq<char>|
                is_clock_text(ts) && (final(self)@, r) == begin_scan_spec(
                    old(self)@,
                    json_str_at(body@, "scan_start"@),
                    json_str_at(body@, "scan_end"@),
                    ts,
                ),
    {
        let start = json_str_field(body, "scan_start");
        let end = json_str_field(body, "scan_end");
        let ts = clock_hms();
        self.begin_scan_at(start, end, ts.as_str())
    }

    fn apply_buf_kb(&mut self, buf_kb: Option<u64>)
        ensures
            final(self)@ == (StateView { upload_buf_kb: buf_kb_spec(old(self)@.upload_buf_kb, buf_kb), ..old(self)@ }),
    {
        match buf_kb {
            Some(b) => {
                let t: u32 = (b & 0xffff_ffff) as u32;
                assert(b & 0xffff_ffff == b % 0x1_0000_0000) by (bit_vector);
                if t >= 1 && t <= 1024 {
                    self.upload_buf_kb = t;
                }
            },
            None => {},
        }
    }

    fn apply_duration(&mut self, duration: Option<String>)
        ensures
            final(self)@ == (StateView { duration: duration_spec(old(self)@.duration, opt_string(duration)), ..old(self)@ }),
    {
        match duration {
            Some(v) => match AgingDuration::from_value(v.as_str()) {
                Some(d) => {
                    self.duration = d;
                },
                None => {},
            },
            None => {},
        }
    }

    /// The settings of a test request: program path, duration (form value)
    /// and upload buffer size in kB.
    pub fn apply_test_settings(&mut self, program: Option<String>, duration: Option<String>, buf_kb: Option<u64>)
        ensures
            final(self)@ == test_settings_spec(old(self)@, opt_string(program), opt_string(duration), buf_kb),
    {
        match program {
            Some(p) => {
                self.test_program = p;
            },
            None => {},
        }
        self.apply_duration(duration);
        self.apply_buf_kb(buf_kb);
    }

    /// The settings of a test request, from its body's `test_program`,
    /// `duration` and `upload_buf_kb` fields.
    pub fn apply_test_settings_from_body(&mut self, body: &str)
        ensures
            final(self)@ == test_settings_spec(
                old(self)@,
                json_str_at(body@, "test_program"@),
                json_str_at(body@, "duration"@),
                json_u64_at(body@, "upload_buf_kb"@),
            ),
    {
        let program = json_str_field(body, "test_program");
        let duration = json_str_field(body, "duration");
        let buf_kb = json_u64_field(body, "upload_buf_kb");
        self.apply_test_settings(program, duration, buf_kb);
    }

    /// Starts a test run, logged at the local time of day; `program_exists`
    /// tells whether the test program's file is there.
    pub fn start_test(&mut self, program_exists: bool) -> (r: Result<TestLaunch, ApiError>)
        ensures
            exists|ts: Seq<char>|
                is_clock_text(ts) && final(self)@ == start_test_spec(old(self)@, program_exists, ts).0
                    && launch_matches(r, start_test_spec(old(self)@, program_exists, ts).1),
    {
        let ts = clock_hms();
        self.start_test_at(program_exists, ts.as_str())
    }

    /// Starts a test run, logged at `ts`; `program_exists` tells whether the
    /// test program's file is there.
    pub fn start_test_at(&mut self, program_exists: bool, ts: &str) -> (r: Result<TestLaunch, ApiError>)
        ensures
            final(self)@ == start_test_spec(old(self)@, program_exists, ts@).0,
            launch_matches(r, start_test_spec(old(self)@, program_exists, ts@).1),
    {
        if self.test_program.as_str().is_empty() {
            self.add_log_at(ts, "错误: 请先设置产测程序路径");
            return Err(ApiError::NoProgram);
        }
        if !program_exists {
            self.add_log_at(ts, "错误: 产测程序文件不存在");
            return Err(ApiError::ProgramMissing);
        }
        let chosen = self.selected_copies();
        if chosen.len() == 0 {
            self.add_log_at(ts, "错误: 未选择任何设备");
            return Err(ApiError::NoDeviceSelected);
        }
        self.testing = true;
        let mut m = owned("开始测试 ");
        push_decimal(&mut m, chosen.len() as u128);
        push_str(&mut m, " 台设备...");
        self.add_log_at(ts, m.as_str());
        Ok(
            TestLaunch {
                devices: chosen,
                program: self.test_program.clone(),
                duration: self.duration,
                buf_size: self.upload_buf_kb as u64 * 1024,
            },
        )
    }

    /// Copies of the selected devices, in order.
    pub fn selected_copies(&self) -> (r: Vec<DeviceInfo>)
        ensures
            devices_view(r@) == selected_devices(self@.devices),
    {
        let ghost dv = devices_view(self.devices@);
        let mut out: Vec<DeviceInfo> = Vec::new();
        let n = self.devices.len();
        let mut i: usize = 0;
        while i < n
            invariant
                n == self.devices@.len(),
                i <= n,
                dv == devices_view(self.devices@),
                devices_view(out@) == selected_devices(dv.take(i as int)),
            decreases n - i,
        {
            proof {
                assert(dv.take(i + 1).drop_last() == dv.take(i as int));
                assert(dv.take(i + 1).last() == self.devices@[i as int]@);
                reveal_with_fuel(Seq::filter, 1);
            }
            if self.devices[i].selected {
                let d = self.devices[i].duplicate();
                let ghost before = out@;
                out.push(d);
                proof {
                    assert(devices_view(out@) == devices_view(before).push(d@));
                }
            }
            i = i + 1;
        }
        proof {
            assert(dv.take(n as int) == dv);
        }
        out
    }

    /// Flips the selection of device `idx`; refused while testing.
    pub fn toggle_device(&mut self, idx: Option<u64>)
        ensures
            final(self)@ == toggle_spec(old(self)@, idx),
    {
        match idx {
            Some(i) => {
                if i < self.devices.len() as u64 && !self.testing {
                    let k = i as usize;
                    let ghost dv = devices_view(self.devices@);
                    proof {
                        assert(dv[k as int] == self.devices@[k as int]@);
                    }
                    let cur = self.devices[k].selected;
                    self.devices[k].selected = !cur;
                    proof {
                        assert(devices_view(self.devices@) =~= dv.update(
                            k as int,
                            DeviceInfoView { selected: !dv[k as int].selected, ..dv[k as int] },
                        ));
                    }
                }
            },
            None => {},
        }
    }

    /// The toggle request: its body's `idx` field names the device.
    pub fn toggle_device_from_body(&mut self, body: &str)
        ensures
            final(self)@ == toggle_spec(old(self)@, json_u64_at(body@, "idx"@)),
    {
        let idx = json_u64_field(body, "idx");
        self.toggle_device(idx);
    }

    fn set_all_selected(&mut self, on: bool)
        ensures
            final(self)@ == select_all_spec(old(self)@, on),
    {
        if self.testing {
            return;
        }
        let ghost dv = devices_view(self.devices@);
        let n = self.devices.len();
        let mut i: usize = 0;
        while i < n
            invariant
                n == self.devices@.len(),
                i <= n,
                !self.testing,
                self@ == (StateView { devices: devices_view(self.devices@), ..old(self)@ }),
                dv.len() == n,
                forall|j: int|
                    0 <= j < n ==> #[trigger] devices_view(self.devices@)[j] == if j < i {
                        DeviceInfoView { selected: on, ..dv[j] }
                    } else {
                        dv[j]
                    },
            decreases n - i,
        {
            let ghost before = devices_view(self.devices@);
            let ghost old_devs = self.devices@;
            self.devices[i].selected = on;
            proof {
                assert forall|j: int| 0 <= j < n implies #[trigger] devices_view(self.devices@)[j] == if j < i + 1 {
                    DeviceInfoView { selected: on, ..dv[j] }
                } else {
                    dv[j]
                } by {
                    if j != i {
                        assert(devices_view(self.devices@)[j] == before[j]);
                    } else {
                        assert(devices_view(self.devices@)[j] == self.devices@[j]@);
                        assert(before[j] == dv[j]);
                        assert(before[j] == old_devs[j]@);
                        assert(self.devices@[j] == (DeviceInfo { selected: on, ..old_devs[j] }));
                    }
                }
            }
            i = i + 1;
        }
        proof {
            assert(devices_view(self.devices@) =~= Seq::new(
                dv.len(),
                |j: int| DeviceInfoView { selected: on, ..dv[j] },
            ));
        }
    }

    /// Selects every device; refused while testing.
    pub fn select_all(&mut self)
        ensures
            final(self)@ == select_all_spec(old(self)@, true),
    {
        self.set_all_selected(true);
    }

    /// Deselects every device; refused while testing.
    pub fn deselect_all(&mut self)
        ensures
            final(self)@ == select_all_spec(old(self)@, false),
    {
        self.set_all_selected(false);
    }

    /// A settings request: program path, scan range, duration (form value)
    /// and upload buffer size in kB, each when given.
    pub fn update_settings(
        &mut self,
        program: Option<String>,
        start: Option<String>,
        end: Option<String>,
        duration: Option<String>,
        buf_kb: Option<u64>,
    )
        ensures
            final(self)@ == update_settings_spec(
                old(self)@,
                opt_string(program),
                opt_string(start),
                opt_string(end),
                opt_string(duration),
                buf_kb,
            ),
    {
        match program {
            Some(p) => {
                self.test_program = p;
            },
            None => {},
        }
        match start {
            Some(p) => {
                self.scan_start = p;
            },
            None => {},
        }
        match end {
            Some(p) => {
                self.scan_end = p;
            },
            None => {},
        }
        self.apply_duration(duration);
        self.apply_buf_kb(buf_kb);
    }

    /// The settings request, from its body's `test_program`, `scan_start`,
    /// `scan_end`, `duration` and `upload_buf_kb` fields.
    pub fn update_settings_from_body(&mut self, body: &str)
        ensures
            final(self)@ == update_settings_spec(
                old(self)@,
                json_str_at(body@, "test_program"@),
                json_str_at(body@, "scan_start"@),
                json_str_at(body@, "scan_end"@),
                json_str_at(body@, "duration"@),
                json_u64_at(body@, "upload_buf_kb"@),
            ),
    {
        let program = json_str_field(body, "test_program");
        let start = json_str_field(body, "scan_start");
        let end = json_str_field(body, "scan_end");
        let duration = json_str_field(body, "duration");
        let buf_kb = json_u64_field(body, "upload_buf_kb");
        self.update_settings(program, start, end, duration, buf_kb);
    }

    /// The confirmation request: hides the scan result prompt.
    pub fn confirm(&mut self)
        ensures
            final(self)@ == (StateView { show_confirm: false, ..old(self)@ }),
    {
        self.show_confirm = false;
    }
}

// ---------------------------------------------------------------------------
// Laws
// ---------------------------------------------------------------------------

/// Flipping a device's selection twice leaves the state as it was.
pub proof fn law_toggle_twice(s: StateView, idx: Option<u64>)
    ensures
        toggle_spec(toggle_spec(s, idx), idx) == s,
{
    match idx {
        Some(i) => {
            if i < s.devices.len() && !s.testing {
                let d = s.devices[i as int];
                let s1 = toggle_spec(s, idx);
                assert(s1.devices[i as int] == DeviceInfoView { selected: !d.selected, ..d });
                assert(toggle_spec(s1, idx).devices =~= s.devices);
            }
        },
        None => {},
    }
}

/// While a test runs, the device selection cannot change.
pub proof fn law_selection_frozen_while_testing(s: StateView, idx: Option<u64>, on: bool)
    requires
        s.testing,
    ensures
        toggle_spec(s, idx) == s,
        select_all_spec(s, on) == s,
{
}

/// Selecting all marks every device selected and changes nothing else of them.
pub proof fn law_select_all(s: StateView, on: bool, i: int)
    requires
        !s.testing,
        0 <= i < s.devices.len(),
    ensures
        select_all_spec(s, on).devices.len() == s.devices.len(),
        select_all_spec(s, on).devices[i] == (DeviceInfoView { selected: on, ..s.devices[i] }),
{
}

/// A state change of a device ends the test run exactly when, after it,
/// every selected device has ended; it only ever touches that device.
pub proof fn law_test_run_ends_when_all_finished(
    s: StateView,
    ip: Seq<char>,
    st: DeviceStateView,
    ts: Seq<char>,
)
    ensures
        ({
            let s2 = process_spec(s, WorkerMsgView::DeviceStateChanged { ip, state: st }, ts);
            &&& s2.devices == set_state_of(s.devices, ip, st)
            &&& s2.testing == (s.testing && !all_selected_finished(s2.devices))
            &&& s2.devices.len() == s.devices.len()
            &&& forall|k: int|
                0 <= k < s.devices.len() && s.devices[k].ip != ip ==> #[trigger] s2.devices[k]
                    == s.devices[k]
        }),
{
    let devs = set_state_of(s.devices, ip, st);
    if exists|i: int| is_first_with_ip(s.devices, ip, i) {
        let i = choose|i: int| is_first_with_ip(s.devices, ip, i);
        assert forall|k: int| 0 <= k < s.devices.len() && s.devices[k].ip != ip implies #[trigger] devs[k]
            == s.devices[k] by {
            assert(k != i);
        }
    }
}

/// The end of a scan clears the scanning flag and asks for confirmation
/// when any device was found.
pub proof fn law_scan_complete(s: StateView, ts: Seq<char>)
    ensures
        !process_spec(s, WorkerMsgView::ScanComplete, ts).scanning,
        process_spec(s, WorkerMsgView::ScanComplete, ts).show_confirm == (s.show_confirm
            || s.devices.len() > 0),
        process_spec(s, WorkerMsgView::ScanComplete, ts).devices == s.devices,
{
}

/// A scan is refused while a scan or a test is under way, and then
/// nothing changes.
pub proof fn law_scan_refused_while_busy(
    s: StateView,
    start: Option<Seq<char>>,
    end: Option<Seq<char>>,
    ts: Seq<char>,
)
    requires
        s.scanning || s.testing,
    ensures
        begin_scan_spec(s, start, end, ts) == (s, Err::<(u32, u32), ApiError>(ApiError::Busy)),
{
}

/// A scan that starts clears the device list, sets the scanning flag, and
/// scans the addresses whose text the scan range holds.
pub proof fn law_scan_start(
    s: StateView,
    start: Option<Seq<char>>,
    end: Option<Seq<char>>,
    ts: Seq<char>,
)
    ensures
        ({
            let (s2, r) = begin_scan_spec(s, start, end, ts);
            r matches Ok((a, b)) ==> {
                &&& s2.scanning
                &&& s2.devices.len() == 0
                &&& ipv4_text(a) == s2.scan_start
                &&& ipv4_text(b) == s2.scan_end
            }
        }),
{
    let (s2, r) = begin_scan_spec(s, start, end, ts);
    match r {
        Ok((a, b)) => {
            assert(exists|x: u32| ipv4_text(x) == s2.scan_start);
            assert(exists|x: u32| ipv4_text(x) == s2.scan_end);
        },
        Err(_) => {},
    }
}

/// The scan range that choosing an interface shows reads back, in a scan
/// request, as exactly that interface's scan bounds.
pub proof fn law_interface_range_reads_back(s: StateView, i: u64)
    requires
        i < s.interfaces.len(),
        scan_range_defined(s.interfaces[i as int].ip, s.interfaces[i as int].netmask),
    ensures
        ({
            let s2 = set_interface_spec(s, Some(i));
            let f = s.interfaces[i as int];
            &&& ipv4_of(s2.scan_start) == Some(scan_bounds(f.ip, f.netmask).0 as u32)
            &&& ipv4_of(s2.scan_end) == Some(scan_bounds(f.ip, f.netmask).1 as u32)
        }),
{
    let s2 = set_interface_spec(s, Some(i));
    let f = s.interfaces[i as int];
    assert(scan_range_defined(s.interfaces[i as int].ip, s.interfaces[i as int].netmask));
    let a = scan_bounds(f.ip, f.netmask).0 as u32;
    let b = scan_bounds(f.ip, f.netmask).1 as u32;
    let ca = choose|x: u32| ipv4_text(x) == ipv4_text(a);
    crate::ipv4::law_ipv4_text_unique(ca, a);
    let cb = choose|x: u32| ipv4_text(x) == ipv4_text(b);
    crate::ipv4::law_ipv4_text_unique(cb, b);
}

/// A test run that starts works on exactly the selected devices, in order,
/// and sets the testing flag; a refused one leaves the flag as it was.
pub proof fn law_test_launch(s: StateView, program_exists: bool, ts: Seq<char>)
    ensures
        ({
            let (s2, r) = start_test_spec(s, program_exists, ts);
            &&& r matches Ok(l) ==> {
                &&& s2.testing
                &&& l.devices == selected_devices(s.devices)
                &&& l.devices.len() > 0
                &&& forall|k: int| 0 <= k < l.devices.len() ==> #[trigger] l.devices[k].selected
            }
            &&& r is Err ==> s2.testing == s.testing && s2.devices == s.devices
        }),
{
    broadcast use vstd::seq_lib::group_filter_ensures;

    let sel = selected_devices(s.devices);
    assert forall|k: int| 0 <= k < sel.len() implies #[trigger] sel[k].selected by {
        let pred = |d: DeviceInfoView| d.selected;
        assert(pred(s.devices.filter(pred)[k]));
    }
}


/// A found device is added after the devices already found, which are all
/// kept; nothing else of the state changes.
pub proof fn law_found_device_appended(s: StateView, d: DeviceInfoView, ts: Seq<char>)
    ensures
        ({
            let s2 = process_spec(s, WorkerMsgView::DeviceFound(d), ts);
            &&& s2.devices.len() == s.devices.len() + 1
            &&& s2.devices[s.devices.len() as int] == d
            &&& forall|k: int| 0 <= k < s.devices.len() ==> #[trigger] s2.devices[k] == s.devices[k]
            &&& s2 == (StateView { devices: s2.devices, ..s })
        }),
{
}

/// The end of a scan logs, stamped with the time, how many devices the
/// scan found: every device reported since the scan began.
pub proof fn law_scan_complete_counts_found_devices(
    s: StateView,
    found: Seq<DeviceInfoView>,
    ts: Seq<char>,
)
    requires
        s.devices.len() == 0,
    ensures
        ({
            let s1 = found_all(s, found, ts);
            let s2 = process_spec(s1, WorkerMsgView::ScanComplete, ts);
            &&& s1.devices == found
            &&& s2.log_lines == s.log_lines.push(
                "["@ + ts + "] "@ + "扫描完成, 发现 "@ + dec_text(found.len()) + " 台设备"@,
            )
            &&& s2.show_confirm == (s.show_confirm || found.len() > 0)
            &&& !s2.scanning
        }),
{
    lemma_found_all(s, found, ts);
    assert(s.devices + found =~= found);
    let msg = "扫描完成, 发现 "@ + dec_text(found.len()) + " 台设备"@;
    assert(stamped(ts, msg) =~= "["@ + ts + "] "@ + "扫描完成, 发现 "@ + dec_text(found.len())
        + " 台设备"@);
}

/// The state after the devices of `found` are reported one after another.
pub open spec fn found_all(s: StateView, found: Seq<DeviceInfoView>, ts: Seq<char>) -> StateView
    decreases found.len(),
{
    if found.len() == 0 {
        s
    } else {
        process_spec(found_all(s, found.drop_last(), ts), WorkerMsgView::DeviceFound(found.last()), ts)
    }
}

proof fn lemma_found_all(s: StateView, found: Seq<DeviceInfoView>, ts: Seq<char>)
    ensures
        found_all(s, found, ts) == (StateView { devices: s.devices + found, ..s }),
    decreases found.len(),
{
    if found.len() > 0 {
        lemma_found_all(s, found.drop_last(), ts);
        assert(s.devices + found.drop_last() + seq![found.last()] =~= s.devices + found);
        assert((s.devices + found.drop_last()).push(found.last()) =~= s.devices + found);
    } else {
        assert(s.devices + found =~= s.devices);
    }
}

/// A state report reaches the first device at the reported address: that
/// device takes the new state and keeps everything else.
pub proof fn law_state_change_reaches_device(
    s: StateView,
    ip: Seq<char>,
    st: DeviceStateView,
    ts: Seq<char>,
    i: int,
)
    requires
        0 <= i < s.devices.len(),
        s.devices[i].ip == ip,
        forall|j: int| 0 <= j < i ==> s.devices[j].ip != ip,
    ensures
        process_spec(s, WorkerMsgView::DeviceStateChanged { ip, state: st }, ts).devices[i]
            == (DeviceInfoView { state: st, ..s.devices[i] }),
{
    assert(is_first_with_ip(s.devices, ip, i));
    let k = choose|k: int| is_first_with_ip(s.devices, ip, k);
    if k < i {
        assert(s.devices[k].ip != ip);
    }
    if k > i {
        assert(s.devices[i].ip != ip);
    }
}

/// Toggling device `i` while no test runs flips that device's selection and
/// nothing else; an index past the list changes nothing.
pub proof fn law_toggle_flips_one(s: StateView, i: u64)
    requires
        !s.testing,
    ensures
        i < s.devices.len() ==> ({
            let s2 = toggle_spec(s, Some(i));
            &&& s2.devices.len() == s.devices.len()
            &&& s2.devices[i as int].selected == !s.devices[i as int].selected
            &&& s2.devices[i as int] == (DeviceInfoView {
                selected: s2.devices[i as int].selected,
                ..s.devices[i as int]
            })
            &&& forall|k: int| 0 <= k < s.devices.len() && k != i ==> #[trigger] s2.devices[k]
                == s.devices[k]
            &&& s2 == (StateView { devices: s2.devices, ..s })
        }),
        i >= s.devices.len() ==> toggle_spec(s, Some(i)) == s,
{
}

/// A started test run takes the test program's path, the chosen duration
/// and an upload buffer of the chosen size in kB times 1024 bytes, logs
/// how many devices it tests, and is refused without a program.
pub proof fn law_test_launch_settings(s: StateView, program_exists: bool, ts: Seq<char>)
    ensures
        ({
            let (s2, r) = start_test_spec(s, program_exists, ts);
            &&& r matches Ok(l) ==> {
                &&& l.program == s.test_program
                &&& l.duration == s.duration
                &&& l.buf_size == s.upload_buf_kb * 1024
                &&& s2.log_lines == s.log_lines.push(
                    "["@ + ts + "] "@ + "开始测试 "@ + dec_text(l.devices.len()) + " 台设备..."@,
                )
            }
            &&& s.test_program.len() == 0 ==> (r == Err::<TestLaunchView, ApiError>(ApiError::NoProgram))
            &&& (s.test_program.len() > 0 && !program_exists) ==> (r == Err::<TestLaunchView, ApiError>(
                ApiError::ProgramMissing,
            ))
        }),
{
    let (s2, r) = start_test_spec(s, program_exists, ts);
    if r is Ok {
        let n = selected_devices(s.devices).len();
        let msg = "开始测试 "@ + dec_text(n) + " 台设备..."@;
        assert(stamped(ts, msg) =~= "["@ + ts + "] "@ + "开始测试 "@ + dec_text(n) + " 台设备..."@);
    }
}

/// An upload buffer size of 1 to 1024 kB is taken as given; any other
/// number below 2^32 leaves the setting as it was.
pub proof fn law_buffer_size_setting(old_kb: u32, b: u64)
    ensures
        (1 <= b <= 1024) ==> buf_kb_spec(old_kb, Some(b)) == b,
        (b < 0x1_0000_0000 && !(1 <= b <= 1024)) ==> buf_kb_spec(old_kb, Some(b)) == old_kb,
        buf_kb_spec(old_kb, None) == old_kb,
{
}

/// Choosing a listed interface selects it; an index past the list changes
/// nothing.
pub proof fn law_interface_choice(s: StateView, i: u64)
    ensures
        i < s.interfaces.len() ==> set_interface_spec(s, Some(i)).selected_iface_idx == i as usize,
        i < s.interfaces.len() ==> set_interface_spec(s, Some(i)) == (StateView {
            selected_iface_idx: i as usize,
            scan_start: set_interface_spec(s, Some(i)).scan_start,
            scan_end: set_interface_spec(s, Some(i)).scan_end,
            ..s
        }),
        i >= s.interfaces.len() ==> set_interface_spec(s, Some(i)) == s,
        set_interface_spec(s, None) == s,
{
}
} // verus!
