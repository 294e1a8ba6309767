//! The library's data: network interfaces, devices and their test states,
//! burn-in durations, and the messages that workers report.
use vstd::prelude::*;
use crate::ipv4::{ipv4_text, ipv4_to_string};
use crate::text::{dec_text, is_canonical_digits, digits_value, lemma_canonical_digits, lemma_dec_text, owned, parse_canonical, push_decimal, push_str, chars_of};

verus! {

/// A local IPv4 network interface.
pub struct NetworkInterface {
    pub name: String,
    /// The interface's address, most significant octet first.
    pub ip: u32,
    /// The interface's netmask, most significant octet first.
    pub netmask: u32,
}

/// What an interface record says, with its name as characters.
pub struct InterfaceView {
    pub name: Seq<char>,
    pub ip: u32,
    pub netmask: u32,
}

impl View for NetworkInterface {
    type V = InterfaceView;

    open spec fn view(&self) -> InterfaceView {
        InterfaceView { name: self.name@, ip: self.ip, netmask: self.netmask }
    }
}

impl NetworkInterface {
    /// A copy of the interface record.
    pub fn duplicate(&self) -> (r: NetworkInterface)
        ensures
            r@ == self@,
    {
        NetworkInterface { name: self.name.clone(), ip: self.ip, netmask: self.netmask }
    }

    /// How the interface is shown: its name, then its address in brackets.
    pub open spec fn display_spec(&self) -> Seq<char> {
        self.name@ + " ("@ + ipv4_text(self.ip) + ")"@
    }

    /// The interface as shown to the user, `name (a.b.c.d)`.
    pub fn display_text(&self) -> (r: String)
        ensures
            r@ == self.display_spec(),
    {
        let mut s = owned(self.name.as_str());
        push_str(&mut s, " (");
        let ip = ipv4_to_string(self.ip);
        push_str(&mut s, ip.as_str());
        push_str(&mut s, ")");
        s
    }
}

/// The progress of an upload in whole percent: the exact ratio
/// `done / total` times 100, rounded to the nearest whole number with ties
/// to even (as `{:.0}` rounds); an empty file counts as complete.
pub open spec fn progress_percent(done: u64, total: u64) -> nat {
    if total == 0 {
        100
    } else {
        let x = done as nat * 100;
        let q = x / (total as nat);
        let r = x % (total as nat);
        if 2 * r > total || (2 * r == total && q % 2 == 1) {
            q + 1
        } else {
            q
        }
    }
}

/// The progress of an upload in whole percent.
pub fn upload_percent(done: u64, total: u64) -> (r: u128)
    ensures
        r == progress_percent(done, total),
{
    if total == 0 {
        return 100;
    }
    let x: u128 = done as u128 * 100;
    let q: u128 = x / (total as u128);
    let rem: u128 = x % (total as u128);
    assert(q <= done as u128 * 100) by (nonlinear_arith)
        requires q == x / (total as u128), x == done as u128 * 100, total >= 1;
    let out: u128 = if 2 * rem > total as u128 || (2 * rem == total as u128 && q % 2 == 1) {
        q + 1
    } else {
        q
    };
    out
}

/// Where a device is in its burn-in test.
pub enum DeviceState {
    /// Found on the network, not yet tested.
    Discovered,
    /// The test program is being uploaded; `done` of `total` bytes are sent.
    Transferring { done: u64, total: u64 },
    /// The test program is being unpacked on the device.
    Extracting,
    /// The burn-in test is running.
    Testing,
    /// The burn-in test passed.
    Passed,
    /// The burn-in test failed.
    Failed,
    /// The workflow stopped on an error, with its message.
    Error(String),
}

/// What a device state says, with its error text as characters.
pub enum DeviceStateView {
    Discovered,
    Transferring { done: u64, total: u64 },
    Extracting,
    Testing,
    Passed,
    Failed,
    Error(Seq<char>),
}

impl DeviceStateView {
    /// Whether the state ends a test (passed, failed or stopped on an error).
    pub open spec fn is_terminal(self) -> bool {
        match self {
            DeviceStateView::Passed | DeviceStateView::Failed | DeviceStateView::Error(_) => true,
            _ => false,
        }
    }
}

impl View for DeviceState {
    type V = DeviceStateView;

    open spec fn view(&self) -> DeviceStateView {
        match self {
            DeviceState::Discovered => DeviceStateView::Discovered,
            DeviceState::Transferring { done, total } => DeviceStateView::Transferring {
                done: *done,
                total: *total,
            },
            DeviceState::Extracting => DeviceStateView::Extracting,
            DeviceState::Testing => DeviceStateView::Testing,
            DeviceState::Passed => DeviceStateView::Passed,
            DeviceState::Failed => DeviceStateView::Failed,
            DeviceState::Error(e) => DeviceStateView::Error(e@),
        }
    }
}

impl DeviceState {
    /// Whether the device's test has ended (passed, failed or stopped on an error).
    pub open spec fn is_terminal(&self) -> bool {
        match self {
            DeviceState::Passed | DeviceState::Failed | DeviceState::Error(_) => true,
            _ => false,
        }
    }

    /// The state as shown to the user.
    pub open spec fn label_spec(&self) -> Seq<char> {
        match self {
            DeviceState::Discovered => "已发现"@,
            DeviceState::Transferring { done, total } => "传输中 "@ + dec_text(
                progress_percent(*done, *total),
            ) + "%"@,
            DeviceState::Extracting => "解压中"@,
            DeviceState::Testing => "测试中"@,
            DeviceState::Passed => "通过"@,
            DeviceState::Failed => "失败"@,
            DeviceState::Error(e) => "错误: "@ + e@,
        }
    }

    /// Whether the test has ended.
    pub fn is_finished(&self) -> (r: bool)
        ensures
            r == self.is_terminal(),
    {
        match self {
            DeviceState::Passed | DeviceState::Failed | DeviceState::Error(_) => true,
            _ => false,
        }
    }

    /// The state as shown to the user.
    pub fn label(&self) -> (r: String)
        ensures
            r@ == self.label_spec(),
    {
        match self {
            DeviceState::Discovered => owned("已发现"),
            DeviceState::Transferring { done, total } => {
                let mut s = owned("传输中 ");
                push_decimal(&mut s, upload_percent(*done, *total));
                push_str(&mut s, "%");
                s
            },
            DeviceState::Extracting => owned("解压中"),
            DeviceState::Testing => owned("测试中"),
            DeviceState::Passed => owned("通过"),
            DeviceState::Failed => owned("失败"),
            DeviceState::Error(e) => {
                let mut s = owned("错误: ");
                push_str(&mut s, e.as_str());
                s
            },
        }
    }

    /// A copy of the state.
    pub fn duplicate(&self) -> (r: DeviceState)
        ensures
            r == *self,
    {
        match self {
            DeviceState::Discovered => DeviceState::Discovered,
            DeviceState::Transferring { done, total } => DeviceState::Transferring {
                done: *done,
                total: *total,
            },
            DeviceState::Extracting => DeviceState::Extracting,
            DeviceState::Testing => DeviceState::Testing,
            DeviceState::Passed => DeviceState::Passed,
            DeviceState::Failed => DeviceState::Failed,
            DeviceState::Error(e) => DeviceState::Error(e.clone()),
        }
    }
}

/// A device found on the network, with the credentials that logged in to it.
pub struct DeviceInfo {
    pub sn: String,
    pub ip: String,
    pub mac: String,
    pub username: String,
    pub password: String,
    pub state: DeviceState,
    /// Whether the device takes part in the next test run.
    pub selected: bool,
}

/// What a device record says, with its texts as characters.
pub struct DeviceInfoView {
    pub sn: Seq<char>,
    pub ip: Seq<char>,
    pub mac: Seq<char>,
    pub username: Seq<char>,
    pub password: Seq<char>,
    pub state: DeviceStateView,
    pub selected: bool,
}

impl View for DeviceInfo {
    type V = DeviceInfoView;

    open spec fn view(&self) -> DeviceInfoView {
        DeviceInfoView {
            sn: self.sn@,
            ip: self.ip@,
            mac: self.mac@,
            username: self.username@,
            password: self.password@,
            state: self.state@,
            selected: self.selected,
        }
    }
}

impl DeviceInfo {
    /// A copy of the device record.
    pub fn duplicate(&self) -> (r: DeviceInfo)
        ensures
            r == *self,
    {
        DeviceInfo {
            sn: self.sn.clone(),
            ip: self.ip.clone(),
            mac: self.mac.clone(),
            username: self.username.clone(),
            password: self.password.clone(),
            state: self.state.duplicate(),
            selected: self.selected,
        }
    }
}

/// How long the burn-in test runs.
#[derive(Clone, Copy, PartialEq, Eq, Structural, Debug)]
pub enum AgingDuration {
    Min1,
    Min5,
    Min10,
    Min20,
    Min30,
    Hour1,
    Hour3,
    Hour6,
    Hour24,
}

impl AgingDuration {
    /// The length of the test in minutes.
    pub open spec fn spec_minutes(&self) -> nat {
        match self {
            AgingDuration::Min1 => 1,
            AgingDuration::Min5 => 5,
            AgingDuration::Min10 => 10,
            AgingDuration::Min20 => 20,
            AgingDuration::Min30 => 30,
            AgingDuration::Hour1 => 60,
            AgingDuration::Hour3 => 180,
            AgingDuration::Hour6 => 360,
            AgingDuration::Hour24 => 1440,
        }
    }

    /// The length of the test in minutes.
    pub fn minutes(&self) -> (r: u32)
        ensures
            r == self.spec_minutes(),
    {
        match self {
            AgingDuration::Min1 => 1,
            AgingDuration::Min5 => 5,
            AgingDuration::Min10 => 10,
            AgingDuration::Min20 => 20,
            AgingDuration::Min30 => 30,
            AgingDuration::Hour1 => 60,
            AgingDuration::Hour3 => 180,
            AgingDuration::Hour6 => 360,
            AgingDuration::Hour24 => 1440,
        }
    }

    /// Every duration, shortest first.
    pub open spec fn all_spec() -> Seq<AgingDuration> {
        seq![
            AgingDuration::Min1,
            AgingDuration::Min5,
            AgingDuration::Min10,
            AgingDuration::Min20,
            AgingDuration::Min30,
            AgingDuration::Hour1,
            AgingDuration::Hour3,
            AgingDuration::Hour6,
            AgingDuration::Hour24,
        ]
    }

    /// Every duration, shortest first.
    pub fn all() -> (r: Vec<AgingDuration>)
        ensures
            r@ == Self::all_spec(),
    {
        let r = vec![
            AgingDuration::Min1,
            AgingDuration::Min5,
            AgingDuration::Min10,
            AgingDuration::Min20,
            AgingDuration::Min30,
            AgingDuration::Hour1,
            AgingDuration::Hour3,
            AgingDuration::Hour6,
            AgingDuration::Hour24,
        ];
        assert(r@ == Self::all_spec());
        r
    }

    /// The duration as shown to the user.
    pub open spec fn display_spec(&self) -> Seq<char> {
        match self {
            AgingDuration::Min1 => "1 分钟"@,
            AgingDuration::Min5 => "5 分钟"@,
            AgingDuration::Min10 => "10 分钟"@,
            AgingDuration::Min20 => "20 分钟"@,
            AgingDuration::Min30 => "30 分钟"@,
            AgingDuration::Hour1 => "1 小时"@,
            AgingDuration::Hour3 => "3 小时"@,
            AgingDuration::Hour6 => "6 小时"@,
            AgingDuration::Hour24 => "24 小时"@,
        }
    }

    /// The duration as shown to the user, such as `5 分钟` or `3 小时`.
    pub fn display_text(&self) -> (r: String)
        ensures
            r@ == self.display_spec(),
    {
        match self {
            AgingDuration::Min1 => owned("1 分钟"),
            AgingDuration::Min5 => owned("5 分钟"),
            AgingDuration::Min10 => owned("10 分钟"),
            AgingDuration::Min20 => owned("20 分钟"),
            AgingDuration::Min30 => owned("30 分钟"),
            AgingDuration::Hour1 => owned("1 小时"),
            AgingDuration::Hour3 => owned("3 小时"),
            AgingDuration::Hour6 => owned("6 小时"),
            AgingDuration::Hour24 => owned("24 小时"),
        }
    }

    /// The value that stands for the duration in the web form: its minutes in decimal.
    pub open spec fn value_spec(&self) -> Seq<char> {
        dec_text(self.spec_minutes())
    }

    /// The value that stands for the duration in the web form.
    pub fn to_value(&self) -> (r: String)
        ensures
            r@ == self.value_spec(),
    {
        let mut s = String::new();
        push_decimal(&mut s, self.minutes() as u128);
        s
    }

    /// The duration whose form value is `v`, if any.
    pub open spec fn of_value(v: Seq<char>) -> Option<AgingDuration> {
        if exists|d: AgingDuration| d.value_spec() == v {
            Some(choose|d: AgingDuration| d.value_spec() == v)
        } else {
            None
        }
    }

    /// The duration that the form value `v` stands for, if any.
    pub fn from_value(v: &str) -> (r: Option<AgingDuration>)
        ensures
            r == Self::of_value(v@),
            match r {
                Some(d) => d.value_spec() == v@,
                None => forall|d: AgingDuration| d.value_spec() != v@,
            },
    {
        let r = Self::from_value_inner(v);
        proof {
            match r {
                Some(d) => {
                    let c = choose|d: AgingDuration| d.value_spec() == v@;
                    law_duration_value_roundtrip(c, d);
                },
                None => {},
            }
        }
        r
    }

    fn from_value_inner(v: &str) -> (r: Option<AgingDuration>)
        ensures
            match r {
                Some(d) => d.value_spec() == v@,
                None => forall|d: AgingDuration| d.value_spec() != v@,
            },
    {
        let cs = chars_of(v);
        let parsed = parse_canonical(cs.as_slice(), 1440);
        proof {
            assert forall|d: AgingDuration| d.value_spec() == v@ implies parsed == Some(
                d.spec_minutes() as u64,
            ) by {
                lemma_dec_text(d.spec_minutes());
            }
        }
        match parsed {
            Some(m) => {
                proof {
                    lemma_canonical_digits(v@);
                }
                if m == 1 {
                    Some(AgingDuration::Min1)
                } else if m == 5 {
                    Some(AgingDuration::Min5)
                } else if m == 10 {
                    Some(AgingDuration::Min10)
                } else if m == 20 {
                    Some(AgingDuration::Min20)
                } else if m == 30 {
                    Some(AgingDuration::Min30)
                } else if m == 60 {
                    Some(AgingDuration::Hour1)
                } else if m == 180 {
                    Some(AgingDuration::Hour3)
                } else if m == 360 {
                    Some(AgingDuration::Hour6)
                } else if m == 1440 {
                    Some(AgingDuration::Hour24)
                } else {
                    None
                }
            },
            None => None,
        }
    }
}

/// What a scan or test worker reports to the shared state.
pub enum WorkerMsg {
    /// A line for the user's log.
    Log(String),
    /// A device answered and logged in.
    DeviceFound(DeviceInfo),
    /// The network scan has ended.
    ScanComplete,
    /// The device at `ip` moved to `state`.
    DeviceStateChanged { ip: String, state: DeviceState },
}

/// Reading a duration's form value gives the duration back.
pub proof fn law_duration_value_roundtrip(d: AgingDuration, e: AgingDuration)
    ensures
        d.value_spec() == e.value_spec() <==> d == e,
{
    if d.value_spec() == e.value_spec() {
        lemma_dec_text(d.spec_minutes());
        lemma_dec_text(e.spec_minutes());
    }
}

/// The durations are listed shortest first, every one of them once.
pub proof fn law_durations_ordered()
    ensures
        forall|i: int, j: int|
            0 <= i < j < 9 ==> AgingDuration::all_spec()[i].spec_minutes()
                < AgingDuration::all_spec()[j].spec_minutes(),
        forall|d: AgingDuration| AgingDuration::all_spec().contains(d),
{
    let s = AgingDuration::all_spec();
    assert forall|d: AgingDuration| s.contains(d) by {
        match d {
            AgingDuration::Min1 => { assert(s[0] == d); },
            AgingDuration::Min5 => { assert(s[1] == d); },
            AgingDuration::Min10 => { assert(s[2] == d); },
            AgingDuration::Min20 => { assert(s[3] == d); },
            AgingDuration::Min30 => { assert(s[4] == d); },
            AgingDuration::Hour1 => { assert(s[5] == d); },
            AgingDuration::Hour3 => { assert(s[6] == d); },
            AgingDuration::Hour6 => { assert(s[7] == d); },
            AgingDuration::Hour24 => { assert(s[8] == d); },
        }
    }
}

} // verus!
