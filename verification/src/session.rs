//! Opening an SSH session with retries, and when an upload reports progress.
use vstd::prelude::*;
use crate::text::{concat2, dec_text, owned, push_decimal, push_str};
use crate::types::DeviceState;

verus! {

/// How many times a session is tried before giving up.
pub const CONNECT_ATTEMPTS: u32 = 3;

/// How one try to open a session ended.
pub enum ConnectOutcome {
    /// The TCP connection failed with this error.
    TcpFailed(String),
    /// The SSH session object could not be made.
    SessionFailed(String),
    /// The SSH handshake failed.
    HandshakeFailed(String),
    /// The password login was refused.
    AuthFailed(String),
    /// The login returned but the session is not authenticated.
    NotAuthenticated,
    /// The session is open and logged in.
    LoggedIn,
}

/// What to do after a try.
pub enum ConnectDecision {
    /// Wait this many milliseconds, then try again.
    Retry(u64),
    /// Use the session.
    Succeed,
    /// Give up with this error.
    Fail(String),
}

pub enum ConnectOutcomeView {
    TcpFailed(Seq<char>),
    SessionFailed(Seq<char>),
    HandshakeFailed(Seq<char>),
    AuthFailed(Seq<char>),
    NotAuthenticated,
    LoggedIn,
}

pub enum ConnectDecisionView {
    Retry(u64),
    Succeed,
    Fail(Seq<char>),
}

impl View for ConnectOutcome {
    type V = ConnectOutcomeView;

    open spec fn view(&self) -> ConnectOutcomeView {
        match self {
            ConnectOutcome::TcpFailed(e) => ConnectOutcomeView::TcpFailed(e@),
            ConnectOutcome::SessionFailed(e) => ConnectOutcomeView::SessionFailed(e@),
            ConnectOutcome::HandshakeFailed(e) => ConnectOutcomeView::HandshakeFailed(e@),
            ConnectOutcome::AuthFailed(e) => ConnectOutcomeView::AuthFailed(e@),
            ConnectOutcome::NotAuthenticated => ConnectOutcomeView::NotAuthenticated,
            ConnectOutcome::LoggedIn => ConnectOutcomeView::LoggedIn,
        }
    }
}

impl View for ConnectDecision {
    type V = ConnectDecisionView;

    open spec fn view(&self) -> ConnectDecisionView {
        match self {
            ConnectDecision::Retry(ms) => ConnectDecisionView::Retry(*ms),
            ConnectDecision::Succeed => ConnectDecisionView::Succeed,
            ConnectDecision::Fail(e) => ConnectDecisionView::Fail(e@),
        }
    }
}

/// The tries made so far to open one session.
pub struct ConnectRetry {
    /// How many tries have ended (0 to 3).
    pub attempt: u32,
    /// The error of the last try that can be retried.
    pub last_err: String,
}

/// The error that a retryable failure of try `attempt` (counted from 0) leaves.
pub open spec fn retry_error(o: ConnectOutcomeView, attempt: u32) -> Seq<char> {
    match o {
        ConnectOutcomeView::TcpFailed(e) => "TCP 连接失败: "@ + e,
        ConnectOutcomeView::SessionFailed(e) => "创建会话失败: "@ + e,
        ConnectOutcomeView::HandshakeFailed(e) => "SSH 握手失败(第"@ + dec_text(attempt as nat + 1)
            + "次): "@ + e,
        _ => Seq::<char>::empty(),
    }
}

/// The decision after try number `attempt` (counted from 0) ended with `o`,
/// and the error it leaves: a login answer ends the tries at once; a failure
/// before the login is tried again after `2 * (attempt + 1)` seconds, until
/// three tries have failed.
pub open spec fn connect_decision(attempt: u32, last_err: Seq<char>, o: ConnectOutcomeView) -> (
    Seq<char>,
    ConnectDecisionView,
) {
    match o {
        ConnectOutcomeView::LoggedIn => (last_err, ConnectDecisionView::Succeed),
        ConnectOutcomeView::AuthFailed(e) => (last_err, ConnectDecisionView::Fail("认证失败: "@ + e)),
        ConnectOutcomeView::NotAuthenticated => (last_err, ConnectDecisionView::Fail("SSH 认证失败"@)),
        _ => {
            let err = retry_error(o, attempt);
            if attempt + 1 < CONNECT_ATTEMPTS {
                (err, ConnectDecisionView::Retry((2000 * (attempt + 1)) as u64))
            } else {
                (err, ConnectDecisionView::Fail(err))
            }
        },
    }
}

impl ConnectRetry {
    /// No try made yet.
    pub fn new() -> (r: ConnectRetry)
        ensures
            r.attempt == 0,
            r.last_err@ == Seq::<char>::empty(),
    {
        ConnectRetry { attempt: 0, last_err: String::new() }
    }

    /// Records how the current try ended and decides what comes next.
    pub fn after(&mut self, o: ConnectOutcome) -> (r: ConnectDecision)
        requires
            old(self).attempt < CONNECT_ATTEMPTS,
        ensures
            final(self).last_err@ == connect_decision(old(self).attempt, old(self).last_err@, o@).0,
            r@ == connect_decision(old(self).attempt, old(self).last_err@, o@).1,
            final(self).attempt == old(self).attempt + 1,
    {
        let a = self.attempt;
        self.attempt = a + 1;
        let err = match o {
            ConnectOutcome::LoggedIn => {
                return ConnectDecision::Succeed;
            },
            ConnectOutcome::AuthFailed(e) => {
                return ConnectDecision::Fail(concat2("认证失败: ", e.as_str()));
            },
            ConnectOutcome::NotAuthenticated => {
                return ConnectDecision::Fail(owned("SSH 认证失败"));
            },
            ConnectOutcome::TcpFailed(e) => concat2("TCP 连接失败: ", e.as_str()),
            ConnectOutcome::SessionFailed(e) => concat2("创建会话失败: ", e.as_str()),
            ConnectOutcome::HandshakeFailed(e) => {
                let mut s = owned("SSH 握手失败(第");
                push_decimal(&mut s, a as u128 + 1);
                push_str(&mut s, "次): ");
                push_str(&mut s, e.as_str());
                s
            },
        };
        if a + 1 < CONNECT_ATTEMPTS {
            self.last_err = err;
            ConnectDecision::Retry(2000 * (a as u64 + 1))
        } else {
            let msg = err.clone();
            self.last_err = err;
            ConnectDecision::Fail(msg)
        }
    }
}

/// At most three tries are made, and a retry waits longer each time.
pub proof fn law_connect_tries_bounded(attempt: u32, last_err: Seq<char>, o: ConnectOutcomeView)
    requires
        attempt < CONNECT_ATTEMPTS,
    ensures
        connect_decision(attempt, last_err, o).1 is Retry ==> attempt + 1 < CONNECT_ATTEMPTS,
        connect_decision(attempt, last_err, o).1 matches ConnectDecisionView::Retry(ms) ==> ms == 2000
            * (attempt + 1),
        attempt + 1 == CONNECT_ATTEMPTS ==> !(connect_decision(attempt, last_err, o).1 is Retry),
{
}

/// A try that fails before the login (TCP connection, session object or
/// handshake) is retried while tries are left, after `2 * (attempt + 1)`
/// seconds, and its error is kept for when the tries run out; only a login
/// answer ends the tries early.
pub proof fn law_transient_failures_retry(attempt: u32, last_err: Seq<char>, e: Seq<char>)
    requires
        attempt + 1 < 3,
    ensures
        connect_decision(attempt, last_err, ConnectOutcomeView::TcpFailed(e)) == (
            "TCP 连接失败: "@ + e,
            ConnectDecisionView::Retry((2000 * (attempt + 1)) as u64),
        ),
        connect_decision(attempt, last_err, ConnectOutcomeView::SessionFailed(e)) == (
            "创建会话失败: "@ + e,
            ConnectDecisionView::Retry((2000 * (attempt + 1)) as u64),
        ),
        connect_decision(attempt, last_err, ConnectOutcomeView::HandshakeFailed(e)) == (
            "SSH 握手失败(第"@ + dec_text(attempt as nat + 1) + "次): "@ + e,
            ConnectDecisionView::Retry((2000 * (attempt + 1)) as u64),
        ),
{
}

/// The tries end in failure only on a login answer (refused, or not
/// authenticated) or when the third try fails; the third failure before the
/// login gives that try's error.
pub proof fn law_connect_fails_only_on_login_or_last_try(
    attempt: u32,
    last_err: Seq<char>,
    o: ConnectOutcomeView,
)
    requires
        attempt < 3,
    ensures
        connect_decision(attempt, last_err, o).1 is Fail ==> (o is AuthFailed || o is NotAuthenticated
            || attempt == 2),
        connect_decision(attempt, last_err, o).1 is Succeed <==> o is LoggedIn,
        match o {
            ConnectOutcomeView::HandshakeFailed(e) => attempt == 2 ==> connect_decision(
                attempt,
                last_err,
                o,
            ).1 == ConnectDecisionView::Fail("SSH 握手失败(第3次): "@ + e),
            _ => true,
        },
{
    if let ConnectOutcomeView::HandshakeFailed(e) = o {
        if attempt == 2 {
            reveal_strlit("SSH 握手失败(第");
            reveal_strlit("次): ");
            reveal_strlit("SSH 握手失败(第3次): ");
            assert(dec_text(3) =~= seq!['3']);
            assert("SSH 握手失败(第"@ + dec_text(3) + "次): "@ + e =~= "SSH 握手失败(第3次): "@ + e);
        }
    }
}

// ---------------------------------------------------------------------------
// Upload progress
// ---------------------------------------------------------------------------

/// The bytes of an upload sent so far, and what was last reported.
pub struct UploadProgress {
    /// The size of the file being sent.
    pub total: u64,
    /// The bytes sent so far.
    pub done: u64,
    /// The byte count at the last report, if any.
    pub last_reported: Option<u64>,
}

/// Whether `done` bytes of `total` are worth a new report after `last`: the
/// first count always is; later the share sent must have grown by more than
/// 2% of the file (an empty file counts as fully sent, so it is reported once).
pub open spec fn report_due(last: Option<u64>, done: u64, total: u64) -> bool {
    match last {
        None => true,
        Some(l) => total > 0 && 50 * (done - l) > total,
    }
}

impl UploadProgress {
    /// Nothing sent yet of a file of `total` bytes.
    pub fn new(total: u64) -> (r: UploadProgress)
        ensures
            r.total == total,
            r.done == 0,
            r.last_reported is None,
    {
        UploadProgress { total, done: 0, last_reported: None }
    }

    /// Counts `n` more bytes sent, and gives the state to report when a
    /// report is due.
    pub fn advance(&mut self, n: u64) -> (r: Option<DeviceState>)
        requires
            old(self).done + n <= u64::MAX,
            old(self).last_reported matches Some(l) ==> l <= old(self).done,
        ensures
            final(self).total == old(self).total,
            final(self).done == old(self).done + n,
            report_due(old(self).last_reported, final(self).done, final(self).total) ==> (r matches Some(
                s,
            ) && s == DeviceState::Transferring { done: final(self).done, total: final(self).total }
                && final(self).last_reported == Some(final(self).done)),
            !report_due(old(self).last_reported, final(self).done, final(self).total) ==> (r is None
                && final(self).last_reported == old(self).last_reported),
            final(self).last_reported matches Some(l) ==> l <= final(self).done,
    {
        self.done = self.done + n;
        let due = match self.last_reported {
            None => true,
            Some(l) => self.total > 0 && 50 * ((self.done - l) as u128) > self.total as u128,
        };
        if due {
            self.last_reported = Some(self.done);
            Some(DeviceState::Transferring { done: self.done, total: self.total })
        } else {
            None
        }
    }
}

} // verus!
