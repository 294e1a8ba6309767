//! The web interface's requests: which handler a method and path go to, and
//! the listening port given on the command line.
use vstd::prelude::*;
use crate::text::{chars_of, digits_value, is_digit, str_equal};

verus! {

/// The request methods that the web interface tells apart.
#[derive(PartialEq, Eq, Structural, Clone, Copy, Debug)]
pub enum HttpMethod {
    Get,
    Post,
    Other,
}

/// The handler of a request.
#[derive(PartialEq, Eq, Structural, Clone, Copy, Debug)]
pub enum Route {
    /// `GET /`: the page.
    Index,
    /// `GET /api/state`: the state as JSON.
    State,
    /// `POST /api/set-interface`.
    SetInterface,
    /// `POST /api/scan`.
    Scan,
    /// `POST /api/test`.
    Test,
    /// `POST /api/toggle-device`.
    ToggleDevice,
    /// `POST /api/select-all`.
    SelectAll,
    /// `POST /api/deselect-all`.
    DeselectAll,
    /// `POST /api/update-settings`.
    UpdateSettings,
    /// `POST /api/confirm`.
    Confirm,
    /// Anything else.
    NotFound,
}

/// The handler of a request with method `m` for the path `url`.
pub open spec fn route_of(m: HttpMethod, url: Seq<char>) -> Route {
    match m {
        HttpMethod::Get => if url == "/"@ {
            Route::Index
        } else if url == "/api/state"@ {
            Route::State
        } else {
            Route::NotFound
        },
        HttpMethod::Post => if url == "/api/set-interface"@ {
            Route::SetInterface
        } else if url == "/api/scan"@ {
            Route::Scan
        } else if url == "/api/test"@ {
            Route::Test
        } else if url == "/api/toggle-device"@ {
            Route::ToggleDevice
        } else if url == "/api/select-all"@ {
            Route::SelectAll
        } else if url == "/api/deselect-all"@ {
            Route::DeselectAll
        } else if url == "/api/update-settings"@ {
            Route::UpdateSettings
        } else if url == "/api/confirm"@ {
            Route::Confirm
        } else {
            Route::NotFound
        },
        HttpMethod::Other => Route::NotFound,
    }
}

/// Finds the handler of a request.
pub fn classify_route(m: HttpMethod, url: &str) -> (r: Route)
    ensures
        r == route_of(m, url@),
{
    match m {
        HttpMethod::Get => if str_equal(url, "/") {
            Route::Index
        } else if str_equal(url, "/api/state") {
            Route::State
        } else {
            Route::NotFound
        },
        HttpMethod::Post => if str_equal(url, "/api/set-interface") {
            Route::SetInterface
        } else if str_equal(url, "/api/scan") {
            Route::Scan
        } else if str_equal(url, "/api/test") {
            Route::Test
        } else if str_equal(url, "/api/toggle-device") {
            Route::ToggleDevice
        } else if str_equal(url, "/api/select-all") {
            Route::SelectAll
        } else if str_equal(url, "/api/deselect-all") {
            Route::DeselectAll
        } else if str_equal(url, "/api/update-settings") {
            Route::UpdateSettings
        } else if str_equal(url, "/api/confirm") {
            Route::Confirm
        } else {
            Route::NotFound
        },
        HttpMethod::Other => Route::NotFound,
    }
}

/// The digits of a port argument: the text after an optional leading `+`.
pub open spec fn port_digits(s: Seq<char>) -> Seq<char> {
    if s.len() > 0 && s[0] == '+' {
        s.skip(1)
    } else {
        s
    }
}

/// The port that the text `s` names, as `u16`'s `FromStr` reads it: an
/// optional `+`, then one or more ASCII digits (leading zeros allowed) whose
/// value is at most 65535.
pub open spec fn port_of(s: Seq<char>) -> Option<u16> {
    let d = port_digits(s);
    if d.len() > 0 && (forall|i: int| 0 <= i < d.len() ==> is_digit(#[trigger] d[i]))
        && digits_value(d) <= 65535 {
        Some(digits_value(d) as u16)
    } else {
        None
    }
}

proof fn lemma_digits_value_prefix(s: Seq<char>, k: int)
    requires
        0 <= k <= s.len(),
        forall|j: int| 0 <= j < s.len() ==> is_digit(#[trigger] s[j]),
    ensures
        digits_value(s) >= digits_value(s.take(k)),
    decreases s.len() - k,
{
    if k < s.len() {
        lemma_digits_value_prefix(s, k + 1);
        assert(s.take(k + 1).drop_last() == s.take(k));
    } else {
        assert(s.take(k) == s);
    }
}

/// The port the web interface listens on when none is given and it is free.
pub const DEFAULT_PORT: u16 = 8080;

/// The ports tried in turn, after the default one, when none is given.
pub const FALLBACK_PORTS_FIRST: u16 = 8000;
pub const FALLBACK_PORTS_LAST: u16 = 9000;

/// Reads the listening port from the command line argument.
pub fn parse_port(arg: &str) -> (r: Option<u16>)
    ensures
        r == port_of(arg@),
{
    let cs = chars_of(arg);
    let from: usize = if cs.len() > 0 && cs[0] == '+' { 1 } else { 0 };
    let ghost d = port_digits(arg@);
    proof {
        assert(d == cs@.skip(from as int));
    }
    if from >= cs.len() {
        return None;
    }
    let n = cs.len();
    let mut k: usize = from;
    while k < n
        invariant
            from <= k <= n,
            n == cs@.len(),
            d == cs@.skip(from as int),
            d == port_digits(arg@),
            forall|j: int| 0 <= j < k - from ==> is_digit(#[trigger] d[j]),
        decreases n - k,
    {
        let c = cs[k];
        if !('0' <= c && c <= '9') {
            assert(d[k - from] == c);
            return None;
        }
        assert(d[k - from] == c);
        k = k + 1;
    }
    let mut v: u64 = 0;
    let mut k: usize = from;
    while k < n
        invariant
            from <= k <= n,
            n == cs@.len(),
            d == cs@.skip(from as int),
            d.len() == n - from,
            d == port_digits(arg@),
            forall|j: int| 0 <= j < d.len() ==> is_digit(#[trigger] d[j]),
            v == digits_value(d.take(k - from)),
            v <= 65535,
        decreases n - k,
    {
        let c = cs[k];
        assert(d[k - from] == c);
        assert(is_digit(d[k - from]));
        let dv: u64 = (c as u32 - '0' as u32) as u64;
        assert(d.take(k - from + 1).drop_last() == d.take(k - from));
        assert(d.take(k - from + 1).last() == c);
        let nv = v * 10 + dv;
        if nv > 65535 {
            proof {
                lemma_digits_value_prefix(d, k - from + 1);
            }
            return None;
        }
        v = nv;
        k = k + 1;
    }
    assert(d.take(n - from) == d);
    Some(v as u16)
}

} // verus!
