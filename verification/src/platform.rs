//! What the library takes from outside itself: the local clock, the
//! machine's network interfaces, fields of JSON request bodies, and the file
//! name part of a path. Each outside call sits in one small function here.
use vstd::prelude::*;
use crate::ipv4::{ipv4_is_loopback, is_loopback};
use crate::text::is_digit;
use crate::types::{InterfaceView, NetworkInterface};

verus! {

/// Whether `t` is a time of day `HH:MM:SS` in ASCII digits.
pub open spec fn is_clock_text(t: Seq<char>) -> bool {
    &&& t.len() == 8
    &&& is_digit(t[0]) && is_digit(t[1]) && t[2] == ':'
    &&& is_digit(t[3]) && is_digit(t[4]) && t[5] == ':'
    &&& is_digit(t[6]) && is_digit(t[7])
}

/// The local time of day, `HH:MM:SS`, from `chrono::Local::now()` formatted
/// with `%H:%M:%S`. Each field is two zero-padded digits, as chrono documents
/// for these specifiers; which time it is, is not stated.
#[verifier::external_body]
pub(crate) fn clock_hms() -> (r: String)
    ensures
        is_clock_text(r@),
{
    chrono::Local::now().format("%H:%M:%S").to_string()
}

/// Whether `y` is a year as chrono's `%Y` writes it: four digits, or, for a
/// year outside 0 to 9999, a sign and at least four digits.
pub open spec fn is_year_text(y: Seq<char>) -> bool {
    ||| y.len() == 4 && forall|i: int| 0 <= i < 4 ==> is_digit(#[trigger] y[i])
    ||| y.len() >= 5 && (y[0] == '+' || y[0] == '-') && forall|i: int|
        1 <= i < y.len() ==> is_digit(#[trigger] y[i])
}

/// Whether `t` is a date and time `YYYY-MM-DD HH:MM:SS`: a year, then month,
/// day, hour, minute and second in two ASCII digits each.
pub open spec fn is_datetime_text(t: Seq<char>) -> bool {
    &&& t.len() >= 19
    &&& is_year_text(t.subrange(0, t.len() - 15))
    &&& t[t.len() - 15] == '-' && is_digit(t[t.len() - 14]) && is_digit(t[t.len() - 13])
    &&& t[t.len() - 12] == '-' && is_digit(t[t.len() - 11]) && is_digit(t[t.len() - 10])
    &&& t[t.len() - 9] == ' '
    &&& is_clock_text(t.subrange(t.len() - 8, t.len() as int))
}

/// The local date and time, `YYYY-MM-DD HH:MM:SS`, from
/// `chrono::Local::now()` formatted with `%Y-%m-%d %H:%M:%S`. Stated: its
/// shape, as chrono writes these specifiers (month, day, hour, minute and
/// second zero-padded to two digits; the year to four, with a sign outside
/// 0 to 9999); which moment it is, is not stated.
#[verifier::external_body]
pub(crate) fn clock_datetime() -> (r: String)
    ensures
        is_datetime_text(r@),
{
    chrono::Local::now().format("%Y-%m-%d %H:%M:%S").to_string()
}

/// An interface as the operating system lists it: its name, and its IPv4
/// address and netmask when the entry is an IPv4 one.
pub struct RawInterface {
    pub name: String,
    pub v4: Option<(u32, u32)>,
}

/// The machine's network interface entries from `if_addrs::get_if_addrs`,
/// each converted to a name and, for an IPv4 entry, its address and netmask
/// as numbers; `None` when the listing fails. The entries depend on the
/// machine, so nothing is stated of them.
#[verifier::external_body]
fn system_interfaces() -> Option<Vec<RawInterface>> {
    match if_addrs::get_if_addrs() {
        Ok(list) => Some(
            list.into_iter().map(|i| RawInterface {
                v4: match i.addr {
                    if_addrs::IfAddr::V4(v) => Some((u32::from(v.ip), u32::from(v.netmask))),
                    _ => None,
                },
                name: i.name,
            }).collect(),
        ),
        Err(_) => None,
    }
}

/// The IPv4 interfaces among `raw` that are not loopback, in order.
pub open spec fn usable_interfaces(raw: Seq<(Seq<char>, Option<(u32, u32)>)>) -> Seq<InterfaceView>
    decreases raw.len(),
{
    if raw.len() == 0 {
        Seq::<InterfaceView>::empty()
    } else {
        let rest = usable_interfaces(raw.drop_last());
        match raw.last().1 {
            Some((ip, mask)) => if !is_loopback(ip) {
                rest.push(InterfaceView { name: raw.last().0, ip, netmask: mask })
            } else {
                rest
            },
            None => rest,
        }
    }
}

/// What a raw interface list says.
pub open spec fn raw_view(raw: Seq<RawInterface>) -> Seq<(Seq<char>, Option<(u32, u32)>)> {
    raw.map_values(|r: RawInterface| (r.name@, r.v4))
}

/// The views of a list of interfaces.
pub open spec fn interfaces_view(v: Seq<NetworkInterface>) -> Seq<InterfaceView> {
    v.map_values(|i: NetworkInterface| i@)
}

/// Keeps the IPv4 entries that are not loopback.
pub fn select_interfaces(raw: Vec<RawInterface>) -> (r: Vec<NetworkInterface>)
    ensures
        interfaces_view(r@) == usable_interfaces(raw_view(raw@)),
{
    let mut out: Vec<NetworkInterface> = Vec::new();
    let n = raw.len();
    let mut i: usize = 0;
    while i < n
        invariant
            n == raw@.len(),
            i <= n,
            interfaces_view(out@) == usable_interfaces(raw_view(raw@.take(i as int))),
        decreases n - i,
    {
        let r = &raw[i];
        proof {
            assert(raw@.take(i + 1).drop_last() == raw@.take(i as int));
            assert(raw_view(raw@.take(i + 1)).drop_last() == raw_view(raw@.take(i as int)));
            assert(raw_view(raw@.take(i + 1)).last() == (r.name@, r.v4));
        }
        match r.v4 {
            Some((ip, mask)) => {
                if !ipv4_is_loopback(ip) {
                    let ghost before = out@;
                    out.push(NetworkInterface { name: r.name.clone(), ip, netmask: mask });
                    assert(interfaces_view(out@) == interfaces_view(before).push(
                        InterfaceView { name: r.name@, ip, netmask: mask },
                    ));
                }
            },
            None => {},
        }
        i = i + 1;
    }
    assert(raw@.take(n as int) == raw@);
    out
}

/// The interfaces that an interface listing gives: none when the listing
/// failed, else its IPv4 entries that are not loopback, in order.
pub fn interfaces_from(listing: Option<Vec<RawInterface>>) -> (r: Vec<NetworkInterface>)
    ensures
        match listing {
            Some(raw) => interfaces_view(r@) == usable_interfaces(raw_view(raw@)),
            None => r@.len() == 0,
        },
        forall|k: int| 0 <= k < r@.len() ==> !is_loopback(#[trigger] r@[k].ip),
{
    match listing {
        Some(raw) => {
            let r = select_interfaces(raw);
            proof {
                lemma_usable_not_loopback(raw_view(raw@));
                assert forall|k: int| 0 <= k < r@.len() implies !is_loopback(#[trigger] r@[k].ip) by {
                    assert(interfaces_view(r@)[k] == r@[k]@);
                    assert(usable_interfaces(raw_view(raw@))[k].ip == r@[k].ip);
                }
            }
            r
        },
        None => Vec::new(),
    }
}

/// The machine's IPv4 interfaces that are not loopback, as
/// `interfaces_from` takes them from the system's listing; empty when the
/// system cannot list them. Which interfaces the machine has is not stated.
pub fn get_interfaces() -> (r: Vec<NetworkInterface>)
    ensures
        forall|k: int| 0 <= k < r@.len() ==> !is_loopback(#[trigger] r@[k].ip),
{
    interfaces_from(system_interfaces())
}

proof fn lemma_usable_not_loopback(raw: Seq<(Seq<char>, Option<(u32, u32)>)>)
    ensures
        forall|k: int|
            0 <= k < usable_interfaces(raw).len() ==> !is_loopback(
                #[trigger] usable_interfaces(raw)[k].ip,
            ),
    decreases raw.len(),
{
    if raw.len() > 0 {
        lemma_usable_not_loopback(raw.drop_last());
        let rest = usable_interfaces(raw.drop_last());
        let all = usable_interfaces(raw);
        assert forall|k: int| 0 <= k < all.len() implies !is_loopback(#[trigger] all[k].ip) by {
            if k < rest.len() {
                match raw.last().1 {
                    Some((ip, mask)) => {
                        if !is_loopback(ip) {
                            assert(all[k] == rest[k]);
                        }
                    },
                    None => {},
                }
            }
        }
    }
}

/// What `serde_json` finds in a request body: the unsigned integer under
/// `key` when `body` parses as a JSON object that has one there.
pub uninterp spec fn json_u64_at(body: Seq<char>, key: Seq<char>) -> Option<u64>;

/// What `serde_json` finds in a request body: the string under `key` when
/// `body` parses as a JSON object that has one there.
pub uninterp spec fn json_str_at(body: Seq<char>, key: Seq<char>) -> Option<Seq<char>>;

/// The unsigned integer field `key` of the JSON text `body`: parses `body`
/// with `serde_json::from_str` into a `serde_json::Value`, looks `key` up
/// with `Value::get`, and reads it with `Value::as_u64`. The result is named,
/// not described.
#[verifier::external_body]
pub(crate) fn json_u64_field(body: &str, key: &str) -> (r: Option<u64>)
    ensures
        r == json_u64_at(body@, key@),
{
    match serde_json::from_str::<serde_json::Value>(body) {
        Ok(v) => match v.get(key) {
            Some(f) => f.as_u64(),
            None => None,
        },
        Err(_) => None,
    }
}

/// The string field `key` of the JSON text `body`: parses `body` with
/// `serde_json::from_str`, looks `key` up with `Value::get`, and reads it
/// with `Value::as_str`. The result is named, not described.
#[verifier::external_body]
pub(crate) fn json_str_field(body: &str, key: &str) -> (r: Option<String>)
    ensures
        crate::remote::opt_string(r) == json_str_at(body@, key@),
{
    match serde_json::from_str::<serde_json::Value>(body) {
        Ok(v) => match v.get(key) {
            Some(f) => f.as_str().map(|s| s.to_string()),
            None => None,
        },
        Err(_) => None,
    }
}

/// The last component of a path as `std::path::Path::file_name` gives it
/// (empty when there is none), converted to text.
pub uninterp spec fn path_file_name(path: Seq<char>) -> Seq<char>;

/// The file name part of `path`: `Path::file_name`, empty when the path has
/// none, converted with `to_string_lossy`. The result is named, not described.
#[verifier::external_body]
pub(crate) fn file_name_of(path: &str) -> (r: String)
    ensures
        r@ == path_file_name(path@),
{
    std::path::Path::new(path).file_name().unwrap_or_default().to_string_lossy().to_string()
}

} // verus!
