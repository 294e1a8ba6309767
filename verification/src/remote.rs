//! The shell commands that the tool runs on a device, and the reading of
//! what they print.
use vstd::prelude::*;
use crate::text::{
    chars_of, concat2, contains_seq, has_prefix, lemma_split_on_len, lemma_split_on_push,
    matches_at, owned, push_decimal, push_signed_decimal, push_str, signed_dec_text, split_on,
    str_contains, string_from_chars, trim, trim_range, dec_text, is_digit, is_ws, trim_start,
    trim_end,
};
use crate::ipv4::{ipv4_text, law_ipv4_text_unique, lemma_ipv4_text_chars};

verus! {

/// The field name of the device serial number in `bm_get_basic_info`'s output.
pub open spec fn device_sn_key() -> Seq<char> {
    "device sn:"@
}

/// The field name of the chip serial number in `bm_get_basic_info`'s output.
pub open spec fn chip_sn_key() -> Seq<char> {
    "chip sn:"@
}

/// The value of `key` on `line`: the trimmed line starts with `key`, and what
/// follows, trimmed, is not empty.
pub open spec fn field_value(line: Seq<char>, key: Seq<char>) -> Option<Seq<char>> {
    let t = trim(line);
    if has_prefix(t, key) {
        let v = trim(t.skip(key.len() as int));
        if v.len() > 0 {
            Some(v)
        } else {
            None
        }
    } else {
        None
    }
}

/// The value of `key` on the last of `lines` that gives one.
pub open spec fn last_field_value(lines: Seq<Seq<char>>, key: Seq<char>) -> Option<Seq<char>>
    decreases lines.len(),
{
    if lines.len() == 0 {
        None
    } else {
        match field_value(lines.last(), key) {
            Some(v) => Some(v),
            None => last_field_value(lines.drop_last(), key),
        }
    }
}

/// The serial number that `bm_get_basic_info`'s output gives: the last
/// nonempty `device sn:` value, or else the last nonempty `chip sn:` value.
/// Lines are taken between newlines; a carriage return before a newline is
/// whitespace and goes with the trimming.
pub open spec fn sn_of_output(out: Seq<char>) -> Option<Seq<char>> {
    let lines = split_on(out, '\n');
    match last_field_value(lines, device_sn_key()) {
        Some(v) => Some(v),
        None => last_field_value(lines, chip_sn_key()),
    }
}

/// The view of an optional character vector.
pub open spec fn opt_chars(o: Option<Vec<char>>) -> Option<Seq<char>> {
    match o {
        Some(v) => Some(v@),
        None => None,
    }
}

/// The view of an optional string.
pub open spec fn opt_string(o: Option<String>) -> Option<Seq<char>> {
    match o {
        Some(v) => Some(v@),
        None => None,
    }
}

fn field_in_line(line: &Vec<char>, key: &Vec<char>) -> (r: Option<Vec<char>>)
    ensures
        opt_chars(r) == field_value(line@, key@),
{
    let t = trim_range(line, 0);
    assert(line@.skip(0) == line@);
    if matches_at(&t, 0, key) {
        assert(t@.subrange(0, key@.len() as int) == t@.take(key@.len() as int));
        let v = trim_range(&t, key.len());
        if v.len() > 0 {
            Some(v)
        } else {
            None
        }
    } else {
        assert(!has_prefix(t@, key@)) by {
            if has_prefix(t@, key@) {
                assert(t@.subrange(0, key@.len() as int) == t@.take(key@.len() as int));
            }
        }
        None
    }
}

proof fn lemma_keys_exclusive(t: Seq<char>)
    ensures
        !(has_prefix(t, device_sn_key()) && has_prefix(t, chip_sn_key())),
{
    reveal_strlit("device sn:");
    reveal_strlit("chip sn:");
    if has_prefix(t, device_sn_key()) && has_prefix(t, chip_sn_key()) {
        assert(t.take(10)[0] == 'd');
        assert(t.take(8)[0] == 'c');
    }
}

/// Reads the serial number from `bm_get_basic_info`'s output, preferring the
/// device serial number to the chip serial number.
pub fn parse_sn(output: &str) -> (r: Option<String>)
    ensures
        opt_string(r) == sn_of_output(output@),
{
    let cs = chars_of(output);
    let dkey = chars_of("device sn:");
    let ckey = chars_of("chip sn:");
    let n = cs.len();
    let mut device_sn: Option<Vec<char>> = None;
    let mut chip_sn: Option<Vec<char>> = None;
    let mut cur: Vec<char> = Vec::new();
    let mut i: usize = 0;
    proof {
        assert(cs@.take(0) == Seq::<char>::empty());
    }
    while i < n
        invariant
            n == cs@.len(),
            cs@ == output@,
            dkey@ == device_sn_key(),
            ckey@ == chip_sn_key(),
            i <= n,
            cur@ == split_on(cs@.take(i as int), '\n').last(),
            opt_chars(device_sn) == last_field_value(
                split_on(cs@.take(i as int), '\n').drop_last(),
                device_sn_key(),
            ),
            opt_chars(chip_sn) == last_field_value(
                split_on(cs@.take(i as int), '\n').drop_last(),
                chip_sn_key(),
            ),
        decreases n - i,
    {
        let c = cs[i];
        let ghost before = split_on(cs@.take(i as int), '\n');
        proof {
            assert(cs@.take(i + 1) == cs@.take(i as int).push(c));
            lemma_split_on_push(cs@.take(i as int), c, '\n');
            lemma_split_on_len(cs@.take(i as int), '\n');
        }
        if c == '\n' {
            let d = field_in_line(&cur, &dkey);
            if d.is_some() {
                device_sn = d;
            } else {
                let h = field_in_line(&cur, &ckey);
                if h.is_some() {
                    chip_sn = h;
                }
            }
            proof {
                let after = before.push(Seq::<char>::empty());
                assert(after.drop_last() == before);
                assert(before.drop_last().push(before.last()) == before);
                if field_value(cur@, device_sn_key()) is Some {
                    lemma_keys_exclusive(trim(cur@));
                }
            }
            cur = Vec::new();
        } else {
            cur.push(c);
            proof {
                let after = before.update(before.len() - 1, before.last().push(c));
                assert(after.drop_last() == before.drop_last());
            }
        }
        i = i + 1;
    }
    assert(cs@.take(n as int) == output@);
    let d = field_in_line(&cur, &dkey);
    if d.is_some() {
        device_sn = d;
    } else {
        let h = field_in_line(&cur, &ckey);
        if h.is_some() {
            chip_sn = h;
        }
    }
    proof {
        let lines = split_on(output@, '\n');
        lemma_split_on_len(output@, '\n');
        if field_value(cur@, device_sn_key()) is Some {
            lemma_keys_exclusive(trim(cur@));
        }
        assert(lines.drop_last().push(lines.last()) == lines);
    }
    match device_sn {
        Some(v) => Some(string_from_chars(v.as_slice())),
        None => match chip_sn {
            Some(v) => Some(string_from_chars(v.as_slice())),
            None => None,
        },
    }
}

/// The MAC address that the MAC query printed: its output trimmed, if not empty.
pub open spec fn mac_of_output(out: Seq<char>) -> Option<Seq<char>> {
    if trim(out).len() == 0 {
        None
    } else {
        Some(trim(out))
    }
}

/// Reads the MAC address from the MAC query's output.
pub fn parse_mac(output: &str) -> (r: Option<String>)
    ensures
        opt_string(r) == mac_of_output(output@),
{
    let cs = chars_of(output);
    let t = trim_range(&cs, 0);
    assert(cs@.skip(0) == cs@);
    if t.len() == 0 {
        None
    } else {
        Some(string_from_chars(t.as_slice()))
    }
}

/// The MAC address that stands in when the device does not tell its own.
pub open spec fn unknown_mac() -> Seq<char> {
    "unknown"@
}

/// What a remote command's run is reported as: its standard output, and when
/// it exited with a nonzero status (a missing status counts as -1) and wrote
/// to standard error, a line with the status and the error text after it.
pub open spec fn exec_report(stdout: Seq<char>, stderr: Seq<char>, status: Option<i32>) -> Seq<
    char,
> {
    let code: int = match status {
        Some(c) => c as int,
        None => -1,
    };
    if code != 0 && stderr.len() > 0 {
        stdout + "\n[stderr exit="@ + signed_dec_text(code) + "] "@ + stderr
    } else {
        stdout
    }
}

/// Joins a remote command's outputs and exit status into its report.
pub fn combine_exec_output(stdout: String, stderr: &str, status: Option<i32>) -> (r: String)
    ensures
        r@ == exec_report(stdout@, stderr@, status),
{
    let code: i32 = match status {
        Some(c) => c,
        None => -1,
    };
    let mut out = stdout;
    if code != 0 && !stderr.is_empty() {
        push_str(&mut out, "\n[stderr exit=");
        push_signed_decimal(&mut out, code as i64);
        push_str(&mut out, "] ");
        push_str(&mut out, stderr);
    }
    out
}

/// The prefix that loads the login profile before a command.
pub open spec fn profile_prefix() -> Seq<char> {
    "source /etc/profile 2>/dev/null; "@
}

/// `cmd` run after loading the login profile.
pub fn with_profile(cmd: &str) -> (r: String)
    ensures
        r@ == profile_prefix() + cmd@,
{
    concat2("source /etc/profile 2>/dev/null; ", cmd)
}

/// The command that reads the device's serial numbers.
pub open spec fn sn_query_spec() -> Seq<char> {
    profile_prefix() + "bm_get_basic_info"@
}

/// The command that reads the device's serial numbers.
pub fn sn_query() -> (r: String)
    ensures
        r@ == sn_query_spec(),
{
    with_profile("bm_get_basic_info")
}

/// The command that reads the device's MAC address.
pub open spec fn mac_query_spec() -> Seq<char> {
    "cat /sys/class/net/eth0/address 2>/dev/null || ip link show | grep ether | head -1 | awk '{print $2}'"@
}

/// The command that reads the device's MAC address.
pub fn mac_query() -> (r: String)
    ensures
        r@ == mac_query_spec(),
{
    owned(
        "cat /sys/class/net/eth0/address 2>/dev/null || ip link show | grep ether | head -1 | awk '{print $2}'",
    )
}

/// Where the test program goes on the device.
pub open spec fn remote_path_spec(file_name: Seq<char>) -> Seq<char> {
    "/data/"@ + file_name
}

/// Where the test program goes on the device.
pub fn remote_path(file_name: &str) -> (r: String)
    ensures
        r@ == remote_path_spec(file_name@),
{
    concat2("/data/", file_name)
}

/// The command that unpacks the uploaded archive in the background and
/// leaves tar's exit status in `/tmp/tar_done`.
pub open spec fn extract_command_spec(file_name: Seq<char>) -> Seq<char> {
    "rm -f /tmp/tar_done /tmp/tar.log; nohup sh -c '. /etc/profile 2>/dev/null; cd /data && tar -xaf "@
        + file_name
        + " > /tmp/tar.log 2>&1; echo $? > /tmp/tar_done' </dev/null >/dev/null 2>&1 & echo BG_OK"@
}

/// The command that unpacks the uploaded archive in the background.
pub fn extract_command(file_name: &str) -> (r: String)
    ensures
        r@ == extract_command_spec(file_name@),
{
    let mut s = owned(
        "rm -f /tmp/tar_done /tmp/tar.log; nohup sh -c '. /etc/profile 2>/dev/null; cd /data && tar -xaf ",
    );
    push_str(&mut s, file_name);
    push_str(&mut s, " > /tmp/tar.log 2>&1; echo $? > /tmp/tar_done' </dev/null >/dev/null 2>&1 & echo BG_OK");
    s
}

/// The command that starts the burn-in test for `minutes` minutes in the
/// background and leaves its exit status in `/data/aging_done`.
pub open spec fn test_command_spec(minutes: nat) -> Seq<char> {
    "rm -f /data/aging_done; nohup sh -c '. /etc/profile 2>/dev/null; cd /data/bm1684x_soc_aging && ./bm1684x_soc_aging --restart_all --run_time "@
        + dec_text(minutes)
        + " >/data/aging_output.log 2>&1; echo $? > /data/aging_done' </dev/null >/dev/null 2>&1 & echo BG_OK"@
}

/// The command that starts the burn-in test in the background.
pub fn test_command(minutes: u32) -> (r: String)
    ensures
        r@ == test_command_spec(minutes as nat),
{
    let mut s = owned(
        "rm -f /data/aging_done; nohup sh -c '. /etc/profile 2>/dev/null; cd /data/bm1684x_soc_aging && ./bm1684x_soc_aging --restart_all --run_time ",
    );
    push_decimal(&mut s, minutes as u128);
    push_str(&mut s, " >/data/aging_output.log 2>&1; echo $? > /data/aging_done' </dev/null >/dev/null 2>&1 & echo BG_OK");
    s
}

/// The name of a device's log file.
pub open spec fn log_file_name_spec(ip: Seq<char>, sn: Seq<char>) -> Seq<char> {
    ip + "_"@ + sn + ".log"@
}

/// The name of a device's log file, `<ip>_<sn>.log`.
pub fn log_file_name(ip: &str, sn: &str) -> (r: String)
    ensures
        r@ == log_file_name_spec(ip@, sn@),
{
    let mut s = owned(ip);
    push_str(&mut s, "_");
    push_str(&mut s, sn);
    push_str(&mut s, ".log");
    s
}

proof fn lemma_split_last_line(out: Seq<char>, line: Seq<char>)
    requires
        forall|i: int| 0 <= i < line.len() ==> line[i] != '\n',
    ensures
        split_on(out.push('\n') + line, '\n') == split_on(out, '\n').push(line),
    decreases line.len(),
{
    if line.len() == 0 {
        assert(line =~= Seq::<char>::empty());
        assert(out.push('\n') + line =~= out.push('\n'));
        lemma_split_on_push(out, '\n', '\n');
    } else {
        let l0 = line.drop_last();
        let c = line.last();
        assert forall|i: int| 0 <= i < l0.len() implies l0[i] != '\n' by {
            assert(l0[i] == line[i]);
        }
        lemma_split_last_line(out, l0);
        assert(out.push('\n') + line =~= (out.push('\n') + l0).push(c));
        lemma_split_on_push(out.push('\n') + l0, c, '\n');
        let init = split_on(out.push('\n') + l0, '\n');
        assert(init == split_on(out, '\n').push(l0));
        assert(init.len() - 1 == split_on(out, '\n').len());
        assert(init.last() == l0);
        assert(c == line[line.len() - 1]);
        assert(l0.push(c) == line);
        assert(split_on(out, '\n').push(l0).update(split_on(out, '\n').len() as int, l0.push(c))
            == split_on(out, '\n').push(line));
    }
}

/// A last line `device sn: V` gives `V` as the serial number, whatever the
/// lines before it say (a device serial number wins over any chip serial
/// number, and a later line over an earlier one).
pub proof fn law_last_device_sn_wins(out: Seq<char>, v: Seq<char>)
    requires
        v.len() > 0,
        !is_ws(v[0]),
        !is_ws(v.last()),
        forall|i: int| 0 <= i < v.len() ==> v[i] != '\n',
    ensures
        sn_of_output(out.push('\n') + ("device sn: "@ + v)) == Some(v),
{
    reveal_strlit("device sn: ");
    reveal_strlit("device sn:");
    let line = "device sn: "@ + v;
    assert forall|i: int| 0 <= i < line.len() implies line[i] != '\n' by {
        if i >= 11 {
            assert(line[i] == v[i - 11]);
        }
    }
    lemma_split_last_line(out, line);
    let lines = split_on(out.push('\n') + line, '\n');
    assert(lines.last() == line);
    assert(line[0] == 'd');
    assert(trim_start(line) == line);
    assert(line.last() == v.last());
    assert(trim_end(line) == line);
    assert(line.take(10) =~= device_sn_key());
    let rest = line.skip(10);
    assert(rest.len() > 0 && rest[0] == ' ');
    assert(rest.drop_first() =~= v);
    assert(trim_start(v) == v);
    assert(trim_start(rest) == trim_start(rest.drop_first()));
    assert(trim_end(v) == v);
    assert(field_value(line, device_sn_key()) == Some(v));
}

/// A later `chip sn:` line never overrides a device serial number: when the
/// output already gives one, adding a chip serial number line after it
/// leaves the serial number as it was.
pub proof fn law_chip_sn_never_overrides(out: Seq<char>, d: Seq<char>, v: Seq<char>)
    requires
        last_field_value(split_on(out, '\n'), device_sn_key()) == Some(d),
        v.len() > 0,
        !is_ws(v.last()),
        forall|i: int| 0 <= i < v.len() ==> v[i] != '\n',
    ensures
        sn_of_output(out) == Some(d),
        sn_of_output(out.push('\n') + ("chip sn: "@ + v)) == Some(d),
{
    reveal_strlit("chip sn: ");
    reveal_strlit("device sn:");
    let line = "chip sn: "@ + v;
    assert forall|i: int| 0 <= i < line.len() implies line[i] != '\n' by {
        if i >= 9 {
            assert(line[i] == v[i - 9]);
        }
    }
    lemma_split_last_line(out, line);
    let lines = split_on(out.push('\n') + line, '\n');
    assert(lines.last() == line);
    assert(lines.drop_last() == split_on(out, '\n'));
    assert(line[0] == 'c');
    assert(trim_start(line) == line);
    assert(line.last() == v.last());
    assert(trim_end(line) == line);
    assert(line.take(10)[0] == 'c');
    assert(!has_prefix(line, device_sn_key()));
    assert(field_value(line, device_sn_key()) is None);
}

/// Devices at different addresses keep separate log files: two addresses
/// without `_` in them never share a log file name, whatever the serial
/// numbers are.
pub proof fn law_log_file_per_device(ip1: Seq<char>, sn1: Seq<char>, ip2: Seq<char>, sn2: Seq<char>)
    requires
        !ip1.contains('_'),
        !ip2.contains('_'),
        ip1 != ip2,
    ensures
        log_file_name_spec(ip1, sn1) != log_file_name_spec(ip2, sn2),
{
    reveal_strlit("_");
    let f1 = log_file_name_spec(ip1, sn1);
    let f2 = log_file_name_spec(ip2, sn2);
    if f1 == f2 {
        if ip1.len() < ip2.len() {
            let k = ip1.len() as int;
            assert(f1[k] == '_');
            assert(f2[k] == ip2[k]);
            assert(ip2.contains(ip2[k]));
        } else if ip2.len() < ip1.len() {
            let k = ip2.len() as int;
            assert(f2[k] == '_');
            assert(f1[k] == ip1[k]);
            assert(ip1.contains(ip1[k]));
        } else {
            assert forall|k: int| 0 <= k < ip1.len() implies ip1[k] == ip2[k] by {
                assert(f1[k] == ip1[k]);
                assert(f2[k] == ip2[k]);
            }
            assert(ip1 =~= ip2);
        }
    }
}

/// Devices at different IPv4 addresses keep separate log files, whatever
/// their serial numbers.
pub proof fn law_log_file_per_address(a: u32, sn1: Seq<char>, b: u32, sn2: Seq<char>)
    requires
        a != b,
    ensures
        log_file_name_spec(ipv4_text(a), sn1) != log_file_name_spec(ipv4_text(b), sn2),
{
    lemma_ipv4_text_chars(a);
    lemma_ipv4_text_chars(b);
    if ipv4_text(a) == ipv4_text(b) {
        law_ipv4_text_unique(a, b);
    }
    assert(!ipv4_text(a).contains('_')) by {
        if ipv4_text(a).contains('_') {
            let k = choose|k: int| 0 <= k < ipv4_text(a).len() && ipv4_text(a)[k] == '_';
            assert(is_digit(ipv4_text(a)[k]) || ipv4_text(a)[k] == '.');
        }
    }
    assert(!ipv4_text(b).contains('_')) by {
        if ipv4_text(b).contains('_') {
            let k = choose|k: int| 0 <= k < ipv4_text(b).len() && ipv4_text(b)[k] == '_';
            assert(is_digit(ipv4_text(b)[k]) || ipv4_text(b)[k] == '.');
        }
    }
    law_log_file_per_device(ipv4_text(a), sn1, ipv4_text(b), sn2);
}

/// What the burn-in log's result marker says.
#[derive(PartialEq, Eq, Structural, Clone, Copy, Debug)]
pub enum Verdict {
    Pass,
    Fail,
    NoMarker,
}

/// The verdict of a marker line: a pass marker wins, then a fail marker.
pub open spec fn verdict_of(marker: Seq<char>) -> Verdict {
    let m = trim(marker);
    if contains_seq(m, "QA_AGING_PASS"@) {
        Verdict::Pass
    } else if contains_seq(m, "QA_AGING_FAILED"@) || contains_seq(m, "QA_AGING_FAIL"@) {
        Verdict::Fail
    } else {
        Verdict::NoMarker
    }
}

/// Reads the verdict from the output of the marker search.
pub fn classify_marker(marker: &str) -> (r: Verdict)
    ensures
        r == verdict_of(marker@),
{
    let cs = chars_of(marker);
    let t = trim_range(&cs, 0);
    assert(cs@.skip(0) == cs@);
    let pass = chars_of("QA_AGING_PASS");
    let failed = chars_of("QA_AGING_FAILED");
    let fail = chars_of("QA_AGING_FAIL");
    if crate::text::contains_chars(&t, &pass) {
        Verdict::Pass
    } else if crate::text::contains_chars(&t, &failed) || crate::text::contains_chars(&t, &fail) {
        Verdict::Fail
    } else {
        Verdict::NoMarker
    }
}

/// The trimmed text of a status file, such as an exit code.
pub fn trimmed(output: &str) -> (r: String)
    ensures
        r@ == trim(output@),
{
    let cs = chars_of(output);
    let t = trim_range(&cs, 0);
    assert(cs@.skip(0) == cs@);
    string_from_chars(t.as_slice())
}

/// Whether a background start command reported success.
pub fn started_in_background(output: &str) -> (r: bool)
    ensures
        r == contains_seq(output@, "BG_OK"@),
{
    str_contains(output, "BG_OK")
}

} // verus!
