//! IPv4 addresses as 32-bit numbers: dotted-decimal text in both directions,
//! and the scan range that an interface's address and netmask give.
use vstd::prelude::*;
use crate::text::{
    chars_of, dec_text, digits_value, is_canonical_digits, is_digit, lemma_canonical_digits,
    lemma_dec_text, lemma_split_on_len, lemma_split_on_plain, lemma_split_on_push,
    lemma_split_on_sep, parse_canonical, push_decimal, split_on,
};

verus! {

/// The first (most significant) octet of `a`.
pub open spec fn octet0(a: u32) -> nat {
    (a / 0x100_0000) as nat
}

/// The second octet of `a`.
pub open spec fn octet1(a: u32) -> nat {
    ((a / 0x1_0000) % 0x100) as nat
}

/// The third octet of `a`.
pub open spec fn octet2(a: u32) -> nat {
    ((a / 0x100) % 0x100) as nat
}

/// The last octet of `a`.
pub open spec fn octet3(a: u32) -> nat {
    (a % 0x100) as nat
}

/// `a` in dotted-decimal notation, as `Ipv4Addr`'s `Display` writes it.
pub open spec fn ipv4_text(a: u32) -> Seq<char> {
    dec_text(octet0(a)).push('.') + (dec_text(octet1(a)).push('.') + (dec_text(octet2(a)).push(
        '.',
    ) + dec_text(octet3(a))))
}

/// Whether the text `s` is one dotted-decimal octet: one to three digits, no
/// superfluous leading zero, value at most 255.
pub open spec fn is_octet_text(s: Seq<char>) -> bool {
    is_canonical_digits(s) && digits_value(s) <= 255
}

/// The address whose octets are `v0.v1.v2.v3`.
pub open spec fn from_octets(v0: nat, v1: nat, v2: nat, v3: nat) -> int {
    (v0 * 0x100_0000 + v1 * 0x1_0000 + v2 * 0x100 + v3) as int
}

/// Joins `ps` with `sep` between neighbours.
pub open spec fn join_with(ps: Seq<Seq<char>>, sep: char) -> Seq<char>
    decreases ps.len(),
{
    if ps.len() <= 1 {
        if ps.len() == 1 {
            ps[0]
        } else {
            Seq::<char>::empty()
        }
    } else {
        join_with(ps.drop_last(), sep).push(sep) + ps.last()
    }
}

/// Joining the pieces of a split gives back the text.
pub proof fn lemma_join_split(s: Seq<char>, sep: char)
    ensures
        join_with(split_on(s, sep), sep) == s,
    decreases s.len(),
{
    if s.len() > 0 {
        let s0 = s.drop_last();
        let c = s.last();
        lemma_join_split(s0, sep);
        lemma_split_on_len(s0, sep);
        lemma_split_on_push(s0, c, sep);
        assert(s0.push(c) == s);
        let init = split_on(s0, sep);
        if c == sep {
            let ps = init.push(Seq::<char>::empty());
            assert(ps.drop_last() == init);
            assert(join_with(ps, sep) == join_with(init, sep).push(sep) + Seq::<char>::empty());
            assert(join_with(init, sep).push(sep) + Seq::<char>::empty() == s);
        } else {
            let ps = init.update(init.len() - 1, init.last().push(c));
            if init.len() == 1 {
                assert(join_with(ps, sep) == ps[0]);
                assert(join_with(init, sep) == init[0]);
            } else {
                assert(ps.drop_last() == init.drop_last());
                assert(join_with(ps, sep) == join_with(init.drop_last(), sep).push(sep)
                    + init.last().push(c));
                assert(join_with(init.drop_last(), sep).push(sep) + init.last().push(c) == (
                join_with(init.drop_last(), sep).push(sep) + init.last()).push(c));
            }
        }
    }
}

proof fn lemma_join_four(p0: Seq<char>, p1: Seq<char>, p2: Seq<char>, p3: Seq<char>)
    ensures
        join_with(seq![p0, p1, p2, p3], '.') == p0.push('.') + (p1.push('.') + (p2.push('.') + p3)),
{
    let ps = seq![p0, p1, p2, p3];
    assert(ps.drop_last() == seq![p0, p1, p2]);
    assert(seq![p0, p1, p2].drop_last() == seq![p0, p1]);
    assert(seq![p0, p1].drop_last() == seq![p0]);
    assert(join_with(seq![p0], '.') == p0);
    assert(join_with(seq![p0, p1], '.') == p0.push('.') + p1);
    assert(join_with(seq![p0, p1, p2], '.') == (p0.push('.') + p1).push('.') + p2);
    assert(join_with(ps, '.') == ((p0.push('.') + p1).push('.') + p2).push('.') + p3);
    assert(((p0.push('.') + p1).push('.') + p2).push('.') + p3 == p0.push('.') + (p1.push('.') + (
    p2.push('.') + p3)));
}

proof fn lemma_no_dot_in_dec(n: nat)
    ensures
        forall|i: int| 0 <= i < dec_text(n).len() ==> dec_text(n)[i] != '.',
{
    lemma_dec_text(n);
    assert forall|i: int| 0 <= i < dec_text(n).len() implies dec_text(n)[i] != '.' by {
        assert(is_digit(dec_text(n)[i]));
    }
}

/// Dotted-decimal text holds only digits and dots.
pub proof fn lemma_ipv4_text_chars(a: u32)
    ensures
        forall|i: int| 0 <= i < ipv4_text(a).len() ==> is_digit(#[trigger] ipv4_text(a)[i]) || ipv4_text(a)[i] == '.',
{
    let d0 = dec_text(octet0(a));
    let d1 = dec_text(octet1(a));
    let d2 = dec_text(octet2(a));
    let d3 = dec_text(octet3(a));
    lemma_dec_text(octet0(a));
    lemma_dec_text(octet1(a));
    lemma_dec_text(octet2(a));
    lemma_dec_text(octet3(a));
    let t3 = d2.push('.') + d3;
    let t2 = d1.push('.') + t3;
    let t1 = d0.push('.') + t2;
    assert forall|i: int| 0 <= i < t3.len() implies is_digit(#[trigger] t3[i]) || t3[i] == '.' by {
        if i > d2.len() {
            assert(t3[i] == d3[i - d2.len() - 1]);
        } else if i < d2.len() {
            assert(t3[i] == d2[i]);
        }
    }
    assert forall|i: int| 0 <= i < t2.len() implies is_digit(#[trigger] t2[i]) || t2[i] == '.' by {
        if i > d1.len() {
            assert(t2[i] == t3[i - d1.len() - 1]);
        } else if i < d1.len() {
            assert(t2[i] == d1[i]);
        }
    }
    assert forall|i: int| 0 <= i < t1.len() implies is_digit(#[trigger] t1[i]) || t1[i] == '.' by {
        if i > d0.len() {
            assert(t1[i] == t2[i - d0.len() - 1]);
        } else if i < d0.len() {
            assert(t1[i] == d0[i]);
        }
    }
    assert(t1 == ipv4_text(a));
}

proof fn lemma_octets_bounds(a: u32)
    ensures
        octet0(a) <= 255,
        octet1(a) <= 255,
        octet2(a) <= 255,
        octet3(a) <= 255,
        from_octets(octet0(a), octet1(a), octet2(a), octet3(a)) == a,
{
    assert(a / 0x100_0000 <= 255) by (bit_vector);
    assert((a / 0x100_0000) * 0x100_0000 + ((a / 0x1_0000) % 0x100) * 0x1_0000 + ((a / 0x100) % 0x100)
        * 0x100 + a % 0x100 == a) by (bit_vector);
}

proof fn lemma_octets_of(v0: u32, v1: u32, v2: u32, v3: u32)
    requires
        v0 <= 255,
        v1 <= 255,
        v2 <= 255,
        v3 <= 255,
    ensures
        ({
            let a = from_octets(v0 as nat, v1 as nat, v2 as nat, v3 as nat);
            &&& 0 <= a <= u32::MAX
            &&& octet0(a as u32) == v0
            &&& octet1(a as u32) == v1
            &&& octet2(a as u32) == v2
            &&& octet3(a as u32) == v3
        }),
{
    assert(v0 * 0x100_0000 + v1 * 0x1_0000 + v2 * 0x100 + v3 <= 0xffff_ffff) by (nonlinear_arith)
        requires
            v0 <= 255,
            v1 <= 255,
            v2 <= 255,
            v3 <= 255,
    ;
    let a: u32 = (v0 * 0x100_0000 + v1 * 0x1_0000 + v2 * 0x100 + v3) as u32;
    assert(a / 0x100_0000 == v0 && (a / 0x1_0000) % 0x100 == v1 && (a / 0x100) % 0x100 == v2 && a
        % 0x100 == v3) by (bit_vector)
        requires
            v0 <= 255,
            v1 <= 255,
            v2 <= 255,
            v3 <= 255,
            a == v0 * 0x100_0000 + v1 * 0x1_0000 + v2 * 0x100 + v3,
    ;
}

/// The four pieces of a dotted-decimal text, and what each says.
proof fn lemma_text_pieces(a: u32)
    ensures
        split_on(ipv4_text(a), '.') == seq![
            dec_text(octet0(a)),
            dec_text(octet1(a)),
            dec_text(octet2(a)),
            dec_text(octet3(a)),
        ],
        is_octet_text(dec_text(octet0(a))),
        is_octet_text(dec_text(octet1(a))),
        is_octet_text(dec_text(octet2(a))),
        is_octet_text(dec_text(octet3(a))),
        digits_value(dec_text(octet0(a))) == octet0(a),
        digits_value(dec_text(octet1(a))) == octet1(a),
        digits_value(dec_text(octet2(a))) == octet2(a),
        digits_value(dec_text(octet3(a))) == octet3(a),
{
    let d0 = dec_text(octet0(a));
    let d1 = dec_text(octet1(a));
    let d2 = dec_text(octet2(a));
    let d3 = dec_text(octet3(a));
    lemma_octets_bounds(a);
    lemma_dec_text(octet0(a));
    lemma_dec_text(octet1(a));
    lemma_dec_text(octet2(a));
    lemma_dec_text(octet3(a));
    lemma_no_dot_in_dec(octet0(a));
    lemma_no_dot_in_dec(octet1(a));
    lemma_no_dot_in_dec(octet2(a));
    lemma_no_dot_in_dec(octet3(a));
    lemma_split_on_plain(d3, '.');
    lemma_split_on_sep(d2, '.', d3);
    lemma_split_on_sep(d1, '.', d2.push('.') + d3);
    lemma_split_on_sep(d0, '.', d1.push('.') + (d2.push('.') + d3));
    assert(seq![d0] + (seq![d1] + (seq![d2] + seq![d3])) == seq![d0, d1, d2, d3]);
}

/// Dotted-decimal text names one address only.
proof fn lemma_ipv4_text_injective(a: u32, b: u32)
    requires
        ipv4_text(a) == ipv4_text(b),
    ensures
        a == b,
{
    lemma_text_pieces(a);
    lemma_text_pieces(b);
    assert(split_on(ipv4_text(a), '.')[0] == split_on(ipv4_text(b), '.')[0]);
    assert(split_on(ipv4_text(a), '.')[1] == split_on(ipv4_text(b), '.')[1]);
    assert(split_on(ipv4_text(a), '.')[2] == split_on(ipv4_text(b), '.')[2]);
    assert(split_on(ipv4_text(a), '.')[3] == split_on(ipv4_text(b), '.')[3]);
    lemma_octets_bounds(a);
    lemma_octets_bounds(b);
}

/// Writes `a` in dotted-decimal notation.
pub fn ipv4_to_string(a: u32) -> (r: String)
    ensures
        r@ == ipv4_text(a),
{
    let mut s = String::new();
    push_decimal(&mut s, (a / 0x100_0000) as u128);
    s.push('.');
    push_decimal(&mut s, ((a / 0x1_0000) % 0x100) as u128);
    s.push('.');
    push_decimal(&mut s, ((a / 0x100) % 0x100) as u128);
    s.push('.');
    push_decimal(&mut s, (a % 0x100) as u128);
    assert(s@ == ipv4_text(a));
    s
}

/// The address whose dotted-decimal text is `s`, if any.
pub open spec fn ipv4_of(s: Seq<char>) -> Option<u32> {
    if exists|a: u32| ipv4_text(a) == s {
        Some(choose|a: u32| ipv4_text(a) == s)
    } else {
        None
    }
}

/// Reads dotted-decimal IPv4 text, as `Ipv4Addr`'s `FromStr` does: four
/// octets of one to three digits without superfluous leading zeros, each at
/// most 255, separated by single dots, and nothing else.
///
/// The result is the address whose dotted-decimal form is exactly `s`, and
/// `None` when no address has that form.
pub fn parse_ipv4(s: &str) -> (r: Option<u32>)
    ensures
        r == ipv4_of(s@),
        match r {
            Some(a) => ipv4_text(a) == s@,
            None => forall|a: u32| ipv4_text(a) != s@,
        },
{
    let r = parse_ipv4_inner(s);
    proof {
        match r {
            Some(a) => {
                let c = choose|b: u32| ipv4_text(b) == s@;
                lemma_ipv4_text_injective(a, c);
            },
            None => {},
        }
    }
    r
}

fn parse_ipv4_inner(s: &str) -> (r: Option<u32>)
    ensures
        match r {
            Some(a) => ipv4_text(a) == s@,
            None => forall|a: u32| ipv4_text(a) != s@,
        },
{
    let cs = chars_of(s);
    let n = cs.len();
    let mut pieces: Vec<Vec<char>> = Vec::new();
    let mut cur: Vec<char> = Vec::new();
    let mut i: usize = 0;
    while i < n
        invariant
            n == cs@.len(),
            cs@ == s@,
            i <= n,
            pieces@.len() + 1 == split_on(cs@.take(i as int), '.').len(),
            forall|j: int|
                0 <= j < pieces@.len() ==> #[trigger] pieces@[j]@ == split_on(
                    cs@.take(i as int),
                    '.',
                )[j],
            cur@ == split_on(cs@.take(i as int), '.').last(),
        decreases n - i,
    {
        let c = cs[i];
        proof {
            assert(cs@.take(i + 1) == cs@.take(i as int).push(c));
            lemma_split_on_push(cs@.take(i as int), c, '.');
            lemma_split_on_len(cs@.take(i as int), '.');
        }
        if c == '.' {
            let done = cur;
            pieces.push(done);
            cur = Vec::new();
        } else {
            cur.push(c);
        }
        i = i + 1;
    }
    pieces.push(cur);
    assert(cs@.take(n as int) == s@);
    let ghost parts = split_on(s@, '.');
    proof {
        lemma_split_on_len(s@, '.');
        assert forall|j: int| 0 <= j < pieces@.len() implies #[trigger] pieces@[j]@ == parts[j] by {}
    }
    if pieces.len() != 4 {
        proof {
            assert forall|a: u32| ipv4_text(a) != s@ by {
                lemma_text_pieces(a);
                if ipv4_text(a) == s@ {
                    assert(parts.len() == 4);
                }
            }
        }
        return None;
    }
    let v0 = parse_canonical(pieces[0].as_slice(), 255);
    let v1 = parse_canonical(pieces[1].as_slice(), 255);
    let v2 = parse_canonical(pieces[2].as_slice(), 255);
    let v3 = parse_canonical(pieces[3].as_slice(), 255);
    match (v0, v1, v2, v3) {
        (Some(x0), Some(x1), Some(x2), Some(x3)) => {
            let a: u32 = (x0 as u32) * 0x100_0000 + (x1 as u32) * 0x1_0000 + (x2 as u32) * 0x100
                + (x3 as u32);
            proof {
                lemma_octets_of(x0 as u32, x1 as u32, x2 as u32, x3 as u32);
                lemma_canonical_digits(parts[0]);
                lemma_canonical_digits(parts[1]);
                lemma_canonical_digits(parts[2]);
                lemma_canonical_digits(parts[3]);
                assert(parts == seq![parts[0], parts[1], parts[2], parts[3]]);
                lemma_join_split(s@, '.');
                lemma_join_four(parts[0], parts[1], parts[2], parts[3]);
            }
            Some(a)
        },
        _ => {
            proof {
                assert forall|a: u32| ipv4_text(a) != s@ by {
                    lemma_text_pieces(a);
                }
            }
            None
        },
    }
}

// ---------------------------------------------------------------------------
// Scan ranges
// ---------------------------------------------------------------------------

/// The network address: `ip` with the host bits cleared.
pub open spec fn network_of(ip: u32, mask: u32) -> u32 {
    ip & mask
}

/// The broadcast address: `ip` with the host bits set.
pub open spec fn broadcast_of(ip: u32, mask: u32) -> u32 {
    (ip & mask) | !mask
}

/// The first and last address to scan on an interface with address `ip` and
/// netmask `mask`. When the subnet spans more than 1024 addresses only the
/// interface's own /24 is scanned (`.1` to `.254`); otherwise every address
/// between the network and the broadcast address, both excluded.
pub open spec fn scan_bounds(ip: u32, mask: u32) -> (int, int) {
    let network = network_of(ip, mask);
    let broadcast = broadcast_of(ip, mask);
    if broadcast - network > 1024 {
        let base = ip & 0xffff_ff00u32;
        (base + 1, base + 254)
    } else {
        (network + 1, broadcast - 1)
    }
}

/// Whether both scan bounds are addresses (only a /32 mask on `0.0.0.0` or on
/// `255.255.255.255` runs past the address space).
pub open spec fn scan_range_defined(ip: u32, mask: u32) -> bool {
    let (s, e) = scan_bounds(ip, mask);
    0 <= s <= u32::MAX && 0 <= e <= u32::MAX
}

/// Whether `mask` is a run of one bits followed by a run of zero bits.
pub open spec fn is_prefix_mask(mask: u32) -> bool {
    (!mask) & ((!mask) + 1) as u32 == 0
}

proof fn lemma_broadcast_above_network(ip: u32, mask: u32)
    ensures
        network_of(ip, mask) <= ip <= broadcast_of(ip, mask),
{
    assert(ip & mask <= ip) by (bit_vector);
    assert(ip <= (ip & mask) | !mask) by (bit_vector);
}

/// Whether both scan bounds of `ip` and `mask` are addresses.
pub fn scan_range_is_defined(ip: u32, mask: u32) -> (r: bool)
    ensures
        r == scan_range_defined(ip, mask),
{
    proof {
        lemma_broadcast_above_network(ip, mask);
    }
    let network = ip & mask;
    let broadcast = network | !mask;
    let base = ip & 0xffff_ff00;
    assert(base <= 0xffff_ff00) by (bit_vector)
        requires
            base == ip & 0xffff_ff00,
    ;
    if broadcast - network > 1024 {
        true
    } else {
        network < u32::MAX && broadcast > 0
    }
}

/// The first and last address to scan, as numbers.
pub fn scan_range(ip: u32, mask: u32) -> (r: (u32, u32))
    requires
        scan_range_defined(ip, mask),
    ensures
        r.0 == scan_bounds(ip, mask).0,
        r.1 == scan_bounds(ip, mask).1,
{
    proof {
        lemma_broadcast_above_network(ip, mask);
    }
    let network = ip & mask;
    let broadcast = network | !mask;
    let range = broadcast - network;
    if range > 1024 {
        let subnet_base = ip & 0xffff_ff00;
        assert(subnet_base <= 0xffff_ff00) by (bit_vector)
            requires
                subnet_base == ip & 0xffff_ff00,
        ;
        (subnet_base + 1, subnet_base + 254)
    } else {
        (network + 1, broadcast - 1)
    }
}

/// The first and last address to scan on `iface`, in dotted-decimal text.
pub fn compute_scan_range(iface: &crate::types::NetworkInterface) -> (r: (String, String))
    requires
        scan_range_defined(iface.ip, iface.netmask),
    ensures
        r.0@ == ipv4_text(scan_bounds(iface.ip, iface.netmask).0 as u32),
        r.1@ == ipv4_text(scan_bounds(iface.ip, iface.netmask).1 as u32),
{
    let (start, end) = scan_range(iface.ip, iface.netmask);
    (ipv4_to_string(start), ipv4_to_string(end))
}

/// Whether `ip` is in the loopback block 127.0.0.0/8.
pub open spec fn is_loopback(ip: u32) -> bool {
    octet0(ip) == 127
}

/// Whether `ip` is a loopback address.
pub fn ipv4_is_loopback(ip: u32) -> (r: bool)
    ensures
        r == is_loopback(ip),
{
    ip / 0x100_0000 == 127
}

// ---------------------------------------------------------------------------
// Laws
// ---------------------------------------------------------------------------

/// Dotted-decimal text names one address only: two addresses written alike
/// are the same address. With `parse_ipv4`'s contract this makes reading back
/// what `ipv4_to_string` wrote give the same address.
pub proof fn law_ipv4_text_unique(a: u32, b: u32)
    requires
        ipv4_text(a) == ipv4_text(b),
    ensures
        a == b,
{
    lemma_ipv4_text_injective(a, b);
}

/// On a subnet of at most 1024 addresses with room for a host, the scan covers
/// exactly the addresses strictly between the network and the broadcast
/// address, and the interface's own address is within the subnet.
pub proof fn law_small_subnet_scan(ip: u32, mask: u32)
    requires
        broadcast_of(ip, mask) - network_of(ip, mask) <= 1024,
        broadcast_of(ip, mask) - network_of(ip, mask) >= 2,
    ensures
        scan_range_defined(ip, mask),
        scan_bounds(ip, mask).0 == network_of(ip, mask) + 1,
        scan_bounds(ip, mask).1 == broadcast_of(ip, mask) - 1,
        scan_bounds(ip, mask).0 <= scan_bounds(ip, mask).1,
        network_of(ip, mask) <= ip <= broadcast_of(ip, mask),
{
    lemma_broadcast_above_network(ip, mask);
}

/// On a subnet larger than 1024 addresses with a contiguous netmask, the scan
/// covers `.1` to `.254` of the interface's own /24, all inside the subnet.
pub proof fn law_large_subnet_scan(ip: u32, mask: u32)
    requires
        is_prefix_mask(mask),
        broadcast_of(ip, mask) - network_of(ip, mask) > 1024,
    ensures
        scan_range_defined(ip, mask),
        scan_bounds(ip, mask).1 - scan_bounds(ip, mask).0 == 253,
        octet0(scan_bounds(ip, mask).0 as u32) == octet0(ip),
        octet1(scan_bounds(ip, mask).0 as u32) == octet1(ip),
        octet2(scan_bounds(ip, mask).0 as u32) == octet2(ip),
        octet3(scan_bounds(ip, mask).0 as u32) == 1,
        octet3(scan_bounds(ip, mask).1 as u32) == 254,
        network_of(ip, mask) < scan_bounds(ip, mask).0,
        scan_bounds(ip, mask).1 < broadcast_of(ip, mask),
{
    let base: u32 = ip & 0xffff_ff00u32;
    let network: u32 = ip & mask;
    let broadcast: u32 = (ip & mask) | !mask;
    assert(base <= 0xffff_ff00) by (bit_vector)
        requires
            base == ip & 0xffff_ff00u32,
    ;
    let start: u32 = (base + 1) as u32;
    let end: u32 = (base + 254) as u32;
    assert(network < start && end < broadcast) by (bit_vector)
        requires
            (!mask) & ((!mask) + 1) as u32 == 0,
            broadcast - network > 1024,
            network == ip & mask,
            broadcast == (ip & mask) | !mask,
            base == ip & 0xffff_ff00u32,
            start == base + 1,
            end == base + 254,
    ;
    assert(start / 0x100_0000 == ip / 0x100_0000 && (start / 0x1_0000) % 0x100 == (ip / 0x1_0000)
        % 0x100 && (start / 0x100) % 0x100 == (ip / 0x100) % 0x100 && start % 0x100 == 1 && end
        % 0x100 == 254) by (bit_vector)
        requires
            base == ip & 0xffff_ff00u32,
            start == base + 1,
            end == base + 254,
    ;
}

} // verus!
