//! The network sweep: which sockets to probe, and what a sweep returns.
//!
//! The sweep enumerates an IPv4 range, probes the Modbus TCP port of every
//! address, and keeps the reachable ones. Opening sockets is the
//! application's work; the range arithmetic, the candidate enumeration and
//! the collection of the probe verdicts are here.

use vstd::prelude::*;

use crate::retry::{Destination, IpAddress, SocketAddress, SLAVE_MAX, SLAVE_MIN};
use crate::text::{dec_chars, lemma_dec_chars_digits, lemma_dec_chars_len_u8, u64_text};
use vstd::string::StrSliceExecFns;

verus! {

/// The port a Modbus TCP device listens on.
pub const MODBUS_PORT: u16 = 502;

/// An inclusive IPv4 sweep range.
#[derive(Debug, Clone, Copy, PartialEq, Eq, Structural)]
pub struct IpRange {
    pub start: u32,
    pub end: u32,
}

/// The dotted-decimal text of an IPv4 address.
pub open spec fn ipv4_text(ip: u32) -> Seq<char> {
    dec_chars(((ip >> 24) & 0xFF) as nat) + seq!['.'] + dec_chars(((ip >> 16) & 0xFF) as nat)
        + seq!['.'] + dec_chars(((ip >> 8) & 0xFF) as nat) + seq!['.'] + dec_chars(
        (ip & 0xFF) as nat,
    )
}

/// Render an IPv4 address in dotted decimal.
pub fn render_ipv4(ip: u32) -> (s: String)
    ensures
        s@ == ipv4_text(ip),
{
    proof {
        assert((ip >> 24) & 0xFF < 0x100 && (ip >> 16) & 0xFF < 0x100 && (ip >> 8) & 0xFF < 0x100
            && ip & 0xFF < 0x100) by (bit_vector);
        reveal_strlit(".");
    }
    let mut s = u64_text((((ip >> 24) & 0xFF) as u64));
    s.append(".");
    let o1 = u64_text((((ip >> 16) & 0xFF) as u64));
    s.append(o1.as_str());
    s.append(".");
    let o2 = u64_text((((ip >> 8) & 0xFF) as u64));
    s.append(o2.as_str());
    s.append(".");
    let o3 = u64_text(((ip & 0xFF) as u64));
    s.append(o3.as_str());
    s
}

/// The first octet of an address.
pub open spec fn oct1(ip: u32) -> nat {
    ((ip >> 24) & 0xFF) as nat
}

pub open spec fn oct2(ip: u32) -> nat {
    ((ip >> 16) & 0xFF) as nat
}

pub open spec fn oct3(ip: u32) -> nat {
    ((ip >> 8) & 0xFF) as nat
}

pub open spec fn oct4(ip: u32) -> nat {
    (ip & 0xFF) as nat
}

/// The positions of the three separators in an address's text.
spec fn dot1(ip: u32) -> int {
    dec_chars(oct1(ip)).len() as int
}

spec fn dot2(ip: u32) -> int {
    dot1(ip) + 1 + dec_chars(oct2(ip)).len()
}

spec fn dot3(ip: u32) -> int {
    dot2(ip) + 1 + dec_chars(oct3(ip)).len()
}

/// The shape of a dotted-decimal text: its length bounds, its separators —
/// which are its only separators — and the octet texts between them.
proof fn lemma_ipv4_text_structure(ip: u32)
    ensures
        oct1(ip) <= 255 && oct2(ip) <= 255 && oct3(ip) <= 255 && oct4(ip) <= 255,
        ipv4_text(ip).len() == dot3(ip) + 1 + dec_chars(oct4(ip)).len(),
        7 <= ipv4_text(ip).len() <= 15,
        0 < dot1(ip) < dot2(ip) < dot3(ip) < ipv4_text(ip).len() - 1,
        ipv4_text(ip)[dot1(ip)] == '.',
        ipv4_text(ip)[dot2(ip)] == '.',
        ipv4_text(ip)[dot3(ip)] == '.',
        forall|j: int|
            0 <= j < ipv4_text(ip).len() && j != dot1(ip) && j != dot2(ip) && j != dot3(ip)
                ==> ipv4_text(ip)[j] != '.',
        ipv4_text(ip).subrange(0, dot1(ip)) == dec_chars(oct1(ip)),
        ipv4_text(ip).subrange(dot1(ip) + 1, dot2(ip)) == dec_chars(oct2(ip)),
        ipv4_text(ip).subrange(dot2(ip) + 1, dot3(ip)) == dec_chars(oct3(ip)),
        ipv4_text(ip).subrange(dot3(ip) + 1, ipv4_text(ip).len() as int) == dec_chars(oct4(ip)),
{
    assert((ip >> 24) & 0xFF <= 255 && (ip >> 16) & 0xFF <= 255 && (ip >> 8) & 0xFF <= 255 && ip
        & 0xFF <= 255) by (bit_vector);
    lemma_dec_chars_len_u8(oct1(ip));
    lemma_dec_chars_len_u8(oct2(ip));
    lemma_dec_chars_len_u8(oct3(ip));
    lemma_dec_chars_len_u8(oct4(ip));
    lemma_dec_chars_digits(oct1(ip));
    lemma_dec_chars_digits(oct2(ip));
    lemma_dec_chars_digits(oct3(ip));
    lemma_dec_chars_digits(oct4(ip));
    let t = ipv4_text(ip);
    let a = dec_chars(oct1(ip));
    let b = dec_chars(oct2(ip));
    let c = dec_chars(oct3(ip));
    let d = dec_chars(oct4(ip));
    assert forall|j: int|
        0 <= j < t.len() && j != dot1(ip) && j != dot2(ip) && j != dot3(ip) implies t[j]
        != '.' by {
        if j < dot1(ip) {
            assert(t[j] == a[j]);
        } else if j < dot2(ip) {
            assert(t[j] == b[j - dot1(ip) - 1]);
        } else if j < dot3(ip) {
            assert(t[j] == c[j - dot2(ip) - 1]);
        } else {
            assert(t[j] == d[j - dot3(ip) - 1]);
        }
    }
    assert(t.subrange(0, dot1(ip)) =~= a);
    assert(t.subrange(dot1(ip) + 1, dot2(ip)) =~= b);
    assert(t.subrange(dot2(ip) + 1, dot3(ip)) =~= c);
    assert(t.subrange(dot3(ip) + 1, t.len() as int) =~= d);
}

/// Every position of a separator in the text, in order; nothing else is one.
fn find_dots(text: &str, n: usize) -> (dots: Vec<usize>)
    requires
        n == text@.len(),
    ensures
        forall|k: int|
            0 <= k < dots@.len() ==> (#[trigger] dots@[k]) < text@.len()
                && text@[dots@[k] as int] == '.',
        forall|k1: int, k2: int| 0 <= k1 < k2 < dots@.len() ==> dots@[k1] < dots@[k2],
        forall|j: int| 0 <= j < text@.len() && text@[j] == '.' ==> dots@.contains(j as usize),
{
    let mut dots: Vec<usize> = Vec::new();
    let mut i: usize = 0;
    while i < n
        invariant
            i <= n,
            n == text@.len(),
            forall|k: int|
                0 <= k < dots@.len() ==> (#[trigger] dots@[k]) < i && text@[dots@[k] as int]
                    == '.',
            forall|k1: int, k2: int| 0 <= k1 < k2 < dots@.len() ==> dots@[k1] < dots@[k2],
            forall|j: int| 0 <= j < i && text@[j] == '.' ==> dots@.contains(j as usize),
        decreases n - i,
    {
        let ghost before = dots@;
        if text.get_char(i) == '.' {
            dots.push(i);
        }
        proof {
            assert forall|j: int| 0 <= j < i + 1 && text@[j] == '.' implies dots@.contains(
                j as usize,
            ) by {
                if j < i {
                    let k = choose|k: int| 0 <= k < before.len() && before[k] == j as usize;
                    assert(dots@[k] == j as usize);
                } else {
                    assert(dots@.last() == j as usize);
                }
            }
        }
        i = i + 1;
    }
    dots
}

/// The value whose canonical decimal text is exactly the slice, if one byte
/// value has it.
fn parse_octet(slice: &str) -> (r: Option<u8>)
    ensures
        r matches Some(v) ==> slice@ == dec_chars(v as nat),
        r is None ==> forall|v: u8| slice@ != dec_chars(v as nat),
{
    let owned = slice.to_owned();
    let mut v: u64 = 0;
    while v < 256
        invariant
            v <= 256,
            owned@ == slice@,
            forall|w: u8| w < v ==> slice@ != dec_chars(w as nat),
        decreases 256 - v,
    {
        if u64_text(v) == owned {
            return Some(v as u8);
        }
        v = v + 1;
    }
    None
}

/// Parse a dotted-decimal IPv4 text: exactly the texts that an address
/// renders to are accepted, and to that address.
pub fn parse_ipv4(s: &String) -> (r: Option<u32>)
    ensures
        r matches Some(ip) ==> s@ == ipv4_text(ip),
        r is None ==> forall|ip: u32| s@ != ipv4_text(ip),
{
    let text = s.as_str();
    let n = text.unicode_len();
    if n < 7 || n > 15 {
        proof {
            assert forall|ip: u32| s@ != ipv4_text(ip) by {
                lemma_ipv4_text_structure(ip);
            }
        }
        return None;
    }
    let dots = find_dots(text, n);
    if dots.len() != 3 {
        proof {
            assert forall|ip: u32| s@ != ipv4_text(ip) by {
                if s@ == ipv4_text(ip) {
                    lemma_dots_of_text(s@, dots@, ip);
                }
            }
        }
        return None;
    }
    let i1 = dots[0];
    let i2 = dots[1];
    let i3 = dots[2];
    let sa = text.substring_char(0, i1);
    let sb = text.substring_char(i1 + 1, i2);
    let sc = text.substring_char(i2 + 1, i3);
    let sd = text.substring_char(i3 + 1, n);
    let a = parse_octet(sa);
    let b = parse_octet(sb);
    let c = parse_octet(sc);
    let d = parse_octet(sd);
    match (a, b, c, d) {
        (Some(a), Some(b), Some(c), Some(d)) => {
            let ip = ((a as u32) << 24) | ((b as u32) << 16) | ((c as u32) << 8) | (d as u32);
            proof {
                let a32 = a as u32;
                let b32 = b as u32;
                let c32 = c as u32;
                let d32 = d as u32;
                assert((((a32 << 24) | (b32 << 16) | (c32 << 8) | d32) >> 24) & 0xFF == a32
                    && (((a32 << 24) | (b32 << 16) | (c32 << 8) | d32) >> 16) & 0xFF == b32 && (((
                a32 << 24) | (b32 << 16) | (c32 << 8) | d32) >> 8) & 0xFF == c32 && ((a32 << 24) | (
                b32 << 16) | (c32 << 8) | d32) & 0xFF == d32) by (bit_vector)
                    requires
                        a32 <= 255 && b32 <= 255 && c32 <= 255 && d32 <= 255,
                ;
                assert(s@ =~= sa@ + seq!['.'] + sb@ + seq!['.'] + sc@ + seq!['.'] + sd@);
                assert(s@ == ipv4_text(ip));
            }
            Some(ip)
        },
        _ => {
            proof {
                assert(a is None || b is None || c is None || d is None);
                assert forall|ip: u32| s@ != ipv4_text(ip) by {
                    if s@ == ipv4_text(ip) {
                        lemma_dots_of_text(s@, dots@, ip);
                        lemma_ipv4_text_structure(ip);
                        if a is None {
                            assert(sa@ == dec_chars(oct1(ip)));
                            assert(sa@ != dec_chars((oct1(ip) as u8) as nat));
                        } else if b is None {
                            assert(sb@ == dec_chars(oct2(ip)));
                            assert(sb@ != dec_chars((oct2(ip) as u8) as nat));
                        } else if c is None {
                            assert(sc@ == dec_chars(oct3(ip)));
                            assert(sc@ != dec_chars((oct3(ip) as u8) as nat));
                        } else {
                            assert(sd@ == dec_chars(oct4(ip)));
                            assert(sd@ != dec_chars((oct4(ip) as u8) as nat));
                        }
                    }
                }
            }
            None
        },
    }
}

/// In a canonical text, a separator scan finds exactly the three canonical
/// positions.
proof fn lemma_dots_of_text(t: Seq<char>, dots: Seq<usize>, ip: u32)
    requires
        t == ipv4_text(ip),
        forall|k: int| 0 <= k < dots.len() ==> (#[trigger] dots[k]) < t.len() && t[dots[k] as int]
            == '.',
        forall|k1: int, k2: int| 0 <= k1 < k2 < dots.len() ==> dots[k1] < dots[k2],
        forall|j: int| 0 <= j < t.len() && t[j] == '.' ==> dots.contains(j as usize),
    ensures
        dots.len() == 3,
        dots[0] as int == dot1(ip),
        dots[1] as int == dot2(ip),
        dots[2] as int == dot3(ip),
{
    lemma_ipv4_text_structure(ip);
    assert(dots.contains(dot1(ip) as usize));
    assert(dots.contains(dot2(ip) as usize));
    assert(dots.contains(dot3(ip) as usize));
    let k1 = choose|k: int| 0 <= k < dots.len() && dots[k] == dot1(ip) as usize;
    let k2 = choose|k: int| 0 <= k < dots.len() && dots[k] == dot2(ip) as usize;
    let k3 = choose|k: int| 0 <= k < dots.len() && dots[k] == dot3(ip) as usize;
    // every entry is one of the three separators
    assert forall|k: int| 0 <= k < dots.len() implies dots[k] as int == dot1(ip) || dots[k] as int
        == dot2(ip) || dots[k] as int == dot3(ip) by {
        assert(t[dots[k] as int] == '.');
    }
    assert(k1 != k2 && k2 != k3 && k1 != k3);
    if dots.len() > 3 {
        assert(dots[0] < dots[1] < dots[2] < dots[3]);
        assert(false);
    }
    assert(dots.len() == 3);
    assert(dots[0] < dots[1] < dots[2]);
}

/// The sweep range used when the configured bounds do not parse.
pub open spec fn default_range() -> IpRange {
    IpRange { start: 0xC0A8_0100, end: 0xC0A8_01FF }
}

/// Build the sweep range from two dotted-decimal texts: exactly the given
/// bounds when both parse, and the default block otherwise.
pub fn make_ip_range(start: &String, end: &String) -> (r: IpRange)
    ensures
        ((exists|a: u32| start@ == ipv4_text(a)) && (exists|b: u32| end@ == ipv4_text(b)))
            ==> start@ == ipv4_text(r.start) && end@ == ipv4_text(r.end),
        !((exists|a: u32| start@ == ipv4_text(a)) && (exists|b: u32| end@ == ipv4_text(b))) ==> r
            == default_range(),
{
    match (parse_ipv4(start), parse_ipv4(end)) {
        (Some(a), Some(b)) => IpRange { start: a, end: b },
        _ => IpRange { start: 0xC0A8_0100, end: 0xC0A8_01FF },
    }
}

/// Every address of an inclusive range, in order. Distinct slots hold
/// distinct addresses.
pub fn range_ips(range: &IpRange) -> (r: Vec<u32>)
    ensures
        r@.len() == if range.start <= range.end {
            range.end - range.start + 1
        } else {
            0int
        },
        forall|i: int| 0 <= i < r@.len() ==> r@[i] == range.start + i,
        forall|i: int, j: int| 0 <= i < j < r@.len() ==> r@[i] != r@[j],
{
    let mut r: Vec<u32> = Vec::new();
    if range.start > range.end {
        return r;
    }
    let mut ip: u32 = range.start;
    loop
        invariant_except_break
            range.start <= ip <= range.end,
            r@.len() == ip - range.start,
        invariant
            forall|i: int| 0 <= i < r@.len() ==> r@[i] == range.start + i,
        ensures
            r@.len() == range.end - range.start + 1,
        decreases range.end - ip,
    {
        r.push(ip);
        if ip == range.end {
            break ;
        }
        ip = ip + 1;
    }
    r
}

/// The socket a sweep probes for one address: the Modbus TCP port.
pub fn to_socket(ip: IpAddress) -> (s: SocketAddress)
    ensures
        s == (SocketAddress { ip, port: MODBUS_PORT }),
{
    SocketAddress { ip, port: MODBUS_PORT }
}

/// The address behind a probed socket.
pub fn to_ip(socket: SocketAddress) -> (ip: IpAddress)
    ensures
        ip == socket.ip,
{
    socket.ip
}

/// The sockets whose probe succeeded, in candidate order.
pub open spec fn flagged(candidates: Seq<SocketAddress>, verdicts: Seq<bool>) -> Seq<SocketAddress>
    decreases candidates.len(),
{
    if candidates.len() == 0 {
        Seq::empty()
    } else {
        flagged(candidates.drop_last(), verdicts.drop_last()) + (if verdicts.last() {
            seq![candidates.last()]
        } else {
            Seq::empty()
        })
    }
}

/// Keep the candidates whose probe verdict is positive, in order.
pub fn collect_reachable(candidates: &Vec<SocketAddress>, verdicts: &Vec<bool>) -> (r: Vec<
    SocketAddress,
>)
    requires
        candidates@.len() == verdicts@.len(),
    ensures
        r@ == flagged(candidates@, verdicts@),
{
    let mut r: Vec<SocketAddress> = Vec::new();
    let mut i: usize = 0;
    while i < candidates.len()
        invariant
            i <= candidates@.len(),
            candidates@.len() == verdicts@.len(),
            r@ == flagged(candidates@.take(i as int), verdicts@.take(i as int)),
        decreases candidates@.len() - i,
    {
        proof {
            assert(candidates@.take(i as int + 1).drop_last() =~= candidates@.take(i as int));
            assert(verdicts@.take(i as int + 1).drop_last() =~= verdicts@.take(i as int));
        }
        if verdicts[i] {
            r.push(candidates[i]);
        }
        proof {
            assert(r@ =~= flagged(candidates@.take(i as int + 1), verdicts@.take(i as int + 1)));
        }
        i = i + 1;
    }
    proof {
        assert(candidates@.take(candidates@.len() as int) =~= candidates@);
        assert(verdicts@.take(verdicts@.len() as int) =~= verdicts@);
    }
    r
}

impl Destination {
    /// Every destination a discovered socket may answer as: one per slave id
    /// of the device range, and the standalone endpoint last.
    pub fn candidates(address: SocketAddress) -> (r: Vec<Destination>)
        ensures
            r@.len() == (SLAVE_MAX - SLAVE_MIN + 2) as int,
            forall|i: int|
                0 <= i < r@.len() - 1 ==> r@[i] == (Destination {
                    address,
                    slave: Some((SLAVE_MIN + i) as u8),
                }),
            r@.last() == (Destination { address, slave: None }),
    {
        let mut r: Vec<Destination> = Vec::new();
        let mut slave: u8 = SLAVE_MIN;
        while slave <= SLAVE_MAX
            invariant
                SLAVE_MIN <= slave <= SLAVE_MAX + 1,
                r@.len() == slave - SLAVE_MIN,
                forall|i: int|
                    0 <= i < r@.len() ==> r@[i] == (Destination {
                        address,
                        slave: Some((SLAVE_MIN + i) as u8),
                    }),
            decreases SLAVE_MAX + 1 - slave,
        {
            r.push(Destination { address, slave: Some(slave) });
            slave = slave + 1;
        }
        r.push(Destination { address, slave: None });
        r
    }
}

} // verus!
