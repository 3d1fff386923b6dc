//! The command-line fields that select a transport: IPv4 addresses, ports,
//! serial devices and baud rates.
use vstd::prelude::*;

use crate::error::ToolError;

verus! {

/// Whether `c` is a decimal digit.
pub open spec fn is_decimal_digit(c: char) -> bool {
    '0' <= c && c <= '9'
}

/// Whether every character of `s` is a decimal digit.
pub open spec fn all_decimal_digits(s: Seq<char>) -> bool {
    forall|i: int| 0 <= i < s.len() ==> #[trigger] is_decimal_digit(s[i])
}

/// The number that the decimal digits `s` write, most significant first.
pub open spec fn decimal_value(s: Seq<char>) -> nat
    decreases s.len(),
{
    if s.len() == 0 {
        0
    } else {
        10 * decimal_value(s.drop_last()) + (s.last() as int - '0' as int) as nat
    }
}

/// The digits of an unsigned number field: the text after an optional `+`.
pub open spec fn unsigned_digits(s: Seq<char>) -> Seq<char> {
    if s.len() > 0 && s[0] == '+' {
        s.drop_first()
    } else {
        s
    }
}

/// Whether `s` is an unsigned number field whose value is at most `max`.
pub open spec fn is_unsigned_at_most(s: Seq<char>, max: nat) -> bool {
    let d = unsigned_digits(s);
    d.len() > 0 && all_decimal_digits(d) && decimal_value(d) <= max
}

/// The value of the unsigned number field `s`.
pub open spec fn unsigned_value(s: Seq<char>) -> nat {
    decimal_value(unsigned_digits(s))
}

/// The parts of `s` between dots, in order; a text without dots is one part.
pub open spec fn split_dots(s: Seq<char>) -> Seq<Seq<char>>
    decreases s.len(),
{
    if s.len() == 0 {
        seq![Seq::<char>::empty()]
    } else {
        let prev = split_dots(s.drop_last());
        if s.last() == '.' {
            prev.push(Seq::<char>::empty())
        } else {
            prev.update(prev.len() - 1, prev.last().push(s.last()))
        }
    }
}

/// Whether `g` is one part of a dotted quad: one to three decimal digits with
/// no leading zero, of value at most 255.
pub open spec fn is_octet(g: Seq<char>) -> bool {
    &&& 1 <= g.len() <= 3
    &&& all_decimal_digits(g)
    &&& (g.len() == 1 || g[0] != '0')
    &&& decimal_value(g) <= 255
}

/// Whether `s` is an IPv4 address in dotted-quad notation.
pub open spec fn is_ipv4(s: Seq<char>) -> bool {
    let parts = split_dots(s);
    parts.len() == 4 && forall|i: int| 0 <= i < 4 ==> #[trigger] is_octet(parts[i])
}

/// The four numbers of the dotted quad `s`, in order.
pub open spec fn ipv4_octets(s: Seq<char>) -> Seq<u8> {
    split_dots(s).map_values(|g: Seq<char>| decimal_value(g) as u8)
}

/// An IPv4 address as its four octets, most significant first.
#[derive(Debug, Clone, Copy, PartialEq, Eq)]
pub struct Ipv4Address {
    pub octets: [u8; 4],
}

/// What selects and configures one transport.
#[derive(Debug, Clone, PartialEq, Eq)]
pub enum ConnectionSpec {
    /// A TCP client connection.
    Tcp { ip: Ipv4Address, port: u16 },
    /// A UDP socket, which the tool does not implement.
    Udp { ip: Ipv4Address, port: u16 },
    /// A serial device at a baud rate.
    Serial { device: String, baud_rate: u32 },
}

/// No prefix of the digits `s` writes a larger number than `s` itself.
proof fn lemma_decimal_prefix_le(s: Seq<char>, i: int)
    requires
        0 <= i <= s.len(),
    ensures
        decimal_value(s.subrange(0, i)) <= decimal_value(s),
    decreases s.len(),
{
    if i < s.len() {
        lemma_decimal_prefix_le(s.drop_last(), i);
        assert(s.drop_last().subrange(0, i) =~= s.subrange(0, i));
    } else {
        assert(s.subrange(0, i) =~= s);
    }
}

/// The characters of `s`, in order.
fn chars_of(s: &str) -> (r: Vec<char>)
    ensures
        r@ == s@,
{
    let n = s.unicode_len();
    let mut out: Vec<char> = Vec::new();
    let mut i: usize = 0;
    while i < n
        invariant
            n == s@.len(),
            0 <= i <= n,
            out@ == s@.subrange(0, i as int),
        decreases n - i,
    {
        out.push(s.get_char(i));
        i = i + 1;
        assert(out@ =~= s@.subrange(0, i as int));
    }
    assert(s@.subrange(0, n as int) =~= s@);
    out
}

/// The value of the decimal digits `d[start..]` when there is at least one,
/// all are digits and the value is at most `max`.
fn parse_decimal(d: &Vec<char>, start: usize, max: u64) -> (r: Option<u64>)
    requires
        start <= d@.len(),
        max <= u32::MAX,
    ensures
        ({
            let t = d@.subrange(start as int, d@.len() as int);
            r == if t.len() > 0 && all_decimal_digits(t) && decimal_value(t) <= max {
                Some(decimal_value(t) as u64)
            } else {
                None::<u64>
            }
        }),
{
    let ghost t = d@.subrange(start as int, d@.len() as int);
    if start == d.len() {
        return None;
    }
    let mut v: u64 = 0;
    let mut i: usize = start;
    while i < d.len()
        invariant
            t == d@.subrange(start as int, d@.len() as int),
            start <= i <= d@.len(),
            max <= u32::MAX,
            v <= max,
            v == decimal_value(t.subrange(0, i - start)),
            all_decimal_digits(t.subrange(0, i - start)),
        decreases d.len() - i,
    {
        let c = d[i];
        let ghost p = t.subrange(0, i + 1 - start);
        assert(p.drop_last() =~= t.subrange(0, i - start));
        if !('0' <= c && c <= '9') {
            assert(!is_decimal_digit(t[i - start]));
            return None;
        }
        let nv = 10 * v + (c as u32 - '0' as u32) as u64;
        assert(all_decimal_digits(p));
        if nv > max {
            proof {
                lemma_decimal_prefix_le(t, i + 1 - start);
            }
            return None;
        }
        v = nv;
        i = i + 1;
    }
    assert(t.subrange(0, i - start) =~= t);
    Some(v)
}

/// Reads an unsigned number field of value at most `max`: an optional `+`
/// followed by decimal digits.
fn parse_unsigned(s: &str, max: u64) -> (r: Option<u64>)
    requires
        max <= u32::MAX,
    ensures
        r == if is_unsigned_at_most(s@, max as nat) {
            Some(unsigned_value(s@) as u64)
        } else {
            None::<u64>
        },
{
    let d = chars_of(s);
    let start: usize = if d.len() > 0 && d[0] == '+' {
        1
    } else {
        0
    };
    proof {
        assert(d@.subrange(start as int, d@.len() as int) =~= unsigned_digits(s@));
    }
    parse_decimal(&d, start, max)
}

/// Reads a port field: an unsigned number of 16 bits. Anything else is
/// refused with `InvalidPort`, which carries the field.
pub fn parse_port(s: &str) -> (r: Result<u16, ToolError>)
    ensures
        r is Ok <==> is_unsigned_at_most(s@, u16::MAX as nat),
        r is Ok ==> r->Ok_0 == unsigned_value(s@),
        r is Err ==> (r->Err_0 matches ToolError::InvalidPort(t) && t@ == s@),
{
    match parse_unsigned(s, 65535) {
        Some(v) => Ok(v as u16),
        None => Err(ToolError::InvalidPort(String::from_str(s))),
    }
}

/// Reads a baud-rate field: an unsigned number of 32 bits. Anything else is
/// refused with `InvalidBaudRate`, which carries the field.
pub fn parse_baud_rate(s: &str) -> (r: Result<u32, ToolError>)
    ensures
        r is Ok <==> is_unsigned_at_most(s@, u32::MAX as nat),
        r is Ok ==> r->Ok_0 == unsigned_value(s@),
        r is Err ==> (r->Err_0 matches ToolError::InvalidBaudRate(t) && t@ == s@),
{
    match parse_unsigned(s, 4294967295) {
        Some(v) => Ok(v as u32),
        None => Err(ToolError::InvalidBaudRate(String::from_str(s))),
    }
}

/// The views of a sequence of character vectors.
pub open spec fn char_vec_views(v: Seq<Vec<char>>) -> Seq<Seq<char>> {
    v.map_values(|g: Vec<char>| g@)
}

/// The value of one part of a dotted quad, if it is one.
fn parse_octet(g: &Vec<char>) -> (r: Option<u8>)
    ensures
        r == if is_octet(g@) {
            Some(decimal_value(g@) as u8)
        } else {
            None::<u8>
        },
{
    if g.len() == 0 || g.len() > 3 || (g.len() > 1 && g[0] == '0') {
        return None;
    }
    assert(g@.subrange(0, g@.len() as int) =~= g@);
    match parse_decimal(g, 0, 255) {
        Some(v) => Some(v as u8),
        None => None,
    }
}

/// Reads an address field in IPv4 dotted-quad notation: four parts separated
/// by dots, each one to three decimal digits with no leading zero and of value
/// at most 255. Anything else is refused with `InvalidAddress`, which carries
/// the field.
pub fn parse_ipv4(s: &str) -> (r: Result<Ipv4Address, ToolError>)
    ensures
        r is Ok <==> is_ipv4(s@),
        r is Ok ==> r->Ok_0.octets@ == ipv4_octets(s@),
        r is Err ==> (r->Err_0 matches ToolError::InvalidAddress(t) && t@ == s@),
{
    let d = chars_of(s);
    let mut groups: Vec<Vec<char>> = Vec::new();
    let mut cur: Vec<char> = Vec::new();
    let mut i: usize = 0;
    assert(d@.subrange(0, 0) =~= Seq::<char>::empty());
    assert(char_vec_views(groups@).push(cur@) =~= seq![Seq::<char>::empty()]);
    while i < d.len()
        invariant
            d@ == s@,
            0 <= i <= d@.len(),
            split_dots(d@.subrange(0, i as int)) == char_vec_views(groups@).push(cur@),
        decreases d.len() - i,
    {
        let c = d[i];
        let ghost before = char_vec_views(groups@).push(cur@);
        assert(d@.subrange(0, i + 1).drop_last() =~= d@.subrange(0, i as int));
        if c == '.' {
            groups.push(cur);
            cur = Vec::new();
            assert(char_vec_views(groups@).push(cur@) =~= before.push(Seq::<char>::empty()));
        } else {
            cur.push(c);
            assert(char_vec_views(groups@).push(cur@) =~= before.update(
                before.len() - 1,
                before.last().push(c),
            ));
        }
        i = i + 1;
    }
    assert(d@.subrange(0, i as int) =~= s@);
    let ghost parts = split_dots(s@);
    if groups.len() != 3 {
        return Err(ToolError::InvalidAddress(String::from_str(s)));
    }
    assert(parts[0] == groups@[0]@ && parts[1] == groups@[1]@ && parts[2] == groups@[2]@);
    assert(parts[3] == cur@);
    let a = parse_octet(&groups[0]);
    let b = parse_octet(&groups[1]);
    let c = parse_octet(&groups[2]);
    let e = parse_octet(&cur);
    match (a, b, c, e) {
        (Some(a), Some(b), Some(c), Some(e)) => {
            let ip = Ipv4Address { octets: [a, b, c, e] };
            assert(ip.octets@ =~= ipv4_octets(s@));
            Ok(ip)
        },
        _ => {
            assert(!is_octet(parts[0]) || !is_octet(parts[1]) || !is_octet(parts[2])
                || !is_octet(parts[3]));
            Err(ToolError::InvalidAddress(String::from_str(s)))
        },
    }
}

/// Whether `c` is the TCP or UDP connection (as `udp` says) to the address
/// and port that the fields `ip` and `port` write.
pub open spec fn is_socket_connection(c: ConnectionSpec, udp: bool, ip: Seq<char>, port: Seq<char>) -> bool {
    match c {
        ConnectionSpec::Tcp { ip: a, port: p } => !udp && a.octets@ == ipv4_octets(ip) && p
            == unsigned_value(port),
        ConnectionSpec::Udp { ip: a, port: p } => udp && a.octets@ == ipv4_octets(ip) && p
            == unsigned_value(port),
        ConnectionSpec::Serial { .. } => false,
    }
}

/// Whether `e` is the error for the address and port fields `ip` and `port`:
/// the address is checked first.
pub open spec fn is_socket_field_error(e: ToolError, ip: Seq<char>, port: Seq<char>) -> bool {
    if !is_ipv4(ip) {
        e matches ToolError::InvalidAddress(t) && t@ == ip
    } else {
        e matches ToolError::InvalidPort(t) && t@ == port
    }
}

/// The connection for a socket kind: TCP, or UDP when `udp` holds.
fn socket_connection(udp: bool, ip: &str, port: &str) -> (r: Result<ConnectionSpec, ToolError>)
    ensures
        r is Ok <==> is_ipv4(ip@) && is_unsigned_at_most(port@, u16::MAX as nat),
        r is Ok ==> is_socket_connection(r->Ok_0, udp, ip@, port@),
        r is Err ==> is_socket_field_error(r->Err_0, ip@, port@),
{
    let a = match parse_ipv4(ip) {
        Ok(a) => a,
        Err(e) => {
            return Err(e);
        },
    };
    let p = match parse_port(port) {
        Ok(p) => p,
        Err(e) => {
            return Err(e);
        },
    };
    if udp {
        Ok(ConnectionSpec::Udp { ip: a, port: p })
    } else {
        Ok(ConnectionSpec::Tcp { ip: a, port: p })
    }
}

/// Validates the fields of a TCP connection: an IPv4 address and a port.
pub fn tcp_connection(ip: &str, port: &str) -> (r: Result<ConnectionSpec, ToolError>)
    ensures
        r is Ok <==> is_ipv4(ip@) && is_unsigned_at_most(port@, u16::MAX as nat),
        r is Ok ==> is_socket_connection(r->Ok_0, false, ip@, port@),
        r is Err ==> is_socket_field_error(r->Err_0, ip@, port@),
{
    socket_connection(false, ip, port)
}

/// Validates the fields of a UDP connection: an IPv4 address and a port.
pub fn udp_connection(ip: &str, port: &str) -> (r: Result<ConnectionSpec, ToolError>)
    ensures
        r is Ok <==> is_ipv4(ip@) && is_unsigned_at_most(port@, u16::MAX as nat),
        r is Ok ==> is_socket_connection(r->Ok_0, true, ip@, port@),
        r is Err ==> is_socket_field_error(r->Err_0, ip@, port@),
{
    socket_connection(true, ip, port)
}

/// Validates the fields of a serial connection: any device name, and a baud
/// rate.
pub fn serial_connection(device: &str, baud_rate: &str) -> (r: Result<ConnectionSpec, ToolError>)
    ensures
        r is Ok <==> is_unsigned_at_most(baud_rate@, u32::MAX as nat),
        r is Ok ==> (r->Ok_0 matches ConnectionSpec::Serial { device: d, baud_rate: b } && d@
            == device@ && b == unsigned_value(baud_rate@)),
        r is Err ==> (r->Err_0 matches ToolError::InvalidBaudRate(t) && t@ == baud_rate@),
{
    match parse_baud_rate(baud_rate) {
        Ok(b) => Ok(ConnectionSpec::Serial { device: String::from_str(device), baud_rate: b }),
        Err(e) => Err(e),
    }
}

} // verus!
