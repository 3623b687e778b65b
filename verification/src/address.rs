//! Socket addresses of backends, and the dotted-quad form of an IPv4 address.

use crate::text::{
    all_digits, chars_of, decimal_text, digit_value, digits_value, format_decimal, is_digit,
    join, join_on, lacks, lemma_decimal_text, lemma_split_join, push_char, push_decimal, split,
    split_on, texts,
};
use vstd::prelude::*;

verus! {

/// An IPv4 address and a port on which a backend listens.
#[derive(Clone, Copy, Debug, PartialEq, Eq, Hash)]
pub struct HostAddr {
    /// The four octets of the address, most significant first.
    pub ip: [u8; 4],
    /// The port.
    pub port: u16,
}

/// Whether `s` writes one octet of a dotted quad: one to three decimal
/// digits, no leading zero unless it is the only digit, at most 255.
pub open spec fn is_octet_text(s: Seq<char>) -> bool {
    &&& 1 <= s.len() <= 3
    &&& all_digits(s)
    &&& (s.len() == 1 || s[0] != '0')
    &&& digits_value(s) <= 255
}

/// The address written by `text` as four octets separated by dots, if it
/// is written so.
pub open spec fn parse_ipv4(text: Seq<char>) -> Option<Seq<u8>> {
    let parts = split(text, '.');
    if parts.len() == 4 && is_octet_text(parts[0]) && is_octet_text(parts[1]) && is_octet_text(
        parts[2],
    ) && is_octet_text(parts[3]) {
        Some(
            seq![
                digits_value(parts[0]) as u8,
                digits_value(parts[1]) as u8,
                digits_value(parts[2]) as u8,
                digits_value(parts[3]) as u8,
            ],
        )
    } else {
        None
    }
}

/// Reads one octet of a dotted quad.
fn read_octet(text: &str) -> (octet: Option<u8>)
    ensures
        match octet {
            Some(value) => is_octet_text(text@) && value == digits_value(text@),
            None => !is_octet_text(text@),
        },
{
    let chars = chars_of(text);
    let n = chars.len();
    if n == 0 || n > 3 {
        return None;
    }
    if n > 1 && chars[0] == '0' {
        return None;
    }
    let mut value: u32 = 0;
    let mut i: usize = 0;
    while i < n
        invariant
            0 <= i <= n <= 3,
            n == chars.len(),
            chars@ == text@,
            all_digits(chars@.take(i as int)),
            value == digits_value(chars@.take(i as int)),
            value < 1000,
            i < 3 ==> value < 100,
            i < 2 ==> value < 10,
            i < 1 ==> value == 0,
        decreases n - i,
    {
        let c = chars[i];
        if !('0' <= c && c <= '9') {
            assert(!is_digit(chars@[i as int]));
            return None;
        }
        let d: u32 = c as u32 - '0' as u32;
        proof {
            let upto = chars@.take(i + 1);
            assert(upto.drop_last() =~= chars@.take(i as int));
            assert(upto.last() == c);
            assert(d == digit_value(c));
        }
        value = value * 10 + d;
        i += 1;
    }
    assert(chars@.take(n as int) =~= chars@);
    if value > 255 {
        None
    } else {
        Some(value as u8)
    }
}

/// Parses an IPv4 address written as four decimal octets separated by dots.
pub fn read_ipv4(text: &str) -> (ip: Option<[u8; 4]>)
    ensures
        match ip {
            Some(octets) => parse_ipv4(text@) == Some(octets@),
            None => parse_ipv4(text@) is None,
        },
{
    let parts = split_on(text, '.');
    if parts.len() != 4 {
        return None;
    }
    assert(forall|k: int| 0 <= k < 4 ==> parts@[k]@ == #[trigger] texts(parts@)[k]);
    let a = match read_octet(parts[0].as_str()) {
        Some(v) => v,
        None => { return None; },
    };
    let b = match read_octet(parts[1].as_str()) {
        Some(v) => v,
        None => { return None; },
    };
    let c = match read_octet(parts[2].as_str()) {
        Some(v) => v,
        None => { return None; },
    };
    let d = match read_octet(parts[3].as_str()) {
        Some(v) => v,
        None => { return None; },
    };
    let octets: [u8; 4] = [a, b, c, d];
    assert(octets@ =~= seq![a, b, c, d]);
    Some(octets)
}

/// The dotted-quad form of the address `ip`.
pub open spec fn ipv4_text(ip: Seq<u8>) -> Seq<char> {
    join(ipv4_parts(ip), '.')
}

/// The four octets of the address `ip` in decimal.
pub open spec fn ipv4_parts(ip: Seq<u8>) -> Seq<Seq<char>> {
    seq![
        decimal_text(ip[0] as nat),
        decimal_text(ip[1] as nat),
        decimal_text(ip[2] as nat),
        decimal_text(ip[3] as nat),
    ]
}

/// The written form of a socket address: the dotted quad, a colon, the
/// port.
pub open spec fn host_addr_text(addr: HostAddr) -> Seq<char> {
    ipv4_text(addr.ip@) + seq![':'] + decimal_text(addr.port as nat)
}

impl HostAddr {
    /// The loopback address with this port.
    pub fn loopback(port: u16) -> (addr: HostAddr)
        ensures
            addr.ip@ == seq![127u8, 0u8, 0u8, 1u8],
            addr.port == port,
    {
        let ip: [u8; 4] = [127, 0, 0, 1];
        assert(ip@ =~= seq![127u8, 0u8, 0u8, 1u8]);
        HostAddr { ip, port }
    }

    /// The address as `a.b.c.d:port`.
    pub fn to_string(&self) -> (text: String)
        ensures
            text@ == host_addr_text(*self),
    {
        let mut octets: Vec<String> = Vec::new();
        octets.push(format_decimal(self.ip[0] as u64));
        octets.push(format_decimal(self.ip[1] as u64));
        octets.push(format_decimal(self.ip[2] as u64));
        octets.push(format_decimal(self.ip[3] as u64));
        assert(texts(octets@) =~= ipv4_parts(self.ip@));
        let mut text = join_on(&octets, '.');
        push_char(&mut text, ':');
        push_decimal(&mut text, self.port as u64);
        text
    }
}

/// An address is read back from its dotted-quad form.
pub proof fn lemma_ipv4_round_trip(ip: Seq<u8>)
    requires
        ip.len() == 4,
    ensures
        parse_ipv4(ipv4_text(ip)) == Some(ip),
{
    let parts = ipv4_parts(ip);
    assert forall|i: int| 0 <= i < 4 implies {
        &&& is_octet_text(#[trigger] parts[i])
        &&& digits_value(parts[i]) == ip[i]
        &&& lacks(parts[i], '.')
    } by {
        lemma_decimal_text(ip[i] as nat);
        assert forall|j: int| 0 <= j < parts[i].len() implies parts[i][j] != '.' by {
            assert(is_digit(parts[i][j]));
        }
    }
    lemma_split_join(parts, '.');
    assert(parse_ipv4(ipv4_text(ip))->0 =~= ip);
}

} // verus!
