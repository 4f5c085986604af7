//! Network addresses: an IP address with or without a port, held as the
//! literal it is written as.

use vstd::prelude::*;
use crate::decimal::{char_is_digit, decimal_value, is_digit, parse_digits};
use crate::messages::common::{FromKatcpArgument, ToKatcpArgument};
use crate::protocol::{digit_run_end, scan_digit_run, KatcpError};
use crate::protocol_laws::lemma_digit_run_clean;
use crate::text::{from_chars, sub_vec, to_chars};

verus! {

/// A hexadecimal digit.
pub open spec fn is_hex_digit(c: char) -> bool {
    is_digit(c) || ('a' <= c && c <= 'f') || ('A' <= c && c <= 'F')
}

/// Where the longest run of hexadecimal digits that starts at `i` ends.
pub open spec fn hex_run_end(s: Seq<char>, i: int) -> int
    decreases s.len() - i,
{
    if 0 <= i < s.len() && is_hex_digit(s[i]) {
        hex_run_end(s, i + 1)
    } else {
        i
    }
}

/// Where the decimal number that starts at `i` ends: the longest run of
/// digits there, if it is not empty and its value is at most `max`.
pub open spec fn number_end(s: Seq<char>, i: int, max: nat) -> Option<int> {
    let e = digit_run_end(s, i);
    if 0 <= i < e && e <= s.len() && decimal_value(s.subrange(i, e)) <= max {
        Some(e)
    } else {
        None
    }
}

/// Where the octet that starts at `i` ends: one to three digits, without a
/// leading zero before another digit, the value at most 255.
pub open spec fn octet_end(s: Seq<char>, i: int) -> Option<int> {
    match number_end(s, i, 255) {
        Some(e) => if e - i <= 3 && (e - i == 1 || s[i] != '0') {
            Some(e)
        } else {
            None
        },
        None => None,
    }
}

/// Where `remaining` octets that start at `i`, with a point between each
/// two, end.
pub open spec fn octets_end(s: Seq<char>, i: int, remaining: nat) -> Option<int>
    decreases remaining,
{
    match octet_end(s, i) {
        None => None,
        Some(e) => if remaining <= 1 {
            Some(e)
        } else if e < s.len() && s[e] == '.' {
            octets_end(s, e + 1, (remaining - 1) as nat)
        } else {
            None
        },
    }
}

/// Where the dotted quad that starts at `i` ends.
pub open spec fn ipv4_end(s: Seq<char>, i: int) -> Option<int> {
    octets_end(s, i, 4)
}

/// Where the group of an IPv6 address that starts at `i` ends: one to four
/// hexadecimal digits.
pub open spec fn hex_group_end(s: Seq<char>, i: int) -> Option<int> {
    let e = hex_run_end(s, i);
    if 0 <= i && 1 <= e - i <= 4 && e <= s.len() {
        Some(e)
    } else {
        None
    }
}

/// Reads groups of an IPv6 address from `pos` on, `k` of at most `limit`
/// having been read: each but the first after a colon; a dotted quad
/// counts for two groups, may stand only where two are still allowed, and
/// ends the run. Gives the number of groups read, the place where the run
/// ends, and whether a dotted quad ended it.
pub open spec fn groups_end(s: Seq<char>, pos: int, k: int, limit: int) -> (int, int, bool)
    decreases limit - k,
{
    if k >= limit {
        (k, pos, false)
    } else {
        let start = if k == 0 {
            Some(pos)
        } else if 0 <= pos < s.len() && s[pos] == ':' {
            Some(pos + 1)
        } else {
            None
        };
        match start {
            None => (k, pos, false),
            Some(st) => {
                let quad = if k < limit - 1 {
                    ipv4_end(s, st)
                } else {
                    None
                };
                match quad {
                    Some(e) => (k + 2, e, true),
                    None => match hex_group_end(s, st) {
                        Some(e) => groups_end(s, e, k + 1, limit),
                        None => (k, pos, false),
                    },
                }
            },
        }
    }
}

/// Where the IPv6 address that starts at `i` ends: eight groups, or fewer
/// with one `::` that stands for the missing ones; a dotted quad may stand
/// for the last two groups.
pub open spec fn ipv6_end(s: Seq<char>, i: int) -> Option<int> {
    let (h, p, quad) = groups_end(s, i, 0, 8);
    if h == 8 {
        Some(p)
    } else if quad {
        None
    } else if 0 <= p && p + 1 < s.len() && s[p] == ':' && s[p + 1] == ':' {
        Some(groups_end(s, p + 2, 0, 7 - h).1)
    } else {
        None
    }
}

/// The whole text is a dotted quad.
pub open spec fn is_ipv4_literal(s: Seq<char>) -> bool {
    ipv4_end(s, 0) == Some(s.len() as int)
}

/// The whole text is an IPv6 address.
pub open spec fn is_ipv6_literal(s: Seq<char>) -> bool {
    ipv6_end(s, 0) == Some(s.len() as int)
}

/// The whole text is an IP address, of either family.
pub open spec fn is_ip_literal(s: Seq<char>) -> bool {
    is_ipv4_literal(s) || is_ipv6_literal(s)
}

/// The text ends at `e` with a colon and a port: decimal digits whose value
/// fits 16 bits.
pub open spec fn is_port_at(s: Seq<char>, e: int) -> bool {
    0 <= e < s.len() && s[e] == ':' && number_end(s, e + 1, 65535) == Some(s.len() as int)
}

/// The whole text is a socket address: a dotted quad, a colon and a port;
/// or in brackets an IPv6 address, which a `%` and a decimal scope may
/// follow, then a colon and a port.
pub open spec fn is_socket_literal(s: Seq<char>) -> bool {
    ||| (ipv4_end(s, 0) matches Some(e) && is_port_at(s, e))
    ||| (s.len() > 0 && s[0] == '[' && (ipv6_end(s, 1) matches Some(e) && {
        let b = if e < s.len() && s[e] == '%' {
            number_end(s, e + 1, u32::MAX as nat)
        } else {
            Some(e)
        };
        b matches Some(c) && c < s.len() && s[c] == ']' && is_port_at(s, c + 1)
    }))
}

/// The text holds a colon.
pub open spec fn has_colon(s: Seq<char>) -> bool {
    exists|i: int| 0 <= i < s.len() && s[i] == ':'
}

fn is_hex_char(c: char) -> (b: bool)
    ensures
        b == is_hex_digit(c),
{
    char_is_digit(c) || ('a' <= c && c <= 'f') || ('A' <= c && c <= 'F')
}

fn scan_hex_run(v: &Vec<char>, from: usize) -> (end: usize)
    requires
        from <= v.len(),
    ensures
        end == hex_run_end(v@, from as int),
        from <= end <= v.len(),
{
    let mut i = from;
    while i < v.len() && is_hex_char(v[i])
        invariant
            from <= i <= v.len(),
            hex_run_end(v@, i as int) == hex_run_end(v@, from as int),
        decreases v.len() - i,
    {
        i += 1;
    }
    i
}

fn scan_number(v: &Vec<char>, i: usize, max: u64) -> (r: Option<usize>)
    requires
        i <= v.len(),
    ensures
        r matches Some(e) ==> i < e <= v.len(),
        match r {
            Some(e) => number_end(v@, i as int, max as nat) == Some(e as int),
            None => number_end(v@, i as int, max as nat) is None,
        },
{
    let e = scan_digit_run(v, i);
    match parse_digits(v, i, e, max) {
        Some(_) => Some(e),
        None => None,
    }
}

fn scan_octet(v: &Vec<char>, i: usize) -> (r: Option<usize>)
    requires
        i <= v.len(),
    ensures
        r matches Some(e) ==> i < e <= v.len(),
        match r {
            Some(e) => octet_end(v@, i as int) == Some(e as int),
            None => octet_end(v@, i as int) is None,
        },
{
    match scan_number(v, i, 255) {
        Some(e) => if e - i <= 3 && (e - i == 1 || v[i] != '0') {
            Some(e)
        } else {
            None
        },
        None => None,
    }
}

fn scan_octets(v: &Vec<char>, i: usize, remaining: usize) -> (r: Option<usize>)
    requires
        i <= v.len(),
    ensures
        r matches Some(e) ==> i < e <= v.len(),
        match r {
            Some(e) => octets_end(v@, i as int, remaining as nat) == Some(e as int),
            None => octets_end(v@, i as int, remaining as nat) is None,
        },
    decreases remaining,
{
    match scan_octet(v, i) {
        None => None,
        Some(e) => if remaining <= 1 {
            Some(e)
        } else if e < v.len() && v[e] == '.' {
            scan_octets(v, e + 1, remaining - 1)
        } else {
            None
        },
    }
}

fn scan_hex_group(v: &Vec<char>, i: usize) -> (r: Option<usize>)
    requires
        i <= v.len(),
    ensures
        r matches Some(e) ==> i < e <= v.len(),
        match r {
            Some(e) => hex_group_end(v@, i as int) == Some(e as int),
            None => hex_group_end(v@, i as int) is None,
        },
{
    let e = scan_hex_run(v, i);
    if 1 <= e - i && e - i <= 4 {
        Some(e)
    } else {
        None
    }
}

fn scan_groups(v: &Vec<char>, pos: usize, k: usize, limit: usize) -> (r: (usize, usize, bool))
    requires
        pos <= v.len(),
        k <= limit <= 8,
    ensures
        (r.0 as int, r.1 as int, r.2) == groups_end(v@, pos as int, k as int, limit as int),
        pos <= r.1 <= v.len(),
        k <= r.0 <= limit,
    decreases limit - k,
{
    if k >= limit {
        return (k, pos, false);
    }
    let start = if k == 0 {
        pos
    } else if pos < v.len() && v[pos] == ':' {
        pos + 1
    } else {
        return (k, pos, false);
    };
    if k + 1 < limit {
        match scan_octets(v, start, 4) {
            Some(e) => {
                return (k + 2, e, true);
            },
            None => {},
        }
    }
    match scan_hex_group(v, start) {
        Some(e) => scan_groups(v, e, k + 1, limit),
        None => (k, pos, false),
    }
}

fn scan_ipv6(v: &Vec<char>, i: usize) -> (r: Option<usize>)
    requires
        i <= v.len(),
    ensures
        r matches Some(e) ==> i <= e <= v.len(),
        match r {
            Some(e) => ipv6_end(v@, i as int) == Some(e as int),
            None => ipv6_end(v@, i as int) is None,
        },
{
    let (h, p, quad) = scan_groups(v, i, 0, 8);
    if h == 8 {
        Some(p)
    } else if quad {
        None
    } else if p < v.len() && v.len() - p > 1 && v[p] == ':' && v[p + 1] == ':' {
        let (_, q, _) = scan_groups(v, p + 2, 0, 7 - h);
        Some(q)
    } else {
        None
    }
}

fn port_at(v: &Vec<char>, e: usize) -> (b: bool)
    requires
        e <= v.len(),
    ensures
        b == is_port_at(v@, e as int),
{
    if e < v.len() && v[e] == ':' {
        match scan_number(v, e + 1, 65535) {
            Some(end) => end == v.len(),
            None => false,
        }
    } else {
        false
    }
}

/// Whether the characters are an IP address.
pub fn is_ip_chars(v: &Vec<char>) -> (b: bool)
    ensures
        b == is_ip_literal(v@),
{
    let four = match scan_octets(v, 0, 4) {
        Some(e) => e == v.len(),
        None => false,
    };
    if four {
        return true;
    }
    match scan_ipv6(v, 0) {
        Some(e) => e == v.len(),
        None => false,
    }
}

/// Whether the characters are a socket address.
pub fn is_socket_chars(v: &Vec<char>) -> (b: bool)
    ensures
        b == is_socket_literal(v@),
{
    let four = match scan_octets(v, 0, 4) {
        Some(e) => port_at(v, e),
        None => false,
    };
    if four {
        return true;
    }
    if v.len() > 0 && v[0] == '[' {
        match scan_ipv6(v, 1) {
            Some(e) => {
                let b = if e < v.len() && v[e] == '%' {
                    scan_number(v, e + 1, 0xffff_ffff)
                } else {
                    Some(e)
                };
                match b {
                    Some(c) => c < v.len() && v[c] == ']' && port_at(v, c + 1),
                    None => false,
                }
            },
            None => false,
        }
    } else {
        false
    }
}

fn chars_have_colon(v: &Vec<char>) -> (b: bool)
    ensures
        b == has_colon(v@),
{
    let mut i: usize = 0;
    while i < v.len()
        invariant
            i <= v.len(),
            forall|k: int| 0 <= k < i ==> v@[k] != ':',
        decreases v.len() - i,
    {
        if v[i] == ':' {
            return true;
        }
        i += 1;
    }
    false
}

/// An address: an IP address alone, held without brackets, or a socket
/// address, held as it is written.
#[derive(Debug, PartialEq, Eq, Clone)]
pub enum KatcpAddress {
    /// An IPv4 or IPv6 address.
    Ip(String),
    /// An IP address and a port.
    Socket(String),
}

impl KatcpAddress {
    /// The literal is one of the kind that the variant names.
    pub open spec fn wf(&self) -> bool {
        match self {
            KatcpAddress::Ip(s) => is_ip_literal(s@),
            KatcpAddress::Socket(s) => is_socket_literal(s@),
        }
    }

    /// The token of an address: a socket address as it is; an IP address in
    /// brackets where it holds a colon, bare where it holds none.
    pub open spec fn text(&self) -> Seq<char> {
        match self {
            KatcpAddress::Ip(s) => if has_colon(s@) {
                seq!['['] + s@ + seq![']']
            } else {
                s@
            },
            KatcpAddress::Socket(s) => s@,
        }
    }

    /// The address that a token stands for: a socket address where it is
    /// one, else an IP address where it is one, else the IP address between
    /// its brackets.
    pub open spec fn parsed(token: Seq<char>) -> Option<(bool, Seq<char>)> {
        if token.len() == 0 {
            None
        } else if is_socket_literal(token) {
            Some((true, token))
        } else if is_ip_literal(token) {
            Some((false, token))
        } else if token[0] == '[' && token.last() == ']' && is_ip_literal(
            token.subrange(1, token.len() - 1),
        ) {
            Some((false, token.subrange(1, token.len() - 1)))
        } else {
            None
        }
    }
}

impl ToKatcpArgument for KatcpAddress {
    open spec fn argument_spec(&self) -> Seq<char> {
        self.text()
    }

    fn to_argument(&self) -> (token: String) {
        match self {
            KatcpAddress::Ip(s) => {
                let v = to_chars(s.as_str());
                if chars_have_colon(&v) {
                    let mut out: Vec<char> = Vec::new();
                    out.push('[');
                    let mut w = v;
                    out.append(&mut w);
                    out.push(']');
                    assert(out@ =~= seq!['['] + s@ + seq![']']);
                    from_chars(&out)
                } else {
                    s.clone()
                }
            },
            KatcpAddress::Socket(s) => s.clone(),
        }
    }
}

impl FromKatcpArgument for KatcpAddress {
    type Err = KatcpError;

    /// A token decodes where it writes an address.
    open spec fn failure(token: Seq<char>) -> Option<KatcpError> {
        if KatcpAddress::parsed(token) is None {
            Some(KatcpError::BadArgument)
        } else {
            None
        }
    }

    /// A token decodes to the address it writes.
    open spec fn yields(token: Seq<char>, v: Self) -> bool {
        &&& v.wf()
        &&& match v {
            KatcpAddress::Socket(s) => KatcpAddress::parsed(token) == Some((true, s@)),
            KatcpAddress::Ip(s) => KatcpAddress::parsed(token) == Some((false, s@)),
        }
    }

    fn from_argument(s: &str) -> (r: Result<Self, KatcpError>) {
        let v = to_chars(s);
        if v.len() == 0 {
            Err(KatcpError::BadArgument)
        } else if is_socket_chars(&v) {
            Ok(KatcpAddress::Socket(from_chars(&v)))
        } else if is_ip_chars(&v) {
            Ok(KatcpAddress::Ip(from_chars(&v)))
        } else if v[0] == '[' && v[v.len() - 1] == ']' && v.len() >= 2 {
            let inner = sub_vec(&v, 1, v.len() - 1);
            if is_ip_chars(&inner) {
                Ok(KatcpAddress::Ip(from_chars(&inner)))
            } else {
                Err(KatcpError::BadArgument)
            }
        } else {
            Err(KatcpError::BadArgument)
        }
    }
}

/// A text that ends with a port holds a colon and ends with a digit.
proof fn lemma_port_shape(s: Seq<char>, e: int)
    requires
        is_port_at(s, e),
    ensures
        s.len() > 0,
        is_digit(s.last()),
        has_colon(s),
{
    lemma_digit_run_clean(s, e + 1);
    assert(s[e] == ':');
}

impl KatcpAddress {
    /// Decoding the token of an address gives the address back.
    pub proof fn lemma_roundtrip(self)
        requires
            self.wf(),
        ensures
            <KatcpAddress as FromKatcpArgument>::failure(self.argument_spec()) is None,
            <KatcpAddress as FromKatcpArgument>::yields(self.argument_spec(), self),
    {
        let t = self.text();
        assert forall|x: Seq<char>| #[trigger] is_socket_literal(x) implies x.len() > 0 && is_digit(
            x.last(),
        ) && has_colon(x) by {
            if ipv4_end(x, 0) matches Some(e) && is_port_at(x, e) {
                lemma_port_shape(x, ipv4_end(x, 0)->Some_0);
            } else {
                let e = ipv6_end(x, 1)->Some_0;
                let b = if e < x.len() && x[e] == '%' {
                    number_end(x, e + 1, u32::MAX as nat)
                } else {
                    Some(e)
                };
                lemma_port_shape(x, b->Some_0 + 1);
            }
        }
        match self {
            KatcpAddress::Socket(s) => {},
            KatcpAddress::Ip(s) => {
                if has_colon(s@) {
                    assert(t.len() == s@.len() + 2);
                    assert(t[0] == '[');
                    assert(t.last() == ']');
                    assert(!is_socket_literal(t));
                    assert(digit_run_end(t, 0) == 0);
                    assert(ipv4_end(t, 0) is None);
                    assert(hex_run_end(t, 0) == 0);
                    assert(groups_end(t, 0, 0, 8) == (0int, 0int, false));
                    assert(ipv6_end(t, 0) is None);
                    assert(t.subrange(1, t.len() - 1) =~= s@);
                } else {
                    assert(!is_socket_literal(s@));
                    if s@.len() == 0 {
                        assert(digit_run_end(s@, 0) == 0);
                        assert(hex_run_end(s@, 0) == 0);
                        assert(groups_end(s@, 0, 0, 8) == (0int, 0int, false));
                    }
                }
            },
        }
    }
}

} // verus!
