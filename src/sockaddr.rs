//! Socket addresses read out of a traced process.
//!
//! The destination of a `connect` call is a `sockaddr` structure in the
//! tracee's memory. It is read word by word, the words are laid out as bytes
//! in the machine's (little-endian) order, and the bytes are decoded by the
//! address-family tag at their head:
//!
//! * IPv4 (`sockaddr_in`, 16 bytes): bytes 0-1 the family tag, 2-3 the port
//!   in network (big-endian) order, 4-7 the address, 8-15 padding.
//! * IPv6 (`sockaddr_in6`, 28 bytes): bytes 0-1 the family tag, 2-3 the port
//!   in network order, 4-7 the flow information, 8-23 the address, 24-27 the
//!   scope identifier.

use vstd::prelude::*;
use crate::memory::{filled, le_byte};
use crate::text::{ipv4_string, ipv4_text, ipv6_string, ipv6_text};

verus! {

/// The address-family tag of IPv4 on Linux.
pub open spec fn inet_tag() -> nat {
    2
}

/// The address-family tag of IPv6 on Linux.
pub open spec fn inet6_tag() -> nat {
    10
}

/// Relies on `libc::AF_INET`: Linux's tag for the IPv4 family is 2.
#[verifier::external_body]
fn af_inet() -> (r: u16)
    ensures
        r == inet_tag(),
{
    libc::AF_INET as u16
}

/// Relies on `libc::AF_INET6`: Linux's tag for the IPv6 family is 10.
#[verifier::external_body]
fn af_inet6() -> (r: u16)
    ensures
        r == inet6_tag(),
{
    libc::AF_INET6 as u16
}

/// Size in bytes of `sockaddr_in`.
pub const SOCKADDR_IN_LEN: usize = 16;

/// Size in bytes of `sockaddr_in6`.
pub const SOCKADDR_IN6_LEN: usize = 28;

/// Size in bytes of a word of the tracee's memory.
pub const WORD_LEN: usize = 8;

#[derive(PartialEq, Eq, Structural, Clone, Copy, Debug)]
pub enum Family {
    Inet,
    Inet6,
}

/// A decoded destination: the family, the address octets (4 for IPv4, 16 for
/// IPv6) and the port in host order.
#[derive(Debug)]
pub struct Destination {
    pub family: Family,
    pub octets: Vec<u8>,
    pub port: u16,
}

/// The number of octets in an address of the family.
pub open spec fn octet_count(f: Family) -> nat {
    match f {
        Family::Inet => 4,
        Family::Inet6 => 16,
    }
}

/// The textual form of an address: dotted decimal for IPv4, canonical IPv6
/// text otherwise.
pub open spec fn address_text(f: Family, octets: Seq<u8>) -> Seq<char> {
    match f {
        Family::Inet => ipv4_text(octets),
        Family::Inet6 => ipv6_text(octets),
    }
}

impl Destination {
    pub open spec fn wf(&self) -> bool {
        self.octets@.len() == octet_count(self.family)
    }

    /// The textual form of the destination's address.
    pub open spec fn text(&self) -> Seq<char> {
        address_text(self.family, self.octets@)
    }

    /// The address as text (`"127.0.0.1"`, `"::1"`).
    pub fn address_text(&self) -> (r: String)
        requires
            self.wf(),
        ensures
            r@ == self.text(),
    {
        match self.family {
            Family::Inet => ipv4_string(&self.octets),
            Family::Inet6 => ipv6_string(&self.octets),
        }
    }
}

/// The family tag at the head of a socket address, in native byte order.
pub open spec fn family_of(raw: Seq<u8>) -> nat {
    raw[0] as nat + raw[1] as nat * 256
}

/// The port of a socket address, stored in network byte order.
pub open spec fn port_of(raw: Seq<u8>) -> u16 {
    (raw[2] as nat * 256 + raw[3] as nat) as u16
}

/// What a socket address's bytes denote: an IPv4 or IPv6 destination, or
/// nothing for any other family (or too few bytes to hold one).
pub open spec fn decoded(raw: Seq<u8>) -> Option<(Family, Seq<u8>, u16)> {
    if raw.len() >= 8 && family_of(raw) == inet_tag() {
        Some((Family::Inet, raw.subrange(4, 8), port_of(raw)))
    } else if raw.len() >= 24 && family_of(raw) == inet6_tag() {
        Some((Family::Inet6, raw.subrange(8, 24), port_of(raw)))
    } else {
        None
    }
}

fn copy_range(raw: &Vec<u8>, lo: usize, hi: usize) -> (r: Vec<u8>)
    requires
        lo <= hi <= raw.len(),
    ensures
        r@ == raw@.subrange(lo as int, hi as int),
{
    let mut r: Vec<u8> = Vec::new();
    let mut i: usize = lo;
    while i < hi
        invariant
            lo <= i <= hi <= raw.len(),
            r@ =~= raw@.subrange(lo as int, i as int),
        decreases hi - i,
    {
        r.push(raw[i]);
        i += 1;
    }
    r
}

/// Decodes the destination of a connection from the bytes of its socket
/// address. Families other than IPv4 and IPv6 are not evaluated: `None`.
pub fn decode_sockaddr(raw: &Vec<u8>) -> (r: Option<Destination>)
    ensures
        match (r, decoded(raw@)) {
            (Some(d), Some((f, o, p))) => d.family == f && d.octets@ == o && d.port == p && d.wf(),
            (None, None) => true,
            _ => false,
        },
{
    if raw.len() < 8 {
        return None;
    }
    let family: u16 = raw[0] as u16 + raw[1] as u16 * 256;
    let port: u16 = raw[2] as u16 * 256 + raw[3] as u16;
    if family == af_inet() {
        Some(Destination { family: Family::Inet, octets: copy_range(raw, 4, 8), port })
    } else if family == af_inet6() && raw.len() >= 24 {
        Some(Destination { family: Family::Inet6, octets: copy_range(raw, 8, 24), port })
    } else {
        None
    }
}

/// The size of the socket address to read, from the first word at its
/// address: its low two bytes are the family tag. `None` for a family that
/// is not evaluated.
pub fn sockaddr_len(first_word: u64) -> (r: Option<usize>)
    ensures
        first_word % 65536 == inet_tag() ==> r == Some(SOCKADDR_IN_LEN),
        first_word % 65536 == inet6_tag() ==> r == Some(SOCKADDR_IN6_LEN),
        first_word % 65536 != inet_tag() && first_word % 65536 != inet6_tag() ==> r is None,
{
    let family = (first_word % 65536) as u16;
    if family == af_inet() {
        Some(SOCKADDR_IN_LEN)
    } else if family == af_inet6() {
        Some(SOCKADDR_IN6_LEN)
    } else {
        None
    }
}

/// The two bytes of a port in network order.
pub open spec fn port_bytes(port: u16) -> Seq<u8> {
    seq![(port / 256) as u8, (port % 256) as u8]
}

/// A `sockaddr_in` for the four octets `addr` and `port`.
pub open spec fn sockaddr_in_bytes(addr: Seq<u8>, port: u16) -> Seq<u8> {
    seq![2u8, 0u8] + port_bytes(port) + addr + Seq::new(8, |_i: int| 0u8)
}

/// A `sockaddr_in6` for the sixteen octets `addr` and `port`, with the flow
/// information `flow` and the scope identifier `scope` (four bytes each).
pub open spec fn sockaddr_in6_bytes(addr: Seq<u8>, port: u16, flow: Seq<u8>, scope: Seq<u8>) -> Seq<
    u8,
> {
    seq![10u8, 0u8] + port_bytes(port) + flow + addr + scope
}

/// Decoding an IPv4 socket address gives back its address and port, from
/// its bytes and from the words read out of memory that hold them.
pub proof fn lemma_ipv4_round_trip(addr: Seq<u8>, port: u16, words: Seq<u64>)
    requires
        addr.len() == 4,
        words.len() == 2,
        forall|i: int|
            0 <= i < 16 ==> le_byte(words[i / 8], (i % 8) as nat) == sockaddr_in_bytes(
                addr,
                port,
            )[i],
    ensures
        decoded(sockaddr_in_bytes(addr, port)) == Some((Family::Inet, addr, port)),
        decoded(filled(words, SOCKADDR_IN_LEN as nat)) == Some((Family::Inet, addr, port)),
{
    let raw = sockaddr_in_bytes(addr, port);
    assert(raw.subrange(4, 8) =~= addr);
    assert(filled(words, 16) =~= raw);
}

/// Decoding an IPv6 socket address gives back its address and port, from
/// its bytes and from the words read out of memory that hold them (the
/// whole words of the structure, which leave out the scope identifier's
/// last four bytes).
pub proof fn lemma_ipv6_round_trip(
    addr: Seq<u8>,
    port: u16,
    flow: Seq<u8>,
    scope: Seq<u8>,
    words: Seq<u64>,
)
    requires
        addr.len() == 16,
        flow.len() == 4,
        scope.len() == 4,
        words.len() == 3,
        forall|i: int|
            0 <= i < 24 ==> le_byte(words[i / 8], (i % 8) as nat) == sockaddr_in6_bytes(
                addr,
                port,
                flow,
                scope,
            )[i],
    ensures
        decoded(sockaddr_in6_bytes(addr, port, flow, scope)) == Some((Family::Inet6, addr, port)),
        decoded(filled(words, SOCKADDR_IN6_LEN as nat)) == Some((Family::Inet6, addr, port)),
{
    let raw = sockaddr_in6_bytes(addr, port, flow, scope);
    let got = filled(words, 28);
    assert(raw.subrange(8, 24) =~= addr);
    assert(got.subrange(0, 24) =~= raw.subrange(0, 24));
    assert(got[0] == raw[0] && got[1] == raw[1] && got[2] == raw[2] && got[3] == raw[3]);
    assert(got.subrange(8, 24) =~= addr);
}

} // verus!
