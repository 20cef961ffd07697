//! The allow-list policy and the decision it makes on a destination.

use vstd::prelude::*;
use crate::sockaddr::{Destination, Family};
use crate::text::{ipv6_loopback, lemma_only_loopback_prints_as_loopback};

verus! {

/// The allow-list: the textual destination addresses (IPv4 and IPv6 alike)
/// to which connections may be made. It is fixed before tracing starts.
#[derive(Debug)]
pub struct Profile {
    pub allowed_ips: Vec<String>,
}

#[derive(PartialEq, Eq, Structural, Clone, Copy, Debug)]
pub enum Verdict {
    /// The call goes ahead.
    Allow,
    /// The call is made to fail.
    Block,
}

/// The verdict of the policy: a destination whose address is on the list
/// may be reached, any other is blocked. The port plays no part.
pub open spec fn verdict_for(p: &Profile, addr: Seq<char>) -> Verdict {
    if p.permits(addr) {
        Verdict::Allow
    } else {
        Verdict::Block
    }
}

impl Profile {
    /// `addr` is one of the allowed addresses.
    pub open spec fn permits(&self, addr: Seq<char>) -> bool {
        exists|i: int| 0 <= i < self.allowed_ips@.len() && #[trigger] self.allowed_ips@[i]@ == addr
    }

    pub fn new(allowed_ips: Vec<String>) -> (r: Self)
        ensures
            r.allowed_ips@ == allowed_ips@,
    {
        Profile { allowed_ips }
    }

    /// The policy in force when none is given: the IPv4 loopback address
    /// alone.
    pub fn loopback_only() -> (r: Self)
        ensures
            r.allowed_ips@.len() == 1,
            r.allowed_ips@[0]@ == "127.0.0.1"@,
    {
        let mut allowed_ips: Vec<String> = Vec::new();
        allowed_ips.push(String::from_str("127.0.0.1"));
        Profile { allowed_ips }
    }

    /// The policy from the allow-list that was loaded, or the loopback-only
    /// policy where none was.
    pub fn from_loaded(loaded: Option<Vec<String>>) -> (r: Self)
        ensures
            match loaded {
                Some(ips) => r.allowed_ips@ == ips@,
                None => r.allowed_ips@.len() == 1 && r.allowed_ips@[0]@ == "127.0.0.1"@,
            },
    {
        match loaded {
            Some(ips) => Profile::new(ips),
            None => Profile::loopback_only(),
        }
    }

    /// Whether `addr` is on the allow-list.
    pub fn allows(&self, addr: &String) -> (r: bool)
        ensures
            r == self.permits(addr@),
    {
        let mut i: usize = 0;
        while i < self.allowed_ips.len()
            invariant
                i <= self.allowed_ips@.len(),
                forall|j: int| 0 <= j < i ==> self.allowed_ips@[j]@ != addr@,
            decreases self.allowed_ips@.len() - i,
        {
            if self.allowed_ips[i] == *addr {
                return true;
            }
            i += 1;
        }
        false
    }

    /// Decides on a decoded destination: allowed exactly when its address,
    /// as text, is on the list.
    pub fn decide(&self, dest: &Destination) -> (r: Verdict)
        requires
            dest.wf(),
        ensures
            r == verdict_for(self, dest.text()),
    {
        let text = dest.address_text();
        if self.allows(&text) {
            Verdict::Allow
        } else {
            Verdict::Block
        }
    }
}

/// A destination whose address is on the allow-list is let through, and
/// any other is blocked, whatever its port: two destinations that differ
/// in their port alone get the same verdict.
pub proof fn lemma_allow_list_decides(p: &Profile, d: &Destination, e: &Destination)
    requires
        d.wf(),
        e.wf(),
    ensures
        (verdict_for(p, d.text()) == Verdict::Allow) <==> p.permits(d.text()),
        (verdict_for(p, d.text()) == Verdict::Block) <==> !p.permits(d.text()),
        d.family == e.family && d.octets@ == e.octets@ ==> verdict_for(p, d.text()) == verdict_for(
            p,
            e.text(),
        ),
{
}

/// Under the policy that allows `::1` alone, an IPv6 destination is let
/// through exactly when it is the loopback address: any other IPv6 address
/// is blocked.
pub proof fn lemma_ipv6_loopback_policy(p: &Profile, d: &Destination)
    requires
        p.allowed_ips@.len() == 1,
        p.allowed_ips@[0]@ == seq![':', ':', '1'],
        d.wf(),
        d.family == Family::Inet6,
    ensures
        (verdict_for(p, d.text()) == Verdict::Allow) <==> d.octets@ == ipv6_loopback(),
{
    lemma_only_loopback_prints_as_loopback(d.octets@);
    if d.text() == seq![':', ':', '1'] {
        assert(p.allowed_ips@[0]@ == d.text());
    }
}

} // verus!
