//! Which resolved address SIP signalling uses.
//!
//! Resolving and probing sockets is the caller's; the choice among the
//! candidates is made here.
use vstd::prelude::*;

verus! {

/// Picks among resolved candidates, given which of them are IPv4: the first
/// IPv4 one, since home PBXs commonly publish an IPv6 address that does not
/// accept SIP while their IPv4 LAN address always does; else the first.
pub fn preferred_address(is_ipv4: &[bool]) -> (r: Option<usize>)
    ensures
        match r {
            Some(i) => i < is_ipv4@.len() && ((is_ipv4@[i as int] && forall|j: int|
                0 <= j < i ==> !is_ipv4@[j]) || (i == 0 && forall|j: int|
                0 <= j < is_ipv4@.len() ==> !is_ipv4@[j])),
            None => is_ipv4@.len() == 0,
        },
{
    let mut i: usize = 0;
    while i < is_ipv4.len()
        invariant
            i <= is_ipv4.len(),
            forall|j: int| 0 <= j < i ==> !is_ipv4@[j],
        decreases is_ipv4.len() - i,
    {
        if is_ipv4[i] {
            return Some(i);
        }
        i = i + 1;
    }
    if is_ipv4.len() > 0 {
        Some(0)
    } else {
        None
    }
}

} // verus!
