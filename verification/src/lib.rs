//! Wire message model and request dispatcher for a content-addressable
//! peer-to-peer overlay ("state network") running on top of a Kademlia-style
//! peer-discovery substrate.
//!
//! The library defines the typed protocol messages, their byte-exact codec,
//! and the dispatch logic that turns an inbound opaque byte buffer into a
//! semantically valid response. Transport, session handling and peer-identity
//! internals are external collaborators.

pub mod codec;
pub mod errors;
pub mod messages;
pub mod peers;
pub mod protocol;
pub mod u256;

use vstd::prelude::*;

verus! {

/// Seconds between two iterations of the peer-discovery loop.
pub const DISCOVERY_INTERVAL: u64 = 30;

/// What the discovery loop does after one query round. Each round reports
/// the peer count, runs one random-target query, and merges what it finds;
/// this value decides how the loop goes on.
#[derive(Clone, Copy, Debug, PartialEq, Eq, Structural)]
pub enum DiscoveryAction {
    /// Sleep the given number of seconds, then run the next round.
    Sleep { seconds: u64 },
    /// Terminate the loop.
    Stop,
}

/// The loop policy: after a successful query, sleep the fixed interval and
/// go again; a query failure is fatal to the loop — no retry, no backoff.
pub fn discovery_step(query_succeeded: bool) -> (a: DiscoveryAction)
    ensures
        query_succeeded ==> a == (DiscoveryAction::Sleep { seconds: DISCOVERY_INTERVAL }),
        !query_succeeded ==> a == DiscoveryAction::Stop,
{
    if query_succeeded {
        DiscoveryAction::Sleep { seconds: DISCOVERY_INTERVAL }
    } else {
        DiscoveryAction::Stop
    }
}

/// Echo handler: returns the request bytes unchanged.
pub fn talk_resp(_protocol: &[u8], req: &[u8]) -> (r: Vec<u8>)
    ensures
        r@ == req@,
{
    let mut out: Vec<u8> = Vec::new();
    let mut i: usize = 0;
    while i < req.len()
        invariant
            i <= req@.len(),
            out@ == req@.subrange(0, i as int),
        decreases req@.len() - i,
    {
        out.push(req[i]);
        i = i + 1;
    }
    proof {
        assert(out@ =~= req@);
    }
    out
}

} // verus!
