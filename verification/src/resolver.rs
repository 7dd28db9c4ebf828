//! The chain resolver: walking the declared hop chain from the socket
//! peer outward and returning the first hop not vouched for by a
//! trusted proxy.

use vstd::prelude::*;
use crate::ip::{IpAddress, TrustSet};

verus! {

/// The first untrusted address of `s`, scanning from the last entry
/// towards the first; `None` when every entry is trusted.
pub open spec fn first_untrusted_from_end(t: TrustSet, s: Seq<IpAddress>) -> Option<IpAddress>
    decreases s.len(),
{
    if s.len() == 0 {
        None
    } else if !t.spec_contains(s.last()) {
        Some(s.last())
    } else {
        first_untrusted_from_end(t, s.drop_last())
    }
}

/// The resolved client address for a known peer: the declared hops are
/// walked nearest-first (peer, then the header entries right to left),
/// and the first untrusted hop wins; when the whole chain is trusted,
/// the furthest declared hop wins, or the peer if none was declared.
pub open spec fn spec_resolve(t: TrustSet, hops: Seq<IpAddress>, peer: IpAddress) -> IpAddress {
    match first_untrusted_from_end(t, hops.push(peer)) {
        Some(a) => a,
        None => if hops.len() > 0 {
            hops[0]
        } else {
            peer
        },
    }
}

/// Resolves the client address from the header-declared hops (furthest
/// first, as read left to right from the header) and the socket peer.
pub fn resolve(t: &TrustSet, hops: &Vec<IpAddress>, peer: IpAddress) -> (r: IpAddress)
    ensures
        r == spec_resolve(*t, hops@, peer),
{
    let ghost full = hops@.push(peer);
    if !t.contains(peer) {
        return peer;
    }
    assert(full.drop_last() =~= hops@);
    assert(full.last() == peer);
    assert(first_untrusted_from_end(*t, full) == first_untrusted_from_end(*t, hops@));
    assert(hops@.subrange(0, hops@.len() as int) =~= hops@);
    let mut k: usize = hops.len();
    while k > 0
        invariant
            k <= hops@.len(),
            full == hops@.push(peer),
            first_untrusted_from_end(*t, full) == first_untrusted_from_end(
                *t,
                hops@.subrange(0, k as int),
            ),
        decreases k,
    {
        k = k - 1;
        let hop = hops[k];
        let ghost prefix = hops@.subrange(0, k + 1);
        assert(prefix.last() == hop);
        assert(prefix.drop_last() =~= hops@.subrange(0, k as int));
        if !t.contains(hop) {
            assert(first_untrusted_from_end(*t, prefix) == Some(hop));
            return hop;
        }
    }
    assert(hops@.subrange(0, 0) =~= Seq::<IpAddress>::empty());
    assert(first_untrusted_from_end(*t, full) is None);
    if hops.len() > 0 {
        hops[0]
    } else {
        peer
    }
}

/// Resolution with an optional peer: without a socket peer address
/// there is nothing to resolve.
pub fn resolve_optional(t: &TrustSet, hops: &Vec<IpAddress>, peer: Option<IpAddress>) -> (r: Option<
    IpAddress,
>)
    ensures
        r == (match peer {
            Some(p) => Some(spec_resolve(*t, hops@, p)),
            None => None::<IpAddress>,
        }),
{
    match peer {
        Some(p) => Some(resolve(t, hops, p)),
        None => None,
    }
}

/// An untrusted direct peer is never overridden by declared hops: the
/// walk starts at the peer, which is already the first untrusted hop.
/// With no declared hops this is the plain fallback to the peer.
pub proof fn lemma_untrusted_peer_wins(t: TrustSet, hops: Seq<IpAddress>, peer: IpAddress)
    requires
        !t.spec_contains(peer),
    ensures
        spec_resolve(t, hops, peer) == peer,
{
    reveal_with_fuel(first_untrusted_from_end, 2);
    assert(hops.push(peer).last() == peer);
    assert(first_untrusted_from_end(t, hops.push(peer)) == Some(peer));
}

/// A trusted peer with a single untrusted declared hop: that hop is the result.
pub proof fn lemma_single_hop(t: TrustSet, h1: IpAddress, peer: IpAddress)
    requires
        t.spec_contains(peer),
        !t.spec_contains(h1),
    ensures
        spec_resolve(t, seq![h1], peer) == h1,
{
    reveal_with_fuel(first_untrusted_from_end, 3);
    let full = seq![h1].push(peer);
    assert(full.last() == peer);
    assert(full.drop_last() =~= seq![h1]);
    assert(seq![h1].last() == h1);
    assert(first_untrusted_from_end(t, seq![h1]) == Some(h1));
    assert(first_untrusted_from_end(t, full) == Some(h1));
}

/// With the peer and the nearer hop trusted, the walk moves on to the
/// further declared hop: for the chain peer <- h1 <- h2 the result is h2.
pub proof fn lemma_two_hops(t: TrustSet, h2: IpAddress, h1: IpAddress, peer: IpAddress)
    requires
        t.spec_contains(peer),
        t.spec_contains(h1),
        !t.spec_contains(h2),
    ensures
        spec_resolve(t, seq![h2, h1], peer) == h2,
{
    reveal_with_fuel(first_untrusted_from_end, 4);
    let full = seq![h2, h1].push(peer);
    assert(full.last() == peer);
    assert(full.drop_last() =~= seq![h2, h1]);
    assert(seq![h2, h1].last() == h1);
    assert(seq![h2, h1].drop_last() =~= seq![h2]);
    assert(seq![h2].last() == h2);
    assert(first_untrusted_from_end(t, seq![h2]) == Some(h2));
    assert(first_untrusted_from_end(t, seq![h2, h1]) == Some(h2));
    assert(first_untrusted_from_end(t, full) == Some(h2));
}

/// When every entry of `s` is trusted, the scan finds nothing.
proof fn lemma_all_trusted_scan(t: TrustSet, s: Seq<IpAddress>)
    requires
        forall|i: int| 0 <= i < s.len() ==> t.spec_contains(#[trigger] s[i]),
    ensures
        first_untrusted_from_end(t, s) is None,
    decreases s.len(),
{
    if s.len() > 0 {
        assert(t.spec_contains(s.last()));
        lemma_all_trusted_scan(t, s.drop_last());
    }
}

/// When the peer and every declared hop are trusted, the furthest
/// declared hop is the result, or the peer itself if none was declared.
pub proof fn lemma_all_trusted(t: TrustSet, hops: Seq<IpAddress>, peer: IpAddress)
    requires
        t.spec_contains(peer),
        forall|i: int| 0 <= i < hops.len() ==> t.spec_contains(#[trigger] hops[i]),
    ensures
        spec_resolve(t, hops, peer) == if hops.len() > 0 {
            hops[0]
        } else {
            peer
        },
{
    let full = hops.push(peer);
    assert(forall|i: int| 0 <= i < full.len() ==> t.spec_contains(#[trigger] full[i]));
    lemma_all_trusted_scan(t, full);
}

} // verus!
