//! The address model: IPv4 and IPv6 addresses, CIDR networks, and the
//! set of trusted proxy networks.
//!
//! An address is held as its numeric value (32 or 128 bits); the two
//! address families are kept strictly apart, so an IPv4 network never
//! contains an IPv6 address and vice versa.

use vstd::prelude::*;

verus! {

/// An IPv4 or IPv6 address, compared by exact value.
#[derive(Clone, Copy, PartialEq, Eq, Structural, Debug)]
pub enum IpAddress {
    /// An IPv4 address as its 32-bit value, most significant octet first.
    V4(u32),
    /// An IPv6 address as its 128-bit value, most significant group first.
    V6(u128),
}

/// A contiguous address range: a base address and a prefix length.
/// A single address is a host network (prefix 32 or 128); a prefix
/// longer than the address width behaves as the full width.
#[allow(inconsistent_fields)]
#[derive(Clone, Copy, PartialEq, Eq, Structural, Debug)]
pub enum IpNetwork {
    /// An IPv4 range: the `prefix` most significant bits of `addr` fix the range.
    V4 { addr: u32, prefix: u8 },
    /// An IPv6 range: the `prefix` most significant bits of `addr` fix the range.
    V6 { addr: u128, prefix: u8 },
}

impl IpNetwork {
    /// The range includes exactly the addresses of the same family that
    /// agree with the base address on the `prefix` most significant bits.
    pub open spec fn spec_contains(self, a: IpAddress) -> bool {
        match (self, a) {
            (IpNetwork::V4 { addr, prefix }, IpAddress::V4(x)) => {
                if prefix == 0 {
                    true
                } else if prefix >= 32 {
                    x == addr
                } else {
                    (x >> ((32 - prefix) as u32)) == (addr >> ((32 - prefix) as u32))
                }
            },
            (IpNetwork::V6 { addr, prefix }, IpAddress::V6(x)) => {
                if prefix == 0 {
                    true
                } else if prefix >= 128 {
                    x == addr
                } else {
                    (x >> ((128 - prefix) as u128)) == (addr >> ((128 - prefix) as u128))
                }
            },
            _ => false,
        }
    }

    /// The host network of a single address: it contains that address and no other.
    pub fn host(a: IpAddress) -> (r: IpNetwork)
        ensures
            forall|b: IpAddress| (#[trigger] r.spec_contains(b)) <==> b == a,
    {
        match a {
            IpAddress::V4(x) => IpNetwork::V4 { addr: x, prefix: 32 },
            IpAddress::V6(x) => IpNetwork::V6 { addr: x, prefix: 128 },
        }
    }

    /// Whether `a` lies in this network's range.
    pub fn contains(&self, a: IpAddress) -> (r: bool)
        ensures
            r == self.spec_contains(a),
    {
        match (*self, a) {
            (IpNetwork::V4 { addr, prefix }, IpAddress::V4(x)) => {
                if prefix == 0 {
                    true
                } else if prefix >= 32 {
                    x == addr
                } else {
                    (x >> ((32 - prefix) as u32)) == (addr >> ((32 - prefix) as u32))
                }
            },
            (IpNetwork::V6 { addr, prefix }, IpAddress::V6(x)) => {
                if prefix == 0 {
                    true
                } else if prefix >= 128 {
                    x == addr
                } else {
                    (x >> ((128 - prefix) as u128)) == (addr >> ((128 - prefix) as u128))
                }
            },
            _ => false,
        }
    }
}

/// The set of proxies the operator trusts, as a list of networks.
/// Built once at configuration time and read-only afterwards.
#[derive(Clone, Debug)]
pub struct TrustSet {
    /// The configured networks; duplicates are harmless and order carries no meaning.
    pub networks: Vec<IpNetwork>,
}

impl TrustSet {
    /// Membership: at least one configured network contains the address.
    pub open spec fn spec_contains(self, a: IpAddress) -> bool {
        exists|i: int| 0 <= i < self.networks@.len() && (#[trigger] self.networks@[i]).spec_contains(a)
    }

    /// The empty trust set: no proxy is trusted.
    pub fn empty() -> (r: TrustSet)
        ensures
            forall|a: IpAddress| !(#[trigger] r.spec_contains(a)),
    {
        TrustSet { networks: Vec::new() }
    }

    /// A trust set of the given networks.
    pub fn from_networks(nets: Vec<IpNetwork>) -> (r: TrustSet)
        ensures
            r.networks@ == nets@,
    {
        TrustSet { networks: nets }
    }

    /// The convenience constructor: a trust set of individual
    /// addresses, each a host network.
    pub fn from_addresses(addrs: Vec<IpAddress>) -> (r: TrustSet)
        ensures
            forall|a: IpAddress| (#[trigger] r.spec_contains(a)) <==> addrs@.contains(a),
    {
        let mut networks: Vec<IpNetwork> = Vec::new();
        let n = addrs.len();
        let mut k: usize = 0;
        while k < n
            invariant
                n == addrs@.len(),
                k <= n,
                networks@.len() == k,
                forall|i: int, b: IpAddress|
                    0 <= i < k ==> ((#[trigger] networks@[i].spec_contains(b)) <==> b == addrs@[i]),
            decreases n - k,
        {
            let net = IpNetwork::host(addrs[k]);
            networks.push(net);
            k = k + 1;
        }
        let r = TrustSet { networks };
        proof {
            assert forall|a: IpAddress| (#[trigger] r.spec_contains(a)) <==> addrs@.contains(a) by {
                if r.spec_contains(a) {
                    let i = choose|i: int|
                        0 <= i < r.networks@.len() && (#[trigger] r.networks@[i]).spec_contains(a);
                    assert(r.networks@[i].spec_contains(a));
                    assert(addrs@[i] == a);
                }
                if addrs@.contains(a) {
                    let i = choose|i: int| 0 <= i < addrs@.len() && addrs@[i] == a;
                    assert(r.networks@[i].spec_contains(a));
                }
            }
        }
        r
    }

    /// Whether the address lies in any configured network.
    pub fn contains(&self, a: IpAddress) -> (r: bool)
        ensures
            r == self.spec_contains(a),
    {
        let n = self.networks.len();
        let mut k: usize = 0;
        while k < n
            invariant
                n == self.networks@.len(),
                k <= n,
                forall|i: int| 0 <= i < k ==> !(#[trigger] self.networks@[i]).spec_contains(a),
            decreases n - k,
        {
            if self.networks[k].contains(a) {
                return true;
            }
            k = k + 1;
        }
        false
    }
}

} // verus!
