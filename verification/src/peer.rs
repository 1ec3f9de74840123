//! The identity of a remote peer: the (IP, port) pair of the remote
//! socket, used as the admission pool's unique key.

use vstd::prelude::*;

verus! {

/// A remote peer's address. IPv4 addresses carry their 32-bit value in
/// the low bits of `ip` with `v6 == false`; IPv6 addresses carry the
/// full 128-bit value with `v6 == true`. Two peers are the same exactly
/// when all three fields agree, so a v4 address and its v6-mapped form
/// count as distinct peers, as they do on the wire.
#[derive(Clone, Copy, PartialEq, Eq, Structural, Debug)]
pub struct PeerAddr {
    pub v6: bool,
    pub ip: u128,
    pub port: u16,
}

impl PeerAddr {
    /// Whether this is the IPv4 wildcard address on the SSH port, the
    /// default bind address; the argument handling treats a list that
    /// holds only this value as "still at its default".
    pub open spec fn spec_is_default_bind(self) -> bool {
        !self.v6 && self.ip == 0 && self.port == 22
    }

    pub fn is_default_bind(&self) -> (r: bool)
        ensures
            r == self.spec_is_default_bind(),
    {
        !self.v6 && self.ip == 0 && self.port == 22
    }
}

} // verus!
