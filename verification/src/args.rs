//! The validated runtime configuration, as the core consumes it. The
//! command line and the environment are read and validated outside
//! this crate; what arrives here are plain values that already satisfy
//! the documented ranges.

use vstd::prelude::*;

use crate::peer::PeerAddr;

verus! {

/// The configuration the tarpit runs with: the pool capacity, the
/// inter-frame delay in milliseconds, the payload length of each
/// frame, and the addresses to listen on.
pub struct Args {
    pub cap: u16,
    pub delay: u64,
    pub length: u8,
    pub addrs: Vec<PeerAddr>,
}

impl Args {
    /// The validated ranges: a positive capacity, a positive delay,
    /// and at least three payload characters per frame.
    pub open spec fn wf(&self) -> bool {
        &&& self.cap >= 1
        &&& self.delay >= 1
        &&& self.length >= 3
    }

    /// Packs an already-validated configuration.
    pub fn new(cap: u16, delay: u64, length: u8, addrs: Vec<PeerAddr>) -> (args: Args)
        requires
            cap >= 1,
            delay >= 1,
            length >= 3,
        ensures
            args.wf(),
            args.cap == cap,
            args.delay == delay,
            args.length == length,
            args.addrs@ == addrs@,
    {
        Args { cap, delay, length, addrs }
    }
}

} // verus!
