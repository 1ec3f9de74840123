//! A network-tarpit core: a capacity-bounded admission pool of peer
//! addresses, the per-connection drip-session state machine, random
//! filler-frame generation, and the small pieces of list logic around
//! argument handling. The I/O shell (binding, accepting, writing,
//! sleeping, signals) lives outside this crate and drives these types.

#![verifier::loop_isolation(false)]

pub mod addrs;
pub mod args;
pub mod display;
pub mod frame;
pub mod peer;
pub mod pool;
pub mod session;

pub use peer::PeerAddr;
pub use pool::ConnectionPool;
