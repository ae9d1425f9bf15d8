//! A Proof-of-History style hash chain: entries, slots, a round-robin leader
//! schedule, a local production driver and the adoption rule that decides
//! whether a received slot extends the local chain.

pub mod poh;
pub mod producer;
pub mod schedule;
pub mod slot;
pub mod driver;
pub mod net;
