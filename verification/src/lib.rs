//! Receiver for signed, batched price updates: decodes update bundles,
//! authenticates their attested envelope, verifies Merkle inclusion of every
//! price record and keeps the latest known price of each feed.

pub mod types;
pub mod wire;
pub mod feed_map;
pub mod pipeline;
pub mod receiver;
pub mod guarantees;
