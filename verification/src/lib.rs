//! A verified core for a UDP file-transfer protocol: wire codec, block
//! arithmetic, per-client session state machine, dispatcher registry with
//! admission control, and a shutdown/reporting coordinator.

pub mod protocol;
pub mod meta;
pub mod codec;
pub mod blocks;
pub mod session;
pub mod registry;
pub mod coordinator;
