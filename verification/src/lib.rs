//! Client side of the slimproto streaming-control protocol: the wire codec,
//! the per-connection session and the decisions of the stream orchestrator.
pub mod buffer;
pub mod ascii;
pub mod wire;
pub mod codec;
pub mod text;
pub mod player;
pub mod invariants;
pub mod proto;
