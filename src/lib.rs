//! Ground-station relay for a flight vehicle telemetry link: the frame codec,
//! the telemetry store with its windowed queries, the command queue and the
//! decisions of the relay loop.

pub mod protocol;
pub mod store;
pub mod relay;
