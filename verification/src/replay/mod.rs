//! Replay V1: schema, shard framing, writer bookkeeping, reader checks,
//! capacity, sampling and audit.

pub mod schema;
pub mod frame;
pub mod writer;
pub mod capacity;
pub mod sampler;
pub mod audit;
pub mod reader;
