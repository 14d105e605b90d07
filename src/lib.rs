//! springd: the request engine and statistics pipeline of an HTTP benchmark
//! tool, as verified state machines and computations over plain values.

pub mod arg;
pub mod dispatcher;
pub mod latency;
pub mod limiter;
pub mod statistics;
pub mod status;
pub mod task;
