//! Resource allocation and two-pass orchestration for an app catalog:
//! stable port claims with priority resolution, sequential private IP
//! addresses, capability aliasing and the per-app decisions of both passes.

pub mod priority;
pub mod ports;
pub mod ips;
pub mod naming;
pub mod catalog;
pub mod pipeline;
pub mod artifacts;
pub mod laws;
