//! Worker-side orchestration core of an edge-serverless platform: resource
//! accounting, neighbour ranking and emergency masking, admission policy, the
//! host/guest framing protocol and the per-invocation microVM life cycle.

pub mod addresses;
pub mod api;
pub mod broker;
pub mod cellular;
pub mod framed_io;
pub mod framing;
pub mod meminfo;
pub mod net;
pub mod orchestrator;
pub mod pipeline;
pub mod registry;
pub mod resources;
pub mod vm_config;
