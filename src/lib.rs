//! Snapshot aggregation and bottleneck diagnosis for a load-balancing
//! inference proxy and a tree of completed work artifacts.

pub mod model;
pub mod sessions;
pub mod analysis;
pub mod state;
pub mod throughput;
pub mod proxy;
pub mod walk;
pub mod text;
pub mod number;
pub mod json;
pub mod decode;
pub mod aliases;
