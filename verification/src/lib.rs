//! A micro-benchmark harness for a fixed-size mutable array abstraction.
//!
//! A closed catalogue of access patterns (sequential write, random read,
//! random write, mixed read/write ratios, adversarial hotspot access) is
//! driven against the array by a scenario engine; every run yields one
//! normalized measurement record. The operation streams are drawn from a
//! seeded pseudo-random stream, so each run is a deterministic function of
//! the array size, the scenario and the seed; only the wall-clock readings
//! vary.

pub mod array;
pub mod rng;
pub mod record;
pub mod render;
pub mod scenario;
pub mod sizes;
pub mod timing;
