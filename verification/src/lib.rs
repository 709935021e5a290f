//! Per-core CPU telemetry with smooth interpolation, and an inertial orbit
//! camera controller, both over exact fixed-point arithmetic.

pub mod angle;
pub mod camera;
pub mod cpu;
pub mod fixed;
pub mod metrics;
pub mod text;
pub mod usage;
