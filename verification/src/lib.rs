//! Input-driven control core for a single floating body: cooldown-gated
//! impulses, sustained forces, braking and a bounded heat value.
//!
//! All quantities are fixed-point integers, so that a recorded run replays
//! bit for bit. Scalars and vector components are given in thousandths of
//! their unit, time in nanoseconds.

pub mod control;
pub mod cooldown;
pub mod heat;
pub mod inputs;
pub mod vector;
