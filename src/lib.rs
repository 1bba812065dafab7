//! Time virtualisation for a single process: rescaled time-source readings,
//! an edge-triggered key chord tracker, and the decisions of the control loop
//! that drives the speed multiplier from configured key bindings.

pub mod speed;
pub mod hooks;
pub mod clock;
pub mod keyboard;
pub mod config;
pub mod control;
