//! Per-actuator state, the move-command queue and the robot that owns a port.
pub mod queue;
pub mod robot;
