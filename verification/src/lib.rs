//! Core primitives for an agent-based simulation: a periodic-event ticker
//! that decides when recurring simulation events should fire, and the
//! numeric command-line value resolution used to configure the driver.

pub mod args;
pub mod ticker;
