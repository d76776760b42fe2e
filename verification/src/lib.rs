//! Core of a retained-mode scene graph simulation: an entity store with
//! change-tracked spatial components, incremental hierarchical transform
//! propagation, cascading deletion, a fixed-timestep accumulator, and the
//! binary wire protocol that feeds pose events into the store.
//!
//! All spatial quantities are integers: positions and translations are `i64`
//! subunits, velocities are subunits per time unit, and time is counted in
//! integer time units. Arithmetic wraps on overflow, so every operation is
//! total and exactly specified.

pub mod codec;
pub mod components;
pub mod engine;
pub mod math;
pub mod store;
pub mod systems;
pub mod timestep;
