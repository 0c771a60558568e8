//! A state-gated periodic trigger: a counter that advances on a fixed cadence
//! while a two-valued application state allows it.

pub mod counter;
pub mod laws;
pub mod scheduler;
pub mod state;
pub mod timestep;
