//! The queuing-system simulation engine: model types, random sampling and
//! the round-by-round stepping logic.

pub mod engine;
pub mod model;
pub mod rng;
