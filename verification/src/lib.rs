//! A discrete-time queuing-system simulator with two priority classes,
//! together with the small pseudo-random sequence generators it draws from.
//!
//! The simulation engine lives in [`smo_engine`]: a clock advances one round
//! at a time, tasks arrive at random, wait in a FIFO queue (normal priority)
//! or a LIFO stack (low priority), are served one at a time, and running
//! statistics are derived on demand.

pub mod lemer_gen;
pub mod rust_gen;
pub mod smo_engine;
