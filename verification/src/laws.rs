//! What holds of the library as a whole, over any number of steps and passes.

pub mod addresses;
pub mod budget;
pub mod candidates;
pub mod conduct;
pub mod configuration;
pub mod convergence;
pub mod halves;
pub mod permits;
pub mod propagation;
pub mod readings;
pub mod records;
pub mod reviews;
pub mod rounds;
pub mod safety;
pub mod states;
pub mod termination;
pub mod turns;
pub mod views;
