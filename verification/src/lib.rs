//! Discrete event simulation: the integer and string logic of the models,
//! the simulator's message routing, random index selection and the
//! bookkeeping of output analysis, each with its contract.
pub mod utils;
pub mod errors;
pub mod output_analysis;
pub mod models;
pub mod input_modeling;
pub mod simulator;
