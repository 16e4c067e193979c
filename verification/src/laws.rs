//! What holds of the relay as a whole: what its bytes, steps and texts mean, said
//! without the functions that make them.

pub mod connecting;
pub mod messages;
pub mod numbers;
pub mod results;
pub mod serving;
pub mod starting;
pub mod steps;
pub mod streams;
pub mod wire;
