//! Verified core of the AKA-00 tennis-ball robot: the hunting state
//! machine, the command-line grammar, and the decisions of the TPU runtime.
pub mod cli;
pub mod grammar;
pub mod number;
pub mod robot;
pub mod tpu;
