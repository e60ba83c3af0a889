//! The earlier GPU front end, which keeps GP0 commands as bytes.
pub mod command;
