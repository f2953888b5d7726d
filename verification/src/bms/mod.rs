//! The BMS format: commands, the parsed model and its processing.
pub mod command;
pub mod error;
pub mod layout;
pub mod lex;
pub mod objects;
pub mod parse;
pub mod model;
pub mod prompt;
pub mod rng;
pub mod unparse;
