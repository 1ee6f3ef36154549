//! The option handling and planning logic of a compiler driver: command line
//! options into session options, target configuration, crate configuration
//! items, output file names, dependency-info rules and the order of the
//! compilation phases.

pub mod text;
pub mod error;
pub mod session;
pub mod config;
pub mod cfgspec;
pub mod cli;
pub mod codegen;
pub mod target;
pub mod options;
pub mod path;
pub mod output;
pub mod driver;
pub mod annotate;
