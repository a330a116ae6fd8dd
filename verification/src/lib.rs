//! Generates the command-line interface of a program from a directory of command modules.
//!
//! Each module describes its command in its leading `//!` lines (`router:`, `description:`,
//! `args:`, `log_level required` and `--long -s <value>, help` options) and marks the function
//! that runs it with `#[run]`; each subdirectory with a `mod.rs` is a command with
//! subcommands. The expansion builds a `clap::Command` (`build_cli`) and a function that matches
//! the command line and calls the chosen `#[run]` function with the values it received.

pub mod args;
pub mod codegen;
pub mod commands;
pub mod errors;
pub mod generate;
pub mod header;
pub mod format_laws;
pub mod laws;
pub mod signature;
pub mod syntax;
pub mod text;

pub use generate::{generate_commands, run};
