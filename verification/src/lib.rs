//! Core engine of a terminal tool that stores reusable, parameterized
//! shell command templates and lets a user select, parameterize, confirm,
//! and execute one.
//!
//! The engine is pure: template token extraction, argument style
//! resolution, parameter merging, the prompt decision, the interactive
//! selector's state machine, and the confirm/retry pipeline are all
//! functions from plain values to plain values, each with a proved
//! contract.  Reading configuration, drawing on the terminal, and
//! spawning the subprocess are left to the surrounding program.

pub mod arguments;
pub mod cli_args;
pub mod colors;
pub mod command_definitions;
pub mod config;
pub mod confirm;
pub mod errors;
pub mod interpolation;
pub mod numerals;
pub mod parameters;
pub mod params;
pub mod prompting;
pub mod selection;
pub mod template;
pub mod tokens;
pub mod validation;
