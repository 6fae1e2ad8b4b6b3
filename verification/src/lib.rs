//! Core of a configuration-driven command runner: compiles a declarative
//! command tree into an argument grammar, and resolves a parsed invocation
//! back to the matched command together with its merged variable scope.

pub mod args;
pub mod cli;
pub mod config;
pub mod grammar;
pub mod platform;
