//! Scores exact-string mutants against a test suite.

pub mod args;
pub mod capture;
pub mod config;
pub mod laws;
pub mod machine;
pub mod mutation;
pub mod names;
pub mod pass;
pub mod pattern;
pub mod steps;
pub mod suite;
pub mod text;
pub mod verdict;
mod views;
