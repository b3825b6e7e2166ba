//! Discovery and collection of tests for a Python test runner: which files hold tests, which
//! names a file's syntax tree yields (parametrized variants and legacy test-class methods
//! included), where a fixture is defined, and what the reporter prints.

pub mod benchmark;
pub mod collection;
pub mod discovery;
pub mod execution;
pub mod fixtures;
pub mod parametrize;
pub mod reporting;
pub mod shapes;
pub mod structs;
pub mod syntax;
pub mod text;
pub mod uv;

pub use crate::structs::{Config, TestCase};
