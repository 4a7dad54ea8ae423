//! Comparison harness for independent implementations of a shared
//! specification: invokes each implementation's own tooling out of process,
//! reconciles structured or console-text results, and derives statistical
//! summaries and cross-implementation rankings.
//!
//! Times are carried as integer milliseconds; derived statistics are
//! fixed-point values holding three decimal digits (thousandths of a
//! millisecond), so every quantity in a contract is exact integer
//! arithmetic. All outside work — spawning commands, reading and writing
//! files, waiting — is the embedding program's: it hands events and file
//! contents in as plain values and receives plans and results back.

pub mod compare;
pub mod config;
pub mod invoker;
pub mod orchestrator;
pub mod resolver;
pub mod results;
pub mod runners;
pub mod stats;
pub mod strutil;
pub mod test_cases;
pub mod utils;

pub use config::Config;
pub use compare::ComparisonReport;
pub use orchestrator::Runner;
pub use results::{TestResult, BenchmarkResult};
pub use test_cases::{TestCaseLoader, TestCaseFilter, FilteredTestCase, ValidationError};
