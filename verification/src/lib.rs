//! Core of a parallel test runner: test-list modelling, deterministic
//! partitioning, target-runner resolution, and a retry-aware execution
//! scheduler that emits an ordered stream of run events.

pub mod errors;
pub mod helpers;
pub mod partition;
pub mod reporter;
pub mod runner;
pub mod target_runner;
pub mod test_filter;
pub mod test_list;
