//! Parallel reset of a set of git submodule working trees.
//!
//! The crate discovers submodule paths from a `.gitmodules`-style manifest,
//! plans one worker per path, drives each worker through a fixed four-step
//! reset protocol that stops at the first launch failure, and aggregates the
//! failure records of all workers into a single report.
//!
//! Everything that touches the outside world (environment, filesystem,
//! spawning the external tool, threads) lives in the surrounding binary; this
//! crate holds the decisions and the data, with their contracts.

pub mod aggregator;
pub mod driver;
pub mod manifest;
pub mod worker;
