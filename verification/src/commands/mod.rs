//! The decisions and computations behind the `status`, `jobs`, `log` and
//! `retry` subcommands.
pub mod jobs;
pub mod log;
pub mod retry;
pub mod status;
