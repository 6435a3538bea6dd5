//! Verified core of `glp`, a command-line tool for GitLab CI/CD pipelines:
//! configuration resolution, API request paths, response interpretation and
//! the text that the tool prints.
pub mod text;
pub mod commands;
pub mod output;
pub mod encoding;
pub mod error;
pub mod url_parts;
pub mod git;
pub mod config;
pub mod client;
pub mod models;
pub mod json;
