//! Verified core of a tool that turns a Bazel workspace into a
//! `rust-project.json` description for `rust-analyzer`.

pub mod bazel_info;
pub mod command;
pub mod config;
pub mod crate_info;
pub mod discover_rust_project;
pub mod gen_rust_project;
pub mod listing;
pub mod output;
pub mod paths;
pub mod ra_arg;
pub mod text;
