//! Verified core of the `co` command-line client: argument parsing,
//! repository naming rules, credential scoping and configuration updates.

pub mod text;
pub mod repo;
pub mod config;
pub mod cli;
pub mod credential;
pub mod access;
pub mod api;
pub mod machine;
pub mod runner;
pub mod workflow;
pub mod agent;
