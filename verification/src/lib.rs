//! Task discovery and launching for project workspaces.
//!
//! The library finds the tasks that a directory offers (from its own
//! `yobiko.toml`, Cargo, Docker Compose, Go, npm, mise and uv manifests),
//! renders them as shell command lines, and holds the decisions of the
//! terminal interface: filtering, selection and command editing.

pub mod text;
pub mod model;
pub mod config;
pub mod files;
pub mod providers;
pub mod scan;
pub mod paths;
pub mod tui;
pub mod runner;
