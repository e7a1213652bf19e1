//! The decisions of the terminal interface: key handling, filtering and
//! selection. Drawing and reading the terminal are left to the caller.

pub mod keys;
pub mod picker;
pub mod editor;
pub mod status;
pub mod action;
pub mod history;
pub mod screens;
pub mod state;
