//! A verified core for a catalog-driven tool installer.
//!
//! The crate models paths as plain strings split on separator characters,
//! archives as entry listings, and the install/uninstall workflows as pure
//! decision functions; all file, network and terminal work is left to the
//! binary that drives these functions.

pub mod archive;
pub mod bindle;
pub mod config;
pub mod execute;
pub mod fs;
pub mod global_input;
pub mod helper;
pub mod http;
pub mod install;
pub mod kaleido;
pub mod paths;
pub mod rust_bin_installer;
pub mod rust_src_installer;
pub mod search;
pub mod uninstall;
pub mod text;
