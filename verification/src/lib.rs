//! Core of a configuration-driven file-synchronisation launcher.
//!
//! The library resolves layered ignore/exclude configuration, expands
//! variable references in path expressions, selects files under a source
//! tree, and plans the external transfer command for each selected file.
//! Reading the configuration file, parsing command-line flags and running
//! the external tool are left to the surrounding binary.

pub mod config;
pub mod dispatch;
pub mod environment;
pub mod errors;
pub mod excludes;
pub mod globs;
pub mod policy;
pub mod template;
pub mod walker;
