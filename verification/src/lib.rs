//! Launches reproducible tmux workspaces from a JSON description.
//!
//! The library holds the decisions: which configuration file is used, how
//! placeholders in the configuration are expanded, which tmux commands a
//! session is built from and how the output of `tmux list-windows` is read.
//! Running tmux, touching the file system and reading the environment is left
//! to the caller, which hands the results back as plain values.
use vstd::prelude::*;

pub mod config;
pub mod text;
pub mod tmux;

verus! {

/// The command line of the launcher, as plain values.
pub struct Args {
    /// The path to the configuration file (`muxrs.json`).
    pub config: Option<String>,
    /// Do not look for the root of a git repository.
    pub no_git: bool,
    /// Turn debugging information on.
    pub debug: bool,
    /// Do not fall back to the configuration in the user's config directory.
    pub no_fallback: bool,
    /// Do not attach to the tmux session after it is created.
    pub no_attach: bool,
    /// Check the configuration instead of creating the session.
    pub verify: bool,
    /// Populate the configuration file with default values.
    pub populate: bool,
    /// The path to the working directory.
    pub path: Option<String>,
}

} // verus!
