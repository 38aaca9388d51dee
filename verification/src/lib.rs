//! Core of a "show" command for a Python project management tool.
//!
//! Given a filesystem location, the library resolves the active project (or
//! workspace of member projects), derives each project's environment layout,
//! plans the introspection of installed packages through a self-managed
//! toolchain, and renders the report lines. All filesystem access, subprocess
//! spawning and terminal output stay outside the library: callers feed in
//! plain observations (directory listings, file presence, exit codes) and
//! carry out the actions the library decides on.

use vstd::prelude::*;

pub mod bootstrap;
pub mod errors;
pub mod introspect;
pub mod path;
pub mod project;
pub mod report;

verus! {

/// Selects what the show command reports: the project state, or the
/// installed dependencies of the project's environment.
pub struct Args {
    /// Print the installed dependencies from the venv.
    pub installed_deps: bool,
}

} // verus!
