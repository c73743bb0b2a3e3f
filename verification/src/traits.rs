//! The provider contract: the capability set every package backend exposes.
//!
//! A backend operation splits into building the external command to run,
//! and decoding what the external tool produced; running the tool itself is
//! the caller's part. The decoders never fail: output that does not have the
//! expected shape yields no entries rather than fabricated ones, and empty
//! output always yields an empty list.

use vstd::prelude::*;
use crate::models::{CommandSpec, InstallPlan, Package, PackageSource, ProviderError, UpdateInfo};

verus! {

/// The capability interface every backend implements. Each backend wraps one
/// external package tool; no provider depends on another provider's output
/// format.
pub trait PackageManager: Sized {
    /// The package source this backend serves.
    spec fn source(&self) -> PackageSource;

    /// Whether installing, removing and updating need privilege escalation:
    /// a static property of the backend, not computed per package.
    spec fn needs_root(&self) -> bool;

    /// The external command for a best-effort text search.
    fn search_command(&self, query: &str) -> (r: CommandSpec);

    /// Decodes search output into packages; empty output yields an empty
    /// list.
    fn parse_search(&self, output: &str) -> (r: Vec<Package>)
        ensures
            output@.len() == 0 ==> r@.len() == 0,
    ;

    /// The external command that installs a package.
    fn install_command(&self, package_id: &str) -> (r: CommandSpec);

    /// The external command that removes a package; backend-specific removal
    /// verbs stay internal to the backend.
    fn remove_command(&self, package_id: &str) -> (r: CommandSpec);

    /// The external command that applies a single pending update.
    fn update_command(&self, package_id: &str) -> (r: CommandSpec);

    /// The external command that lists this backend's installed packages,
    /// when the backend has one.
    fn list_installed_command(&self) -> (r: Option<CommandSpec>);

    /// Decodes the installed-package listing, for this backend only; empty
    /// output yields an empty list.
    fn parse_installed(&self, output: &str) -> (r: Vec<Package>)
        ensures
            output@.len() == 0 ==> r@.len() == 0,
    ;

    /// The pending updates for this backend.
    fn list_updates(&self) -> (r: Vec<UpdateInfo>);

    /// Synthesizes an install plan without side effects: a flat dependency
    /// list, never a resolved graph.
    fn get_install_plan(&self, package_id: &str) -> (r: InstallPlan)
        ensures
            r.package_id@ == package_id@,
            r.source == self.source(),
            r.requires_root == self.needs_root(),
            r.dependencies@.len() == 0,
    ;
}

/// The availability gate run before any external command: an absent tool is
/// reported as such, and nothing is invoked for it.
pub fn tool_gate(tool: &str, available: bool) -> (r: Result<(), ProviderError>)
    ensures
        available ==> r is Ok,
        !available ==> (r matches Err(ProviderError::ToolNotFound(t)) && t@ == tool@),
{
    if available {
        Ok(())
    } else {
        Err(ProviderError::ToolNotFound(tool.to_owned()))
    }
}

} // verus!
