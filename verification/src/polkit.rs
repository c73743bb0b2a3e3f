//! The privilege-escalation agent's decision core: which privileged command
//! a package operation needs, per backend. Authorizing and executing the
//! command through the system's authorization service belong to the caller.

use vstd::prelude::*;
use crate::models::{CommandSpec, ProviderError};
use crate::text::str_eq;

verus! {

/// The diagnostic for a backend this agent does not know.
pub open spec fn unsupported_message(package_manager: Seq<char>) -> Seq<char> {
    "Unsupported package manager: "@ + package_manager
}

pub struct PolkitAgent;

impl Default for PolkitAgent {
    fn default() -> PolkitAgent {
        PolkitAgent::new()
    }
}

impl PolkitAgent {
    pub fn new() -> PolkitAgent {
        PolkitAgent
    }

    /// The privileged command that installs a package with the named
    /// backend; a backend this agent does not know is refused.
    pub fn install_package(&self, package_manager: &str, package_id: &str) -> (r: Result<
        CommandSpec,
        ProviderError,
    >)
        ensures
            package_manager@ == "apt"@ ==> (r matches Ok(c) && c.program@ == "apt-get"@
                && c.args.deep_view() == seq!["install"@, "-y"@, package_id@]),
            package_manager@ == "pacman"@ ==> (r matches Ok(c) && c.program@ == "pacman"@
                && c.args.deep_view() == seq!["-S"@, "--noconfirm"@, package_id@]),
            package_manager@ != "apt"@ && package_manager@ != "pacman"@ ==> (r matches Err(
                ProviderError::UnsupportedBackend(m),
            ) && m@ == unsupported_message(package_manager@)),
    {
        proof {
            reveal_strlit("apt");
            reveal_strlit("pacman");
        }
        if str_eq(package_manager, "apt") {
            let mut args: Vec<String> = Vec::new();
            args.push(String::from_str("install"));
            args.push(String::from_str("-y"));
            args.push(package_id.to_owned());
            proof {
                assert(args.deep_view() =~= seq!["install"@, "-y"@, package_id@]);
            }
            Ok(CommandSpec { program: String::from_str("apt-get"), args })
        } else if str_eq(package_manager, "pacman") {
            let mut args: Vec<String> = Vec::new();
            args.push(String::from_str("-S"));
            args.push(String::from_str("--noconfirm"));
            args.push(package_id.to_owned());
            proof {
                assert(args.deep_view() =~= seq!["-S"@, "--noconfirm"@, package_id@]);
            }
            Ok(CommandSpec { program: String::from_str("pacman"), args })
        } else {
            let mut m = String::from_str("Unsupported package manager: ");
            m.append(package_manager);
            Err(ProviderError::UnsupportedBackend(m))
        }
    }

    /// The privileged command that removes a package with the named
    /// backend; a backend this agent does not know is refused.
    pub fn remove_package(&self, package_manager: &str, package_id: &str) -> (r: Result<
        CommandSpec,
        ProviderError,
    >)
        ensures
            package_manager@ == "apt"@ ==> (r matches Ok(c) && c.program@ == "apt-get"@
                && c.args.deep_view() == seq!["remove"@, "-y"@, package_id@]),
            package_manager@ == "pacman"@ ==> (r matches Ok(c) && c.program@ == "pacman"@
                && c.args.deep_view() == seq!["-R"@, "--noconfirm"@, package_id@]),
            package_manager@ != "apt"@ && package_manager@ != "pacman"@ ==> (r matches Err(
                ProviderError::UnsupportedBackend(m),
            ) && m@ == unsupported_message(package_manager@)),
    {
        proof {
            reveal_strlit("apt");
            reveal_strlit("pacman");
        }
        if str_eq(package_manager, "apt") {
            let mut args: Vec<String> = Vec::new();
            args.push(String::from_str("remove"));
            args.push(String::from_str("-y"));
            args.push(package_id.to_owned());
            proof {
                assert(args.deep_view() =~= seq!["remove"@, "-y"@, package_id@]);
            }
            Ok(CommandSpec { program: String::from_str("apt-get"), args })
        } else if str_eq(package_manager, "pacman") {
            let mut args: Vec<String> = Vec::new();
            args.push(String::from_str("-R"));
            args.push(String::from_str("--noconfirm"));
            args.push(package_id.to_owned());
            proof {
                assert(args.deep_view() =~= seq!["-R"@, "--noconfirm"@, package_id@]);
            }
            Ok(CommandSpec { program: String::from_str("pacman"), args })
        } else {
            let mut m = String::from_str("Unsupported package manager: ");
            m.append(package_manager);
            Err(ProviderError::UnsupportedBackend(m))
        }
    }
}

} // verus!
