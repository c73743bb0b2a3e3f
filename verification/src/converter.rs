//! Package format conversion behind a security gate.
//!
//! Before the external converter may run, the package path is checked,
//! case-insensitively, against a denylist of system-critical keywords; a
//! match blocks the conversion outright, and the converter command is never
//! even produced. Tool availability is checked before the security check,
//! and both before anything external runs.

use vstd::prelude::*;
use crate::config::Config;
use crate::models::{CommandOutcome, CommandSpec};
use crate::text::{contains_ci, contains_ci_str};

verus! {

/// Failures of the conversion path: the security gate refused the package,
/// the external converter is absent, or it ran and failed.
#[derive(Debug, Clone)]
pub enum ConversionError {
    SecurityBlocked(String),
    AlienNotFound,
    ConversionFailed(String),
}

/// The system-critical package categories that may never be converted.
pub open spec fn blocked_keyword(k: int) -> Seq<char> {
    if k == 0 {
        "kernel"@
    } else if k == 1 {
        "driver"@
    } else if k == 2 {
        "bootloader"@
    } else if k == 3 {
        "glibc"@
    } else if k == 4 {
        "systemd"@
    } else if k == 5 {
        "grub"@
    } else {
        "linux-"@
    }
}

/// How many keywords the denylist holds.
pub open spec fn keyword_count() -> int {
    7
}

/// A package path is blocked when it contains any denylist keyword,
/// compared case-insensitively.
pub open spec fn is_blocked(path: Seq<char>) -> bool {
    exists|k: int| 0 <= k < keyword_count() && contains_ci(path, blocked_keyword(k))
}

/// The diagnostic carried by a security rejection.
pub open spec fn blocked_message(path: Seq<char>) -> Seq<char> {
    "Package "@ + path + " contains blocked keywords"@
}

/// The denylist gate is a hard gate: a package path containing any denylist
/// keyword, case-insensitively, is blocked, so `convert_package` returns
/// `SecurityBlocked` for it and never produces a converter command.
pub proof fn lemma_denylist_blocks(path: Seq<char>, k: int)
    requires
        0 <= k < keyword_count(),
        contains_ci(path, blocked_keyword(k)),
    ensures
        is_blocked(path),
{
}

fn keyword_str(k: usize) -> (r: &'static str)
    requires
        k < 7,
    ensures
        r@ == blocked_keyword(k as int),
{
    match k {
        0 => "kernel",
        1 => "driver",
        2 => "bootloader",
        3 => "glibc",
        4 => "systemd",
        5 => "grub",
        _ => "linux-",
    }
}

pub struct PackageConverter {
    pub config: Config,
}

impl PackageConverter {
    pub fn new(config: Config) -> (r: PackageConverter)
        ensures
            r.config == config,
    {
        PackageConverter { config }
    }

    /// Whether the security gate refuses this package path.
    pub fn is_blocked_package(&self, package_path: &str) -> (r: bool)
        ensures
            r == is_blocked(package_path@),
    {
        let mut k: usize = 0;
        while k < 7
            invariant
                k <= 7,
                forall|j: int| 0 <= j < k ==> !contains_ci(package_path@, blocked_keyword(j)),
            decreases 7 - k,
        {
            if contains_ci_str(package_path, keyword_str(k)) {
                proof {
                    assert(contains_ci(package_path@, blocked_keyword(k as int)));
                }
                return true;
            }
            k = k + 1;
        }
        false
    }

    /// Decides a conversion request: the converter must be present, then the
    /// security gate must pass; only then does a converter command exist for
    /// the caller to run. The availability check precedes the security
    /// check, and a blocked package never reaches the converter.
    pub fn convert_package(
        &self,
        alien_available: bool,
        package_path: &str,
        target_format: &str,
    ) -> (r: Result<CommandSpec, ConversionError>)
        ensures
            !alien_available ==> r matches Err(ConversionError::AlienNotFound),
            alien_available && is_blocked(package_path@) ==> (r matches Err(
                ConversionError::SecurityBlocked(m),
            ) && m@ == blocked_message(package_path@)),
            alien_available && !is_blocked(package_path@) ==> (r matches Ok(c) && c.program@
                == "alien"@ && c.args.deep_view() == seq![
                "--to-"@ + target_format@,
                package_path@,
            ]),
    {
        if !alien_available {
            return Err(ConversionError::AlienNotFound);
        }
        if self.is_blocked_package(package_path) {
            let mut m = String::from_str("Package ");
            m.append(package_path);
            m.append(" contains blocked keywords");
            return Err(ConversionError::SecurityBlocked(m));
        }
        let mut fmt_arg = String::from_str("--to-");
        fmt_arg.append(target_format);
        let mut args: Vec<String> = Vec::new();
        args.push(fmt_arg);
        args.push(package_path.to_owned());
        proof {
            assert(args.deep_view() =~= seq!["--to-"@ + target_format@, package_path@]);
        }
        Ok(CommandSpec { program: String::from_str("alien"), args })
    }

    /// What a finished converter run means: a zero exit status yields the
    /// converted output, any other exit status fails with the error stream.
    pub fn conversion_result(&self, outcome: CommandOutcome) -> (r: Result<String, ConversionError>)
        ensures
            outcome.success ==> (r matches Ok(o) && o@ == outcome.stdout@),
            !outcome.success ==> (r matches Err(ConversionError::ConversionFailed(e)) && e@
                == outcome.stderr@),
    {
        if outcome.success {
            Ok(outcome.stdout)
        } else {
            Err(ConversionError::ConversionFailed(outcome.stderr))
        }
    }
}

} // verus!
