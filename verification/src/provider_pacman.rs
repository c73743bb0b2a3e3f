//! The Pacman backend: builds `pacman` command lines and decodes the
//! two-line result blocks of `pacman -Ss` and the rows of `pacman -Q`.
//!
//! Whether the system is a Manjaro derivative is an environment fact
//! determined once at construction, from release metadata the caller reads.

use vstd::prelude::*;
use crate::models::{CommandSpec, InstallPlan, Package, PackageModel, PackageSource, UpdateInfo};
use crate::text::{contains_seq, spec_after_last, spec_lines, spec_tokens, spec_trim, after_last,
    contains_str, split_lines, split_tokens, trim};
use crate::traits::PackageManager;

verus! {

pub struct PacmanProvider {
    pub manjaro: bool,
}

/// The packages of one two-line search block: the first line holds
/// `repository/name version`, the second the indented description. The
/// package name is what follows the repository prefix.
pub open spec fn search_chunk(ls: Seq<Seq<char>>, j: int) -> Seq<PackageModel> {
    let ts = spec_tokens(ls[2 * j]);
    if ts.len() >= 2 {
        seq![
            PackageModel {
                id: spec_after_last(ts[0], '/'),
                name: spec_after_last(ts[0], '/'),
                version: Some(ts[1]),
                description: if 2 * j + 1 < ls.len() {
                    Some(spec_trim(ls[2 * j + 1]))
                } else {
                    None
                },
                icon_url: None,
                source: PackageSource::Pacman,
                installed: false,
            },
        ]
    } else {
        Seq::empty()
    }
}

pub open spec fn search_upto(ls: Seq<Seq<char>>, k: int) -> Seq<PackageModel>
    decreases k,
{
    if k <= 0 {
        Seq::empty()
    } else {
        search_upto(ls, k - 1) + search_chunk(ls, k - 1)
    }
}

/// What `parse_search` decodes from the tool's output: one entry per
/// two-line block, a trailing lone line forming a block of its own.
pub open spec fn spec_parse_search(out: Seq<char>) -> Seq<PackageModel> {
    search_upto(spec_lines(out), (spec_lines(out).len() as int + 1) / 2)
}

/// The packages of one `pacman -Q` row: `name version`.
pub open spec fn installed_entry(line: Seq<char>) -> Seq<PackageModel> {
    let ts = spec_tokens(line);
    if ts.len() >= 2 {
        seq![
            PackageModel {
                id: ts[0],
                name: ts[0],
                version: Some(ts[1]),
                description: None,
                icon_url: None,
                source: PackageSource::Pacman,
                installed: true,
            },
        ]
    } else {
        Seq::empty()
    }
}

pub open spec fn installed_upto(ls: Seq<Seq<char>>, k: int) -> Seq<PackageModel>
    decreases k,
{
    if k <= 0 {
        Seq::empty()
    } else {
        installed_upto(ls, k - 1) + installed_entry(ls[k - 1])
    }
}

/// What `parse_installed` decodes from the tool's output.
pub open spec fn spec_parse_installed(out: Seq<char>) -> Seq<PackageModel> {
    installed_upto(spec_lines(out), spec_lines(out).len() as int)
}

impl PacmanProvider {
    /// A provider for a system whose Manjaro flavour is already known; the
    /// fact is held for the provider's lifetime, not probed per call.
    pub fn new(manjaro: bool) -> (r: PacmanProvider)
        ensures
            r.manjaro == manjaro,
    {
        PacmanProvider { manjaro }
    }

    /// Whether the release metadata describes a Manjaro system.
    pub fn detect_manjaro(os_release: &str) -> (r: bool)
        ensures
            r == (contains_seq(os_release@, "manjaro"@) || contains_seq(
                os_release@,
                "Manjaro"@,
            )),
    {
        contains_str(os_release, "manjaro") || contains_str(os_release, "Manjaro")
    }

    /// The environment fact determined at construction.
    pub fn is_manjaro(&self) -> (r: bool)
        ensures
            r == self.manjaro,
    {
        self.manjaro
    }
}

impl PackageManager for PacmanProvider {
    open spec fn source(&self) -> PackageSource {
        PackageSource::Pacman
    }

    open spec fn needs_root(&self) -> bool {
        true
    }

    fn search_command(&self, query: &str) -> (r: CommandSpec)
        ensures
            r.program@ == "pacman"@,
            r.args.deep_view() == seq!["-Ss"@, query@],
    {
        let mut args: Vec<String> = Vec::new();
        args.push(String::from_str("-Ss"));
        args.push(query.to_owned());
        proof {
            assert(args.deep_view() =~= seq!["-Ss"@, query@]);
        }
        CommandSpec { program: String::from_str("pacman"), args }
    }

    fn parse_search(&self, output: &str) -> (r: Vec<Package>)
        ensures
            r.deep_view() == spec_parse_search(output@),
    {
        let lines = split_lines(output);
        let ghost ls = lines.deep_view();
        let mut r: Vec<Package> = Vec::new();
        proof {
            assert(r.deep_view() =~= Seq::<PackageModel>::empty());
        }
        let mut idx: usize = 0;
        let ghost mut c: int = 0;
        while idx < lines.len()
            invariant
                idx <= lines@.len(),
                ls == lines.deep_view(),
                ls == spec_lines(output@),
                r.deep_view() == search_upto(ls, c),
                idx as int == 2 * c || (idx as int == ls.len() && 2 * c == ls.len() + 1),
            decreases lines@.len() - idx,
        {
            let ghost prev = r.deep_view();
            let tokens = split_tokens(lines[idx].as_str());
            proof {
                assert(ls[idx as int] == lines@[idx as int]@);
                assert(tokens.deep_view() == spec_tokens(ls[2 * c]));
            }
            if tokens.len() >= 2 {
                let description = if idx + 1 < lines.len() {
                    Some(trim(lines[idx + 1].as_str()))
                } else {
                    None
                };
                proof {
                    if idx + 1 < lines.len() {
                        assert(ls[idx + 1] == lines@[idx + 1]@);
                    }
                }
                let name = after_last(tokens[0].as_str(), '/');
                let p = Package {
                    id: name.clone(),
                    name,
                    version: Some(tokens[1].clone()),
                    description,
                    icon_url: None,
                    source: PackageSource::Pacman,
                    installed: false,
                };
                proof {
                    assert(p.deep_view() =~~= search_chunk(ls, c)[0]);
                }
                r.push(p);
                proof {
                    assert(r.deep_view() =~= prev + search_chunk(ls, c));
                }
            } else {
                proof {
                    assert(prev + search_chunk(ls, c) =~= prev);
                }
            }
            proof {
                c = c + 1;
            }
            idx = idx + 1;
            if idx < lines.len() {
                idx = idx + 1;
            }
        }
        proof {
            assert(c == (ls.len() + 1) / 2);
        }
        r
    }

    fn install_command(&self, package_id: &str) -> (r: CommandSpec)
        ensures
            r.program@ == "pacman"@,
            r.args.deep_view() == seq!["-S"@, "--noconfirm"@, package_id@],
    {
        let mut args: Vec<String> = Vec::new();
        args.push(String::from_str("-S"));
        args.push(String::from_str("--noconfirm"));
        args.push(package_id.to_owned());
        proof {
            assert(args.deep_view() =~= seq!["-S"@, "--noconfirm"@, package_id@]);
        }
        CommandSpec { program: String::from_str("pacman"), args }
    }

    fn remove_command(&self, package_id: &str) -> (r: CommandSpec)
        ensures
            r.program@ == "pacman"@,
            r.args.deep_view() == seq!["-R"@, "--noconfirm"@, package_id@],
    {
        let mut args: Vec<String> = Vec::new();
        args.push(String::from_str("-R"));
        args.push(String::from_str("--noconfirm"));
        args.push(package_id.to_owned());
        proof {
            assert(args.deep_view() =~= seq!["-R"@, "--noconfirm"@, package_id@]);
        }
        CommandSpec { program: String::from_str("pacman"), args }
    }

    fn update_command(&self, package_id: &str) -> (r: CommandSpec)
        ensures
            r.program@ == "pacman"@,
            r.args.deep_view() == seq!["-S"@, "--noconfirm"@, package_id@],
    {
        let mut args: Vec<String> = Vec::new();
        args.push(String::from_str("-S"));
        args.push(String::from_str("--noconfirm"));
        args.push(package_id.to_owned());
        proof {
            assert(args.deep_view() =~= seq!["-S"@, "--noconfirm"@, package_id@]);
        }
        CommandSpec { program: String::from_str("pacman"), args }
    }

    fn list_installed_command(&self) -> (r: Option<CommandSpec>)
        ensures
            r matches Some(c) && c.program@ == "pacman"@ && c.args.deep_view() == seq!["-Q"@],
    {
        let mut args: Vec<String> = Vec::new();
        args.push(String::from_str("-Q"));
        proof {
            assert(args.deep_view() =~= seq!["-Q"@]);
        }
        Some(CommandSpec { program: String::from_str("pacman"), args })
    }

    fn parse_installed(&self, output: &str) -> (r: Vec<Package>)
        ensures
            r.deep_view() == spec_parse_installed(output@),
    {
        let lines = split_lines(output);
        let ghost ls = lines.deep_view();
        let mut r: Vec<Package> = Vec::new();
        proof {
            assert(r.deep_view() =~= Seq::<PackageModel>::empty());
        }
        let mut k: usize = 0;
        while k < lines.len()
            invariant
                k <= lines@.len(),
                ls == lines.deep_view(),
                ls == spec_lines(output@),
                r.deep_view() == installed_upto(ls, k as int),
            decreases lines@.len() - k,
        {
            let ghost prev = r.deep_view();
            let tokens = split_tokens(lines[k].as_str());
            proof {
                assert(ls[k as int] == lines@[k as int]@);
                assert(tokens.deep_view() == spec_tokens(ls[k as int]));
            }
            if tokens.len() >= 2 {
                let p = Package {
                    id: tokens[0].clone(),
                    name: tokens[0].clone(),
                    version: Some(tokens[1].clone()),
                    description: None,
                    icon_url: None,
                    source: PackageSource::Pacman,
                    installed: true,
                };
                proof {
                    assert(p.deep_view() =~~= installed_entry(ls[k as int])[0]);
                }
                r.push(p);
                proof {
                    assert(r.deep_view() =~= prev + installed_entry(ls[k as int]));
                }
            } else {
                proof {
                    assert(prev + installed_entry(ls[k as int]) =~= prev);
                }
            }
            k = k + 1;
        }
        r
    }

    fn list_updates(&self) -> (r: Vec<UpdateInfo>)
        ensures
            r@.len() == 0,
    {
        Vec::new()
    }

    fn get_install_plan(&self, package_id: &str) -> (r: InstallPlan)
        ensures
            r.version is None,
    {
        InstallPlan {
            package_id: package_id.to_owned(),
            source: PackageSource::Pacman,
            version: None,
            dependencies: Vec::new(),
            requires_root: true,
        }
    }
}

} // verus!
