//! The Flatpak backend: builds `flatpak` command lines and decodes the
//! column-oriented output of `flatpak search` and `flatpak list`.

use vstd::prelude::*;
use crate::models::{CommandSpec, InstallPlan, Package, PackageModel, PackageSource, UpdateInfo};
use crate::text::{spec_join_spaces, spec_lines, spec_tokens, join_spaces, split_lines,
    split_tokens};
use crate::traits::PackageManager;

verus! {

pub struct FlatpakProvider;

/// The packages of one search-output line: columns are name, identifier,
/// version, then description words; a line with fewer than two columns is
/// not a result row and yields nothing.
pub open spec fn search_entry(line: Seq<char>) -> Seq<PackageModel> {
    let ts = spec_tokens(line);
    if ts.len() >= 2 {
        seq![
            PackageModel {
                id: ts[1],
                name: ts[0],
                version: if ts.len() >= 3 {
                    Some(ts[2])
                } else {
                    None
                },
                description: if ts.len() >= 3 {
                    Some(spec_join_spaces(ts.subrange(3, ts.len() as int)))
                } else {
                    None
                },
                icon_url: None,
                source: PackageSource::Flatpak,
                installed: false,
            },
        ]
    } else {
        Seq::empty()
    }
}

/// The search results of the first `k` lines, the first line being the
/// column header.
pub open spec fn search_upto(ls: Seq<Seq<char>>, k: int) -> Seq<PackageModel>
    decreases k,
{
    if k <= 1 {
        Seq::empty()
    } else {
        search_upto(ls, k - 1) + search_entry(ls[k - 1])
    }
}

/// What `parse_search` decodes from the tool's output.
pub open spec fn spec_parse_search(out: Seq<char>) -> Seq<PackageModel> {
    search_upto(spec_lines(out), spec_lines(out).len() as int)
}

/// The packages of one list-output line: columns are name, identifier,
/// version; every decoded entry is installed.
pub open spec fn installed_entry(line: Seq<char>) -> Seq<PackageModel> {
    let ts = spec_tokens(line);
    if ts.len() >= 2 {
        seq![
            PackageModel {
                id: ts[1],
                name: ts[0],
                version: if ts.len() >= 3 {
                    Some(ts[2])
                } else {
                    None
                },
                description: None,
                icon_url: None,
                source: PackageSource::Flatpak,
                installed: true,
            },
        ]
    } else {
        Seq::empty()
    }
}

pub open spec fn installed_upto(ls: Seq<Seq<char>>, k: int) -> Seq<PackageModel>
    decreases k,
{
    if k <= 1 {
        Seq::empty()
    } else {
        installed_upto(ls, k - 1) + installed_entry(ls[k - 1])
    }
}

/// What `parse_installed` decodes from the tool's output.
pub open spec fn spec_parse_installed(out: Seq<char>) -> Seq<PackageModel> {
    installed_upto(spec_lines(out), spec_lines(out).len() as int)
}

impl Default for FlatpakProvider {
    fn default() -> FlatpakProvider {
        FlatpakProvider::new()
    }
}

impl FlatpakProvider {
    pub fn new() -> FlatpakProvider {
        FlatpakProvider
    }
}

impl PackageManager for FlatpakProvider {
    open spec fn source(&self) -> PackageSource {
        PackageSource::Flatpak
    }

    open spec fn needs_root(&self) -> bool {
        false
    }

    fn search_command(&self, query: &str) -> (r: CommandSpec)
        ensures
            r.program@ == "flatpak"@,
            r.args.deep_view() == seq!["search"@, query@],
    {
        let mut args: Vec<String> = Vec::new();
        args.push(String::from_str("search"));
        args.push(query.to_owned());
        proof {
            assert(args.deep_view() =~= seq!["search"@, query@]);
        }
        CommandSpec { program: String::from_str("flatpak"), args }
    }

    fn parse_search(&self, output: &str) -> (r: Vec<Package>)
        ensures
            r.deep_view() == spec_parse_search(output@),
    {
        let lines = split_lines(output);
        let ghost ls = lines.deep_view();
        let mut r: Vec<Package> = Vec::new();
        if lines.len() <= 1 {
            proof {
                assert(r.deep_view() =~= Seq::<PackageModel>::empty());
            }
            return r;
        }
        let mut k: usize = 1;
        while k < lines.len()
            invariant
                1 <= k <= lines@.len(),
                ls == lines.deep_view(),
                ls == spec_lines(output@),
                r.deep_view() == search_upto(ls, k as int),
            decreases lines@.len() - k,
        {
            let ghost prev = r.deep_view();
            let tokens = split_tokens(lines[k].as_str());
            proof {
                assert(ls[k as int] == lines@[k as int]@);
                assert(tokens.deep_view() == spec_tokens(ls[k as int]));
            }
            if tokens.len() >= 2 {
                let version = if tokens.len() >= 3 {
                    Some(tokens[2].clone())
                } else {
                    None
                };
                let description = if tokens.len() >= 3 {
                    Some(join_spaces(&tokens, 3))
                } else {
                    None
                };
                let p = Package {
                    id: tokens[1].clone(),
                    name: tokens[0].clone(),
                    version,
                    description,
                    icon_url: None,
                    source: PackageSource::Flatpak,
                    installed: false,
                };
                proof {
                    assert(p.deep_view() =~~= search_entry(ls[k as int])[0]);
                }
                r.push(p);
                proof {
                    assert(r.deep_view() =~= prev + search_entry(ls[k as int]));
                }
            } else {
                proof {
                    assert(prev + search_entry(ls[k as int]) =~= prev);
                }
            }
            k = k + 1;
        }
        r
    }

    fn install_command(&self, package_id: &str) -> (r: CommandSpec)
        ensures
            r.program@ == "flatpak"@,
            r.args.deep_view() == seq!["install"@, "-y"@, package_id@],
    {
        let mut args: Vec<String> = Vec::new();
        args.push(String::from_str("install"));
        args.push(String::from_str("-y"));
        args.push(package_id.to_owned());
        proof {
            assert(args.deep_view() =~= seq!["install"@, "-y"@, package_id@]);
        }
        CommandSpec { program: String::from_str("flatpak"), args }
    }

    fn remove_command(&self, package_id: &str) -> (r: CommandSpec)
        ensures
            r.program@ == "flatpak"@,
            r.args.deep_view() == seq!["uninstall"@, "-y"@, package_id@],
    {
        let mut args: Vec<String> = Vec::new();
        args.push(String::from_str("uninstall"));
        args.push(String::from_str("-y"));
        args.push(package_id.to_owned());
        proof {
            assert(args.deep_view() =~= seq!["uninstall"@, "-y"@, package_id@]);
        }
        CommandSpec { program: String::from_str("flatpak"), args }
    }

    fn update_command(&self, package_id: &str) -> (r: CommandSpec)
        ensures
            r.program@ == "flatpak"@,
            r.args.deep_view() == seq!["update"@, "-y"@, package_id@],
    {
        let mut args: Vec<String> = Vec::new();
        args.push(String::from_str("update"));
        args.push(String::from_str("-y"));
        args.push(package_id.to_owned());
        proof {
            assert(args.deep_view() =~= seq!["update"@, "-y"@, package_id@]);
        }
        CommandSpec { program: String::from_str("flatpak"), args }
    }

    fn list_installed_command(&self) -> (r: Option<CommandSpec>)
        ensures
            r matches Some(c) && c.program@ == "flatpak"@ && c.args.deep_view() == seq![
                "list"@,
                "--app"@,
            ],
    {
        let mut args: Vec<String> = Vec::new();
        args.push(String::from_str("list"));
        args.push(String::from_str("--app"));
        proof {
            assert(args.deep_view() =~= seq!["list"@, "--app"@]);
        }
        Some(CommandSpec { program: String::from_str("flatpak"), args })
    }

    fn parse_installed(&self, output: &str) -> (r: Vec<Package>)
        ensures
            r.deep_view() == spec_parse_installed(output@),
    {
        let lines = split_lines(output);
        let ghost ls = lines.deep_view();
        let mut r: Vec<Package> = Vec::new();
        if lines.len() <= 1 {
            proof {
                assert(r.deep_view() =~= Seq::<PackageModel>::empty());
            }
            return r;
        }
        let mut k: usize = 1;
        while k < lines.len()
            invariant
                1 <= k <= lines@.len(),
                ls == lines.deep_view(),
                ls == spec_lines(output@),
                r.deep_view() == installed_upto(ls, k as int),
            decreases lines@.len() - k,
        {
            let ghost prev = r.deep_view();
            let tokens = split_tokens(lines[k].as_str());
            proof {
                assert(ls[k as int] == lines@[k as int]@);
                assert(tokens.deep_view() == spec_tokens(ls[k as int]));
            }
            if tokens.len() >= 2 {
                let version = if tokens.len() >= 3 {
                    Some(tokens[2].clone())
                } else {
                    None
                };
                let p = Package {
                    id: tokens[1].clone(),
                    name: tokens[0].clone(),
                    version,
                    description: None,
                    icon_url: None,
                    source: PackageSource::Flatpak,
                    installed: true,
                };
                proof {
                    assert(p.deep_view() =~~= installed_entry(ls[k as int])[0]);
                }
                r.push(p);
                proof {
                    assert(r.deep_view() =~= prev + installed_entry(ls[k as int]));
                }
            } else {
                proof {
                    assert(prev + installed_entry(ls[k as int]) =~= prev);
                }
            }
            k = k + 1;
        }
        r
    }

    fn list_updates(&self) -> (r: Vec<UpdateInfo>)
        ensures
            r@.len() == 0,
    {
        Vec::new()
    }

    fn get_install_plan(&self, package_id: &str) -> (r: InstallPlan)
        ensures
            r.version is None,
    {
        InstallPlan {
            package_id: package_id.to_owned(),
            source: PackageSource::Flatpak,
            version: None,
            dependencies: Vec::new(),
            requires_root: false,
        }
    }
}

} // verus!
