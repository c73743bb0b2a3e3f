//! The APT backend: builds `apt-get`/`apt-cache` command lines and decodes
//! the `name - description` rows of `apt-cache search`.

use vstd::prelude::*;
use crate::models::{CommandSpec, InstallPlan, Package, PackageModel, PackageSource, UpdateInfo};
use crate::text::{first_match_from, lemma_first_match_bounds, spec_lines, find_first, split_lines};
use crate::traits::PackageManager;

verus! {

pub struct AptProvider;

/// The packages of one search-output line: the text before the first
/// ` - ` separator names the package, the text after it describes it; a
/// line without the separator yields nothing.
pub open spec fn search_entry(line: Seq<char>) -> Seq<PackageModel> {
    match first_match_from(line, " - "@, 0) {
        Some(i) => seq![
            PackageModel {
                id: line.subrange(0, i),
                name: line.subrange(0, i),
                version: None,
                description: Some(line.subrange(i + 3, line.len() as int)),
                icon_url: None,
                source: PackageSource::Apt,
                installed: false,
            },
        ],
        None => Seq::empty(),
    }
}

pub open spec fn search_upto(ls: Seq<Seq<char>>, k: int) -> Seq<PackageModel>
    decreases k,
{
    if k <= 0 {
        Seq::empty()
    } else {
        search_upto(ls, k - 1) + search_entry(ls[k - 1])
    }
}

/// What `parse_search` decodes from the tool's output.
pub open spec fn spec_parse_search(out: Seq<char>) -> Seq<PackageModel> {
    search_upto(spec_lines(out), spec_lines(out).len() as int)
}

impl Default for AptProvider {
    fn default() -> AptProvider {
        AptProvider::new()
    }
}

impl AptProvider {
    pub fn new() -> AptProvider {
        AptProvider
    }
}

impl PackageManager for AptProvider {
    open spec fn source(&self) -> PackageSource {
        PackageSource::Apt
    }

    open spec fn needs_root(&self) -> bool {
        true
    }

    fn search_command(&self, query: &str) -> (r: CommandSpec)
        ensures
            r.program@ == "apt-cache"@,
            r.args.deep_view() == seq!["search"@, query@],
    {
        let mut args: Vec<String> = Vec::new();
        args.push(String::from_str("search"));
        args.push(query.to_owned());
        proof {
            assert(args.deep_view() =~= seq!["search"@, query@]);
        }
        CommandSpec { program: String::from_str("apt-cache"), args }
    }

    fn parse_search(&self, output: &str) -> (r: Vec<Package>)
        ensures
            r.deep_view() == spec_parse_search(output@),
    {
        proof {
            reveal_strlit(" - ");
        }
        let lines = split_lines(output);
        let ghost ls = lines.deep_view();
        let mut r: Vec<Package> = Vec::new();
        proof {
            assert(r.deep_view() =~= Seq::<PackageModel>::empty());
        }
        let mut k: usize = 0;
        while k < lines.len()
            invariant
                k <= lines@.len(),
                ls == lines.deep_view(),
                ls == spec_lines(output@),
                r.deep_view() == search_upto(ls, k as int),
            decreases lines@.len() - k,
        {
            let ghost prev = r.deep_view();
            let line = lines[k].as_str();
            proof {
                reveal_strlit(" - ");
                assert(ls[k as int] == lines@[k as int]@);
            }
            match find_first(line, " - ") {
                Some(i) => {
                    proof {
                        lemma_first_match_bounds(line@, " - "@, 0);
                    }
                    let name = line.substring_char(0, i).to_owned();
                    let sl = line.unicode_len();
                    let desc = line.substring_char(i + 3, sl).to_owned();
                    let p = Package {
                        id: name.clone(),
                        name,
                        version: None,
                        description: Some(desc),
                        icon_url: None,
                        source: PackageSource::Apt,
                        installed: false,
                    };
                    proof {
                        assert(p.deep_view() =~~= search_entry(ls[k as int])[0]);
                    }
                    r.push(p);
                    proof {
                        assert(r.deep_view() =~= prev + search_entry(ls[k as int]));
                    }
                },
                None => {
                    proof {
                        assert(prev + search_entry(ls[k as int]) =~= prev);
                    }
                },
            }
            k = k + 1;
        }
        r
    }

    fn install_command(&self, package_id: &str) -> (r: CommandSpec)
        ensures
            r.program@ == "apt-get"@,
            r.args.deep_view() == seq!["install"@, "-y"@, package_id@],
    {
        let mut args: Vec<String> = Vec::new();
        args.push(String::from_str("install"));
        args.push(String::from_str("-y"));
        args.push(package_id.to_owned());
        proof {
            assert(args.deep_view() =~= seq!["install"@, "-y"@, package_id@]);
        }
        CommandSpec { program: String::from_str("apt-get"), args }
    }

    fn remove_command(&self, package_id: &str) -> (r: CommandSpec)
        ensures
            r.program@ == "apt-get"@,
            r.args.deep_view() == seq!["remove"@, "-y"@, package_id@],
    {
        let mut args: Vec<String> = Vec::new();
        args.push(String::from_str("remove"));
        args.push(String::from_str("-y"));
        args.push(package_id.to_owned());
        proof {
            assert(args.deep_view() =~= seq!["remove"@, "-y"@, package_id@]);
        }
        CommandSpec { program: String::from_str("apt-get"), args }
    }

    fn update_command(&self, package_id: &str) -> (r: CommandSpec)
        ensures
            r.program@ == "apt-get"@,
            r.args.deep_view() == seq!["install"@, "--only-upgrade"@, "-y"@, package_id@],
    {
        let mut args: Vec<String> = Vec::new();
        args.push(String::from_str("install"));
        args.push(String::from_str("--only-upgrade"));
        args.push(String::from_str("-y"));
        args.push(package_id.to_owned());
        proof {
            assert(args.deep_view() =~= seq!["install"@, "--only-upgrade"@, "-y"@, package_id@]);
        }
        CommandSpec { program: String::from_str("apt-get"), args }
    }

    fn list_installed_command(&self) -> (r: Option<CommandSpec>)
        ensures
            r is None,
    {
        None
    }

    fn parse_installed(&self, output: &str) -> (r: Vec<Package>)
        ensures
            r@.len() == 0,
    {
        Vec::new()
    }

    fn list_updates(&self) -> (r: Vec<UpdateInfo>)
        ensures
            r@.len() == 0,
    {
        Vec::new()
    }

    fn get_install_plan(&self, package_id: &str) -> (r: InstallPlan)
        ensures
            r.version is None,
    {
        InstallPlan {
            package_id: package_id.to_owned(),
            source: PackageSource::Apt,
            version: None,
            dependencies: Vec::new(),
            requires_root: true,
        }
    }
}

} // verus!
