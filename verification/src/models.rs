//! Value types shared by every component: package snapshots, install plans,
//! pending updates, mirror entries, driver descriptions and the error taxonomy.

use vstd::prelude::*;

verus! {

/// Enumerated origin of a package.
#[derive(Debug, Clone, Copy, PartialEq, Eq, Structural)]
pub enum PackageSource {
    Flatpak,
    Apt,
    Pacman,
    Aur,
    Snap,
}

/// Immutable snapshot of one package as reported by a provider at query time.
#[derive(Debug, Clone)]
pub struct Package {
    pub id: String,
    pub name: String,
    pub version: Option<String>,
    pub description: Option<String>,
    pub icon_url: Option<String>,
    pub source: PackageSource,
    pub installed: bool,
}

/// Declared intent to install or update a package; the dependency list is
/// flat, not a resolved graph.
#[derive(Debug, Clone)]
pub struct InstallPlan {
    pub package_id: String,
    pub source: PackageSource,
    pub version: Option<String>,
    pub dependencies: Vec<String>,
    pub requires_root: bool,
}

/// One pending update reported by a provider poll.
#[derive(Debug, Clone)]
pub struct UpdateInfo {
    pub package_id: String,
    pub current_version: String,
    pub new_version: String,
    pub source: PackageSource,
    pub size_bytes: Option<u64>,
}

/// One mirror entry produced by the mirror selector. The speed is the
/// measured transfer rate in whole bytes per second; `None` until measured,
/// and a failed or zero measurement is recorded as `Some(0)`, never absence.
#[derive(Debug, Clone)]
pub struct RepoInfo {
    pub name: String,
    pub url: String,
    pub enabled: bool,
    pub speed_bps: Option<u64>,
}

/// A driver suggestion for a piece of hardware.
#[derive(Debug, Clone)]
pub struct DriverInfo {
    pub name: String,
    pub description: String,
    pub device_ids: Vec<String>,
    pub driver_type: DriverType,
    pub recommended: bool,
}

#[derive(Debug, Clone, Copy, PartialEq, Eq, Structural)]
pub enum DriverType {
    Open,
    Proprietary,
}

/// A user review of an application.
#[derive(Debug, Clone)]
pub struct AppReview {
    pub app_id: String,
    pub rating: u32,
    pub summary: String,
    pub description: String,
    pub reviewer: String,
    pub date: String,
}

/// Failure taxonomy for backend operations: a required external tool is
/// absent, the tool ran but exited non-zero (carrying its error stream), or
/// the requested backend is not recognized.
#[derive(Debug, Clone)]
pub enum ProviderError {
    ToolNotFound(String),
    BackendFailure(String),
    UnsupportedBackend(String),
}

/// The external command a backend operation would run: program name plus
/// argument vector. Execution itself happens outside this library.
#[derive(Debug, Clone)]
pub struct CommandSpec {
    pub program: String,
    pub args: Vec<String>,
}

/// What an external command produced: whether it exited with status zero,
/// and its decoded output streams.
#[derive(Debug, Clone)]
pub struct CommandOutcome {
    pub success: bool,
    pub stdout: String,
    pub stderr: String,
}

/// The mathematical value of a `Package`: every text field as a character
/// sequence.
#[verifier::ext_equal]
pub struct PackageModel {
    pub id: Seq<char>,
    pub name: Seq<char>,
    pub version: Option<Seq<char>>,
    pub description: Option<Seq<char>>,
    pub icon_url: Option<Seq<char>>,
    pub source: PackageSource,
    pub installed: bool,
}

impl View for Package {
    type V = PackageModel;

    open spec fn view(&self) -> PackageModel {
        PackageModel {
            id: self.id@,
            name: self.name@,
            version: self.version.deep_view(),
            description: self.description.deep_view(),
            icon_url: self.icon_url.deep_view(),
            source: self.source,
            installed: self.installed,
        }
    }
}

impl DeepView for Package {
    type V = PackageModel;

    open spec fn deep_view(&self) -> PackageModel {
        self.view()
    }
}

/// The mathematical value of a `RepoInfo`.
#[verifier::ext_equal]
pub struct RepoModel {
    pub name: Seq<char>,
    pub url: Seq<char>,
    pub enabled: bool,
    pub speed_bps: Option<u64>,
}

impl View for RepoInfo {
    type V = RepoModel;

    open spec fn view(&self) -> RepoModel {
        RepoModel {
            name: self.name@,
            url: self.url@,
            enabled: self.enabled,
            speed_bps: self.speed_bps,
        }
    }
}

impl DeepView for RepoInfo {
    type V = RepoModel;

    open spec fn deep_view(&self) -> RepoModel {
        self.view()
    }
}

/// The mathematical value of a `HardwareDevice`.
#[verifier::ext_equal]
pub struct DeviceModel {
    pub id: Seq<char>,
    pub name: Seq<char>,
    pub device_type: DeviceType,
}

/// A hardware device discovered by the system's enumeration tools.
#[derive(Debug, Clone)]
pub struct HardwareDevice {
    pub id: String,
    pub name: String,
    pub device_type: DeviceType,
}

#[derive(Debug, Clone, Copy, PartialEq, Eq, Structural)]
pub enum DeviceType {
    Pci,
    Usb,
}

impl View for HardwareDevice {
    type V = DeviceModel;

    open spec fn view(&self) -> DeviceModel {
        DeviceModel { id: self.id@, name: self.name@, device_type: self.device_type }
    }
}

impl DeepView for HardwareDevice {
    type V = DeviceModel;

    open spec fn deep_view(&self) -> DeviceModel {
        self.view()
    }
}

/// Policy applied to every backend operation that shells out: a zero exit
/// status yields the standard output, any other exit status is a
/// `BackendFailure` carrying the error stream verbatim.
pub fn command_result(outcome: CommandOutcome) -> (r: Result<String, ProviderError>)
    ensures
        outcome.success ==> (r matches Ok(out) && out@ == outcome.stdout@),
        !outcome.success ==> (r matches Err(ProviderError::BackendFailure(e)) && e@
            == outcome.stderr@),
{
    if outcome.success {
        Ok(outcome.stdout)
    } else {
        Err(ProviderError::BackendFailure(outcome.stderr))
    }
}

} // verus!
