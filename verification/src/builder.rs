//! Building packages from source in a sandbox: recognizing the build
//! system of a source tree and choosing the command to run inside the
//! sandbox. Probing the tree's files and running the sandbox belong to the
//! caller.

use vstd::prelude::*;

verus! {

/// Failures of the source-build path.
#[derive(Debug, Clone)]
pub enum BuildError {
    PodmanNotFound,
    BuildSystemNotDetected,
    BuildFailed(String),
}

#[derive(Debug, Clone, Copy, PartialEq, Eq, Structural)]
pub enum BuildSystem {
    Cargo,
    Meson,
    CMake,
    Autotools,
}

/// Which build system a source tree uses, from which of its marker files
/// exist, in priority order.
pub open spec fn spec_build_system(
    has_cargo_manifest: bool,
    has_meson_build: bool,
    has_cmake_lists: bool,
    has_configure: bool,
    has_configure_ac: bool,
) -> Option<BuildSystem> {
    if has_cargo_manifest {
        Some(BuildSystem::Cargo)
    } else if has_meson_build {
        Some(BuildSystem::Meson)
    } else if has_cmake_lists {
        Some(BuildSystem::CMake)
    } else if has_configure || has_configure_ac {
        Some(BuildSystem::Autotools)
    } else {
        None
    }
}

/// The shell command run inside the sandbox for each build system.
pub open spec fn spec_sandbox_command(b: BuildSystem) -> Seq<char> {
    match b {
        BuildSystem::Cargo => "cargo build --release"@,
        BuildSystem::Meson => "meson setup build && ninja -C build"@,
        BuildSystem::CMake => "cmake -B build && cmake --build build"@,
        BuildSystem::Autotools => "./configure && make"@,
    }
}

pub struct SourceBuilder;

impl Default for SourceBuilder {
    fn default() -> SourceBuilder {
        SourceBuilder::new()
    }
}

impl SourceBuilder {
    pub fn new() -> SourceBuilder {
        SourceBuilder
    }

    /// Recognizes the build system of a source tree from which marker files
    /// the caller found in it.
    pub fn detect_build_system(
        &self,
        has_cargo_manifest: bool,
        has_meson_build: bool,
        has_cmake_lists: bool,
        has_configure: bool,
        has_configure_ac: bool,
    ) -> (r: Option<BuildSystem>)
        ensures
            r == spec_build_system(
                has_cargo_manifest,
                has_meson_build,
                has_cmake_lists,
                has_configure,
                has_configure_ac,
            ),
    {
        if has_cargo_manifest {
            Some(BuildSystem::Cargo)
        } else if has_meson_build {
            Some(BuildSystem::Meson)
        } else if has_cmake_lists {
            Some(BuildSystem::CMake)
        } else if has_configure || has_configure_ac {
            Some(BuildSystem::Autotools)
        } else {
            None
        }
    }

    /// Decides a build request: without the sandbox tool nothing runs; with
    /// it, the build pipeline reports its placeholder result.
    pub fn build_from_url(&self, podman_available: bool, _source_url: &str) -> (r: Result<
        String,
        BuildError,
    >)
        ensures
            !podman_available ==> r matches Err(BuildError::PodmanNotFound),
            podman_available ==> (r matches Ok(m) && m@ == "Sandboxed build pipeline pending"@),
    {
        if !podman_available {
            return Err(BuildError::PodmanNotFound);
        }
        Ok(String::from_str("Sandboxed build pipeline pending"))
    }

    /// The command the sandbox would run for the given build system.
    pub fn sandbox_command(&self, build_system: BuildSystem) -> (r: &'static str)
        ensures
            r@ == spec_sandbox_command(build_system),
    {
        match build_system {
            BuildSystem::Cargo => "cargo build --release",
            BuildSystem::Meson => "meson setup build && ninja -C build",
            BuildSystem::CMake => "cmake -B build && cmake --build build",
            BuildSystem::Autotools => "./configure && make",
        }
    }
}

} // verus!
