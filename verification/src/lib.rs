//! A cross-distribution package-management orchestration layer: one uniform
//! provider contract over heterogeneous native backends (Flatpak, APT,
//! Pacman), the policy logic above them — install-plan synthesis, the
//! conversion security gate, mirror benchmarking and selection — and the
//! update daemon's per-cycle decisions.
//!
//! Everything here is pure with respect to the outside world: backends
//! build the external commands to run and decode what the tools printed,
//! while running processes, file reading and the network stay with the
//! embedding application.

pub mod appstream;
pub mod builder;
pub mod config;
pub mod converter;
pub mod daemon;
pub mod drivers;
pub mod maintenance;
pub mod models;
pub mod polkit;
pub mod provider_apt;
pub mod provider_flatpak;
pub mod provider_pacman;
pub mod text;
pub mod traits;
