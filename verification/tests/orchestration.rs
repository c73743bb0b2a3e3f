use fluxara::appstream::{AppStreamManager, OdrsClient};
use fluxara::builder::{BuildError, BuildSystem, SourceBuilder};
use fluxara::config::Config;
use fluxara::converter::{ConversionError, PackageConverter};
use fluxara::daemon::{TrayIcon, UpdateDaemon, POLL_INTERVAL_SECS};
use fluxara::drivers::DriverManager;
use fluxara::maintenance::MaintenanceManager;
use fluxara::models::{CommandOutcome, DeviceType, DriverType, HardwareDevice, PackageSource,
    ProviderError, UpdateInfo};
use fluxara::polkit::PolkitAgent;

fn converter() -> PackageConverter {
    PackageConverter::new(Config::default())
}

#[test]
fn denylist_blocks_every_keyword() {
    let c = converter();
    for keyword in ["kernel", "driver", "bootloader", "glibc", "systemd", "grub", "linux-"] {
        let path = format!("/tmp/some-{}-package.rpm", keyword);
        assert!(c.is_blocked_package(&path), "{} should be blocked", keyword);
        match c.convert_package(true, &path, "deb") {
            Err(ConversionError::SecurityBlocked(m)) => {
                assert_eq!(m, format!("Package {} contains blocked keywords", path));
            }
            _ => panic!("expected SecurityBlocked for {}", keyword),
        }
    }
}

#[test]
fn denylist_is_case_insensitive() {
    let c = converter();
    assert!(c.is_blocked_package("MY-KERNEL-IMAGE.rpm"));
    assert!(c.is_blocked_package("SyStEmD-utils.deb"));
    assert!(matches!(
        c.convert_package(true, "LINUX-firmware.rpm", "deb"),
        Err(ConversionError::SecurityBlocked(_))
    ));
}

#[test]
fn harmless_package_converts() {
    let c = converter();
    assert!(!c.is_blocked_package("hello-world.rpm"));
    let cmd = c.convert_package(true, "hello-world.rpm", "deb").unwrap();
    assert_eq!(cmd.program, "alien");
    assert_eq!(cmd.args, vec!["--to-deb".to_string(), "hello-world.rpm".to_string()]);
}

#[test]
fn tool_check_precedes_security_check() {
    let c = converter();
    assert!(matches!(
        c.convert_package(false, "kernel-image.rpm", "deb"),
        Err(ConversionError::AlienNotFound)
    ));
}

#[test]
fn converter_failure_carries_stderr() {
    let c = converter();
    let outcome = CommandOutcome {
        success: false,
        stdout: String::new(),
        stderr: "unpack failed".to_string(),
    };
    match c.conversion_result(outcome) {
        Err(ConversionError::ConversionFailed(m)) => assert_eq!(m, "unpack failed"),
        _ => panic!("expected ConversionFailed"),
    }
}

#[test]
fn mirror_ranking_is_descending_and_total() {
    let mm = MaintenanceManager::new();
    let mirrors = vec!["a".to_string(), "b".to_string(), "c".to_string(), "d".to_string()];
    let ranked = mm.test_mirror_speeds(mirrors, vec![10, 99, 0, 50]);
    assert_eq!(ranked.len(), 4);
    let urls: Vec<&str> = ranked.iter().map(|r| r.url.as_str()).collect();
    assert_eq!(urls, vec!["b", "d", "a", "c"]);
    for (entry, speed) in ranked.iter().zip([99u64, 50, 10, 0]) {
        assert_eq!(entry.speed_bps, Some(speed));
        assert!(entry.enabled);
        assert_eq!(entry.name, entry.url);
    }
}

#[test]
fn mirror_ranking_keeps_input_order_on_ties() {
    let mm = MaintenanceManager::new();
    let mirrors = vec!["first".to_string(), "second".to_string(), "third".to_string()];
    let ranked = mm.test_mirror_speeds(mirrors, vec![7, 7, 7]);
    let urls: Vec<&str> = ranked.iter().map(|r| r.url.as_str()).collect();
    assert_eq!(urls, vec!["first", "second", "third"]);
}

#[test]
fn mirror_ranking_of_nothing_is_empty() {
    let mm = MaintenanceManager::new();
    assert!(mm.test_mirror_speeds(Vec::new(), Vec::new()).is_empty());
}

#[test]
fn unrecognized_distribution_gets_the_sentinel() {
    let mm = MaintenanceManager::new();
    assert_eq!(mm.select_best_mirror("gentoo", Vec::new()), "No mirrors configured");
    assert!(MaintenanceManager::mirror_candidates("gentoo").is_empty());
}

#[test]
fn recognized_distribution_gets_its_fastest_mirror() {
    let mm = MaintenanceManager::new();
    let best = mm.select_best_mirror("ubuntu", vec![5, 9]);
    assert_eq!(best, "http://us.archive.ubuntu.com/ubuntu/");
    let candidates = MaintenanceManager::mirror_candidates("arch");
    assert_eq!(candidates.len(), 2);
    assert_eq!(candidates[0], "https://mirror.rackspace.com/archlinux/");
}

#[test]
fn distro_detection_reads_the_id_line() {
    let mm = MaintenanceManager::new();
    assert_eq!(mm.detect_distro("NAME=Ubuntu\nID=ubuntu\n"), "ubuntu");
    assert_eq!(mm.detect_distro("ID=\"arch\"\n"), "arch");
    assert_eq!(mm.detect_distro("NAME=Something\n"), "unknown");
    assert_eq!(mm.detect_distro(""), "unknown");
}

#[test]
fn maintenance_stubs_report_nothing() {
    let mm = MaintenanceManager::new();
    assert_eq!(mm.clean_cache(), 0);
    assert!(mm.remove_orphans().is_empty());
    assert!(mm.detect_conflicts().is_empty());
}

fn update(id: &str) -> UpdateInfo {
    UpdateInfo {
        package_id: id.to_string(),
        current_version: "1".to_string(),
        new_version: "2".to_string(),
        source: PackageSource::Flatpak,
        size_bytes: None,
    }
}

#[test]
fn one_notification_summarizes_a_cycle_with_a_failed_provider() {
    let daemon = UpdateDaemon::new(Config::default());
    let results = vec![
        Err(ProviderError::BackendFailure("network down".to_string())),
        Ok(vec![update("a"), update("b"), update("c")]),
    ];
    assert_eq!(daemon.check_updates(&results), Some("3 updates available".to_string()));
}

#[test]
fn quiet_cycle_raises_no_notification() {
    let daemon = UpdateDaemon::new(Config::default());
    let results = vec![
        Ok(Vec::new()),
        Err(ProviderError::BackendFailure("down".to_string())),
    ];
    assert_eq!(daemon.check_updates(&results), None);
    assert_eq!(daemon.check_updates(&Vec::new()), None);
}

#[test]
fn notification_counts_across_providers() {
    let daemon = UpdateDaemon::new(Config::default());
    let results = vec![Ok(vec![update("a")]), Ok(vec![update("b")]), Ok(Vec::new())];
    assert_eq!(daemon.check_updates(&results), Some("2 updates available".to_string()));
    let many: Vec<_> = (0..12).map(|i| update(&format!("p{}", i))).collect();
    assert_eq!(
        daemon.check_updates(&vec![Ok(many)]),
        Some("12 updates available".to_string())
    );
}

#[test]
fn daemon_construction_and_tray() {
    assert_eq!(POLL_INTERVAL_SECS, 3600);
    let daemon = UpdateDaemon::new(Config::default());
    assert!(daemon.config.ui.tray_enabled);
    let tray = TrayIcon::new(true);
    assert!(tray.show().is_ok());
    assert!(tray.hide_icon().is_ok());
    assert!(tray.show_menu().is_ok());
    assert!(TrayIcon::new(false).show().is_ok());
}

#[test]
fn polkit_builds_privileged_commands() {
    let agent = PolkitAgent::new();
    let c = agent.install_package("apt", "vim").unwrap();
    assert_eq!(c.program, "apt-get");
    assert_eq!(c.args, vec!["install", "-y", "vim"]);
    let c = agent.install_package("pacman", "vim").unwrap();
    assert_eq!(c.program, "pacman");
    assert_eq!(c.args, vec!["-S", "--noconfirm", "vim"]);
    let c = agent.remove_package("apt", "vim").unwrap();
    assert_eq!(c.args, vec!["remove", "-y", "vim"]);
    let c = agent.remove_package("pacman", "vim").unwrap();
    assert_eq!(c.args, vec!["-R", "--noconfirm", "vim"]);
}

#[test]
fn polkit_refuses_unknown_backends() {
    let agent = PolkitAgent::new();
    match agent.install_package("dnf", "vim") {
        Err(ProviderError::UnsupportedBackend(m)) => {
            assert_eq!(m, "Unsupported package manager: dnf");
        }
        _ => panic!("expected UnsupportedBackend"),
    }
    assert!(matches!(
        agent.remove_package("zypper", "vim"),
        Err(ProviderError::UnsupportedBackend(_))
    ));
}

#[test]
fn build_system_detection_follows_priority() {
    let b = SourceBuilder::new();
    assert_eq!(b.detect_build_system(true, true, true, true, true), Some(BuildSystem::Cargo));
    assert_eq!(b.detect_build_system(false, true, true, true, true), Some(BuildSystem::Meson));
    assert_eq!(b.detect_build_system(false, false, true, true, true), Some(BuildSystem::CMake));
    assert_eq!(
        b.detect_build_system(false, false, false, true, false),
        Some(BuildSystem::Autotools)
    );
    assert_eq!(
        b.detect_build_system(false, false, false, false, true),
        Some(BuildSystem::Autotools)
    );
    assert_eq!(b.detect_build_system(false, false, false, false, false), None);
}

#[test]
fn sandbox_commands_per_build_system() {
    let b = SourceBuilder::new();
    assert_eq!(b.sandbox_command(BuildSystem::Cargo), "cargo build --release");
    assert_eq!(b.sandbox_command(BuildSystem::Meson), "meson setup build && ninja -C build");
    assert_eq!(b.sandbox_command(BuildSystem::CMake), "cmake -B build && cmake --build build");
    assert_eq!(b.sandbox_command(BuildSystem::Autotools), "./configure && make");
}

#[test]
fn building_needs_the_sandbox_tool() {
    let b = SourceBuilder::new();
    assert!(matches!(
        b.build_from_url(false, "https://example.org/src.tar.gz"),
        Err(BuildError::PodmanNotFound)
    ));
    assert!(b.build_from_url(true, "https://example.org/src.tar.gz").is_ok());
}

#[test]
fn hardware_parsing_keeps_one_device_per_line() {
    let dm = DriverManager::new();
    let pci = dm.parse_pci_devices("00:02.0 VGA controller\n00:14.0 USB controller\n");
    assert_eq!(pci.len(), 2);
    assert_eq!(pci[0].id, "00:02.0 VGA controller");
    assert_eq!(pci[0].device_type, DeviceType::Pci);
    let usb = dm.parse_usb_devices("Bus 001 Device 001\n");
    assert_eq!(usb.len(), 1);
    assert_eq!(usb[0].device_type, DeviceType::Usb);
}

#[test]
fn hardware_detection_tolerates_missing_tools() {
    let dm = DriverManager::new();
    let devices = dm.detect_hardware(Some("one pci line\n"), None);
    assert_eq!(devices.len(), 1);
    let devices = dm.detect_hardware(None, None);
    assert!(devices.is_empty());
    let devices = dm.detect_hardware(Some("p\n"), Some("u1\nu2\n"));
    assert_eq!(devices.len(), 3);
    assert_eq!(devices[2].id, "u2");
}

#[test]
fn nvidia_detection_is_case_insensitive() {
    let dm = DriverManager::new();
    assert!(dm.has_nvidia_gpu("01:00.0 VGA NVIDIA Corporation GA106\n"));
    assert!(dm.has_nvidia_gpu("nvidia something"));
    assert!(!dm.has_nvidia_gpu("01:00.0 VGA Intel Iris\n"));
    let drivers = dm.check_proprietary_drivers("01:00.0 VGA NVIDIA Corporation\n");
    assert_eq!(drivers.len(), 1);
    assert_eq!(drivers[0].name, "nvidia");
    assert_eq!(drivers[0].description, "NVIDIA Proprietary Driver");
    assert_eq!(drivers[0].driver_type, DriverType::Proprietary);
    assert!(drivers[0].recommended);
    assert!(dm.check_proprietary_drivers("no gpu here").is_empty());
}

#[test]
fn driver_suggestions_are_empty_for_now() {
    let dm = DriverManager::new();
    let device = HardwareDevice {
        id: "x".to_string(),
        name: "x".to_string(),
        device_type: DeviceType::Pci,
    };
    assert!(dm.suggest_drivers(&device).is_empty());
}

#[test]
fn appstream_placeholders() {
    let client = OdrsClient::new();
    assert_eq!(client.api_url, "https://odrs.gnome.org/1.0/reviews/api");
    assert!(client.get_reviews("org.example.App").unwrap().is_empty());
    let manager = AppStreamManager::new();
    let dev = manager.get_developer_info("org.example.App").unwrap();
    assert_eq!(dev.name, "Unknown");
    assert!(dev.url.is_none() && dev.email.is_none());
    let meta = manager.get_app_metadata("org.example.App").unwrap();
    assert_eq!(meta.id, "org.example.App");
    assert_eq!(meta.name, "org.example.App");
    assert!(meta.summary.is_none() && meta.categories.is_empty());
}
