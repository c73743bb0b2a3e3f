use fluxara::models::{CommandOutcome, PackageSource, ProviderError, command_result};
use fluxara::provider_apt::AptProvider;
use fluxara::provider_flatpak::FlatpakProvider;
use fluxara::provider_pacman::PacmanProvider;
use fluxara::traits::{PackageManager, tool_gate};

#[test]
fn flatpak_search_parses_columns() {
    let p = FlatpakProvider::new();
    let out = "Name Application ID Version Branch\n\
               Firefox org.mozilla.firefox 121.0 fast free browser\n\
               short\n";
    let packages = p.parse_search(out);
    assert_eq!(packages.len(), 1);
    assert_eq!(packages[0].id, "org.mozilla.firefox");
    assert_eq!(packages[0].name, "Firefox");
    assert_eq!(packages[0].version.as_deref(), Some("121.0"));
    assert_eq!(packages[0].description.as_deref(), Some("fast free browser"));
    assert_eq!(packages[0].source, PackageSource::Flatpak);
    assert!(!packages[0].installed);
}

#[test]
fn flatpak_search_two_columns_only() {
    let p = FlatpakProvider::new();
    let packages = p.parse_search("header\nGimp org.gimp.GIMP\n");
    assert_eq!(packages.len(), 1);
    assert_eq!(packages[0].id, "org.gimp.GIMP");
    assert_eq!(packages[0].version, None);
    assert_eq!(packages[0].description, None);
}

#[test]
fn flatpak_list_marks_installed() {
    let p = FlatpakProvider::new();
    let out = "Name Application ID Version\nCalculator org.gnome.Calculator 45.0\n";
    let packages = p.parse_installed(out);
    assert_eq!(packages.len(), 1);
    assert_eq!(packages[0].id, "org.gnome.Calculator");
    assert!(packages[0].installed);
}

#[test]
fn flatpak_commands() {
    let p = FlatpakProvider::new();
    let c = p.search_command("gimp");
    assert_eq!(c.program, "flatpak");
    assert_eq!(c.args, vec!["search".to_string(), "gimp".to_string()]);
    assert_eq!(p.install_command("org.x.A").args, vec!["install", "-y", "org.x.A"]);
    assert_eq!(p.remove_command("org.x.A").args, vec!["uninstall", "-y", "org.x.A"]);
    assert_eq!(p.update_command("org.x.A").args, vec!["update", "-y", "org.x.A"]);
    let l = p.list_installed_command().unwrap();
    assert_eq!(l.args, vec!["list", "--app"]);
    assert!(p.list_updates().is_empty());
}

#[test]
fn flatpak_install_plan_is_rootless() {
    let p = FlatpakProvider::new();
    let plan = p.get_install_plan("org.example.App");
    assert_eq!(plan.package_id, "org.example.App");
    assert_eq!(plan.source, PackageSource::Flatpak);
    assert!(!plan.requires_root);
    assert!(plan.dependencies.is_empty());
    assert!(plan.version.is_none());
}

#[test]
fn apt_search_splits_on_separator() {
    let p = AptProvider::new();
    let out = "vim - Vi IMproved, a highly configurable text editor\nno separator here\n";
    let packages = p.parse_search(out);
    assert_eq!(packages.len(), 1);
    assert_eq!(packages[0].id, "vim");
    assert_eq!(packages[0].name, "vim");
    assert_eq!(
        packages[0].description.as_deref(),
        Some("Vi IMproved, a highly configurable text editor")
    );
    assert_eq!(packages[0].version, None);
    assert_eq!(packages[0].source, PackageSource::Apt);
}

#[test]
fn apt_search_splits_at_first_separator() {
    let p = AptProvider::new();
    let packages = p.parse_search("a - b - c\n");
    assert_eq!(packages.len(), 1);
    assert_eq!(packages[0].id, "a");
    assert_eq!(packages[0].description.as_deref(), Some("b - c"));
}

#[test]
fn apt_commands_and_plan() {
    let p = AptProvider::new();
    assert_eq!(p.search_command("vim").program, "apt-cache");
    assert_eq!(p.install_command("vim").program, "apt-get");
    assert_eq!(p.install_command("vim").args, vec!["install", "-y", "vim"]);
    assert_eq!(p.remove_command("vim").args, vec!["remove", "-y", "vim"]);
    assert_eq!(p.update_command("vim").args, vec!["install", "--only-upgrade", "-y", "vim"]);
    assert!(p.list_installed_command().is_none());
    assert!(p.parse_installed("anything").is_empty());
    assert!(p.list_updates().is_empty());
    let plan = p.get_install_plan("vim");
    assert!(plan.requires_root);
    assert_eq!(plan.source, PackageSource::Apt);
}

#[test]
fn pacman_search_reads_two_line_blocks() {
    let p = PacmanProvider::new(false);
    let out = "extra/vim 9.0.2092-1\n    Vi IMproved, a highly configurable text editor\n\
               core/bash 5.2.021-1\n    The GNU Bourne Again shell\n";
    let packages = p.parse_search(out);
    assert_eq!(packages.len(), 2);
    assert_eq!(packages[0].id, "vim");
    assert_eq!(packages[0].version.as_deref(), Some("9.0.2092-1"));
    assert_eq!(
        packages[0].description.as_deref(),
        Some("Vi IMproved, a highly configurable text editor")
    );
    assert_eq!(packages[1].id, "bash");
    assert_eq!(packages[1].source, PackageSource::Pacman);
}

#[test]
fn pacman_search_trailing_block_without_description() {
    let p = PacmanProvider::new(false);
    let packages = p.parse_search("extra/vim 9.0-1\n");
    assert_eq!(packages.len(), 1);
    assert_eq!(packages[0].id, "vim");
    assert_eq!(packages[0].description, None);
}

#[test]
fn pacman_installed_rows() {
    let p = PacmanProvider::new(false);
    let packages = p.parse_installed("bash 5.2.021-1\nvim 9.0.2092-1\n");
    assert_eq!(packages.len(), 2);
    assert_eq!(packages[0].id, "bash");
    assert_eq!(packages[0].version.as_deref(), Some("5.2.021-1"));
    assert!(packages[0].installed);
}

#[test]
fn pacman_commands_and_manjaro_fact() {
    let p = PacmanProvider::new(true);
    assert!(p.is_manjaro());
    assert!(!PacmanProvider::new(false).is_manjaro());
    assert!(PacmanProvider::detect_manjaro("ID=manjaro\n"));
    assert!(PacmanProvider::detect_manjaro("NAME=\"Manjaro Linux\"\n"));
    assert!(!PacmanProvider::detect_manjaro("ID=arch\n"));
    assert_eq!(p.install_command("vim").args, vec!["-S", "--noconfirm", "vim"]);
    assert_eq!(p.remove_command("vim").args, vec!["-R", "--noconfirm", "vim"]);
    assert_eq!(p.update_command("vim").args, vec!["-S", "--noconfirm", "vim"]);
    assert_eq!(p.list_installed_command().unwrap().args, vec!["-Q"]);
    assert!(p.get_install_plan("vim").requires_root);
}

#[test]
fn empty_output_parses_to_empty_lists() {
    let f = FlatpakProvider::new();
    let a = AptProvider::new();
    let p = PacmanProvider::new(false);
    assert!(f.parse_search("").is_empty());
    assert!(f.parse_installed("").is_empty());
    assert!(a.parse_search("").is_empty());
    assert!(a.parse_installed("").is_empty());
    assert!(p.parse_search("").is_empty());
    assert!(p.parse_installed("").is_empty());
    assert!(f.list_updates().is_empty());
    assert!(a.list_updates().is_empty());
    assert!(p.list_updates().is_empty());
}

#[test]
fn absent_tool_is_reported_before_anything_runs() {
    let gate = tool_gate("flatpak", false);
    match gate {
        Err(ProviderError::ToolNotFound(tool)) => assert_eq!(tool, "flatpak"),
        _ => panic!("expected ToolNotFound"),
    }
    assert!(tool_gate("flatpak", true).is_ok());
}

#[test]
fn nonzero_exit_becomes_backend_failure() {
    let outcome = CommandOutcome {
        success: false,
        stdout: String::new(),
        stderr: "conflict".to_string(),
    };
    match command_result(outcome) {
        Err(ProviderError::BackendFailure(message)) => assert_eq!(message, "conflict"),
        _ => panic!("expected BackendFailure"),
    }
    let ok = CommandOutcome {
        success: true,
        stdout: "done\n".to_string(),
        stderr: String::new(),
    };
    assert_eq!(command_result(ok).unwrap(), "done\n");
}
