use fluxara::config::{Config, ConversionPolicy};

#[test]
fn default_round_trip() {
    let c = Config::default();
    let doc = c.to_toml();
    assert_eq!(Config::from_toml(doc.as_str()), Some(c));
}

#[test]
fn default_values() {
    let c = Config::default();
    assert!(c.ui.tray_enabled);
    assert!(c.repos.flathub.beta_enabled);
    assert!(!c.repos.aur.enabled);
    assert_eq!(c.security.conversion_policy, ConversionPolicy::Safe);
    assert!(!c.telemetry.enabled);
}

#[test]
fn default_with_aur_toggle() {
    let c = Config::default_with_aur(true);
    assert!(c.repos.aur.enabled);
    let d = Config::default_with_aur(false);
    assert_eq!(d, Config::default());
}

#[test]
fn non_default_round_trip() {
    let mut c = Config::default();
    c.ui.tray_enabled = false;
    c.repos.aur.enabled = true;
    c.security.conversion_policy = ConversionPolicy::Permissive;
    c.telemetry.enabled = true;
    let doc = c.to_toml();
    assert_eq!(Config::from_toml(doc.as_str()), Some(c));
}

#[test]
fn every_policy_round_trips() {
    for policy in [ConversionPolicy::Safe, ConversionPolicy::Permissive, ConversionPolicy::Strict] {
        let mut c = Config::default();
        c.security.conversion_policy = policy;
        assert_eq!(Config::from_toml(c.to_toml().as_str()), Some(c));
    }
}

#[test]
fn malformed_documents_are_rejected() {
    assert_eq!(Config::from_toml(""), None);
    assert_eq!(Config::from_toml("[ui]\ntray_enabled = maybe\n"), None);
    let mut truncated = Config::default().to_toml();
    truncated.pop();
    assert_eq!(Config::from_toml(truncated.as_str()), None);
    let mut padded = Config::default().to_toml();
    padded.push('\n');
    assert_eq!(Config::from_toml(padded.as_str()), None);
}

#[test]
fn rendered_document_is_valid_toml() {
    let doc = Config::default().to_toml();
    let table: toml::Table = toml::from_str(&doc).expect("document parses as TOML");
    assert_eq!(table["ui"]["tray_enabled"].as_bool(), Some(true));
    assert_eq!(table["repos"]["flathub"]["beta_enabled"].as_bool(), Some(true));
    assert_eq!(table["repos"]["aur"]["enabled"].as_bool(), Some(false));
    assert_eq!(table["security"]["conversion_policy"].as_str(), Some("safe"));
    assert_eq!(table["telemetry"]["enabled"].as_bool(), Some(false));
}

#[test]
fn arch_detection_reads_release_text() {
    assert!(Config::is_arch_based("ID=arch\n"));
    assert!(Config::is_arch_based("NAME=\"Manjaro Linux\"\n"));
    assert!(Config::is_arch_based("Arch Linux"));
    assert!(!Config::is_arch_based("ID=debian\nNAME=\"Debian GNU/Linux\"\n"));
    assert!(!Config::is_arch_based(""));
}
