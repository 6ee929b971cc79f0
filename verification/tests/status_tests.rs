use keepkey_vault::evaluate_device_status;
use keepkey_vault::status::FeatureSnapshot;

fn snap(
    version: &str,
    bootloader_mode: bool,
    bootloader_version: Option<&str>,
    initialized: bool,
    no_backup: bool,
    pin_protection: bool,
    pin_cached: bool,
) -> FeatureSnapshot {
    FeatureSnapshot {
        label: Some(String::from("KeepKey")),
        vendor: Some(String::from("KeepKey LLC")),
        model: Some(String::from("KeepKey")),
        firmware_variant: None,
        device_id: Some(String::from("dev-1")),
        language: Some(String::from("english")),
        bootloader_mode,
        version: String::from(version),
        firmware_hash: None,
        bootloader_hash: None,
        bootloader_version: bootloader_version.map(String::from),
        initialized,
        imported: None,
        no_backup,
        pin_protection,
        pin_cached,
        passphrase_protection: false,
        passphrase_cached: false,
        wipe_code_protection: false,
        auto_lock_delay_ms: None,
        policies: Vec::new(),
    }
}

#[test]
fn bootloader_mode_modern_needs_firmware_only() {
    let f = snap("2.1.4", true, None, false, true, false, false);
    let s = evaluate_device_status(String::from("d"), Some(f));
    assert!(!s.needs_bootloader_update);
    assert!(s.needs_firmware_update);
    assert!(!s.needs_initialization);
    assert!(!s.needs_pin_unlock);
}

#[test]
fn bootloader_mode_legacy_needs_bootloader_only() {
    let f = snap("1.0.3", true, None, false, true, false, false);
    let s = evaluate_device_status(String::from("d"), Some(f));
    assert!(s.needs_bootloader_update);
    assert!(!s.needs_firmware_update);
}

#[test]
fn out_of_box_normal_mode_prioritizes_bootloader() {
    let f = snap("1.0.3", false, None, false, true, false, false);
    let s = evaluate_device_status(String::from("d"), Some(f));
    assert!(s.needs_bootloader_update);
    assert!(!s.needs_firmware_update);
    let bc = s.bootloader_check.expect("bootloader check present");
    assert_eq!(bc.current_version, "1.0.3");
    assert_eq!(bc.latest_version, "2.1.4");
    assert!(bc.needs_update);
}

#[test]
fn uninitialized_device_needs_setup_not_pin() {
    let f = snap("7.10.0", false, Some("2.1.4"), false, true, false, false);
    let s = evaluate_device_status(String::from("d"), Some(f));
    assert!(s.needs_initialization);
    assert!(!s.needs_pin_unlock);
}

#[test]
fn locked_initialized_device_needs_pin_not_setup() {
    let f = snap("7.10.0", false, Some("2.1.4"), true, false, true, false);
    let s = evaluate_device_status(String::from("d"), Some(f));
    assert!(!s.needs_initialization);
    assert!(s.needs_pin_unlock);
}

#[test]
fn old_bootloader_field_triggers_update_by_version_order() {
    let f = snap("7.10.0", false, Some("1.2.0"), true, false, false, false);
    let s = evaluate_device_status(String::from("d"), Some(f));
    assert!(s.needs_bootloader_update);
}

#[test]
fn current_bootloader_field_needs_nothing() {
    let f = snap("7.10.0", false, Some("2.1.4"), true, false, false, false);
    let s = evaluate_device_status(String::from("d"), Some(f));
    assert!(!s.needs_bootloader_update);
    assert!(!s.needs_firmware_update);
}

#[test]
fn pre_release_bootloader_sorts_before_release() {
    let f = snap("7.10.0", false, Some("2.1.4-rc1"), true, false, false, false);
    let s = evaluate_device_status(String::from("d"), Some(f));
    assert!(s.needs_bootloader_update);
}

#[test]
fn unparsable_bootloader_falls_back_to_prefix() {
    let f = snap("7.10.0", false, Some("2.1.x"), true, false, false, false);
    let s = evaluate_device_status(String::from("d"), Some(f));
    assert!(!s.needs_bootloader_update);
    let f2 = snap("7.10.0", false, Some("weird"), true, false, false, false);
    let s2 = evaluate_device_status(String::from("d"), Some(f2));
    assert!(s2.needs_bootloader_update);
}

#[test]
fn unknown_bootloader_marker_suppresses_check() {
    let f = snap("7.10.0", false, Some("Unknown bootloader"), true, false, false, false);
    let s = evaluate_device_status(String::from("d"), Some(f));
    assert!(!s.needs_bootloader_update);
    assert!(s.bootloader_check.is_none());
}

#[test]
fn missing_bootloader_field_assumes_recent() {
    let f = snap("7.10.0", false, None, true, false, false, false);
    let s = evaluate_device_status(String::from("d"), Some(f));
    assert!(!s.needs_bootloader_update);
}

#[test]
fn old_firmware_needs_update() {
    let f = snap("7.3.2", false, Some("2.1.4"), true, false, false, false);
    let s = evaluate_device_status(String::from("d"), Some(f));
    assert!(!s.needs_bootloader_update);
    assert!(s.needs_firmware_update);
    let fc = s.firmware_check.expect("firmware check present");
    assert_eq!(fc.current_version, "7.3.2");
    assert_eq!(fc.latest_version, "7.10.0");
}

#[test]
fn disconnected_device_demands_nothing() {
    let s = evaluate_device_status(String::from("d"), None);
    assert!(!s.connected);
    assert!(!s.needs_bootloader_update);
    assert!(!s.needs_firmware_update);
    assert!(!s.needs_initialization);
    assert!(!s.needs_pin_unlock);
    assert!(s.bootloader_check.is_none());
    assert!(s.firmware_check.is_none());
    assert!(s.initialization_check.is_none());
}
