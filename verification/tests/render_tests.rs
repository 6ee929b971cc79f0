use keepkey_vault::path::{path_to_string, path_to_string_raw, HARDENED_BIT};
use keepkey_vault::plan::address_script_kind;
use keepkey_vault::signing::InputScriptKind;
use keepkey_vault::status::{snapshot_from_raw, version_string, PolicyEntry, RawFeatures};

#[test]
fn renders_hardened_components_with_apostrophes() {
    let parts = vec![44 | HARDENED_BIT, HARDENED_BIT, HARDENED_BIT, 0, 5];
    assert_eq!(path_to_string(&parts), "m/44'/0'/0'/0/5");
    assert_eq!(path_to_string(&vec![]), "m/");
}

#[test]
fn renders_raw_components_with_the_bit_included() {
    let parts = vec![44 | HARDENED_BIT, 0];
    assert_eq!(path_to_string_raw(&parts), "m/2147483692/0");
}

#[test]
fn rendering_then_parsing_returns_the_components() {
    let parts = vec![49 | HARDENED_BIT, HARDENED_BIT, 2 | HARDENED_BIT, 1, 42];
    let text = path_to_string(&parts);
    let back = keepkey_vault::parse_derivation_path(&text).expect("parses back");
    assert_eq!(back, parts);
}

#[test]
fn version_triple_renders_dotted() {
    assert_eq!(version_string(7, 10, 0), "7.10.0");
    assert_eq!(version_string(0, 0, 0), "0.0.0");
    assert_eq!(version_string(4294967295, 1, 23), "4294967295.1.23");
}

#[test]
fn raw_report_shapes_into_a_snapshot() {
    let raw = RawFeatures {
        label: Some(String::from("Mine")),
        vendor: None,
        model: None,
        firmware_variant: None,
        device_id: Some(String::from("G123")),
        language: None,
        bootloader_mode: None,
        major_version: Some(7),
        minor_version: Some(10),
        patch_version: None,
        firmware_hash: Some(vec![0xde, 0xad]),
        bootloader_hash: None,
        initialized: Some(true),
        imported: Some(false),
        no_backup: None,
        pin_protection: Some(true),
        pin_cached: Some(false),
        passphrase_protection: None,
        passphrase_cached: None,
        wipe_code_protection: None,
        auto_lock_delay_ms: Some(60000),
        policies: vec![
            PolicyEntry { policy_name: Some(String::from("ShapeShift")), enabled: Some(true) },
            PolicyEntry { policy_name: Some(String::from("Disabled")), enabled: Some(false) },
            PolicyEntry { policy_name: Some(String::from("Unset")), enabled: None },
            PolicyEntry { policy_name: None, enabled: Some(true) },
        ],
    };
    let snap = snapshot_from_raw(raw);
    assert_eq!(snap.version, "7.10.0");
    assert!(!snap.bootloader_mode);
    assert!(snap.initialized);
    assert!(snap.pin_protection);
    assert!(!snap.pin_cached);
    assert!(!snap.no_backup);
    assert_eq!(snap.firmware_hash.as_deref(), Some("dead"));
    assert_eq!(snap.bootloader_hash, None);
    assert_eq!(snap.bootloader_version, None);
    assert_eq!(snap.auto_lock_delay_ms, Some(60000));
    assert_eq!(snap.policies, vec![String::from("ShapeShift"), String::new()]);
}

#[test]
fn explicit_address_script_names_map_or_stay_open() {
    let p2pkh = String::from("p2pkh");
    let p2sh = String::from("p2sh");
    let p2wpkh = String::from("p2wpkh");
    let nested = String::from("p2sh-p2wpkh");
    let odd = String::from("p2tr");
    assert_eq!(address_script_kind(Some(&p2pkh)), Some(InputScriptKind::SpendAddress));
    assert_eq!(address_script_kind(Some(&p2sh)), Some(InputScriptKind::SpendMultisig));
    assert_eq!(address_script_kind(Some(&p2wpkh)), Some(InputScriptKind::SpendWitness));
    assert_eq!(address_script_kind(Some(&nested)), Some(InputScriptKind::SpendP2shWitness));
    assert_eq!(address_script_kind(Some(&odd)), None);
    assert_eq!(address_script_kind(None), None);
}
