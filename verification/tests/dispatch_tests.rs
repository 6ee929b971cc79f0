use keepkey_vault::dispatch::{
    classify_transport_error, gate_error, gate_request, means_already_awaiting_pin,
    validate_label, GateDecision,
};
use keepkey_vault::errors::DeviceError;
use keepkey_vault::evaluate_device_status;
use keepkey_vault::ids::make_session_id;
use keepkey_vault::status::{DeviceStatus, FeatureSnapshot};

fn snapshot(initialized: bool, pin_protection: bool, pin_cached: bool) -> FeatureSnapshot {
    FeatureSnapshot {
        label: None,
        vendor: None,
        model: None,
        firmware_variant: None,
        device_id: None,
        language: None,
        bootloader_mode: false,
        version: String::from("7.10.0"),
        firmware_hash: None,
        bootloader_hash: None,
        bootloader_version: Some(String::from("2.1.4")),
        initialized,
        imported: None,
        no_backup: false,
        pin_protection,
        pin_cached,
        passphrase_protection: false,
        passphrase_cached: false,
        wipe_code_protection: false,
        auto_lock_delay_ms: None,
        policies: Vec::new(),
    }
}

fn status_of(f: Option<FeatureSnapshot>) -> DeviceStatus {
    evaluate_device_status(String::from("dev-1"), f)
}

#[test]
fn ready_device_is_forwarded() {
    let s = status_of(Some(snapshot(true, true, true)));
    assert_eq!(gate_request(&s, true, false, false), GateDecision::Forward);
    assert!(gate_error(&GateDecision::Forward).is_none());
}

#[test]
fn unreachable_unlisted_device_is_rejected() {
    let s = status_of(None);
    assert_eq!(
        gate_request(&s, false, false, false),
        GateDecision::RejectUnknownState
    );
    assert!(matches!(
        gate_error(&GateDecision::RejectUnknownState),
        Some(DeviceError::CommunicationFailure(_))
    ));
}

#[test]
fn unreachable_but_enumerable_device_proceeds() {
    // An out-of-box bootloader answers no feature query yet still
    // enumerates; the request is allowed through rather than falsely
    // rejected.
    let s = status_of(None);
    assert_eq!(gate_request(&s, true, false, false), GateDecision::Forward);
}

#[test]
fn device_in_interactive_flow_is_busy() {
    let s = status_of(Some(snapshot(true, false, false)));
    assert_eq!(gate_request(&s, true, true, false), GateDecision::RejectBusy);
    assert!(matches!(
        gate_error(&GateDecision::RejectBusy),
        Some(DeviceError::DeviceBusy)
    ));
}

#[test]
fn outstanding_preconditions_are_all_named() {
    let s = status_of(Some(snapshot(false, false, false)));
    match gate_request(&s, true, false, false) {
        GateDecision::RejectNeeds { bootloader, firmware, initialization } => {
            assert!(!bootloader);
            assert!(!firmware);
            assert!(initialization);
            match gate_error(&GateDecision::RejectNeeds { bootloader, firmware, initialization }) {
                Some(DeviceError::RequiresUpdateOrInit {
                    bootloader: b,
                    firmware: f,
                    initialization: i,
                }) => {
                    assert!(!b && !f && i);
                }
                _ => panic!("expected the update-or-init error"),
            }
        }
        other => panic!("expected a preconditions rejection, got {:?}", other),
    }
}

#[test]
fn locked_device_triggers_pin_except_for_feature_queries() {
    let s = status_of(Some(snapshot(true, true, false)));
    assert_eq!(
        gate_request(&s, true, false, false),
        GateDecision::TriggerPinFirst
    );
    assert_eq!(gate_request(&s, true, false, true), GateDecision::Forward);
    assert!(matches!(
        gate_error(&GateDecision::TriggerPinFirst),
        Some(DeviceError::RequiresPinUnlock)
    ));
}

#[test]
fn claimed_device_errors_are_told_apart() {
    assert!(matches!(
        classify_transport_error("Device Already In Use by the desktop app"),
        DeviceError::DeviceClaimed(_)
    ));
    assert!(matches!(
        classify_transport_error("endpoint already claimed"),
        DeviceError::DeviceClaimed(_)
    ));
    assert!(matches!(
        classify_transport_error("read timed out"),
        DeviceError::CommunicationFailure(_)
    ));
}

#[test]
fn unknown_message_rejection_means_pin_prompt_is_up() {
    assert!(means_already_awaiting_pin("Unknown message"));
    assert!(!means_already_awaiting_pin("unknown message"));
    assert!(!means_already_awaiting_pin("Failure: Unknown message"));
}

#[test]
fn labels_are_validated_before_any_exchange() {
    assert!(validate_label("My KeepKey").is_ok());
    assert!(validate_label("").is_ok());
    assert!(validate_label(&"x".repeat(32)).is_ok());
    assert!(validate_label(&"x".repeat(33)).is_err());
    assert!(validate_label("tab\tseparated").is_err());
    assert!(validate_label("caf\u{e9}").is_err());
}

#[test]
fn session_ids_carry_their_kind_and_device() {
    let sid = make_session_id("pin_session", "dev-1");
    assert!(sid.starts_with("pin_session_dev-1_"));
    assert_eq!(sid.len(), "pin_session".len() + "dev-1".len() + 38);
    let other = make_session_id("pin_session", "dev-1");
    assert_ne!(sid, other);
}

#[test]
fn error_kind_names_are_stable() {
    assert_eq!(DeviceError::DeviceBusy.kind_name(), "device_busy");
    assert_eq!(
        DeviceError::InvalidInput(String::from("x")).kind_name(),
        "invalid_input"
    );
    assert_eq!(DeviceError::RequiresPinUnlock.kind_name(), "requires_pin_unlock");
}
