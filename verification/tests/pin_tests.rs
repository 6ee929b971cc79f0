use keepkey_vault::errors::DeviceError;
use keepkey_vault::flows::FlowRegistry;
use keepkey_vault::pinflow::{
    pin_positions_to_string, PinDeviceResponse, PinSessionManager, PinStep,
};
use keepkey_vault::recovery::RecoveryManager;

#[test]
fn nine_positions_become_the_literal_digit_string() {
    let s = pin_positions_to_string(&vec![1, 2, 3, 4, 5, 6, 7, 8, 9]).expect("valid");
    assert_eq!(s, "123456789");
}

#[test]
fn short_entries_convert_too() {
    assert_eq!(pin_positions_to_string(&vec![7]).expect("valid"), "7");
    assert_eq!(pin_positions_to_string(&vec![9, 1, 5]).expect("valid"), "915");
}

#[test]
fn invalid_position_entries_are_rejected_before_any_exchange() {
    assert!(pin_positions_to_string(&vec![]).is_err());
    assert!(pin_positions_to_string(&vec![1; 10]).is_err());
    assert!(pin_positions_to_string(&vec![0]).is_err());
    assert!(pin_positions_to_string(&vec![1, 10]).is_err());
}

#[test]
fn creation_session_advances_to_confirmation_and_completion() {
    let mut flows = FlowRegistry::new();
    let mut pins = PinSessionManager::new();
    let session = pins
        .start_pin_creation(&mut flows, "dev-1", "sess-1")
        .expect("starts");
    assert_eq!(session.current_step, PinStep::AwaitingFirst);
    assert!(flows.is_device_in_pin_flow("dev-1"));

    let r1 = pins
        .apply_pin_response(&mut flows, "sess-1", &PinDeviceResponse::MatrixRequest(Some(3)))
        .expect("confirm step");
    assert_eq!(r1.next_step.as_deref(), Some("confirm"));
    assert!(flows.is_device_in_pin_flow("dev-1"));

    let r2 = pins
        .apply_pin_response(&mut flows, "sess-1", &PinDeviceResponse::EntropyRequest)
        .expect("complete step");
    assert_eq!(r2.next_step.as_deref(), Some("complete"));
    assert!(!flows.is_device_in_pin_flow("dev-1"));

    let status = pins.get_pin_session_status("sess-1").expect("session kept");
    assert_eq!(status.current_step, PinStep::Completed);
    assert!(!status.is_active);

    // A terminal session accepts no further step.
    assert!(pins
        .apply_pin_response(&mut flows, "sess-1", &PinDeviceResponse::Success)
        .is_err());
}

#[test]
fn second_interactive_session_is_refused_as_busy() {
    let mut flows = FlowRegistry::new();
    let mut pins = PinSessionManager::new();
    let mut recs = RecoveryManager::new();
    pins.start_pin_creation(&mut flows, "dev-1", "sess-1").expect("starts");

    // Another PIN session on the same device is busy.
    assert!(matches!(
        pins.start_pin_creation(&mut flows, "dev-1", "sess-2"),
        Err(DeviceError::DeviceBusy)
    ));
    // A recovery on the same device is busy too.
    assert!(matches!(
        recs.start_recovery(&mut flows, "dev-1", "rec-1", 12, false, "L"),
        Err(DeviceError::DeviceBusy)
    ));
    // A different device is free.
    assert!(pins.start_pin_creation(&mut flows, "dev-2", "sess-3").is_ok());
}

#[test]
fn rejection_fails_the_session_and_releases_the_device() {
    let mut flows = FlowRegistry::new();
    let mut pins = PinSessionManager::new();
    pins.start_pin_creation(&mut flows, "dev-1", "sess-1").expect("starts");
    let e = pins
        .apply_pin_response(
            &mut flows,
            "sess-1",
            &PinDeviceResponse::Failure(String::from("PIN mismatch")),
        )
        .expect_err("rejection is an error");
    assert!(matches!(e, DeviceError::DeviceRejected(_)));
    assert!(!flows.is_device_in_pin_flow("dev-1"));
    let status = pins.get_pin_session_status("sess-1").expect("kept");
    assert_eq!(status.current_step, PinStep::Failed);
}

#[test]
fn unlock_session_reports_unlocked_or_fails() {
    let mut flows = FlowRegistry::new();
    let mut pins = PinSessionManager::new();
    let s = pins.start_pin_unlock(&mut flows, "dev-1", "u-1").expect("starts");
    assert_eq!(s.current_step, PinStep::AwaitingUnlock);
    let ok = pins
        .apply_pin_response(&mut flows, "u-1", &PinDeviceResponse::Features { pin_cached: true })
        .expect("unlocks");
    assert_eq!(ok.next_step.as_deref(), Some("unlocked"));
    assert!(!flows.is_device_in_pin_flow("dev-1"));

    let s2 = pins.start_pin_unlock(&mut flows, "dev-1", "u-2").expect("starts again");
    assert_eq!(s2.session_id, "u-2");
    assert!(pins
        .apply_pin_response(&mut flows, "u-2", &PinDeviceResponse::Features { pin_cached: false })
        .is_err());
    assert!(!flows.is_device_in_pin_flow("dev-1"));
}

#[test]
fn cancel_releases_the_device_and_fails_the_session() {
    let mut flows = FlowRegistry::new();
    let mut pins = PinSessionManager::new();
    pins.start_pin_creation(&mut flows, "dev-1", "sess-1").expect("starts");
    assert!(pins.cancel_pin_creation(&mut flows, "sess-1"));
    assert!(!flows.is_device_in_pin_flow("dev-1"));
    assert!(!pins.cancel_pin_creation(&mut flows, "missing"));
    let status = pins.get_pin_session_status("sess-1").expect("kept");
    assert_eq!(status.current_step, PinStep::Failed);
    assert!(!status.is_active);
}

#[test]
fn unknown_session_is_reported() {
    let mut flows = FlowRegistry::new();
    let mut pins = PinSessionManager::new();
    assert!(pins
        .apply_pin_response(&mut flows, "nope", &PinDeviceResponse::Success)
        .is_err());
    assert!(pins.get_pin_session_status("nope").is_none());
}
