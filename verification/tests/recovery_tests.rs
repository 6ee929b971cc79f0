use keepkey_vault::errors::DeviceError;
use keepkey_vault::flows::FlowRegistry;
use keepkey_vault::recovery::{
    recovery_character_ack, RecoveryAction, RecoveryDeviceResponse, RecoveryManager,
};

#[test]
fn word_count_is_validated_before_anything_else() {
    let mut flows = FlowRegistry::new();
    let mut recs = RecoveryManager::new();
    for wc in [0u32, 11, 13, 23, 25] {
        assert!(matches!(
            recs.start_recovery(&mut flows, "dev-1", "r-1", wc, false, "L"),
            Err(DeviceError::InvalidInput(_))
        ));
        assert!(!flows.is_device_in_recovery_flow("dev-1"));
    }
    for (i, wc) in [12u32, 18, 24].iter().enumerate() {
        let sid = format!("r-{}", i);
        let dev = format!("dev-{}", i);
        let s = recs
            .start_recovery(&mut flows, &dev, &sid, *wc, true, "Label")
            .expect("starts");
        assert_eq!(s.word_count, *wc);
        assert_eq!(s.current_word, 0);
        assert_eq!(s.current_character, 0);
        assert!(s.is_active);
        assert!(flows.is_device_in_recovery_flow(&dev));
    }
}

#[test]
fn character_acks_fold_letters_and_carry_actions() {
    let a = recovery_character_ack(Some('A'), None).expect("letter");
    assert_eq!(a.character, Some('a'));
    assert!(!a.delete && !a.done);
    let z = recovery_character_ack(Some('z'), None).expect("letter");
    assert_eq!(z.character, Some('z'));
    assert!(recovery_character_ack(Some('5'), None).is_err());
    assert!(recovery_character_ack(Some(' '), None).is_err());
    assert!(recovery_character_ack(None, None).is_err());

    let sp = recovery_character_ack(None, Some(RecoveryAction::Space)).expect("space");
    assert_eq!(sp.character, Some(' '));
    let del = recovery_character_ack(None, Some(RecoveryAction::Delete)).expect("delete");
    assert!(del.delete && !del.done && del.character.is_none());
    let done = recovery_character_ack(None, Some(RecoveryAction::Done)).expect("done");
    assert!(done.done && !done.delete && done.character.is_none());
}

#[test]
fn session_mirrors_the_device_cursor() {
    let mut flows = FlowRegistry::new();
    let mut recs = RecoveryManager::new();
    recs.start_recovery(&mut flows, "dev-1", "r-1", 12, false, "L").expect("starts");
    let p = recs
        .apply_recovery_response(
            &mut flows,
            "r-1",
            &RecoveryDeviceResponse::CharacterRequest { word_pos: 2, character_pos: 3 },
        )
        .expect("cursor");
    assert_eq!((p.word_pos, p.character_pos), (2, 3));
    assert!(!p.is_complete);
    let st = recs.get_recovery_status("r-1").expect("status");
    assert_eq!(st.session.current_word, 2);
    assert_eq!(st.session.current_character, 3);
}

#[test]
fn success_completes_and_releases_the_device() {
    let mut flows = FlowRegistry::new();
    let mut recs = RecoveryManager::new();
    recs.start_recovery(&mut flows, "dev-1", "r-1", 12, false, "L").expect("starts");
    let p = recs
        .apply_recovery_response(&mut flows, "r-1", &RecoveryDeviceResponse::Success)
        .expect("completes");
    assert!(p.is_complete);
    assert!(!flows.is_device_in_recovery_flow("dev-1"));
    // A finished session accepts no further step.
    assert!(recs
        .apply_recovery_response(&mut flows, "r-1", &RecoveryDeviceResponse::Success)
        .is_err());
}

#[test]
fn rejection_and_unexpected_answers_fail_and_release() {
    let mut flows = FlowRegistry::new();
    let mut recs = RecoveryManager::new();
    recs.start_recovery(&mut flows, "dev-1", "r-1", 12, false, "L").expect("starts");
    assert!(matches!(
        recs.apply_recovery_response(
            &mut flows,
            "r-1",
            &RecoveryDeviceResponse::Failure(String::from("bad word")),
        ),
        Err(DeviceError::DeviceRejected(_))
    ));
    assert!(!flows.is_device_in_recovery_flow("dev-1"));

    recs.start_recovery(&mut flows, "dev-2", "r-2", 12, false, "L").expect("starts");
    assert!(matches!(
        recs.apply_recovery_response(&mut flows, "r-2", &RecoveryDeviceResponse::Other),
        Err(DeviceError::ProtocolViolation)
    ));
    assert!(!flows.is_device_in_recovery_flow("dev-2"));
}

#[test]
fn interleaved_pin_prompts_are_tolerated() {
    let mut flows = FlowRegistry::new();
    let mut recs = RecoveryManager::new();
    recs.start_recovery(&mut flows, "dev-1", "r-1", 12, false, "L").expect("starts");
    let p1 = recs
        .apply_recovery_pin_response(&mut flows, "r-1", &RecoveryDeviceResponse::PinMatrixRequest)
        .expect("pin confirm");
    assert_eq!(p1.error.as_deref(), Some("pin_confirm"));
    let p2 = recs
        .apply_recovery_pin_response(&mut flows, "r-1", &RecoveryDeviceResponse::ButtonRequest)
        .expect("button confirm");
    assert_eq!(p2.error.as_deref(), Some("button_confirm"));
    let p3 = recs
        .apply_recovery_pin_response(
            &mut flows,
            "r-1",
            &RecoveryDeviceResponse::CharacterRequest { word_pos: 0, character_pos: 0 },
        )
        .expect("phrase entry begins");
    assert_eq!(p3.error.as_deref(), Some("phrase_entry"));
    assert!(flows.is_device_in_recovery_flow("dev-1"));
}

#[test]
fn cancellation_always_releases_the_device() {
    let mut flows = FlowRegistry::new();
    let mut recs = RecoveryManager::new();
    recs.start_recovery(&mut flows, "dev-1", "r-1", 12, false, "L").expect("starts");
    let dev = recs.cancel_recovery_session(&mut flows, "r-1").expect("cancelled");
    assert_eq!(dev, "dev-1");
    assert!(!flows.is_device_in_recovery_flow("dev-1"));
    assert!(recs.cancel_recovery_session(&mut flows, "r-1").is_none());
}

#[test]
fn verification_runs_dry_and_cleans_up() {
    let mut flows = FlowRegistry::new();
    let mut recs = RecoveryManager::new();
    assert!(matches!(
        recs.start_seed_verification(&mut flows, "dev-1", "v-1", 16),
        Err(DeviceError::InvalidInput(_))
    ));
    let s = recs
        .start_seed_verification(&mut flows, "dev-1", "v-1", 12)
        .expect("starts");
    assert!(!s.pin_verified);
    assert!(flows.is_device_in_recovery_flow("dev-1"));
    assert!(recs.get_verification_status("v-1").is_some());
    assert!(recs.force_cleanup_seed_verification(&mut flows, "dev-1"));
    assert!(!flows.is_device_in_recovery_flow("dev-1"));
    assert!(recs.get_verification_status("v-1").is_none());
}

#[test]
fn aliases_resolve_to_the_canonical_id() {
    let mut flows = FlowRegistry::new();
    flows.add_recovery_device_alias("transient-9", "dev-1");
    assert_eq!(flows.get_canonical_device_id("transient-9"), "dev-1");
    assert_eq!(flows.get_canonical_device_id("other"), "other");
    // Replacing an alias keeps one record per transient id.
    flows.add_recovery_device_alias("transient-9", "dev-2");
    assert_eq!(flows.get_canonical_device_id("transient-9"), "dev-2");
    // Releasing the device drops the aliases that pointed at it.
    flows.mark_device_in_recovery_flow("dev-2");
    flows.unmark_device_in_recovery_flow("dev-2");
    assert_eq!(flows.get_canonical_device_id("transient-9"), "transient-9");
}

#[test]
fn potentially_same_devices_are_recognized() {
    let mut flows = FlowRegistry::new();
    assert!(flows.are_devices_potentially_same("a", "a"));
    flows.add_recovery_device_alias("tmp", "dev-1");
    assert!(flows.are_devices_potentially_same("tmp", "dev-1"));
    assert!(flows.are_devices_potentially_same(
        "keepkey_2b24_0002_abc",
        "keepkey_2b24_0002_def"
    ));
    assert!(flows.are_devices_potentially_same(
        "ABCDEF1234567890ABCDEF12",
        "bus_1_addr_5"
    ));
    assert!(!flows.are_devices_potentially_same("left", "right"));
}
