//! The capture of keyboard and pointer.

use xdg_desktop_portal_cosmic::dict::Dict;
use xdg_desktop_portal_cosmic::input_capture::{
    always_allowed, begin_consent, called_by_portal_frontend, check_create, check_start,
    forward_signal, identity_for, native_sender_from_session_path, offer_persistent_choice,
    option_u32, persist_key, release_owned_session, requested_capabilities, restore_data,
    restore_matches, start_result, system_owned_executable, CompSignal, ConfirmationResult, Consent,
    ConsentIdentity, Grant, InputCapture, InputCaptureData, OptionValue, Ownership, StartOptions,
    DEVICE_KEYBOARD, DEVICE_POINTER, MAX_BARRIERS,
};

fn synergy() -> ConsentIdentity {
    ConsentIdentity {
        key: Some("native-exe:/opt/Synergy/synergy-core".into()),
        label: "Synergy".into(),
    }
}

#[test]
fn restore_data_must_match_application_and_capabilities() {
    let data = restore_data("org.example.Synergy", DEVICE_KEYBOARD | DEVICE_POINTER);
    assert!(restore_matches(
        &data,
        "org.example.Synergy",
        DEVICE_KEYBOARD | DEVICE_POINTER
    ));
    assert!(!restore_matches(
        &data,
        "org.example.Other",
        DEVICE_KEYBOARD | DEVICE_POINTER
    ));
    assert!(!restore_matches(
        &data,
        "org.example.Synergy",
        DEVICE_POINTER
    ));
}

#[test]
fn unsupported_or_empty_capabilities_are_rejected() {
    assert_eq!(requested_capabilities(&Dict::new()), None);
    let mut options = Dict::new();
    options.insert("capabilities", OptionValue::Number(4));
    assert_eq!(requested_capabilities(&options), None);
}

#[test]
fn one_seat_owner_and_close_only_releases_its_own_session() {
    let mut portal = InputCapture::new();
    let first = "/session/first";
    let second = "/session/second";
    assert!(portal.claim_session(first));
    assert!(!portal.claim_session(second));
    release_owned_session(&mut portal.session_owner, second);
    assert!(!portal.claim_session(second));
    release_owned_session(&mut portal.session_owner, first);
    assert!(portal.claim_session(second));
}

#[test]
fn native_consent_uses_frontend_session_sender_not_empty_app_id() {
    assert_eq!(
        native_sender_from_session_path(
            "/org/freedesktop/portal/desktop/session/1_30615/portal372470189"
        ),
        Some(":1.30615".to_string())
    );
    assert_eq!(
        native_sender_from_session_path("/other/session/1_30615/token"),
        None
    );
    assert_eq!(
        native_sender_from_session_path("/org/freedesktop/portal/desktop/session//token"),
        None
    );
}

#[test]
fn legacy_native_client_can_explicitly_choose_persistent_consent() {
    let identity = ConsentIdentity {
        key: Some("native-exe:/opt/Synergy/synergy-core".into()),
        label: "Synergy".into(),
    };
    assert!(offer_persistent_choice(None, &identity));
    assert!(!offer_persistent_choice(Some(0), &identity));
    assert!(offer_persistent_choice(Some(2), &identity));
}

#[test]
fn sender_must_be_a_name_on_the_bus() {
    let odd = "/org/freedesktop/portal/desktop/session/1_a-b!/token";
    assert_eq!(native_sender_from_session_path(odd), None);
}

#[test]
fn sandboxed_client_has_to_ask_for_persistent_consent() {
    let identity = ConsentIdentity {
        key: Some("org.example.Synergy".into()),
        label: "Synergy".into(),
    };
    assert!(!offer_persistent_choice(None, &identity));
    assert!(offer_persistent_choice(Some(2), &identity));
    let nobody = ConsentIdentity {
        key: None,
        label: "?".into(),
    };
    assert!(!offer_persistent_choice(None, &nobody));
}

#[test]
fn executables_that_others_can_write_have_no_identity() {
    let root = Ownership {
        uid: 0,
        mode: 0o755,
    };
    let mine = Ownership {
        uid: 1000,
        mode: 0o755,
    };
    let open = Ownership {
        uid: 0,
        mode: 0o777,
    };
    assert!(system_owned_executable(&vec![root, root]));
    assert!(!system_owned_executable(&vec![root, mine]));
    assert!(!system_owned_executable(&vec![open, root]));
}

#[test]
fn grants_are_no_more_than_was_asked_for() {
    let mut options = Dict::new();
    options.insert("capabilities", OptionValue::Number(7));
    let granted = requested_capabilities(&options);
    assert_eq!(granted, Some(3));
    assert_eq!(check_create(true, &options), granted);
    assert_eq!(check_create(false, &options), None);
}

#[test]
fn stored_consent_is_asked_before_the_user() {
    let identity = synergy();
    let consent = begin_consent(&identity, &None, 3);
    assert_eq!(consent, Consent::CheckStored);
    assert_eq!(
        consent.on_store(true, true),
        Consent::Decided(ConfirmationResult::Allow)
    );
    let asked = begin_consent(&identity, &None, 3).on_store(false, true);
    assert_eq!(asked, Consent::AskUser { always_allow: true });
    assert_eq!(
        asked.on_user(ConfirmationResult::Deny),
        Consent::Decided(ConfirmationResult::Deny)
    );
}

#[test]
fn a_grant_that_came_along_is_not_enough() {
    let identity = synergy();
    let key = identity.key.clone().unwrap();
    let grant = Some(restore_data(&key, 3));
    let consent = begin_consent(&identity, &grant, 3);
    assert_eq!(consent, Consent::CheckRestored);
    assert_eq!(
        consent.on_store(true, true),
        Consent::Decided(ConfirmationResult::Allow)
    );
}

#[test]
fn a_started_session_owns_the_seat() {
    let mut seat = InputCapture::new();
    let mut first = InputCaptureData::new();
    let grant = first.on_decision(
        &mut seat,
        "/session/1",
        3,
        ConfirmationResult::AlwaysAllow,
        &synergy(),
    );
    assert_eq!(grant, Grant::Started { remember: true });
    assert!(first.started);
    assert_eq!(seat.session_owner.as_deref(), Some("/session/1"));
    let mut second = InputCaptureData::new();
    let taken = second.on_decision(
        &mut seat,
        "/session/2",
        3,
        ConfirmationResult::Allow,
        &synergy(),
    );
    assert_eq!(taken, Grant::SeatTaken);
    assert!(!second.started);
    let mut third = InputCaptureData::new();
    let refused = third.on_decision(
        &mut seat,
        "/session/3",
        3,
        ConfirmationResult::Deny,
        &synergy(),
    );
    assert_eq!(refused, Grant::Cancelled);
}

#[test]
fn barriers_need_a_connected_session_and_are_limited() {
    let mut data = InputCaptureData::new();
    assert!(!data.can_set_barriers(1));
    assert!(data.can_start());
    data.started = true;
    assert!(!data.can_start());
    data.set_connected();
    assert!(data.can_set_barriers(MAX_BARRIERS));
    assert!(!data.can_set_barriers(MAX_BARRIERS + 1));
}

#[test]
fn only_the_frontend_may_call() {
    assert!(called_by_portal_frontend(Some(":1.5"), Some(":1.5")));
    assert!(!called_by_portal_frontend(Some(":1.6"), Some(":1.5")));
    assert!(!called_by_portal_frontend(None, None));
    assert!(always_allowed(&vec!["yes".to_string()]));
    assert!(!always_allowed(&vec!["no".to_string()]));
}

#[test]
fn identities_come_from_the_sandbox_or_the_executable() {
    let sandboxed = identity_for("org.example.App", None, "Unknown");
    assert_eq!(sandboxed.key.as_deref(), Some("org.example.App"));
    let native = identity_for("", Some("/usr/bin/barrier"), "Unknown");
    assert_eq!(native.key.as_deref(), Some("native-exe:/usr/bin/barrier"));
    let nobody = identity_for("", None, "Unknown");
    assert_eq!(nobody.key, None);
    assert_eq!(nobody.label, "Unknown");
}

#[test]
fn consent_is_handed_out_to_be_kept() {
    let options = StartOptions {
        capabilities: 3,
        restore_data: None,
        persist_mode: Some(2),
    };
    assert_eq!(check_start(true, &options), Some(3));
    assert_eq!(check_start(false, &options), None);
    let key = persist_key(&options, &synergy());
    assert_eq!(key, synergy().key);
    let result = start_result(3, key.as_deref(), true);
    assert_eq!(result.capabilities, 3);
    let kept = result.restore_data.unwrap();
    assert!(restore_matches(&kept, &key.unwrap(), 3));
    assert!(start_result(3, None, true).restore_data.is_none());
}

#[test]
fn signals_carry_their_numbers() {
    let signal = CompSignal::Deactivated {
        session_handle: "/s".into(),
        activation_id: 9,
        x: 1,
        y: 2,
    };
    let options = forward_signal(&signal);
    assert_eq!(option_u32(&options, "activation_id"), Some(9));
    assert_eq!(option_u32(&options, "barrier_id"), None);
    assert_eq!(
        options.get("cursor_position"),
        Some(&OptionValue::Pair { x: 1, y: 2 })
    );
}
