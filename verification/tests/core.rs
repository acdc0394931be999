use magic_cursor::controller::get_click_through_state;
use magic_cursor::controller::set_click_through;
use magic_cursor::controller::toggle_click_through;
use magic_cursor::controller::SetEffects;
use magic_cursor::controller::TrayLabel;
use magic_cursor::errors::PlatformError;
use magic_cursor::polling::poll_gate;
use magic_cursor::polling::TickAction;
use magic_cursor::state::OverlayState;

#[test]
fn initial_state_is_click_through_with_tracking() {
    let s = OverlayState::new();
    assert_eq!(s.get(), (true, true));
    assert!(get_click_through_state(&s));
    // the tray item starts out naming the action that toggles back
    assert_eq!(TrayLabel::DisableClickThrough.text(), "Disable Click-Through");
}

#[test]
fn compare_and_set_matching_installs_both_flags() {
    let mut s = OverlayState::new();
    let changed = s.compare_and_set_click_through(true, false);
    assert!(changed);
    assert_eq!(s.get(), (false, false));
}

#[test]
fn compare_and_set_mismatch_leaves_state_alone() {
    let mut s = OverlayState::new();
    let changed = s.compare_and_set_click_through(false, false);
    assert!(!changed);
    assert_eq!(s.get(), (true, true));
}

#[test]
fn toggle_flips_and_keeps_flags_coupled() {
    let mut s = OverlayState::new();
    assert!(!s.toggle());
    assert_eq!(s.get(), (false, false));
    assert!(s.toggle());
    assert_eq!(s.get(), (true, true));
}

#[test]
fn even_number_of_serialized_toggles_restores_state() {
    let mut s = OverlayState::new();
    for _ in 0..6 {
        s.toggle();
    }
    assert_eq!(s.get(), (true, true));
    for _ in 0..5 {
        s.toggle();
    }
    assert_eq!(s.get(), (false, false));
}

#[test]
fn set_with_current_value_is_a_complete_noop() {
    let mut s = OverlayState::new();
    let effects = set_click_through(&mut s, true);
    assert_eq!(
        effects,
        SetEffects { native_call: None, tray_label: None, notify_changed: None }
    );
    assert_eq!(s.get(), (true, true));
}

#[test]
fn set_to_other_value_asks_for_all_three_effects() {
    let mut s = OverlayState::new();
    let effects = set_click_through(&mut s, false);
    assert_eq!(effects.native_call, Some(false));
    assert_eq!(effects.tray_label, Some(TrayLabel::EnableClickThrough));
    assert_eq!(effects.notify_changed, Some(false));
    assert_eq!(s.get(), (false, false));
}

#[test]
fn repeated_set_makes_exactly_one_native_call() {
    // start in capturing mode, then enable twice with the same target
    let mut s = OverlayState::new();
    set_click_through(&mut s, false);
    let first = set_click_through(&mut s, true);
    let second = set_click_through(&mut s, true);
    let native_calls = [first.native_call, second.native_call]
        .iter()
        .filter(|c| c.is_some())
        .count();
    let notifications = [first.notify_changed, second.notify_changed]
        .iter()
        .filter(|c| c.is_some())
        .count();
    assert_eq!(native_calls, 1);
    assert_eq!(notifications, 1);
    assert_eq!(
        second,
        SetEffects { native_call: None, tray_label: None, notify_changed: None }
    );
}

#[test]
fn tray_labels_name_the_reverse_action() {
    let mut s = OverlayState::new();
    let enable = set_click_through(&mut s, false);
    assert_eq!(enable.tray_label.unwrap().text(), "Enable Click-Through");
    let disable = set_click_through(&mut s, true);
    assert_eq!(disable.tray_label.unwrap().text(), "Disable Click-Through");
}

#[test]
fn toggle_scenario_from_initial_state() {
    // initial: click-through on, tracking on, label "Disable Click-Through"
    let mut s = OverlayState::new();
    assert_eq!(s.get(), (true, true));
    assert_eq!(TrayLabel::DisableClickThrough.text(), "Disable Click-Through");

    let (now, effects) = toggle_click_through(&mut s);
    assert!(!now);
    // the adapter is asked to set click-through to false
    assert_eq!(effects.native_call, Some(false));
    // the label becomes "Enable Click-Through"
    assert_eq!(effects.tray_label.unwrap().text(), "Enable Click-Through");
    // the state-change notification carries false
    assert_eq!(effects.notify_changed, Some(false));
    // the polling loop stops forwarding at its next gating check
    assert_eq!(poll_gate(Some(s.get().1)), TickAction::Idle);
}

#[test]
fn adapter_failure_keeps_recorded_intent() {
    // start in capturing mode
    let mut s = OverlayState::new();
    set_click_through(&mut s, false);

    // an adapter that always fails the native style call
    let failing_adapter = |_target: bool| -> Result<(), PlatformError> {
        Err(PlatformError::CallFailed)
    };

    let effects = set_click_through(&mut s, true);
    let outcome = match effects.native_call {
        Some(target) => failing_adapter(target),
        None => Ok(()),
    };
    // the caller receives the error, the state keeps the recorded intent
    assert_eq!(outcome, Err(PlatformError::CallFailed));
    assert_eq!(s.get(), (true, true));

    // a retry with the same target is a no-op that asks for nothing
    let retry = set_click_through(&mut s, true);
    assert_eq!(
        retry,
        SetEffects { native_call: None, tray_label: None, notify_changed: None }
    );
    assert_eq!(s.get(), (true, true));
}

#[test]
fn platform_error_messages() {
    assert_eq!(PlatformError::InvalidHandle.message(), "window handle unavailable");
    assert_eq!(PlatformError::PermissionDenied.message(), "permission denied");
    assert_eq!(PlatformError::Unsupported.message(), "unsupported on this platform");
    assert_eq!(PlatformError::CallFailed.message(), "native call failed");
}
