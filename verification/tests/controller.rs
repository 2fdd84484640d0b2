use cosmic_files::controller::{state_code, state_from_code, Controller};
use cosmic_files::operation::ControllerState;

#[test]
fn states_are_stored_by_their_place() {
    for (s, c) in [
        (ControllerState::Cancelled, 0u16),
        (ControllerState::Failed, 1),
        (ControllerState::Paused, 2),
        (ControllerState::Running, 3),
    ] {
        assert_eq!(state_code(s), c);
        assert_eq!(state_from_code(c), s);
    }
    assert_eq!(state_from_code(4), ControllerState::Failed);
    assert_eq!(state_from_code(u16::MAX), ControllerState::Failed);
}

#[test]
fn a_new_controller_runs_and_goes_on() {
    let c = Controller::new();
    assert_eq!(c.state(), ControllerState::Running);
    assert_eq!(c.check_step(), Some(Ok(())));
    assert!(c.unpaused_reached());
    assert!(!c.paused_reached());
    assert!(c.cancels_on_drop());
}

#[test]
fn a_paused_controller_waits_and_resumes() {
    let mut c = Controller::new();
    c.pause();
    assert!(c.is_paused());
    assert_eq!(c.check_step(), None);
    assert!(c.paused_reached());
    assert!(!c.unpaused_reached());
    c.unpause();
    assert_eq!(c.state(), ControllerState::Running);
    assert_eq!(c.check_step(), Some(Ok(())));
}

#[test]
fn cancelled_and_failed_controllers_stop() {
    let mut c = Controller::new();
    c.cancel();
    assert!(c.is_cancelled());
    assert_eq!(c.check_step(), Some(Err(ControllerState::Cancelled)));
    assert!(!c.unpaused_reached());
    c.set_state(ControllerState::Failed);
    assert!(c.is_failed());
    assert_eq!(c.check_step(), Some(Err(ControllerState::Failed)));
    assert!(!c.cancels_on_drop());
    // Resuming is not refused, whatever the state.
    c.unpause();
    assert_eq!(c.state(), ControllerState::Running);
}

#[test]
fn only_the_primary_handle_cancels_on_drop() {
    let h = Controller { primary: false, code: 3 };
    assert_eq!(h.state(), ControllerState::Running);
    assert!(!h.cancels_on_drop());
}
