use lynxrdp_client::app::desktop::{
    at_rest, close_manager, drawable, lost_text, next_wake, repaint_at, sweep, HostKey, HostKeys,
    Lost, ManagerClose, Rest, LONGEST_REPAINT, LONGEST_SLEEP,
};
use lynxrdp_client::app::keys::PhysicalKey;

#[test]
fn the_release_of_a_closing_key_reaches_no_window() {
    let mut keys = HostKeys::new();
    assert_eq!(
        keys.on_key(true, PhysicalKey::KeyW, true),
        HostKey::CloseWindow
    );
    // The logo key is up already, and another window has the focus by now.
    assert_eq!(
        keys.on_key(false, PhysicalKey::KeyW, false),
        HostKey::Swallow
    );
    assert_eq!(keys.on_key(false, PhysicalKey::KeyW, false), HostKey::Pass);
    assert_eq!(keys.on_key(true, PhysicalKey::KeyQ, true), HostKey::Quit);
    assert_eq!(keys.on_key(false, PhysicalKey::KeyQ, true), HostKey::Pass);
    assert_eq!(
        keys.on_key(true, PhysicalKey::Other(3), true),
        HostKey::Pass
    );
}

#[test]
fn sessions_outlive_the_manager() {
    assert_eq!(close_manager(true, 0, 0), ManagerClose::Redraw);
    assert_eq!(close_manager(false, 0, 0), ManagerClose::Exit);
    assert_eq!(close_manager(false, 1, 0), ManagerClose::Hide);
    assert_eq!(close_manager(false, 0, 1), ManagerClose::Hide);
    assert_eq!(at_rest(1, 0, None), Rest::Nothing);
    assert_eq!(at_rest(0, 0, None), Rest::Exit);
    assert_eq!(at_rest(0, 0, Some(Some(false))), Rest::Show);
    assert_eq!(at_rest(0, 0, Some(Some(true))), Rest::Nothing);
    assert_eq!(at_rest(0, 0, Some(None)), Rest::Nothing);
}

#[test]
fn the_host_wakes_for_whoever_is_first() {
    assert_eq!(
        next_wake(1_000, &vec![], None),
        (1_000 + LONGEST_SLEEP, false)
    );
    assert_eq!(next_wake(1_000, &vec![70, 30], None), (1_030, false));
    assert_eq!(next_wake(1_000, &vec![70], Some(1_010)), (1_010, false));
    // A repaint that is due is done first, and counts no more.
    assert_eq!(next_wake(1_000, &vec![70], Some(1_000)), (1_070, true));
    assert_eq!(repaint_at(1_000, 5), 1_005);
    assert_eq!(repaint_at(1_000, u64::MAX), 1_000 + LONGEST_REPAINT);
}

#[test]
fn a_hidden_manager_is_not_drawn() {
    assert!(drawable(None, None));
    assert!(drawable(Some(true), Some(false)));
    assert!(!drawable(Some(false), None));
    assert!(!drawable(None, Some(true)));
}

#[test]
fn windows_that_ended_are_swept_out() {
    let (live, last) = sweep(&vec![
        None,
        Some("first".to_string()),
        None,
        Some("second".to_string()),
    ]);
    assert_eq!(live, vec![0, 2]);
    assert_eq!(last.as_deref(), Some("second"));
    assert_eq!(sweep(&vec![None]), (vec![0], None));
}

#[test]
fn a_lost_session_is_named() {
    assert_eq!(
        lost_text(Lost::Connection, "work", "refused"),
        "Could not connect to work: refused"
    );
    assert_eq!(
        lost_text(Lost::Window, "work", "no display"),
        "Could not open work: no display"
    );
    assert_eq!(
        lost_text(Lost::Worker, "work", ""),
        "Connection to work stopped unexpectedly"
    );
}
