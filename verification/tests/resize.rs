use lynxrdp_client::app::resize::{initial_window_size, ResizeSync, RESIZE_DEBOUNCE};

const NOW: u64 = 1_000_000_000_000;

#[test]
fn a_late_desktop_resize_is_corrected_after_an_earlier_request_completed() {
    let now = NOW;
    let target = (1728, 1084);
    let mut sync = ResizeSync::default();
    sync.viewport_changed(target, now);
    assert_eq!(
        sync.take_due(now + RESIZE_DEBOUNCE, (1920, 1080)),
        Some(target)
    );
    sync.remote_changed(target, target, now + RESIZE_DEBOUNCE);
    assert!(!sync.is_pending());
    let later = now + RESIZE_DEBOUNCE * 2;
    sync.remote_changed(target, (4096, 2160), later);
    assert_eq!(sync.take_due(later, (4096, 2160)), None);
    assert_eq!(
        sync.take_due(later + RESIZE_DEBOUNCE, (4096, 2160)),
        Some(target)
    );
}

#[test]
fn a_clamped_reply_does_not_cause_an_endless_resize_exchange() {
    let now = NOW;
    let target = (2560, 1440);
    let limit = (1600, 1200);
    let mut sync = ResizeSync::default();
    sync.remote_changed(target, limit, now);
    assert_eq!(sync.take_due(now + RESIZE_DEBOUNCE, limit), Some(target));
    for n in 2..10 {
        let later = now + RESIZE_DEBOUNCE * n;
        sync.remote_changed(target, limit, later);
        assert!(!sync.is_pending());
        assert_eq!(sync.take_due(later + RESIZE_DEBOUNCE, limit), None);
    }
    // A user resize or reconnect gives the same target a fresh attempt.
    sync.viewport_changed(target, now);
    assert_eq!(sync.take_due(now + RESIZE_DEBOUNCE, limit), Some(target));
}

#[test]
fn a_successful_resize_allows_a_later_desktop_change_to_be_corrected_again() {
    let now = NOW;
    let target = (1000, 700);
    let other = (1600, 1200);
    let mut sync = ResizeSync::default();
    for n in 0..3 {
        let later = now + RESIZE_DEBOUNCE * (n * 2);
        sync.remote_changed(target, other, later);
        assert_eq!(sync.take_due(later + RESIZE_DEBOUNCE, other), Some(target));
        sync.remote_changed(target, target, later + RESIZE_DEBOUNCE);
    }
}

#[test]
fn server_events_do_not_postpone_the_latest_viewport_request() {
    let now = NOW;
    let target = (1200, 800);
    let mut sync = ResizeSync::default();
    sync.viewport_changed((1000, 700), now);
    let later = now + RESIZE_DEBOUNCE;
    sync.viewport_changed(target, later);
    sync.remote_changed(target, (4096, 2160), later + RESIZE_DEBOUNCE / 2);
    assert_eq!(
        sync.take_due(later + RESIZE_DEBOUNCE, (4096, 2160)),
        Some(target)
    );
}

#[test]
fn minimized_or_already_matched_viewports_do_not_send_requests() {
    let now = NOW;
    let mut sync = ResizeSync::default();
    for target in [(0, 0), (32, 700), (800, 600)] {
        sync.viewport_changed(target, now);
        assert_eq!(sync.take_due(now + RESIZE_DEBOUNCE, (800, 600)), None);
        assert!(!sync.is_pending());
    }
}

#[test]
fn automatic_initial_windows_fit_the_monitor_at_the_chosen_scale() {
    assert_eq!(
        initial_window_size((4096, 2160), 2, Some((3456, 2234)), true),
        (3456, 2234)
    );
    assert_eq!(
        initial_window_size((800, 600), 1, Some((1920, 1080)), true),
        (800, 600)
    );
    assert_eq!(
        initial_window_size((4096, 2160), 2, Some((3456, 2234)), false),
        (8192, 4320)
    );
    assert_eq!(initial_window_size((800, 600), 2, None, true), (1600, 1200));
}

#[test]
fn a_request_is_cut_to_what_the_protocol_can_say() {
    let mut sync = ResizeSync::default();
    sync.viewport_changed((70_000, 100), NOW);
    assert_eq!(
        sync.take_due(NOW + RESIZE_DEBOUNCE, (800, 600)),
        Some((65_535, 100))
    );
}
