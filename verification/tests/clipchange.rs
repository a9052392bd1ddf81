use lynxrdp_client::clipchange::{
    change_counter, Backoff, ClipboardWatcher, Counter, Look, MAX_IMAGE_POLL, MIN_IMAGE_POLL,
};

const T0: u64 = 1_000_000_000_000;
const SECOND: u64 = 1_000_000_000;
const MILLISECOND: u64 = 1_000_000;

#[test]
fn a_counter_gates_both_formats_on_one_comparison() {
    let mut w = ClipboardWatcher::new(T0);
    // The first look always reads: the clipboard may hold something from
    // before this session and the session has never seen it.
    assert_eq!(
        w.tick_with(Some(7), T0),
        Look {
            text: true,
            image: true
        }
    );
    // Nothing copied, so nothing is read -- no matter how long we wait, which
    // is the difference from the backoff path.
    for i in 1..20 {
        assert_eq!(
            w.tick_with(Some(7), T0 + i * SECOND),
            Look {
                text: false,
                image: false
            }
        );
    }
    assert_eq!(
        w.tick_with(Some(8), T0 + 20 * SECOND),
        Look {
            text: true,
            image: true
        }
    );
}

#[test]
fn without_a_counter_text_keeps_its_interval_and_the_image_backs_off() {
    let mut w = ClipboardWatcher::new(T0);
    let mut at = T0;
    for _ in 0..10 {
        assert!(w.tick_with(None, at).text);
        at += SECOND;
    }
}

#[test]
fn a_fruitless_image_poll_doubles_the_gap_up_to_the_ceiling() {
    let mut w = ClipboardWatcher::new(T0);
    assert!(w.tick_with(None, T0).image, "the first look is always due");
    w.image_read(false, T0);

    // Each fruitless look doubles the gap that follows it: 1.4 s, 2.8 s, then
    // the 5 s ceiling (5.6 s clamped) for as long as nothing turns up.
    let mut at = T0;
    for expected in [
        MIN_IMAGE_POLL * 2,
        MIN_IMAGE_POLL * 4,
        MAX_IMAGE_POLL,
        MAX_IMAGE_POLL,
    ] {
        // A shade before the interval elapses, nothing is due.
        assert!(
            !w.tick_with(None, at + expected - MILLISECOND).image,
            "polled early with a {expected:?} interval"
        );
        at += expected;
        assert!(w.tick_with(None, at).image, "missed a {expected:?} poll");
        w.image_read(false, at);
    }
}

#[test]
fn finding_an_image_puts_the_gap_back_to_the_floor() {
    // Someone copying a run of images is the case that must not be slow: the
    // first one pays the backoff, and after that the watcher is back at its
    // shortest interval.
    let mut w = ClipboardWatcher::new(T0);
    w.image_read(false, T0);
    w.image_read(false, T0);
    w.image_read(false, T0);
    assert!(!w.tick_with(None, T0 + MIN_IMAGE_POLL).image);
    w.image_read(true, T0);
    assert!(w.tick_with(None, T0 + MIN_IMAGE_POLL).image);
}

#[test]
fn coming_back_to_the_window_looks_straight_away() {
    // The realistic sequence: copy an image in another application, then click
    // back into the session and paste. Without this the paste waits out however
    // much of a five-second backoff is left.
    let mut w = ClipboardWatcher::new(T0);
    for _ in 0..8 {
        w.image_read(false, T0);
    }
    assert!(!w.tick_with(None, T0).image);
    w.wake(T0);
    assert!(w.tick_with(None, T0).image);
}

#[test]
fn the_backoff_never_runs_away() {
    let mut b = Backoff::new(T0);
    for _ in 0..64 {
        b.looked(false, T0);
    }
    assert_eq!(b.interval, MAX_IMAGE_POLL);
    assert!(b.due(T0 + MAX_IMAGE_POLL));
}

#[test]
fn the_platform_counter_answers_and_does_not_move_on_its_own() {
    // A counter that changed every time it was read would make the watcher
    // useless in exactly the way that is hardest to notice: everything would
    // still work, and every tick would pay the full read.
    for said in [
        Counter::Sequence(41),
        Counter::Changes(7),
        Counter::Changes(-1),
    ] {
        let first = change_counter(said);
        assert!(first.is_some(), "the pasteboard did not answer");
        assert_eq!(change_counter(said), first);
        let mut w = ClipboardWatcher::new(T0);
        assert!(w.tick(said, T0).image);
        assert_eq!(w.last, first);
        assert_eq!(
            w.tick(said, T0 + 60 * SECOND),
            Look {
                text: false,
                image: false
            }
        );
    }
    // A station without clipboard access is the documented degradation, not a
    // failure: the watcher falls back to the backoff.
    assert_eq!(change_counter(Counter::Sequence(0)), None);
}

#[test]
fn there_is_no_counter_to_trust_here() {
    assert_eq!(change_counter(Counter::Missing), None);
    let mut w = ClipboardWatcher::new(T0);
    let look = Look {
        text: true,
        image: true,
    };
    assert_eq!(w.tick(Counter::Missing, T0), look);
    assert_eq!(w.last, None);
}

#[test]
fn a_counter_that_moved_is_seen() {
    let mut w = ClipboardWatcher::new(T0);
    w.tick(Counter::Sequence(41), T0);
    assert!(w.tick(Counter::Sequence(42), T0).text);
    assert_eq!(w.last, Some(42));
    // One that stops answering leaves what it said last.
    assert!(w.tick(Counter::Sequence(0), T0).text);
    assert_eq!(w.last, Some(42));
    assert!(!w.tick(Counter::Sequence(42), T0).image);
}
