use lynxrdp_client::transfer_panel::{
    bytes, progress_of, Frame, Panel, Showing, Transfer, HISTORY, PROGRESS_DELAY, PROGRESS_TICK,
    TOAST,
};

const NOW: u64 = 5_000_000_000;

#[test]
fn notifications_do_not_open_the_details_or_authorize_overwrites() {
    let mut panel = Panel {
        message: "Copying a file".into(),
        ..Default::default()
    };
    panel.show(NOW, 1, 0);
    assert!(!panel.open);
    assert!(!panel.replace);
    assert!(panel.visible(NOW));
    assert!(panel.destination().is_err());
}

#[test]
fn automatic_progress_and_errors_disappear_without_opening_details() {
    let mut panel = Panel::default();
    panel.notify("Preparing copied files".into(), NOW);
    panel.show(NOW, 0, 1);
    panel.active_since = Some(NOW - PROGRESS_DELAY);
    assert_eq!(panel.show(NOW, 0, 1).showing, Showing::Progress);
    assert!(!panel.open);
    panel.show(NOW, 0, 0);
    assert_eq!(panel.show(NOW, 0, 0).showing, Showing::Nothing);
    panel.notify("Transfer failed: disk full".into(), NOW);
    panel.show(NOW, 0, 0);
    let frame = panel.show(NOW, 0, 0);
    assert_eq!(frame.showing, Showing::Message);
    assert_eq!(panel.message, "Transfer failed: disk full");
    assert!(!panel.open);
    assert!(frame.repaint.unwrap() <= TOAST);
    panel.toast_until = Some(NOW - 1_000_000_000);
    panel.show(NOW, 0, 0);
    assert_eq!(panel.show(NOW, 0, 0).showing, Showing::Nothing);
}

#[test]
fn clipboard_success_is_silent_but_partial_failures_are_visible() {
    let mut panel = Panel::default();
    panel.record("Files copied".into());
    panel.server_notice(
        "2 copied file(s) ready. Paste into a folder in the remote session.".into(),
        NOW,
    );
    panel.show(NOW, 0, 0);
    assert_eq!(panel.show(NOW, 0, 0).showing, Showing::Nothing);
    assert!(!panel.visible(NOW));
    assert_eq!(panel.history.len(), 2);
    panel.server_notice(
        "Only 1 of 2 copied files are ready to paste. Copy the missing files again to retry."
            .into(),
        NOW,
    );
    panel.show(NOW, 0, 0);
    assert!(panel.visible(NOW));
    assert!(!panel.open);
}

#[test]
fn quick_transfers_never_flash_and_each_new_batch_waits() {
    let mut panel = Panel::default();
    assert_eq!(panel.show(NOW, 0, 1).showing, Showing::Nothing);
    panel.show(NOW, 0, 0);
    assert_eq!(panel.show(NOW, 0, 0).showing, Showing::Nothing);
    assert!(panel.active_since.is_none());
    panel.show(NOW, 0, 1);
    panel.active_since = Some(NOW - PROGRESS_DELAY);
    assert_eq!(
        panel.show(NOW, 0, 1),
        Frame {
            showing: Showing::Progress,
            repaint: Some(PROGRESS_TICK)
        }
    );
    panel.show(NOW, 0, 0);
    panel.show(NOW, 0, 0);
    assert_eq!(panel.show(NOW, 0, 1).showing, Showing::Nothing);
    panel.notify("Transfer failed".into(), NOW);
    panel.show(NOW, 0, 1);
    assert_eq!(panel.show(NOW, 0, 1).showing, Showing::Message);
}

#[test]
fn open_details_are_shown_until_they_are_closed() {
    let mut panel = Panel {
        open: true,
        ..Default::default()
    };
    assert_eq!(panel.show(NOW, 0, 1).showing, Showing::Details);
    assert!(!panel.can_download());
    panel.remote = "/home/alex/old.txt".into();
    panel.local = "/tmp/old.txt".into();
    assert!(panel.can_download());
    assert_eq!(panel.destination(), Ok("/tmp/old.txt".to_string()));
    panel.close();
    assert!(!panel.visible(NOW));
}

#[test]
fn the_history_is_bounded_and_newest_first() {
    let mut panel = Panel::default();
    for n in 0..HISTORY + 3 {
        panel.record(format!("message {n}"));
    }
    assert_eq!(panel.history.len(), HISTORY);
    assert_eq!(panel.history[0], format!("message {}", HISTORY + 2));
}

#[test]
fn several_transfers_progress_as_one() {
    let t = |progress: Option<(u64, u64)>| Transfer {
        id: 1,
        name: "a".into(),
        progress,
    };
    assert_eq!(
        progress_of(&vec![t(Some((5, 10))), t(Some((1, 30)))]),
        (6, 40, false)
    );
    assert_eq!(progress_of(&vec![t(Some((5, 10))), t(None)]), (5, 10, true));
    assert_eq!(
        progress_of(&vec![t(Some((u64::MAX, u64::MAX))), t(Some((1, 1)))]),
        (u64::MAX, u64::MAX, false)
    );
}

#[test]
fn sizes_read_as_people_write_them() {
    for n in [
        0u64,
        1,
        1023,
        1024,
        1075,
        1076,
        1_048_575,
        1_048_576,
        1_572_864,
        1_073_741_823,
        1_073_741_824,
        5_000_000_000,
        1 << 53,
        (1 << 53) + 1,
        u64::MAX,
    ] {
        let f = n as f64;
        let want = match n {
            0..1024 => format!("{n} B"),
            1024..1_048_576 => format!("{:.1} KB", f / 1024.0),
            1_048_576..1_073_741_824 => format!("{:.1} MB", f / 1_048_576.0),
            _ => format!("{:.1} GB", f / 1_073_741_824.0),
        };
        assert_eq!(bytes(n), want);
    }
}
