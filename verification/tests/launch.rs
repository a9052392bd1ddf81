use lynxrdp_client::launch::{
    describe, tail, tail_from, tail_lines, tail_of, Exit, Found, Session, SessionFailure, Sessions,
    MAX_DETAIL, MAX_PENDING, TAIL_BYTES,
};

#[test]
fn the_tail_keeps_the_last_lines_in_order() {
    let text = "one\ntwo\nthree\nfour\nfive\n";
    assert_eq!(tail_lines(text, false, 3), "three\nfour\nfive");
}

#[test]
fn a_stray_byte_does_not_cost_the_message() {
    let raw = b"noise \xff here\nConnection refused\n".to_vec();
    assert_eq!(
        tail(&raw, false),
        Some("noise \u{fffd} here\nConnection refused".to_string())
    );
    assert_eq!(tail(&raw, true), Some("Connection refused".to_string()));
    assert_eq!(tail(&b" \n\n".to_vec(), false), None);
    assert_eq!(tail_of("a\nb\n", true), Some("b".to_string()));
    assert_eq!(tail_of("half a line", true), None);
}

#[test]
fn the_tail_skips_blank_lines() {
    // ssh separates its banners with blank lines; four "lines" of nothing would
    // push the real message out of a four-line tail.
    let text = "Host key verification failed.\n\n\n\n";
    assert_eq!(tail_lines(text, false, 4), "Host key verification failed.");
}

#[test]
fn the_tail_drops_a_half_line_at_the_start() {
    // Reading the last N bytes almost always lands mid-line, and half a
    // sentence at the top reads as corruption.
    assert_eq!(tail_lines("denied (publickey).\nbye\n", true, 4), "bye");
    // Unless the text really did start at the beginning of the file.
    assert_eq!(
        tail_lines("denied (publickey).\nbye\n", false, 4),
        "denied (publickey).\nbye"
    );
}

#[test]
fn the_tail_of_a_single_partial_line_is_empty_rather_than_wrong() {
    assert_eq!(tail_lines("half a li", true, 4), "");
}

#[test]
fn the_tail_is_bounded_even_for_one_enormous_line() {
    let text = "x".repeat(MAX_DETAIL * 3);
    let kept = tail_lines(&text, false, 4);
    assert!(kept.len() <= MAX_DETAIL + 3, "{}", kept.len());
    assert!(kept.starts_with("..."));
}

#[test]
fn the_tail_cut_does_not_split_a_character() {
    // Session output is arbitrary text from a remote host, and cutting it at a
    // fixed byte offset would panic the launcher the first time that offset
    // landed inside a multi-byte character. Sized so that it does.
    let text = format!("\u{20ac}{}", "b".repeat(MAX_DETAIL - 2));
    let kept = tail_lines(&text, false, 4);
    assert!(kept.starts_with("...b"), "{kept}");
    assert!(!kept.contains('\u{20ac}'), "a character was cut in half");
}

#[test]
fn the_tail_of_nothing_is_nothing() {
    assert_eq!(tail_lines("", false, 4), "");
    assert_eq!(tail_lines("\n \n\t\n", false, 4), "");
}

fn none() -> Sessions {
    Sessions {
        running: Vec::new(),
        finished: Vec::new(),
    }
}

/// A session that ran, said something and ended.
fn run_script(sessions: &mut Sessions, said: &str, exit: Exit) {
    sessions.started(Session {
        id: 1,
        name: "test".to_string(),
        destination: "alice@example.org".to_string(),
    });
    let from = tail_from(said.len() as u64) as usize;
    sessions.reap(&vec![Found::Failed {
        exit,
        detail: tail(&said.as_bytes()[from..].to_vec(), from > 0),
    }]);
    assert!(sessions.running.is_empty());
}

#[test]
fn a_started_session_is_tracked_then_reaped() {
    let mut sessions = none();
    sessions.started(Session {
        id: 1,
        name: "test".to_string(),
        destination: "example.org".to_string(),
    });
    assert_eq!(sessions.running.len(), 1);
    sessions.reap(&vec![Found::Running]);
    assert_eq!(sessions.count(), 1);
    // A look that fails says nothing about the session.
    sessions.reap(&vec![Found::Unclear]);
    assert_eq!(sessions.count(), 1);
    sessions.reap(&vec![Found::Finished]);
    assert_eq!(sessions.count(), 0);
    // A successful exit is the user closing the window, not a failure.
    assert!(sessions.take_failure().is_none());
}

#[test]
fn several_sessions_can_run_at_once() {
    let mut sessions = none();
    for id in 0..3 {
        sessions.started(Session {
            id,
            name: "test".to_string(),
            destination: "example.org".to_string(),
        });
    }
    assert_eq!(sessions.running.len(), 3);
}

#[test]
fn a_failed_connection_keeps_what_ssh_said() {
    // The failure this whole module exists for: ssh refuses the key and says so
    // on stderr, and the launcher must be able to repeat it.
    let mut sessions = none();
    run_script(
        &mut sessions,
        "alice@example.org: Permission denied (publickey).\n",
        Exit::Code(255),
    );
    let failure = sessions.take_failure().expect("the failure was not kept");
    assert_eq!(failure.status, "exit code 255");
    assert!(
        failure.detail.as_deref().unwrap().contains("publickey"),
        "{failure:?}"
    );
    let message = failure.message();
    assert!(message.contains("alice@example.org"), "{message}");
    assert_eq!(
        message,
        "test (alice@example.org) ended -- exit code 255:\nalice@example.org: Permission denied (publickey)."
    );
    assert!(sessions.take_failure().is_none());
}

#[test]
fn a_failure_survives_being_reaped_repeatedly() {
    let mut sessions = none();
    run_script(&mut sessions, "boom\n", Exit::Code(1));
    for _ in 0..5 {
        sessions.reap(&Vec::new());
        assert_eq!(sessions.count(), 0);
    }
    let failure = sessions
        .take_failure()
        .expect("the failure was reaped away");
    assert_eq!(failure.detail.as_deref(), Some("boom"));
}

#[test]
fn a_session_that_says_nothing_still_reports_its_status() {
    let mut sessions = none();
    run_script(&mut sessions, "", Exit::Code(3));
    let failure = sessions.take_failure().unwrap();
    assert_eq!(failure.detail, None);
    assert!(failure.message().contains("exit code 3"), "{failure:?}");
}

#[test]
fn a_signalled_session_is_described_as_such() {
    let mut sessions = none();
    run_script(&mut sessions, "", Exit::Signal(9));
    let failure = sessions.take_failure().unwrap();
    assert_eq!(failure.status, "killed by signal 9");
    assert_eq!(describe(Exit::Unknown), "ended abnormally");
}

#[test]
fn a_chatty_session_does_not_wedge_on_a_full_pipe() {
    let mut sessions = none();
    let mut said = "chatter chatter chatter chatter chatter chatter\n".repeat(20000);
    said.push_str("the last word\n");
    run_script(&mut sessions, &said, Exit::Code(1));
    let failure = sessions.take_failure().unwrap();
    // The tail must be the end of the output, not the beginning.
    assert!(
        failure
            .detail
            .as_deref()
            .unwrap()
            .ends_with("the last word"),
        "{failure:?}"
    );
}

#[test]
fn several_failures_queue_up_in_order() {
    let mut sessions = none();
    run_script(&mut sessions, "first\n", Exit::Code(1));
    run_script(&mut sessions, "second\n", Exit::Code(1));
    assert_eq!(
        sessions.take_failure().unwrap().detail.as_deref(),
        Some("first")
    );
    assert_eq!(
        sessions.take_failure().unwrap().detail.as_deref(),
        Some("second")
    );
    assert!(sessions.take_failure().is_none());
}

#[test]
fn the_queue_of_failures_is_bounded() {
    // Nothing forces a launcher to keep draining, and a session that reconnects
    // in a loop would otherwise grow this without limit.
    let mut sessions = none();
    for n in 0..MAX_PENDING + 3 {
        sessions.remember(SessionFailure {
            name: format!("session {n}"),
            destination: "alice@example.org".into(),
            status: "exit code 1".into(),
            detail: None,
        });
    }
    assert_eq!(sessions.finished.len(), MAX_PENDING);
    // The oldest three went, and what is left is still in order.
    assert_eq!(sessions.take_failure().unwrap().name, "session 3");
    assert_eq!(sessions.take_failure().unwrap().name, "session 4");
}

#[test]
fn only_the_end_of_a_long_output_is_read() {
    assert_eq!(tail_from(10), 0);
    assert_eq!(tail_from(TAIL_BYTES), 0);
    assert_eq!(tail_from(TAIL_BYTES + 5), 5);
}
