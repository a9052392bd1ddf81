use lynxrdp_client::profiles::Profile;
use lynxrdp_client::remote_sessions::{
    command, failure_text, over_limit, over_limit_text, question_text, row_text, SessionRecord,
    Window, MAX_OUTPUT, TIMEOUT,
};
use lynxrdp_client::tunnel::stderr::{finish, readable, Tail, TAIL_BYTES};
use lynxrdp_client::tunnel::{
    keyword_of, look, missing_text, parse_destination, profile_tunnel, start_fault, Readiness,
    RemoteTarget, TunnelConfig,
};

/// A user's ssh option must beat our default, not be silently discarded.
#[test]
fn a_user_option_wins_over_the_matching_default() {
    let cfg = TunnelConfig {
        destination: "alice@example.org".into(),
        options: vec![
            "ServerAliveInterval=60".into(),
            "Compression=yes".into(),
            // Pinned: the readiness probe depends on it, so this one is
            // refused rather than honoured.
            "ExitOnForwardFailure=no".into(),
        ],
        ..Default::default()
    };
    let a = cfg.args(40000);
    let first_index = |needle: &str| {
        a.iter()
            .position(|s| s == needle)
            .unwrap_or_else(|| panic!("{needle} missing from {a:?}"))
    };
    assert!(
        first_index("ServerAliveInterval=60") < first_index("ServerAliveInterval=15"),
        "the default was emitted first and would win: {a:?}"
    );
    assert!(
        first_index("Compression=yes") < first_index("Compression=no"),
        "the default was emitted first and would win: {a:?}"
    );
    assert!(
        !a.iter().any(|s| s == "ExitOnForwardFailure=no"),
        "a user option overrode the pinned ExitOnForwardFailure: {a:?}"
    );
    assert!(a.iter().any(|s| s == "ExitOnForwardFailure=yes"));
    // -p and -i must stay above the user's options so a stray Port= cannot
    // override the profile's own port field.
    assert!(first_index("-o") > 0);
}

#[test]
fn builds_ssh_arguments() {
    let cfg = TunnelConfig {
        destination: "alice@example.org".into(),
        ssh_port: Some(2222),
        identity: Some("/k/id".into()),
        options: vec!["StrictHostKeyChecking=yes".into()],
        remote: RemoteTarget::Port(3390),
        ..Default::default()
    };
    let a = cfg.args(40000);
    assert_eq!(a[0], "-N");
    assert!(a.windows(2).any(|w| w == ["-p", "2222"]));
    assert!(a.windows(2).any(|w| w == ["-i", "/k/id"]));
    assert!(a
        .windows(2)
        .any(|w| w == ["-o", "StrictHostKeyChecking=yes"]));
    assert!(a
        .windows(2)
        .any(|w| w == ["-L", "127.0.0.1:40000:127.0.0.1:3390"]));
    assert_eq!(&a[a.len() - 2..], ["--", "alice@example.org"]);
    let cfg = TunnelConfig {
        remote: RemoteTarget::Socket("/run/lynxrdp/lynxrdp.sock".into()),
        ..cfg
    };
    let a = cfg.args(1);
    assert!(a
        .windows(2)
        .any(|w| w == ["-L", "127.0.0.1:1:/run/lynxrdp/lynxrdp.sock"]));
}

#[test]
fn parses_destinations() {
    assert_eq!(parse_destination("host").unwrap(), ("host".into(), None));
    assert_eq!(
        parse_destination("u@host:22").unwrap(),
        ("u@host".into(), Some(22))
    );
    assert_eq!(
        parse_destination("[::1]:2200").unwrap(),
        ("::1".into(), Some(2200))
    );
    assert_eq!(
        parse_destination("u@[fe80::1]").unwrap(),
        ("u@fe80::1".into(), None)
    );
    assert!(parse_destination("").is_err());
    assert!(parse_destination("h:notaport").is_err());
    assert_eq!(
        parse_destination("[::1").unwrap_err(),
        "unterminated IPv6 literal"
    );
}

#[test]
fn a_keyword_ends_at_the_value() {
    assert_eq!(
        keyword_of("ExitOnForwardFailure = no"),
        Some("ExitOnForwardFailure".to_string())
    );
    assert_eq!(keyword_of("Compression yes"), Some("Compression".to_string()));
    assert_eq!(keyword_of("=yes"), None);
}

#[test]
fn missing_ssh_binary_is_reported() {
    let err = missing_text("/nonexistent/ssh-binary");
    assert!(err.contains("could not run"), "{err}");
    assert!(err.contains("/nonexistent/ssh-binary"));
}

#[test]
fn failing_ssh_is_reported() {
    match look(Some("exit status: 1"), false, false) {
        Readiness::Gone(err) => assert!(err.contains("exited"), "{err}"),
        other => panic!("{other:?}"),
    }
}

#[test]
fn tunnel_comes_up_when_port_opens() {
    assert_eq!(look(None, false, false), Readiness::Wait);
    assert_eq!(look(None, true, false), Readiness::Ready);
    assert_eq!(look(None, true, true), Readiness::Ready);
    assert_eq!(
        look(None, false, true),
        Readiness::Stop("timed out waiting for the SSH tunnel".into())
    );
}

#[test]
fn a_tunnel_needs_a_destination() {
    assert_eq!(
        start_fault(&TunnelConfig::default()),
        Some("no SSH destination given".to_string())
    );
    assert_eq!(
        start_fault(&TunnelConfig {
            destination: "h".into(),
            ..Default::default()
        }),
        None
    );
}

#[test]
fn native_pipe_drains_verbose_output_and_retains_the_last_error() {
    let mut tail = Tail::new();
    tail.append(b"discard-prefix\n");
    for _ in 0..4096 {
        tail.append(b"verbose-debug-line\n");
    }
    tail.append(b"Permission denied\n");
    let text = finish(&tail);
    assert!(text.ends_with("Permission denied"), "{text}");
    assert!(!text.contains("discard-prefix"));
    assert!(text.len() < 10_000);
    assert_eq!(tail.bytes.len(), TAIL_BYTES);
}

#[test]
fn how_it_arrives_does_not_matter() {
    let said: Vec<u8> = (0..20_000u32).map(|n| (n % 251) as u8).collect();
    let mut whole = Tail::new();
    whole.append(&said);
    let mut pieces = Tail::new();
    for piece in said.chunks(777) {
        pieces.append(piece);
    }
    assert_eq!(whole, pieces);
}

#[test]
fn a_banner_cannot_steer_the_terminal() {
    assert_eq!(readable("  \u{1b}[31mred\u{7}\tand\r\nblue \n"), "[31mred\tand\nblue");
    // Bytes that are no text are replaced rather than lost.
    let mut tail = Tail::new();
    tail.append(b"no\xfftext");
    assert_eq!(finish(&tail), "no\u{fffd}text");
}

#[test]
fn management_does_not_open_a_desktop_forward() {
    let cfg = TunnelConfig {
        destination: "user@host".into(),
        ..Default::default()
    };
    let args = command(&cfg, Some((123, 456)));
    assert!(!args.iter().any(|s| s == "-L" || s == "-N"));
    assert_eq!(
        args.last().unwrap(),
        "lynxrdp-session --terminate 123 --started 456"
    );
    assert_eq!(args[0], "-T");
    assert_eq!(
        command(&cfg, None).last().unwrap(),
        "lynxrdp-session --list-sessions"
    );
}

#[test]
fn a_command_is_bounded() {
    assert!(!over_limit(TIMEOUT, MAX_OUTPUT, MAX_OUTPUT));
    assert!(over_limit(TIMEOUT + 1, 0, 0));
    assert!(over_limit(0, MAX_OUTPUT + 1, 0));
    assert!(over_limit(0, 0, MAX_OUTPUT + 1));
    assert_eq!(
        over_limit_text(),
        "session management timed out or returned too much output"
    );
    assert_eq!(
        failure_text(" no such host \n"),
        "session management failed: no such host"
    );
}

#[test]
fn a_session_list_asks_before_it_ends_a_desktop() {
    let mut profile = Profile::new("work");
    profile.host = "h".into();
    profile.remote_port = Some(4000);
    let mut w = Window::new(profile);
    assert!(w.pending);
    assert!(!w.refresh());
    assert!(w.reconnect(None).is_none());
    let record = SessionRecord {
        pid: 12,
        started: 34,
        session_id: 56,
        listen: Some("127.0.0.1:3390".into()),
    };
    w.answered(Ok(vec![record.clone()]));
    assert!(!w.empty());
    assert_eq!(w.reconnect(Some(3390)).unwrap().remote_port, Some(3390));
    assert_eq!(w.reconnect(None).unwrap().remote_port, Some(4000));
    assert_eq!(w.end(), None);
    w.ask_about(0);
    w.cancel();
    assert_eq!(w.end(), None);
    w.ask_about(0);
    assert_eq!(w.end(), Some((12, 34)));
    assert!(w.pending);
    w.answered(Err("lost".into()));
    assert_eq!(w.error.as_deref(), Some("lost"));
    assert_eq!(w.records, vec![record.clone()]);
    assert!(row_text(&record).contains("12"));
    assert!(question_text(12).contains("12"));
    assert_eq!(w.title(), "Running desktops - h");
    assert_eq!(w.config(Vec::new()).destination, "h");
}

#[test]
fn a_tunnel_follows_its_profile() {
    let mut p = Profile::new("w");
    p.host = "h".into();
    p.user = "u".into();
    p.ssh_port = Some(22);
    p.ssh_options = vec!["A=1".into()];
    p.remote_port = Some(4000);
    let c = profile_tunnel(&p, vec![("K".into(), "V".into())]);
    assert_eq!(c.destination, "u@h");
    assert_eq!(c.ssh_port, Some(22));
    assert_eq!(c.options, vec!["A=1"]);
    assert_eq!(c.env, vec![("K".to_string(), "V".to_string())]);
}
