use lynxrdp_client::connection::compose::FrameWait;
use lynxrdp_client::connection::{
    hello, mentions_rejection, rejection_code, rejection_reason, screen_bytes, Admission, Client,
    ClientEvent, Completed, ConnectOptions, Outcome, Serve, TransferResult, Waited,
    LIVENESS_TIMEOUT, POLL_SLICE,
};
use lynxrdp_client::proto::{
    CursorImage, Features, FileEntry, Formats, Message, Rect, TransferPurpose,
};

const OLDEST: u16 = 4;
const NEWEST: u16 = 6;

const ALL: Features = Features {
    local_cursor: true,
    clipboard: true,
    resize: true,
    clipboard_image: true,
    file_transfer: true,
    clipboard_files: true,
    atomic_files: true,
};

fn server_hello(version: u16, w: u16, h: u16) -> Message {
    Message::ServerHello {
        version,
        server_name: "fake".into(),
        features: ALL,
        session_id: 9,
        username: "bob".into(),
        width: w,
        height: h,
    }
}

fn answered(reply: Message, kind: &str) -> Result<Client, String> {
    Client::from_stream(reply, kind, OLDEST, NEWEST, 0)
}

fn connected(w: u16, h: u16) -> Client {
    match answered(server_hello(NEWEST, w, h), "ServerHello") {
        Ok(c) => c,
        Err(e) => panic!("{e}"),
    }
}

fn refused(reply: Message, kind: &str) -> String {
    match answered(reply, kind) {
        Ok(_) => panic!("the connection was made"),
        Err(e) => e,
    }
}

fn nothing() -> Outcome {
    Outcome {
        replies: Vec::new(),
        failed: Vec::new(),
        sent: Vec::new(),
        completed: Vec::new(),
    }
}

#[test]
fn handshake_and_frames() {
    assert!(matches!(
        hello(&ConnectOptions::default(), NEWEST),
        Message::ClientHello {
            version: NEWEST,
            width: 0,
            height: 0,
            ..
        }
    ));
    let mut c = connected(100, 50);
    assert_eq!(c.info().username, "bob");
    assert_eq!(c.size(), (100, 50));
    let h = c.handle(
        Message::ScreenUpdate {
            frame_id: 1,
            applied: Some(Rect::new(10, 10, 5, 5)),
        },
        1,
    );
    assert_eq!(
        h.event,
        Some(ClientEvent::Frame {
            frame_id: 1,
            dirty: Rect::new(10, 10, 5, 5)
        })
    );
    assert_eq!(h.sends, vec![Message::FrameAck { frame_id: 1 }]);
    assert_eq!(c.frames_received(), 1);
    assert_eq!(
        c.handle(
            Message::ScreenResized {
                width: 20,
                height: 20,
            },
            2
        )
        .event,
        Some(ClientEvent::Resized {
            width: 20,
            height: 20
        })
    );
    assert_eq!(c.size(), (20, 20));
    assert_eq!(
        c.handle(Message::Ping { nonce: 4 }, 3).sends,
        vec![Message::Pong { nonce: 4 }]
    );
    assert_eq!(
        c.handle(
            Message::Disconnect {
                reason: "done".into(),
            },
            4
        )
        .event,
        Some(ClientEvent::Disconnected("done".into()))
    );
    assert_eq!(
        c.disconnect("bye"),
        Message::Disconnect {
            reason: "bye".into()
        }
    );
    // The reason a connection closed first stays.
    assert_eq!(c.closed(), Some("done"));
}

#[test]
fn an_update_that_cannot_be_decoded_is_not_acknowledged() {
    let mut c = connected(4, 4);
    let h = c.handle(
        Message::ScreenUpdate {
            frame_id: 1,
            applied: None,
        },
        1,
    );
    assert!(h.failed);
    assert!(h.sends.is_empty());
    assert_eq!(c.frames_received(), 0);
}

#[test]
fn rejection_is_an_error() {
    let err = refused(
        Message::Rejected {
            code: 2,
            reason: "no".into(),
        },
        "Rejected",
    );
    assert!(err.contains("rejected"), "{err}");
    assert_eq!(rejection_code(&err), Some(2));
}

#[test]
fn version_mismatch_is_an_error() {
    let err = refused(server_hello(99, 1, 1), "ServerHello");
    assert!(err.contains("version"), "{err}");
}

#[test]
fn anything_else_during_the_handshake_is_an_error() {
    assert_eq!(
        refused(Message::Ping { nonce: 1 }, "Ping"),
        "unexpected message Ping during handshake"
    );
}

/// A server too old to hold a session with is refused; one merely older
/// than us is not.
#[test]
fn a_server_below_the_floor_is_refused_but_an_older_one_is_not() {
    let err = refused(server_hello(OLDEST - 1, 1, 1), "ServerHello");
    assert!(err.contains("version"), "{err}");
    // Every version from the floor up to ours inclusive must be accepted.
    for v in OLDEST..=NEWEST {
        assert!(
            answered(server_hello(v, 1, 1), "ServerHello").is_ok(),
            "version {v} should have been accepted"
        );
    }
}

#[test]
fn a_refused_offer_is_reported_and_not_merely_declined() {
    // An id this client never asked for is refused, and the requester must
    // not be left waiting for a completion that cannot come.
    let mut c = connected(4, 4);
    let reason = match c.accept(4242, TransferPurpose::FileDownload) {
        Admission::Refused(reason) => reason,
        other => panic!("expected a refusal, got {other:?}"),
    };
    let (delivered, event) = c.handle_transfer(
        Outcome {
            replies: vec![Message::TransferAccept {
                id: 4242,
                accepted: false,
                reason,
            }],
            ..nothing()
        },
        1,
    );
    assert!(delivered);
    match event {
        Some(ClientEvent::TransferFailed { id, reason }) => {
            assert_eq!(id, 4242);
            assert!(reason.contains("unsolicited"), "{reason}");
        }
        other => panic!("expected a failure, got {other:?}"),
    }
}

#[test]
fn a_refusal_the_policy_never_saw_is_reported_too() {
    // The policy is not the only thing that turns an offer away. Reading the
    // refusal off the reply is what covers every path at once.
    let mut c = connected(4, 4);
    let (_, event) = c.handle_transfer(
        Outcome {
            replies: vec![
                Message::TransferAccept {
                    id: 0,
                    accepted: true,
                    reason: String::new(),
                },
                Message::TransferAccept {
                    id: 2,
                    accepted: false,
                    reason: "too many in-memory transfers".into(),
                },
            ],
            ..nothing()
        },
        2,
    );
    match event {
        Some(ClientEvent::TransferFailed { id, reason }) => {
            assert_eq!(id, 2, "{reason}");
            assert!(reason.contains("in-memory"), "{reason}");
        }
        other => panic!("expected a failure, got {other:?}"),
    }
    assert_eq!(c.poll_event(), None);
}

#[test]
fn every_outcome_of_one_message_reaches_the_caller() {
    let mut c = connected(4, 4);
    c.queued.push_back(ClientEvent::TransferFailed {
        id: 1,
        reason: "a".into(),
    });
    c.queued.push_back(ClientEvent::TransferFailed {
        id: 2,
        reason: "b".into(),
    });
    assert!(matches!(
        c.poll_event(),
        Some(ClientEvent::TransferFailed { id: 1, .. })
    ));
    assert!(matches!(
        c.poll_event(),
        Some(ClientEvent::TransferFailed { id: 2, .. })
    ));
    // Even after the connection is gone: a queued completion is owed to
    // the caller regardless of what happened to the socket afterwards.
    c.closed = Some("gone".into());
    c.queued.push_back(ClientEvent::FileUploaded {
        id: 3,
        name: "c".into(),
    });
    assert!(matches!(
        c.poll_event(),
        Some(ClientEvent::FileUploaded { id: 3, .. })
    ));
    assert!(matches!(
        c.poll_event(),
        Some(ClientEvent::Disconnected(_))
    ));
}

#[test]
fn outcomes_come_out_in_order() {
    let mut c = connected(4, 4);
    assert!(c
        .request_file(7, "/srv/a.txt", "/home/alice/a.txt".into())
        .is_ok());
    let (_, first) = c.handle_transfer(
        Outcome {
            replies: Vec::new(),
            failed: vec![(5, "gone".into())],
            sent: vec![(6, TransferPurpose::FileUpload, "up.txt".into())],
            completed: vec![Completed {
                id: 7,
                purpose: TransferPurpose::FileDownload,
                name: "a.txt".into(),
                data: None,
            }],
        },
        0,
    );
    assert_eq!(
        first,
        Some(ClientEvent::TransferFailed {
            id: 5,
            reason: "gone".into()
        })
    );
    assert_eq!(
        c.poll_event(),
        Some(ClientEvent::FileUploaded {
            id: 6,
            name: "up.txt".into()
        })
    );
    assert_eq!(
        c.poll_event(),
        Some(ClientEvent::FileDownloaded {
            id: 7,
            path: "/home/alice/a.txt".into(),
            name: "a.txt".into()
        })
    );
    assert_eq!(c.poll_event(), None);
    assert!(c.downloads.is_empty());
}

#[test]
fn a_link_that_fails_at_a_reply_ends_it_there() {
    let mut c = connected(4, 4);
    let no = |id: u64| Message::TransferAccept {
        id,
        accepted: false,
        reason: "no".into(),
    };
    let (delivered, event) = c.handle_transfer(
        Outcome {
            replies: vec![no(1), no(2), no(3)],
            failed: vec![(4, "late".into())],
            ..nothing()
        },
        1,
    );
    assert!(!delivered);
    assert_eq!(event, None);
    let ids: Vec<u64> = c
        .queued
        .iter()
        .map(|e| match e {
            ClientEvent::TransferFailed { id, .. } => *id,
            _ => panic!("not a failure"),
        })
        .collect();
    assert_eq!(ids, vec![1, 2]);
}

#[test]
fn a_rejection_can_be_read_back_out_of_what_the_user_is_shown() {
    // The pair, not a literal: the session window has to tell a rejection
    // from an ordinary drop to decide whether retrying is worth anything,
    // and it has only this string to go on.
    for code in [0u16, 1, 2, 3, 4, u16::MAX] {
        let text = rejection_reason(code, "no: (parens) and 12345");
        assert_eq!(rejection_code(&text), Some(code), "{text}");
        assert!(mentions_rejection(&text), "{text}");
        // Wrapped in context on the way up, which is what actually
        // reaches the retry classifier.
        let wrapped = format!("reconnecting: {text}");
        assert_eq!(rejection_code(&wrapped), None, "{wrapped}");
        assert!(mentions_rejection(&wrapped), "{wrapped}");
    }
    // Anything else is not a rejection, and must not be mistaken for one.
    for other in [
        "connection closed",
        "no response from the session for 30s",
        "Another client connected to this session.",
        "rejected (code x): not a number",
        "rejected (code ",
        "",
    ] {
        assert_eq!(rejection_code(other), None, "{other}");
        assert!(!mentions_rejection(other), "{other}");
    }
    // A rejection nested inside another failure is still a rejection: the
    // strict parse says no, the question the classifier asks says yes.
    assert_eq!(rejection_code("protocol error: rejected (code 2): x"), None);
    assert!(mentions_rejection("protocol error: rejected (code 2): x"));
}

#[test]
fn abandoning_a_dead_link_does_not_write_to_it() {
    // `abandon` hands back nothing to send, unlike `disconnect`.
    let mut c = connected(4, 4);
    c.abandon("link lost");
    assert_eq!(c.closed(), Some("link lost"));
    c.abandon("again");
    assert_eq!(c.closed(), Some("link lost"));
}

#[test]
fn a_notice_reaches_the_caller() {
    let mut c = connected(4, 4);
    assert_eq!(
        c.handle(Message::Notice { text: "hi".into() }, 1).event,
        Some(ClientEvent::Notice("hi".into()))
    );
}

#[test]
fn only_the_answer_to_the_last_probe_is_a_round_trip() {
    let mut c = connected(4, 4);
    assert_eq!(c.ping(1_000), Message::Ping { nonce: 1 });
    assert_eq!(c.ping(2_000), Message::Ping { nonce: 2 });
    assert_eq!(
        c.handle(Message::Pong { nonce: 2 }, 2_750).event,
        Some(ClientEvent::Rtt(750))
    );
    // An answer is taken once.
    assert_eq!(c.handle(Message::Pong { nonce: 2 }, 2_800).event, None);
    c.ping(3_000);
    c.ping(4_000);
    assert_eq!(c.handle(Message::Pong { nonce: 1 }, 4_500).event, None);
}

#[test]
fn a_silent_server_is_given_up_on() {
    let mut c = connected(4, 4);
    assert_eq!(Client::slice(u64::MAX), POLL_SLICE);
    assert_eq!(Client::slice(7), 7);
    assert_eq!(c.on_timeout(LIVENESS_TIMEOUT, POLL_SLICE + 1), Waited::Again);
    assert_eq!(c.on_timeout(LIVENESS_TIMEOUT, POLL_SLICE), Waited::Idle);
    let reason = "no response from the session for 30s".to_string();
    assert_eq!(
        c.on_timeout(LIVENESS_TIMEOUT + 1, POLL_SLICE),
        Waited::Event(ClientEvent::Disconnected(reason.clone()))
    );
    assert_eq!(c.closed(), Some(reason.as_str()));
    // Anything from the server starts the count again.
    let mut c = connected(4, 4);
    c.on_message(LIVENESS_TIMEOUT);
    assert_eq!(c.quiet_for(LIVENESS_TIMEOUT + 5), 5);
    assert_eq!(c.on_timeout(LIVENESS_TIMEOUT + 1, 1), Waited::Idle);
    assert_eq!(
        c.on_reader_stopped(),
        ClientEvent::Disconnected("reader stopped".into())
    );
}

#[test]
fn only_offered_files_are_served() {
    let mut c = connected(4, 4);
    let list = c
        .offer_clipboard_files(&vec![
            ("/home/alice/a.txt".into(), Some(3)),
            ("/home/alice/dir".into(), None),
        ])
        .expect("there is a file to offer");
    assert_eq!(
        list,
        vec![FileEntry {
            path: "/home/alice/a.txt".into(),
            size: 3
        }]
    );
    let ask = |path: &str| Message::FileRequest {
        id: 11,
        path: path.into(),
    };
    assert_eq!(
        c.handle(ask("/home/alice/a.txt"), 1).serve,
        Some(Serve::File {
            id: 11,
            path: "/home/alice/a.txt".into()
        })
    );
    for path in ["/home/alice/dir", "/etc/passwd", "/home/alice/../alice/a.txt"] {
        let h = c.handle(ask(path), 1);
        assert_eq!(h.serve, None);
        assert!(matches!(
            &h.sends[0],
            Message::TransferEnd {
                id: 11,
                ok: false,
                ..
            }
        ));
    }
    // Nothing but directories leaves what was offered before.
    assert_eq!(c.offer_clipboard_files(&vec![("/d".into(), None)]), None);
    assert_eq!(c.offered_files, vec!["/home/alice/a.txt"]);
}

#[test]
fn an_opened_file_is_offered_under_its_name() {
    assert_eq!(
        Client::serve_file(3, "/a/b.txt".into(), Some("b.txt".into()), 9, None),
        Ok((3, "b.txt".to_string(), 9))
    );
    assert_eq!(
        Client::serve_file(3, "/a/b.txt".into(), None, 0, Some("gone".into())),
        Err(Message::TransferEnd {
            id: 3,
            ok: false,
            message: "/a/b.txt: gone".into()
        })
    );
}

#[test]
fn an_offered_image_is_handed_over_once() {
    let mut c = connected(4, 4);
    let png = Formats {
        png: true,
        files: false,
    };
    assert_eq!(
        c.offer_clipboard_image(vec![1, 2, 3]),
        Some(Message::ClipboardOffer { formats: png })
    );
    assert_eq!(
        c.handle(Message::ClipboardRequest { formats: png }, 1).serve,
        Some(Serve::Image { png: vec![1, 2, 3] })
    );
    assert_eq!(
        c.handle(Message::ClipboardRequest { formats: png }, 1).serve,
        None
    );
    // What the session copies is asked for rather than pushed.
    assert_eq!(
        c.handle(Message::ClipboardOffer { formats: png }, 1).sends,
        vec![Message::ClipboardRequest { formats: png }]
    );
}

#[test]
fn downloads_land_where_they_were_asked_for() {
    let mut c = connected(4, 4);
    assert_eq!(
        c.request_file_with_overwrite(8, "/srv/a", "/home/alice/a".into(), true),
        Ok(Message::FileRequest {
            id: 8,
            path: "/srv/a".into()
        })
    );
    assert_eq!(
        c.accept(8, TransferPurpose::FileDownload),
        Admission::File {
            path: "/home/alice/a".into(),
            replace: true
        }
    );
    assert_eq!(
        c.accept(9, TransferPurpose::ClipboardImage),
        Admission::Memory
    );
    assert_eq!(
        c.accept(8, TransferPurpose::FileUpload),
        Admission::Refused("unexpected upload offer".into())
    );
    c.cancel_transfer(8);
    assert_eq!(
        c.accept(8, TransferPurpose::FileDownload),
        Admission::Refused("unsolicited download".into())
    );
}

#[test]
fn a_server_without_the_feature_is_not_asked() {
    let mut c = connected(4, 4);
    c.info.features = Features {
        file_transfer: false,
        clipboard_files: false,
        clipboard_image: false,
        atomic_files: false,
        ..ALL
    };
    let off = "the server did not enable file transfer".to_string();
    assert_eq!(c.request_file(1, "/a", "/b".into()), Err(off.clone()));
    assert_eq!(c.may_upload(true), Err(off));
    assert_eq!(
        c.may_upload(false),
        Err("update the server for safe uploads, or explicitly allow overwriting".to_string())
    );
    assert_eq!(c.upload_options(1, true), None);
    assert_eq!(c.offer_clipboard_image(vec![1]), None);
    assert_eq!(c.offer_clipboard_files(&vec![("/a".into(), Some(1))]), None);
    let full = connected(4, 4);
    assert_eq!(full.may_upload(false), Ok(()));
    assert_eq!(
        full.upload_options(1, false),
        Some(Message::TransferOptions {
            id: 1,
            replace: false
        })
    );
}

#[test]
fn a_transfer_is_waited_for_by_its_id() {
    let up = |id: u64| ClientEvent::FileUploaded {
        id,
        name: "a".into(),
    };
    assert_eq!(Client::transfer_result(1, up(2)), TransferResult::Pending);
    assert_eq!(
        Client::transfer_result(1, up(1)),
        TransferResult::Done(None)
    );
    assert_eq!(
        Client::transfer_result(
            1,
            ClientEvent::FileDownloaded {
                id: 1,
                path: "/p".into(),
                name: "p".into()
            }
        ),
        TransferResult::Done(Some("/p".into()))
    );
    assert_eq!(
        Client::transfer_result(
            1,
            ClientEvent::TransferFailed {
                id: 1,
                reason: "full".into()
            }
        ),
        TransferResult::Failed("full".into())
    );
    assert_eq!(
        Client::transfer_result(1, ClientEvent::Disconnected("bye".into())),
        TransferResult::Failed("disconnected: bye".into())
    );
}

#[test]
fn a_screen_update_is_counted_with_its_headers() {
    assert_eq!(screen_bytes(0, &vec![]), 16);
    assert_eq!(screen_bytes(2, &vec![100, 7]), 16 + 24 + 113 + 20);
    let mut c = connected(4, 4);
    c.count_bytes(173);
    assert_eq!(c.bytes_received(), 173);
}

#[test]
fn the_latest_cursor_is_kept() {
    let mut c = connected(4, 4);
    assert_eq!(c.cursor(), None);
    let cursor = CursorImage {
        width: 1,
        height: 1,
        hot_x: 0,
        hot_y: 0,
        argb: vec![5],
    };
    c.handle(
        Message::CursorShape {
            cursor: cursor.clone(),
        },
        1,
    );
    assert_eq!(c.cursor(), Some(&cursor));
}

#[test]
fn typing_presses_and_releases_each_key() {
    let key = |keysym: u32, down: bool| Message::KeyEvent { keysym, down };
    assert_eq!(
        Client::type_text("a\u{e9}\u{263a}"),
        vec![
            key(0x61, true),
            key(0x61, false),
            key(0xe9, true),
            key(0xe9, false),
            key(0x0100_263a, true),
            key(0x0100_263a, false),
        ]
    );
    assert_eq!(
        Client::click(3, 4, 1),
        vec![
            Message::PointerMotion { x: 3, y: 4 },
            Message::PointerButton {
                button: 1,
                down: true
            },
            Message::PointerButton {
                button: 1,
                down: false
            },
        ]
    );
    assert_eq!(Client::tap_key(9), vec![key(9, true), key(9, false)]);
    assert_eq!(
        Client::set_clipboard("x"),
        Message::ClipboardText { text: "x".into() }
    );
    assert_eq!(
        Client::request_resize(5, 6),
        Message::ResizeRequest {
            width: 5,
            height: 6
        }
    );
    assert_eq!(Client::request_refresh(), Message::RefreshRequest);
}

#[test]
fn frames_are_waited_for_until_the_link_is_lost() {
    let mut c = connected(4, 4);
    assert_eq!(c.wait_for_frames(0, 0), FrameWait::Reached);
    assert_eq!(c.wait_for_frames(1, 0), FrameWait::TimedOut);
    assert_eq!(c.wait_for_frames(1, 5), FrameWait::Waiting);
    c.handle(
        Message::ScreenUpdate {
            frame_id: 1,
            applied: Some(Rect::default()),
        },
        1,
    );
    assert_eq!(c.wait_for_frames(1, 5), FrameWait::Reached);
    assert_eq!(
        Client::frames_lost(&ClientEvent::Disconnected("gone".into())),
        Some("disconnected: gone".to_string())
    );
    assert_eq!(Client::frames_lost(&ClientEvent::Rtt(1)), None);
}

#[test]
fn a_transfer_row_names_what_moves() {
    assert_eq!(
        Client::transfer_row(Some((TransferPurpose::FileUpload, "a.txt".into(), 3, 10))),
        "FileUpload a.txt: 3/10 bytes"
    );
    assert_eq!(Client::transfer_row(None), "Waiting for file offer");
}
