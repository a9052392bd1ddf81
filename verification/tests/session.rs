use lynxrdp_client::app::keys::{KeyEvent, Modifiers, MouseButton, PhysicalKey};
use lynxrdp_client::app::session::{
    CLIPBOARD_POLL, LONGEST_SLEEP, MAX_CLIPBOARD_TEXT, OVERLAY_TICK, PING_INTERVAL, STALL_AFTER,
};
use lynxrdp_client::app::status::remote_name;
use lynxrdp_client::app::{App, AppOptions, Task, WindowEvent};
use lynxrdp_client::connection::{Client, ClientEvent};
use lynxrdp_client::imageclip::{encode_png, Rgba};
use lynxrdp_client::keymap::{Key, KeyLocation, NamedKey};
use lynxrdp_client::overlay::{Action, Measured, Status, FLASH, REVEAL_DELAY};
use lynxrdp_client::proto::{
    CursorImage, Features, FileEntry, Formats, Message, Rect,
};

const SECOND: u64 = 1_000_000_000;

fn client() -> Client {
    let reply = Message::ServerHello {
        version: 1,
        server_name: "server1".into(),
        features: Features {
            local_cursor: true,
            clipboard: true,
            resize: true,
            clipboard_image: true,
            file_transfer: true,
            clipboard_files: true,
            atomic_files: true,
        },
        session_id: 9,
        username: "alice".into(),
        width: 1600,
        height: 900,
    };
    match Client::from_stream(reply, "ServerHello", 1, 1, 0) {
        Ok(c) => c,
        Err(e) => panic!("{e}"),
    }
}

fn app() -> App {
    let opts = AppOptions {
        fullscreen: false,
        title: "LynxRDP".into(),
        dynamic_resize: true,
        clipboard: true,
    };
    let mut a = App::new(client(), opts, true, 0);
    assert_eq!(a.window_made(), vec![Task::ShowPointer(false)]);
    a
}

/// A focused window whose opening flash is over.
fn settled() -> (App, u64) {
    let mut a = app();
    let now = FLASH + SECOND;
    a.window_event(WindowEvent::Focused(true), 2, now);
    a.housekeeping(now);
    assert!(!a.overlay.visible());
    (a, now)
}

fn sent(tasks: &[Task]) -> Vec<&Message> {
    tasks
        .iter()
        .filter_map(|t| match t {
            Task::Send(m) => Some(m),
            _ => None,
        })
        .collect()
}

fn measured(st: &Status) -> Measured {
    let wide = |n: usize| n as u32 * 7;
    Measured {
        labels: (0..4)
            .map(|i| wide(Action::nth(i).label().chars().count()))
            .collect(),
        fields: st
            .fields()
            .iter()
            .map(|runs| runs.iter().map(|r| wide(r.text.chars().count())).collect())
            .collect(),
        cuts: (0..=st.who.chars().count()).map(|n| wide(n + 1)).collect(),
    }
}

fn key(logical: Key, down: bool) -> WindowEvent {
    WindowEvent::KeyboardInput(KeyEvent {
        logical,
        location: KeyLocation::Standard,
        physical: PhysicalKey::Other(0),
        down,
    })
}

#[test]
fn a_frame_is_repainted_where_it_changed() {
    let mut a = app();
    a.presented(None);
    let frame = |x: u32| ClientEvent::Frame {
        frame_id: 1,
        dirty: Rect::new(x, 0, 10, 10),
    };
    assert_eq!(a.on_event(frame(0), (1600, 900), 1), vec![Task::Redraw]);
    a.on_event(frame(90), (1600, 900), 1);
    assert_eq!(a.dirty, Some(Rect::new(0, 0, 100, 10)));
    let st = a.overlay_status(1, None, &vec![]);
    let p = a.plan(1600, 900, 2, &st, &measured(&st)).unwrap();
    assert_eq!(p.damage, vec![Rect::new(0, 0, 100, 10)]);
    a.presented(p.cursor);
    assert_eq!(a.dirty, None);
    assert!(a.about_to_wait().is_empty());
}

#[test]
fn an_expose_repaints_everything() {
    let mut a = app();
    a.presented(None);
    // Nobody asked for this one, so the window's pixels are gone.
    assert_eq!(
        a.window_event(WindowEvent::RedrawRequested, 2, 1),
        vec![Task::Drain, Task::Paint]
    );
    assert!(a.full_redraw);
    a.presented(None);
    a.redraw_asked = true;
    a.window_event(WindowEvent::RedrawRequested, 2, 2);
    assert!(!a.full_redraw);
}

#[test]
fn the_window_follows_the_session() {
    let mut a = app();
    let event = || ClientEvent::Resized {
        width: 800,
        height: 600,
    };
    assert_eq!(
        a.on_event(event(), (1600, 900), 1),
        vec![
            Task::ResizeWindow {
                width: 800,
                height: 600
            },
            Task::Title,
            Task::Redraw
        ]
    );
    assert_eq!(
        a.on_event(event(), (800, 600), 1),
        vec![Task::Title, Task::Redraw]
    );
    a.fullscreen = true;
    assert_eq!(
        a.on_event(event(), (1600, 900), 1),
        vec![Task::Title, Task::Redraw]
    );
}

#[test]
fn a_resize_is_asked_for_once_and_after_a_pause() {
    let (mut a, now) = settled();
    a.window_event(
        WindowEvent::Resized {
            width: 1000,
            height: 700,
        },
        2,
        now,
    );
    assert!(a.next_wake() <= LONGEST_SLEEP);
    assert!(sent(&a.housekeeping(now + 100_000_000)).is_empty());
    assert_eq!(
        sent(&a.housekeeping(now + 200_000_000)),
        vec![&Message::ResizeRequest {
            width: 1000,
            height: 700
        }]
    );
    assert!(sent(&a.housekeeping(now + 400_000_000)).is_empty());
}

#[test]
fn received_text_is_not_sent_back() {
    let mut a = app();
    assert_eq!(
        a.on_event(ClientEvent::Clipboard("hi".into()), (1, 1), 1),
        vec![Task::SetText("hi".into())]
    );
    assert_eq!(a.clipboard_text("hi".into()), None);
    assert_eq!(
        a.clipboard_text("ho".into()),
        Some(Message::ClipboardText { text: "ho".into() })
    );
    assert_eq!(a.clipboard_text("ho".into()), None);
    assert_eq!(a.clipboard_text(String::new()), None);
    // A text too long to send is remembered all the same.
    let long = "x".repeat(MAX_CLIPBOARD_TEXT + 1);
    assert_eq!(a.clipboard_text(long.clone()), None);
    assert_eq!(a.last_clipboard, Some(long));
}

#[test]
fn received_image_is_not_offered_back() {
    let mut a = app();
    let image = Rgba::new(2, 1, vec![1, 2, 3, 255, 5, 6, 7, 255]).unwrap();
    let png = encode_png(&image).unwrap();
    assert_eq!(
        a.on_event(ClientEvent::ClipboardImage(png), (1, 1), 1),
        vec![Task::SetImage(image.clone())]
    );
    assert_eq!(a.clipboard_image(2, 1, image.bytes.clone()), None);
    let other = vec![9, 9, 9, 255, 5, 6, 7, 255];
    assert_eq!(
        a.clipboard_image(2, 1, other.clone()),
        Some(Message::ClipboardOffer {
            formats: Formats {
                png: true,
                files: false
            }
        })
    );
    assert_eq!(a.clipboard_image(2, 1, other), None);
    // An image that is none is not offered.
    assert_eq!(a.clipboard_image(2, 2, vec![1, 2, 3, 4]), None);
    assert!(a.on_remote_image(&vec![1, 2, 3]).is_empty());
}

#[test]
fn copied_files_are_published_as_one_batch() {
    let mut a = app();
    let files = vec![
        FileEntry {
            path: "/srv/a".into(),
            size: 1,
        },
        FileEntry {
            path: "/srv/b".into(),
            size: 2,
        },
    ];
    assert_eq!(
        a.on_event(ClientEvent::ClipboardFiles(files.clone()), (1, 1), 1),
        vec![Task::Fetch(files)]
    );
    a.begin_batch();
    assert!(a.fetch_file(1, "/srv/a", "/tmp/a".into()).is_ok());
    assert!(a.fetch_file(2, "/srv/b", "/tmp/b".into()).is_ok());
    assert!(a.on_clipboard_file_ready("/tmp/a".into()).is_empty());
    assert_eq!(
        a.on_clipboard_file_ready("/tmp/b".into()),
        vec![Task::Publish(vec!["/tmp/a".into(), "/tmp/b".into()])]
    );
    // A download nobody waits for publishes nothing.
    assert!(a.on_clipboard_file_ready("/tmp/c".into()).is_empty());
}

#[test]
fn uploads_are_counted_until_they_end() {
    let mut a = app();
    assert!(a.takes_files());
    a.upload_started(7, "a".into());
    a.upload_started(8, "b".into());
    assert_eq!(
        a.title(Some(42), &vec![(25, 50), (0, 50)]),
        "LynxRDP - alice@server1 1600x900 - 42 ms - uploading 2 file(s) 25%"
    );
    let st = a.overlay_status(1, Some(42), &vec![(25, 50), (0, 50)]);
    assert_eq!(st.uploads, Some((2, 25)));
    assert_eq!(
        a.on_event(
            ClientEvent::FileUploaded {
                id: 7,
                name: "a".into()
            },
            (1, 1),
            1
        ),
        vec![Task::Title]
    );
    a.on_event(
        ClientEvent::TransferFailed {
            id: 8,
            reason: "full".into(),
        },
        (1, 1),
        1,
    );
    assert!(a.uploads.is_empty());
    assert_eq!(a.title(None, &vec![]), "LynxRDP - alice@server1 1600x900");
}

#[test]
fn a_silent_link_is_said_to_be_stalled() {
    let (mut a, _) = settled();
    assert_eq!(a.stalled_for(STALL_AFTER), None);
    assert_eq!(a.stalled_for(STALL_AFTER + 1), Some(STALL_AFTER + 1));
    a.housekeeping(STALL_AFTER + 1);
    // The bar comes up for it without being asked.
    assert!(!a.link_ok);
    assert!(a.overlay.visible());
    assert_eq!(a.next_wake(), OVERLAY_TICK);
    a.on_event(ClientEvent::Rtt(5), (1, 1), STALL_AFTER + 2);
    assert_eq!(a.stalled_for(STALL_AFTER + 3), None);
}

#[test]
fn the_link_is_probed_and_the_clipboard_looked_at() {
    let (mut a, now) = settled();
    let tasks = a.housekeeping(now + PING_INTERVAL);
    assert!(matches!(sent(&tasks)[0], Message::Ping { .. }));
    assert!(tasks.contains(&Task::ReadText));
    assert!(tasks.contains(&Task::ReadImage));
    assert!(tasks.contains(&Task::Title));
    assert!(!a
        .housekeeping(now + PING_INTERVAL + CLIPBOARD_POLL - 1)
        .contains(&Task::ReadText));
}

#[test]
fn the_end_of_the_connection_ends_the_session() {
    let mut a = app();
    assert_eq!(
        a.on_event(ClientEvent::Disconnected("bye".into()), (1, 1), 1),
        vec![Task::Exit]
    );
    assert_eq!(a.exit_reason.as_deref(), Some("bye"));
    assert_eq!(a.protocol_error("bad tile"), vec![Task::Exit]);
    assert_eq!(
        a.exit_reason.as_deref(),
        Some("protocol error: bad tile")
    );
    let mut a = app();
    assert!(a
        .window_event(WindowEvent::CloseRequested, 2, 1)
        .contains(&Task::Exit));
}

#[test]
fn keys_reach_the_session_and_are_let_go_of() {
    let (mut a, now) = settled();
    let down = a.window_event(key(Key::Character("a".into()), true), 2, now);
    assert_eq!(
        sent(&down),
        vec![&Message::KeyEvent {
            keysym: 0x61,
            down: true
        }]
    );
    // Losing the focus lets go of what is down.
    let tasks = a.window_event(WindowEvent::Focused(false), 2, now);
    assert_eq!(
        sent(&tasks),
        vec![&Message::KeyEvent {
            keysym: 0x61,
            down: false
        }]
    );
    a.window_event(key(Key::Character("a".into()), true), 2, now);
    let last = a.exiting();
    assert_eq!(a.client.closed.as_deref(), Some("closed by client"));
    assert!(a.keyboard.pressed.is_empty() && a.keyboard.swallowed.is_empty());
    assert!(last.contains(&Message::KeyEvent {
        keysym: 0x61,
        down: false
    }));
}

#[test]
fn accelerators_stay_with_the_window() {
    let (mut a, now) = settled();
    a.window_event(
        WindowEvent::ModifiersChanged(Modifiers {
            shift: false,
            control: true,
            alt: true,
            logo: false,
        }),
        2,
        now,
    );
    let tasks = a.window_event(key(Key::Named(NamedKey::Enter), true), 2, now);
    assert!(sent(&tasks).is_empty());
    assert!(tasks.contains(&Task::Fullscreen(true)));
    assert!(a.fullscreen);
    a.window_event(key(Key::Character("b".into()), true), 2, now);
    assert!(a.overlay.pinned());
    let tasks = a.window_event(key(Key::Named(NamedKey::End), true), 2, now);
    assert_eq!(sent(&tasks).len(), 6);
    assert!(a
        .window_event(key(Key::Character("q".into()), true), 2, now)
        .contains(&Task::Exit));
}

#[test]
fn the_pointer_belongs_to_the_session_off_the_bar() {
    let (mut a, now) = settled();
    let tasks = a.window_event(WindowEvent::CursorMoved { x: 10, y: 500 }, 2, now);
    assert_eq!(sent(&tasks), vec![&Message::PointerMotion { x: 10, y: 500 }]);
    let left = |down: bool| WindowEvent::MouseInput {
        button: MouseButton::Left,
        down,
    };
    let tasks = a.window_event(left(true), 2, now);
    assert_eq!(
        sent(&tasks),
        vec![&Message::PointerButton {
            button: 1,
            down: true
        }]
    );
    // A drag keeps the pointer, even across the strip where the bar waits.
    let tasks = a.window_event(WindowEvent::CursorMoved { x: 10, y: 1 }, 2, now);
    assert_eq!(sent(&tasks), vec![&Message::PointerMotion { x: 10, y: 1 }]);
    a.housekeeping(now + REVEAL_DELAY);
    assert!(!a.overlay.visible());
    a.window_event(left(false), 2, now + REVEAL_DELAY);
    assert_eq!(a.remote_buttons, 0);
    let tasks = a.window_event(WindowEvent::MouseWheel { dx: 0, dy: -1 }, 2, now);
    assert_eq!(sent(&tasks), vec![&Message::Scroll { dx: 0, dy: -1 }]);
}

#[test]
fn the_bar_keeps_what_happens_on_it() {
    let (mut a, now) = settled();
    a.overlay.toggle_pin();
    a.housekeeping(now);
    assert!(a.overlay.visible());
    let st = a.overlay_status(now, None, &vec![]);
    a.plan(1600, 900, 2, &st, &measured(&st)).unwrap();
    let button = a.overlay.layout.as_ref().unwrap().buttons[3].rect;
    let tasks = a.window_event(
        WindowEvent::CursorMoved {
            x: button.x + 2,
            y: button.y + 2,
        },
        2,
        now,
    );
    assert!(sent(&tasks).is_empty());
    assert!(a.pointer_on_bar);
    let left = |down: bool| WindowEvent::MouseInput {
        button: MouseButton::Left,
        down,
    };
    assert!(sent(&a.window_event(left(true), 2, now)).is_empty());
    assert!(a
        .window_event(WindowEvent::MouseWheel { dx: 0, dy: 1 }, 2, now)
        .is_empty());
    // The button is the one that ends the session.
    assert!(a.window_event(left(false), 2, now).contains(&Task::Exit));
}

#[test]
fn the_drawn_cursor_is_presented_where_it_was_and_is() {
    let mut a = app();
    a.on_event(
        ClientEvent::Cursor(CursorImage {
            width: 4,
            height: 4,
            hot_x: 0,
            hot_y: 0,
            argb: vec![0; 16],
        }),
        (1, 1),
        1,
    );
    a.on_event(ClientEvent::CursorPosition(100, 200), (1, 1), 1);
    a.presented(Some(Rect::new(50, 60, 4, 4)));
    let st = a.overlay_status(1, None, &vec![]);
    let p = a.plan(1600, 900, 2, &st, &measured(&st)).unwrap();
    assert_eq!(p.cursor, Some(Rect::new(100, 200, 4, 4)));
    assert_eq!(
        p.damage,
        vec![Rect::new(50, 60, 4, 4), Rect::new(100, 200, 4, 4)]
    );
    assert_eq!(a.plan(0, 900, 2, &st, &measured(&st)), None);
}

#[test]
fn a_remote_file_is_named_by_its_last_component() {
    assert_eq!(remote_name("/srv/dir/a.txt"), "a.txt");
    assert_eq!(remote_name("a.txt"), "a.txt");
}
