//! The state of one session window.
//!
//! Everything the window decides is decided here. What has to be done about it
//! -- a message to the session, a repaint, a new title -- is returned as a list
//! of tasks, in order, for the window system and the network to carry out.
//!
//! The connection bar is composited into the *presented* buffer after the
//! blit, never into the decoded framebuffer, because the server sends
//! incremental frames that diff against the pixels it believes we hold.

use vstd::prelude::*;

use crate::app::keys::{KeyEvent, Keyboard, Modifiers, MouseButton};
use crate::app::resize;
use crate::app::screen;
use crate::connection::{Client, ClientEvent};
use crate::imageclip;
use crate::imageclip::Rgba;
use crate::overlay;
use crate::overlay::Overlay;
use crate::proto;
use crate::proto::{CursorImage, FileEntry, Message, Rect};
use crate::text;
use crate::time;

verus! {

/// Clipboard poll interval while focused.
pub const CLIPBOARD_POLL: u64 = 700_000_000;

/// RTT probe interval.
pub const PING_INTERVAL: u64 = 3_000_000_000;

/// How long the link may stay silent before the bar says so. Two probe
/// intervals: one missed pong is a slow link, two is a link that has stopped.
pub const STALL_AFTER: u64 = 6_000_000_000;

/// How often the window repaints while the bar is up, so the round-trip and
/// upload figures on it are not stale.
pub const OVERLAY_TICK: u64 = 100_000_000;

/// How often the title is refreshed.
pub const TITLE_INTERVAL: u64 = 1_000_000_000;

/// The longest the window sleeps.
pub const LONGEST_SLEEP: u64 = 250_000_000;

/// The longest clipboard text that is sent, in bytes.
pub const MAX_CLIPBOARD_TEXT: usize = 4_194_304;

/// Options for the GUI.
#[derive(Clone, Debug, PartialEq, Eq)]
pub struct AppOptions {
    /// Start in fullscreen.
    pub fullscreen: bool,
    /// Window title prefix.
    pub title: String,
    /// Follow the window size with remote resizes.
    pub dynamic_resize: bool,
    /// Sync the clipboard.
    pub clipboard: bool,
}

/// Event sent to the window to wake its loop.
#[derive(Clone, Copy, Debug, PartialEq, Eq)]
pub struct Wake;

/// Something to do.
#[derive(Debug, PartialEq, Eq)]
pub enum Task {
    /// Send a message to the session.
    Send(Message),
    /// Ask the window for a repaint.
    Redraw,
    /// Set the window's title.
    Title,
    /// Show or hide the pointer of the window system.
    ShowPointer(bool),
    /// Ask for a window of that size.
    ResizeWindow { width: u32, height: u32 },
    /// Enter or leave fullscreen.
    Fullscreen(bool),
    /// Put text on the local clipboard.
    SetText(String),
    /// Put an image on the local clipboard.
    SetImage(Rgba),
    /// Fetch files copied in the session.
    Fetch(Vec<FileEntry>),
    /// Offer downloaded files on the local clipboard.
    Publish(Vec<String>),
    /// Look at the text on the local clipboard.
    ReadText,
    /// Look at the image on the local clipboard.
    ReadImage,
    /// Handle what the session sent.
    Drain,
    /// Repaint the window.
    Paint,
    /// Forget the remainder of a scroll gesture.
    ForgetScroll,
    /// Open local file transfer controls.
    OpenTransfers,
    /// End the session.
    Exit,
}

/// An event of the window.
#[derive(Clone, Debug, PartialEq, Eq)]
pub enum WindowEvent {
    CloseRequested,
    RedrawRequested,
    Resized { width: u32, height: u32 },
    Focused(bool),
    ModifiersChanged(Modifiers),
    KeyboardInput(KeyEvent),
    /// The pointer moved to this pixel, counted from the top left and no less
    /// than zero.
    CursorMoved { x: u32, y: u32 },
    CursorLeft,
    CursorEntered,
    MouseInput { button: MouseButton, down: bool },
    /// Whole detents of the wheel.
    MouseWheel { dx: i16, dy: i16 },
    /// Any other event.
    Other,
}

/// The application state.
pub struct App {
    pub client: Client,
    pub opts: AppOptions,
    /// The window is there.
    pub has_window: bool,
    /// The local clipboard is there.
    pub has_clipboard: bool,
    pub cursor: Option<CursorImage>,
    pub pointer: Option<(u32, u32)>,
    pub modifiers: Modifiers,
    pub focused: bool,
    pub last_resize_event: Option<u64>,
    pub pending_size: Option<(u32, u32)>,
    pub last_clipboard: Option<String>,
    /// Digest of the last image seen on the local clipboard, so an image we
    /// received from the session is not immediately offered back to it.
    pub last_image: Option<u64>,
    /// Uploads started by dropping files on the window: (transfer id, name).
    pub uploads: Vec<(u64, String)>,
    /// Clipboard files downloaded so far in the current batch.
    pub clipboard_files: Vec<String>,
    /// How many clipboard files are still downloading.
    pub clipboard_pending: usize,
    pub last_clipboard_poll: u64,
    pub last_ping: u64,
    pub rtt: Option<u64>,
    pub dirty: Option<Rect>,
    /// Where the local cursor was drawn last frame, so the pixels it is leaving
    /// are presented along with the ones it is entering.
    pub last_cursor: Option<Rect>,
    pub full_redraw: bool,
    /// Whether the next `RedrawRequested` is one we asked for.
    ///
    /// A redraw nobody asked for is an expose, and it means the window's
    /// pixels are gone. A damage list built from our own state would then
    /// present the cursor rectangle and leave the rest of the window showing
    /// whatever uncovered it.
    pub redraw_asked: bool,
    pub exit_reason: Option<String>,
    pub fullscreen: bool,
    pub keyboard: Keyboard,
    /// The connection bar.
    pub overlay: Overlay,
    /// The pointer is over the bar, so its events are ours and not the
    /// session's.
    pub pointer_on_bar: bool,
    /// A press that landed on the bar; its release belongs to the bar too,
    /// wherever it happens.
    pub bar_press: bool,
    /// Which pointer buttons are held down on the remote screen, one bit per
    /// button. The bar stays out of the way until every one of them is up.
    pub remote_buttons: u8,
    /// When the connection was made; the fallback for "last known alive".
    pub started: u64,
    /// When the last pong arrived.
    pub last_pong: Option<u64>,
    /// Whether the link was answering at the last check, so a change can show
    /// the bar.
    pub link_ok: bool,
    /// When the bar was last repainted for its own sake.
    pub last_overlay_frame: u64,
    pub frames: u64,
    pub last_title_update: u64,
}

/// No tasks.
pub open spec fn idle() -> Seq<Task> {
    Seq::empty()
}

/// A task for each message.
pub open spec fn sends(messages: Seq<Message>) -> Seq<Task> {
    Seq::new(messages.len(), |i: int| Task::Send(messages[i]))
}

pub(crate) fn push_sends(out: &mut Vec<Task>, messages: Vec<Message>)
    ensures
        final(out)@ == old(out)@ + sends(messages@),
{
    for m in it: messages
        invariant
            it.seq() == messages@,
            out@ == old(out)@ + sends(messages@.take(it.index() as int)),
    {
        out.push(Task::Send(m));
        assert(out@ =~= old(out)@ + sends(messages@.take(it.index() + 1)));
    }
    assert(messages@.take(messages@.len() as int) =~= messages@);
}

impl App {
    /// A task for the window, if it is there.
    pub open spec fn for_window(self, t: Task) -> Seq<Task> {
        if self.has_window {
            seq![t]
        } else {
            idle()
        }
    }

    /// The state once a repaint was asked for.
    pub open spec fn asked(self) -> App {
        App { redraw_asked: self.redraw_asked || self.has_window, ..self }
    }

    pub(crate) fn ask_redraw(&mut self, out: &mut Vec<Task>)
        ensures
            *final(self) == old(self).asked(),
            final(out)@ == old(out)@ + old(self).for_window(Task::Redraw),
    {
        if self.has_window {
            self.redraw_asked = true;
            out.push(Task::Redraw);
        }
        assert(out@ =~= old(out)@ + old(self).for_window(Task::Redraw));
    }

    pub(crate) fn tell_window(&self, out: &mut Vec<Task>, t: Task)
        ensures
            final(out)@ == old(out)@ + self.for_window(t),
    {
        if self.has_window {
            out.push(t);
        }
        assert(out@ =~= old(out)@ + self.for_window(t));
    }

    /// Wrap a connected client.
    pub fn new(client: Client, opts: AppOptions, has_clipboard: bool, now: u64) -> (a: App)
        ensures
            a.client == client,
            a.opts == opts,
            a.fullscreen == opts.fullscreen,
            a.has_clipboard == (has_clipboard && opts.clipboard),
            match client.cursor {
                Some(c) => a.cursor matches Some(k) && k.alike(c),
                None => a.cursor is None,
            },
            a.fresh(now),
    {
        let cursor = match &client.cursor {
            Some(c) => Some(c.clone()),
            None => None,
        };
        let has_clipboard = has_clipboard && opts.clipboard;
        App {
            client,
            fullscreen: opts.fullscreen,
            opts,
            has_window: false,
            has_clipboard,
            cursor,
            pointer: None,
            modifiers: Modifiers { shift: false, control: false, alt: false, logo: false },
            focused: false,
            last_resize_event: None,
            pending_size: None,
            last_clipboard: None,
            last_image: None,
            uploads: Vec::new(),
            clipboard_files: Vec::new(),
            clipboard_pending: 0,
            last_clipboard_poll: now,
            last_ping: now,
            rtt: None,
            dirty: None,
            last_cursor: None,
            full_redraw: true,
            redraw_asked: false,
            exit_reason: None,
            keyboard: Keyboard::new(),
            overlay: Overlay::new(now),
            pointer_on_bar: false,
            bar_press: false,
            remote_buttons: 0,
            started: now,
            last_pong: None,
            link_ok: true,
            last_overlay_frame: now,
            frames: 0,
            last_title_update: now,
        }
    }

    /// A window that nothing has happened in yet.
    pub open spec fn fresh(self, now: u64) -> bool {
        &&& !self.has_window
        &&& self.pointer is None
        &&& self.modifiers == (Modifiers { shift: false, control: false, alt: false, logo: false })
        &&& !self.focused
        &&& self.last_resize_event is None
        &&& self.pending_size is None
        &&& self.last_clipboard is None
        &&& self.last_image is None
        &&& self.uploads@.len() == 0
        &&& self.clipboard_files@.len() == 0
        &&& self.clipboard_pending == 0
        &&& self.last_clipboard_poll == now
        &&& self.last_ping == now
        &&& self.rtt is None
        &&& self.dirty is None
        &&& self.last_cursor is None
        &&& self.full_redraw
        &&& !self.redraw_asked
        &&& self.exit_reason is None
        &&& self.keyboard@.pressed.len() == 0
        &&& self.keyboard@.swallowed.len() == 0
        &&& self.overlay == Overlay::opening(now)
        &&& !self.pointer_on_bar
        &&& !self.bar_press
        &&& self.remote_buttons == 0
        &&& self.started == now
        &&& self.last_pong is None
        &&& self.link_ok
        &&& self.last_overlay_frame == now
        &&& self.frames == 0
        &&& self.last_title_update == now
    }

    /// The window was made.
    pub fn window_made(&mut self) -> (tasks: Vec<Task>)
        ensures
            *final(self) == (App { has_window: true, full_redraw: true, ..*old(self) }),
            tasks@ == seq![Task::ShowPointer(!old(self).client.info.features.local_cursor)],
    {
        self.has_window = true;
        self.full_redraw = true;
        let mut tasks: Vec<Task> = Vec::new();
        tasks.push(Task::ShowPointer(!self.client.info.features.local_cursor));
        tasks
    }

    /// The window could not be made, or the connection does not follow the
    /// protocol.
    pub fn fail(&mut self, reason: String) -> (tasks: Vec<Task>)
        ensures
            *final(self) == (App { exit_reason: Some(reason), ..*old(self) }),
            tasks@ == seq![Task::Exit],
    {
        self.exit_reason = Some(reason);
        let mut tasks: Vec<Task> = Vec::new();
        tasks.push(Task::Exit);
        tasks
    }

    /// The connection does not follow the protocol.
    pub fn protocol_error(&mut self, error: &str) -> (tasks: Vec<Task>)
        ensures
            final(self).exit_reason matches Some(r) && r@ == "protocol error: "@ + error@,
            *final(self) == (App { exit_reason: final(self).exit_reason, ..*old(self) }),
            tasks@ == seq![Task::Exit],
    {
        let mut s = text::copy("protocol error: ");
        s.push_str(error);
        self.fail(s)
    }
}

// ---------------------------------------------------------------------------
// What the session sends
// ---------------------------------------------------------------------------

/// The uploads but for those under `id`.
pub open spec fn unfinished(uploads: Seq<(u64, String)>, id: u64) -> Seq<(u64, String)>
    decreases uploads.len(),
{
    if uploads.len() == 0 {
        uploads
    } else if uploads[0].0 == id {
        unfinished(uploads.skip(1), id)
    } else {
        seq![uploads[0]] + unfinished(uploads.skip(1), id)
    }
}

/// The area that changed since the last repaint, once `r` changed too.
pub open spec fn dirtied(dirty: Option<Rect>, r: Rect) -> Rect {
    match dirty {
        Some(d) => d.around(r),
        None => r,
    }
}

impl App {
    /// The state once one more staged clipboard file arrived.
    pub open spec fn staged(self, after: App, path: String, tasks: Seq<Task>) -> bool {
        if self.clipboard_pending == 0 {
            after == self && tasks == idle()
        } else if self.clipboard_pending > 1 {
            &&& after.clipboard_files@ == self.clipboard_files@.push(path)
            &&& after == (App {
                clipboard_files: after.clipboard_files,
                clipboard_pending: (self.clipboard_pending - 1) as usize,
                ..self
            })
            &&& tasks == idle()
        } else {
            &&& after.clipboard_files@.len() == 0
            &&& after == (App {
                clipboard_files: after.clipboard_files,
                clipboard_pending: 0,
                ..self
            })
            &&& tasks.len() == 1
            &&& tasks[0] matches Task::Publish(files) && files@ == self.clipboard_files@.push(path)
        }
    }

    /// One staged clipboard file arrived; publish once the batch is complete.
    pub fn on_clipboard_file_ready(&mut self, path: String) -> (tasks: Vec<Task>)
        ensures
            old(self).staged(*final(self), path, tasks@),
    {
        let mut tasks: Vec<Task> = Vec::new();
        if self.clipboard_pending == 0 {
            return tasks;
        }
        self.clipboard_files.push(path);
        self.clipboard_pending = self.clipboard_pending - 1;
        if self.clipboard_pending > 0 {
            return tasks;
        }
        let mut files: Vec<String> = Vec::new();
        std::mem::swap(&mut files, &mut self.clipboard_files);
        tasks.push(Task::Publish(files));
        tasks
    }

    /// Start a new batch of files copied in the session.
    pub fn begin_batch(&mut self)
        ensures
            final(self).clipboard_files@.len() == 0,
            *final(self) == (App {
                clipboard_files: final(self).clipboard_files,
                clipboard_pending: 0,
                ..*old(self)
            }),
    {
        self.clipboard_files = Vec::new();
        self.clipboard_pending = 0;
    }

    /// Fetch one file of the batch as transfer `id`.
    pub fn fetch_file(&mut self, id: u64, remote: &str, local: String) -> (r: Result<
        Message,
        String,
    >)
        requires
            old(self).clipboard_pending < usize::MAX,
        ensures
            if old(self).client.info.features.file_transfer {
                &&& r matches Ok(Message::FileRequest { id: i, path }) && i == id && path@ == remote@
                &&& final(self).clipboard_pending == old(self).clipboard_pending + 1
                &&& final(self).client.downloads@ == old(self).client.downloads@.insert(id, local)
                &&& final(self).client.replacements@ == old(self).client.replacements@
                &&& final(self).client.queued == old(self).client.queued
                &&& final(self).client.same_session(old(self).client)
                &&& *final(self) == (App {
                    client: final(self).client,
                    clipboard_pending: final(self).clipboard_pending,
                    ..*old(self)
                })
            } else {
                &&& r matches Err(e) && e@ == "the server did not enable file transfer"@
                &&& *final(self) == *old(self)
            },
    {
        let r = self.client.request_file(id, remote, local);
        match &r {
            Ok(_) => {
                self.clipboard_pending = self.clipboard_pending + 1;
            },
            Err(_) => {},
        }
        r
    }

    /// Forget an upload that finished or failed.
    pub fn finish_upload(&mut self, id: u64) -> (tasks: Vec<Task>)
        ensures
            final(self).uploads@ == unfinished(old(self).uploads@, id),
            *final(self) == (App { uploads: final(self).uploads, ..*old(self) }),
            tasks@ == old(self).for_window(Task::Title),
    {
        let mut i: usize = 0;
        assert(self.uploads@.take(0) + unfinished(self.uploads@.skip(0), id) =~= unfinished(
            old(self).uploads@,
            id,
        )) by {
            assert(self.uploads@.skip(0) =~= self.uploads@);
        }
        while i < self.uploads.len()
            invariant
                i <= self.uploads.len(),
                *self == (App { uploads: self.uploads, ..*old(self) }),
                self.uploads@.take(i as int) + unfinished(self.uploads@.skip(i as int), id)
                    == unfinished(old(self).uploads@, id),
            decreases self.uploads.len() - i,
        {
            let ghost was = self.uploads@;
            let ghost rest = was.skip(i as int);
            assert(rest.skip(1) =~= was.skip(i + 1));
            assert(rest[0] == was[i as int]);
            if self.uploads[i].0 == id {
                self.uploads.remove(i);
                assert(self.uploads@.skip(i as int) =~= was.skip(i + 1));
                assert(self.uploads@.take(i as int) =~= was.take(i as int));
            } else {
                i = i + 1;
                assert(was.take(i as int) =~= was.take(i - 1) + seq![was[i - 1]]);
                assert(was.take(i - 1) + (seq![was[i - 1]] + unfinished(was.skip(i as int), id))
                    =~= was.take(i as int) + unfinished(was.skip(i as int), id));
            }
        }
        assert(self.uploads@.take(i as int) =~= self.uploads@);
        assert(self.uploads@.skip(i as int) =~= Seq::<(u64, String)>::empty());
        assert(self.uploads@ =~= unfinished(old(self).uploads@, id));
        let mut tasks: Vec<Task> = Vec::new();
        self.tell_window(&mut tasks, Task::Title);
        tasks
    }

    /// Whether files dropped on the window can be uploaded.
    pub fn takes_files(&self) -> (r: bool)
        ensures
            r == self.client.info.features.file_transfer,
    {
        self.client.info.features.file_transfer
    }

    /// A dropped file is being uploaded as transfer `id`.
    pub fn upload_started(&mut self, id: u64, name: String)
        ensures
            final(self).uploads@ == old(self).uploads@.push((id, name)),
            *final(self) == (App { uploads: final(self).uploads, ..*old(self) }),
    {
        self.uploads.push((id, name));
    }

    /// Put an image from the session onto the local clipboard.
    pub fn on_remote_image(&mut self, png: &Vec<u8>) -> (tasks: Vec<Task>)
        ensures
            old(self).took_image(png@, *final(self), tasks@),
    {
        let mut tasks: Vec<Task> = Vec::new();
        if !self.has_clipboard {
            return tasks;
        }
        match imageclip::decode_png(png.as_slice()) {
            Ok(image) => {
                self.last_image = Some(screen::image_digest(image.bytes.as_slice()));
                tasks.push(Task::SetImage(image));
            },
            Err(_) => {},
        }
        tasks
    }
}

/// The size a window is asked for, if it should follow the session.
pub open spec fn wanted_window(fullscreen: bool, window: (u32, u32), remote: (u32, u32)) -> bool {
    !fullscreen && window != remote
}

impl App {
    /// What an event of the session does to the window, but for the ones that
    /// carry files or an image.
    pub open spec fn event_step(self, event: ClientEvent, window: (u32, u32), now: u64) -> (
        App,
        Seq<Task>,
    ) {
        match event {
            ClientEvent::Frame { dirty, .. } => (
                App {
                    frames: vstd::wrapping::u64_specs::wrapping_add(self.frames, 1),
                    dirty: Some(dirtied(self.dirty, dirty)),
                    ..self.asked()
                },
                self.for_window(Task::Redraw),
            ),
            ClientEvent::Resized { width, height } => (
                App { full_redraw: true, ..self.asked() },
                (if self.has_window && wanted_window(self.fullscreen, window, (width, height)) {
                    seq![Task::ResizeWindow { width, height }]
                } else {
                    idle()
                }) + self.for_window(Task::Title) + self.for_window(Task::Redraw),
            ),
            ClientEvent::Cursor(c) => (
                App { cursor: Some(c), ..self.asked() },
                self.for_window(Task::ShowPointer(false)) + self.for_window(Task::Redraw),
            ),
            ClientEvent::CursorPosition(x, y) => (
                App { pointer: Some((x as u32, y as u32)), ..self.asked() },
                self.for_window(Task::Redraw),
            ),
            ClientEvent::Rtt(rtt) => (
                App { rtt: Some(rtt), last_pong: Some(now), ..self },
                idle(),
            ),
            ClientEvent::Disconnected(reason) => (
                App { exit_reason: Some(reason), ..self },
                seq![Task::Exit],
            ),
            _ => (self, idle()),
        }
    }

    /// What text from the session comes to: it goes onto the local clipboard,
    /// where there is one.
    pub open spec fn took_text(self, t: String, after: App, tasks: Seq<Task>) -> bool {
        if self.has_clipboard {
            &&& after == (App { last_clipboard: Some(t), ..self })
            &&& tasks =~= seq![Task::SetText(t)]
        } else {
            after == self && tasks =~= idle()
        }
    }

    /// What an image from the session comes to: it goes onto the local
    /// clipboard, where there is one and the image can be decoded.
    pub open spec fn took_image(self, png: Seq<u8>, after: App, tasks: Seq<Task>) -> bool {
        match imageclip::decoded(
            imageclip::png_size(png, imageclip::NORMALISED),
            imageclip::png_picture(png, imageclip::NORMALISED),
        ) {
            Ok((w, h, bytes)) if self.has_clipboard => {
                &&& after == (App { last_image: Some(screen::digest(bytes)), ..self })
                &&& tasks.len() == 1
                &&& tasks[0] matches Task::SetImage(image) && image.width == w && image.height == h
                    && image.bytes@ == bytes
            },
            _ => after == self && tasks =~= idle(),
        }
    }

    /// Take an event of the session. `window` is the size of the window.
    ///
    /// Where the application warped the pointer, the drawn cursor follows: the
    /// pointer of the window system cannot be moved portably, and doing so
    /// would fight the user.
    pub fn on_event(&mut self, event: ClientEvent, window: (u32, u32), now: u64) -> (tasks: Vec<
        Task,
    >)
        ensures
            match event {
                ClientEvent::Clipboard(t) => old(self).took_text(t, *final(self), tasks@),
                ClientEvent::ClipboardImage(png) => old(self).took_image(png@, *final(self), tasks@),
                ClientEvent::ClipboardFiles(files) => {
                    &&& *final(self) == *old(self)
                    &&& tasks@ == if files@.len() == 0 {
                        idle()
                    } else {
                        seq![Task::Fetch(files)]
                    }
                },
                ClientEvent::FileDownloaded { path, .. } => old(self).staged(*final(self), path, tasks@),
                ClientEvent::FileUploaded { id, .. } => {
                    &&& final(self).uploads@ == unfinished(old(self).uploads@, id)
                    &&& *final(self) == (App { uploads: final(self).uploads, ..*old(self) })
                    &&& tasks@ == old(self).for_window(Task::Title)
                },
                ClientEvent::TransferFailed { id, .. } => {
                    &&& final(self).uploads@ == unfinished(old(self).uploads@, id)
                    &&& *final(self) == (App { uploads: final(self).uploads, ..*old(self) })
                    &&& tasks@ == old(self).for_window(Task::Title)
                },
                _ => (*final(self), tasks@) == old(self).event_step(event, window, now),
            },
    {
        let mut tasks: Vec<Task> = Vec::new();
        match event {
            ClientEvent::Frame { frame_id: _, dirty } => {
                self.frames = self.frames.wrapping_add(1);
                let area = match &self.dirty {
                    Some(d) => d.union(&dirty),
                    None => dirty,
                };
                self.dirty = Some(area);
                self.ask_redraw(&mut tasks);
            },
            ClientEvent::Resized { width, height } => {
                self.full_redraw = true;
                if self.has_window && !self.fullscreen && !(window.0 == width && window.1
                    == height) {
                    tasks.push(Task::ResizeWindow { width, height });
                }
                self.tell_window(&mut tasks, Task::Title);
                self.ask_redraw(&mut tasks);
            },
            ClientEvent::Cursor(c) => {
                self.cursor = Some(c);
                self.tell_window(&mut tasks, Task::ShowPointer(false));
                self.ask_redraw(&mut tasks);
            },
            ClientEvent::CursorPosition(x, y) => {
                self.pointer = Some((x as u32, y as u32));
                self.ask_redraw(&mut tasks);
            },
            ClientEvent::Clipboard(t) => {
                if self.has_clipboard {
                    self.last_clipboard = Some(t.clone());
                    tasks.push(Task::SetText(t));
                }
            },
            ClientEvent::ClipboardImage(png) => {
                return self.on_remote_image(&png);
            },
            ClientEvent::ClipboardFiles(files) => {
                if files.len() > 0 {
                    tasks.push(Task::Fetch(files));
                }
            },
            ClientEvent::FileDownloaded { id: _, path, name: _ } => {
                return self.on_clipboard_file_ready(path);
            },
            ClientEvent::FileUploaded { id, name: _ } => {
                return self.finish_upload(id);
            },
            ClientEvent::TransferFailed { id, reason: _ } => {
                return self.finish_upload(id);
            },
            ClientEvent::Notice(_) => {},
            ClientEvent::Rtt(rtt) => {
                self.rtt = Some(rtt);
                self.last_pong = Some(now);
            },
            ClientEvent::Disconnected(reason) => {
                return self.fail(reason);
            },
        }
        tasks
    }
}

// ---------------------------------------------------------------------------
// What time brings
// ---------------------------------------------------------------------------

impl App {
    /// How long the link has been silent, when that is long enough to say so.
    ///
    /// Before the first answer there is nothing to measure from, so the
    /// connection's own start stands in: the handshake completing is itself
    /// proof the link was alive.
    pub open spec fn stall(self, now: u64) -> Option<u64> {
        let heard = match self.last_pong {
            Some(at) => at,
            None => self.started,
        };
        if time::since(now, heard) > STALL_AFTER {
            Some(time::since(now, heard))
        } else {
            None
        }
    }

    /// How long the link has been silent, when that is long enough to say so.
    pub fn stalled_for(&self, now: u64) -> (r: Option<u64>)
        ensures
            r == self.stall(now),
    {
        let heard: u64 = match self.last_pong {
            Some(at) => at,
            None => self.started,
        };
        let quiet: u64 = time::elapsed(now, heard);
        if quiet > STALL_AFTER {
            Some(quiet)
        } else {
            None
        }
    }

    /// Whether the pointer of the window system is the one to show, now that
    /// the bar does not have it.
    pub open spec fn system_pointer(self) -> bool {
        !self.client.info.features.local_cursor || self.cursor is None
    }

    pub(crate) fn restore_cursor(&self, out: &mut Vec<Task>)
        ensures
            final(out)@ == old(out)@ + self.for_window(Task::ShowPointer(self.system_pointer())),
    {
        self.tell_window(
            out,
            Task::ShowPointer(!self.client.info.features.local_cursor || self.cursor.is_none()),
        );
    }

    /// A resize that was held back long enough is asked for, unless the remote
    /// screen has that size or it is too small.
    pub open spec fn resize_step(self, now: u64) -> (App, Seq<Task>) {
        match (self.last_resize_event, self.pending_size) {
            (Some(t), Some((w, h))) => if time::since(now, t) >= resize::RESIZE_DEBOUNCE {
                (
                    App { last_resize_event: None, pending_size: None, ..self },
                    if (w, h) != (self.client.width, self.client.height) && w >= resize::MIN_SIDE
                        && h >= resize::MIN_SIDE {
                        seq![
                            Task::Send(
                                Message::ResizeRequest {
                                    width: resize::sendable((w, h)).0 as u16,
                                    height: resize::sendable((w, h)).1 as u16,
                                },
                            ),
                        ]
                    } else {
                        idle()
                    },
                )
            } else {
                (self, idle())
            },
            _ => (self, idle()),
        }
    }

    fn keep_size(&mut self, now: u64, out: &mut Vec<Task>)
        ensures
            *final(self) == old(self).resize_step(now).0,
            final(out)@ == old(out)@ + old(self).resize_step(now).1,
    {
        match (self.last_resize_event, self.pending_size) {
            (Some(t), Some((w, h))) => {
                if time::elapsed(now, t) >= resize::RESIZE_DEBOUNCE {
                    self.last_resize_event = None;
                    self.pending_size = None;
                    if !(w == self.client.width && h == self.client.height) && w >= resize::MIN_SIDE
                        && h >= resize::MIN_SIDE {
                        let width: u32 = proto::min_u32(w, 65535);
                        let height: u32 = proto::min_u32(h, 65535);
                        out.push(
                            Task::Send(
                                Message::ResizeRequest {
                                    width: width as u16,
                                    height: height as u16,
                                },
                            ),
                        );
                    }
                }
            },
            _ => {},
        }
        assert(out@ =~= old(out)@ + old(self).resize_step(now).1);
    }

    /// The link is probed from time to time.
    pub open spec fn ping_step(self, now: u64) -> (App, Seq<Task>) {
        if time::since(now, self.last_ping) >= PING_INTERVAL {
            let nonce = self.client.next_nonce();
            (
                App {
                    last_ping: now,
                    client: Client { last_ping: Some((nonce, now)), ..self.client },
                    ..self
                },
                seq![Task::Send(Message::Ping { nonce })],
            )
        } else {
            (self, idle())
        }
    }

    fn keep_probing(&mut self, now: u64, out: &mut Vec<Task>)
        ensures
            *final(self) == old(self).ping_step(now).0,
            final(out)@ == old(out)@ + old(self).ping_step(now).1,
    {
        if time::elapsed(now, self.last_ping) >= PING_INTERVAL {
            self.last_ping = now;
            let m = self.client.ping(now);
            out.push(Task::Send(m));
        }
        assert(out@ =~= old(out)@ + old(self).ping_step(now).1);
    }

    /// Whether the text on the local clipboard is the session's business.
    pub open spec fn reads_text(self) -> bool {
        self.has_clipboard && self.client.info.features.clipboard
    }

    /// Whether an image on the local clipboard is the session's business.
    pub open spec fn reads_images(self) -> bool {
        self.client.info.features.clipboard_image && self.has_clipboard
    }

    pub open spec fn text_task(self) -> Seq<Task> {
        if self.reads_text() {
            seq![Task::ReadText]
        } else {
            idle()
        }
    }

    pub open spec fn image_task(self) -> Seq<Task> {
        if self.reads_images() {
            seq![Task::ReadImage]
        } else {
            idle()
        }
    }

    pub(crate) fn poll_clipboard(&self, out: &mut Vec<Task>)
        ensures
            final(out)@ == old(out)@ + self.text_task(),
    {
        if self.has_clipboard && self.client.info.features.clipboard {
            out.push(Task::ReadText);
        }
        assert(out@ =~= old(out)@ + self.text_task());
    }

    fn poll_clipboard_image(&self, out: &mut Vec<Task>)
        ensures
            final(out)@ == old(out)@ + self.image_task(),
    {
        if self.client.info.features.clipboard_image && self.has_clipboard {
            out.push(Task::ReadImage);
        }
        assert(out@ =~= old(out)@ + self.image_task());
    }

    /// While the window has the focus, the local clipboard is looked at from
    /// time to time.
    pub open spec fn clipboard_step(self, now: u64) -> (App, Seq<Task>) {
        if self.focused && time::since(now, self.last_clipboard_poll) >= CLIPBOARD_POLL {
            (App { last_clipboard_poll: now, ..self }, self.text_task() + self.image_task())
        } else {
            (self, idle())
        }
    }

    fn keep_clipboard(&mut self, now: u64, out: &mut Vec<Task>)
        ensures
            *final(self) == old(self).clipboard_step(now).0,
            final(out)@ == old(out)@ + old(self).clipboard_step(now).1,
    {
        if self.focused && time::elapsed(now, self.last_clipboard_poll) >= CLIPBOARD_POLL {
            self.last_clipboard_poll = now;
            self.poll_clipboard(out);
            self.poll_clipboard_image(out);
        }
        assert(out@ =~= old(out)@ + old(self).clipboard_step(now).1);
    }

    /// The title is refreshed from time to time.
    pub open spec fn title_step(self, now: u64) -> (App, Seq<Task>) {
        if time::since(now, self.last_title_update) >= TITLE_INTERVAL {
            (App { last_title_update: now, ..self }, self.for_window(Task::Title))
        } else {
            (self, idle())
        }
    }

    fn keep_title(&mut self, now: u64, out: &mut Vec<Task>)
        ensures
            *final(self) == old(self).title_step(now).0,
            final(out)@ == old(out)@ + old(self).title_step(now).1,
    {
        if time::elapsed(now, self.last_title_update) >= TITLE_INTERVAL {
            self.last_title_update = now;
            self.tell_window(out, Task::Title);
        }
        assert(out@ =~= old(out)@ + old(self).title_step(now).1);
    }

    /// A link that stops answering, or starts again, shows the bar for a
    /// moment: it is the one status change a user needs to see without having
    /// gone looking for it.
    pub open spec fn link_step(self, now: u64) -> App {
        if (self.stall(now) is None) != self.link_ok {
            App {
                link_ok: !self.link_ok,
                overlay: Overlay {
                    flash_until: Some(time::later(now, overlay::FLASH)),
                    ..self.overlay
                },
                ..self
            }
        } else {
            self
        }
    }

    fn keep_link(&mut self, now: u64)
        ensures
            *final(self) == old(self).link_step(now),
    {
        let ok = self.stalled_for(now).is_none();
        if ok != self.link_ok {
            self.link_ok = ok;
            self.overlay.flash(now);
        }
    }

    /// The bar came or went. The bar covers remote pixels, so both are a full
    /// repaint. Where it went away under a stationary pointer, the pointer is
    /// handed back rather than left where the session cannot see it.
    pub open spec fn bar_moved(self) -> (App, Seq<Task>) {
        if !self.overlay.visible && self.pointer_on_bar {
            (
                App {
                    full_redraw: true,
                    pointer_on_bar: false,
                    bar_press: false,
                    ..self.asked()
                },
                self.for_window(Task::ShowPointer(self.system_pointer())) + self.for_window(
                    Task::Redraw,
                ),
            )
        } else {
            (App { full_redraw: true, ..self.asked() }, self.for_window(Task::Redraw))
        }
    }

    fn move_bar(&mut self, out: &mut Vec<Task>)
        ensures
            *final(self) == old(self).bar_moved().0,
            final(out)@ == old(out)@ + old(self).bar_moved().1,
    {
        self.full_redraw = true;
        if !self.overlay.visible() && self.pointer_on_bar {
            self.pointer_on_bar = false;
            self.bar_press = false;
            self.restore_cursor(out);
        }
        self.ask_redraw(out);
        assert(out@ =~= old(out)@ + old(self).bar_moved().1);
    }

    /// A bar that stays is repainted from time to time: what it says changes.
    pub open spec fn bar_stayed(self, now: u64) -> (App, Seq<Task>) {
        if self.overlay.visible && time::since(now, self.last_overlay_frame) >= OVERLAY_TICK {
            (App { last_overlay_frame: now, ..self.asked() }, self.for_window(Task::Redraw))
        } else {
            (self, idle())
        }
    }

    fn repaint_bar(&mut self, now: u64, out: &mut Vec<Task>)
        ensures
            *final(self) == old(self).bar_stayed(now).0,
            final(out)@ == old(out)@ + old(self).bar_stayed(now).1,
    {
        if self.overlay.visible() && time::elapsed(now, self.last_overlay_frame) >= OVERLAY_TICK {
            self.last_overlay_frame = now;
            self.ask_redraw(out);
        }
        assert(out@ =~= old(out)@ + old(self).bar_stayed(now).1);
    }

    /// The bar shows, hides or repaints.
    pub open spec fn bar_step(self, now: u64) -> (App, Seq<Task>) {
        let ticked = App { overlay: self.overlay.ticked(now), ..self };
        if self.overlay.wanted(now) != self.overlay.visible {
            ticked.bar_moved()
        } else {
            ticked.bar_stayed(now)
        }
    }

    fn keep_bar(&mut self, now: u64, out: &mut Vec<Task>)
        ensures
            *final(self) == old(self).bar_step(now).0,
            final(out)@ == old(out)@ + old(self).bar_step(now).1,
    {
        if self.overlay.tick(now) {
            self.move_bar(out);
        } else {
            self.repaint_bar(now, out);
        }
    }

    /// What is to do because time has passed.
    pub open spec fn chores(self, now: u64) -> (App, Seq<Task>) {
        let (a, resizing) = self.resize_step(now);
        let (b, probing) = a.ping_step(now);
        let (c, reading) = b.clipboard_step(now);
        let (d, titling) = c.title_step(now);
        let (e, showing) = d.link_step(now).bar_step(now);
        (e, resizing + probing + reading + titling + showing)
    }

    /// Do what is to do because time has passed.
    pub fn housekeeping(&mut self, now: u64) -> (tasks: Vec<Task>)
        ensures
            *final(self) == old(self).chores(now).0,
            tasks@ == old(self).chores(now).1,
    {
        let mut tasks: Vec<Task> = Vec::new();
        self.keep_size(now, &mut tasks);
        self.keep_probing(now, &mut tasks);
        self.keep_clipboard(now, &mut tasks);
        self.keep_title(now, &mut tasks);
        self.keep_link(now);
        self.keep_bar(now, &mut tasks);
        assert(tasks@ =~= old(self).chores(now).1);
        tasks
    }

    /// A repaint is asked for where one is owed.
    pub fn about_to_wait(&mut self) -> (tasks: Vec<Task>)
        ensures
            (*final(self), tasks@) == if old(self).dirty is Some || old(self).full_redraw {
                (old(self).asked(), old(self).for_window(Task::Redraw))
            } else {
                (*old(self), idle())
            },
    {
        let mut tasks: Vec<Task> = Vec::new();
        if self.dirty.is_some() || self.full_redraw {
            self.ask_redraw(&mut tasks);
        }
        tasks
    }

    /// How long the window may sleep.
    pub open spec fn sleep(self) -> u64 {
        let d = if self.pending_size is Some {
            time::shorter(LONGEST_SLEEP, (resize::RESIZE_DEBOUNCE / 2) as u64)
        } else {
            LONGEST_SLEEP
        };
        if self.overlay.visible {
            time::shorter(d, OVERLAY_TICK)
        } else {
            d
        }
    }

    /// How long the window may sleep.
    pub fn next_wake(&self) -> (d: u64)
        ensures
            d == self.sleep(),
    {
        let mut d: u64 = LONGEST_SLEEP;
        if self.pending_size.is_some() {
            d = time::min_span(d, resize::RESIZE_DEBOUNCE / 2);
        }
        if self.overlay.visible() {
            d = time::min_span(d, OVERLAY_TICK);
        }
        d
    }

    /// Whether a text on the local clipboard is one the session should hear of.
    pub open spec fn text_news(self, t: Seq<char>) -> bool {
        t.len() > 0 && !(self.last_clipboard matches Some(last) && last@ == t)
    }

    /// What a look at the text on the local clipboard comes to: a text that is
    /// new is remembered, and sent where the protocol holds it.
    pub open spec fn told_text(self, t: String, after: App, m: Option<Message>) -> bool {
        if self.text_news(t@) {
            &&& after == (App { last_clipboard: Some(t), ..self })
            &&& m == if text::byte_len(t@) <= MAX_CLIPBOARD_TEXT {
                Some(Message::ClipboardText { text: t })
            } else {
                None
            }
        } else {
            after == self && m is None
        }
    }

    /// Whether an image on the local clipboard is one the session should hear
    /// of.
    pub open spec fn image_news(self, bytes: Seq<u8>) -> bool {
        self.last_image != Some(screen::digest(bytes))
    }

    /// The text on the local clipboard is this. It is sent where it is news and
    /// not too long.
    pub fn clipboard_text(&mut self, t: String) -> (m: Option<Message>)
        ensures
            old(self).told_text(t, *final(self), m),
            if old(self).text_news(t@) {
                &&& *final(self) == (App { last_clipboard: Some(t), ..*old(self) })
                &&& m == if text::byte_len(t@) <= MAX_CLIPBOARD_TEXT {
                    Some(Message::ClipboardText { text: t })
                } else {
                    None
                }
            } else {
                *final(self) == *old(self) && m is None
            },
    {
        let known = match &self.last_clipboard {
            Some(last) => text::same(last.as_str(), t.as_str()),
            None => false,
        };
        let v = text::chars_of(t.as_str());
        if v.len() == 0 || known {
            return None;
        }
        let m = if text::bytes_in(t.as_str()) <= MAX_CLIPBOARD_TEXT {
            Some(Message::ClipboardText { text: t.clone() })
        } else {
            None
        };
        self.last_clipboard = Some(t);
        m
    }

    /// The image on the local clipboard is this. It is offered where it is news
    /// and can be encoded.
    pub fn clipboard_image(&mut self, width: usize, height: usize, bytes: Vec<u8>) -> (m: Option<
        Message,
    >)
        ensures
            ({
                let seen = screen::digest(bytes@);
                let sound = 0 < width <= u32::MAX && 0 < height <= u32::MAX && bytes@.len() == width
                    * height * 4;
                if !old(self).image_news(bytes@) {
                    *final(self) == *old(self) && m is None
                } else if sound && old(self).client.info.features.clipboard_image {
                    &&& m == Some(
                        Message::ClipboardOffer {
                            formats: proto::Formats { png: true, files: false },
                        },
                    )
                    &&& final(self).client.pending_image matches Some(png) && imageclip::encodes(
                        png@,
                        width as u32,
                        height as u32,
                        bytes@,
                    )
                    &&& *final(self) == (App {
                        last_image: Some(seen),
                        client: Client {
                            pending_image: final(self).client.pending_image,
                            ..old(self).client
                        },
                        ..*old(self)
                    })
                } else {
                    *final(self) == (App { last_image: Some(seen), ..*old(self) }) && m is None
                }
            }),
    {
        let digest: u64 = screen::image_digest(bytes.as_slice());
        match self.last_image {
            Some(last) => {
                if last == digest {
                    return None;
                }
            },
            None => {},
        }
        self.last_image = Some(digest);
        let image = match Rgba::new(width, height, bytes) {
            Ok(image) => image,
            Err(_) => {
                return None;
            },
        };
        proof {
            imageclip::lemma_encodable(image);
        }
        match imageclip::encode_png(&image) {
            Ok(png) => self.client.offer_clipboard_image(png),
            Err(_) => None,
        }
    }
}

// ---------------------------------------------------------------------------
// Laws
// ---------------------------------------------------------------------------

/// A text the session put on the local clipboard is not sent back to it.
pub proof fn law_received_text_is_not_sent_back(
    app: App,
    t: String,
    after: App,
    tasks: Seq<Task>,
)
    requires
        app.took_text(t, after, tasks),
        tasks.len() > 0,
    ensures
        tasks == seq![Task::SetText(t)],
        !after.text_news(t@),
{
}

/// An image the session put on the local clipboard is not offered back to it.
pub proof fn law_received_image_is_not_offered_back(
    app: App,
    png: Seq<u8>,
    after: App,
    tasks: Seq<Task>,
    image: Rgba,
)
    requires
        app.took_image(png, after, tasks),
        tasks.contains(Task::SetImage(image)),
    ensures
        !after.image_news(image.bytes@),
{
}

/// A bar that hides does not keep the pointer: after housekeeping the pointer
/// is on the bar only where the bar shows.
pub proof fn law_hidden_bar_lets_go(app: App, now: u64)
    requires
        app.pointer_on_bar ==> app.overlay.visible,
    ensures
        app.chores(now).0.pointer_on_bar ==> app.chores(now).0.overlay.visible,
{
    let (a, _) = app.resize_step(now);
    let (b, _) = a.ping_step(now);
    let (c, _) = b.clipboard_step(now);
    let (d, _) = c.title_step(now);
    let e = d.link_step(now);
    assert(e.pointer_on_bar == app.pointer_on_bar);
    assert(e.overlay.visible == app.overlay.visible);
}

/// Housekeeping asks the remote screen for a size at most once per resize: the
/// request that was held back is gone afterwards.
pub proof fn law_resize_is_asked_once(app: App, now: u64, later: u64)
    requires
        app.pending_size is Some,
        app.last_resize_event matches Some(t) && time::since(now, t) >= resize::RESIZE_DEBOUNCE,
    ensures
        app.chores(now).0.pending_size is None,
        app.chores(now).0.resize_step(later).1 == idle(),
{
    let (a, _) = app.resize_step(now);
    assert(a.pending_size is None);
    let (b, _) = a.ping_step(now);
    let (c, _) = b.clipboard_step(now);
    let (d, _) = c.title_step(now);
    let e = d.link_step(now);
    assert(e.pending_size is None);
}

/// A window with a resize held back wakes soon enough to ask for it in time,
/// and one with the bar up soon enough to keep its figures fresh.
pub proof fn law_wakes_in_time(app: App)
    ensures
        app.sleep() <= LONGEST_SLEEP,
        app.pending_size is Some ==> app.sleep() <= resize::RESIZE_DEBOUNCE / 2,
        app.overlay.visible ==> app.sleep() <= OVERLAY_TICK,
{
}

// ---------------------------------------------------------------------------
// Laws of the clipboard
// ---------------------------------------------------------------------------

/// A text on the local clipboard that is not empty, not too long and not the
/// last one that was seen is sent to the session as it is, whatever the two have
/// in common; the same text is not, and is not sent a second time.
pub proof fn law_new_text_is_sent(app: App, t: String, after: App, m: Option<Message>)
    requires
        app.told_text(t, after, m),
    ensures
        ({
            let seen = match app.last_clipboard {
                Some(last) => last@ == t@,
                None => false,
            };
            let bytes = vstd::utf8::encode_utf8(t@).len();
            &&& t@.len() > 0 && !seen && bytes <= 4_194_304 ==> m == Some(
                Message::ClipboardText { text: t },
            )
            &&& t@.len() == 0 || seen || bytes > 4_194_304 ==> m is None
            &&& t@.len() > 0 && !seen ==> after == (App { last_clipboard: Some(t), ..app })
            &&& t@.len() == 0 || seen ==> after == app
        }),
{
}

/// Two looks that find different texts send both, and two that find the same
/// send it once.
pub proof fn law_each_text_is_sent_once(
    app: App,
    first: String,
    second: String,
    between: App,
    after: App,
    a: Option<Message>,
    b: Option<Message>,
)
    requires
        app.told_text(first, between, a),
        between.told_text(second, after, b),
        a is Some,
    ensures
        first@ == second@ ==> b is None && after == between,
        first@ != second@ && second@.len() > 0 && vstd::utf8::encode_utf8(second@).len()
            <= 4_194_304 ==> b == Some(Message::ClipboardText { text: second }),
{
}

/// An image on the local clipboard is news unless it has the digest of the last
/// one that was seen, so the same image is not offered twice.
pub proof fn law_new_image_is_news(app: App, bytes: Seq<u8>)
    ensures
        app.last_image is None ==> app.image_news(bytes),
        app.last_image == Some(screen::digest(bytes)) ==> !app.image_news(bytes),
        app.last_image is Some && app.last_image != Some(screen::digest(bytes)) ==> app.image_news(
            bytes,
        ),
{
}

/// A text of the session goes onto the local clipboard as it is, where there is
/// one.
pub proof fn law_text_of_the_session_is_pasted(app: App, t: String, after: App, tasks: Seq<Task>)
    requires
        app.took_text(t, after, tasks),
    ensures
        app.has_clipboard ==> tasks == seq![Task::SetText(t)] && after.last_clipboard == Some(t),
        !app.has_clipboard ==> tasks.len() == 0 && after == app,
{
}

/// An image of the session goes onto the local clipboard pixel for pixel, where
/// there is one and the image can be decoded, and nothing does where not.
pub proof fn law_image_of_the_session_is_pasted(
    app: App,
    png: Seq<u8>,
    after: App,
    tasks: Seq<Task>,
    w: u32,
    h: u32,
    bytes: Seq<u8>,
)
    requires
        app.took_image(png, after, tasks),
    ensures
        ({
            let found = imageclip::decoded(
                imageclip::png_size(png, imageclip::NORMALISED),
                imageclip::png_picture(png, imageclip::NORMALISED),
            );
            &&& app.has_clipboard && found == Ok::<(u32, u32, Seq<u8>), Seq<char>>((w, h, bytes))
                ==> tasks.len() == 1 && (tasks[0] matches Task::SetImage(image) && image.width == w
                && image.height == h && image.bytes@ == bytes)
            &&& !app.has_clipboard || found is Err ==> tasks.len() == 0 && after == app
        }),
{
}

/// Files copied in the session are offered together, in the order they arrived,
/// once the last of them has: not before, and none where none was asked for.
pub proof fn law_files_are_offered_together(app: App, path: String, after: App, tasks: Seq<Task>)
    requires
        app.staged(after, path, tasks),
    ensures
        app.clipboard_pending == 0 ==> tasks.len() == 0 && after == app,
        app.clipboard_pending > 0 ==> after.clipboard_pending == app.clipboard_pending - 1,
        app.clipboard_pending > 1 ==> tasks.len() == 0 && after.clipboard_files@.len()
            == app.clipboard_files@.len() + 1 && after.clipboard_files@.last() == path && (forall|
            i: int,
        |
            0 <= i < app.clipboard_files@.len() ==> #[trigger] after.clipboard_files@[i]
                == app.clipboard_files@[i]),
        app.clipboard_pending == 1 ==> after.clipboard_files@.len() == 0 && tasks.len() == 1 && (
        tasks[0] matches Task::Publish(files) && files@.len() == app.clipboard_files@.len() + 1
            && files@.last() == path && forall|i: int|
            0 <= i < app.clipboard_files@.len() ==> #[trigger] files@[i]
                == app.clipboard_files@[i]),
{
}

/// The local clipboard is looked at while the window has the focus, every seven
/// tenths of a second: its text where the session takes texts, and its image
/// where the session takes images.
pub proof fn law_clipboard_is_looked_at(app: App, now: u64)
    requires
        app.last_clipboard_poll <= now,
    ensures
        ({
            let (after, tasks) = app.clipboard_step(now);
            let due = app.focused && now - app.last_clipboard_poll >= 700_000_000;
            let text = app.has_clipboard && app.client.info.features.clipboard;
            let image = app.has_clipboard && app.client.info.features.clipboard_image;
            &&& !due ==> after == app && tasks.len() == 0
            &&& due ==> after == (App { last_clipboard_poll: now, ..app })
            &&& due && text && image ==> tasks == seq![Task::ReadText, Task::ReadImage]
            &&& due && text && !image ==> tasks == seq![Task::ReadText]
            &&& due && !text && image ==> tasks == seq![Task::ReadImage]
            &&& due && !text && !image ==> tasks.len() == 0
        }),
{
    let tasks = app.clipboard_step(now).1;
    assert(tasks =~= app.text_task() + app.image_task() || tasks.len() == 0);
    if app.text_task().len() == 1 && app.image_task().len() == 1 {
        assert(app.text_task() + app.image_task() =~= seq![Task::ReadText, Task::ReadImage]);
    }
    assert(app.text_task() + Seq::<Task>::empty() =~= app.text_task());
    assert(Seq::<Task>::empty() + app.image_task() =~= app.image_task());
}

// ---------------------------------------------------------------------------
// Laws of events
// ---------------------------------------------------------------------------

/// A frame is one more frame, its area is repainted with what already waits to
/// be, and a repaint is asked for.
pub proof fn law_frame_is_repainted(
    app: App,
    frame_id: u64,
    dirty: Rect,
    window: (u32, u32),
    now: u64,
    px: int,
    py: int,
)
    requires
        0 <= px < u32::MAX,
        0 <= py < u32::MAX,
    ensures
        ({
            let (after, tasks) = app.event_step(
                ClientEvent::Frame { frame_id, dirty },
                window,
                now,
            );
            &&& app.frames < u64::MAX ==> after.frames == app.frames + 1
            &&& app.has_window ==> tasks == seq![Task::Redraw] && after.redraw_asked
            &&& !app.has_window ==> tasks.len() == 0
            &&& dirty.x <= px && px < dirty.x + dirty.width && dirty.y <= py && py < dirty.y
                + dirty.height ==> (after.dirty matches Some(r) && r.holds(px, py))
            &&& app.dirty matches Some(d) ==> (d.x <= px && px < d.x + d.width && d.y <= py && py
                < d.y + d.height ==> (after.dirty matches Some(r) && r.holds(px, py)))
            &&& app.dirty is None ==> after.dirty == Some(dirty)
        }),
{
    match app.dirty {
        Some(d) => {
            if d.holds(px, py) || dirty.holds(px, py) {
                Rect::law_union_pixels(d, dirty, px, py);
            }
        },
        None => {},
    }
}

/// A screen of a new size is repainted whole, and the window follows it unless
/// it is full screen or has that size already.
pub proof fn law_window_follows_the_screen(
    app: App,
    width: u32,
    height: u32,
    window: (u32, u32),
    now: u64,
)
    ensures
        ({
            let (after, tasks) = app.event_step(ClientEvent::Resized { width, height }, window, now);
            &&& after.full_redraw
            &&& app.has_window && !app.fullscreen && (window.0 != width || window.1 != height)
                ==> tasks == seq![Task::ResizeWindow { width, height }, Task::Title, Task::Redraw]
            &&& app.has_window && (app.fullscreen || (window.0 == width && window.1 == height))
                ==> tasks == seq![Task::Title, Task::Redraw]
            &&& !app.has_window ==> tasks.len() == 0
        }),
{
    let tasks = app.event_step(ClientEvent::Resized { width, height }, window, now).1;
    if app.has_window {
        if !app.fullscreen && (window.0 != width || window.1 != height) {
            assert(tasks =~= seq![
                Task::ResizeWindow { width, height },
                Task::Title,
                Task::Redraw,
            ]);
        } else {
            assert(tasks =~= seq![Task::Title, Task::Redraw]);
        }
    }
}

/// The pointer takes the shape and the place that the session says, a round trip
/// is remembered with the moment it was heard, and a connection that ended ends
/// the window with its reason.
pub proof fn law_session_is_followed(
    app: App,
    c: CursorImage,
    x: u16,
    y: u16,
    rtt: u64,
    reason: String,
    window: (u32, u32),
    now: u64,
)
    ensures
        app.event_step(ClientEvent::Cursor(c), window, now).0.cursor == Some(c),
        app.has_window ==> app.event_step(ClientEvent::Cursor(c), window, now).1 == seq![
            Task::ShowPointer(false),
            Task::Redraw,
        ],
        app.event_step(ClientEvent::CursorPosition(x, y), window, now).0.pointer == Some(
            (x as u32, y as u32),
        ),
        app.event_step(ClientEvent::Rtt(rtt), window, now).0.rtt == Some(rtt),
        app.event_step(ClientEvent::Rtt(rtt), window, now).0.last_pong == Some(now),
        app.event_step(ClientEvent::Disconnected(reason), window, now).0.exit_reason == Some(
            reason,
        ),
        app.event_step(ClientEvent::Disconnected(reason), window, now).1 == seq![Task::Exit],
{
    if app.has_window {
        assert(app.event_step(ClientEvent::Cursor(c), window, now).1 =~= seq![
            Task::ShowPointer(false),
            Task::Redraw,
        ]);
    }
}

/// An upload that ended is no longer counted, and every other is, in its order.
pub proof fn law_only_that_upload_ends(uploads: Seq<(u64, String)>, id: u64, one: (u64, String))
    ensures
        unfinished(Seq::empty(), id) == Seq::<(u64, String)>::empty(),
        one.0 == id ==> unfinished(seq![one] + uploads, id) == unfinished(uploads, id),
        one.0 != id ==> unfinished(seq![one] + uploads, id) == seq![one] + unfinished(uploads, id),
{
    let all = seq![one] + uploads;
    assert(all[0] == one);
    assert(all.skip(1) =~= uploads);
}

// ---------------------------------------------------------------------------
// Laws of time
// ---------------------------------------------------------------------------

/// A size the window has kept for a fifth of a second is asked of the session as
/// it is, unless the screen has it or a side is too small; sooner nothing is.
pub proof fn law_settled_window_is_asked_for(app: App, now: u64, at: u64, w: u32, h: u32)
    requires
        app.pending_size == Some((w, h)),
        app.last_resize_event == Some(at),
        at <= now,
        w <= 65535,
        h <= 65535,
    ensures
        ({
            let (after, tasks) = app.resize_step(now);
            let ask = (w != app.client.width || h != app.client.height) && w >= 64 && h >= 64;
            &&& now - at < 200_000_000 ==> after == app && tasks.len() == 0
            &&& now - at >= 200_000_000 ==> after.pending_size is None && after.last_resize_event
                is None
            &&& now - at >= 200_000_000 && ask ==> tasks == seq![
                Task::Send(Message::ResizeRequest { width: w as u16, height: h as u16 }),
            ]
            &&& now - at >= 200_000_000 && !ask ==> tasks.len() == 0
        }),
{
    resize::law_settled_size_is_asked(
        resize::ResizeSync { pending: Some((at, (w, h))), correction: None },
        at,
        (w, h),
        now,
    );
}

/// The session is probed every three seconds, with a number it was not probed
/// with last; the title is refreshed every second.
pub proof fn law_session_is_probed(app: App, now: u64)
    requires
        app.last_ping <= now,
        app.last_title_update <= now,
    ensures
        now - app.last_ping < 3_000_000_000 ==> app.ping_step(now).1.len() == 0 && app.ping_step(
            now,
        ).0 == app,
        now - app.last_ping >= 3_000_000_000 ==> app.ping_step(now).0.last_ping == now
            && app.ping_step(now).1.len() == 1 && (app.ping_step(now).1[0] matches Task::Send(m)
            && m matches Message::Ping { nonce } && app.ping_step(now).0.client.last_ping == Some(
            (nonce, now),
        )),
        now - app.last_title_update < 1_000_000_000 ==> app.title_step(now).1.len() == 0,
        now - app.last_title_update >= 1_000_000_000 && app.has_window ==> app.title_step(now).1
            == seq![Task::Title] && app.title_step(now).0.last_title_update == now,
{
}

/// A link that has been silent for more than six seconds is stalled for as long
/// as it has been; the bar shows itself for a moment when a link stalls and when
/// it answers again, and at no other time.
pub proof fn law_stalled_link_is_shown(app: App, now: u64)
    requires
        app.started <= now,
        app.last_pong matches Some(at) ==> at <= now,
    ensures
        ({
            let heard = match app.last_pong {
                Some(at) => at,
                None => app.started,
            };
            let stalled = now - heard > 6_000_000_000;
            &&& stalled ==> app.stall(now) == Some((now - heard) as u64)
            &&& !stalled ==> app.stall(now) is None
            &&& stalled == !app.link_ok ==> app.link_step(now) == app
            &&& stalled != !app.link_ok ==> app.link_step(now).link_ok == !stalled && app.link_step(
                now,
            ).overlay.flash_until == Some(time::later(now, overlay::FLASH))
        }),
{
}

/// A bar that came or went is repainted with everything, one that stays is
/// repainted ten times a second while it shows, and one that is hidden is not.
pub proof fn law_bar_is_repainted(app: App, now: u64)
    requires
        app.last_overlay_frame <= now,
    ensures
        app.bar_moved().0.full_redraw,
        app.has_window ==> app.bar_moved().1.contains(Task::Redraw),
        !app.overlay.visible ==> !app.bar_moved().0.pointer_on_bar,
        !app.overlay.visible && app.pointer_on_bar && app.has_window ==> app.bar_moved().1[0]
            == Task::ShowPointer(!(app.client.info.features.local_cursor && app.cursor is Some)),
        app.overlay.visible && now - app.last_overlay_frame >= 100_000_000 && app.has_window
            ==> app.bar_stayed(now).1 == seq![Task::Redraw],
        !app.overlay.visible || now - app.last_overlay_frame < 100_000_000 ==> app.bar_stayed(
            now,
        ).1.len() == 0 && app.bar_stayed(now).0 == app,
{
    if app.has_window {
        let tasks = app.bar_moved().1;
        assert(tasks[tasks.len() - 1] == Task::Redraw);
    }
}

/// Time that passes brings each of these in its turn, and what each asks for is
/// done.
pub proof fn law_every_chore_is_done(app: App, now: u64)
    ensures
        ({
            let a = app.resize_step(now);
            let b = a.0.ping_step(now);
            let c = b.0.clipboard_step(now);
            let d = c.0.title_step(now);
            let e = d.0.link_step(now).bar_step(now);
            app.chores(now) == (e.0, a.1 + b.1 + c.1 + d.1 + e.1)
        }),
{
}

/// A window sleeps a quarter of a second where nothing is near, a tenth while
/// the bar shows or a size waits to be asked for.
pub proof fn law_sleep_is_short(app: App)
    ensures
        app.pending_size is None && !app.overlay.visible ==> app.sleep() == 250_000_000,
        app.pending_size is Some || app.overlay.visible ==> app.sleep() == 100_000_000,
{
}

/// A bar that has to come or go does, and the window is drawn whole; one that
/// stays as it is is drawn again only for what it says.
pub proof fn law_bar_comes_and_goes(app: App, now: u64)
    requires
        app.last_overlay_frame <= now,
    ensures
        app.bar_step(now).0.overlay.visible == app.overlay.wanted(now),
        app.overlay.wanted(now) != app.overlay.visible ==> app.bar_step(now).0.full_redraw && (
        app.has_window ==> app.bar_step(now).1.contains(Task::Redraw)),
        app.overlay.wanted(now) == app.overlay.visible && !app.overlay.visible ==> app.bar_step(
            now,
        ).1.len() == 0 && app.bar_step(now).0.full_redraw == app.full_redraw,
{
    let ticked = App { overlay: app.overlay.ticked(now), ..app };
    if app.overlay.wanted(now) != app.overlay.visible && app.has_window {
        law_bar_is_repainted(ticked, now);
    }
}

/// How often things are done: the clipboard is looked at every seven tenths of a
/// second, the server probed every three seconds and stalled after six, the bar
/// drawn ten times and the title written once a second; a text of more than four
/// mebibytes stays where it is.
pub proof fn law_session_keeps_its_times()
    ensures
        CLIPBOARD_POLL == 700_000_000,
        PING_INTERVAL == 3_000_000_000,
        STALL_AFTER == 6_000_000_000,
        OVERLAY_TICK == 100_000_000,
        TITLE_INTERVAL == 1_000_000_000,
        LONGEST_SLEEP == 250_000_000,
        MAX_CLIPBOARD_TEXT == 4 * 1024 * 1024,
{
}

} // verus!
