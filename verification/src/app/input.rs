//! What a session window does with input.

use vstd::prelude::*;

use crate::app::keys;
use crate::app::keys::{Accelerator, KeyEvent, KeyOutcome, MouseButton};
use crate::app::screen;
use crate::app::session;
use crate::app::session::{App, Task, WindowEvent};
use crate::overlay;
use crate::overlay::{Action, Overlay};
use crate::proto;
use crate::proto::keysym as ks;
use crate::proto::Message;
use crate::text;
use crate::time;

verus! {

impl App {
    /// The state once fullscreen was entered or left.
    pub open spec fn toggled(self) -> (App, Seq<Task>) {
        if self.has_window {
            (
                App { fullscreen: !self.fullscreen, ..self },
                seq![Task::Fullscreen(!self.fullscreen)],
            )
        } else {
            (self, session::idle())
        }
    }

    /// Enter or leave fullscreen.
    pub fn toggle_fullscreen(&mut self) -> (tasks: Vec<Task>)
        ensures
            (*final(self), tasks@) == old(self).toggled(),
    {
        let mut tasks: Vec<Task> = Vec::new();
        if self.has_window {
            self.fullscreen = !self.fullscreen;
            tasks.push(Task::Fullscreen(self.fullscreen));
        }
        assert(tasks@ =~= old(self).toggled().1);
        tasks
    }

    /// Send Ctrl+Alt+Del into the session.
    pub fn send_secure_attention(&self) -> (tasks: Vec<Task>)
        ensures
            tasks@ == session::sends(keys::attention(self.keyboard@.pressed)),
    {
        let mut tasks: Vec<Task> = Vec::new();
        session::push_sends(&mut tasks, self.keyboard.secure_attention());
        assert(tasks@ =~= session::sends(keys::attention(self.keyboard@.pressed)));
        tasks
    }

    /// What a bar button asks, but for leaving the session.
    pub open spec fn action_step(self, action: Action) -> (App, Seq<Task>) {
        match action {
            Action::Transfers => (self, seq![Task::OpenTransfers]),
            Action::Fullscreen => self.toggled(),
            Action::SecureAttention => (self, session::sends(keys::attention(self.keyboard@.pressed))),
            Action::Disconnect => (self, seq![Task::Exit]),
        }
    }

    /// `after` and `tasks` are what a bar button leads to.
    pub open spec fn acted(self, action: Action, after: App, tasks: Seq<Task>) -> bool {
        &&& tasks == self.action_step(action).1
        &&& if action is Disconnect {
            &&& after == (App { exit_reason: after.exit_reason, ..self })
            &&& after.exit_reason matches Some(r) && r@ == "disconnected by the user"@
        } else {
            after == self.action_step(action).0
        }
    }

    /// Do what a bar button or its accelerator asks.
    pub fn run_overlay_action(&mut self, action: Action) -> (tasks: Vec<Task>)
        ensures
            old(self).acted(action, *final(self), tasks@),
    {
        match action {
            Action::Transfers => {
                let mut tasks: Vec<Task> = Vec::new();
                tasks.push(Task::OpenTransfers);
                tasks
            },
            Action::Fullscreen => self.toggle_fullscreen(),
            Action::SecureAttention => self.send_secure_attention(),
            // The same path a closed window takes, so there is one exit.
            Action::Disconnect => self.fail(text::copy("disconnected by the user")),
        }
    }

    /// `after` and `tasks` are what a key event leads to.
    pub open spec fn keyed(self, event: KeyEvent, after: App, tasks: Seq<Task>) -> bool {
        let (down, outcome) = keys::key_step(self.keyboard@, self.modifiers, event);
        let base = App { keyboard: after.keyboard, ..self };
        &&& after.keyboard@ == down
        &&& match outcome {
            KeyOutcome::Nothing => after == base && tasks == session::idle(),
            KeyOutcome::Bar(Accelerator::Fullscreen) => base.acted(
                Action::Fullscreen,
                after,
                tasks,
            ),
            KeyOutcome::Bar(Accelerator::SecureAttention) => base.acted(
                Action::SecureAttention,
                after,
                tasks,
            ),
            KeyOutcome::Bar(Accelerator::Disconnect) => base.acted(
                Action::Disconnect,
                after,
                tasks,
            ),
            KeyOutcome::Bar(Accelerator::Pin) => {
                &&& after == (App { overlay: after.overlay, ..base })
                &&& after.overlay == (Overlay {
                    pinned: !self.overlay.pinned,
                    flash_until: after.overlay.flash_until,
                    ..self.overlay
                })
                &&& tasks == session::idle()
            },
            KeyOutcome::Send { keysym, down: d } => {
                &&& after == base
                &&& tasks == seq![Task::Send(Message::KeyEvent { keysym, down: d })]
            },
        }
    }

    /// Take a key event.
    ///
    /// A closed list of keys stays with the window: a raw framebuffer has no
    /// focus model, so the bar cannot own keys the way a widget would, and
    /// every other key belongs to the session. Pinning and unpinning both flash
    /// the bar: one wants confirmation, the other a last look before it goes.
    #[verifier::rlimit(40)]
    pub fn on_key(&mut self, event: &KeyEvent, now: u64) -> (tasks: Vec<Task>)
        ensures
            old(self).keyed(*event, *final(self), tasks@),
            keys::key_step(old(self).keyboard@, old(self).modifiers, *event).1 == KeyOutcome::Bar(
                Accelerator::Pin,
            ) ==> final(self).overlay.flash_until == Some(time::later(now, overlay::FLASH)),
            old(self).keyboard.wf() ==> final(self).keyboard.wf(),
    {
        let outcome = self.keyboard.on_key(self.modifiers, event);
        let mut tasks: Vec<Task> = Vec::new();
        match outcome {
            KeyOutcome::Nothing => {},
            KeyOutcome::Bar(acc) => match acc {
                Accelerator::Fullscreen => {
                    return self.run_overlay_action(Action::Fullscreen);
                },
                Accelerator::SecureAttention => {
                    return self.run_overlay_action(Action::SecureAttention);
                },
                Accelerator::Disconnect => {
                    return self.run_overlay_action(Action::Disconnect);
                },
                Accelerator::Pin => {
                    let _ = self.overlay.toggle_pin();
                    self.overlay.flash(now);
                },
            },
            KeyOutcome::Send { keysym, down } => {
                tasks.push(Task::Send(Message::KeyEvent { keysym, down }));
            },
        }
        tasks
    }

    /// Let go of every key.
    fn release_all_keys(&mut self, out: &mut Vec<Task>)
        ensures
            final(out)@ == old(out)@ + session::sends(keys::releases(old(self).keyboard@.pressed)),
            final(self).keyboard@.pressed.len() == 0,
            final(self).keyboard@.swallowed.len() == 0,
            final(self).keyboard.wf(),
            *final(self) == (App { keyboard: final(self).keyboard, ..*old(self) }),
    {
        let m = self.keyboard.release_all();
        session::push_sends(out, m);
    }

    /// Where on the remote screen a pixel of the window is.
    pub open spec fn on_screen(self, x: u32, y: u32) -> (u32, u32) {
        (
            proto::min_of(x as int, proto::max_of(self.client.width - 1, 0)) as u32,
            proto::min_of(y as int, proto::max_of(self.client.height - 1, 0)) as u32,
        )
    }

    /// Whether the bar takes the pointer at that height. A drag that started on
    /// the remote screen keeps the pointer even when it crosses the top edge.
    pub open spec fn bar_takes(self, y: u32, s: u32) -> bool {
        self.remote_buttons == 0 && self.overlay.over_bar(y, s)
    }

    /// `after` and `tasks` are what a pointer motion leads to. `bar` is the
    /// bar's state by then.
    pub open spec fn moved(
        self,
        x: u32,
        y: u32,
        s: u32,
        bar: Overlay,
        after: App,
        tasks: Seq<Task>,
    ) -> bool {
        let base = App { overlay: bar, ..self };
        if self.bar_takes(y, s) {
            &&& after == (App { pointer_on_bar: true, ..base.asked() })
            &&& tasks == (if self.pointer_on_bar {
                session::idle()
            } else {
                self.for_window(Task::ShowPointer(true))
            }) + self.for_window(Task::Redraw)
        } else {
            (after, tasks) == base.pointed_at(x, y)
        }
    }

    /// Follow the pointer.
    ///
    /// Leaving the bar resyncs the session's pointer even when our idea of the
    /// position has not changed, because it has been moving under the bar
    /// without the session hearing about it.
    pub fn on_pointer_moved(&mut self, x: u32, y: u32, s: u32, now: u64) -> (tasks: Vec<Task>)
        requires
            s <= overlay::MAX_SCALE,
        ensures
            old(self).moved(x, y, s, final(self).overlay, *final(self), tasks@),
            old(self).barred(final(self).overlay, x, y, s, now),
    {
        if self.follow(x, y, s, now) {
            self.pointer_on_the_bar()
        } else {
            self.pointer_on_the_screen(x, y)
        }
    }

    /// Let the bar follow the pointer. Returns whether the bar takes it.
    fn follow(&mut self, x: u32, y: u32, s: u32, now: u64) -> (claimed: bool)
        requires
            s <= overlay::MAX_SCALE,
        ensures
            claimed == old(self).bar_takes(y, s),
            *final(self) == (App { overlay: final(self).overlay, ..*old(self) }),
            old(self).barred(final(self).overlay, x, y, s, now),
    {
        if self.remote_buttons == 0 {
            self.overlay.track(x, y, s, now)
        } else {
            false
        }
    }

    /// `bar` is the bar's state once the pointer was there.
    pub open spec fn barred(self, bar: Overlay, x: u32, y: u32, s: u32, now: u64) -> bool {
        if self.remote_buttons != 0 {
            bar == self.overlay
        } else {
            self.overlay.followed(bar, x, y, s, now)
        }
    }

    /// The pointer is handed back to the window system over our own controls:
    /// the drawn one is the session's.
    fn pointer_on_the_bar(&mut self) -> (tasks: Vec<Task>)
        ensures
            *final(self) == (App { pointer_on_bar: true, ..old(self).asked() }),
            tasks@ == (if old(self).pointer_on_bar {
                session::idle()
            } else {
                old(self).for_window(Task::ShowPointer(true))
            }) + old(self).for_window(Task::Redraw),
    {
        let mut tasks: Vec<Task> = Vec::new();
        if !self.pointer_on_bar {
            self.pointer_on_bar = true;
            self.tell_window(&mut tasks, Task::ShowPointer(true));
        }
        self.ask_redraw(&mut tasks);
        tasks
    }

    /// The state once the bar has not got the pointer any more.
    pub open spec fn off_bar(self) -> (App, Seq<Task>) {
        (
            App { pointer_on_bar: false, ..self },
            if self.pointer_on_bar {
                self.for_window(Task::ShowPointer(self.system_pointer()))
            } else {
                session::idle()
            },
        )
    }

    fn leave_bar(&mut self) -> (tasks: Vec<Task>)
        ensures
            (*final(self), tasks@) == old(self).off_bar(),
    {
        let mut tasks: Vec<Task> = Vec::new();
        if self.pointer_on_bar {
            self.pointer_on_bar = false;
            self.restore_cursor(&mut tasks);
        }
        assert(tasks@ =~= old(self).off_bar().1);
        tasks
    }

    /// The state once the pointer is there, and the session knows.
    pub open spec fn at(self, px: u32, py: u32) -> (App, Seq<Task>) {
        let there = App { pointer: Some((px, py)), ..self };
        let told = seq![Task::Send(Message::PointerMotion { x: px as u16, y: py as u16 })];
        if self.client.info.features.local_cursor {
            (there.asked(), told + self.for_window(Task::Redraw))
        } else {
            (there, told)
        }
    }

    fn point(&mut self, px: u32, py: u32, out: &mut Vec<Task>)
        ensures
            *final(self) == old(self).at(px, py).0,
            final(out)@ == old(out)@ + old(self).at(px, py).1,
    {
        self.pointer = Some((px, py));
        out.push(
            Task::Send(
                Message::PointerMotion {
                    x: #[verifier::truncate]
                    (px as u16),
                    y: #[verifier::truncate]
                    (py as u16),
                },
            ),
        );
        if self.client.info.features.local_cursor {
            self.ask_redraw(out);
        }
        assert(out@ =~= old(out)@ + old(self).at(px, py).1);
    }

    /// What a pointer motion over the remote screen does.
    pub open spec fn pointed_at(self, x: u32, y: u32) -> (App, Seq<Task>) {
        let (px, py) = self.on_screen(x, y);
        let (left, back) = self.off_bar();
        if self.pointer_on_bar || self.pointer != Some((px, py)) {
            (left.at(px, py).0, back + left.at(px, py).1)
        } else {
            (left, back)
        }
    }

    #[verifier::rlimit(40)]
    fn pointer_on_the_screen(&mut self, x: u32, y: u32) -> (tasks: Vec<Task>)
        ensures
            (*final(self), tasks@) == old(self).pointed_at(x, y),
    {
        let resync = self.pointer_on_bar;
        let mut tasks = self.leave_bar();
        let right: u32 = if self.client.width > 0 {
            self.client.width - 1
        } else {
            0
        };
        let bottom: u32 = if self.client.height > 0 {
            self.client.height - 1
        } else {
            0
        };
        let px: u32 = proto::min_u32(x, right);
        let py: u32 = proto::min_u32(y, bottom);
        assert((px, py) == old(self).on_screen(x, y));
        let there = match self.pointer {
            Some((a, b)) => a == px && b == py,
            None => false,
        };
        if resync || !there {
            self.point(px, py, &mut tasks);
        }
        tasks
    }

    /// Whether the wheel is the session's.
    pub fn takes_wheel(&self) -> (r: bool)
        ensures
            r == !self.pointer_on_bar,
    {
        !self.pointer_on_bar
    }

    /// `after` and `tasks` are what a button of the pointer leads to.
    ///
    /// A press that started on the bar owns its release wherever that lands, or
    /// the session would see a release it never saw a press for.
    pub open spec fn pressed(
        self,
        button: MouseButton,
        down: bool,
        after: App,
        tasks: Seq<Task>,
    ) -> bool {
        if !down && self.bar_press {
            self.let_go(after, tasks)
        } else if self.pointer_on_bar {
            if down && button == MouseButton::Left {
                &&& after == (App {
                    bar_press: true,
                    overlay: Overlay { armed: self.overlay.hover, ..self.overlay },
                    ..self.asked()
                })
                &&& tasks == self.for_window(Task::Redraw)
            } else {
                after == self && tasks == session::idle()
            }
        } else {
            match keys::codes_of(button) {
                Some((code, bit)) => {
                    &&& after == (App {
                        remote_buttons: keys::held_after(self.remote_buttons, bit, down),
                        ..self
                    })
                    &&& tasks == seq![Task::Send(Message::PointerButton { button: code, down })]
                },
                None => after == self && tasks == session::idle(),
            }
        }
    }

    /// Take a button of the pointer.
    pub fn on_button(&mut self, button: MouseButton, down: bool) -> (tasks: Vec<Task>)
        ensures
            old(self).pressed(button, down, *final(self), tasks@),
    {
        if !down && self.bar_press {
            return self.bar_released();
        }
        let mut tasks: Vec<Task> = Vec::new();
        if self.pointer_on_bar {
            if down && button == MouseButton::Left {
                self.bar_press = true;
                self.overlay.press();
                self.ask_redraw(&mut tasks);
            }
            return tasks;
        }
        match keys::button_codes(button) {
            Some((code, bit)) => {
                if down {
                    self.remote_buttons = self.remote_buttons | bit;
                } else {
                    self.remote_buttons = self.remote_buttons & !bit;
                }
                tasks.push(Task::Send(Message::PointerButton { button: code, down }));
            },
            None => {},
        }
        tasks
    }

    /// `after` and `tasks` are what letting go of the bar leads to.
    pub open spec fn let_go(self, after: App, tasks: Seq<Task>) -> bool {
        let base = App {
            bar_press: false,
            overlay: Overlay { armed: None, ..self.overlay },
            ..self
        };
        match self.overlay.completed() {
            Some(action) => {
                &&& tasks == base.action_step(action).1 + self.for_window(Task::Redraw)
                &&& if action is Disconnect {
                    &&& after == (App { exit_reason: after.exit_reason, ..base.asked() })
                    &&& after.exit_reason matches Some(r) && r@ == "disconnected by the user"@
                } else {
                    after == base.action_step(action).0.asked()
                }
            },
            None => after == base.asked() && tasks == self.for_window(Task::Redraw),
        }
    }

    fn bar_released(&mut self) -> (tasks: Vec<Task>)
        ensures
            old(self).let_go(*final(self), tasks@),
    {
        self.bar_press = false;
        let mut tasks: Vec<Task> = Vec::new();
        match self.overlay.release() {
            Some(action) => {
                tasks = self.run_overlay_action(action);
                self.ask_redraw(&mut tasks);
            },
            None => {
                self.ask_redraw(&mut tasks);
            },
        }
        tasks
    }

    /// The focus came or went.
    ///
    /// A key, a scroll remainder or a drag from before the window lost the
    /// focus is not part of whatever comes next: the releases may be delivered
    /// to whoever took the focus instead of to us.
    pub fn on_focus(&mut self, focused: bool) -> (tasks: Vec<Task>)
        ensures
            final(self).overlay == old(self).overlay.focused_as(focused),
            if focused {
                &&& *final(self) == (App {
                    focused: true,
                    overlay: final(self).overlay,
                    ..*old(self)
                })
                &&& tasks@ == old(self).text_task()
            } else {
                &&& *final(self) == (App {
                    focused: false,
                    overlay: final(self).overlay,
                    keyboard: final(self).keyboard,
                    remote_buttons: 0,
                    ..*old(self)
                })
                &&& final(self).keyboard@.pressed.len() == 0
                &&& final(self).keyboard@.swallowed.len() == 0
                &&& tasks@ == session::sends(keys::releases(old(self).keyboard@.pressed)).push(
                    Task::ForgetScroll,
                )
            },
    {
        let mut tasks: Vec<Task> = Vec::new();
        self.focused = focused;
        self.overlay.set_focused(focused);
        if focused {
            self.poll_clipboard(&mut tasks);
        } else {
            self.release_all_keys(&mut tasks);
            tasks.push(Task::ForgetScroll);
            self.remote_buttons = 0;
        }
        assert(tasks@ =~= if focused {
            old(self).text_task()
        } else {
            session::sends(keys::releases(old(self).keyboard@.pressed)).push(Task::ForgetScroll)
        });
        tasks
    }

    /// What an event of the window does, but for the focus, keys, the pointer
    /// and the closing of the window.
    pub open spec fn window_step(self, event: WindowEvent, now: u64) -> (App, Seq<Task>) {
        match event {
            WindowEvent::RedrawRequested => (
                App {
                    redraw_asked: false,
                    full_redraw: self.full_redraw || !self.redraw_asked,
                    ..self
                },
                seq![Task::Drain, Task::Paint],
            ),
            WindowEvent::Resized { width, height } => {
                let base = App { full_redraw: true, ..self.asked() };
                (
                    if self.opts.dynamic_resize && self.client.info.features.resize {
                        App {
                            pending_size: Some((width, height)),
                            last_resize_event: Some(now),
                            ..base
                        }
                    } else {
                        base
                    },
                    self.for_window(Task::Redraw),
                )
            },
            WindowEvent::ModifiersChanged(m) => (App { modifiers: m, ..self }, session::idle()),
            WindowEvent::CursorLeft => (
                App {
                    overlay: Overlay {
                        on_bar: false,
                        in_zone_since: None,
                        hover: None,
                        ..self.overlay
                    },
                    pointer_on_bar: false,
                    ..self
                },
                self.for_window(Task::ShowPointer(true)),
            ),
            WindowEvent::CursorEntered => (
                self,
                self.for_window(Task::ShowPointer(self.system_pointer())),
            ),
            WindowEvent::MouseWheel { dx, dy } => (
                self,
                if self.pointer_on_bar || (dx == 0 && dy == 0) {
                    session::idle()
                } else {
                    seq![Task::Send(Message::Scroll { dx, dy })]
                },
            ),
            _ => (self, session::idle()),
        }
    }

    /// Take an event of the window. `s` is the scale the bar is drawn at.
    pub fn window_event(&mut self, event: WindowEvent, s: u32, now: u64) -> (tasks: Vec<Task>)
        requires
            s <= overlay::MAX_SCALE,
        ensures
            match event {
                WindowEvent::CloseRequested => {
                    &&& *final(self) == (App { exit_reason: final(self).exit_reason, ..*old(self) })
                    &&& final(self).exit_reason matches Some(r) && r@ == "window closed"@
                    &&& tasks@ == seq![Task::Exit]
                },
                WindowEvent::Focused(f) => {
                    &&& final(self).overlay == old(self).overlay.focused_as(f)
                    &&& final(self).focused == f
                    &&& !f ==> final(self).keyboard@.pressed.len() == 0
                        && final(self).keyboard@.swallowed.len() == 0
                    &&& *final(self) == (App {
                        focused: f,
                        overlay: final(self).overlay,
                        keyboard: final(self).keyboard,
                        remote_buttons: if f {
                            old(self).remote_buttons
                        } else {
                            0
                        },
                        ..*old(self)
                    })
                    &&& f ==> final(self).keyboard == old(self).keyboard
                    &&& tasks@ == if f {
                        old(self).text_task()
                    } else {
                        session::sends(keys::releases(old(self).keyboard@.pressed)).push(Task::ForgetScroll)
                    }
                },
                WindowEvent::KeyboardInput(key) => {
                    &&& old(self).keyed(key, *final(self), tasks@)
                    &&& keys::key_step(old(self).keyboard@, old(self).modifiers, key).1
                        == KeyOutcome::Bar(Accelerator::Pin) ==> final(self).overlay.flash_until
                        == Some(time::later(now, overlay::FLASH))
                },
                WindowEvent::CursorMoved { x, y } => {
                    &&& old(self).moved(x, y, s, final(self).overlay, *final(self), tasks@)
                    &&& old(self).barred(final(self).overlay, x, y, s, now)
                },
                WindowEvent::MouseInput { button, down } => old(self).pressed(
                    button,
                    down,
                    *final(self),
                    tasks@,
                ),
                _ => (*final(self), tasks@) == old(self).window_step(event, now),
            },
            old(self).keyboard.wf() ==> final(self).keyboard.wf(),
    {
        match event {
            WindowEvent::CloseRequested => self.fail(text::copy("window closed")),
            WindowEvent::Focused(f) => self.on_focus(f),
            WindowEvent::KeyboardInput(key) => self.on_key(&key, now),
            WindowEvent::CursorMoved { x, y } => self.on_pointer_moved(x, y, s, now),
            WindowEvent::MouseInput { button, down } => self.on_button(button, down),
            other => self.plain_event(other, now),
        }
    }

    #[verifier::rlimit(40)]
    fn plain_event(&mut self, event: WindowEvent, now: u64) -> (tasks: Vec<Task>)
        ensures
            (*final(self), tasks@) == old(self).window_step(event, now),
            final(self).keyboard == old(self).keyboard,
    {
        let mut tasks: Vec<Task> = Vec::new();
        match event {
            WindowEvent::RedrawRequested => {
                if !self.redraw_asked {
                    self.full_redraw = true;
                }
                self.redraw_asked = false;
                tasks.push(Task::Drain);
                tasks.push(Task::Paint);
            },
            WindowEvent::Resized { width, height } => {
                self.full_redraw = true;
                if self.opts.dynamic_resize && self.client.info.features.resize {
                    self.pending_size = Some((width, height));
                    self.last_resize_event = Some(now);
                }
                self.ask_redraw(&mut tasks);
            },
            WindowEvent::ModifiersChanged(m) => {
                self.modifiers = m;
            },
            WindowEvent::CursorLeft => {
                self.overlay.pointer_left();
                self.pointer_on_bar = false;
                self.tell_window(&mut tasks, Task::ShowPointer(true));
            },
            WindowEvent::CursorEntered => {
                self.restore_cursor(&mut tasks);
            },
            WindowEvent::MouseWheel { dx, dy } => {
                if !self.pointer_on_bar && (dx != 0 || dy != 0) {
                    tasks.push(Task::Send(Message::Scroll { dx, dy }));
                }
            },
            _ => {},
        }
        assert(tasks@ =~= old(self).window_step(event, now).1);
        tasks
    }

    /// The session is over: let go of every key and say goodbye.
    pub fn exiting(&mut self) -> (messages: Vec<Message>)
        ensures
            ({
                let n = old(self).keyboard@.pressed.len() as int;
                &&& messages@.len() == n + 2
                &&& messages@.take(n) == keys::releases(old(self).keyboard@.pressed)
                &&& messages@[n] == keys::key_message(ks::SHIFT_L, false)
                &&& messages@[n + 1] matches Message::Disconnect { reason } && reason@
                    == match old(self).exit_reason {
                    Some(r) => r@,
                    None => "client exiting"@,
                }
                &&& *final(self) == (App {
                    keyboard: final(self).keyboard,
                    client: crate::connection::Client {
                        closed: final(self).client.closed,
                        ..old(self).client
                    },
                    ..*old(self)
                })
                &&& final(self).keyboard@ == (keys::Keys {
                    pressed: Seq::empty(),
                    swallowed: Seq::empty(),
                })
                &&& match old(self).client.closed {
                    Some(_) => final(self).client.closed == old(self).client.closed,
                    None => final(self).client.closed matches Some(r) && r@ == "closed by client"@,
                }
            }),
    {
        let ghost held = self.keyboard@.pressed;
        let mut messages = self.keyboard.release_all();
        messages.push(Message::KeyEvent { keysym: ks::SHIFT_L, down: false });
        let goodbye = match &self.exit_reason {
            Some(r) => self.client.disconnect(r.as_str()),
            None => self.client.disconnect("client exiting"),
        };
        messages.push(goodbye);
        assert(messages@.take(held.len() as int) =~= keys::releases(held));
        assert(self.keyboard@ =~= (keys::Keys { pressed: Seq::empty(), swallowed: Seq::empty() }));
        messages
    }
}

// ---------------------------------------------------------------------------
// Laws
// ---------------------------------------------------------------------------

/// A drag that started on the remote screen keeps the pointer: the bar neither
/// takes it nor follows it.
pub proof fn law_drag_keeps_the_pointer(
    app: App,
    bar: Overlay,
    x: u32,
    y: u32,
    s: u32,
    now: u64,
)
    requires
        app.remote_buttons != 0,
        app.barred(bar, x, y, s, now),
    ensures
        !app.bar_takes(y, s),
        bar == app.overlay,
{
}

/// A press that landed on the bar owns its release: no button reaches the
/// session, and what the session holds stays as it was.
pub proof fn law_bar_press_owns_its_release(
    app: App,
    button: MouseButton,
    after: App,
    tasks: Seq<Task>,
)
    requires
        app.bar_press,
        app.pressed(button, false, after, tasks),
    ensures
        forall|i: int|
            0 <= i < tasks.len() ==> !(#[trigger] tasks[i] matches Task::Send(m)
                && m is PointerButton),
        after.remote_buttons == app.remote_buttons,
        !after.bar_press,
{
    assert forall|i: int| 0 <= i < tasks.len() implies !(#[trigger] tasks[i] matches Task::Send(m)
        && m is PointerButton) by {
        let base = App {
            bar_press: false,
            overlay: Overlay { armed: None, ..app.overlay },
            ..app
        };
        match app.overlay.completed() {
            Some(action) => {
                let run = base.action_step(action).1;
                if i < run.len() {
                    assert(tasks[i] == run[i]);
                } else {
                    assert(tasks[i] == app.for_window(Task::Redraw)[i - run.len()]);
                }
            },
            None => {},
        }
    }
}

/// While the pointer is on the bar the session hears nothing of it: no button
/// goes down there and the wheel does not turn.
pub proof fn law_bar_keeps_the_pointer(
    app: App,
    button: MouseButton,
    dx: i16,
    dy: i16,
    now: u64,
    after: App,
    tasks: Seq<Task>,
)
    requires
        app.pointer_on_bar,
        app.pressed(button, true, after, tasks),
    ensures
        forall|i: int| 0 <= i < tasks.len() ==> #[trigger] tasks[i] !is Send,
        after.remote_buttons == app.remote_buttons,
        app.window_step(WindowEvent::MouseWheel { dx, dy }, now).1 == session::idle(),
{
}

/// A repaint nobody asked for is an expose, and the whole window is repainted.
pub proof fn law_expose_repaints_everything(
    app: App,
    now: u64,
    win: proto::Rect,
    parts: Seq<proto::Rect>,
)
    requires
        !app.redraw_asked,
    ensures
        app.window_step(WindowEvent::RedrawRequested, now).0.full_redraw,
        screen::presented(
            win,
            app.window_step(WindowEvent::RedrawRequested, now).0.full_redraw,
            parts,
        ) == seq![win],
{
}

// ---------------------------------------------------------------------------
// Laws of what the session is told
// ---------------------------------------------------------------------------

/// A pointer that is on the remote screen and not on the bar is told where it
/// is: in the same place where that is on the screen, and otherwise in the place
/// of the screen that is nearest. Nothing else is told, and nothing where it is
/// there already.
#[verifier::rlimit(40)]
pub proof fn law_pointer_is_told_where_it_is(
    app: App,
    x: u32,
    y: u32,
    s: u32,
    bar: Overlay,
    after: App,
    tasks: Seq<Task>,
    px: u16,
    py: u16,
)
    requires
        app.moved(x, y, s, bar, after, tasks),
        !app.bar_takes(y, s),
        0 < app.client.width <= 65536,
        0 < app.client.height <= 65536,
        px == if x < app.client.width {
            x as int
        } else {
            app.client.width - 1
        },
        py == if y < app.client.height {
            y as int
        } else {
            app.client.height - 1
        },
    ensures
        after.pointer == Some((px as u32, py as u32)),
        !after.pointer_on_bar,
        forall|i: int|
            0 <= i < tasks.len() && (#[trigger] tasks[i]) is Send ==> tasks[i] == Task::Send(
                Message::PointerMotion { x: px, y: py },
            ),
        app.pointer != Some((px as u32, py as u32)) || app.pointer_on_bar ==> exists|i: int|
            0 <= i < tasks.len() && #[trigger] tasks[i] == Task::Send(
                Message::PointerMotion { x: px, y: py },
            ),
        app.pointer == Some((px as u32, py as u32)) && !app.pointer_on_bar ==> tasks.len() == 0,
{
    lemma_pointed_at(App { overlay: bar, ..app }, x, y, px, py);
}

#[verifier::rlimit(40)]
proof fn lemma_pointed_at(app: App, x: u32, y: u32, px: u16, py: u16)
    requires
        0 < app.client.width <= 65536,
        0 < app.client.height <= 65536,
        px == if x < app.client.width {
            x as int
        } else {
            app.client.width - 1
        },
        py == if y < app.client.height {
            y as int
        } else {
            app.client.height - 1
        },
    ensures
        ({
            let (after, tasks) = app.pointed_at(x, y);
            let motion = Task::Send(Message::PointerMotion { x: px, y: py });
            &&& after.pointer == Some((px as u32, py as u32))
            &&& !after.pointer_on_bar
            &&& forall|i: int|
                0 <= i < tasks.len() && (#[trigger] tasks[i]) is Send ==> tasks[i] == motion
            &&& app.pointer != Some((px as u32, py as u32)) || app.pointer_on_bar ==> exists|i: int|
                0 <= i < tasks.len() && #[trigger] tasks[i] == motion
            &&& app.pointer == Some((px as u32, py as u32)) && !app.pointer_on_bar ==> tasks.len()
                == 0
        }),
{
    let tasks = app.pointed_at(x, y).1;
    let motion = Task::Send(Message::PointerMotion { x: px, y: py });
    let (qx, qy) = app.on_screen(x, y);
    assert(qx == px && qy == py);
    let (left, back) = app.off_bar();
    if app.pointer_on_bar || app.pointer != Some((qx, qy)) {
        let told = left.at(qx, qy).1;
        assert(tasks == back + told);
        assert(told[0] == motion);
        assert(tasks[back.len() as int] == told[0]);
        assert forall|i: int|
            0 <= i < tasks.len() && (#[trigger] tasks[i]) is Send implies tasks[i] == motion by {
            if i >= back.len() {
                assert(tasks[i] == told[i - back.len()]);
            } else {
                assert(tasks[i] == back[i]);
            }
        }
    }
}

/// A pointer on the bar is not told to the session, and the window system shows
/// its own.
pub proof fn law_pointer_on_the_bar_is_not_told(
    app: App,
    x: u32,
    y: u32,
    s: u32,
    bar: Overlay,
    after: App,
    tasks: Seq<Task>,
)
    requires
        app.moved(x, y, s, bar, after, tasks),
        app.bar_takes(y, s),
    ensures
        after.pointer_on_bar,
        after.pointer == app.pointer,
        forall|i: int| 0 <= i < tasks.len() ==> (#[trigger] tasks[i]) !is Send,
        app.has_window && !app.pointer_on_bar ==> tasks.contains(Task::ShowPointer(true)),
        app.has_window ==> tasks.contains(Task::Redraw),
{
    if app.has_window {
        if app.pointer_on_bar {
            assert(tasks[0] == Task::Redraw);
        } else {
            assert(tasks[0] == Task::ShowPointer(true));
            assert(tasks[1] == Task::Redraw);
        }
    }
}

/// A button that is pressed or let go on the remote screen is told by its own
/// number, and stays down for the session until it is let go.
pub proof fn law_buttons_reach_the_session(
    app: App,
    button: MouseButton,
    down: bool,
    after: App,
    tasks: Seq<Task>,
)
    requires
        app.pressed(button, down, after, tasks),
        !app.pointer_on_bar,
        down || !app.bar_press,
    ensures
        button == MouseButton::Left ==> tasks == seq![
            Task::Send(Message::PointerButton { button: 1, down }),
        ],
        button == MouseButton::Middle ==> tasks == seq![
            Task::Send(Message::PointerButton { button: 2, down }),
        ],
        button == MouseButton::Right ==> tasks == seq![
            Task::Send(Message::PointerButton { button: 3, down }),
        ],
        button == MouseButton::Back ==> tasks == seq![
            Task::Send(Message::PointerButton { button: 8, down }),
        ],
        button == MouseButton::Forward ==> tasks == seq![
            Task::Send(Message::PointerButton { button: 9, down }),
        ],
        button is Other ==> tasks.len() == 0 && after == app,
        after == (App { remote_buttons: after.remote_buttons, ..app }),
        !(button is Other) ==> ((after.remote_buttons & (keys::codes_of(button)->0).1) != 0
            <==> down),
{
    if !(button is Other) {
        let other = if button == MouseButton::Left {
            MouseButton::Right
        } else {
            MouseButton::Left
        };
        keys::law_buttons_keep_apart(button, other, app.remote_buttons);
    }
}

/// The wheel is told as far as it was turned, each way by its own amount, unless
/// the pointer is on the bar or it was not turned.
pub proof fn law_wheel_reaches_the_session(app: App, dx: i16, dy: i16, now: u64)
    ensures
        ({
            let (after, tasks) = app.window_step(WindowEvent::MouseWheel { dx, dy }, now);
            &&& after == app
            &&& !app.pointer_on_bar && (dx != 0 || dy != 0) ==> tasks == seq![
                Task::Send(Message::Scroll { dx, dy }),
            ]
            &&& app.pointer_on_bar || (dx == 0 && dy == 0) ==> tasks.len() == 0
        }),
{
}

/// A window of a new size is repainted whole, and where the session follows the
/// window its size is kept to be asked for once it has settled.
pub proof fn law_new_size_is_kept(app: App, width: u32, height: u32, now: u64)
    ensures
        ({
            let (after, tasks) = app.window_step(WindowEvent::Resized { width, height }, now);
            let follows = app.opts.dynamic_resize && app.client.info.features.resize;
            &&& after.full_redraw
            &&& follows ==> after.pending_size == Some((width, height)) && after.last_resize_event
                == Some(now)
            &&& !follows ==> after.pending_size == app.pending_size && after.last_resize_event
                == app.last_resize_event
            &&& app.has_window ==> tasks == seq![Task::Redraw]
            &&& !app.has_window ==> tasks.len() == 0
        }),
{
}

/// A repaint that was asked for paints what has changed, after what the session
/// sent was handled; the modifiers are those the window says; and a pointer that
/// leaves the window leaves the bar.
pub proof fn law_window_is_followed(app: App, m: keys::Modifiers, now: u64)
    ensures
        app.window_step(WindowEvent::RedrawRequested, now).1 == seq![Task::Drain, Task::Paint],
        !app.window_step(WindowEvent::RedrawRequested, now).0.redraw_asked,
        app.redraw_asked ==> app.window_step(WindowEvent::RedrawRequested, now).0.full_redraw
            == app.full_redraw,
        app.window_step(WindowEvent::ModifiersChanged(m), now).0.modifiers == m,
        app.window_step(WindowEvent::ModifiersChanged(m), now).1.len() == 0,
        !app.window_step(WindowEvent::CursorLeft, now).0.pointer_on_bar,
        !app.window_step(WindowEvent::CursorLeft, now).0.overlay.on_bar,
        app.window_step(WindowEvent::CursorLeft, now).0.overlay.hover is None,
        app.has_window ==> app.window_step(WindowEvent::CursorLeft, now).1 == seq![
            Task::ShowPointer(true),
        ],
        app.has_window ==> app.window_step(WindowEvent::CursorEntered, now).1 == seq![
            Task::ShowPointer(!(app.client.info.features.local_cursor && app.cursor is Some)),
        ],
{
}

/// What the buttons of the bar do: the transfers open, the full screen comes or
/// goes, attention is asked of the session, and the session ends.
pub proof fn law_bar_buttons_do_what_they_say(
    app: App,
    action: Action,
    after: App,
    tasks: Seq<Task>,
)
    requires
        app.acted(action, after, tasks),
    ensures
        action == Action::Transfers ==> after == app && tasks == seq![Task::OpenTransfers],
        action == Action::Fullscreen && app.has_window ==> tasks == seq![
            Task::Fullscreen(!app.fullscreen),
        ] && after == (App { fullscreen: !app.fullscreen, ..app }),
        action == Action::Fullscreen && !app.has_window ==> tasks.len() == 0 && after == app,
        action == Action::SecureAttention ==> after == app && tasks.len() == keys::attention(
            app.keyboard@.pressed,
        ).len() && forall|i: int|
            0 <= i < tasks.len() ==> #[trigger] tasks[i] == Task::Send(
                keys::attention(app.keyboard@.pressed)[i],
            ),
        action == Action::Disconnect ==> tasks == seq![Task::Exit] && after == (App {
            exit_reason: after.exit_reason,
            ..app
        }) && (after.exit_reason matches Some(r) && r@ == "disconnected by the user"@),
{
}

/// A key that is told to the session is told as the keyboard has it, an
/// accelerator does what it stands for, and a key that is neither does nothing.
pub proof fn law_keys_do_what_they_stand_for(
    app: App,
    event: KeyEvent,
    after: App,
    tasks: Seq<Task>,
    keysym: u32,
    down: bool,
)
    requires
        app.keyed(event, after, tasks),
    ensures
        ({
            let (held, outcome) = keys::key_step(app.keyboard@, app.modifiers, event);
            &&& after.keyboard@ == held
            &&& outcome == (KeyOutcome::Send { keysym, down }) ==> tasks == seq![
                Task::Send(Message::KeyEvent { keysym, down }),
            ]
            &&& outcome is Nothing ==> tasks.len() == 0
            &&& outcome == KeyOutcome::Bar(Accelerator::Pin) ==> tasks.len() == 0
                && after.overlay.pinned == !app.overlay.pinned
            &&& outcome == KeyOutcome::Bar(Accelerator::Fullscreen) && app.has_window ==> tasks
                == seq![Task::Fullscreen(!app.fullscreen)]
            &&& outcome == KeyOutcome::Bar(Accelerator::Disconnect) ==> tasks == seq![Task::Exit]
            &&& outcome == KeyOutcome::Bar(Accelerator::SecureAttention) ==> tasks.len()
                == keys::attention(held.pressed).len()
        }),
{
}

/// A click on the bar does what the button does that was pressed and is let go
/// over, and nothing where it is let go elsewhere.
pub proof fn law_click_is_pressed_and_let_go(app: App, after: App, tasks: Seq<Task>)
    requires
        app.let_go(after, tasks),
    ensures
        !after.bar_press,
        after.overlay.armed is None,
        app.overlay.armed is None || app.overlay.armed != app.overlay.hover ==> forall|i: int|
            0 <= i < tasks.len() ==> #[trigger] tasks[i] == Task::Redraw,
        app.overlay.armed is None || app.overlay.armed != app.overlay.hover ==> after.fullscreen
            == app.fullscreen && after.exit_reason == app.exit_reason,
{
    match app.overlay.completed() {
        Some(action) => {},
        None => {},
    }
}

/// On the bar the left button alone presses, what the pointer is over, and the
/// window is drawn again; no other press does anything there.
pub proof fn law_bar_is_pressed_with_the_left_button(
    app: App,
    button: MouseButton,
    after: App,
    tasks: Seq<Task>,
)
    requires
        app.pointer_on_bar,
        app.pressed(button, true, after, tasks),
    ensures
        button is Left ==> after.bar_press && after.overlay.armed == app.overlay.hover && (
        app.has_window ==> tasks == seq![Task::Redraw]) && after.remote_buttons
            == app.remote_buttons,
        !(button is Left) ==> after == app && tasks.len() == 0,
{
}

/// A pointer that this program draws is drawn again where it went, and one that
/// the session draws is left to the session.
pub proof fn law_drawn_pointer_is_drawn_again(app: App, px: u32, py: u32)
    ensures
        ({
            let (after, tasks) = app.at(px, py);
            &&& after.pointer == Some((px, py))
            &&& app.client.info.features.local_cursor && app.has_window ==> tasks.len() == 2
                && tasks[1] == Task::Redraw && after.redraw_asked
            &&& !app.client.info.features.local_cursor || !app.has_window ==> tasks.len() == 1
                && after.redraw_asked == app.redraw_asked
            &&& px <= 0xffff && py <= 0xffff ==> tasks[0] == Task::Send(
                Message::PointerMotion { x: px as u16, y: py as u16 },
            )
        }),
{
}

} // verus!
