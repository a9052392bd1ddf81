//! Non-modal transfer controls. File drops never open the details.

use std::collections::VecDeque;

use vstd::prelude::*;

use crate::text;
use crate::time;

verus! {

/// How long transfers run before their progress is shown.
pub const PROGRESS_DELAY: u64 = 1_000_000_000;

/// How long a notification stays up.
pub const TOAST: u64 = 4_000_000_000;

/// How often progress is repainted.
pub const PROGRESS_TICK: u64 = 100_000_000;

/// How many messages the history keeps.
pub const HISTORY: usize = 20;

/// What servers end their readiness notice with.
pub const READY_SUFFIX: &'static str =
    " copied file(s) ready. Paste into a folder in the remote session.";

/// The transfer controls.
pub struct Panel {
    /// The details are open.
    pub open: bool,
    /// The remote file to download.
    pub remote: String,
    /// Where to save it.
    pub local: String,
    /// Replace an existing destination file.
    pub replace: bool,
    /// What was last said.
    pub message: String,
    pub seen_message: String,
    pub toast_until: Option<u64>,
    pub dismissed: bool,
    pub had_active: bool,
    pub active_since: Option<u64>,
    pub history: VecDeque<String>,
}

/// What the user asked for.
#[derive(Clone, Copy, Debug, PartialEq, Eq, Structural)]
pub enum Action {
    Reconnect,
    Download,
    CancelAll,
    Cancel(u64),
}

/// A transfer under way.
#[derive(Clone, Debug, PartialEq, Eq)]
pub struct Transfer {
    pub id: u64,
    pub name: String,
    /// Bytes done and in all, once the transfer has started.
    pub progress: Option<(u64, u64)>,
}

/// What the panel puts on the screen.
#[derive(Clone, Copy, Debug, PartialEq, Eq, Structural)]
pub enum Showing {
    /// The details.
    Details,
    /// A notification with the progress of the transfers.
    Progress,
    /// A notification with the message.
    Message,
    /// A notification without any text.
    Bare,
    /// Nothing.
    Nothing,
}

/// One frame of the panel.
#[derive(Clone, Copy, Debug, PartialEq, Eq, Structural)]
pub struct Frame {
    pub showing: Showing,
    /// The next frame is wanted after this long, if nothing happens before.
    pub repaint: Option<u64>,
}

/// The progress of several transfers as one: bytes done and in all.
pub open spec fn total_progress(active: Seq<Transfer>) -> (nat, nat)
    decreases active.len(),
{
    if active.len() == 0 {
        (0, 0)
    } else {
        let (d, t) = total_progress(active.drop_last());
        match active.last().progress {
            Some((done, total)) => (cap(d + done as nat), cap(t + total as nat)),
            None => (d, t),
        }
    }
}

pub open spec fn cap(n: nat) -> nat {
    if n <= u64::MAX {
        n
    } else {
        u64::MAX as nat
    }
}

/// Whether some transfer has not started yet.
pub open spec fn preparing(active: Seq<Transfer>) -> bool {
    exists|i: int| 0 <= i < active.len() && (#[trigger] active[i]).progress is None
}

/// The sooner of two wishes for a frame.
pub open spec fn sooner(a: Option<u64>, b: Option<u64>) -> Option<u64> {
    match (a, b) {
        (Some(x), Some(y)) => Some(time::shorter(x, y)),
        (Some(_), None) => a,
        (None, _) => b,
    }
}

fn sooner_of(a: Option<u64>, b: Option<u64>) -> (r: Option<u64>)
    ensures
        r == sooner(a, b),
{
    match (a, b) {
        (Some(x), Some(y)) => Some(time::min_span(x, y)),
        (Some(x), None) => Some(x),
        (None, Some(y)) => Some(y),
        (None, None) => None,
    }
}

/// A history with one more message in front, cut to its length.
pub open spec fn recorded(history: Seq<Seq<char>>, message: Seq<char>) -> Seq<Seq<char>> {
    let all = seq![message] + history;
    if all.len() <= HISTORY {
        all
    } else {
        all.take(HISTORY as int)
    }
}

/// Whether a notice says nothing but that the files the session was given are
/// ready: a count and the readiness wording.
pub open spec fn says_ready(message: Seq<char>) -> bool {
    text::ends_with(message, READY_SUFFIX@) && text::unsigned(
        message.take(message.len() - READY_SUFFIX@.len()),
        usize::MAX as nat,
    ) is Some
}

impl Default for Panel {
    fn default() -> (p: Panel)
        ensures
            !p.open,
            p.remote@.len() == 0,
            p.local@.len() == 0,
            !p.replace,
            p.message@.len() == 0,
            p.seen_message@.len() == 0,
            p.toast_until is None,
            !p.dismissed,
            !p.had_active,
            p.active_since is None,
            p.history@.len() == 0,
    {
        Panel {
            open: false,
            remote: String::new(),
            local: String::new(),
            replace: false,
            message: String::new(),
            seen_message: String::new(),
            toast_until: None,
            dismissed: false,
            had_active: false,
            active_since: None,
            history: VecDeque::new(),
        }
    }
}

impl Panel {
    /// The history, newest first.
    pub open spec fn past(self) -> Seq<Seq<char>> {
        text::texts(self.history@)
    }

    /// Whether a notification is up.
    pub open spec fn toasting(self, now: u64) -> bool {
        !self.dismissed && (self.toast_until matches Some(until) && now < until)
    }

    /// Keep routine activity in the manually opened details, without a toast.
    pub fn record(&mut self, message: String)
        ensures
            *final(self) == (Panel { history: final(self).history, ..*old(self) }),
            final(self).past() == recorded(old(self).past(), message@),
    {
        let ghost before = self.history@;
        let ghost all = seq![message] + before;
        self.history.push_front(message);
        assert(self.history@ =~= all);
        self.history.truncate(HISTORY);
        assert(self.past() =~= recorded(old(self).past(), message@));
    }

    /// What a notice of the server does to the panel.
    pub open spec fn noticed(self, after: Panel, message: Seq<char>, now: u64) -> bool {
        &&& after.past() == recorded(self.past(), message)
        &&& if says_ready(message) {
                after == (Panel { history: after.history, ..self })
            } else {
                &&& after == (Panel {
                    message: after.message,
                    dismissed: false,
                    toast_until: Some(time::later(now, TOAST)),
                    history: after.history,
                    ..self
                })
                &&& after.message@ == message
            }
    }

    /// Take in a notice of the server.
    ///
    /// Servers send readiness as a notice like any other. The check for it is
    /// kept narrow, so partial failures still reach the user.
    pub fn server_notice(&mut self, message: String, now: u64)
        ensures
            final(self).past() == recorded(old(self).past(), message@),
            if says_ready(message@) {
                *final(self) == (Panel { history: final(self).history, ..*old(self) })
            } else {
                &&& *final(self) == (Panel {
                    message: final(self).message,
                    dismissed: false,
                    toast_until: Some(time::later(now, TOAST)),
                    history: final(self).history,
                    ..*old(self)
                })
                &&& final(self).message@ == message@
            },
            old(self).noticed(*final(self), message@, now),
    {
        let chars = text::chars_of(message.as_str());
        let suffix = text::chars_of(READY_SUFFIX);
        let ready = if suffix.len() <= chars.len() && text::is_at(
            &chars,
            &suffix,
            chars.len() - suffix.len(),
        ) {
            let count = text::slice_of(&chars, 0, chars.len() - suffix.len());
            assert(count@ =~= chars@.take(chars@.len() - suffix@.len()));
            text::parse_unsigned(&count, usize::MAX as u64).is_some()
        } else {
            false
        };
        if ready {
            self.record(message);
        } else {
            self.notify(message, now);
        }
    }

    /// Tell the user something.
    pub fn notify(&mut self, message: String, now: u64)
        ensures
            *final(self) == (Panel {
                message: final(self).message,
                dismissed: false,
                toast_until: Some(time::later(now, TOAST)),
                history: final(self).history,
                ..*old(self)
            }),
            final(self).message@ == message@,
            final(self).past() == recorded(old(self).past(), message@),
    {
        self.message = text::copy(message.as_str());
        self.record(message);
        self.dismissed = false;
        self.toast_until = Some(time::after(now, TOAST));
    }

    /// Where to save the download that was asked for.
    pub fn destination(&self) -> (r: Result<String, String>)
        ensures
            match r {
                Ok(path) => self.remote@.len() > 0 && self.local@.len() > 0 && path@ == self.local@,
                Err(e) => (self.remote@.len() == 0 || self.local@.len() == 0) && e@
                    == "Enter both the remote file and local destination."@,
            },
    {
        if self.remote.as_str().is_empty() || self.local.as_str().is_empty() {
            return Err(text::copy("Enter both the remote file and local destination."));
        }
        Ok(text::copy(self.local.as_str()))
    }

    /// Whether there is anything to see apart from progress.
    pub fn visible(&self, now: u64) -> (r: bool)
        ensures
            r == (self.open || self.toasting(now)),
    {
        self.open || !self.dismissed && match self.toast_until {
            Some(until) => now < until,
            None => false,
        }
    }

    /// When the transfers of a frame started, and how long until their
    /// progress is due.
    pub open spec fn active_from(self, now: u64) -> u64 {
        match self.active_since {
            Some(at) => at,
            None => now,
        }
    }

    /// Whether progress is due in a frame.
    pub open spec fn due(self, now: u64, active_now: bool) -> bool {
        active_now && time::since(now, self.active_from(now)) >= PROGRESS_DELAY
    }

    /// What a frame makes of the notification: a message that is new raises
    /// it, and the end of the transfers clears what was said before them.
    pub open spec fn toast_after(self, now: u64, active_now: bool) -> Option<u64> {
        if self.message@ != self.seen_message@ {
            Some(time::later(now, TOAST))
        } else if self.had_active && !active_now {
            None
        } else {
            self.toast_until
        }
    }

    /// What a frame shows. Here `next` is the panel after the frame.
    pub open spec fn picture(self, next: Panel, now: u64, active_now: bool) -> Showing {
        if self.open {
            Showing::Details
        } else if next.dismissed {
            Showing::Nothing
        } else if self.due(now, active_now) {
            Showing::Progress
        } else if next.toasting(now) {
            if self.message@.len() > 0 {
                Showing::Message
            } else {
                Showing::Bare
            }
        } else {
            Showing::Nothing
        }
    }

    /// When the next frame is wanted: when progress falls due, when the
    /// notification goes, and often enough while progress is up.
    pub open spec fn wish(self, next: Panel, now: u64, active_now: bool) -> Option<u64> {
        let progress = if active_now && !self.due(now, active_now) {
            Some((PROGRESS_DELAY - time::since(now, self.active_from(now))) as u64)
        } else {
            None
        };
        let toast = if next.toasting(now) {
            Some((next.toast_until->0 - now) as u64)
        } else {
            None
        };
        let tick = if self.picture(next, now, active_now) == Showing::Progress {
            Some(PROGRESS_TICK)
        } else {
            None
        };
        sooner(sooner(progress, toast), tick)
    }

    /// What one look at the panel does to it, and what it shows.
    pub open spec fn shown(self, after: Panel, now: u64, queued: usize, active: usize, frame: Frame) -> bool {
        &&& ({
                let active_now = queued != 0 || active != 0;
                let changed = self.message@ != self.seen_message@;
                &&& after.active_since == if active_now {
                    Some(self.active_from(now))
                } else {
                    None
                }
                &&& after.had_active == active_now
                &&& after.seen_message@ == self.message@
                &&& after.toast_until == self.toast_after(now, active_now)
                &&& after.dismissed == (self.dismissed && !changed)
                &&& after == (Panel {
                    active_since: after.active_since,
                    had_active: after.had_active,
                    seen_message: after.seen_message,
                    toast_until: after.toast_until,
                    dismissed: after.dismissed,
                    ..self
                })
                &&& frame.showing == self.picture(after, now, active_now)
                &&& frame.repaint == self.wish(after, now, active_now)
            })
    }

    /// Begin a frame, with that many files waiting and these under way.
    ///
    /// Quick transfers never flash: progress is shown once they have run for
    /// a while, and each new batch waits anew.
    pub fn show(&mut self, now: u64, queued: usize, active: usize) -> (frame: Frame)
        ensures
            ({
                let active_now = queued != 0 || active != 0;
                let changed = old(self).message@ != old(self).seen_message@;
                &&& final(self).active_since == if active_now {
                    Some(old(self).active_from(now))
                } else {
                    None
                }
                &&& final(self).had_active == active_now
                &&& final(self).seen_message@ == old(self).message@
                &&& final(self).toast_until == old(self).toast_after(now, active_now)
                &&& final(self).dismissed == (old(self).dismissed && !changed)
                &&& *final(self) == (Panel {
                    active_since: final(self).active_since,
                    had_active: final(self).had_active,
                    seen_message: final(self).seen_message,
                    toast_until: final(self).toast_until,
                    dismissed: final(self).dismissed,
                    ..*old(self)
                })
                &&& frame.showing == old(self).picture(*final(self), now, active_now)
                &&& frame.repaint == old(self).wish(*final(self), now, active_now)
            }),
            old(self).shown(*final(self), now, queued, active, frame),
    {
        let active_now = queued != 0 || active != 0;
        let mut repaint: Option<u64> = None;
        let mut progress_ready = false;
        if active_now {
            let from: u64 = match self.active_since {
                Some(at) => at,
                None => now,
            };
            self.active_since = Some(from);
            let ran: u64 = time::elapsed(now, from);
            if ran >= PROGRESS_DELAY {
                progress_ready = true;
            } else {
                repaint = Some(PROGRESS_DELAY - ran);
            }
        } else {
            self.active_since = None;
        }
        let changed = !text::same(self.message.as_str(), self.seen_message.as_str());
        if self.had_active && !active_now && !changed {
            self.toast_until = None;
        }
        self.had_active = active_now;
        if changed {
            self.seen_message = text::copy(self.message.as_str());
            self.toast_until = Some(time::after(now, TOAST));
            self.dismissed = false;
        }
        let toast: Option<u64> = match self.toast_until {
            Some(until) => if !self.dismissed && until > now {
                Some(until - now)
            } else {
                None
            },
            None => None,
        };
        repaint = sooner_of(repaint, toast);
        let showing = if self.open {
            Showing::Details
        } else if self.dismissed {
            Showing::Nothing
        } else if progress_ready {
            repaint = sooner_of(repaint, Some(PROGRESS_TICK));
            Showing::Progress
        } else if toast.is_some() {
            if self.message.as_str().is_empty() {
                Showing::Bare
            } else {
                Showing::Message
            }
        } else {
            Showing::Nothing
        };
        Frame { showing, repaint }
    }

    /// Close the details, by the window's own control or by Escape.
    pub fn close(&mut self)
        ensures
            *final(self) == (Panel { open: false, ..*old(self) }),
    {
        self.open = false;
    }

    /// Whether the download that is typed in can be started.
    pub fn can_download(&self) -> (r: bool)
        ensures
            r == (self.remote@.len() > 0 && self.local@.len() > 0),
    {
        !self.remote.as_str().is_empty() && !self.local.as_str().is_empty()
    }
}

/// The progress of several transfers as one, and whether some of them have not
/// started yet.
pub fn progress_of(active: &Vec<Transfer>) -> (r: (u64, u64, bool))
    ensures
        (r.0 as nat, r.1 as nat) == total_progress(active@),
        r.2 == preparing(active@),
{
    let mut done: u64 = 0;
    let mut total: u64 = 0;
    let mut waiting = false;
    let mut i: usize = 0;
    while i < active.len()
        invariant
            i <= active.len(),
            (done as nat, total as nat) == total_progress(active@.take(i as int)),
            waiting == preparing(active@.take(i as int)),
        decreases active.len() - i,
    {
        let ghost head = active@.take(i as int);
        let ghost more = active@.take(i + 1);
        assert(more.drop_last() =~= head);
        match active[i].progress {
            Some((d, t)) => {
                done = done.saturating_add(d);
                total = total.saturating_add(t);
                assert(preparing(more) == preparing(head)) by {
                    if preparing(head) {
                        let k = choose|k: int|
                            0 <= k < head.len() && (#[trigger] head[k]).progress is None;
                        assert(more[k].progress is None);
                    }
                    if preparing(more) {
                        let k = choose|k: int|
                            0 <= k < more.len() && (#[trigger] more[k]).progress is None;
                        assert(head[k].progress is None);
                    }
                }
            },
            None => {
                waiting = true;
                assert(more[i as int].progress is None);
            },
        }
        i = i + 1;
    }
    assert(active@.take(active@.len() as int) =~= active@);
    (done, total, waiting)
}

// ---------------------------------------------------------------------------
// Sizes
// ---------------------------------------------------------------------------

pub const KIB: u64 = 1024;

pub const MIB: u64 = 1_048_576;

pub const GIB: u64 = 1_073_741_824;

/// `n / d` to the nearest integer, and to the even one of two.
pub open spec fn nearest(n: nat, d: nat) -> nat {
    let q = n / d;
    let r = n % d;
    if 2 * r > d || (2 * r == d && q % 2 == 1) {
        q + 1
    } else {
        q
    }
}

/// The grain of the 53-bit numbers near `n`: counts beyond them are rounded to
/// a multiple of it before they are shown.
pub open spec fn grain(n: nat) -> nat {
    if n < 0x20_0000_0000_0000 {
        1
    } else if n < 0x40_0000_0000_0000 {
        2
    } else if n < 0x80_0000_0000_0000 {
        4
    } else if n < 0x100_0000_0000_0000 {
        8
    } else if n < 0x200_0000_0000_0000 {
        16
    } else if n < 0x400_0000_0000_0000 {
        32
    } else if n < 0x800_0000_0000_0000 {
        64
    } else if n < 0x1000_0000_0000_0000 {
        128
    } else if n < 0x2000_0000_0000_0000 {
        256
    } else if n < 0x4000_0000_0000_0000 {
        512
    } else if n < 0x8000_0000_0000_0000 {
        1024
    } else {
        2048
    }
}

/// A count as a 53-bit number.
pub open spec fn coarse(n: nat) -> nat {
    nearest(n, grain(n)) * grain(n)
}

/// A number of tenths, with one digit behind the point.
pub open spec fn tenths_text(t: nat) -> Seq<char> {
    text::decimal(t / 10) + seq!['.', text::digit(t % 10)]
}

/// A number of bytes for the user: whole bytes below a kilobyte, and above it
/// the largest unit that fits, to the nearest tenth.
pub open spec fn bytes_text(n: nat) -> Seq<char> {
    if n < KIB {
        text::decimal(n) + " B"@
    } else if n < MIB {
        tenths_text(nearest(n * 10, KIB as nat)) + " KB"@
    } else if n < GIB {
        tenths_text(nearest(n * 10, MIB as nat)) + " MB"@
    } else {
        tenths_text(nearest(coarse(n) * 10, GIB as nat)) + " GB"@
    }
}

fn nearest_of(n: u128, d: u128) -> (r: u128)
    requires
        0 < d < 0x1_0000_0000_0000_0000,
        n < 0x1_0000_0000_0000_0000_0000,
    ensures
        r == nearest(n as nat, d as nat),
        r <= n + 1,
{
    let q: u128 = n / d;
    let rest: u128 = n % d;
    assert(q <= n) by (nonlinear_arith)
        requires
            q == n / d,
            0 < d,
    ;
    if 2 * rest > d || (2 * rest == d && q % 2 == 1) {
        q + 1
    } else {
        q
    }
}

fn grain_of(n: u64) -> (g: u128)
    ensures
        g == grain(n as nat),
        1 <= g <= 2048,
{
    if n < 0x20_0000_0000_0000 {
        1
    } else if n < 0x40_0000_0000_0000 {
        2
    } else if n < 0x80_0000_0000_0000 {
        4
    } else if n < 0x100_0000_0000_0000 {
        8
    } else if n < 0x200_0000_0000_0000 {
        16
    } else if n < 0x400_0000_0000_0000 {
        32
    } else if n < 0x800_0000_0000_0000 {
        64
    } else if n < 0x1000_0000_0000_0000 {
        128
    } else if n < 0x2000_0000_0000_0000 {
        256
    } else if n < 0x4000_0000_0000_0000 {
        512
    } else if n < 0x8000_0000_0000_0000 {
        1024
    } else {
        2048
    }
}

fn push_tenths(t: u64, unit: &str) -> (s: String)
    ensures
        s@ == tenths_text(t as nat) + unit@,
{
    let mut s = text::decimal_of(t / 10);
    s.push('.');
    s.push(text::digit_char((t % 10) as u8));
    s.push_str(unit);
    assert(s@ =~= tenths_text(t as nat) + unit@);
    s
}

/// A number of bytes for the user.
pub fn bytes(n: u64) -> (s: String)
    ensures
        s@ == bytes_text(n as nat),
{
    if n < KIB {
        let mut s = text::decimal_of(n);
        s.push_str(" B");
        s
    } else if n < MIB {
        let t: u128 = nearest_of(n as u128 * 10, KIB as u128);
        push_tenths(t as u64, " KB")
    } else if n < GIB {
        let t: u128 = nearest_of(n as u128 * 10, MIB as u128);
        push_tenths(t as u64, " MB")
    } else {
        let g: u128 = grain_of(n);
        let rounded: u128 = nearest_of(n as u128, g);
        assert(rounded * g <= 0x1_0000_0000_0000_0001 * 2048) by (nonlinear_arith)
            requires
                rounded <= 0x1_0000_0000_0000_0001,
                g <= 2048,
        ;
        proof {
            lemma_coarse(n as nat);
        }
        let t: u128 = nearest_of(rounded * g * 10, GIB as u128);
        proof {
            lemma_nearest_bound(coarse(n as nat) * 10, GIB as nat);
        }
        push_tenths(t as u64, " GB")
    }
}

proof fn lemma_nearest_bound(n: nat, d: nat)
    requires
        d > 0,
    ensures
        nearest(n, d) * d <= n + d,
        n <= nearest(n, d) * d + d,
{
    vstd::arithmetic::div_mod::lemma_fundamental_div_mod(n as int, d as int);
    vstd::arithmetic::div_mod::lemma_mod_bound(n as int, d as int);
    let q = n / d;
    assert(d * q == q * d) by (nonlinear_arith);
    assert((q + 1) * d == q * d + d) by (nonlinear_arith);
}

/// Rounding a count to 53 bits moves it by less than the grain.
proof fn lemma_coarse(n: nat)
    requires
        n <= u64::MAX,
    ensures
        coarse(n) <= n + 2048,
        n <= coarse(n) + 2048,
{
    lemma_nearest_bound(n, grain(n));
}

// ---------------------------------------------------------------------------
// Laws
// ---------------------------------------------------------------------------

/// A batch that ends within the delay never shows progress, whenever its
/// frames come.
pub proof fn law_quick_transfers_never_flash(panel: Panel, next: Panel, now: u64, active_now: bool)
    requires
        panel.active_since matches Some(at) ==> time::since(now, at) < PROGRESS_DELAY,
    ensures
        panel.picture(next, now, active_now) != Showing::Progress,
{
}

/// The history never grows beyond its length, and the newest message leads it.
pub proof fn law_history_is_bounded(history: Seq<Seq<char>>, message: Seq<char>)
    ensures
        recorded(history, message).len() <= HISTORY,
        recorded(history, message)[0] == message,
{
}

/// What is under way adds up: what is done, and what there is in all, each up to
/// the largest number; what has not begun to move counts for neither.
pub proof fn law_progress_adds_up(active: Seq<Transfer>, t: Transfer)
    ensures
        ({
            let before = total_progress(active);
            let after = total_progress(active.push(t));
            let most = 0xffff_ffff_ffff_ffffnat;
            &&& t.progress is None ==> after == before
            &&& t.progress matches Some((done, total)) ==> (before.0 + done <= most ==> after.0
                == before.0 + done) && (before.0 + done > most ==> after.0 == most) && (before.1
                + total <= most ==> after.1 == before.1 + total) && (before.1 + total > most
                ==> after.1 == most)
        }),
        total_progress(Seq::empty()) == (0nat, 0nat),
        preparing(active.push(t)) <==> t.progress is None || preparing(active),
{
    assert(active.push(t).drop_last() =~= active);
    if preparing(active) {
        let i = choose|i: int| 0 <= i < active.len() && (#[trigger] active[i]).progress is None;
        assert(active.push(t)[i].progress is None);
    }
    if t.progress is None {
        assert(active.push(t)[active.len() as int].progress is None);
    }
    if preparing(active.push(t)) {
        let i = choose|i: int|
            0 <= i < active.push(t).len() && (#[trigger] active.push(t)[i]).progress is None;
        if i < active.len() {
            assert(active[i].progress is None);
        }
    }
}

/// The newest message comes first, and the twenty newest are kept.
pub proof fn law_history_is_newest_first(history: Seq<Seq<char>>, message: Seq<char>, i: int)
    ensures
        recorded(history, message).len() == if history.len() < 20 {
            history.len() + 1
        } else {
            20
        },
        recorded(history, message)[0] == message,
        0 < i < recorded(history, message).len() ==> recorded(history, message)[i] == history[i - 1],
{
}

/// A notice of the server is kept and shown for four seconds; that files are
/// ready to be pasted is kept alone.
pub proof fn law_notices_are_shown(p: Panel, after: Panel, message: Seq<char>, now: u64)
    requires
        p.noticed(after, message, now),
        now + 4_000_000_000 <= u64::MAX,
    ensures
        after.past().len() > 0 && after.past()[0] == message,
        !says_ready(message) ==> after.message@ == message && after.toast_until == Some(
            (now + 4_000_000_000) as u64,
        ) && !after.dismissed,
        says_ready(message) ==> after.message == p.message && after.toast_until == p.toast_until
            && after.dismissed == p.dismissed,
        after.open == p.open,
{
}

/// That files are ready is said by how many they are and the same words after.
pub proof fn law_ready_files_are_counted(n: usize, other: Seq<char>)
    ensures
        says_ready(
            text::decimal(n as nat)
                + " copied file(s) ready. Paste into a folder in the remote session."@,
        ),
        !(" copied file(s) ready. Paste into a folder in the remote session."@.is_suffix_of(other))
            ==> !says_ready(other),
{
    let words = " copied file(s) ready. Paste into a folder in the remote session."@;
    let count = text::decimal(n as nat);
    let s = count + words;
    assert(s.subrange(s.len() - words.len(), s.len() as int) =~= words);
    assert(s.take(s.len() - words.len()) =~= count);
    text::law_decimal_round_trip(n as nat, usize::MAX as nat);
    if text::ends_with(other, words) {
        assert(words =~= other.subrange(other.len() - words.len(), other.len() as int));
    }
}

/// What the panel shows: its details while it is open; else, unless it was waved
/// away, the progress of what has taken a second, or a message for its four
/// seconds.
pub proof fn law_panel_shows_what_is_due(
    p: Panel,
    after: Panel,
    now: u64,
    queued: usize,
    active: usize,
    frame: Frame,
)
    requires
        p.shown(after, now, queued, active, frame),
        p.active_since matches Some(at) ==> at <= now,
        now + 4_000_000_000 <= u64::MAX,
    ensures
        ({
            let busy = queued > 0 || active > 0;
            let news = p.message@ != p.seen_message@;
            let since = match p.active_since {
                Some(at) => at,
                None => now,
            };
            let long = busy && now - since >= 1_000_000_000;
            let message_shows = after.toast_until matches Some(until) && now < until;
            &&& p.open ==> frame.showing == Showing::Details
            &&& !p.open && p.dismissed && !news ==> frame.showing == Showing::Nothing
            &&& !p.open && (!p.dismissed || news) && long ==> frame.showing == Showing::Progress
            &&& !p.open && (!p.dismissed || news) && !long && message_shows && p.message@.len() > 0
                ==> frame.showing == Showing::Message
            &&& !p.open && (!p.dismissed || news) && !long && !message_shows ==> frame.showing
                == Showing::Nothing
            &&& news ==> after.toast_until == Some((now + 4_000_000_000) as u64)
            &&& !news && p.had_active && !busy ==> after.toast_until is None
            &&& !news && !(p.had_active && !busy) ==> after.toast_until == p.toast_until
            &&& busy ==> after.active_since == Some(since)
            &&& !busy ==> after.active_since is None
            &&& after.had_active == busy
            &&& after.seen_message@ == p.message@
            &&& after.message == p.message && after.open == p.open
        }),
{
}

/// The panel asks to be drawn again at the next moment at which it changes: when
/// progress is due, when its message goes, and ten times a second while it shows
/// progress.
pub proof fn law_panel_is_drawn_again(
    p: Panel,
    after: Panel,
    now: u64,
    queued: usize,
    active: usize,
    frame: Frame,
)
    requires
        p.shown(after, now, queued, active, frame),
        p.active_since matches Some(at) ==> at <= now,
    ensures
        frame.showing == Showing::Progress ==> (frame.repaint matches Some(t) && t <= 100_000_000),
        queued == 0 && active == 0 && !after.toasting(now) ==> frame.repaint is None,
        (queued > 0 || active > 0) && p.active_since is None ==> (frame.repaint matches Some(t) && t
            <= 1_000_000_000),
        after.toasting(now) ==> (frame.repaint matches Some(t) && t <= after.toast_until->0 - now),
        (queued > 0 || active > 0) && p.active_since is None && !after.toasting(now) ==> frame.repaint
            == Some(1_000_000_000u64),
{
}

/// The nearest whole number of parts: no other is nearer, and of two that are as
/// near it is the even one.
pub proof fn law_nearest_is_nearest(n: nat, d: nat)
    requires
        d > 0,
    ensures
        2 * (nearest(n, d) * d - n) <= d,
        2 * (n - nearest(n, d) * d) <= d,
        2 * (nearest(n, d) * d - n) == d || 2 * (n - nearest(n, d) * d) == d ==> nearest(n, d) % 2 == 0,
{
    let q = n / d;
    let r = n % d;
    assert(q * d + r == n && r < d) by (nonlinear_arith)
        requires
            d > 0,
            q == n / d,
            r == n % d,
    ;
    assert((q + 1) * d == q * d + d) by (nonlinear_arith);
    if nearest(n, d) == q + 1 {
        assert(nearest(n, d) * d == q * d + d);
    } else {
        assert(nearest(n, d) * d == q * d);
    }
}

/// A size is written in bytes below 1024 of them, and else in the nearest tenth
/// of the largest unit that it reaches, with one digit behind the point.
pub proof fn law_sizes_are_written(n: nat, t: nat)
    ensures
        n < 1024 ==> bytes_text(n) == text::decimal(n) + " B"@,
        1024 <= n < 1024 * 1024 && t == nearest(10 * n, 1024) ==> bytes_text(n) == text::decimal(
            t / 10,
        ) + seq!['.'] + text::decimal(t % 10) + " KB"@,
        1024 * 1024 <= n < 1024 * 1024 * 1024 && t == nearest(10 * n, 1024 * 1024) ==> bytes_text(n)
            == text::decimal(t / 10) + seq!['.'] + text::decimal(t % 10) + " MB"@,
        1024 * 1024 * 1024 <= n < 0x20_0000_0000_0000 && t == nearest(10 * n, 1024 * 1024 * 1024)
            ==> bytes_text(n) == text::decimal(t / 10) + seq!['.'] + text::decimal(t % 10) + " GB"@,
{
    assert(text::decimal(t % 10) =~= seq![text::digit(t % 10)]);
    assert(seq!['.', text::digit(t % 10)] =~= seq!['.'] + seq![text::digit(t % 10)]);
    assert(n * 10 == 10 * n);
    if n < 0x20_0000_0000_0000 {
        assert(nearest(n, 1) == n);
        assert(coarse(n) == n);
    }
    let unit = |u: Seq<char>| text::decimal(t / 10) + seq!['.'] + text::decimal(t % 10) + u;
    assert(tenths_text(t) + " KB"@ =~= unit(" KB"@));
    assert(tenths_text(t) + " MB"@ =~= unit(" MB"@));
    assert(tenths_text(t) + " GB"@ =~= unit(" GB"@));
}

/// A large size is first rounded to as many bits as a number with a point holds,
/// which are 53: to the nearest multiple of a power of two.
pub proof fn law_large_sizes_are_rounded_to_53_bits(n: nat, t: nat)
    requires
        0x20_0000_0000_0000 <= n <= u64::MAX,
    ensures
        ({
            let g = grain(n);
            &&& g == 2 || g == 4 || g == 8 || g == 16 || g == 32 || g == 64 || g == 128 || g == 256
                || g == 512 || g == 1024 || g == 2048
            &&& g * 0x10_0000_0000_0000 <= n < g * 0x20_0000_0000_0000
            &&& coarse(n) == nearest(n, g) * g
            &&& t == nearest(coarse(n) * 10, 1024 * 1024 * 1024) ==> bytes_text(n) == text::decimal(
                t / 10,
            ) + seq!['.', text::digit(t % 10)] + " GB"@
        }),
{
}

} // verus!
