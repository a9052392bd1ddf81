//! Resize ownership and debounce.

use vstd::prelude::*;

use crate::proto;
use crate::time;

verus! {

/// How long to wait after the last resize before asking the server.
pub const RESIZE_DEBOUNCE: u64 = 200_000_000;

/// The smallest side a remote screen is asked for.
pub const MIN_SIDE: u32 = 64;

pub type Size = (u32, u32);

/// Which size the remote screen should have, and whether to ask for it.
#[derive(Clone, Copy, Debug, PartialEq, Eq)]
pub struct ResizeSync {
    /// A size to ask for, and since when.
    pub pending: Option<(u64, Size)>,
    /// The last disagreement that was corrected: what was wanted, and what the
    /// remote screen had.
    pub correction: Option<(Size, Size)>,
}

/// A size cut to what the protocol can say.
pub open spec fn sendable(size: Size) -> Size {
    (
        proto::min_of(size.0 as int, u16::MAX as int) as u32,
        proto::min_of(size.1 as int, u16::MAX as int) as u32,
    )
}

impl Default for ResizeSync {
    fn default() -> (r: ResizeSync)
        ensures
            r == (ResizeSync { pending: None, correction: None }),
    {
        ResizeSync { pending: None, correction: None }
    }
}

impl ResizeSync {
    /// The window has a new size.
    pub fn viewport_changed(&mut self, target: Size, now: u64)
        ensures
            *final(self) == (ResizeSync { pending: Some((now, target)), correction: None }),
    {
        self.correction = None;
        self.pending = Some((now, target));
    }

    /// What a new remote size makes of the state.
    ///
    /// An identical reply can be a server's configured size limit. It is
    /// corrected once, and not turned into an endless exchange: a successful
    /// resize or a new viewport resets the guard. A stream of desktop resizes
    /// must not postpone a request already queued for the viewport.
    pub open spec fn after_remote(self, target: Size, remote: Size, now: u64) -> ResizeSync {
        if target == remote {
            ResizeSync { pending: None, correction: None }
        } else if self.correction == Some((target, remote)) {
            self
        } else {
            ResizeSync {
                correction: Some((target, remote)),
                pending: if self.pending matches Some((_, size)) && size == target {
                    self.pending
                } else {
                    Some((now, target))
                },
            }
        }
    }

    /// The remote screen has a new size, and the window wants `target`.
    pub fn remote_changed(&mut self, target: Size, remote: Size, now: u64)
        ensures
            *final(self) == old(self).after_remote(target, remote, now),
    {
        if target.0 == remote.0 && target.1 == remote.1 {
            self.correction = None;
            self.pending = None;
            return;
        }
        let known = match self.correction {
            Some((t, r)) => t.0 == target.0 && t.1 == target.1 && r.0 == remote.0 && r.1
                == remote.1,
            None => false,
        };
        if known {
            return;
        }
        self.correction = Some((target, remote));
        let queued = match self.pending {
            Some((_, size)) => size.0 == target.0 && size.1 == target.1,
            None => false,
        };
        if !queued {
            self.pending = Some((now, target));
        }
    }

    /// Whether a size waits to be asked for.
    pub fn is_pending(&self) -> (r: bool)
        ensures
            r == self.pending is Some,
    {
        self.pending.is_some()
    }

    /// Whether a waiting size has waited long enough.
    pub open spec fn due(self, now: u64) -> bool {
        self.pending matches Some((at, _)) && time::since(now, at) >= RESIZE_DEBOUNCE
    }

    /// The size to ask the server for now, if any: not the one it has, and not
    /// that of a minimised window.
    pub fn take_due(&mut self, now: u64, remote: Size) -> (r: Option<Size>)
        ensures
            if old(self).due(now) {
                let target = sendable((old(self).pending->0).1);
                &&& *final(self) == (ResizeSync { pending: None, ..*old(self) })
                &&& r == if target != remote && target.0 >= MIN_SIDE && target.1 >= MIN_SIDE {
                    Some(target)
                } else {
                    None
                }
            } else {
                *final(self) == *old(self) && r is None
            },
    {
        let (at, wanted) = match self.pending {
            Some(p) => p,
            None => {
                return None;
            },
        };
        if time::elapsed(now, at) < RESIZE_DEBOUNCE {
            return None;
        }
        self.pending = None;
        let target: Size = (
            proto::min_u32(wanted.0, u16::MAX as u32),
            proto::min_u32(wanted.1, u16::MAX as u32),
        );
        if !(target.0 == remote.0 && target.1 == remote.1) && target.0 >= MIN_SIDE && target.1
            >= MIN_SIDE {
            Some(target)
        } else {
            None
        }
    }
}

/// A product, clamped to the range of pixels.
pub open spec fn scaled(side: u32, scale: u32) -> u32 {
    proto::clamp_u32(side * proto::max_of(scale as int, 1))
}

fn scale_side(side: u32, scale: u32) -> (r: u32)
    ensures
        r == scaled(side, scale),
{
    let factor: u64 = if scale > 1 {
        scale as u64
    } else {
        1
    };
    assert(side * factor <= 0xffff_ffff * 0xffff_ffff) by (nonlinear_arith)
        requires
            side <= 0xffff_ffff,
            factor <= 0xffff_ffff,
    ;
    let product: u64 = side as u64 * factor;
    if product > u32::MAX as u64 {
        u32::MAX
    } else {
        product as u32
    }
}

/// The size a window opens with: the remote screen at the chosen scale, and
/// no larger than the monitor where the size was not chosen by the user.
pub fn initial_window_size(remote: Size, scale: u32, monitor: Option<Size>, automatic: bool) -> (r:
    Size)
    ensures
        ({
            let wanted = (scaled(remote.0, scale), scaled(remote.1, scale));
            r == if automatic && monitor is Some && (monitor->0).0 > 0 && (monitor->0).1 > 0 {
                (
                    proto::min_of(wanted.0 as int, (monitor->0).0 as int) as u32,
                    proto::min_of(wanted.1 as int, (monitor->0).1 as int) as u32,
                )
            } else {
                wanted
            }
        }),
{
    let width: u32 = scale_side(remote.0, scale);
    let height: u32 = scale_side(remote.1, scale);
    if automatic {
        if let Some((w, h)) = monitor {
            if w > 0 && h > 0 {
                return (proto::min_u32(width, w), proto::min_u32(height, h));
            }
        }
    }
    (width, height)
}

/// A clamped reply does not cause an endless exchange: once the same answer to
/// the same wish has been corrected and the request has gone out, hearing it
/// again changes nothing and sends nothing.
pub proof fn law_clamped_reply_is_corrected_once(
    r: ResizeSync,
    target: Size,
    remote: Size,
    now: u64,
    later: u64,
)
    requires
        target != remote,
    ensures
        ({
            let first = r.after_remote(target, remote, now);
            let sent = ResizeSync { pending: None, ..first };
            &&& r.correction != Some((target, remote)) ==> (first.pending matches Some((_, size))
                && size == target)
            &&& sent.after_remote(target, remote, later) == sent
        }),
{
}

/// A resize that succeeded lets a later change be corrected again.
pub proof fn law_success_resets_the_guard(
    r: ResizeSync,
    target: Size,
    other: Size,
    now: u64,
    later: u64,
)
    requires
        target != other,
    ensures
        r.after_remote(target, target, now).after_remote(target, other, later).pending == Some(
            (later, target),
        ),
{
}

/// Server events do not postpone a request that waits for the viewport.
pub proof fn law_server_events_do_not_postpone(
    r: ResizeSync,
    target: Size,
    remote: Size,
    now: u64,
)
    requires
        target != remote,
        r.pending matches Some((_, size)) && size == target,
    ensures
        r.after_remote(target, remote, now).pending == r.pending,
{
}

/// A window that has kept its size for a fifth of a second is asked of the
/// server at that size, unless the server has it already or a side is under
/// sixty-four pixels; sooner nothing is asked. A side of more than the protocol
/// holds is asked as the most it does.
pub proof fn law_settled_size_is_asked(r: ResizeSync, at: u64, target: Size, now: u64)
    requires
        r.pending == Some((at, target)),
        at <= now,
    ensures
        r.due(now) <==> now - at >= 200_000_000,
        target.0 <= 65535 && target.1 <= 65535 ==> sendable(target) == target,
        target.0 > 65535 ==> sendable(target).0 == 65535,
        target.1 > 65535 ==> sendable(target).1 == 65535,
        target.0 <= 65535 ==> sendable(target).0 == target.0,
        target.1 <= 65535 ==> sendable(target).1 == target.1,
        MIN_SIDE == 64,
{
}

/// Nothing is asked where no size waits; and a size that the server confirms
/// stops waiting.
pub proof fn law_nothing_waits_after_the_answer(r: ResizeSync, target: Size, now: u64)
    ensures
        r.pending is None ==> !r.due(now),
        r.after_remote(target, target, now).pending is None,
        r.after_remote(target, target, now).correction is None,
{
}

/// A window opens as many times as large as the screen as the scale says, and a
/// scale of nothing is one of one.
pub proof fn law_window_opens_to_scale(side: u32, scale: u32)
    requires
        side * scale <= u32::MAX,
    ensures
        scale >= 1 ==> scaled(side, scale) == side * scale,
        scale == 0 ==> scaled(side, scale) == side,
{
    assert(side * 1 == side);
}

} // verus!
