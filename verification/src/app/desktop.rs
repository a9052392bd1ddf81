//! One application that owns the connection manager and every session window.
//!
//! Network setup stays on workers; all window creation and input stay on the
//! main thread. What the host decides between them is decided here.

use vstd::prelude::*;

use crate::app::keys::PhysicalKey;
use crate::text;
use crate::time;

verus! {

/// The longest the host sleeps.
pub const LONGEST_SLEEP: u64 = 250_000_000;

/// The longest the manager goes without a repaint.
pub const LONGEST_REPAINT: u64 = 500_000_000;

/// What the host does with a key before a window sees it.
#[derive(Clone, Copy, Debug, PartialEq, Eq, Structural)]
pub enum HostKey {
    /// Nothing more: the release of a key the host kept.
    Swallow,
    /// End the application.
    Quit,
    /// Close the window.
    CloseWindow,
    /// The window gets it.
    Pass,
}

/// What closing the manager comes to.
#[derive(Clone, Copy, Debug, PartialEq, Eq, Structural)]
pub enum ManagerClose {
    /// A question was cancelled: repaint.
    Redraw,
    /// End the application.
    Exit,
    /// Hide the manager and keep the sessions.
    Hide,
}

/// What the host does once no session is left.
#[derive(Clone, Copy, Debug, PartialEq, Eq, Structural)]
pub enum Rest {
    Nothing,
    /// Show the manager again.
    Show,
    /// End the application.
    Exit,
}

/// The keys the host kept.
#[derive(Clone, Debug, PartialEq, Eq)]
pub struct HostKeys {
    pub swallowed: Vec<PhysicalKey>,
}

/// The keys but for `key`.
pub open spec fn kept(keys: Seq<PhysicalKey>, key: PhysicalKey) -> Seq<PhysicalKey>
    decreases keys.len(),
{
    if keys.len() == 0 {
        keys
    } else if keys.last() == key {
        kept(keys.drop_last(), key)
    } else {
        kept(keys.drop_last(), key).push(keys.last())
    }
}

/// What a key event does.
pub open spec fn host_step(swallowed: Seq<PhysicalKey>, logo: bool, key: PhysicalKey, down: bool) -> (
    Seq<PhysicalKey>,
    HostKey,
) {
    if !down && swallowed.contains(key) {
        (kept(swallowed, key), HostKey::Swallow)
    } else if down && logo && key == PhysicalKey::KeyQ {
        (swallowed, HostKey::Quit)
    } else if down && logo && key == PhysicalKey::KeyW {
        (
            if swallowed.contains(key) {
                swallowed
            } else {
                swallowed.push(key)
            },
            HostKey::CloseWindow,
        )
    } else {
        (swallowed, HostKey::Pass)
    }
}

impl HostKeys {
    pub fn new() -> (h: HostKeys)
        ensures
            h.swallowed@.len() == 0,
    {
        HostKeys { swallowed: Vec::new() }
    }

    fn holds(&self, key: PhysicalKey) -> (r: bool)
        ensures
            r == self.swallowed@.contains(key),
    {
        let mut i: usize = 0;
        while i < self.swallowed.len()
            invariant
                i <= self.swallowed.len(),
                forall|j: int| 0 <= j < i ==> self.swallowed@[j] != key,
            decreases self.swallowed.len() - i,
        {
            if self.swallowed[i] == key {
                return true;
            }
            i = i + 1;
        }
        false
    }

    fn forget(&mut self, key: PhysicalKey)
        ensures
            final(self).swallowed@ == kept(old(self).swallowed@, key),
    {
        let mut left: Vec<PhysicalKey> = Vec::new();
        let mut i: usize = 0;
        assert(self.swallowed@.take(0) =~= Seq::<PhysicalKey>::empty());
        while i < self.swallowed.len()
            invariant
                i <= self.swallowed.len(),
                self.swallowed@ == old(self).swallowed@,
                left@ == kept(self.swallowed@.take(i as int), key),
            decreases self.swallowed.len() - i,
        {
            assert(self.swallowed@.take(i + 1).drop_last() =~= self.swallowed@.take(i as int));
            if self.swallowed[i] != key {
                left.push(self.swallowed[i]);
            }
            i = i + 1;
        }
        assert(self.swallowed@.take(i as int) =~= self.swallowed@);
        self.swallowed = left;
    }

    /// Take a key event before a window sees it.
    pub fn on_key(&mut self, logo: bool, key: PhysicalKey, down: bool) -> (r: HostKey)
        ensures
            (final(self).swallowed@, r) == host_step(old(self).swallowed@, logo, key, down),
    {
        if !down && self.holds(key) {
            self.forget(key);
            return HostKey::Swallow;
        }
        if logo && down {
            if key == PhysicalKey::KeyQ {
                return HostKey::Quit;
            }
            if key == PhysicalKey::KeyW {
                if !self.holds(key) {
                    self.swallowed.push(key);
                }
                return HostKey::CloseWindow;
            }
        }
        HostKey::Pass
    }
}

/// The release of the key that closed a window reaches no other window,
/// whatever modifiers are still down.
pub proof fn law_closing_key_stays_with_the_host(swallowed: Seq<PhysicalKey>, logo: bool)
    ensures
        host_step(
            host_step(swallowed, true, PhysicalKey::KeyW, true).0,
            logo,
            PhysicalKey::KeyW,
            false,
        ).1 == HostKey::Swallow,
{
    let key = PhysicalKey::KeyW;
    if !swallowed.contains(key) {
        assert(swallowed.push(key)[swallowed.len() as int] == key);
    }
}

/// What closing the manager comes to: a question that is open is cancelled
/// first, and sessions outlive the manager.
pub fn close_manager(cancelled: bool, viewers: usize, pending: usize) -> (r: ManagerClose)
    ensures
        r == if cancelled {
            ManagerClose::Redraw
        } else if viewers == 0 && pending == 0 {
            ManagerClose::Exit
        } else {
            ManagerClose::Hide
        },
{
    if cancelled {
        ManagerClose::Redraw
    } else if viewers == 0 && pending == 0 {
        ManagerClose::Exit
    } else {
        ManagerClose::Hide
    }
}

/// What the host does once no session is left. `manager` says of the manager,
/// where there is one, whether it is known to be visible.
pub fn at_rest(viewers: usize, pending: usize, manager: Option<Option<bool>>) -> (r: Rest)
    ensures
        r == if viewers > 0 || pending > 0 {
            Rest::Nothing
        } else {
            match manager {
                Some(visible) => if visible == Some(false) {
                    Rest::Show
                } else {
                    Rest::Nothing
                },
                None => Rest::Exit,
            }
        },
{
    if viewers > 0 || pending > 0 {
        return Rest::Nothing;
    }
    match manager {
        Some(Some(visible)) => if visible {
            Rest::Nothing
        } else {
            Rest::Show
        },
        Some(None) => Rest::Nothing,
        None => Rest::Exit,
    }
}

/// Whether the manager can be drawn, as far as is known of it.
pub fn drawable(visible: Option<bool>, minimized: Option<bool>) -> (r: bool)
    ensures
        r == (visible != Some(false) && minimized != Some(true)),
{
    let hidden = match visible {
        Some(v) => !v,
        None => false,
    };
    let small = match minimized {
        Some(m) => m,
        None => false,
    };
    !hidden && !small
}

/// When the manager is repainted next.
pub fn repaint_at(now: u64, delay: u64) -> (at: u64)
    ensures
        at == time::later(now, time::shorter(delay, LONGEST_REPAINT)),
{
    time::after(now, time::min_span(delay, LONGEST_REPAINT))
}

/// The earliest of some times and `at`.
pub open spec fn earliest(at: u64, spans: Seq<u64>, now: u64) -> u64
    decreases spans.len(),
{
    if spans.len() == 0 {
        at
    } else {
        time::shorter(earliest(at, spans.drop_last(), now), time::later(now, spans.last()))
    }
}

/// When the host wakes, and whether it repaints the manager first. `spans` are
/// how long each session window may sleep, and `repaint` when the manager is
/// due, where it can be drawn.
pub fn next_wake(now: u64, spans: &Vec<u64>, repaint: Option<u64>) -> (r: (u64, bool))
    ensures
        ({
            let base = earliest(time::later(now, LONGEST_SLEEP), spans@, now);
            r == match repaint {
                Some(at) => if now >= at {
                    (base, true)
                } else {
                    (time::shorter(base, at), false)
                },
                None => (base, false),
            }
        }),
{
    let mut wake: u64 = time::after(now, LONGEST_SLEEP);
    let mut i: usize = 0;
    assert(spans@.take(0) =~= Seq::<u64>::empty());
    while i < spans.len()
        invariant
            i <= spans.len(),
            wake == earliest(time::later(now, LONGEST_SLEEP), spans@.take(i as int), now),
        decreases spans.len() - i,
    {
        assert(spans@.take(i + 1).drop_last() =~= spans@.take(i as int));
        wake = time::min_span(wake, time::after(now, spans[i]));
        i = i + 1;
    }
    assert(spans@.take(i as int) =~= spans@);
    match repaint {
        Some(at) => if now >= at {
            (wake, true)
        } else {
            (time::min_span(wake, at), false)
        },
        None => (wake, false),
    }
}

/// No session window sleeps longer than it may.
pub proof fn law_no_window_oversleeps(at: u64, spans: Seq<u64>, now: u64, i: int)
    requires
        0 <= i < spans.len(),
    ensures
        earliest(at, spans, now) <= time::later(now, spans[i]),
        earliest(at, spans, now) <= at,
    decreases spans.len(),
{
    if i < spans.len() - 1 {
        law_no_window_oversleeps(at, spans.drop_last(), now, i);
    } else if spans.len() > 1 {
        law_no_window_oversleeps(at, spans.drop_last(), now, 0);
    }
}

/// The places of the windows that stay.
pub open spec fn staying(reasons: Seq<Option<String>>) -> Seq<usize>
    decreases reasons.len(),
{
    if reasons.len() == 0 {
        Seq::empty()
    } else if reasons.last() is None {
        staying(reasons.drop_last()).push((reasons.len() - 1) as usize)
    } else {
        staying(reasons.drop_last())
    }
}

/// Why the last window that goes does, if one does.
pub open spec fn last_reason(reasons: Seq<Option<String>>) -> Option<Seq<char>>
    decreases reasons.len(),
{
    if reasons.len() == 0 {
        None
    } else {
        match reasons.last() {
            Some(r) => Some(r@),
            None => last_reason(reasons.drop_last()),
        }
    }
}

/// Part the windows that stay from those that go, given why each goes where it
/// does: the places of those that stay, in order, and the last reason.
pub fn sweep(reasons: &Vec<Option<String>>) -> (r: (Vec<usize>, Option<String>))
    ensures
        r.0@ == staying(reasons@),
        match r.1 {
            Some(s) => last_reason(reasons@) == Some(s@),
            None => last_reason(reasons@) is None,
        },
{
    let mut live: Vec<usize> = Vec::new();
    let mut last: Option<String> = None;
    let mut i: usize = 0;
    assert(reasons@.take(0) =~= Seq::<Option<String>>::empty());
    while i < reasons.len()
        invariant
            i <= reasons.len(),
            live@ == staying(reasons@.take(i as int)),
            match last {
                Some(s) => last_reason(reasons@.take(i as int)) == Some(s@),
                None => last_reason(reasons@.take(i as int)) is None,
            },
        decreases reasons.len() - i,
    {
        assert(reasons@.take(i + 1).drop_last() =~= reasons@.take(i as int));
        match &reasons[i] {
            Some(s) => {
                last = Some(s.clone());
            },
            None => {
                live.push(i);
            },
        }
        i = i + 1;
    }
    assert(reasons@.take(i as int) =~= reasons@);
    (live, last)
}

/// How a session that did not come about is reported.
#[derive(Clone, Copy, Debug, PartialEq, Eq, Structural)]
pub enum Lost {
    /// Its window could not be made.
    Window,
    /// The connection failed.
    Connection,
    /// The worker went away without an answer.
    Worker,
}

/// How a session that did not come about is reported.
pub fn lost_text(lost: Lost, name: &str, error: &str) -> (s: String)
    ensures
        s@ == match lost {
            Lost::Window => "Could not open "@ + name@ + ": "@ + error@,
            Lost::Connection => "Could not connect to "@ + name@ + ": "@ + error@,
            Lost::Worker => "Connection to "@ + name@ + " stopped unexpectedly"@,
        },
{
    let mut s = match lost {
        Lost::Window => text::copy("Could not open "),
        Lost::Connection => text::copy("Could not connect to "),
        Lost::Worker => text::copy("Connection to "),
    };
    s.push_str(name);
    match lost {
        Lost::Worker => {
            s.push_str(" stopped unexpectedly");
        },
        _ => {
            s.push_str(": ");
            s.push_str(error);
        },
    }
    s
}

// ---------------------------------------------------------------------------
// Laws of the windows together
// ---------------------------------------------------------------------------

/// With the logo key held, `Q` quits and `W` closes the window; every other key,
/// and every key without it, is the window's own, unless its press was kept.
pub proof fn law_host_keys_are_these(
    swallowed: Seq<PhysicalKey>,
    logo: bool,
    key: PhysicalKey,
    down: bool,
)
    ensures
        host_step(swallowed, true, PhysicalKey::KeyQ, true).1 == HostKey::Quit,
        host_step(swallowed, true, PhysicalKey::KeyW, true).1 == HostKey::CloseWindow,
        host_step(swallowed, true, PhysicalKey::KeyW, true).0.contains(PhysicalKey::KeyW),
        down && (!logo || (key != PhysicalKey::KeyQ && key != PhysicalKey::KeyW)) ==> host_step(
            swallowed,
            logo,
            key,
            down,
        ) == (swallowed, HostKey::Pass),
        !down && !swallowed.contains(key) ==> host_step(swallowed, logo, key, down) == (
            swallowed,
            HostKey::Pass,
        ),
        !down && swallowed.contains(key) ==> host_step(swallowed, logo, key, down).1
            == HostKey::Swallow && !host_step(swallowed, logo, key, down).0.contains(key),
{
    let closing = host_step(swallowed, true, PhysicalKey::KeyW, true).0;
    if !swallowed.contains(PhysicalKey::KeyW) {
        assert(closing[swallowed.len() as int] == PhysicalKey::KeyW);
    }
    lemma_kept_without(swallowed, key);
}

proof fn lemma_kept_without(keys: Seq<PhysicalKey>, key: PhysicalKey)
    ensures
        !kept(keys, key).contains(key),
        forall|k: PhysicalKey| k != key && #[trigger] keys.contains(k) ==> kept(keys, key).contains(k),
    decreases keys.len(),
{
    if keys.len() > 0 {
        let head = keys.drop_last();
        lemma_kept_without(head, key);
        let all = kept(keys, key);
        assert forall|k: PhysicalKey| k != key && #[trigger] keys.contains(k) implies all.contains(
            k,
        ) by {
            let i = choose|i: int| 0 <= i < keys.len() && keys[i] == k;
            if i < head.len() {
                assert(head[i] == k);
                assert(head.contains(k));
                let j = choose|j: int|
                    0 <= j < kept(head, key).len() && kept(head, key)[j] == k;
                assert(all[j] == k);
            } else {
                assert(all[all.len() - 1] == k);
            }
        }
        if all.contains(key) {
            let j = choose|j: int| 0 <= j < all.len() && all[j] == key;
            if j < kept(head, key).len() {
                assert(kept(head, key)[j] == key);
                assert(kept(head, key).contains(key));
            }
        }
    }
}

/// The windows wake at one of the moments that were asked for, and at no later
/// one.
pub proof fn law_wakes_at_a_moment_that_was_asked_for(at: u64, spans: Seq<u64>, now: u64)
    ensures
        earliest(at, spans, now) == at || exists|i: int|
            0 <= i < spans.len() && earliest(at, spans, now) == time::later(
                now,
                #[trigger] spans[i],
            ),
        LONGEST_SLEEP == 250_000_000,
        LONGEST_REPAINT == 500_000_000,
    decreases spans.len(),
{
    if spans.len() > 0 {
        law_wakes_at_a_moment_that_was_asked_for(at, spans.drop_last(), now);
        if exists|i: int|
            0 <= i < spans.drop_last().len() && earliest(at, spans.drop_last(), now) == time::later(
                now,
                #[trigger] spans.drop_last()[i],
            ) {
            let i = choose|i: int|
                0 <= i < spans.drop_last().len() && earliest(at, spans.drop_last(), now)
                    == time::later(now, #[trigger] spans.drop_last()[i]);
            assert(spans[i] == spans.drop_last()[i]);
        }
        assert(spans[spans.len() - 1] == spans.last());
    }
}

/// A window stays exactly while it has no reason to end, in its order, and the
/// reason that is shown is that of the last one that has one.
pub proof fn law_ended_windows_go(reasons: Seq<Option<String>>, one: Option<String>)
    ensures
        staying(Seq::empty()) == Seq::<usize>::empty(),
        last_reason(Seq::empty()) is None,
        one is None ==> staying(reasons.push(one)) == staying(reasons).push(reasons.len() as usize)
            && last_reason(reasons.push(one)) == last_reason(reasons),
        one matches Some(r) ==> staying(reasons.push(one)) == staying(reasons) && last_reason(
            reasons.push(one),
        ) == Some(r@),
{
    assert(reasons.push(one).drop_last() =~= reasons);
}

} // verus!
