//! Deciding when the local clipboard is worth reading.
//!
//! Reading it is not free: reading an image transfers the whole of it out of
//! the window system before the caller can so much as ask whether it changed.
//! Some platforms keep a counter that moves on any copy, so a single read of
//! it answers for text and image together. Where there is none, what is left
//! is to look less often when looking keeps finding nothing, and to look again
//! at once when something turns up or when the user comes back to the window.

use vstd::prelude::*;

use crate::time;

verus! {

/// Shortest gap between image polls on a platform with no change counter.
pub const MIN_IMAGE_POLL: u64 = 700_000_000;

/// Longest gap between image polls on a platform with no change counter.
pub const MAX_IMAGE_POLL: u64 = 5_000_000_000;

/// What the platform said when it was asked for its clipboard change counter.
#[derive(Clone, Copy, Debug, PartialEq, Eq, Structural)]
pub enum Counter {
    /// The platform has none.
    Missing,
    /// A sequence number; zero is how a failure is reported.
    Sequence(u32),
    /// A count of changes.
    Changes(i64),
}

/// What is worth reading on this tick.
#[derive(Clone, Copy, Debug, PartialEq, Eq, Structural)]
pub struct Look {
    /// Read the clipboard text.
    pub text: bool,
    /// Read the clipboard image -- the expensive one.
    pub image: bool,
}

/// Rising interval for a platform that cannot be asked.
#[derive(Clone, Copy, Debug, PartialEq, Eq, Structural)]
pub struct Backoff {
    pub interval: u64,
    pub next: u64,
}

impl Backoff {
    /// The interval stays between the floor and the ceiling.
    pub open spec fn wf(self) -> bool {
        MIN_IMAGE_POLL <= self.interval <= MAX_IMAGE_POLL
    }

    /// The interval that follows a look.
    pub open spec fn next_interval(self, found_change: bool) -> u64 {
        if found_change {
            MIN_IMAGE_POLL
        } else if 2 * self.interval <= MAX_IMAGE_POLL {
            (2 * self.interval) as u64
        } else {
            MAX_IMAGE_POLL
        }
    }

    pub fn new(now: u64) -> (b: Backoff)
        ensures
            b.wf(),
            b == (Backoff { interval: MIN_IMAGE_POLL, next: now }),
    {
        Backoff { interval: MIN_IMAGE_POLL, next: now }
    }

    /// Whether a look is due.
    pub fn due(&self, now: u64) -> (r: bool)
        ensures
            r == (now >= self.next),
    {
        now >= self.next
    }

    /// Record what a look found and schedule the next one.
    pub fn looked(&mut self, found_change: bool, now: u64)
        requires
            old(self).wf(),
        ensures
            final(self).wf(),
            final(self).interval == old(self).next_interval(found_change),
            final(self).next == time::later(now, final(self).interval),
    {
        self.interval = if found_change {
            MIN_IMAGE_POLL
        } else {
            time::min_span(self.interval * 2, MAX_IMAGE_POLL)
        };
        self.next = time::after(now, self.interval);
    }

    /// Look again immediately, whatever the schedule said.
    pub fn reset(&mut self, now: u64)
        ensures
            final(self).wf(),
            *final(self) == (Backoff { interval: MIN_IMAGE_POLL, next: now }),
    {
        self.interval = MIN_IMAGE_POLL;
        self.next = now;
    }
}

/// Tracks whether the local clipboard is worth reading.
#[derive(Clone, Copy, Debug, PartialEq, Eq)]
pub struct ClipboardWatcher {
    /// Last value of the platform change counter, where there is one.
    pub last: Option<u64>,
    pub backoff: Backoff,
}

impl ClipboardWatcher {
    pub open spec fn wf(self) -> bool {
        self.backoff.wf()
    }

    /// What a tick reads: everything where the counter moved, and nothing
    /// where it did not; without a counter the text always, and the image when
    /// the schedule says so.
    pub open spec fn look(self, counter: Option<u64>, now: u64) -> Look {
        match counter {
            Some(_) => Look { text: self.last != counter, image: self.last != counter },
            None => Look { text: true, image: now >= self.backoff.next },
        }
    }

    /// Start watching. The first tick always reads: whatever is on the
    /// clipboard when a session opens has never been offered to it.
    pub fn new(now: u64) -> (w: ClipboardWatcher)
        ensures
            w.wf(),
            w.last is None,
            w.backoff == (Backoff { interval: MIN_IMAGE_POLL, next: now }),
    {
        ClipboardWatcher { last: None, backoff: Backoff::new(now) }
    }

    /// The state after a tick.
    pub open spec fn ticked(self, counter: Option<u64>) -> ClipboardWatcher {
        match counter {
            Some(_) => ClipboardWatcher { last: counter, ..self },
            None => self,
        }
    }

    /// Decide what to read this tick, given what the platform said of its
    /// counter.
    pub fn tick(&mut self, said: Counter, now: u64) -> (look: Look)
        requires
            old(self).wf(),
        ensures
            final(self).wf(),
            look == old(self).look(counter_of(said), now),
            *final(self) == old(self).ticked(counter_of(said)),
    {
        self.tick_with(change_counter(said), now)
    }

    /// Report whether the image read found something new.
    pub fn image_read(&mut self, found_change: bool, now: u64)
        requires
            old(self).wf(),
        ensures
            final(self).wf(),
            final(self).last == old(self).last,
            final(self).backoff.interval == old(self).backoff.next_interval(found_change),
            final(self).backoff.next == time::later(now, final(self).backoff.interval),
    {
        self.backoff.looked(found_change, now);
    }

    /// The user came back to the window, so look again without waiting.
    ///
    /// Only the backoff needs this: a change counter is already exact.
    pub fn wake(&mut self, now: u64)
        ensures
            final(self).wf(),
            final(self).last == old(self).last,
            final(self).backoff == (Backoff { interval: MIN_IMAGE_POLL, next: now }),
    {
        self.backoff.reset(now);
    }

    /// The decision, given whatever the platform counter says.
    pub fn tick_with(&mut self, counter: Option<u64>, now: u64) -> (look: Look)
        requires
            old(self).wf(),
        ensures
            final(self).wf(),
            look == old(self).look(counter, now),
            *final(self) == old(self).ticked(counter),
    {
        match counter {
            Some(c) => {
                let changed = match self.last {
                    Some(l) => l != c,
                    None => true,
                };
                self.last = Some(c);
                Look { text: changed, image: changed }
            },
            None => Look { text: true, image: self.backoff.due(now) },
        }
    }
}

/// The value of a change counter, if it answered. Only "differs from last
/// time" is ever asked of it, so a count of changes is taken modulo the width.
pub open spec fn counter_of(said: Counter) -> Option<u64> {
    match said {
        Counter::Missing => None,
        Counter::Sequence(n) => if n == 0 {
            None
        } else {
            Some(n as u64)
        },
        Counter::Changes(n) => Some(n as u64),
    }
}

/// The platform's clipboard change counter, if it has one.
///
/// A sequence number of zero is a failure. Reported as a value it would be
/// indistinguishable from a clipboard that never changes; reported as no
/// counter it costs nothing but a fall back to polling.
pub fn change_counter(said: Counter) -> (c: Option<u64>)
    ensures
        c == counter_of(said),
{
    match said {
        Counter::Missing => None,
        Counter::Sequence(n) => if n == 0 {
            None
        } else {
            Some(n as u64)
        },
        Counter::Changes(n) => Some(n as u64),
    }
}

/// A counter that does not move means that nothing is read, however long ago
/// the last tick was.
pub proof fn law_still_counter_reads_nothing(w: ClipboardWatcher, counter: u64, now: u64)
    requires
        w.last == Some(counter),
    ensures
        w.look(Some(counter), now) == (Look { text: false, image: false }),
{
}

/// A count that moved is read as a counter that moved, so a change is never
/// missed: two counts that differ are two values that differ.
pub proof fn law_moved_counter_is_seen(
    w: ClipboardWatcher,
    before: i64,
    after: i64,
    now: u64,
)
    requires
        before != after,
        w.last == counter_of(Counter::Changes(before)),
    ensures
        w.look(counter_of(Counter::Changes(after)), now) == (Look { text: true, image: true }),
{
    assert(before as u64 != after as u64) by (bit_vector)
        requires
            before != after,
    ;
}

/// However often nothing is found, an image is looked for again within the
/// ceiling; and coming back to the window makes it due at once.
pub proof fn law_backoff_is_bounded(b: Backoff, found_change: bool, now: u64)
    requires
        b.wf(),
    ensures
        MIN_IMAGE_POLL <= b.next_interval(found_change) <= MAX_IMAGE_POLL,
        time::later(now, b.next_interval(found_change)) <= time::later(now, MAX_IMAGE_POLL),
{
}

/// Where the system counts changes, the clipboard is read when the count has
/// moved and at no other time; where it does not, texts are read at every look
/// and images at their own pace.
pub proof fn law_clipboard_is_read_when_it_moved(w: ClipboardWatcher, counter: u64, now: u64)
    ensures
        w.look(Some(counter), now).text <==> w.last != Some(counter),
        w.look(Some(counter), now).image <==> w.last != Some(counter),
        w.look(None, now).text,
        w.look(None, now).image <==> now >= w.backoff.next,
        w.ticked(Some(counter)).last == Some(counter),
        w.ticked(None) == w,
        w.ticked(Some(counter)).backoff == w.backoff,
{
}

/// Images are read every seven tenths of a second after a change, and half as
/// often each time nothing has changed, down to every five seconds.
pub proof fn law_pace_halves(b: Backoff)
    requires
        b.wf(),
    ensures
        b.next_interval(true) == 700_000_000,
        b.interval <= 2_500_000_000 ==> b.next_interval(false) == b.interval + b.interval,
        b.interval > 2_500_000_000 ==> b.next_interval(false) == 5_000_000_000,
{
}

/// A sequence number of zero is no count, and neither is a system without one.
pub proof fn law_counts_are_read(n: u32)
    ensures
        counter_of(Counter::Missing) is None,
        counter_of(Counter::Sequence(0)) is None,
        n > 0 ==> counter_of(Counter::Sequence(n)) == Some(n as u64),
{
}

} // verus!
