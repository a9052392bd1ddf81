//! The backlog of messages that wait for the network.
//!
//! An overloaded link is closed rather than dropping input (especially key and
//! button releases) or accumulating an unbounded backlog of stale input.

use vstd::prelude::*;

use crate::text;

verus! {

/// The most messages that wait.
pub const MAX_MESSAGES: usize = 256;

/// The most bytes that wait.
pub const MAX_BYTES: usize = 8_388_608;

/// How long a link that is being closed may take over what still waits, in
/// nanoseconds.
pub const CLOSE_GRACE: u64 = 100_000_000;

/// What waits for the network.
#[derive(Debug, PartialEq, Eq)]
pub struct Backlog {
    /// The bytes that wait.
    pub queued: usize,
    /// Why the link failed first, if it has.
    pub error: Option<String>,
    /// The link takes messages.
    pub open: bool,
}

/// What a refused message is answered where no failure came before.
pub open spec fn full_text() -> Seq<char> {
    "outgoing connection stalled: byte queue limit reached"@
}

/// What a message is answered where the queue does not take it.
pub open spec fn stuck_text() -> Seq<char> {
    "outgoing connection stalled: message queue unavailable"@
}

impl Backlog {
    /// No more bytes wait than may.
    pub open spec fn wf(self) -> bool {
        self.queued <= MAX_BYTES
    }

    /// A backlog with nothing in it.
    pub fn new() -> (b: Backlog)
        ensures
            b == (Backlog { queued: 0, error: None, open: true }),
            b.wf(),
    {
        Backlog { queued: 0, error: None, open: true }
    }

    /// The first failure stays; later ones do not replace it.
    pub open spec fn failed(self, after: Backlog, reason: Seq<char>) -> bool {
        &&& after == (Backlog { error: after.error, ..self })
        &&& match self.error {
            Some(first) => after.error == Some(first),
            None => after.error matches Some(e) && e@ == reason,
        }
    }

    /// Note a failure of the link. Returns why it failed first.
    pub fn fail(&mut self, reason: &str) -> (first: String)
        ensures
            old(self).failed(*final(self), reason@),
            final(self).error == Some(first),
    {
        match &self.error {
            Some(e) => e.clone(),
            None => {
                let e = text::copy(reason);
                self.error = Some(e.clone());
                e
            },
        }
    }

    /// What handing a message over does to the queue.
    pub open spec fn queued_as(self, after: Backlog, size: usize, r: Result<(), String>) -> bool {
        &&& after.wf()
        &&& match r {
                Ok(_) => {
                    &&& self.error is None
                    &&& self.open
                    &&& self.queued + size <= MAX_BYTES
                    &&& after == (Backlog {
                        queued: (self.queued + size) as usize,
                        ..self
                    })
                },
                Err(e) => if self.error is Some {
                    self.error == Some(e) && after == self
                } else if !self.open {
                    e@ == "connection writer closed"@ && after == self
                } else {
                    &&& self.queued + size > MAX_BYTES
                    &&& e@ == full_text()
                    &&& self.failed(after, full_text())
                },
            }
    }

    /// Take a message of that many bytes into account before it is queued.
    ///
    /// A link that failed takes none; one that cannot keep up fails.
    pub fn send(&mut self, size: usize) -> (r: Result<(), String>)
        requires
            old(self).wf(),
        ensures
            final(self).wf(),
            match r {
                Ok(_) => {
                    &&& old(self).error is None
                    &&& old(self).open
                    &&& old(self).queued + size <= MAX_BYTES
                    &&& *final(self) == (Backlog {
                        queued: (old(self).queued + size) as usize,
                        ..*old(self)
                    })
                },
                Err(e) => if old(self).error is Some {
                    old(self).error == Some(e) && *final(self) == *old(self)
                } else if !old(self).open {
                    e@ == "connection writer closed"@ && *final(self) == *old(self)
                } else {
                    &&& old(self).queued + size > MAX_BYTES
                    &&& e@ == full_text()
                    &&& old(self).failed(*final(self), full_text())
                },
            },
            old(self).queued_as(*final(self), size, r),
    {
        match &self.error {
            Some(e) => {
                return Err(e.clone());
            },
            None => {},
        }
        if !self.open {
            return Err(text::copy("connection writer closed"));
        }
        if size > MAX_BYTES || self.queued > MAX_BYTES - size {
            return Err(self.fail("outgoing connection stalled: byte queue limit reached"));
        }
        self.queued = self.queued + size;
        Ok(())
    }

    /// The queue did not take a message that was accounted for.
    pub fn refused(&mut self, size: usize) -> (e: String)
        requires
            old(self).wf(),
            size <= old(self).queued,
        ensures
            final(self).wf(),
            final(self).queued == old(self).queued - size,
            final(self).open == old(self).open,
            final(self).error == Some(e),
            match old(self).error {
                Some(first) => e == first,
                None => e@ == stuck_text(),
            },
    {
        self.queued = self.queued - size;
        self.fail("outgoing connection stalled: message queue unavailable")
    }

    /// A message left the queue for the network.
    pub fn written(&mut self, size: usize)
        requires
            old(self).wf(),
            size <= old(self).queued,
        ensures
            final(self).wf(),
            *final(self) == (Backlog { queued: (old(self).queued - size) as usize, ..*old(self) }),
    {
        self.queued = self.queued - size;
    }

    /// Writing to the network failed.
    pub fn write_failed(&mut self, error: &str)
        ensures
            old(self).failed(*final(self), "sending message: "@ + error@),
    {
        let mut s = text::copy("sending message: ");
        s.push_str(error);
        let _ = self.fail(s.as_str());
    }

    /// The link takes no more messages.
    pub fn close(&mut self)
        ensures
            *final(self) == (Backlog { open: false, ..*old(self) }),
    {
        self.open = false;
    }
}

/// A message is taken where nothing has failed, the queue is open, and no more
/// than eight mebibytes would then wait; it then waits with the others. The
/// first failure is kept, and every later message is refused with it.
pub proof fn law_queue_takes_what_fits(b: Backlog, after: Backlog, size: usize, r: Result<(), String>)
    requires
        b.wf(),
        b.queued_as(after, size, r),
    ensures
        r is Ok <==> b.error is None && b.open && b.queued + size <= 8 * 1024 * 1024,
        r is Ok ==> after.queued == b.queued + size && after.error is None && after.open,
        r is Err ==> after.queued == b.queued && after.open == b.open,
        b.error matches Some(first) ==> (r matches Err(e) && e == first && after.error == Some(
            first,
        )),
        b.error is None && !b.open ==> (r matches Err(e) && e@ == "connection writer closed"@)
            && after.error is None,
        b.error is None && b.open && b.queued + size > 8 * 1024 * 1024 ==> (r matches Err(e) && e@
            == "outgoing connection stalled: byte queue limit reached"@) && (
        after.error matches Some(e) && e@
            == "outgoing connection stalled: byte queue limit reached"@),
{
}

/// The first failure of a connection is the one that is kept.
pub proof fn law_first_failure_is_kept(b: Backlog, after: Backlog, reason: Seq<char>)
    requires
        b.failed(after, reason),
    ensures
        after.queued == b.queued && after.open == b.open && after.error is Some,
        b.error matches Some(first) ==> after.error == Some(first),
        b.error is None ==> (after.error matches Some(e) && e@ == reason),
        stuck_text() == "outgoing connection stalled: message queue unavailable"@,
        MAX_MESSAGES == 256 && CLOSE_GRACE == 100_000_000,
{
}

} // verus!
