//! Observing X11 file selections without blocking the viewer on clipboard
//! owners.

use vstd::prelude::*;

use crate::text;
use crate::time;

verus! {

/// How many request properties are cycled through.
///
/// Every request names a property of its own, because that is the only thing an
/// answer carries that says which request it answers. Without it the first
/// answer to arrive after an owner change -- as likely the old owner's late one
/// as the new owner's -- was published as the new clipboard.
pub const PROPERTY_RING: usize = 8;

/// How long an owner may take to answer, in nanoseconds.
pub const PATIENCE: u64 = 2_000_000_000;

/// How long to wait between two looks, in nanoseconds.
pub const LOOK_PAUSE: u64 = 20_000_000;

/// The most of a selection that is read, in units of four bytes.
pub const MAX_LONGS: u32 = 262_144;

/// What is known of the selection.
#[derive(Debug, PartialEq, Eq)]
pub struct Snapshot {
    pub revision: u64,
    pub available: bool,
    pub ready: bool,
    pub files: Option<Vec<String>>,
    pub error: Option<String>,
}

/// What reading the selection gives.
#[derive(Debug, PartialEq, Eq)]
pub enum Reading {
    /// Not yet.
    Pending,
    Failed(String),
    Files(Option<Vec<String>>),
}

/// The views of an optional list.
pub open spec fn list_of(files: Option<Vec<String>>) -> Option<Seq<Seq<char>>> {
    match files {
        Some(v) => Some(text::texts(v@)),
        None => None,
    }
}

/// An outcome, as the files and the error it leaves.
pub open spec fn parted(outcome: Result<Option<Vec<String>>, String>) -> (
    Option<Seq<Seq<char>>>,
    Option<Seq<char>>,
) {
    match outcome {
        Ok(files) => (list_of(files), None),
        Err(e) => (None, Some(e@)),
    }
}

fn same_list(a: &Option<Vec<String>>, b: &Option<Vec<String>>) -> (r: bool)
    ensures
        r == (list_of(*a) == list_of(*b)),
{
    match (a, b) {
        (None, None) => true,
        (Some(x), Some(y)) => {
            assert(text::texts(x@).len() == x@.len());
            assert(text::texts(y@).len() == y@.len());
            if x.len() != y.len() {
                return false;
            }
            let mut i: usize = 0;
            while i < x.len()
                invariant
                    i <= x.len(),
                    x.len() == y.len(),
                    forall|j: int| 0 <= j < i ==> (#[trigger] x@[j])@ == y@[j]@,
                    list_of(*a) == Some(text::texts(x@)),
                    list_of(*b) == Some(text::texts(y@)),
                decreases x.len() - i,
            {
                if !text::same(x[i].as_str(), y[i].as_str()) {
                    assert(text::texts(x@)[i as int] != text::texts(y@)[i as int]);
                    return false;
                }
                i = i + 1;
            }
            assert(text::texts(x@) =~= text::texts(y@));
            true
        },
        _ => false,
    }
}

fn same_text(a: &Option<String>, b: &Option<String>) -> (r: bool)
    ensures
        r == (crate::profiles::text_of(*a) == crate::profiles::text_of(*b)),
{
    match (a, b) {
        (None, None) => true,
        (Some(x), Some(y)) => text::same(x.as_str(), y.as_str()),
        _ => false,
    }
}

/// The next revision.
pub open spec fn moved(revision: u64) -> u64 {
    vstd::wrapping::u64_specs::wrapping_add(revision, 1)
}

impl Snapshot {
    /// Nothing is known yet.
    pub fn new() -> (s: Snapshot)
        ensures
            s == (Snapshot {
                revision: 1,
                available: true,
                ready: false,
                files: None,
                error: None,
            }),
    {
        Snapshot { revision: 1, available: true, ready: false, files: None, error: None }
    }

    /// What is published, as the files and the error.
    pub open spec fn published(self) -> (Option<Seq<Seq<char>>>, Option<Seq<char>>) {
        (list_of(self.files), crate::profiles::text_of(self.error))
    }

    /// What publishing an answer comes to, given as the files and the error.
    pub open spec fn answered(
        self,
        after: Snapshot,
        answer: (Option<Seq<Seq<char>>>, Option<Seq<char>>),
    ) -> bool {
        &&& after.ready
        &&& after.available == self.available
        &&& after.published() == answer
        &&& after.revision == if self.ready && self.published() != answer {
            moved(self.revision)
        } else {
            self.revision
        }
    }

    /// A new request has gone out; the viewer must not act on the old answer.
    pub fn requested(&mut self)
        ensures
            *final(self) == (Snapshot {
                revision: moved(old(self).revision),
                ready: false,
                error: None,
                ..*old(self)
            }),
    {
        self.revision = self.revision.wrapping_add(1);
        self.ready = false;
        self.error = None;
    }

    /// Publish an answer to the latest request.
    ///
    /// One request can be answered twice. A refusal names no property, so a
    /// refusal from the previous owner that arrives first is taken for the
    /// current owner's, and the real answer follows it. That answer has to
    /// reach the viewer, which reads again only when the revision moves -- so a
    /// second answer that says something different moves it.
    pub fn answer(&mut self, outcome: Result<Option<Vec<String>>, String>)
        ensures
            old(self).answered(*final(self), parted(outcome)),
    {
        let (files, error) = match outcome {
            Ok(files) => (files, None),
            Err(e) => (None, Some(e)),
        };
        if self.ready && !(same_list(&self.files, &files) && same_text(&self.error, &error)) {
            self.revision = self.revision.wrapping_add(1);
        }
        self.files = files;
        self.error = error;
        self.ready = true;
    }

    /// Watching came to an end, and why.
    pub fn ended(&mut self, error: String)
        ensures
            *final(self) == (Snapshot {
                revision: moved(old(self).revision),
                available: false,
                ready: true,
                error: Some(error),
                ..*old(self)
            }),
    {
        self.revision = self.revision.wrapping_add(1);
        self.available = false;
        self.ready = true;
        self.error = Some(error);
    }

    /// Watching could not begin, and why.
    pub fn never_began(&mut self, error: String)
        ensures
            *final(self) == (Snapshot {
                available: false,
                ready: true,
                error: Some(error),
                ..*old(self)
            }),
    {
        self.available = false;
        self.ready = true;
        self.error = Some(error);
    }

    /// A number that moves when the selection does, where it is watched.
    pub fn file_counter(&self) -> (r: Option<u64>)
        ensures
            r == if self.available {
                Some(self.revision)
            } else {
                None
            },
    {
        if self.available {
            Some(self.revision)
        } else {
            None
        }
    }

    /// The files of the selection.
    pub fn read_files(&self) -> (r: Reading)
        ensures
            if !self.ready {
                r is Pending
            } else {
                match self.error {
                    Some(e) => r matches Reading::Failed(f) && f@ == e@,
                    None => r matches Reading::Files(v) && list_of(v) == list_of(self.files),
                }
            },
    {
        if !self.ready {
            return Reading::Pending;
        }
        match &self.error {
            Some(e) => Reading::Failed(text::copy(e.as_str())),
            None => match &self.files {
                Some(v) => Reading::Files(Some(text::copy_all(v))),
                None => Reading::Files(None),
            },
        }
    }
}

/// What an answer of the clipboard's owner amounts to.
pub open spec fn judged(left_over: u32, typed: bool, format: u8, paths: Result<Vec<String>, String>, r: Result<Option<Vec<String>>, String>) -> bool {
    &&& if left_over != 0 || !typed || format != 8 {
            r matches Err(e) && e@ == "Unsupported or oversized file clipboard selection"@
        } else {
            match paths {
                Ok(v) => r == Ok::<Option<Vec<String>>, String>(
                    if v@.len() == 0 {
                        None
                    } else {
                        Some(v)
                    },
                ),
                Err(e) => r == Err::<Option<Vec<String>>, String>(e),
            }
        }
}

/// What a selection means: a list of addresses of the right type that was read
/// whole, where `paths` is what it names or why it is no text.
pub fn judge(
    left_over: u32,
    typed: bool,
    format: u8,
    paths: Result<Vec<String>, String>,
) -> (r: Result<Option<Vec<String>>, String>)
    ensures
        if left_over != 0 || !typed || format != 8 {
            r matches Err(e) && e@ == "Unsupported or oversized file clipboard selection"@
        } else {
            match paths {
                Ok(v) => r == Ok::<Option<Vec<String>>, String>(
                    if v@.len() == 0 {
                        None
                    } else {
                        Some(v)
                    },
                ),
                Err(e) => r == Err::<Option<Vec<String>>, String>(e),
            }
        },
        judged(left_over, typed, format, paths, r),
{
    if left_over != 0 || !typed || format != 8 {
        return Err(text::copy("Unsupported or oversized file clipboard selection"));
    }
    match paths {
        Ok(v) => if v.len() == 0 {
            Ok(None)
        } else {
            Ok(Some(v))
        },
        Err(e) => Err(e),
    }
}

// ---------------------------------------------------------------------------
// The watcher
// ---------------------------------------------------------------------------

/// What the watcher is told.
#[derive(Clone, Copy, Debug, PartialEq, Eq, Structural)]
pub enum Heard {
    /// The selection has a new owner, or none.
    OwnerChanged,
    /// A request was refused. A refusal names no property, so nothing says
    /// which request it declines.
    Refused,
    /// A request was answered in a property of the ring.
    Answered(usize),
    /// A request was answered in some other property.
    Stray,
}

/// What the watcher does about it.
#[derive(Clone, Copy, Debug, PartialEq, Eq, Structural)]
pub enum Step {
    Nothing,
    /// Ask for the selection in a property of the ring.
    Request(usize),
    /// Read the answer.
    Read,
    /// Throw the answer away: it describes a clipboard that no longer exists.
    Discard,
}

/// A watch over the selection.
#[derive(Debug, PartialEq, Eq)]
pub struct Watch {
    pub snapshot: Snapshot,
    /// The property of the latest request.
    pub latest: usize,
    /// When the owner has taken too long.
    pub deadline: Option<u64>,
}

/// The place after `i` in the ring.
pub open spec fn next_in_ring(i: usize) -> usize {
    ((i + 1) % PROPERTY_RING as int) as usize
}

impl Watch {
    /// The latest request is in the ring.
    pub open spec fn wf(self) -> bool {
        self.latest < PROPERTY_RING
    }

    /// Begin: the selection is asked for in the first property.
    pub fn begin(now: u64) -> (w: Watch)
        ensures
            w.wf(),
            w.latest == 0,
            w.deadline == Some(time::later(now, PATIENCE)),
            w.snapshot == (Snapshot {
                revision: 1,
                available: true,
                ready: false,
                files: None,
                error: None,
            }),
    {
        Watch { snapshot: Snapshot::new(), latest: 0, deadline: Some(time::after(now, PATIENCE)) }
    }

    /// What is done about an event of the clipboard.
    pub open spec fn heard_as(self, after: Watch, heard: Heard, now: u64, step: Step) -> bool {
        &&& after.wf()
        &&& match heard {
                Heard::OwnerChanged => {
                    &&& step == Step::Request(after.latest)
                    &&& after.latest == next_in_ring(self.latest)
                    &&& after.deadline == Some(time::later(now, PATIENCE))
                    &&& after.snapshot == (Snapshot {
                        revision: moved(self.snapshot.revision),
                        ready: false,
                        error: None,
                        ..self.snapshot
                    })
                },
                Heard::Refused => {
                    &&& step == Step::Nothing
                    &&& after.latest == self.latest
                    &&& if self.snapshot.ready {
                        after == self
                    } else {
                        &&& after.deadline is None
                        &&& self.snapshot.answered(after.snapshot, (None, None))
                    }
                },
                Heard::Answered(at) => {
                    &&& after == self
                    &&& step == if at == self.latest {
                        Step::Read
                    } else {
                        Step::Discard
                    }
                },
                Heard::Stray => after == self && step == Step::Discard,
            }
    }

    /// Take what was heard.
    pub fn hear(&mut self, heard: Heard, now: u64) -> (step: Step)
        requires
            old(self).wf(),
        ensures
            final(self).wf(),
            match heard {
                Heard::OwnerChanged => {
                    &&& step == Step::Request(final(self).latest)
                    &&& final(self).latest == next_in_ring(old(self).latest)
                    &&& final(self).deadline == Some(time::later(now, PATIENCE))
                    &&& final(self).snapshot == (Snapshot {
                        revision: moved(old(self).snapshot.revision),
                        ready: false,
                        error: None,
                        ..old(self).snapshot
                    })
                },
                Heard::Refused => {
                    &&& step == Step::Nothing
                    &&& final(self).latest == old(self).latest
                    &&& if old(self).snapshot.ready {
                        *final(self) == *old(self)
                    } else {
                        &&& final(self).deadline is None
                        &&& old(self).snapshot.answered(final(self).snapshot, (None, None))
                    }
                },
                Heard::Answered(at) => {
                    &&& *final(self) == *old(self)
                    &&& step == if at == old(self).latest {
                        Step::Read
                    } else {
                        Step::Discard
                    }
                },
                Heard::Stray => *final(self) == *old(self) && step == Step::Discard,
            },
            old(self).heard_as(*final(self), heard, now, step),
    {
        match heard {
            Heard::OwnerChanged => {
                self.snapshot.requested();
                self.latest = (self.latest + 1) % PROPERTY_RING;
                self.deadline = Some(time::after(now, PATIENCE));
                Step::Request(self.latest)
            },
            Heard::Refused => {
                if !self.snapshot.ready {
                    self.snapshot.answer(Ok(None));
                    self.deadline = None;
                }
                Step::Nothing
            },
            Heard::Answered(at) => if at == self.latest {
                Step::Read
            } else {
                Step::Discard
            },
            Heard::Stray => Step::Discard,
        }
    }

    /// The answer to the latest request was read.
    pub fn read(&mut self, outcome: Result<Option<Vec<String>>, String>)
        ensures
            final(self).latest == old(self).latest,
            final(self).deadline is None,
            old(self).snapshot.answered(final(self).snapshot, parted(outcome)),
    {
        self.snapshot.answer(outcome);
        self.deadline = None;
    }

    /// What the passing of time does.
    pub open spec fn ticked(self, after: Watch, now: u64) -> bool {
        &&& after.latest == self.latest
        &&& if self.deadline matches Some(d) && now >= d {
                &&& after.deadline is None
                &&& self.snapshot.answered(
                    after.snapshot,
                    (None, Some("Clipboard owner did not respond"@)),
                )
            } else {
                after == self
            }
    }

    /// Time has passed: an owner that has taken too long is given up on.
    pub fn tick(&mut self, now: u64)
        ensures
            final(self).latest == old(self).latest,
            if old(self).deadline matches Some(d) && now >= d {
                &&& final(self).deadline is None
                &&& old(self).snapshot.answered(
                    final(self).snapshot,
                    (None, Some("Clipboard owner did not respond"@)),
                )
            } else {
                *final(self) == *old(self)
            },
            old(self).ticked(*final(self), now),
    {
        let late = match self.deadline {
            Some(d) => now >= d,
            None => false,
        };
        if late {
            self.snapshot.answer(Err(text::copy("Clipboard owner did not respond")));
            self.deadline = None;
        }
    }
}

/// The properties of the last few requests differ: the answer to one of them is
/// not taken for the answer to another.
pub proof fn law_ring_tells_requests_apart(i: usize, k: nat)
    requires
        i < PROPERTY_RING,
        0 < k < PROPERTY_RING,
    ensures
        (i + k) % PROPERTY_RING as int != i,
{
}

/// A viewer that has read an answer is up to date as long as the revision
/// stays: an answer that says something else moves it.
pub proof fn law_still_revision_is_old_news(
    before: Snapshot,
    after: Snapshot,
    answer: (Option<Seq<Seq<char>>>, Option<Seq<char>>),
)
    requires
        before.ready,
        before.answered(after, answer),
    ensures
        after.revision == before.revision ==> after.published() == before.published(),
{
    assert(moved(before.revision) != before.revision);
}

/// A new owner of the clipboard is asked, under the next of eight names, and has
/// two seconds to answer; only the answer under the last name is read.
pub proof fn law_new_owner_is_asked(w: Watch, after: Watch, heard: Heard, now: u64, step: Step)
    requires
        w.wf(),
        w.heard_as(after, heard, now, step),
        now + 2_000_000_000 <= u64::MAX,
    ensures
        heard is OwnerChanged ==> step == Step::Request(after.latest) && (w.latest < 7
            ==> after.latest == w.latest + 1) && (w.latest == 7 ==> after.latest == 0)
            && after.deadline == Some((now + 2_000_000_000) as u64) && !after.snapshot.ready
            && after.snapshot.error is None && (w.snapshot.revision < u64::MAX
            ==> after.snapshot.revision == w.snapshot.revision + 1),
        heard matches Heard::Answered(at) ==> after == w && (step == Step::Read <==> at == w.latest) && (
        step == Step::Discard <==> at != w.latest),
        heard is Refused && !w.snapshot.ready ==> after.snapshot.ready && after.snapshot.files is None
            && after.snapshot.error is None && after.deadline is None && step == Step::Nothing,
        heard is Refused && w.snapshot.ready ==> after == w && step == Step::Nothing,
        heard is Stray ==> after == w && step == Step::Discard,
{
}

/// An owner that has not answered in its time has failed.
pub proof fn law_slow_owner_has_failed(w: Watch, after: Watch, now: u64)
    requires
        w.ticked(after, now),
    ensures
        ({
            let late = w.deadline matches Some(d) && now >= d;
            &&& late ==> after.snapshot.ready && after.deadline is None && after.snapshot.files is None
                && (after.snapshot.error matches Some(e) && e@ == "Clipboard owner did not respond"@)
            &&& !late ==> after == w
        }),
{
}

/// The revision moves by one with every answer that is not the one before, and
/// with no other.
pub proof fn law_revision_moves_with_the_answer(
    s: Snapshot,
    after: Snapshot,
    answer: (Option<Seq<Seq<char>>>, Option<Seq<char>>),
)
    requires
        s.answered(after, answer),
        s.revision < u64::MAX,
    ensures
        after.ready,
        after.published() == answer,
        s.ready && s.published() != answer ==> after.revision == s.revision + 1,
        !s.ready || s.published() == answer ==> after.revision == s.revision,
{
}

/// An answer is read where it is whole and made of bytes; one without files is
/// none.
pub proof fn law_whole_answers_are_read(
    left_over: u32,
    typed: bool,
    format: u8,
    paths: Result<Vec<String>, String>,
    r: Result<Option<Vec<String>>, String>,
)
    requires
        judged(left_over, typed, format, paths, r),
    ensures
        r is Ok <==> left_over == 0 && typed && format == 8 && paths is Ok,
        left_over != 0 || !typed || format != 8 ==> (r matches Err(e) && e@
            == "Unsupported or oversized file clipboard selection"@),
        r matches Ok(files) ==> (paths matches Ok(p) && (p@.len() == 0 ==> files is None) && (
        p@.len() > 0 ==> files == Some(p))),
        left_over == 0 && typed && format == 8 ==> (paths matches Err(e) ==> r == Err::<
            Option<Vec<String>>,
            String,
        >(e)),
{
}

/// What was read is published: the files, or why there are none.
pub proof fn law_outcome_is_published(files: Vec<String>, e: String, i: int)
    ensures
        parted(Ok(None)) == (None::<Seq<Seq<char>>>, None::<Seq<char>>),
        parted(Err(e)) == (None::<Seq<Seq<char>>>, Some(e@)),
        ({
            let (list, why) = parted(Ok(Some(files)));
            why is None && (list matches Some(l) && l.len() == files@.len() && (0 <= i
                < files@.len() ==> l[i] == files@[i]@))
        }),
{
}

/// The clipboard is looked at fifty times a second, and a mebibyte of it is read.
pub proof fn law_clipboard_is_looked_at_often()
    ensures
        LOOK_PAUSE == 20_000_000,
        4 * MAX_LONGS == 1024 * 1024,
        PROPERTY_RING == 8,
        PATIENCE == 2_000_000_000,
{
}

} // verus!
