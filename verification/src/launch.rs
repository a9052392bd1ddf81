//! Starting a session from the launcher.
//!
//! A session runs as a process of its own, invoked with the profile's
//! arguments. What it has to say about a failed connection goes to its
//! standard error, and would otherwise be thrown away, leaving a click on
//! Connect looking exactly like a click on nothing.

use vstd::prelude::*;

use crate::profiles;
use crate::text;

verus! {

/// How much of a session's error output is looked at when it fails.
pub const TAIL_BYTES: u64 = 4096;

/// How many of its lines are shown.
pub const TAIL_LINES: usize = 4;

/// Longest message we build from them, in bytes, so one absurd line cannot
/// push the rest of the launcher's window off the screen.
pub const MAX_DETAIL: usize = 600;

/// Failures kept while waiting to be shown.
pub const MAX_PENDING: usize = 16;

/// A session that exited without being asked to.
#[derive(Clone, Debug, PartialEq, Eq)]
pub struct SessionFailure {
    /// Profile name.
    pub name: String,
    /// `user@host`.
    pub destination: String,
    /// How it ended, in words.
    pub status: String,
    /// The tail of its standard error, if it said anything.
    pub detail: Option<String>,
}

impl SessionFailure {
    /// What the launcher shows of a failure. A session that said nothing died
    /// without diagnosing itself, which is worth saying.
    pub open spec fn shown(self) -> Seq<char> {
        let lead = self.name@ + " ("@ + self.destination@ + ") ended -- "@ + self.status@;
        match self.detail {
            Some(detail) => lead + ":\n"@ + detail@,
            None => lead + ", with nothing on its error output."@,
        }
    }

    /// What the launcher shows.
    pub fn message(&self) -> (s: String)
        ensures
            s@ == self.shown(),
    {
        let mut s = text::copy(self.name.as_str());
        s.push_str(" (");
        s.push_str(self.destination.as_str());
        s.push_str(") ended -- ");
        s.push_str(self.status.as_str());
        match &self.detail {
            Some(detail) => {
                s.push_str(":\n");
                s.push_str(detail.as_str());
            },
            None => {
                s.push_str(", with nothing on its error output.");
            },
        }
        s
    }
}

/// How a process ended.
#[derive(Clone, Copy, Debug, PartialEq, Eq, Structural)]
pub enum Exit {
    /// A signal killed it.
    Signal(i32),
    /// It returned a code.
    Code(i32),
    /// Neither is known.
    Unknown,
}

/// An exit status in words.
pub open spec fn exit_text(exit: Exit) -> Seq<char> {
    match exit {
        Exit::Signal(n) => "killed by signal "@ + text::signed_decimal(n as int),
        Exit::Code(n) => "exit code "@ + text::signed_decimal(n as int),
        Exit::Unknown => "ended abnormally"@,
    }
}

/// An exit status in words.
pub fn describe(exit: Exit) -> (s: String)
    ensures
        s@ == exit_text(exit),
{
    match exit {
        Exit::Signal(n) => {
            let mut s = text::copy("killed by signal ");
            let d = text::signed_decimal_of(n);
            s.push_str(d.as_str());
            s
        },
        Exit::Code(n) => {
            let mut s = text::copy("exit code ");
            let d = text::signed_decimal_of(n);
            s.push_str(d.as_str());
            s
        },
        Exit::Unknown => text::copy("ended abnormally"),
    }
}

// ---------------------------------------------------------------------------
// The end of a log
// ---------------------------------------------------------------------------

/// The lines of a log that say something, without the white space around them.
pub open spec fn solid_lines(lines: Seq<Seq<char>>) -> Seq<Seq<char>>
    decreases lines.len(),
{
    if lines.len() == 0 {
        seq![]
    } else if text::blank(lines.last()) {
        solid_lines(lines.drop_last())
    } else {
        solid_lines(lines.drop_last()).push(text::trim(lines.last()))
    }
}

/// The lines to look at: a text that starts in the middle of a file begins
/// with what is very probably half a line.
pub open spec fn whole_lines(s: Seq<char>, mid_file: bool) -> Seq<Seq<char>> {
    let all = text::lines(s);
    if mid_file && all.len() > 0 {
        all.drop_first()
    } else {
        all
    }
}

/// The last `n` of a sequence.
pub open spec fn last_of(parts: Seq<Seq<char>>, n: nat) -> Seq<Seq<char>> {
    if parts.len() <= n {
        parts
    } else {
        parts.skip(parts.len() - n)
    }
}

/// A text cut at the front to the longest detail, marked where it was cut.
pub open spec fn cut(s: Seq<char>) -> Seq<char> {
    if text::byte_len(s) <= MAX_DETAIL {
        s
    } else {
        "..."@ + text::last_bytes(s, MAX_DETAIL as nat)
    }
}

/// The last lines of a log that say something.
pub open spec fn tail_text(s: Seq<char>, mid_file: bool, max_lines: nat) -> Seq<char> {
    cut(text::join(last_of(solid_lines(whole_lines(s, mid_file)), max_lines), "\n"@))
}

pub(crate) fn solid_of(lines: &Vec<Vec<char>>, from: usize) -> (r: Vec<String>)
    requires
        from <= lines.len(),
    ensures
        text::texts(r@) == solid_lines(text::rows(lines@).skip(from as int)),
{
    let ghost all = text::rows(lines@).skip(from as int);
    let mut r: Vec<String> = Vec::new();
    let mut i: usize = from;
    assert(text::texts(r@) =~= solid_lines(all.take(0)));
    while i < lines.len()
        invariant
            from <= i <= lines.len(),
            all == text::rows(lines@).skip(from as int),
            text::texts(r@) == solid_lines(all.take(i - from)),
        decreases lines.len() - i,
    {
        let ghost k = i - from;
        assert(all.take(k + 1).drop_last() =~= all.take(k));
        assert(all.take(k + 1).last() == lines@[i as int]@);
        let line = text::trimmed_chars(&lines[i]);
        proof {
            text::lemma_trim_blank(lines@[i as int]@);
        }
        if line.len() > 0 {
            let s = text::string_of(&line);
            profiles::push_arg(&mut r, s);
        }
        i = i + 1;
    }
    assert(all.take(all.len() as int) =~= all);
    r
}

fn keep_last(parts: Vec<String>, n: usize) -> (r: Vec<String>)
    ensures
        text::texts(r@) == last_of(text::texts(parts@), n as nat),
{
    if parts.len() <= n {
        return parts;
    }
    let from: usize = parts.len() - n;
    let mut r: Vec<String> = Vec::new();
    let mut i: usize = from;
    let ghost all = text::texts(parts@);
    assert(text::texts(r@) =~= all.subrange(from as int, from as int));
    while i < parts.len()
        invariant
            from <= i <= parts.len(),
            all == text::texts(parts@),
            text::texts(r@) == all.subrange(from as int, i as int),
        decreases parts.len() - i,
    {
        profiles::push_arg(&mut r, text::copy(parts[i].as_str()));
        i = i + 1;
        assert(all.subrange(from as int, i as int) =~= all.subrange(from as int, i - 1).push(
            all[i - 1],
        ));
    }
    assert(all.subrange(from as int, all.len() as int) =~= all.skip(from as int));
    r
}

/// Pick the last `max_lines` non-blank lines out of `text`.
///
/// `mid_file` says the text started at an arbitrary offset rather than at the
/// beginning of the file. Where the lines are too long they are cut from the
/// front: the last line is the one that says why.
pub fn tail_lines(text: &str, mid_file: bool, max_lines: usize) -> (s: String)
    ensures
        s@ == tail_text(text@, mid_file, max_lines as nat),
{
    let chars = text::chars_of(text);
    let lines = text::lines_of(&chars);
    let from: usize = if mid_file && lines.len() > 0 {
        1
    } else {
        0
    };
    assert(text::rows(lines@).skip(from as int) =~= whole_lines(text@, mid_file));
    let kept = keep_last(solid_of(&lines, from), max_lines);
    let all = text::joined(&kept, "\n");
    if text::bytes_in(all.as_str()) <= MAX_DETAIL {
        return all;
    }
    let mut s = text::copy("...");
    let end = text::cut_front(all.as_str(), MAX_DETAIL);
    s.push_str(end.as_str());
    s
}

/// The tail of what a session wrote, if it said anything.
pub open spec fn said_last(text: Seq<char>, mid_file: bool) -> Option<Seq<char>> {
    let kept = tail_text(text, mid_file, TAIL_LINES as nat);
    if kept.len() == 0 {
        None
    } else {
        Some(kept)
    }
}

/// The tail of a session's error output as text, if it said anything.
pub fn tail_of(text: &str, mid_file: bool) -> (r: Option<String>)
    ensures
        profiles::text_of(r) == said_last(text@, mid_file),
{
    let kept = tail_lines(text, mid_file, TAIL_LINES);
    if kept.as_str().is_empty() {
        None
    } else {
        Some(kept)
    }
}

/// The tail of a session's error output, if it said anything.
///
/// Lossy on purpose: it carries whatever the remote host and the local SSH felt
/// like writing, and one stray byte must not cost the whole message.
pub fn tail(raw: &Vec<u8>, mid_file: bool) -> (r: Option<String>)
    ensures
        profiles::text_of(r) == said_last(text::lossy(raw@), mid_file),
        vstd::utf8::valid_utf8(raw@) ==> profiles::text_of(r) == said_last(
            vstd::utf8::decode_utf8(raw@),
            mid_file,
        ),
{
    let text = text::decode(raw);
    tail_of(text.as_str(), mid_file)
}

/// Where to start reading a log of that length.
pub fn tail_from(length: u64) -> (from: u64)
    ensures
        from == if length > TAIL_BYTES {
            length - TAIL_BYTES
        } else {
            0
        },
{
    length.saturating_sub(TAIL_BYTES)
}

/// However much a session wrote, what is shown of it stays within the limit
/// and the mark of the cut.
pub proof fn law_tail_is_bounded(s: Seq<char>, mid_file: bool, max_lines: nat)
    ensures
        text::byte_len(tail_text(s, mid_file, max_lines)) <= MAX_DETAIL + 3,
{
    let all = text::join(last_of(solid_lines(whole_lines(s, mid_file)), max_lines), "\n"@);
    if text::byte_len(all) > MAX_DETAIL {
        text::lemma_last_bytes(all, MAX_DETAIL as nat);
        let end = text::last_bytes(all, MAX_DETAIL as nat);
        reveal_strlit("...");
        let dots = "..."@ + end;
        text::lemma_byte_len_step(dots);
        assert(dots.drop_first()[0] == '.');
        text::lemma_byte_len_step(dots.drop_first());
        text::lemma_byte_len_step(dots.drop_first().drop_first());
        assert(dots.drop_first().drop_first().drop_first() =~= end);
    }
}

/// Every line that is shown says something.
pub proof fn law_no_blank_line_is_kept(lines: Seq<Seq<char>>, i: int)
    requires
        0 <= i < solid_lines(lines).len(),
    ensures
        solid_lines(lines)[i].len() > 0,
    decreases lines.len(),
{
    if text::blank(lines.last()) {
        law_no_blank_line_is_kept(lines.drop_last(), i);
    } else {
        text::lemma_trim_blank(lines.last());
        if i < solid_lines(lines.drop_last()).len() {
            law_no_blank_line_is_kept(lines.drop_last(), i);
        }
    }
}

// ---------------------------------------------------------------------------
// The sessions
// ---------------------------------------------------------------------------

/// A session this launcher started.
#[derive(Clone, Debug, PartialEq, Eq)]
pub struct Session {
    /// What tells its process from the others.
    pub id: u64,
    /// Profile name, which is what the user recognises in the list.
    pub name: String,
    /// `user@host`, to disambiguate two profiles with similar names.
    pub destination: String,
}

/// What a look at a session's process found.
#[derive(Debug, PartialEq, Eq)]
pub enum Found {
    /// It runs.
    Running,
    /// It exited without complaint: the user closed its window.
    Finished,
    /// It exited otherwise, having said this.
    Failed { exit: Exit, detail: Option<String> },
    /// The look itself failed. The session is kept, and looked at again.
    Unclear,
}

/// Sessions started by this launcher.
pub struct Sessions {
    pub running: Vec<Session>,
    /// Failures noticed and not yet shown, oldest first.
    pub finished: Vec<SessionFailure>,
}

/// Whether a session is still tracked after a look at it.
pub open spec fn kept(found: Found) -> bool {
    found is Running || found is Unclear
}

/// The sessions that are still tracked after a look at each.
pub open spec fn still_running(running: Seq<Session>, found: Seq<Found>) -> Seq<Session>
    decreases running.len(),
{
    if running.len() == 0 || found.len() != running.len() {
        seq![]
    } else if kept(found.last()) {
        still_running(running.drop_last(), found.drop_last()).push(running.last())
    } else {
        still_running(running.drop_last(), found.drop_last())
    }
}

/// What is known of a failure: its name, destination, status and detail.
pub open spec fn failure_model(f: SessionFailure) -> (
    Seq<char>,
    Seq<char>,
    Seq<char>,
    Option<Seq<char>>,
) {
    (f.name@, f.destination@, f.status@, profiles::text_of(f.detail))
}

pub open spec fn failure_models(s: Seq<SessionFailure>) -> Seq<
    (Seq<char>, Seq<char>, Seq<char>, Option<Seq<char>>),
> {
    s.map_values(|f: SessionFailure| failure_model(f))
}

/// The failures waiting to be shown once one more came: the oldest makes room.
pub open spec fn remembered<T>(finished: Seq<T>, failure: T) -> Seq<T> {
    if finished.len() >= MAX_PENDING {
        finished.drop_first().push(failure)
    } else {
        finished.push(failure)
    }
}

/// The failures waiting to be shown after a look at each session.
pub open spec fn failures_after(
    finished: Seq<(Seq<char>, Seq<char>, Seq<char>, Option<Seq<char>>)>,
    running: Seq<Session>,
    found: Seq<Found>,
) -> Seq<(Seq<char>, Seq<char>, Seq<char>, Option<Seq<char>>)>
    decreases running.len(),
{
    if running.len() == 0 || found.len() != running.len() {
        finished
    } else {
        let before = failures_after(finished, running.drop_last(), found.drop_last());
        match found.last() {
            Found::Failed { exit, detail } => remembered(
                before,
                (
                    running.last().name@,
                    running.last().destination@,
                    exit_text(exit),
                    profiles::text_of(detail),
                ),
            ),
            _ => before,
        }
    }
}

impl Default for Sessions {
    fn default() -> (s: Sessions)
        ensures
            s.running@.len() == 0,
            s.finished@.len() == 0,
    {
        Sessions { running: Vec::new(), finished: Vec::new() }
    }
}

impl Sessions {
    /// No more failures wait than there may.
    pub open spec fn wf(self) -> bool {
        self.finished@.len() <= MAX_PENDING
    }

    /// Track a session that was started.
    pub fn started(&mut self, session: Session)
        ensures
            final(self).running@ == old(self).running@.push(session),
            final(self).finished == old(self).finished,
    {
        self.running.push(session);
    }

    /// Queue a failure for the launcher to show.
    ///
    /// Bounded because nothing here can be sure anyone is draining. The oldest
    /// goes first: what the user is waiting to hear about is the session they
    /// just started.
    pub fn remember(&mut self, failure: SessionFailure)
        requires
            old(self).wf(),
        ensures
            final(self).wf(),
            final(self).finished@ == remembered(old(self).finished@, failure),
            final(self).running == old(self).running,
    {
        if self.finished.len() >= MAX_PENDING {
            let ghost before = self.finished@;
            self.finished.remove(0);
            assert(self.finished@ =~= before.drop_first());
        }
        self.finished.push(failure);
    }

    /// What taking a failure off the list does.
    pub open spec fn takes_failure(self, after: Sessions, r: Option<SessionFailure>) -> bool {
        &&& after.running == self.running
        &&& if self.finished@.len() == 0 {
                r is None && after.finished@ == self.finished@
            } else {
                r == Some(self.finished@[0]) && after.finished@
                    == self.finished@.drop_first()
            }
    }

    /// Take the oldest failure not yet shown, if any.
    pub fn take_failure(&mut self) -> (r: Option<SessionFailure>)
        ensures
            final(self).running == old(self).running,
            if old(self).finished@.len() == 0 {
                r is None && final(self).finished@ == old(self).finished@
            } else {
                r == Some(old(self).finished@[0]) && final(self).finished@
                    == old(self).finished@.drop_first()
            },
            old(self).takes_failure(*final(self), r),
    {
        if self.finished.len() == 0 {
            return None;
        }
        let ghost before = self.finished@;
        let first = self.finished.remove(0);
        assert(self.finished@ =~= before.drop_first());
        Some(first)
    }

    /// Take in a look at each session's process, remembering the failures.
    ///
    /// Buffered rather than returned, because looks happen more than once per
    /// repaint, and a returned value would be seen by whichever call happened
    /// to notice the exit and lost by the other.
    pub fn reap(&mut self, found: &Vec<Found>)
        requires
            old(self).wf(),
            found@.len() == old(self).running@.len(),
        ensures
            final(self).wf(),
            final(self).running@ == still_running(old(self).running@, found@),
            failure_models(final(self).finished@) == failures_after(
                failure_models(old(self).finished@),
                old(self).running@,
                found@,
            ),
    {
        let mut running: Vec<Session> = Vec::new();
        std::mem::swap(&mut running, &mut self.running);
        let mut still: Vec<Session> = Vec::new();
        let ghost all = running@;
        let ghost waiting = failure_models(self.finished@);
        let mut n: usize = 0;
        let total: usize = found.len();
        assert(still_running(all.take(0), found@.take(0)) =~= seq![]);
        for session in it: running
            invariant
                it.seq() == all,
                all.len() == found@.len(),
                total == found@.len(),
                self.wf(),
                n == it.index(),
                still@ == still_running(all.take(n as int), found@.take(n as int)),
                failure_models(self.finished@) == failures_after(
                    waiting,
                    all.take(n as int),
                    found@.take(n as int),
                ),
        {
            assert(all.take(n + 1).drop_last() =~= all.take(n as int));
            assert(found@.take(n + 1).drop_last() =~= found@.take(n as int));
            assert(all.take(n + 1).last() == session);
            assert(found@.take(n + 1).last() == found@[n as int]);
            match &found[n] {
                Found::Running => {
                    still.push(session);
                },
                Found::Unclear => {
                    still.push(session);
                },
                Found::Finished => {},
                Found::Failed { exit, detail } => {
                    let said = match detail {
                        Some(d) => Some(text::copy(d.as_str())),
                        None => None,
                    };
                    let failure = SessionFailure {
                        name: session.name,
                        destination: session.destination,
                        status: describe(*exit),
                        detail: said,
                    };
                    let ghost before = self.finished@;
                    self.remember(failure);
                    assert(failure_models(self.finished@) =~= remembered(
                        failure_models(before),
                        failure_model(failure),
                    ));
                },
            }
            n = n + 1;
        }
        assert(all.take(all.len() as int) =~= all);
        assert(found@.take(found@.len() as int) =~= found@);
        self.running = still;
    }

    /// How many sessions this launcher started are still running.
    pub fn count(&self) -> (n: usize)
        ensures
            n == self.running@.len(),
    {
        self.running.len()
    }
}

/// Failures come out in the order they happened: taking one gives the oldest,
/// and one that is remembered is the last to be taken.
pub proof fn law_failures_queue_in_order<T>(finished: Seq<T>, failure: T)
    ensures
        remembered(finished, failure).last() == failure,
        remembered(finished, failure).drop_last() == if finished.len() >= MAX_PENDING {
            finished.drop_first()
        } else {
            finished
        },
{
    assert(remembered(finished, failure).drop_last() =~= if finished.len() >= MAX_PENDING {
        finished.drop_first()
    } else {
        finished
    });
}

/// A session that failed is told by its name, where it went, how it ended, and
/// the last it said, or that it said nothing.
pub proof fn law_failure_is_told(f: SessionFailure)
    ensures
        f.detail matches Some(d) ==> f.shown() == f.name@ + " ("@ + f.destination@ + ") ended -- "@
            + f.status@ + ":\n"@ + d@,
        f.detail is None ==> f.shown() == f.name@ + " ("@ + f.destination@ + ") ended -- "@
            + f.status@ + ", with nothing on its error output."@,
{
}

/// How a process ended is said by its signal or its code.
pub proof fn law_end_of_a_process_is_said(n: i32)
    ensures
        exit_text(Exit::Signal(n)) == "killed by signal "@ + text::signed_decimal(n as int),
        exit_text(Exit::Code(n)) == "exit code "@ + text::signed_decimal(n as int),
        exit_text(Exit::Unknown) == "ended abnormally"@,
{
}

/// Blank lines are left out and the others kept in order, without white space at
/// their ends.
pub proof fn law_solid_lines_are_kept_in_order(lines: Seq<Seq<char>>, line: Seq<char>)
    ensures
        solid_lines(Seq::empty()).len() == 0,
        text::blank(line) ==> solid_lines(lines.push(line)) == solid_lines(lines),
        !text::blank(line) ==> solid_lines(lines.push(line)) == solid_lines(lines).push(
            text::trim(line),
        ),
{
    assert(lines.push(line).drop_last() =~= lines);
}

/// Of a log that is read from its middle the first line, which may be a part of
/// one, is left out; of one that is read whole, nothing.
pub proof fn law_broken_line_is_left_out(s: Seq<char>)
    ensures
        whole_lines(s, false) == text::lines(s),
        text::lines(s).len() > 0 ==> whole_lines(s, true) == text::lines(s).skip(1),
{
    if text::lines(s).len() > 0 {
        assert(text::lines(s).drop_first() =~= text::lines(s).skip(1));
    }
}

/// Of the lines the last are kept, as many as are asked for.
pub proof fn law_last_lines_are_kept(parts: Seq<Seq<char>>, n: nat, i: int)
    ensures
        last_of(parts, n).len() == if parts.len() <= n {
            parts.len()
        } else {
            n
        },
        0 <= i < last_of(parts, n).len() ==> last_of(parts, n)[i] == parts[parts.len() - last_of(
            parts,
            n,
        ).len() + i],
{
}

/// What a session said last: the last four of its solid lines, one below the
/// other, whole where they take at most 600 bytes, and else the end of them
/// behind three dots.
pub proof fn law_last_words_are_kept(s: Seq<char>, mid_file: bool)
    ensures
        ({
            let said = text::join(last_of(solid_lines(whole_lines(s, mid_file)), 4), "\n"@);
            &&& text::byte_len(said) <= 600 && said.len() > 0 ==> said_last(s, mid_file) == Some(said)
            &&& said.len() == 0 && text::byte_len(said) <= 600 ==> said_last(s, mid_file) is None
            &&& text::byte_len(said) > 600 ==> said_last(s, mid_file) == Some(
                "..."@ + text::last_bytes(said, 600),
            )
        }),
        TAIL_BYTES == 4096 && MAX_PENDING == 16,
{
    reveal_strlit("...");
}

/// A session stays in the list until it has ended.
pub proof fn law_ended_sessions_leave(
    running: Seq<Session>,
    found: Seq<Found>,
    session: Session,
    state: Found,
)
    requires
        found.len() == running.len(),
    ensures
        still_running(Seq::empty(), Seq::empty()).len() == 0,
        state is Running || state is Unclear ==> still_running(running.push(session), found.push(state))
            == still_running(running, found).push(session),
        !(state is Running) && !(state is Unclear) ==> still_running(
            running.push(session),
            found.push(state),
        ) == still_running(running, found),
{
    assert(running.push(session).drop_last() =~= running);
    assert(found.push(state).drop_last() =~= found);
}

/// Of the sessions that ended, those that failed are remembered, by name and
/// destination, how they ended and what they said last; sixteen of them, and
/// the oldest goes for the newest.
pub proof fn law_failures_are_remembered(
    finished: Seq<(Seq<char>, Seq<char>, Seq<char>, Option<Seq<char>>)>,
    running: Seq<Session>,
    found: Seq<Found>,
    session: Session,
    state: Found,
)
    requires
        found.len() == running.len(),
    ensures
        ({
            let before = failures_after(finished, running, found);
            let after = failures_after(finished, running.push(session), found.push(state));
            &&& !(state is Failed) ==> after == before
            &&& state matches Found::Failed { exit, detail } ==> after.len() > 0 && after.last() == (
                session.name@,
                session.destination@,
                exit_text(exit),
                profiles::text_of(detail),
            ) && (before.len() < 16 ==> after.drop_last() == before) && (before.len() >= 16
                ==> after.drop_last() == before.skip(1))
        }),
        failures_after(finished, Seq::empty(), Seq::empty()) == finished,
{
    assert(running.push(session).drop_last() =~= running);
    assert(found.push(state).drop_last() =~= found);
    let before = failures_after(finished, running, found);
    let after = failures_after(finished, running.push(session), found.push(state));
    if state is Failed {
        if before.len() < 16 {
            assert(after.drop_last() =~= before);
        } else {
            assert(before.drop_first() =~= before.skip(1));
            assert(after.drop_last() =~= before.skip(1));
        }
    }
}

/// A failure is modelled field by field.
pub proof fn law_failure_is_its_fields(s: Seq<SessionFailure>, i: int)
    requires
        0 <= i < s.len(),
    ensures
        failure_models(s).len() == s.len(),
        failure_models(s)[i] == (
            s[i].name@,
            s[i].destination@,
            s[i].status@,
            profiles::text_of(s[i].detail),
        ),
{
}

/// Failures are taken in the order in which they came.
pub proof fn law_failures_are_taken_in_order(s: Sessions, after: Sessions, r: Option<SessionFailure>)
    requires
        s.takes_failure(after, r),
    ensures
        s.finished@.len() == 0 ==> r is None && after.finished@.len() == 0,
        s.finished@.len() > 0 ==> r == Some(s.finished@[0]) && after.finished@.len()
            == s.finished@.len() - 1 && forall|i: int|
            0 <= i < after.finished@.len() ==> #[trigger] after.finished@[i] == s.finished@[i + 1],
        after.running == s.running,
{
}

} // verus!
