//! An SSH helper relays prompts to the owning application's window and never
//! opens another application.
//!
//! A prompt and its answer each travel as one line of JSON.

use vstd::prelude::*;

use crate::askpass;
use crate::askpass::Ask;
use crate::profiles;
use crate::text;
use crate::time;

verus! {

/// Where the helper finds the application.
pub const SOCKET_ENV: &'static str = "LYNXRDP_ASKPASS_SOCKET";

/// The longest line that is read, in bytes.
pub const LIMIT: u64 = 65_536;

/// How long a question may stay open, in nanoseconds.
pub const PATIENCE: u64 = 120_000_000_000;

/// The most questions that wait.
pub const MAX_WAITING: usize = 8;

/// The error of the `serde_json` crate.
#[verifier::external_type_specification]
#[verifier::external_body]
pub struct ExJsonError(serde_json::Error);

/// What the `serde_json` crate writes for a text or nothing. A text is written
/// the same whether or not nothing could stand in its place.
pub uninterp spec fn json_of(s: Option<Seq<char>>) -> Seq<char>;

/// What the `serde_json` crate reads as a text or nothing, if it can.
pub uninterp spec fn read_as_json(line: Seq<char>) -> Option<Option<Seq<char>>>;

/// `serde_json::to_string` on a text or nothing. What it writes is named, not
/// stated, but for this: writing it does not fail, a line feed in it is
/// escaped, and reading the line gives it back.
#[verifier::external_body]
fn write_json(s: &Option<String>) -> (r: Result<String, serde_json::Error>)
    ensures
        match r {
            Ok(line) => line@ == json_of(profiles::text_of(*s)) && !line@.contains('\n')
                && read_as_json(line@ + "\n"@) == Some(profiles::text_of(*s)),
            Err(_) => false,
        },
{
    serde_json::to_string(s)
}

/// `serde_json::from_str` to a text or nothing. What it reads is named, not
/// stated.
#[verifier::external_body]
fn read_json(line: &str) -> (r: Result<Option<String>, serde_json::Error>)
    ensures
        match r {
            Ok(s) => read_as_json(line@) == Some(profiles::text_of(s)),
            Err(_) => read_as_json(line@) is None,
        },
{
    serde_json::from_str(line)
}

/// The line that a prompt or an answer travels as.
pub open spec fn line_of(s: Option<Seq<char>>) -> Seq<char> {
    json_of(s) + "\n"@
}

/// A line of its own: it ends in a line feed, and holds no other.
pub open spec fn one_line(s: Seq<char>) -> bool {
    &&& s.len() > 0
    &&& s.last() == '\n'
    &&& !s.drop_last().contains('\n')
}

/// The line an answer travels as; the helper reads the same answer back.
pub fn encode_answer(answer: &Option<String>) -> (line: String)
    ensures
        line@ == line_of(profiles::text_of(*answer)),
        one_line(line@),
        read_as_json(line@) == Some(profiles::text_of(*answer)),
{
    match write_json(answer) {
        Ok(json) => {
            let ghost inner = json@;
            let mut line = json;
            line.push_str("\n");
            proof {
                reveal_strlit("\n");
                assert(line@.drop_last() =~= inner);
                assert(line@.last() == '\n');
            }
            line
        },
        Err(_) => String::new(),
    }
}

/// The answer on a line. A line that cannot be read is no answer.
pub fn decode_answer(line: &str) -> (r: Option<String>)
    ensures
        profiles::text_of(r) == match read_as_json(line@) {
            Some(answer) => answer,
            None => None,
        },
{
    match read_json(line) {
        Ok(answer) => answer,
        Err(_) => None,
    }
}

/// The line a prompt travels as. A prompt of several lines is one line there,
/// and the application reads the same prompt back.
pub fn encode_prompt(prompt: &str) -> (line: String)
    ensures
        line@ == line_of(Some(prompt@)),
        one_line(line@),
        read_as_json(line@) == Some(Some(prompt@)),
{
    encode_answer(&Some(text::copy(prompt)))
}

/// The prompt on a line, if there is one.
pub fn decode_prompt(line: &str) -> (r: Option<String>)
    ensures
        match r {
            Some(prompt) => read_as_json(line@) == Some(Some(prompt@)),
            None => !(read_as_json(line@) matches Some(Some(_))),
        },
{
    decode_answer(line)
}

/// What is read up to the end of the line is all of it: nothing that is asked
/// or answered is cut short by a line feed of its own.
pub proof fn law_line_is_read_whole(line: Seq<char>)
    requires
        one_line(line),
    ensures
        text::next_char(line, '\n', 0) == line.len() - 1,
{
    lemma_first_feed(line, 0);
}

proof fn lemma_first_feed(line: Seq<char>, from: int)
    requires
        one_line(line),
        0 <= from < line.len(),
    ensures
        text::next_char(line, '\n', from) == line.len() - 1,
    decreases line.len() - from,
{
    if from < line.len() - 1 {
        assert(line.drop_last()[from] == line[from]);
        assert(line.drop_last().contains(line[from]));
        lemma_first_feed(line, from + 1);
    }
}

// ---------------------------------------------------------------------------
// The broker
// ---------------------------------------------------------------------------

/// A question of a helper that waits.
#[derive(Debug, PartialEq, Eq)]
pub struct Request {
    /// Which helper it is from.
    pub helper: u64,
    pub prompt: String,
    pub deadline: u64,
}

/// The question that is on screen.
#[derive(Debug, PartialEq, Eq)]
pub struct Current {
    pub helper: u64,
    pub ask: Ask,
    pub deadline: u64,
}

/// The questions of helpers, asked one at a time.
#[derive(Debug, PartialEq, Eq)]
pub struct Broker {
    /// The questions that wait, in order.
    pub waiting: Vec<Request>,
    pub current: Option<Current>,
}

/// An answer for a helper.
#[derive(Debug, PartialEq, Eq)]
pub struct Reply {
    pub helper: u64,
    pub answer: Option<String>,
}

impl Broker {
    /// No more questions wait than may.
    pub open spec fn wf(self) -> bool {
        self.waiting@.len() <= MAX_WAITING
    }

    pub fn new() -> (b: Broker)
        ensures
            b.wf(),
            b.waiting@.len() == 0,
            b.current is None,
    {
        Broker { waiting: Vec::new(), current: None }
    }

    /// What a new question does.
    pub open spec fn queued_up(self, after: Broker, helper: u64, prompt: String, now: u64, r: bool) -> bool {
        &&& after.wf()
        &&& r == (self.waiting@.len() < MAX_WAITING)
        &&& after.current == self.current
        &&& after.waiting@ == if r {
                self.waiting@.push(
                    Request { helper, prompt, deadline: time::later(now, PATIENCE) },
                )
            } else {
                self.waiting@
            }
    }

    /// A helper asks, where there is room for one more. Returns whether it
    /// waits for an answer.
    pub fn request(&mut self, helper: u64, prompt: String, now: u64) -> (r: bool)
        requires
            old(self).wf(),
        ensures
            final(self).wf(),
            r == (old(self).waiting@.len() < MAX_WAITING),
            final(self).current == old(self).current,
            final(self).waiting@ == if r {
                old(self).waiting@.push(
                    Request { helper, prompt, deadline: time::later(now, PATIENCE) },
                )
            } else {
                old(self).waiting@
            },
            old(self).queued_up(*final(self), helper, prompt, now, r),
    {
        if self.waiting.len() >= MAX_WAITING {
            return false;
        }
        self.waiting.push(Request { helper, prompt, deadline: time::after(now, PATIENCE) });
        true
    }

    /// Drop the question on screen. The helper gets no answer, which is a
    /// refusal and not an empty password.
    pub fn cancel(&mut self) -> (r: Option<Reply>)
        ensures
            match old(self).current {
                Some(c) => r == Some(Reply { helper: c.helper, answer: None }),
                None => r is None,
            },
            *final(self) == (Broker { current: None, ..*old(self) }),
    {
        match self.current.take() {
            Some(c) => Some(Reply { helper: c.helper, answer: None }),
            None => None,
        }
    }

    /// The question on screen has been there too long.
    pub open spec fn expired(self, now: u64) -> bool {
        self.current matches Some(c) && now >= c.deadline
    }

    /// What a look at the broker does: who is asked next, and who is answered.
    pub open spec fn polled(self, after: Broker, now: u64, r: (bool, Option<Reply>)) -> bool {
        &&& after.wf()
        &&& r.1 == if self.expired(now) {
                Some(Reply { helper: (self.current->0).helper, answer: None })
            } else {
                None
            }
        &&& r.0 == ((self.current is None || self.expired(now))
                && self.waiting@.len() > 0)
        &&& if r.0 {
                &&& after.waiting@ == self.waiting@.skip(1)
                &&& after.current matches Some(c) && c.helper == self.waiting@[0].helper
                    && c.deadline == self.waiting@[0].deadline && c.ask.prompt
                    == self.waiting@[0].prompt && c.ask.kind == askpass::kind_of(
                    self.waiting@[0].prompt@,
                ) && c.ask.answer is None && c.ask.secret@.len() == 0 && !c.ask.focused
            } else {
                &&& after.waiting@ == self.waiting@
                &&& after.current == if self.expired(now) {
                    None
                } else {
                    self.current
                }
            }
    }

    /// Advance: drop a question that has been there too long, and show the next
    /// one where none is. Returns whether one was brought up, and the reply to
    /// the one that was dropped.
    pub fn poll(&mut self, now: u64) -> (r: (bool, Option<Reply>))
        requires
            old(self).wf(),
        ensures
            final(self).wf(),
            r.1 == if old(self).expired(now) {
                Some(Reply { helper: (old(self).current->0).helper, answer: None })
            } else {
                None
            },
            r.0 == ((old(self).current is None || old(self).expired(now))
                && old(self).waiting@.len() > 0),
            if r.0 {
                &&& final(self).waiting@ == old(self).waiting@.skip(1)
                &&& final(self).current matches Some(c) && c.helper == old(self).waiting@[0].helper
                    && c.deadline == old(self).waiting@[0].deadline && c.ask.prompt == old(
                    self,
                ).waiting@[0].prompt && c.ask.kind == askpass::kind_of(
                    old(self).waiting@[0].prompt@,
                ) && c.ask.answer is None && c.ask.secret@.len() == 0 && !c.ask.focused
            } else {
                &&& final(self).waiting@ == old(self).waiting@
                &&& final(self).current == if old(self).expired(now) {
                    None
                } else {
                    old(self).current
                }
            },
            old(self).polled(*final(self), now, r),
    {
        let late = match &self.current {
            Some(c) => now >= c.deadline,
            None => false,
        };
        let dropped = if late {
            self.cancel()
        } else {
            None
        };
        if self.current.is_none() && self.waiting.len() > 0 {
            let next = self.waiting.remove(0);
            assert(self.waiting@ =~= old(self).waiting@.skip(1));
            self.current = Some(
                Current { helper: next.helper, ask: Ask::new(next.prompt), deadline: next.deadline },
            );
            return (true, dropped);
        }
        (false, dropped)
    }

    /// What an answer of the user does.
    pub open spec fn finished(self, after: Broker, r: Option<Reply>) -> bool {
        &&& match self.current {
                Some(c) => match c.ask.answer {
                    Some(answer) => {
                        &&& r == Some(Reply { helper: c.helper, answer })
                        &&& after == (Broker { current: None, ..self })
                    },
                    None => r is None && after == self,
                },
                None => r is None && after == self,
            }
    }

    /// Take the answer to the question on screen, once there is one.
    pub fn finish(&mut self) -> (r: Option<Reply>)
        ensures
            match old(self).current {
                Some(c) => match c.ask.answer {
                    Some(answer) => {
                        &&& r == Some(Reply { helper: c.helper, answer })
                        &&& *final(self) == (Broker { current: None, ..*old(self) })
                    },
                    None => r is None && *final(self) == *old(self),
                },
                None => r is None && *final(self) == *old(self),
            },
            old(self).finished(*final(self), r),
    {
        let done = match &self.current {
            Some(c) => c.ask.answer.is_some(),
            None => false,
        };
        if !done {
            return None;
        }
        match self.current.take() {
            Some(c) => match c.ask.answer {
                Some(answer) => Some(Reply { helper: c.helper, answer }),
                None => None,
            },
            None => None,
        }
    }
}

/// Questions are asked one at a time, in the order in which they came, and one
/// that has been there for two minutes is answered with nothing.
pub proof fn law_questions_are_asked_in_order(b: Broker, after: Broker, now: u64, r: (bool, Option<Reply>))
    requires
        b.polled(after, now, r),
    ensures
        ({
            let late = b.current matches Some(c) && now >= c.deadline;
            &&& late ==> (b.current matches Some(c) && r.1 == Some(
                Reply { helper: c.helper, answer: None },
            ))
            &&& !late ==> r.1 is None
            &&& b.current is Some && !late ==> !r.0 && after.current == b.current && after.waiting@
                == b.waiting@
            &&& (b.current is None || late) && b.waiting@.len() > 0 ==> r.0 && (
            after.current matches Some(c) && c.helper == b.waiting@[0].helper && c.ask.prompt
                == b.waiting@[0].prompt && c.deadline == b.waiting@[0].deadline
                && c.ask.answer is None) && after.waiting@.len() == b.waiting@.len() - 1
                && forall|i: int|
                0 <= i < after.waiting@.len() ==> #[trigger] after.waiting@[i] == b.waiting@[i + 1]
            &&& (b.current is None || late) && b.waiting@.len() == 0 ==> !r.0 && after.current is None
        }),
{
}

/// An answer goes to the helper whose question it answers, and to no other.
pub proof fn law_answer_goes_to_its_helper(b: Broker, after: Broker, r: Option<Reply>)
    requires
        b.finished(after, r),
    ensures
        b.current matches Some(c) ==> (c.ask.answer matches Some(a) ==> r == Some(
            Reply { helper: c.helper, answer: a },
        ) && after.current is None),
        b.current is None ==> r is None,
        b.current matches Some(c) ==> (c.ask.answer is None ==> r is None && after == b),
        after.waiting == b.waiting,
{
}

/// Eight questions may wait, each for two minutes; one more is turned away.
pub proof fn law_few_questions_wait(
    b: Broker,
    after: Broker,
    helper: u64,
    prompt: String,
    now: u64,
    r: bool,
)
    requires
        b.queued_up(after, helper, prompt, now, r),
        now + 120_000_000_000 <= u64::MAX,
    ensures
        r <==> b.waiting@.len() < 8,
        r ==> after.waiting@ == b.waiting@.push(
            Request { helper, prompt, deadline: (now + 120_000_000_000) as u64 },
        ),
        !r ==> after.waiting@ == b.waiting@,
        after.current == b.current,
        LIMIT == 64 * 1024,
{
}

/// What goes over the socket is the text as JSON and a line feed.
pub proof fn law_text_goes_as_one_line(s: Option<Seq<char>>)
    ensures
        line_of(s).len() == json_of(s).len() + 1,
        line_of(s).last() == '\n',
        line_of(s).drop_last() == json_of(s),
{
    reveal_strlit("\n");
    assert(line_of(s).drop_last() =~= json_of(s));
}

} // verus!
