//! The client's side of a connection, without any user interface.

pub mod compose;

use std::collections::HashMap;
use std::collections::HashSet;
use std::collections::VecDeque;

use vstd::prelude::*;

use crate::proto::{CursorImage, Features, FileEntry, Formats, Message, Rect, TransferPurpose};
use crate::text;
use crate::time;

verus! {

broadcast use vstd::std_specs::hash::group_hash_axioms;

// ---------------------------------------------------------------------------
// Rejections
// ---------------------------------------------------------------------------

/// What every rejection string says, and the only place it is written down.
pub const REJECTION_MARK: &'static str = "rejected (code ";

/// How a rejection is phrased.
pub open spec fn rejection_text(code: u16, reason: Seq<char>) -> Seq<char> {
    REJECTION_MARK@ + text::decimal(code as nat) + "): "@ + reason
}

/// The code a text that begins like a rejection gives, if it gives one.
pub open spec fn rejection_number(s: Seq<char>) -> Option<nat> {
    if !text::starts_with(s, REJECTION_MARK@) {
        None
    } else {
        let rest = s.skip(REJECTION_MARK@.len() as int);
        let end = text::next_char(rest, ')', 0);
        if end >= rest.len() {
            None
        } else {
            text::unsigned(rest.take(end), u16::MAX as nat)
        }
    }
}

/// Whether a text holds a rejection anywhere.
pub open spec fn rejection_inside(s: Seq<char>) -> bool {
    exists|i: int| 0 <= i <= s.len() && rejection_number(#[trigger] s.skip(i)) is Some
}

/// How a rejection from the server is phrased for the user.
///
/// A function rather than a format where it happens, because the code has to
/// be readable back out of the string afterwards: the session window decides
/// whether a dropped link is worth retrying, and a rejection is precisely the
/// case where retrying achieves nothing but noise. [`rejection_code`] and
/// [`mentions_rejection`] are the other half.
pub fn rejection_reason(code: u16, reason: &str) -> (r: String)
    ensures
        r@ == rejection_text(code, reason@),
{
    let mut s = text::copy(REJECTION_MARK);
    let n = text::decimal_of(code as u64);
    s.push_str(n.as_str());
    s.push_str("): ");
    s.push_str(reason);
    s
}

fn code_at(s: &Vec<char>, from: usize) -> (r: Option<u16>)
    requires
        from <= s.len(),
    ensures
        match r {
            Some(n) => rejection_number(s@.skip(from as int)) == Some(n as nat),
            None => rejection_number(s@.skip(from as int)) is None,
        },
{
    let mark = text::chars_of(REJECTION_MARK);
    let tail = text::slice_of(s, from, s.len());
    assert(tail@ =~= s@.skip(from as int));
    if !text::is_at(&tail, &mark, 0) {
        return None;
    }
    let rest = text::slice_of(&tail, mark.len(), tail.len());
    assert(rest@ =~= tail@.skip(mark@.len() as int));
    let end = text::position(&rest, ')', 0);
    if end >= rest.len() {
        return None;
    }
    let digits = text::slice_of(&rest, 0, end);
    assert(digits@ =~= rest@.take(end as int));
    match text::parse_unsigned(&digits, u16::MAX as u64) {
        Some(n) => Some(n as u16),
        None => None,
    }
}

/// The code out of a string [`rejection_reason`] produced, if it is one.
pub fn rejection_code(text: &str) -> (r: Option<u16>)
    ensures
        match r {
            Some(n) => rejection_number(text@) == Some(n as nat),
            None => rejection_number(text@) is None,
        },
{
    let s = text::chars_of(text);
    assert(s@.skip(0) =~= text@);
    code_at(&s, 0)
}

/// Whether a failure reports a rejection, wherever in it that is said.
///
/// The question [`rejection_code`] answers is "is this string a rejection",
/// and that is the wrong one to ask of a reconnection failure: by the time
/// one reaches the session window, context may stand in front of it.
pub fn mentions_rejection(text: &str) -> (r: bool)
    ensures
        r == rejection_inside(text@),
{
    let s = text::chars_of(text);
    let mut i: usize = 0;
    while i < s.len()
        invariant
            i <= s.len(),
            s@ == text@,
            forall|k: int| 0 <= k < i ==> rejection_number(#[trigger] s@.skip(k)) is None,
        decreases s.len() - i,
    {
        if code_at(&s, i).is_some() {
            return true;
        }
        i = i + 1;
    }
    code_at(&s, i).is_some()
}

proof fn lemma_next_char_past(s: Seq<char>, c: char, from: int, to: int)
    requires
        0 <= from <= to <= s.len(),
        forall|k: int| from <= k < to ==> s[k] != c,
    ensures
        text::next_char(s, c, from) == text::next_char(s, c, to),
    decreases to - from,
{
    if from < to {
        lemma_next_char_past(s, c, from + 1, to);
    }
}

/// The code of a rejection can be read back out of how it is phrased.
pub proof fn law_rejection_round_trip(code: u16, reason: Seq<char>)
    ensures
        rejection_number(rejection_text(code, reason)) == Some(code as nat),
{
    reveal_strlit("): ");
    let s = rejection_text(code, reason);
    let mark = REJECTION_MARK@;
    let digits = text::decimal(code as nat);
    assert(s.subrange(0, mark.len() as int) =~= mark);
    let rest = s.skip(mark.len() as int);
    assert(rest =~= digits + "): "@ + reason);
    text::lemma_decimal_digits(code as nat);
    assert forall|k: int| 0 <= k < digits.len() implies rest[k] != ')' by {
        assert(rest[k] == digits[k]);
        assert(text::is_digit(digits[k]));
    }
    lemma_next_char_past(rest, ')', 0, digits.len() as int);
    assert(rest[digits.len() as int] == "): "@[0]);
    assert(rest.take(digits.len() as int) =~= digits);
    text::law_decimal_round_trip(code as nat, u16::MAX as nat);
}

/// Context in front of a rejection does not hide it.
pub proof fn law_rejection_survives_context(context: Seq<char>, code: u16, reason: Seq<char>)
    ensures
        rejection_inside(context + rejection_text(code, reason)),
{
    let s = context + rejection_text(code, reason);
    assert(s.skip(context.len() as int) =~= rejection_text(code, reason));
    law_rejection_round_trip(code, reason);
}

// ---------------------------------------------------------------------------
// Options and events
// ---------------------------------------------------------------------------

/// Declare the server gone after this long with no message of any kind.
///
/// Matches the server's own limit, so both ends give up at the same point
/// rather than one of them holding a connection the other has abandoned.
pub const LIVENESS_TIMEOUT: u64 = 30_000_000_000;

/// Longest single blocking wait inside [`Client::poll_event`].
///
/// A caller asking to wait a minute must still have the liveness deadline
/// checked on the way, so the wait is chopped into pieces.
pub const POLL_SLICE: u64 = 250_000_000;

/// Options for connecting.
#[derive(Clone, Debug, PartialEq, Eq)]
pub struct ConnectOptions {
    /// Desired initial screen size (`None` = server default).
    pub size: Option<(u16, u16)>,
    /// Features to request.
    pub features: Features,
    /// Timeout for connecting and for the handshake.
    pub timeout: u64,
    /// Name sent to the server.
    pub client_name: String,
}

impl Default for ConnectOptions {
    fn default() -> (o: ConnectOptions)
        ensures
            o.size is None,
            o.features == (Features {
                local_cursor: true,
                clipboard: true,
                resize: true,
                clipboard_image: true,
                file_transfer: true,
                clipboard_files: true,
                atomic_files: true,
            }),
            o.timeout == 15 * time::SECOND,
            o.client_name@ == crate::CLIENT_NAME@,
    {
        ConnectOptions {
            size: None,
            features: Features {
                local_cursor: true,
                clipboard: true,
                resize: true,
                clipboard_image: true,
                file_transfer: true,
                clipboard_files: true,
                atomic_files: true,
            },
            timeout: 15 * time::SECOND,
            client_name: text::copy(crate::CLIENT_NAME),
        }
    }
}

/// What the server told us in its hello.
#[derive(Clone, Debug, PartialEq, Eq)]
pub struct ServerInfo {
    /// Server identification.
    pub server_name: String,
    /// Negotiated features.
    pub features: Features,
    /// Session identifier.
    pub session_id: u64,
    /// User owning the session.
    pub username: String,
}

/// What a caller learns from a connection.
#[derive(Debug, PartialEq, Eq)]
pub enum ClientEvent {
    /// A frame was applied; `dirty` is the changed area.
    Frame { frame_id: u64, dirty: Rect },
    /// The remote screen size changed.
    Resized { width: u32, height: u32 },
    /// The pointer shape changed.
    Cursor(CursorImage),
    /// The pointer was moved by the remote side.
    CursorPosition(u16, u16),
    /// Clipboard text from the remote session.
    Clipboard(String),
    /// A clipboard image (PNG bytes) from the remote session.
    ClipboardImage(Vec<u8>),
    /// The session copied files.
    ClipboardFiles(Vec<FileEntry>),
    /// A file finished downloading to this path.
    ///
    /// The id, not the name, is what a caller tracking a batch has to key on:
    /// a session can copy two files of one name from different directories.
    FileDownloaded { id: u64, path: String, name: String },
    /// A file finished uploading into the session.
    FileUploaded { id: u64, name: String },
    /// A transfer failed.
    TransferFailed { id: u64, reason: String },
    /// A notice for the user.
    Notice(String),
    /// Round trip time measured from a ping and its answer.
    Rtt(u64),
    /// The connection ended.
    Disconnected(String),
}

/// A transfer that arrived whole. An in-memory one brings its bytes.
#[derive(Debug, PartialEq, Eq)]
pub struct Completed {
    pub id: u64,
    pub purpose: TransferPurpose,
    pub name: String,
    pub data: Option<Vec<u8>>,
}

/// What one message did to the transfers of a connection.
#[derive(Debug, PartialEq, Eq)]
pub struct Outcome {
    /// Messages to answer with.
    pub replies: Vec<Message>,
    /// Transfers that failed, and why.
    pub failed: Vec<(u64, String)>,
    /// Transfers that were sent whole.
    pub sent: Vec<(u64, TransferPurpose, String)>,
    /// Transfers that arrived whole.
    pub completed: Vec<Completed>,
}

/// What to do with an offered transfer.
#[derive(Debug, PartialEq, Eq)]
pub enum Admission {
    /// Keep it in memory.
    Memory,
    /// Write it to a file, over an existing one only where that was asked for.
    File { path: String, replace: bool },
    /// Turn it away.
    Refused(String),
}

/// Something only the owner of the files can send on.
#[derive(Debug, PartialEq, Eq)]
pub enum Serve {
    /// The session asked for an offered file.
    File { id: u64, path: String },
    /// The session asked for the offered image.
    Image { png: Vec<u8> },
}

/// What a message from the server leads to.
#[derive(Debug, PartialEq, Eq)]
pub struct Handled {
    /// Messages to send, in order.
    pub sends: Vec<Message>,
    /// Something to send from outside the connection's own state.
    pub serve: Option<Serve>,
    /// What to tell the caller.
    pub event: Option<ClientEvent>,
    /// The message could not be applied, and the connection is no longer sound.
    pub failed: bool,
}

/// What became of a wait for a message.
#[derive(Debug, PartialEq, Eq)]
pub enum Waited {
    /// Hand this to the caller.
    Event(ClientEvent),
    /// The caller's time is up.
    Idle,
    /// Wait for another slice.
    Again,
}

/// Client-side connection state.
pub struct Client {
    pub info: ServerInfo,
    /// The size of the remote screen.
    pub width: u32,
    pub height: u32,
    /// Latest cursor image, if the server sent one.
    pub cursor: Option<CursorImage>,
    /// Reason the connection closed, if it has.
    pub closed: Option<String>,
    /// Number of frames applied.
    pub frames_received: u64,
    /// Bytes of screen data received.
    pub bytes_received: u64,
    /// The last probe: its nonce and when it left.
    pub last_ping: Option<(u64, u64)>,
    /// When the last message of any kind arrived from the server.
    pub last_message_at: u64,
    /// Events one server message produced but a single poll cannot return.
    pub queued: VecDeque<ClientEvent>,
    /// Destinations for downloads this client asked for.
    pub downloads: HashMap<u64, String>,
    /// Downloads that may replace an existing file.
    pub replacements: HashSet<u64>,
    /// An image copied locally, held until the session asks for it.
    pub pending_image: Option<Vec<u8>>,
    /// Files this client offered on the clipboard. The session may only read
    /// files that appear here.
    pub offered_files: Vec<String>,
}

// ---------------------------------------------------------------------------
// The handshake
// ---------------------------------------------------------------------------

/// What this client says first.
pub open spec fn greets(opts: ConnectOptions, version: u16, m: Message) -> bool {
    &&& m matches Message::ClientHello { version: v, client_name, features, width, height } && v
            == version && client_name@ == opts.client_name@ && features == opts.features && (width,
            height) == (match opts.size {
            Some(s) => s,
            None => (0u16, 0u16),
        })
}

/// The first message of a connection.
pub fn hello(opts: &ConnectOptions, version: u16) -> (m: Message)
    ensures
        m matches Message::ClientHello { version: v, client_name, features, width, height } && v
            == version && client_name@ == opts.client_name@ && features == opts.features && (width,
            height) == (match opts.size {
            Some(s) => s,
            None => (0u16, 0u16),
        }),
        greets(*opts, version, m),
{
    let (width, height) = match opts.size {
        Some(s) => s,
        None => (0, 0),
    };
    Message::ClientHello {
        version,
        client_name: text::copy(opts.client_name.as_str()),
        features: opts.features,
        width,
        height,
    }
}

/// How an unsupported protocol version is phrased.
pub open spec fn version_text(version: u16, oldest: u16, newest: u16) -> Seq<char> {
    "server speaks protocol version "@ + text::decimal(version as nat)
        + "; this client supports "@ + text::decimal(oldest as nat) + " to "@ + text::decimal(
        newest as nat,
    )
}

/// How a message that is no answer to a hello is phrased.
pub open spec fn unexpected_text(kind: Seq<char>) -> Seq<char> {
    "unexpected message "@ + kind + " during handshake"@
}

/// Why the answer to a hello is no connection, if it is none.
pub open spec fn handshake_refusal(
    reply: Message,
    kind: Seq<char>,
    oldest: u16,
    newest: u16,
) -> Option<Seq<char>> {
    match reply {
        Message::ServerHello { version, .. } => if oldest <= version <= newest {
            None
        } else {
            Some(version_text(version, oldest, newest))
        },
        Message::Rejected { code, reason } => Some(rejection_text(code, reason@)),
        _ => Some(unexpected_text(kind)),
    }
}

fn version_error(version: u16, oldest: u16, newest: u16) -> (s: String)
    ensures
        s@ == version_text(version, oldest, newest),
{
    let mut s = text::copy("server speaks protocol version ");
    let a = text::decimal_of(version as u64);
    s.push_str(a.as_str());
    s.push_str("; this client supports ");
    let b = text::decimal_of(oldest as u64);
    s.push_str(b.as_str());
    s.push_str(" to ");
    let c = text::decimal_of(newest as u64);
    s.push_str(c.as_str());
    s
}

impl Client {
    /// A connection on which nothing has happened since the handshake.
    pub open spec fn fresh(self, now: u64) -> bool {
        &&& self.cursor is None
        &&& self.closed is None
        &&& self.frames_received == 0
        &&& self.bytes_received == 0
        &&& self.last_ping is None
        &&& self.last_message_at == now
        &&& self.queued@.len() == 0
        &&& self.downloads@ == Map::<u64, String>::empty()
        &&& self.replacements@ == Set::<u64>::empty()
        &&& self.pending_image is None
        &&& self.offered_files@.len() == 0
    }

    /// What the answer to a hello makes of the connection.
    pub open spec fn opened(reply: Message, kind: Seq<char>, oldest: u16, newest: u16, now: u64, r: Result<Client, String>) -> bool {
        &&& match r {
                Ok(c) => {
                    &&& handshake_refusal(reply, kind, oldest, newest) is None
                    &&& c.fresh(now)
                    &&& reply matches Message::ServerHello {
                        server_name,
                        features,
                        session_id,
                        username,
                        width,
                        height,
                        ..
                    } && c.info == (ServerInfo { server_name, features, session_id, username })
                        && c.width == width && c.height == height
                },
                Err(e) => handshake_refusal(reply, kind, oldest, newest) == Some(e@),
            }
    }

    /// The connection that the answer to a hello makes, or why it makes none.
    ///
    /// The server answers with the version the two sides agreed on, which is
    /// the older of the pair, so this is a range check: a server below the
    /// oldest version this client can hold a session with is refused, and so
    /// is one above its own version, which ignored the hello it was sent.
    /// `kind` names the kind of the message.
    pub fn from_stream(reply: Message, kind: &str, oldest: u16, newest: u16, now: u64) -> (r: Result<
        Client,
        String,
    >)
        ensures
            match r {
                Ok(c) => {
                    &&& handshake_refusal(reply, kind@, oldest, newest) is None
                    &&& c.fresh(now)
                    &&& reply matches Message::ServerHello {
                        server_name,
                        features,
                        session_id,
                        username,
                        width,
                        height,
                        ..
                    } && c.info == (ServerInfo { server_name, features, session_id, username })
                        && c.width == width && c.height == height
                },
                Err(e) => handshake_refusal(reply, kind@, oldest, newest) == Some(e@),
            },
            Self::opened(reply, kind@, oldest, newest, now, r),
    {
        match reply {
            Message::ServerHello {
                version,
                server_name,
                features,
                session_id,
                username,
                width,
                height,
            } => {
                if version < oldest || version > newest {
                    return Err(version_error(version, oldest, newest));
                }
                Ok(
                    Client {
                        info: ServerInfo { server_name, features, session_id, username },
                        width: width as u32,
                        height: height as u32,
                        cursor: None,
                        closed: None,
                        frames_received: 0,
                        bytes_received: 0,
                        last_ping: None,
                        last_message_at: now,
                        queued: VecDeque::new(),
                        downloads: HashMap::new(),
                        replacements: HashSet::new(),
                        pending_image: None,
                        offered_files: Vec::new(),
                    },
                )
            },
            Message::Rejected { code, reason } => Err(rejection_reason(code, reason.as_str())),
            _ => {
                let mut s = text::copy("unexpected message ");
                s.push_str(kind);
                s.push_str(" during handshake");
                Err(s)
            },
        }
    }
}

// ---------------------------------------------------------------------------
// Transfers
// ---------------------------------------------------------------------------

/// The failure a reply to an offer amounts to, if it turns the offer away.
///
/// A refusal is read off the reply, whoever decided on it: it answers on the
/// wire and leaves nothing behind, and the requester is still waiting.
pub open spec fn refusal(reply: Message) -> Option<ClientEvent> {
    match reply {
        Message::TransferAccept { id, accepted: false, reason } => Some(
            ClientEvent::TransferFailed { id, reason },
        ),
        _ => None,
    }
}

pub open spec fn refusals(replies: Seq<Message>) -> Seq<ClientEvent>
    decreases replies.len(),
{
    if replies.len() == 0 {
        seq![]
    } else {
        match refusal(replies.last()) {
            Some(e) => refusals(replies.drop_last()).push(e),
            None => refusals(replies.drop_last()),
        }
    }
}

pub open spec fn failures(failed: Seq<(u64, String)>) -> Seq<ClientEvent> {
    failed.map_values(|f: (u64, String)| ClientEvent::TransferFailed { id: f.0, reason: f.1 })
}

/// The uploads among what was sent.
pub open spec fn uploads(sent: Seq<(u64, TransferPurpose, String)>) -> Seq<ClientEvent>
    decreases sent.len(),
{
    if sent.len() == 0 {
        seq![]
    } else if sent.last().1 == TransferPurpose::FileUpload {
        uploads(sent.drop_last()).push(
            ClientEvent::FileUploaded { id: sent.last().0, name: sent.last().2 },
        )
    } else {
        uploads(sent.drop_last())
    }
}

/// What a caller is told of a transfer that arrived whole: an image, or a
/// download this client has a destination for.
pub open spec fn arrival(downloads: Map<u64, String>, done: Completed) -> Option<ClientEvent> {
    match done.purpose {
        TransferPurpose::ClipboardImage => match done.data {
            Some(png) => Some(ClientEvent::ClipboardImage(png)),
            None => None,
        },
        TransferPurpose::FileDownload => if downloads.contains_key(done.id) {
            Some(
                ClientEvent::FileDownloaded {
                    id: done.id,
                    path: downloads[done.id],
                    name: done.name,
                },
            )
        } else {
            None
        },
        TransferPurpose::FileUpload => None,
    }
}

/// The destinations that are left once a transfer arrived.
pub open spec fn after_arrival(downloads: Map<u64, String>, done: Completed) -> Map<u64, String> {
    if done.purpose == TransferPurpose::FileDownload {
        downloads.remove(done.id)
    } else {
        downloads
    }
}

pub open spec fn after_arrivals(downloads: Map<u64, String>, completed: Seq<Completed>) -> Map<
    u64,
    String,
>
    decreases completed.len(),
{
    if completed.len() == 0 {
        downloads
    } else {
        after_arrival(after_arrivals(downloads, completed.drop_last()), completed.last())
    }
}

pub open spec fn arrivals(downloads: Map<u64, String>, completed: Seq<Completed>) -> Seq<
    ClientEvent,
>
    decreases completed.len(),
{
    if completed.len() == 0 {
        seq![]
    } else {
        let head = completed.drop_last();
        match arrival(after_arrivals(downloads, head), completed.last()) {
            Some(e) => arrivals(downloads, head).push(e),
            None => arrivals(downloads, head),
        }
    }
}

/// The ids that the failures of a list name.
pub open spec fn failed_ids(events: Seq<ClientEvent>) -> Set<u64> {
    Set::new(
        |id: u64|
            exists|i: int|
                0 <= i < events.len() && (#[trigger] events[i] matches ClientEvent::TransferFailed {
                    id: failed,
                    ..
                } && failed == id),
    )
}

/// A map without the keys of a set.
pub open spec fn without(m: Map<u64, String>, ids: Set<u64>) -> Map<u64, String> {
    m.remove_keys(ids)
}

/// The ids of the transfers that arrived.
pub open spec fn arrived_ids(completed: Seq<Completed>) -> Set<u64> {
    Set::new(|id: u64| exists|i: int| 0 <= i < completed.len() && (#[trigger] completed[i]).id == id)
}

proof fn lemma_arrived_ids_push(completed: Seq<Completed>, k: int)
    requires
        0 <= k < completed.len(),
    ensures
        arrived_ids(completed.take(k + 1)) == arrived_ids(completed.take(k)).insert(
            completed[k].id,
        ),
{
    let a = completed.take(k);
    let b = completed.take(k + 1);
    assert forall|id: u64| arrived_ids(b).contains(id) <==> arrived_ids(a).insert(
        completed[k].id,
    ).contains(id) by {
        if arrived_ids(a).contains(id) {
            let i = choose|i: int| 0 <= i < a.len() && (#[trigger] a[i]).id == id;
            assert(b[i].id == id);
        }
        if id == completed[k].id {
            assert(b[k].id == id);
        }
        if arrived_ids(b).contains(id) {
            let i = choose|i: int| 0 <= i < b.len() && (#[trigger] b[i]).id == id;
            if i < k {
                assert(a[i].id == id);
            }
        }
    }
    assert(arrived_ids(b) =~= arrived_ids(a).insert(completed[k].id));
}

impl Client {
    /// Whether everything but the transfers and the queue is as before.
    pub open spec fn same_session(self, other: Client) -> bool {
        &&& self.info == other.info
        &&& self.width == other.width
        &&& self.height == other.height
        &&& self.cursor == other.cursor
        &&& self.closed == other.closed
        &&& self.frames_received == other.frames_received
        &&& self.bytes_received == other.bytes_received
        &&& self.last_ping == other.last_ping
        &&& self.last_message_at == other.last_message_at
        &&& self.pending_image == other.pending_image
        &&& self.offered_files == other.offered_files
    }

    /// Record a transfer as failed and release whatever it was holding.
    pub fn fail_transfer(&mut self, id: u64, reason: String)
        ensures
            final(self).same_session(*old(self)),
            final(self).downloads@ == old(self).downloads@.remove(id),
            final(self).replacements@ == old(self).replacements@.remove(id),
            final(self).queued@ == old(self).queued@.push(
                ClientEvent::TransferFailed { id, reason },
            ),
    {
        self.downloads.remove(&id);
        self.replacements.remove(&id);
        self.queued.push_back(ClientEvent::TransferFailed { id, reason });
    }

    /// Where what the server offers goes, or why it is turned away.
    pub open spec fn admits(self, id: u64, purpose: TransferPurpose, a: Admission) -> bool {
        &&& match purpose {
                TransferPurpose::ClipboardImage => a == Admission::Memory,
                TransferPurpose::FileUpload => a matches Admission::Refused(why) && why@
                    == "unexpected upload offer"@,
                TransferPurpose::FileDownload => if self.downloads@.contains_key(id) {
                    a == (Admission::File {
                        path: self.downloads@[id],
                        replace: self.replacements@.contains(id),
                    })
                } else {
                    a matches Admission::Refused(why) && why@ == "unsolicited download"@
                },
            }
    }

    /// Whether the session may write what it offers, and where.
    ///
    /// Downloads only land where this client asked them to: an offer whose id
    /// was not requested is refused, so the session cannot write files onto
    /// the client's disk of its own accord. The session never uploads to us.
    pub fn accept(&self, id: u64, purpose: TransferPurpose) -> (a: Admission)
        ensures
            match purpose {
                TransferPurpose::ClipboardImage => a == Admission::Memory,
                TransferPurpose::FileUpload => a matches Admission::Refused(why) && why@
                    == "unexpected upload offer"@,
                TransferPurpose::FileDownload => if self.downloads@.contains_key(id) {
                    a == (Admission::File {
                        path: self.downloads@[id],
                        replace: self.replacements@.contains(id),
                    })
                } else {
                    a matches Admission::Refused(why) && why@ == "unsolicited download"@
                },
            },
            self.admits(id, purpose, a),
    {
        match purpose {
            TransferPurpose::ClipboardImage => Admission::Memory,
            TransferPurpose::FileDownload => match self.downloads.get(&id) {
                Some(path) => Admission::File {
                    path: path.clone(),
                    replace: self.replacements.contains(&id),
                },
                None => Admission::Refused(text::copy("unsolicited download")),
            },
            TransferPurpose::FileUpload => Admission::Refused(
                text::copy("unexpected upload offer"),
            ),
        }
    }

    fn on_completed(&mut self, done: Completed) -> (event: Option<ClientEvent>)
        ensures
            final(self).same_session(*old(self)),
            final(self).queued@ == old(self).queued@,
            final(self).replacements@ == old(self).replacements@.remove(done.id),
            final(self).downloads@ == after_arrival(old(self).downloads@, done),
            event == arrival(old(self).downloads@, done),
    {
        self.replacements.remove(&done.id);
        match done.purpose {
            TransferPurpose::ClipboardImage => match done.data {
                Some(png) => Some(ClientEvent::ClipboardImage(png)),
                None => None,
            },
            TransferPurpose::FileDownload => match self.downloads.remove(&done.id) {
                Some(path) => Some(
                    ClientEvent::FileDownloaded { id: done.id, path, name: done.name },
                ),
                None => None,
            },
            TransferPurpose::FileUpload => None,
        }
    }

    fn take_refusals(&mut self, replies: &Vec<Message>, seen: usize)
        requires
            seen <= replies.len(),
        ensures
            final(self).same_session(*old(self)),
            final(self).queued@ == old(self).queued@ + refusals(replies@.take(seen as int)),
            final(self).downloads@ == without(
                old(self).downloads@,
                failed_ids(refusals(replies@.take(seen as int))),
            ),
            final(self).replacements@ == old(self).replacements@.difference(
                failed_ids(refusals(replies@.take(seen as int))),
            ),
    {
        let mut i: usize = 0;
        proof {
            assert(refusals(replies@.take(0)) =~= seq![]);
            assert(self.replacements@ =~= self.replacements@.difference(failed_ids(seq![])));
            assert(self.downloads@ =~= without(old(self).downloads@, failed_ids(seq![])));
        }
        while i < seen
            invariant
                i <= seen <= replies.len(),
                self.same_session(*old(self)),
                self.queued@ == old(self).queued@ + refusals(replies@.take(i as int)),
                self.downloads@ == without(
                    old(self).downloads@,
                    failed_ids(refusals(replies@.take(i as int))),
                ),
                self.replacements@ == old(self).replacements@.difference(
                    failed_ids(refusals(replies@.take(i as int))),
                ),
            decreases seen - i,
        {
            let ghost before = refusals(replies@.take(i as int));
            let ghost after = refusals(replies@.take(i + 1));
            let ghost held = self.downloads@;
            assert(replies@.take(i + 1).drop_last() =~= replies@.take(i as int));
            match &replies[i] {
                Message::TransferAccept { id, accepted, reason } => {
                    if !*accepted {
                        self.fail_transfer(*id, reason.clone());
                        proof {
                            let event = ClientEvent::TransferFailed { id: *id, reason: *reason };
                            assert(after == before.push(event));
                            assert(old(self).queued@ + before.push(event) =~= (old(self).queued@
                                + before).push(event));
                            lemma_failed_ids_push(before, event);
                            assert(self.downloads@ =~= without(
                                old(self).downloads@,
                                failed_ids(after),
                            ));
                            assert(self.replacements@ =~= old(self).replacements@.difference(
                                failed_ids(after),
                            ));
                        }
                    }
                },
                _ => {},
            }
            i = i + 1;
        }
    }

    /// What the outcome of a transfer's message does to the connection.
    pub open spec fn takes_in(self, after: Client, outcome: Outcome, delivered: usize, r: (bool, Option<ClientEvent>)) -> bool {
        &&& after.same_session(self)
        &&& r.0 == (delivered >= outcome.replies@.len())
        &&& !r.0 ==> ({
                let refused = refusals(outcome.replies@.take(delivered + 1));
                &&& r.1 is None
                &&& after.queued@ == self.queued@ + refused
                &&& after.downloads@ == without(self.downloads@, failed_ids(refused))
                &&& after.replacements@ == self.replacements@.difference(
                    failed_ids(refused),
                )
            })
        &&& r.0 ==> ({
                let all = self.queued@ + outcome_events(self.downloads@, outcome);
                if all.len() == 0 {
                    r.1 is None && after.queued@ == all
                } else {
                    r.1 == Some(all[0]) && after.queued@ == all.drop_first()
                }
            })
        &&& r.0 ==> after.downloads@ == after_arrivals(
                without(
                    self.downloads@,
                    failed_ids(refusals(outcome.replies@) + failures(outcome.failed@)),
                ),
                outcome.completed@,
            )
        &&& r.0 ==> after.replacements@ == self.replacements@.difference(
                failed_ids(refusals(outcome.replies@) + failures(outcome.failed@)),
            ).difference(arrived_ids(outcome.completed@))
    }

    /// Take in what a message did to the transfers, of whose replies the link
    /// took the first `delivered`. Returns whether it took them all, and the
    /// first event that is due.
    ///
    /// Every outcome the message produced is queued, in the order refused,
    /// failed, sent and arrived. Nothing is dropped, because a caller waiting
    /// on a set of transfers cannot tell an event that never happened from one
    /// that was thrown away. A link that fails at a reply ends it there: the
    /// refusals up to that reply are queued and nothing is returned.
    pub fn handle_transfer(&mut self, outcome: Outcome, delivered: usize) -> (r: (
        bool,
        Option<ClientEvent>,
    ))
        ensures
            final(self).same_session(*old(self)),
            r.0 == (delivered >= outcome.replies@.len()),
            !r.0 ==> ({
                let refused = refusals(outcome.replies@.take(delivered + 1));
                &&& r.1 is None
                &&& final(self).queued@ == old(self).queued@ + refused
                &&& final(self).downloads@ == without(old(self).downloads@, failed_ids(refused))
                &&& final(self).replacements@ == old(self).replacements@.difference(
                    failed_ids(refused),
                )
            }),
            r.0 ==> ({
                let all = old(self).queued@ + outcome_events(old(self).downloads@, outcome);
                if all.len() == 0 {
                    r.1 is None && final(self).queued@ == all
                } else {
                    r.1 == Some(all[0]) && final(self).queued@ == all.drop_first()
                }
            }),
            r.0 ==> final(self).downloads@ == after_arrivals(
                without(
                    old(self).downloads@,
                    failed_ids(refusals(outcome.replies@) + failures(outcome.failed@)),
                ),
                outcome.completed@,
            ),
            r.0 ==> final(self).replacements@ == old(self).replacements@.difference(
                failed_ids(refusals(outcome.replies@) + failures(outcome.failed@)),
            ).difference(arrived_ids(outcome.completed@)),
            old(self).takes_in(*final(self), outcome, delivered, r),
    {
        let ghost before = self.queued@;
        let ghost held = self.downloads@;
        let ghost replaced = self.replacements@;
        if delivered < outcome.replies.len() {
            self.take_refusals(&outcome.replies, delivered + 1);
            return (false, None);
        }
        self.take_refusals(&outcome.replies, outcome.replies.len());
        let ghost refused = refusals(outcome.replies@);
        assert(outcome.replies@.take(outcome.replies@.len() as int) =~= outcome.replies@);

        let ghost failed = outcome.failed@;
        assert(before + refused =~= before + refused + failures(failed.take(0)));
        assert(refused + failures(failed.take(0)) =~= refused);
        for f in it: outcome.failed
            invariant
                it.seq() == failed,
                self.same_session(*old(self)),
                self.queued@ == before + refused + failures(failed.take(it.index() as int)),
                self.downloads@ == without(
                    held,
                    failed_ids(refused + failures(failed.take(it.index() as int))),
                ),
                self.replacements@ == replaced.difference(
                    failed_ids(refused + failures(failed.take(it.index() as int))),
                ),
        {
            let ghost k = it.index() as int;
            let ghost event = ClientEvent::TransferFailed { id: f.0, reason: f.1 };
            self.fail_transfer(f.0, f.1);
            proof {
                assert(failures(failed.take(k + 1)) =~= failures(failed.take(k)).push(event));
                assert(before + refused + failures(failed.take(k)).push(event) =~= (before + refused
                    + failures(failed.take(k))).push(event));
                assert(refused + failures(failed.take(k)).push(event) =~= (refused + failures(
                    failed.take(k),
                )).push(event));
                lemma_failed_ids_push(refused + failures(failed.take(k)), event);
                assert(self.downloads@ =~= without(
                    held,
                    failed_ids(refused + failures(failed.take(k + 1))),
                ));
                assert(self.replacements@ =~= replaced.difference(
                    failed_ids(refused + failures(failed.take(k + 1))),
                ));
            }
        }
        assert(failed.take(failed.len() as int) =~= failed);
        let ghost bad = before + refused + failures(failed);
        let ghost kept = self.downloads@;
        let ghost still = self.replacements@;

        let ghost sent = outcome.sent@;
        assert(bad + uploads(sent.take(0)) =~= bad);
        for t in it: outcome.sent
            invariant
                it.seq() == sent,
                self.same_session(*old(self)),
                self.queued@ == bad + uploads(sent.take(it.index() as int)),
                self.downloads@ == kept,
                self.replacements@ == still,
        {
            let ghost k = it.index() as int;
            assert(sent.take(k + 1).drop_last() =~= sent.take(k));
            assert(sent.take(k + 1).last() == t);
            if t.1 == TransferPurpose::FileUpload {
                let ghost event = ClientEvent::FileUploaded { id: t.0, name: t.2 };
                self.queued.push_back(ClientEvent::FileUploaded { id: t.0, name: t.2 });
                assert(bad + uploads(sent.take(k)).push(event) =~= (bad + uploads(
                    sent.take(k),
                )).push(event));
            }
        }
        assert(sent.take(sent.len() as int) =~= sent);
        let ghost mid = bad + uploads(sent);

        let ghost done_all = outcome.completed@;
        assert(mid + arrivals(kept, done_all.take(0)) =~= mid);
        assert(still =~= still.difference(arrived_ids(done_all.take(0))));
        for done in it: outcome.completed
            invariant
                it.seq() == done_all,
                self.same_session(*old(self)),
                self.queued@ == mid + arrivals(kept, done_all.take(it.index() as int)),
                self.downloads@ == after_arrivals(kept, done_all.take(it.index() as int)),
                self.replacements@ == still.difference(
                    arrived_ids(done_all.take(it.index() as int)),
                ),
        {
            let ghost k = it.index() as int;
            proof {
                lemma_arrived_ids_push(done_all, k);
            }
            assert(still.difference(arrived_ids(done_all.take(k))).remove(done.id)
                =~= still.difference(arrived_ids(done_all.take(k + 1))));
            assert(done_all.take(k + 1).drop_last() =~= done_all.take(k));
            assert(done_all.take(k + 1).last() == done);
            match self.on_completed(done) {
                Some(event) => {
                    self.queued.push_back(event);
                    assert(mid + arrivals(kept, done_all.take(k)).push(event) =~= (mid + arrivals(
                        kept,
                        done_all.take(k),
                    )).push(event));
                },
                None => {},
            }
        }
        assert(done_all.take(done_all.len() as int) =~= done_all);
        assert(self.queued@ =~= before + outcome_events(held, outcome));
        let first = self.queued.pop_front();
        (true, first)
    }
}

/// All that one message did to the transfers, in the order it is reported.
pub open spec fn outcome_events(downloads: Map<u64, String>, outcome: Outcome) -> Seq<ClientEvent> {
    let bad = refusals(outcome.replies@) + failures(outcome.failed@);
    bad + uploads(outcome.sent@) + arrivals(
        without(downloads, failed_ids(bad)),
        outcome.completed@,
    )
}

proof fn lemma_failed_ids_push(events: Seq<ClientEvent>, event: ClientEvent)
    requires
        event is TransferFailed,
    ensures
        failed_ids(events.push(event)) == failed_ids(events).insert(event->TransferFailed_id),
{
    let all = events.push(event);
    assert forall|id: u64| failed_ids(all).contains(id) <==> failed_ids(events).insert(
        event->TransferFailed_id,
    ).contains(id) by {
        if failed_ids(events).contains(id) {
            let k = choose|k: int|
                0 <= k < events.len() && (#[trigger] events[k] matches ClientEvent::TransferFailed {
                    id: failed,
                    ..
                } && failed == id);
            assert(all[k] == events[k]);
        }
        if id == event->TransferFailed_id {
            assert(all[events.len() as int] == event);
        }
        if failed_ids(all).contains(id) {
            let k = choose|k: int|
                0 <= k < all.len() && (#[trigger] all[k] matches ClientEvent::TransferFailed {
                    id: failed,
                    ..
                } && failed == id);
            if k < events.len() {
                assert(events[k] == all[k]);
            }
        }
    }
    assert(failed_ids(all) =~= failed_ids(events).insert(event->TransferFailed_id));
}

// ---------------------------------------------------------------------------
// Messages
// ---------------------------------------------------------------------------

/// Whether a list of messages is nothing.
pub open spec fn silent(h: Handled) -> bool {
    h.sends@.len() == 0 && h.serve is None && !h.failed
}

/// The requests an offer of the session leads to: the formats offered that
/// were negotiated, the image first.
pub open spec fn wanted(formats: Formats, features: Features) -> Seq<Message> {
    let png = if formats.png && features.clipboard_image {
        seq![Message::ClipboardRequest { formats: Formats { png: true, files: false } }]
    } else {
        seq![]
    };
    let files = if formats.files && features.clipboard_files {
        seq![Message::ClipboardRequest { formats: Formats { png: false, files: true } }]
    } else {
        seq![]
    };
    png + files
}

/// The wording for a file the session may not have.
pub open spec fn not_offered(m: Message, id: u64) -> bool {
    m matches Message::TransferEnd { id: i, ok, message } && i == id && !ok && message@
        == "not offered on the clipboard"@
}

fn quiet() -> (h: Handled)
    ensures
        silent(h),
        h.event is None,
{
    Handled { sends: Vec::new(), serve: None, event: None, failed: false }
}

fn tell(event: ClientEvent) -> (h: Handled)
    ensures
        silent(h),
        h.event == Some(event),
{
    Handled { sends: Vec::new(), serve: None, event: Some(event), failed: false }
}

fn say(m: Message) -> (h: Handled)
    ensures
        h.sends@ == seq![m],
        h.serve is None,
        h.event is None,
        !h.failed,
{
    let mut sends: Vec<Message> = Vec::new();
    sends.push(m);
    Handled { sends, serve: None, event: None, failed: false }
}

impl Client {
    /// Whether this client put a path on the clipboard.
    pub open spec fn offers(self, path: Seq<char>) -> bool {
        text::texts(self.offered_files@).contains(path)
    }

    fn has_offered(&self, path: &String) -> (r: bool)
        ensures
            r == self.offers(path@),
    {
        let ghost offered = text::texts(self.offered_files@);
        let mut i: usize = 0;
        while i < self.offered_files.len()
            invariant
                i <= self.offered_files.len(),
                offered == text::texts(self.offered_files@),
                forall|k: int| 0 <= k < i ==> offered[k] != path@,
            decreases self.offered_files.len() - i,
        {
            if text::same(self.offered_files[i].as_str(), path.as_str()) {
                assert(offered[i as int] == path@);
                return true;
            }
            i = i + 1;
        }
        false
    }

    /// Whether two states of a connection differ at most in the number of
    /// frames, the screen size, the cursor, the reason it closed, the probe on
    /// its way and the image held.
    pub open spec fn same_transfers(self, other: Client) -> bool {
        &&& self.info == other.info
        &&& self.bytes_received == other.bytes_received
        &&& self.last_message_at == other.last_message_at
        &&& self.queued == other.queued
        &&& self.downloads == other.downloads
        &&& self.replacements == other.replacements
        &&& self.offered_files == other.offered_files
    }

    /// What a message does to the connection, and what is done about it.
    pub open spec fn reacts(self, after: Client, msg: Message, now: u64, h: Handled) -> bool {
        &&& after.same_transfers(self)
        &&& after.frames_received == self.frames_received + if msg matches Message::ScreenUpdate {
                applied: Some(_),
                ..
            } {
                1int
            } else {
                0
            }
        &&& !(msg is ScreenResized) ==> after.width == self.width && after.height
                == self.height
        &&& !(msg is CursorShape) ==> after.cursor == self.cursor
        &&& !(msg is Disconnect || msg is Rejected) ==> after.closed == self.closed
        &&& !(msg is Pong) ==> after.last_ping == self.last_ping
        &&& !(msg is ClipboardRequest) ==> after.pending_image == self.pending_image
        &&& match msg {
                Message::ScreenUpdate { frame_id, applied: Some(dirty) } => {
                    &&& h.sends@ == seq![Message::FrameAck { frame_id }]
                    &&& h.serve is None
                    &&& h.event == Some(ClientEvent::Frame { frame_id, dirty })
                    &&& !h.failed
                },
                Message::ScreenUpdate { applied: None, .. } => {
                    &&& h.sends@.len() == 0
                    &&& h.serve is None
                    &&& h.event is None
                    &&& h.failed
                },
                Message::ScreenResized { width, height } => {
                    &&& silent(h)
                    &&& h.event == Some(
                        ClientEvent::Resized { width: width as u32, height: height as u32 },
                    )
                    &&& after.width == width
                    &&& after.height == height
                },
                Message::CursorShape { cursor } => {
                    &&& silent(h)
                    &&& h.event == Some(ClientEvent::Cursor(cursor))
                    &&& after.cursor matches Some(c) && c.alike(cursor)
                },
                Message::CursorPosition { x, y } => silent(h) && h.event == Some(
                    ClientEvent::CursorPosition(x, y),
                ),
                Message::ClipboardText { text } => silent(h) && h.event == Some(
                    ClientEvent::Clipboard(text),
                ),
                Message::FileList { files, .. } => silent(h) && h.event == Some(
                    ClientEvent::ClipboardFiles(files),
                ),
                Message::FileRequest { id, path } => {
                    &&& h.event is None
                    &&& !h.failed
                    &&& if self.offers(path@) {
                        h.sends@.len() == 0 && h.serve == Some(Serve::File { id, path })
                    } else {
                        h.serve is None && h.sends@.len() == 1 && not_offered(h.sends@[0], id)
                    }
                },
                Message::ClipboardOffer { formats } => {
                    &&& h.sends@ == wanted(formats, self.info.features)
                    &&& h.serve is None
                    &&& h.event is None
                    &&& !h.failed
                },
                Message::ClipboardRequest { formats } => {
                    &&& h.sends@.len() == 0
                    &&& h.event is None
                    &&& !h.failed
                    &&& if formats.png {
                        &&& after.pending_image is None
                        &&& match self.pending_image {
                            Some(png) => h.serve == Some(Serve::Image { png }),
                            None => h.serve is None,
                        }
                    } else {
                        h.serve is None && after.pending_image == self.pending_image
                    }
                },
                Message::Notice { text } => silent(h) && h.event == Some(ClientEvent::Notice(text)),
                Message::Ping { nonce } => {
                    &&& h.sends@ == seq![Message::Pong { nonce }]
                    &&& h.serve is None
                    &&& h.event is None
                    &&& !h.failed
                },
                Message::Pong { nonce } => {
                    &&& silent(h)
                    &&& after.last_ping is None
                    &&& h.event == match self.last_ping {
                        Some((n, sent)) => if n == nonce {
                            Some(ClientEvent::Rtt(time::since(now, sent)))
                        } else {
                            None
                        },
                        None => None,
                    }
                },
                Message::Disconnect { reason } => {
                    &&& silent(h)
                    &&& h.event == Some(ClientEvent::Disconnected(reason))
                    &&& after.closed matches Some(r) && r@ == reason@
                },
                Message::Rejected { code, reason } => {
                    &&& silent(h)
                    &&& h.event matches Some(ClientEvent::Disconnected(r)) && r@ == rejection_text(
                        code,
                        reason@,
                    )
                    &&& after.closed matches Some(r) && r@ == rejection_text(code, reason@)
                },
                _ => silent(h) && h.event is None,
            }
    }

    /// React to a message that is not about a transfer under way.
    ///
    /// A frame is acknowledged as soon as it is decoded: painting is cheap,
    /// and the server can start on the next one. Only what this client put on
    /// the clipboard is served to the session, which must not be able to read
    /// arbitrary local files. What the session copies is asked for rather than
    /// pushed, so a copy the user never pastes costs nothing.
    pub fn handle(&mut self, msg: Message, now: u64) -> (h: Handled)
        requires
            old(self).frames_received < u64::MAX,
        ensures
            final(self).same_transfers(*old(self)),
            final(self).frames_received == old(self).frames_received + if msg matches Message::ScreenUpdate {
                applied: Some(_),
                ..
            } {
                1int
            } else {
                0
            },
            !(msg is ScreenResized) ==> final(self).width == old(self).width && final(self).height
                == old(self).height,
            !(msg is CursorShape) ==> final(self).cursor == old(self).cursor,
            !(msg is Disconnect || msg is Rejected) ==> final(self).closed == old(self).closed,
            !(msg is Pong) ==> final(self).last_ping == old(self).last_ping,
            !(msg is ClipboardRequest) ==> final(self).pending_image == old(self).pending_image,
            match msg {
                Message::ScreenUpdate { frame_id, applied: Some(dirty) } => {
                    &&& h.sends@ == seq![Message::FrameAck { frame_id }]
                    &&& h.serve is None
                    &&& h.event == Some(ClientEvent::Frame { frame_id, dirty })
                    &&& !h.failed
                },
                Message::ScreenUpdate { applied: None, .. } => {
                    &&& h.sends@.len() == 0
                    &&& h.serve is None
                    &&& h.event is None
                    &&& h.failed
                },
                Message::ScreenResized { width, height } => {
                    &&& silent(h)
                    &&& h.event == Some(
                        ClientEvent::Resized { width: width as u32, height: height as u32 },
                    )
                    &&& final(self).width == width
                    &&& final(self).height == height
                },
                Message::CursorShape { cursor } => {
                    &&& silent(h)
                    &&& h.event == Some(ClientEvent::Cursor(cursor))
                    &&& final(self).cursor matches Some(c) && c.alike(cursor)
                },
                Message::CursorPosition { x, y } => silent(h) && h.event == Some(
                    ClientEvent::CursorPosition(x, y),
                ),
                Message::ClipboardText { text } => silent(h) && h.event == Some(
                    ClientEvent::Clipboard(text),
                ),
                Message::FileList { files, .. } => silent(h) && h.event == Some(
                    ClientEvent::ClipboardFiles(files),
                ),
                Message::FileRequest { id, path } => {
                    &&& h.event is None
                    &&& !h.failed
                    &&& if old(self).offers(path@) {
                        h.sends@.len() == 0 && h.serve == Some(Serve::File { id, path })
                    } else {
                        h.serve is None && h.sends@.len() == 1 && not_offered(h.sends@[0], id)
                    }
                },
                Message::ClipboardOffer { formats } => {
                    &&& h.sends@ == wanted(formats, old(self).info.features)
                    &&& h.serve is None
                    &&& h.event is None
                    &&& !h.failed
                },
                Message::ClipboardRequest { formats } => {
                    &&& h.sends@.len() == 0
                    &&& h.event is None
                    &&& !h.failed
                    &&& if formats.png {
                        &&& final(self).pending_image is None
                        &&& match old(self).pending_image {
                            Some(png) => h.serve == Some(Serve::Image { png }),
                            None => h.serve is None,
                        }
                    } else {
                        h.serve is None && final(self).pending_image == old(self).pending_image
                    }
                },
                Message::Notice { text } => silent(h) && h.event == Some(ClientEvent::Notice(text)),
                Message::Ping { nonce } => {
                    &&& h.sends@ == seq![Message::Pong { nonce }]
                    &&& h.serve is None
                    &&& h.event is None
                    &&& !h.failed
                },
                Message::Pong { nonce } => {
                    &&& silent(h)
                    &&& final(self).last_ping is None
                    &&& h.event == match old(self).last_ping {
                        Some((n, sent)) => if n == nonce {
                            Some(ClientEvent::Rtt(time::since(now, sent)))
                        } else {
                            None
                        },
                        None => None,
                    }
                },
                Message::Disconnect { reason } => {
                    &&& silent(h)
                    &&& h.event == Some(ClientEvent::Disconnected(reason))
                    &&& final(self).closed matches Some(r) && r@ == reason@
                },
                Message::Rejected { code, reason } => {
                    &&& silent(h)
                    &&& h.event matches Some(ClientEvent::Disconnected(r)) && r@ == rejection_text(
                        code,
                        reason@,
                    )
                    &&& final(self).closed matches Some(r) && r@ == rejection_text(code, reason@)
                },
                _ => silent(h) && h.event is None,
            },
            old(self).reacts(*final(self), msg, now, h),
    {
        match msg {
            Message::ScreenUpdate { frame_id, applied } => match applied {
                Some(dirty) => {
                    self.frames_received = self.frames_received + 1;
                    let mut h = say(Message::FrameAck { frame_id });
                    h.event = Some(ClientEvent::Frame { frame_id, dirty });
                    h
                },
                None => Handled { sends: Vec::new(), serve: None, event: None, failed: true },
            },
            Message::ScreenResized { width, height } => {
                self.width = width as u32;
                self.height = height as u32;
                tell(ClientEvent::Resized { width: width as u32, height: height as u32 })
            },
            Message::CursorShape { cursor } => {
                self.cursor = Some(cursor.clone());
                tell(ClientEvent::Cursor(cursor))
            },
            Message::CursorPosition { x, y } => tell(ClientEvent::CursorPosition(x, y)),
            Message::ClipboardText { text } => tell(ClientEvent::Clipboard(text)),
            Message::FileList { files, .. } => tell(ClientEvent::ClipboardFiles(files)),
            Message::FileRequest { id, path } => {
                if self.has_offered(&path) {
                    let mut h = quiet();
                    h.serve = Some(Serve::File { id, path });
                    h
                } else {
                    say(
                        Message::TransferEnd {
                            id,
                            ok: false,
                            message: text::copy("not offered on the clipboard"),
                        },
                    )
                }
            },
            Message::ClipboardOffer { formats } => {
                let mut h = quiet();
                if formats.png && self.info.features.clipboard_image {
                    h.sends.push(
                        Message::ClipboardRequest { formats: Formats { png: true, files: false } },
                    );
                }
                if formats.files && self.info.features.clipboard_files {
                    h.sends.push(
                        Message::ClipboardRequest { formats: Formats { png: false, files: true } },
                    );
                }
                assert(h.sends@ =~= wanted(formats, self.info.features));
                h
            },
            Message::ClipboardRequest { formats } => {
                let mut h = quiet();
                if formats.png {
                    match self.pending_image.take() {
                        Some(png) => {
                            h.serve = Some(Serve::Image { png });
                        },
                        None => {},
                    }
                }
                h
            },
            Message::Notice { text } => tell(ClientEvent::Notice(text)),
            Message::Ping { nonce } => say(Message::Pong { nonce }),
            Message::Pong { nonce } => match self.last_ping.take() {
                Some((n, sent)) => if n == nonce {
                    tell(ClientEvent::Rtt(time::elapsed(now, sent)))
                } else {
                    quiet()
                },
                None => quiet(),
            },
            Message::Disconnect { reason } => {
                self.closed = Some(text::copy(reason.as_str()));
                tell(ClientEvent::Disconnected(reason))
            },
            Message::Rejected { code, reason } => {
                let r = rejection_reason(code, reason.as_str());
                self.closed = Some(text::copy(r.as_str()));
                tell(ClientEvent::Disconnected(r))
            },
            _ => quiet(),
        }
    }

    /// How a file that the session asked for is sent, or why it is not.
    pub open spec fn serves(id: u64, path: String, name: Option<String>, size: u64, error: Option<String>, r: Result<(u64, String, u64), Message>) -> bool {
        &&& match error {
                None => r matches Ok((i, n, s)) && i == id && s == size && n == (match name {
                    Some(given) => given,
                    None => path,
                }),
                Some(why) => r matches Err(Message::TransferEnd { id: i, ok, message }) && i == id
                    && !ok && message@ == path@ + ": "@ + why@,
            }
    }

    /// The answer to a request for an offered file, once it was opened or was
    /// not: its name and size, or what to tell the session. A path without a
    /// file name is offered as a whole.
    pub fn serve_file(
        id: u64,
        path: String,
        name: Option<String>,
        size: u64,
        error: Option<String>,
    ) -> (r: Result<(u64, String, u64), Message>)
        ensures
            match error {
                None => r matches Ok((i, n, s)) && i == id && s == size && n == (match name {
                    Some(given) => given,
                    None => path,
                }),
                Some(why) => r matches Err(Message::TransferEnd { id: i, ok, message }) && i == id
                    && !ok && message@ == path@ + ": "@ + why@,
            },
            Self::serves(id, path, name, size, error, r),
    {
        match error {
            None => {
                let shown = match name {
                    Some(given) => given,
                    None => path,
                };
                Ok((id, shown, size))
            },
            Some(why) => {
                let mut message = text::copy(path.as_str());
                message.push_str(": ");
                message.push_str(why.as_str());
                Err(Message::TransferEnd { id, ok: false, message })
            },
        }
    }
}

// ---------------------------------------------------------------------------
// Waiting
// ---------------------------------------------------------------------------

/// How a silent server is phrased.
pub open spec fn silence_text() -> Seq<char> {
    "no response from the session for "@ + text::decimal((LIVENESS_TIMEOUT / time::SECOND) as nat)
        + "s"@
}

/// What the wait for a transfer comes to.
#[derive(Debug, PartialEq, Eq)]
pub enum TransferResult {
    /// It is done; a download has its path.
    Done(Option<String>),
    /// It failed, or the connection did.
    Failed(String),
    /// It is still under way.
    Pending,
}

impl Client {
    /// Whether two states differ at most in the queue and the reason the
    /// connection closed.
    pub open spec fn same_but_queue(self, other: Client) -> bool {
        &&& self.info == other.info
        &&& self.width == other.width
        &&& self.height == other.height
        &&& self.cursor == other.cursor
        &&& self.frames_received == other.frames_received
        &&& self.bytes_received == other.bytes_received
        &&& self.last_ping == other.last_ping
        &&& self.last_message_at == other.last_message_at
        &&& self.downloads == other.downloads
        &&& self.replacements == other.replacements
        &&& self.pending_image == other.pending_image
        &&& self.offered_files == other.offered_files
    }

    /// What is handed out of a connection without waiting, and what is left of it.
    pub open spec fn polled(self, after: Client, event: Option<ClientEvent>) -> bool {
        &&& after.same_but_queue(self)
        &&& after.closed == self.closed
        &&& if self.queued@.len() > 0 {
                event == Some(self.queued@[0]) && after.queued@
                    == self.queued@.drop_first()
            } else {
                &&& after.queued@ == self.queued@
                &&& match self.closed {
                    Some(reason) => event matches Some(ClientEvent::Disconnected(r)) && r@
                        == reason@,
                    None => event is None,
                }
            }
    }

    /// What is due to the caller before anything more is received.
    ///
    /// What is queued comes before the end of the connection, not after: a
    /// connection that ends in the same batch of messages that finished a
    /// transfer still owes the caller the completion.
    pub fn poll_event(&mut self) -> (event: Option<ClientEvent>)
        ensures
            final(self).same_but_queue(*old(self)),
            final(self).closed == old(self).closed,
            if old(self).queued@.len() > 0 {
                event == Some(old(self).queued@[0]) && final(self).queued@
                    == old(self).queued@.drop_first()
            } else {
                &&& final(self).queued@ == old(self).queued@
                &&& match old(self).closed {
                    Some(reason) => event matches Some(ClientEvent::Disconnected(r)) && r@
                        == reason@,
                    None => event is None,
                }
            },
            old(self).polled(*final(self), event),
    {
        match self.queued.pop_front() {
            Some(event) => {
                return Some(event);
            },
            None => {},
        }
        match &self.closed {
            Some(reason) => Some(ClientEvent::Disconnected(text::copy(reason.as_str()))),
            None => None,
        }
    }

    /// How long to wait for the next message at a time.
    pub fn slice(remaining: u64) -> (wait: u64)
        ensures
            wait == time::shorter(remaining, POLL_SLICE),
    {
        time::min_span(remaining, POLL_SLICE)
    }

    /// What a wait in which nothing arrived does to the connection.
    pub open spec fn waited(self, after: Client, now: u64, remaining: u64, w: Waited) -> bool {
        &&& after.same_but_queue(self)
        &&& after.queued == self.queued
        &&& if time::since(now, self.last_message_at) > LIVENESS_TIMEOUT {
                &&& w matches Waited::Event(ClientEvent::Disconnected(r)) && r@ == silence_text()
                &&& after.closed matches Some(r) && r@ == silence_text()
            } else {
                &&& after.closed == self.closed
                &&& w == if remaining <= POLL_SLICE {
                    Waited::Idle
                } else {
                    Waited::Again
                }
            }
    }

    /// A wait of [`Client::slice`] brought no message. The server pings every
    /// two seconds, so nothing at all for the liveness timeout means that it
    /// is gone.
    pub fn on_timeout(&mut self, now: u64, remaining: u64) -> (w: Waited)
        ensures
            final(self).same_but_queue(*old(self)),
            final(self).queued == old(self).queued,
            if time::since(now, old(self).last_message_at) > LIVENESS_TIMEOUT {
                &&& w matches Waited::Event(ClientEvent::Disconnected(r)) && r@ == silence_text()
                &&& final(self).closed matches Some(r) && r@ == silence_text()
            } else {
                &&& final(self).closed == old(self).closed
                &&& w == if remaining <= POLL_SLICE {
                    Waited::Idle
                } else {
                    Waited::Again
                }
            },
            old(self).waited(*final(self), now, remaining, w),
    {
        if time::elapsed(now, self.last_message_at) > LIVENESS_TIMEOUT {
            let mut reason = text::copy("no response from the session for ");
            let n = text::decimal_of(LIVENESS_TIMEOUT / time::SECOND);
            reason.push_str(n.as_str());
            reason.push_str("s");
            self.closed = Some(text::copy(reason.as_str()));
            Waited::Event(ClientEvent::Disconnected(reason))
        } else if remaining <= POLL_SLICE {
            Waited::Idle
        } else {
            Waited::Again
        }
    }

    /// Nothing reads from the server any more.
    pub fn on_reader_stopped(&mut self) -> (event: ClientEvent)
        ensures
            final(self).same_but_queue(*old(self)),
            final(self).queued == old(self).queued,
            event matches ClientEvent::Disconnected(r) && r@ == "reader stopped"@,
            final(self).closed matches Some(r) && r@ == "reader stopped"@,
    {
        self.closed = Some(text::copy("reader stopped"));
        ClientEvent::Disconnected(text::copy("reader stopped"))
    }

    /// A message of any kind arrived.
    pub fn on_message(&mut self, now: u64)
        ensures
            *final(self) == (Client { last_message_at: now, ..*old(self) }),
    {
        self.last_message_at = now;
    }

    /// How long it has been since the server said anything at all.
    pub fn quiet_for(&self, now: u64) -> (d: u64)
        ensures
            d == time::since(now, self.last_message_at),
    {
        time::elapsed(now, self.last_message_at)
    }

    /// The nonce of the next latency probe.
    pub open spec fn next_nonce(self) -> u64 {
        match self.last_ping {
            Some((n, _)) => vstd::wrapping::u64_specs::wrapping_add(n, 1),
            None => 1u64,
        }
    }

    /// Send a latency probe; the answer arrives as [`ClientEvent::Rtt`].
    pub fn ping(&mut self, now: u64) -> (m: Message)
        ensures
            m == (Message::Ping { nonce: old(self).next_nonce() }),
            *final(self) == (Client {
                last_ping: Some((old(self).next_nonce(), now)),
                ..*old(self)
            }),
    {
        let last: u64 = match self.last_ping {
            Some((n, _)) => n,
            None => 0,
        };
        let nonce: u64 = last.wrapping_add(1);
        self.last_ping = Some((nonce, now));
        Message::Ping { nonce }
    }

    /// What an event means to one who waits for a transfer.
    pub open spec fn settles(id: u64, event: ClientEvent, r: TransferResult) -> bool {
        &&& match event {
                ClientEvent::FileUploaded { id: done, .. } => r == if done == id {
                    TransferResult::Done(None)
                } else {
                    TransferResult::Pending
                },
                ClientEvent::FileDownloaded { id: done, path, .. } => r == if done == id {
                    TransferResult::Done(Some(path))
                } else {
                    TransferResult::Pending
                },
                ClientEvent::TransferFailed { id: failed, reason } => r == if failed == id {
                    TransferResult::Failed(reason)
                } else {
                    TransferResult::Pending
                },
                ClientEvent::Disconnected(reason) => r matches TransferResult::Failed(why) && why@
                    == "disconnected: "@ + reason@,
                _ => r == TransferResult::Pending,
            }
    }

    /// What an event means for a caller that waits for transfer `id`.
    ///
    /// Matched by id rather than by the next completion of that shape: nothing
    /// stops a caller from having other transfers in flight, and taking
    /// someone else's completion would report success for a transfer that is
    /// still running.
    pub fn transfer_result(id: u64, event: ClientEvent) -> (r: TransferResult)
        ensures
            match event {
                ClientEvent::FileUploaded { id: done, .. } => r == if done == id {
                    TransferResult::Done(None)
                } else {
                    TransferResult::Pending
                },
                ClientEvent::FileDownloaded { id: done, path, .. } => r == if done == id {
                    TransferResult::Done(Some(path))
                } else {
                    TransferResult::Pending
                },
                ClientEvent::TransferFailed { id: failed, reason } => r == if failed == id {
                    TransferResult::Failed(reason)
                } else {
                    TransferResult::Pending
                },
                ClientEvent::Disconnected(reason) => r matches TransferResult::Failed(why) && why@
                    == "disconnected: "@ + reason@,
                _ => r == TransferResult::Pending,
            },
            Self::settles(id, event, r),
    {
        match event {
            ClientEvent::FileUploaded { id: done, .. } => if done == id {
                TransferResult::Done(None)
            } else {
                TransferResult::Pending
            },
            ClientEvent::FileDownloaded { id: done, path, .. } => if done == id {
                TransferResult::Done(Some(path))
            } else {
                TransferResult::Pending
            },
            ClientEvent::TransferFailed { id: failed, reason } => if failed == id {
                TransferResult::Failed(reason)
            } else {
                TransferResult::Pending
            },
            ClientEvent::Disconnected(reason) => {
                let mut why = text::copy("disconnected: ");
                why.push_str(reason.as_str());
                TransferResult::Failed(why)
            },
            _ => TransferResult::Pending,
        }
    }
}

// ---------------------------------------------------------------------------
// Requests
// ---------------------------------------------------------------------------

/// Why a server cannot be sent a file, if it cannot. A server that writes
/// files in place needs the consent to overwrite.
pub open spec fn upload_refusal(features: Features, replace: bool) -> Option<Seq<char>> {
    if !replace && !features.atomic_files {
        Some("update the server for safe uploads, or explicitly allow overwriting"@)
    } else if !features.file_transfer {
        Some("the server did not enable file transfer"@)
    } else {
        None
    }
}

/// The entries of the files among what was found at a list of paths.
pub open spec fn file_entries(found: Seq<(String, Option<u64>)>) -> Seq<(Seq<char>, u64)>
    decreases found.len(),
{
    if found.len() == 0 {
        seq![]
    } else {
        match found.last().1 {
            Some(size) => file_entries(found.drop_last()).push((found.last().0@, size)),
            None => file_entries(found.drop_last()),
        }
    }
}

pub open spec fn entry_views(files: Seq<FileEntry>) -> Seq<(Seq<char>, u64)> {
    files.map_values(|f: FileEntry| (f.path@, f.size))
}

pub open spec fn entry_paths(entries: Seq<(Seq<char>, u64)>) -> Seq<Seq<char>> {
    entries.map_values(|e: (Seq<char>, u64)| e.0)
}

impl Client {
    /// Why a file cannot be sent, if it cannot.
    pub fn may_upload(&self, replace: bool) -> (r: Result<(), String>)
        ensures
            match r {
                Ok(_) => upload_refusal(self.info.features, replace) is None,
                Err(e) => upload_refusal(self.info.features, replace) == Some(e@),
            },
    {
        if !replace && !self.info.features.atomic_files {
            Err(text::copy("update the server for safe uploads, or explicitly allow overwriting"))
        } else if !self.info.features.file_transfer {
            Err(text::copy("the server did not enable file transfer"))
        } else {
            Ok(())
        }
    }

    /// What goes out ahead of the offer of upload `id`: a server that writes
    /// files whole is told whether it may replace one.
    pub fn upload_options(&self, id: u64, replace: bool) -> (m: Option<Message>)
        ensures
            m == if self.info.features.atomic_files {
                Some(Message::TransferOptions { id, replace })
            } else {
                None
            },
    {
        if self.info.features.atomic_files {
            Some(Message::TransferOptions { id, replace })
        } else {
            None
        }
    }

    /// What asking for a file of the server does to the connection.
    pub open spec fn asks_for(self, after: Client, id: u64, remote: Seq<char>, local: String, replace: bool, r: Result<Message, String>) -> bool {
        &&& if self.info.features.file_transfer {
                &&& r matches Ok(Message::FileRequest { id: i, path }) && i == id && path@ == remote
                &&& after.downloads@ == self.downloads@.insert(id, local)
                &&& after.replacements@ == if replace {
                    self.replacements@.insert(id)
                } else {
                    self.replacements@
                }
                &&& after.queued == self.queued
                &&& after.same_session(self)
            } else {
                &&& r matches Err(e) && e@ == "the server did not enable file transfer"@
                &&& after == self
            }
    }

    /// Download `remote` out of the session to `local` as transfer `id`;
    /// an existing file is preserved unless `replace` is set.
    pub fn request_file_with_overwrite(
        &mut self,
        id: u64,
        remote: &str,
        local: String,
        replace: bool,
    ) -> (r: Result<Message, String>)
        ensures
            if old(self).info.features.file_transfer {
                &&& r matches Ok(Message::FileRequest { id: i, path }) && i == id && path@ == remote@
                &&& final(self).downloads@ == old(self).downloads@.insert(id, local)
                &&& final(self).replacements@ == if replace {
                    old(self).replacements@.insert(id)
                } else {
                    old(self).replacements@
                }
                &&& final(self).queued == old(self).queued
                &&& final(self).same_session(*old(self))
            } else {
                &&& r matches Err(e) && e@ == "the server did not enable file transfer"@
                &&& *final(self) == *old(self)
            },
            old(self).asks_for(*final(self), id, remote@, local, replace, r),
    {
        if !self.info.features.file_transfer {
            return Err(text::copy("the server did not enable file transfer"));
        }
        self.downloads.insert(id, local);
        if replace {
            self.replacements.insert(id);
        }
        Ok(Message::FileRequest { id, path: text::copy(remote) })
    }

    /// Download `remote`, preserving an existing file.
    pub fn request_file(&mut self, id: u64, remote: &str, local: String) -> (r: Result<
        Message,
        String,
    >)
        ensures
            if old(self).info.features.file_transfer {
                &&& r matches Ok(Message::FileRequest { id: i, path }) && i == id && path@ == remote@
                &&& final(self).downloads@ == old(self).downloads@.insert(id, local)
                &&& final(self).replacements@ == old(self).replacements@
                &&& final(self).queued == old(self).queued
                &&& final(self).same_session(*old(self))
            } else {
                &&& r matches Err(e) && e@ == "the server did not enable file transfer"@
                &&& *final(self) == *old(self)
            },
    {
        self.request_file_with_overwrite(id, remote, local, false)
    }

    /// Forget what transfer `id` was for. No event follows: the caller asked
    /// for this and already knows.
    pub fn cancel_transfer(&mut self, id: u64)
        ensures
            final(self).same_session(*old(self)),
            final(self).queued == old(self).queued,
            final(self).downloads@ == old(self).downloads@.remove(id),
            final(self).replacements@ == old(self).replacements@.remove(id),
    {
        self.downloads.remove(&id);
        self.replacements.remove(&id);
    }

    /// What offering an image does.
    pub open spec fn offers_image(self, after: Client, png: Vec<u8>, m: Option<Message>) -> bool {
        &&& if self.info.features.clipboard_image {
                &&& after == (Client { pending_image: Some(png), ..self })
                &&& m == Some(
                    Message::ClipboardOffer { formats: Formats { png: true, files: false } },
                )
            } else {
                after == self && m is None
            }
    }

    /// Offer an image copied locally to the session. It is held until the
    /// session asks for it, so copying an image the user never pastes costs
    /// nothing on the wire.
    pub fn offer_clipboard_image(&mut self, png: Vec<u8>) -> (m: Option<Message>)
        ensures
            if old(self).info.features.clipboard_image {
                &&& *final(self) == (Client { pending_image: Some(png), ..*old(self) })
                &&& m == Some(
                    Message::ClipboardOffer { formats: Formats { png: true, files: false } },
                )
            } else {
                *final(self) == *old(self) && m is None
            },
            old(self).offers_image(*final(self), png, m),
    {
        if !self.info.features.clipboard_image {
            return None;
        }
        self.pending_image = Some(png);
        Some(Message::ClipboardOffer { formats: Formats { png: true, files: false } })
    }

    /// What offering files does.
    pub open spec fn offers_files(self, after: Client, found: Seq<(String, Option<u64>)>, files: Option<Vec<FileEntry>>) -> bool {
        &&& ({
                let entries = file_entries(found);
                if self.info.features.clipboard_files && entries.len() > 0 {
                    &&& files matches Some(list) && entry_views(list@) == entries
                    &&& text::texts(after.offered_files@) == entry_paths(entries)
                    &&& after == (Client {
                        offered_files: after.offered_files,
                        ..self
                    })
                } else {
                    files is None && after == self
                }
            })
    }

    /// Offer files copied locally to the session, of which `found` gives the
    /// size where it is a file: a directory or something that cannot be read
    /// is skipped rather than offered.
    ///
    /// Only these paths become readable by the session, and only until the
    /// next clipboard copy replaces them. Returns the list to send ahead of
    /// the offer itself.
    pub fn offer_clipboard_files(&mut self, found: &Vec<(String, Option<u64>)>) -> (files: Option<
        Vec<FileEntry>,
    >)
        ensures
            ({
                let entries = file_entries(found@);
                if old(self).info.features.clipboard_files && entries.len() > 0 {
                    &&& files matches Some(list) && entry_views(list@) == entries
                    &&& text::texts(final(self).offered_files@) == entry_paths(entries)
                    &&& *final(self) == (Client {
                        offered_files: final(self).offered_files,
                        ..*old(self)
                    })
                } else {
                    files is None && *final(self) == *old(self)
                }
            }),
            old(self).offers_files(*final(self), found@, files),
    {
        if !self.info.features.clipboard_files {
            return None;
        }
        let mut files: Vec<FileEntry> = Vec::new();
        let mut offered: Vec<String> = Vec::new();
        let mut i: usize = 0;
        assert(entry_views(files@) =~= file_entries(found@.take(0)));
        assert(text::texts(offered@) =~= entry_paths(file_entries(found@.take(0))));
        while i < found.len()
            invariant
                i <= found.len(),
                entry_views(files@) == file_entries(found@.take(i as int)),
                text::texts(offered@) == entry_paths(file_entries(found@.take(i as int))),
            decreases found.len() - i,
        {
            assert(found@.take(i + 1).drop_last() =~= found@.take(i as int));
            assert(found@.take(i + 1).last() == found@[i as int]);
            let ghost before = file_entries(found@.take(i as int));
            match found[i].1 {
                Some(size) => {
                    let path = text::copy(found[i].0.as_str());
                    let again = text::copy(found[i].0.as_str());
                    let ghost entry = (found@[i as int].0@, size);
                    let ghost old_files = files@;
                    let ghost old_offered = offered@;
                    files.push(FileEntry { path, size });
                    offered.push(again);
                    assert(entry_views(files@) =~= entry_views(old_files).push(entry));
                    assert(text::texts(offered@) =~= text::texts(old_offered).push(entry.0));
                    assert(entry_paths(before.push(entry)) =~= entry_paths(before).push(entry.0));
                },
                None => {},
            }
            i = i + 1;
        }
        assert(found@.take(found@.len() as int) =~= found@);
        assert(entry_views(files@).len() == files@.len());
        if files.len() == 0 {
            return None;
        }
        self.offered_files = offered;
        Some(files)
    }

    /// What leaving the session does.
    pub open spec fn leaves(self, after: Client, reason: Seq<char>, m: Message) -> bool {
        &&& m matches Message::Disconnect { reason: r } && r@ == reason
        &&& after == (Client { closed: after.closed, ..self })
        &&& match self.closed {
                Some(_) => after.closed == self.closed,
                None => after.closed matches Some(r) && r@ == "closed by client"@,
            }
    }

    /// Say goodbye and close. The reason a connection closed first stays.
    pub fn disconnect(&mut self, reason: &str) -> (m: Message)
        ensures
            m matches Message::Disconnect { reason: r } && r@ == reason@,
            *final(self) == (Client { closed: final(self).closed, ..*old(self) }),
            match old(self).closed {
                Some(_) => final(self).closed == old(self).closed,
                None => final(self).closed matches Some(r) && r@ == "closed by client"@,
            },
            old(self).leaves(*final(self), reason@, m),
    {
        self.abandon("closed by client");
        Message::Disconnect { reason: text::copy(reason) }
    }

    /// Let go of a connection that has already failed, without saying goodbye:
    /// against a half-open socket the write of one would only end when it
    /// times out.
    pub fn abandon(&mut self, reason: &str)
        ensures
            *final(self) == (Client { closed: final(self).closed, ..*old(self) }),
            match old(self).closed {
                Some(_) => final(self).closed == old(self).closed,
                None => final(self).closed matches Some(r) && r@ == reason@,
            },
    {
        if self.closed.is_none() {
            self.closed = Some(text::copy(reason));
        }
    }

    /// Current remote screen size.
    pub fn size(&self) -> (r: (u32, u32))
        ensures
            r == (self.width, self.height),
    {
        (self.width, self.height)
    }

    /// Count the screen data of an update.
    pub fn count_bytes(&mut self, n: u64)
        requires
            old(self).bytes_received + n <= u64::MAX,
        ensures
            *final(self) == (Client {
                bytes_received: (old(self).bytes_received + n) as u64,
                ..*old(self)
            }),
    {
        self.bytes_received = self.bytes_received + n;
    }
}

/// The bytes a screen update takes on the wire: its header, its copies, and
/// its tiles with the header of each.
pub open spec fn update_bytes(copies: nat, tiles: Seq<u64>) -> nat
    decreases tiles.len(),
{
    if tiles.len() == 0 {
        16 + copies * 12
    } else {
        update_bytes(copies, tiles.drop_last()) + tiles.last() as nat + 13
    }
}

proof fn lemma_update_bytes_grow(copies: nat, tiles: Seq<u64>, k: int)
    requires
        0 <= k <= tiles.len(),
    ensures
        update_bytes(copies, tiles.take(k)) <= update_bytes(copies, tiles),
    decreases tiles.len(),
{
    if k == tiles.len() {
        assert(tiles.take(k) =~= tiles);
    } else {
        lemma_update_bytes_grow(copies, tiles.drop_last(), k);
        assert(tiles.drop_last().take(k) =~= tiles.take(k));
    }
}

/// The bytes of a screen update with that many copies and tiles of those
/// lengths.
pub fn screen_bytes(copies: u64, tiles: &Vec<u64>) -> (n: u64)
    requires
        update_bytes(copies as nat, tiles@) <= u64::MAX,
    ensures
        n == update_bytes(copies as nat, tiles@),
{
    proof {
        lemma_update_bytes_grow(copies as nat, tiles@, 0);
        assert(tiles@.take(0) =~= seq![]);
    }
    let mut n: u64 = 16 + copies * 12;
    let mut i: usize = 0;
    while i < tiles.len()
        invariant
            i <= tiles.len(),
            update_bytes(copies as nat, tiles@) <= u64::MAX,
            n == update_bytes(copies as nat, tiles@.take(i as int)),
        decreases tiles.len() - i,
    {
        proof {
            lemma_update_bytes_grow(copies as nat, tiles@, i + 1);
            assert(tiles@.take(i + 1).drop_last() =~= tiles@.take(i as int));
        }
        n = n + tiles[i] + 13;
        i = i + 1;
    }
    assert(tiles@.take(tiles@.len() as int) =~= tiles@);
    n
}

// ---------------------------------------------------------------------------
// Laws of the connection as a whole
// ---------------------------------------------------------------------------

/// A rejection says its code in decimal digits between "rejected (code " and the
/// next closing bracket, whatever follows; a text that begins otherwise says
/// none, nor does one in which what stands there is no number.
pub proof fn law_rejection_says_its_code(digits: Seq<char>, rest: Seq<char>, other: Seq<char>)
    requires
        forall|i: int| 0 <= i < digits.len() ==> digits[i] != ')',
    ensures
        rejection_number("rejected (code "@ + digits + seq![')'] + rest) == text::unsigned(
            digits,
            65535,
        ),
        !("rejected (code "@.is_prefix_of(other)) ==> rejection_number(other) is None,
        rejection_text(7, rest) == "rejected (code "@ + seq!['7'] + "): "@ + rest,
{
    let mark = "rejected (code "@;
    let s = mark + digits + seq![')'] + rest;
    assert(s.subrange(0, mark.len() as int) =~= mark);
    let after = s.skip(mark.len() as int);
    assert(after =~= digits + seq![')'] + rest);
    assert forall|k: int| 0 <= k < digits.len() implies after[k] != ')' by {
        assert(after[k] == digits[k]);
    }
    lemma_next_char_past(after, ')', 0, digits.len() as int);
    assert(after[digits.len() as int] == ')');
    assert(after.take(digits.len() as int) =~= digits);
    assert(text::decimal(7) =~= seq!['7']);
    if text::starts_with(other, mark) {
        assert(mark =~= other.subrange(0, mark.len() as int));
    }
}

/// The rejection code is told in the decimal digits of the code.
pub proof fn law_rejection_is_phrased(code: u16, reason: Seq<char>)
    ensures
        rejection_text(code, reason) == "rejected (code "@ + text::decimal(code as nat) + "): "@
            + reason,
{
}

/// A server is accepted if and only if it answers with a hello of a version that
/// this client speaks. The connection then has the server's size and name, and
/// nothing has happened on it yet.
pub proof fn law_connection_is_opened(
    reply: Message,
    kind: Seq<char>,
    oldest: u16,
    newest: u16,
    now: u64,
    r: Result<Client, String>,
)
    requires
        Client::opened(reply, kind, oldest, newest, now, r),
    ensures
        r is Ok <==> (reply matches Message::ServerHello { version, .. } && oldest <= version
            && version <= newest),
        reply matches Message::Rejected { code, reason } ==> (r matches Err(e) && e@
            == "rejected (code "@ + text::decimal(code as nat) + "): "@ + reason@),
        reply matches Message::ServerHello { version, .. } ==> (r matches Err(e) ==> e@
            == "server speaks protocol version "@ + text::decimal(version as nat)
            + "; this client supports "@ + text::decimal(oldest as nat) + " to "@ + text::decimal(
            newest as nat,
        )),
        !(reply is ServerHello) && !(reply is Rejected) ==> (r matches Err(e) && e@
            == "unexpected message "@ + kind + " during handshake"@),
        reply matches Message::ServerHello {
            server_name,
            features,
            session_id,
            username,
            width,
            height,
            ..
        } ==> (r matches Ok(c) ==> c.width == width && c.height == height && c.info.server_name
            == server_name && c.info.features == features && c.info.session_id == session_id
            && c.info.username == username && c.closed is None && c.frames_received == 0
            && c.bytes_received == 0 && c.last_message_at == now && c.queued@.len() == 0
            && c.last_ping is None && c.cursor is None && c.pending_image is None),
{
}

/// Every frame that could be drawn is acknowledged by its own number, counted and
/// told; one that could not be ends the connection and is not acknowledged.
pub proof fn law_frames_are_acknowledged(
    c: Client,
    after: Client,
    frame_id: u64,
    dirty: Option<Rect>,
    now: u64,
    h: Handled,
)
    requires
        c.reacts(after, Message::ScreenUpdate { frame_id, applied: dirty }, now, h),
    ensures
        dirty matches Some(d) ==> h.sends@.len() == 1 && h.sends@[0] == (Message::FrameAck {
            frame_id,
        }) && h.event == Some(ClientEvent::Frame { frame_id, dirty: d }) && !h.failed
            && after.frames_received == c.frames_received + 1,
        dirty is None ==> h.failed && h.sends@.len() == 0 && h.event is None
            && after.frames_received == c.frames_received,
{
}

/// What the session says of its screen and its pointer is taken as it stands.
pub proof fn law_screen_is_as_the_session_says(
    c: Client,
    after: Client,
    msg: Message,
    now: u64,
    h: Handled,
)
    requires
        c.reacts(after, msg, now, h),
    ensures
        msg matches Message::ScreenResized { width, height } ==> after.width == width
            && after.height == height && h.event == Some(
            ClientEvent::Resized { width: width as u32, height: height as u32 },
        ),
        !(msg is ScreenResized) ==> after.width == c.width && after.height == c.height,
        msg matches Message::CursorPosition { x, y } ==> h.event == Some(
            ClientEvent::CursorPosition(x, y),
        ),
        msg matches Message::CursorShape { cursor } ==> h.event == Some(ClientEvent::Cursor(cursor))
            && after.cursor is Some,
        msg matches Message::ClipboardText { text } ==> h.event == Some(ClientEvent::Clipboard(text)),
        msg matches Message::Notice { text } ==> h.event == Some(ClientEvent::Notice(text)),
        msg matches Message::FileList { files, .. } ==> h.event == Some(
            ClientEvent::ClipboardFiles(files),
        ),
{
}

/// A probe of the server is answered with its own nonce; an answer to this
/// client's probe tells how long it took, if it bears the nonce that was sent.
pub proof fn law_probes_are_answered(c: Client, after: Client, nonce: u64, now: u64, h: Handled)
    ensures
        c.reacts(after, Message::Ping { nonce }, now, h) ==> h.sends@.len() == 1 && h.sends@[0] == (
        Message::Pong { nonce }) && h.event is None && after.last_ping == c.last_ping,
        c.reacts(after, Message::Pong { nonce }, now, h) ==> after.last_ping is None
            && h.sends@.len() == 0 && (c.last_ping matches Some((n, sent)) ==> (n == nonce && sent
            <= now ==> h.event == Some(ClientEvent::Rtt((now - sent) as u64))) && (n != nonce
            ==> h.event is None)) && (c.last_ping is None ==> h.event is None),
        c.last_ping is None ==> c.next_nonce() == 1,
        c.last_ping matches Some((n, _)) ==> (n < u64::MAX ==> c.next_nonce() == n + 1),
        c.last_ping matches Some((n, _)) ==> (n == u64::MAX ==> c.next_nonce() == 0),
{
}

/// The server reads a file of this machine only where it was put on the
/// clipboard; a request for any other is turned down by its own number.
pub proof fn law_only_offered_files_are_read(
    c: Client,
    after: Client,
    id: u64,
    path: String,
    now: u64,
    h: Handled,
)
    requires
        c.reacts(after, Message::FileRequest { id, path }, now, h),
    ensures
        h.serve is Some <==> exists|i: int|
            0 <= i < c.offered_files@.len() && #[trigger] c.offered_files@[i]@ == path@,
        h.serve is Some ==> h.serve == Some(Serve::File { id, path }) && h.sends@.len() == 0,
        h.serve is None ==> h.sends@.len() == 1 && (h.sends@[0] matches Message::TransferEnd {
            id: i,
            ok,
            message,
        } && i == id && !ok && message@ == "not offered on the clipboard"@),
        h.event is None,
{
    let t = text::texts(c.offered_files@);
    if t.contains(path@) {
        let i = choose|i: int| 0 <= i < t.len() && t[i] == path@;
        assert(c.offered_files@[i]@ == path@);
    }
    if exists|i: int| 0 <= i < c.offered_files@.len() && #[trigger] c.offered_files@[i]@ == path@ {
        let i = choose|i: int|
            0 <= i < c.offered_files@.len() && #[trigger] c.offered_files@[i]@ == path@;
        assert(t[i] == path@);
    }
}

/// Of what the session copies, images are asked for where the server sends
/// images and files where it sends files, images first. An image of this
/// machine is handed over once, when it is asked for.
pub proof fn law_clipboard_is_asked_for(
    c: Client,
    after: Client,
    formats: Formats,
    now: u64,
    h: Handled,
)
    ensures
        c.reacts(after, Message::ClipboardOffer { formats }, now, h) ==> ({
            let image = Message::ClipboardRequest { formats: Formats { png: true, files: false } };
            let files = Message::ClipboardRequest { formats: Formats { png: false, files: true } };
            let i = formats.png && c.info.features.clipboard_image;
            let f = formats.files && c.info.features.clipboard_files;
            &&& i && f ==> h.sends@ == seq![image, files]
            &&& i && !f ==> h.sends@ == seq![image]
            &&& !i && f ==> h.sends@ == seq![files]
            &&& !i && !f ==> h.sends@.len() == 0
        }),
        c.reacts(after, Message::ClipboardRequest { formats }, now, h) ==> (formats.png
            ==> after.pending_image is None && (c.pending_image matches Some(png) ==> h.serve == Some(
            Serve::Image { png },
        ))) && (!formats.png || c.pending_image is None ==> h.serve is None),
{
}

/// The end of a session is told with its reason, and the connection keeps it.
pub proof fn law_end_is_told(c: Client, after: Client, msg: Message, now: u64, h: Handled)
    requires
        c.reacts(after, msg, now, h),
    ensures
        msg matches Message::Disconnect { reason } ==> (h.event matches Some(
            ClientEvent::Disconnected(r),
        ) && r@ == reason@) && (after.closed matches Some(r) && r@ == reason@),
        msg matches Message::Rejected { code, reason } ==> (h.event matches Some(
            ClientEvent::Disconnected(r),
        ) && r@ == "rejected (code "@ + text::decimal(code as nat) + "): "@ + reason@) && (
        after.closed matches Some(r) && r@ == "rejected (code "@ + text::decimal(code as nat)
            + "): "@ + reason@),
        !(msg is Disconnect) && !(msg is Rejected) ==> after.closed == c.closed,
{
}

/// Events are handed out in the order in which they came, and the end of the
/// connection after all of them, as often as it is asked for.
pub proof fn law_events_come_in_order(c: Client, after: Client, event: Option<ClientEvent>)
    requires
        c.polled(after, event),
    ensures
        c.queued@.len() > 0 ==> event == Some(c.queued@[0]) && after.queued@.len()
            == c.queued@.len() - 1 && forall|i: int|
            0 <= i < after.queued@.len() ==> #[trigger] after.queued@[i] == c.queued@[i + 1],
        c.queued@.len() == 0 && c.closed is None ==> event is None,
        c.queued@.len() == 0 ==> (c.closed matches Some(why) ==> (event matches Some(
            ClientEvent::Disconnected(r),
        ) && r@ == why@)),
        after.closed == c.closed,
{
}

/// A server that has said nothing for more than thirty seconds is gone; until
/// then a wait goes on in slices of a quarter of a second at most.
pub proof fn law_silent_server_is_gone(
    c: Client,
    after: Client,
    now: u64,
    remaining: u64,
    w: Waited,
)
    requires
        c.waited(after, now, remaining, w),
        c.last_message_at <= now,
    ensures
        now - c.last_message_at > 30_000_000_000 ==> (w matches Waited::Event(
            ClientEvent::Disconnected(r),
        ) && r@ == "no response from the session for "@ + seq!['3', '0'] + "s"@) && after.closed is Some,
        now - c.last_message_at <= 30_000_000_000 ==> after.closed == c.closed && (w is Idle <==> remaining
            <= 250_000_000) && (w is Again <==> remaining > 250_000_000),
{
    reveal_with_fuel(text::decimal, 3);
    assert(text::decimal(30) =~= seq!['3', '0']);
}

/// The server may send an image at any time, a file only where it was asked for
/// under that number, to the place that was named and over what is there only
/// where that was allowed; and it may ask for no upload.
pub proof fn law_only_wanted_transfers_are_taken(
    c: Client,
    id: u64,
    purpose: TransferPurpose,
    a: Admission,
)
    requires
        c.admits(id, purpose, a),
    ensures
        a is Memory <==> purpose is ClipboardImage,
        a is File <==> purpose is FileDownload && c.downloads@.dom().contains(id),
        a matches Admission::File { path, replace } ==> path == c.downloads@[id] && replace
            == c.replacements@.contains(id),
        purpose is FileUpload ==> (a matches Admission::Refused(why) && why@
            == "unexpected upload offer"@),
        purpose is FileDownload && !c.downloads@.dom().contains(id) ==> (a matches Admission::Refused(
            why,
        ) && why@ == "unsolicited download"@),
{
}

/// One who waits for a transfer is told of its own end alone, and of the end of
/// the connection.
pub proof fn law_transfer_is_waited_for(id: u64, event: ClientEvent, r: TransferResult)
    requires
        Client::settles(id, event, r),
    ensures
        event matches ClientEvent::FileUploaded { id: i, .. } ==> (r is Done <==> i == id),
        event matches ClientEvent::FileUploaded { id: i, .. } ==> (i == id ==> r
            == TransferResult::Done(None)),
        event matches ClientEvent::FileDownloaded { id: i, path, .. } ==> (i == id ==> r
            == TransferResult::Done(Some(path))) && (i != id ==> r == TransferResult::Pending),
        event matches ClientEvent::TransferFailed { id: i, reason } ==> (i == id ==> r
            == TransferResult::Failed(reason)) && (i != id ==> r == TransferResult::Pending),
        event matches ClientEvent::Disconnected(reason) ==> (r matches TransferResult::Failed(why)
            && why@ == "disconnected: "@ + reason@),
        event is Frame || event is Clipboard || event is Notice ==> r == TransferResult::Pending,
{
}

/// A file is asked for under the number and the path that were given, and kept
/// where it was to go; where the server sends no files, nothing changes.
pub proof fn law_file_is_asked_for(
    c: Client,
    after: Client,
    id: u64,
    remote: Seq<char>,
    local: String,
    replace: bool,
    r: Result<Message, String>,
)
    requires
        c.asks_for(after, id, remote, local, replace, r),
    ensures
        r is Ok <==> c.info.features.file_transfer,
        r is Ok ==> (r matches Ok(Message::FileRequest { id: i, path }) && i == id && path@ == remote)
            && after.downloads@.dom().contains(id) && after.downloads@[id] == local && (replace
            ==> after.replacements@.contains(id)) && forall|other: u64|
            other != id ==> (#[trigger] after.downloads@.dom().contains(other)
                == c.downloads@.dom().contains(other)),
        r matches Err(e) ==> e@ == "the server did not enable file transfer"@ && after == c,
{
}

/// Every reply that turns an offer away is told as a failure of that transfer
/// with its reason, in the order of the replies, and no other reply is.
pub proof fn law_refusals_are_told(replies: Seq<Message>, m: Message)
    ensures
        refusals(Seq::empty()).len() == 0,
        m matches Message::TransferAccept { id, accepted, reason } ==> (!accepted ==> refusals(
            replies.push(m),
        ) == refusals(replies).push(ClientEvent::TransferFailed { id, reason })) && (accepted
            ==> refusals(replies.push(m)) == refusals(replies)),
        !(m is TransferAccept) ==> refusals(replies.push(m)) == refusals(replies),
{
    assert(replies.push(m).drop_last() =~= replies);
}

/// Every transfer that failed is told with its reason; of those that were sent
/// whole the uploads are told, by number and name, in the order in which they
/// ended.
pub proof fn law_ended_transfers_are_told(
    failed: Seq<(u64, String)>,
    i: int,
    sent: Seq<(u64, TransferPurpose, String)>,
    id: u64,
    purpose: TransferPurpose,
    name: String,
)
    ensures
        failures(failed).len() == failed.len(),
        0 <= i < failed.len() ==> failures(failed)[i] == (ClientEvent::TransferFailed {
            id: failed[i].0,
            reason: failed[i].1,
        }),
        uploads(Seq::empty()).len() == 0,
        purpose is FileUpload ==> uploads(sent.push((id, purpose, name))) == uploads(sent).push(
            ClientEvent::FileUploaded { id, name },
        ),
        !(purpose is FileUpload) ==> uploads(sent.push((id, purpose, name))) == uploads(sent),
{
    assert(sent.push((id, purpose, name)).drop_last() =~= sent);
}

/// What arrived whole is told: an image with its bytes, a file that was asked
/// for with the place where it was put, once; a file that was not, never.
pub proof fn law_arrivals_are_told(downloads: Map<u64, String>, before: Seq<Completed>, done: Completed)
    ensures
        ({
            let waiting = after_arrivals(downloads, before);
            let now = after_arrivals(downloads, before.push(done));
            let told = arrivals(downloads, before);
            let all = arrivals(downloads, before.push(done));
            let id = done.id;
            &&& done.purpose is ClipboardImage ==> now == waiting && (done.data matches Some(png)
                ==> all == told.push(ClientEvent::ClipboardImage(png))) && (done.data is None ==> all
                == told)
            &&& done.purpose is FileDownload && waiting.dom().contains(id) ==> all == told.push(
                ClientEvent::FileDownloaded { id, path: waiting[id], name: done.name },
            )
            &&& done.purpose is FileDownload && !waiting.dom().contains(id) ==> all == told
            &&& done.purpose is FileDownload ==> !now.dom().contains(id) && forall|other: u64|
                other != id && #[trigger] waiting.dom().contains(other) ==> now.dom().contains(other)
                    && now[other] == waiting[other]
            &&& done.purpose is FileUpload ==> all == told && now == waiting
        }),
        arrivals(downloads, Seq::empty()).len() == 0,
        after_arrivals(downloads, Seq::empty()) == downloads,
{
    assert(before.push(done).drop_last() =~= before);
}

/// A transfer that failed is waited for no longer, and every other one is.
pub proof fn law_failed_transfers_are_forgotten(m: Map<u64, String>, events: Seq<ClientEvent>, i: int, id: u64)
    ensures
        0 <= i < events.len() ==> (events[i] matches ClientEvent::TransferFailed { id: f, .. }
            ==> !without(m, failed_ids(events)).dom().contains(f)),
        m.dom().contains(id) && (forall|k: int|
            0 <= k < events.len() ==> !(#[trigger] events[k] matches ClientEvent::TransferFailed {
                id: f,
                ..
            } && f == id)) ==> without(m, failed_ids(events)).dom().contains(id) && without(
            m,
            failed_ids(events),
        )[id] == m[id],
{
}

/// What became of the transfers is told after what was told before: refusals,
/// failures, uploads, arrivals, in that order, the first of them at once.
pub proof fn law_outcomes_are_told_in_order(
    c: Client,
    after: Client,
    outcome: Outcome,
    delivered: usize,
    r: (bool, Option<ClientEvent>),
)
    requires
        c.takes_in(after, outcome, delivered, r),
    ensures
        r.0 <==> delivered >= outcome.replies@.len(),
        r.0 && c.queued@.len() > 0 ==> r.1 == Some(c.queued@[0]),
        r.0 && c.queued@.len() == 0 && refusals(outcome.replies@).len() > 0 ==> r.1 == Some(
            refusals(outcome.replies@)[0],
        ),
        r.0 && c.queued@.len() == 0 && refusals(outcome.replies@).len() == 0 && outcome.failed@.len()
            > 0 ==> r.1 == Some(
            ClientEvent::TransferFailed { id: outcome.failed@[0].0, reason: outcome.failed@[0].1 },
        ),
        r.0 && c.queued@.len() == 0 && refusals(outcome.replies@).len() == 0 && outcome.failed@.len()
            == 0 && uploads(outcome.sent@).len() > 0 ==> r.1 == Some(uploads(outcome.sent@)[0]),
        r.0 && c.queued@.len() == 0 && refusals(outcome.replies@).len() == 0 && outcome.failed@.len()
            == 0 && uploads(outcome.sent@).len() == 0 && outcome.completed@.len() == 0 ==> r.1 is None
            && after.downloads@ == c.downloads@,
        after.width == c.width && after.height == c.height && after.closed == c.closed,
{
    let bad = refusals(outcome.replies@) + failures(outcome.failed@);
    assert(failures(outcome.failed@).len() == outcome.failed@.len());
    if bad.len() == 0 {
        assert(failed_ids(bad) =~= Set::<u64>::empty());
        assert(without(c.downloads@, failed_ids(bad)) =~= c.downloads@);
    }
}

/// An upload is refused where the server takes no files, and where it could not
/// keep a file that is there from being written over and that was not allowed.
pub proof fn law_uploads_are_allowed(features: Features, replace: bool)
    ensures
        upload_refusal(features, replace) is None <==> features.file_transfer && (replace
            || features.atomic_files),
        !replace && !features.atomic_files ==> upload_refusal(features, replace) == Some(
            "update the server for safe uploads, or explicitly allow overwriting"@,
        ),
        (replace || features.atomic_files) && !features.file_transfer ==> upload_refusal(
            features,
            replace,
        ) == Some("the server did not enable file transfer"@),
{
}

/// Files are offered by their path and size, in order, without those that could
/// not be read.
pub proof fn law_readable_files_are_offered(found: Seq<(String, Option<u64>)>, path: String, size: u64)
    ensures
        file_entries(Seq::empty()).len() == 0,
        file_entries(found.push((path, Some(size)))) == file_entries(found).push((path@, size)),
        file_entries(found.push((path, None))) == file_entries(found),
{
    assert(found.push((path, Some(size))).drop_last() =~= found);
    assert(found.push((path, None)).drop_last() =~= found);
}

/// An update takes sixteen bytes, twelve more for each copy and thirteen more
/// than its own bytes for each tile.
pub proof fn law_update_takes_bytes(copies: nat, tiles: Seq<u64>, tile: u64)
    ensures
        update_bytes(copies, Seq::empty()) == 16 + 12 * copies,
        update_bytes(copies, tiles.push(tile)) == update_bytes(copies, tiles) + tile + 13,
{
    assert(tiles.push(tile).drop_last() =~= tiles);
}

/// The list of offered files has the path and the size of each, in order, and the
/// paths that may be asked for are those.
pub proof fn law_offered_files_are_listed(files: Seq<FileEntry>, entries: Seq<(Seq<char>, u64)>, i: int)
    ensures
        entry_views(files).len() == files.len(),
        0 <= i < files.len() ==> entry_views(files)[i] == (files[i].path@, files[i].size),
        entry_paths(entries).len() == entries.len(),
        0 <= i < entries.len() ==> entry_paths(entries)[i] == entries[i].0,
{
}

/// The hello says the version, the name and what this client can do, and the size
/// it asks for: none is nought by nought.
pub proof fn law_hello_says_what_is_asked(opts: ConnectOptions, version: u16, m: Message)
    requires
        greets(opts, version, m),
    ensures
        m matches Message::ClientHello { version: v, client_name, features, width, height } && v
            == version && client_name@ == opts.client_name@ && features == opts.features && (
        opts.size matches Some((w, h)) ==> width == w && height == h) && (opts.size is None ==> width
            == 0 && height == 0),
{
}

/// A file is sent under its own number, by its name where it has one and else by
/// its path; one that cannot be read is told by its path and why.
pub proof fn law_file_is_sent(
    id: u64,
    path: String,
    name: Option<String>,
    size: u64,
    error: Option<String>,
    r: Result<(u64, String, u64), Message>,
)
    requires
        Client::serves(id, path, name, size, error, r),
    ensures
        r is Ok <==> error is None,
        r matches Ok((i, n, s)) ==> i == id && s == size && (name matches Some(given) ==> n == given)
            && (name is None ==> n == path),
        error matches Some(why) ==> (r matches Err(Message::TransferEnd { id: i, ok, message }) && i
            == id && !ok && message@ == path@ + ": "@ + why@),
{
}

/// An image is offered and held until it is asked for, where the server takes
/// images; files are offered where it takes files and one of them can be read.
pub proof fn law_offers_are_held(
    c: Client,
    after: Client,
    png: Vec<u8>,
    m: Option<Message>,
    found: Seq<(String, Option<u64>)>,
    files: Option<Vec<FileEntry>>,
)
    ensures
        c.offers_image(after, png, m) && c.info.features.clipboard_image ==> after.pending_image
            == Some(png) && m == Some(
            Message::ClipboardOffer { formats: Formats { png: true, files: false } },
        ),
        c.offers_image(after, png, m) && !c.info.features.clipboard_image ==> after == c && m is None,
        c.offers_files(after, found, files) ==> (files is Some <==> c.info.features.clipboard_files
            && file_entries(found).len() > 0),
        c.offers_files(after, found, files) && files is Some ==> after.offered_files@.len()
            == file_entries(found).len() && forall|i: int|
            0 <= i < after.offered_files@.len() ==> (#[trigger] after.offered_files@[i])@
                == file_entries(found)[i].0,
        c.offers_files(after, found, files) && files is None ==> after == c,
{
    if c.offers_files(after, found, files) && files is Some {
        let paths = text::texts(after.offered_files@);
        assert(paths.len() == after.offered_files@.len());
        assert forall|i: int| 0 <= i < after.offered_files@.len() implies (
        #[trigger] after.offered_files@[i])@ == file_entries(found)[i].0 by {
            assert(paths[i] == after.offered_files@[i]@);
        }
    }
}

/// Leaving tells the server why, and the first reason a connection ended for is
/// kept.
pub proof fn law_leaving_is_told(c: Client, after: Client, reason: Seq<char>, m: Message)
    requires
        c.leaves(after, reason, m),
    ensures
        m matches Message::Disconnect { reason: r } && r@ == reason,
        c.closed is None ==> (after.closed matches Some(r) && r@ == "closed by client"@),
        c.closed is Some ==> after.closed == c.closed,
        after.queued == c.queued && after.downloads == c.downloads,
{
}

} // verus!
