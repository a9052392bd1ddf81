//! What a client says to the server on its own account.

use vstd::prelude::*;

use crate::connection::{Client, ClientEvent, ServerInfo};
use crate::proto::keysym;
use crate::proto::{CursorImage, Message, TransferPurpose};
use crate::text;

verus! {

/// The messages that type a text: each character goes down and up.
pub open spec fn typed(s: Seq<char>) -> Seq<Message> {
    Seq::new(
        (s.len() * 2) as nat,
        |i: int| Message::KeyEvent { keysym: keysym::of_char(s[i / 2]), down: i % 2 == 0 },
    )
}

/// The name of what a transfer is for.
pub open spec fn purpose_text(purpose: TransferPurpose) -> Seq<char> {
    match purpose {
        TransferPurpose::ClipboardImage => "ClipboardImage"@,
        TransferPurpose::FileDownload => "FileDownload"@,
        TransferPurpose::FileUpload => "FileUpload"@,
    }
}

/// How an active transfer is described.
pub open spec fn row_text(
    purpose: TransferPurpose,
    name: Seq<char>,
    done: u64,
    total: u64,
) -> Seq<char> {
    purpose_text(purpose) + " "@ + name + ": "@ + text::decimal(done as nat) + "/"@ + text::decimal(
        total as nat,
    ) + " bytes"@
}

/// Whether waiting for frames is over.
#[derive(Clone, Copy, Debug, PartialEq, Eq, Structural)]
pub enum FrameWait {
    /// There are enough.
    Reached,
    /// Time is up.
    TimedOut,
    /// Wait for the next event.
    Waiting,
}

impl Client {
    /// A key event.
    pub fn key(keysym: u32, down: bool) -> (m: Message)
        ensures
            m == (Message::KeyEvent { keysym, down }),
    {
        Message::KeyEvent { keysym, down }
    }

    /// Press and release a key.
    pub fn tap_key(keysym: u32) -> (m: Vec<Message>)
        ensures
            m@ == seq![
                Message::KeyEvent { keysym, down: true },
                Message::KeyEvent { keysym, down: false },
            ],
    {
        let mut m: Vec<Message> = Vec::new();
        m.push(Client::key(keysym, true));
        m.push(Client::key(keysym, false));
        assert(m@ =~= seq![
            Message::KeyEvent { keysym, down: true },
            Message::KeyEvent { keysym, down: false },
        ]);
        m
    }

    /// Type a string as key events.
    pub fn type_text(t: &str) -> (m: Vec<Message>)
        ensures
            m@ == typed(t@),
    {
        let v = text::chars_of(t);
        let mut m: Vec<Message> = Vec::new();
        let mut i: usize = 0;
        while i < v.len()
            invariant
                i <= v.len(),
                v@ == t@,
                m@ == typed(t@.take(i as int)),
            decreases v.len() - i,
        {
            let k: u32 = keysym::keysym_from_char(v[i]);
            m.push(Client::key(k, true));
            m.push(Client::key(k, false));
            i = i + 1;
            assert(m@ =~= typed(t@.take(i as int)));
        }
        assert(t@.take(i as int) =~= t@);
        m
    }

    /// Move the pointer.
    pub fn pointer_move(x: u16, y: u16) -> (m: Message)
        ensures
            m == (Message::PointerMotion { x, y }),
    {
        Message::PointerMotion { x, y }
    }

    /// Press or release a pointer button.
    pub fn pointer_button(button: u8, down: bool) -> (m: Message)
        ensures
            m == (Message::PointerButton { button, down }),
    {
        Message::PointerButton { button, down }
    }

    /// Click a pointer button.
    pub fn click(x: u16, y: u16, button: u8) -> (m: Vec<Message>)
        ensures
            m@ == seq![
                Message::PointerMotion { x, y },
                Message::PointerButton { button, down: true },
                Message::PointerButton { button, down: false },
            ],
    {
        let mut m: Vec<Message> = Vec::new();
        m.push(Client::pointer_move(x, y));
        m.push(Client::pointer_button(button, true));
        m.push(Client::pointer_button(button, false));
        assert(m@ =~= seq![
            Message::PointerMotion { x, y },
            Message::PointerButton { button, down: true },
            Message::PointerButton { button, down: false },
        ]);
        m
    }

    /// Ask for a new screen size.
    pub fn request_resize(width: u16, height: u16) -> (m: Message)
        ensures
            m == (Message::ResizeRequest { width, height }),
    {
        Message::ResizeRequest { width, height }
    }

    /// Clipboard text for the session.
    pub fn set_clipboard(t: &str) -> (m: Message)
        ensures
            m matches Message::ClipboardText { text } && text@ == t@,
    {
        Message::ClipboardText { text: text::copy(t) }
    }

    /// Ask the server to resend the whole screen.
    pub fn request_refresh() -> (m: Message)
        ensures
            m == Message::RefreshRequest,
    {
        Message::RefreshRequest
    }

    /// Server information from the handshake.
    pub fn info(&self) -> (r: &ServerInfo)
        ensures
            *r == self.info,
    {
        &self.info
    }

    /// Latest cursor image, if the server sent one.
    pub fn cursor(&self) -> (r: Option<&CursorImage>)
        ensures
            match self.cursor {
                Some(c) => r matches Some(k) && *k == c,
                None => r is None,
            },
    {
        match &self.cursor {
            Some(c) => Some(c),
            None => None,
        }
    }

    /// Number of frames applied.
    pub fn frames_received(&self) -> (n: u64)
        ensures
            n == self.frames_received,
    {
        self.frames_received
    }

    /// Bytes of screen data received.
    pub fn bytes_received(&self) -> (n: u64)
        ensures
            n == self.bytes_received,
    {
        self.bytes_received
    }

    /// Reason the connection closed, if it has.
    pub fn closed(&self) -> (r: Option<&str>)
        ensures
            match self.closed {
                Some(reason) => r matches Some(t) && t@ == reason@,
                None => r is None,
            },
    {
        match &self.closed {
            Some(reason) => Some(reason.as_str()),
            None => None,
        }
    }

    /// The description of an active transfer for a local progress view.
    pub fn transfer_row(described: Option<(TransferPurpose, String, u64, u64)>) -> (row: String)
        ensures
            row@ == match described {
                Some((purpose, name, done, total)) => row_text(purpose, name@, done, total),
                None => "Waiting for file offer"@,
            },
    {
        match described {
            Some((purpose, name, done, total)) => {
                let mut s = match purpose {
                    TransferPurpose::ClipboardImage => text::copy("ClipboardImage"),
                    TransferPurpose::FileDownload => text::copy("FileDownload"),
                    TransferPurpose::FileUpload => text::copy("FileUpload"),
                };
                s.push_str(" ");
                s.push_str(name.as_str());
                s.push_str(": ");
                let d = text::decimal_of(done);
                s.push_str(d.as_str());
                s.push_str("/");
                let t = text::decimal_of(total);
                s.push_str(t.as_str());
                s.push_str(" bytes");
                s
            },
            None => text::copy("Waiting for file offer"),
        }
    }

    /// Whether waiting for `n` frames is over, with that much time left.
    pub fn wait_for_frames(&self, n: u64, remaining: u64) -> (w: FrameWait)
        ensures
            w == if self.frames_received >= n {
                FrameWait::Reached
            } else if remaining == 0 {
                FrameWait::TimedOut
            } else {
                FrameWait::Waiting
            },
    {
        if self.frames_received >= n {
            FrameWait::Reached
        } else if remaining == 0 {
            FrameWait::TimedOut
        } else {
            FrameWait::Waiting
        }
    }

    /// Why waiting for frames fails at an event, if it does.
    pub fn frames_lost(event: &ClientEvent) -> (r: Option<String>)
        ensures
            match *event {
                ClientEvent::Disconnected(reason) => r matches Some(e) && e@ == "disconnected: "@
                    + reason@,
                _ => r is None,
            },
    {
        match event {
            ClientEvent::Disconnected(reason) => {
                let mut s = text::copy("disconnected: ");
                s.push_str(reason.as_str());
                Some(s)
            },
            _ => None,
        }
    }
}

/// Each character of a text is typed as a key that goes down and comes up, one
/// after the other.
pub proof fn law_text_is_typed_key_by_key(s: Seq<char>, k: int)
    requires
        0 <= k < s.len(),
    ensures
        typed(s).len() == 2 * s.len(),
        typed(s)[2 * k] == (Message::KeyEvent { keysym: keysym::of_char(s[k]), down: true }),
        typed(s)[2 * k + 1] == (Message::KeyEvent { keysym: keysym::of_char(s[k]), down: false }),
{
}

/// A transfer is shown by what it is for, its name, and how much of it is done.
pub proof fn law_transfer_is_shown(name: Seq<char>, done: u64, total: u64)
    ensures
        ({
            let rest = " "@ + name + ": "@ + text::decimal(done as nat) + "/"@ + text::decimal(
                total as nat,
            ) + " bytes"@;
            &&& row_text(TransferPurpose::ClipboardImage, name, done, total) == "ClipboardImage"@
                + rest
            &&& row_text(TransferPurpose::FileDownload, name, done, total) == "FileDownload"@ + rest
            &&& row_text(TransferPurpose::FileUpload, name, done, total) == "FileUpload"@ + rest
        }),
{
    let rest = " "@ + name + ": "@ + text::decimal(done as nat) + "/"@ + text::decimal(
        total as nat,
    ) + " bytes"@;
    assert(row_text(TransferPurpose::ClipboardImage, name, done, total) =~= "ClipboardImage"@ + rest);
    assert(row_text(TransferPurpose::FileDownload, name, done, total) =~= "FileDownload"@ + rest);
    assert(row_text(TransferPurpose::FileUpload, name, done, total) =~= "FileUpload"@ + rest);
}

} // verus!
