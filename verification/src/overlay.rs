//! The session window's connection bar.
//!
//! The bar is drawn into the *presented* buffer, after the remote screen and
//! before the local cursor, and never into the decoded framebuffer: the server
//! sends incremental frames that differ against the pixels it believes we
//! hold.
//!
//! The bar shows only what the client actually knows: the identity from the
//! handshake, the remote size, the last real round-trip sample, and real
//! upload progress.

use vstd::prelude::*;

use crate::proto;
use crate::proto::Rect;
use crate::text;
use crate::time;

pub mod colour;
pub mod marks;

pub use marks::{paint, Mark, Words};

verus! {

/// How long the pointer must stay in the hot zone before the bar comes up.
///
/// The top edge of the remote screen is somewhere users go on purpose. The
/// dwell is what separates "I am using the top of my desktop" from "I want the
/// connection bar": the first is a pass through the strip, the second is a
/// pause in it.
pub const REVEAL_DELAY: u64 = 600_000_000;

/// How long the bar stays up after the pointer leaves it.
pub const HIDE_DELAY: u64 = 700_000_000;

/// How long the bar shows itself on connect and on every state change, so it
/// is discoverable without documentation.
pub const FLASH: u64 = 1_500_000_000;

/// The largest scale at which the height of the bar is a number of pixels.
pub const MAX_SCALE: u32 = 178_956_970;

/// Height of the bar in pixels.
pub fn bar_height(s: u32) -> (h: u32)
    requires
        s <= MAX_SCALE,
    ensures
        h == 24 * s,
{
    24 * s
}

/// Height of the strip along the top edge that brings the bar up.
pub fn hot_zone_height(s: u32) -> (h: u32)
    requires
        s <= MAX_SCALE,
    ensures
        h == 4 * s,
{
    4 * s
}

// ---------------------------------------------------------------------------
// Status
// ---------------------------------------------------------------------------

/// Everything the bar is allowed to say, gathered once per frame.
#[derive(Clone, Debug, PartialEq, Eq)]
pub struct Status {
    /// `user@host` from the handshake.
    pub who: String,
    /// Remote screen width.
    pub width: u32,
    /// Remote screen height.
    pub height: u32,
    /// The last measured round trip in milliseconds, or `None` before the
    /// first answer.
    pub rtt: Option<u64>,
    /// How long the link has been quiet, when that is longer than the stall
    /// threshold. `Some` replaces the round-trip field.
    pub stalled: Option<u64>,
    /// Uploads in flight: (files, percent complete).
    pub uploads: Option<(usize, u64)>,
}

/// A run of text in one colour.
#[derive(Clone, Debug, PartialEq, Eq)]
pub struct Span {
    /// Left edge, in window pixels.
    pub x: u32,
    /// The characters to draw.
    pub text: String,
    /// `0x00RRGGBB`.
    pub colour: u32,
}

/// A run of text as its characters and its colour.
pub type Run = (Seq<char>, u32);

/// `{width}x{height}`.
pub open spec fn screen_text(width: u32, height: u32) -> Seq<char> {
    text::decimal(width as nat) + seq!['x'] + text::decimal(height as nat)
}

/// What the bar says of the link: how long it has been quiet where that is too
/// long, else the round trip, which is two dashes until there is one.
pub open spec fn link_runs(st: Status) -> Seq<Run> {
    match st.stalled {
        Some(d) => seq![
            (
                "stalled "@ + text::decimal((d / time::SECOND) as nat) + " s"@,
                colour::WARN,
            ),
        ],
        None => seq![
            ("rtt "@, colour::DIM),
            (
                match st.rtt {
                    Some(ms) => text::decimal(ms as nat) + " ms"@,
                    None => "--"@,
                },
                colour::TEXT,
            ),
        ],
    }
}

pub open spec fn upload_runs(files: usize, percent: u64) -> Seq<Run> {
    seq![
        ("up "@, colour::DIM),
        (
            text::decimal(files as nat) + (if files == 1 {
                " file "@
            } else {
                " files "@
            }) + text::decimal(percent as nat) + "%"@,
            colour::TEXT,
        ),
    ]
}

/// The fields right of the state dot, most important first.
///
/// Truncation drops them from the end, so the order here is also the order in
/// which they are given up: uploads, then the link figure, then the remote
/// size, and only then is `user@host` itself shortened.
pub open spec fn field_runs(st: Status) -> Seq<Seq<Run>> {
    let base = seq![
        seq![(st.who@, colour::TEXT)],
        seq![(screen_text(st.width, st.height), colour::DIM)],
        link_runs(st),
    ];
    match st.uploads {
        Some((files, percent)) => base.push(upload_runs(files, percent)),
        None => base,
    }
}

/// The runs of a field.
pub open spec fn runs(field: Seq<Span>) -> Seq<Run> {
    field.map_values(|sp: Span| (sp.text@, sp.colour))
}

/// The runs of a list of fields.
pub open spec fn all_runs(fields: Seq<Vec<Span>>) -> Seq<Seq<Run>> {
    fields.map_values(|f: Vec<Span>| runs(f@))
}

/// The runs of a field have no place yet.
pub open spec fn unplaced(field: Seq<Span>) -> bool {
    forall|j: int| 0 <= j < field.len() ==> (#[trigger] field[j]).x == 0
}

impl Span {
    pub fn new(text: &str, colour: u32) -> (sp: Span)
        ensures
            sp.x == 0,
            sp.text@ == text@,
            sp.colour == colour,
    {
        Span { x: 0, text: text::copy(text), colour }
    }
}

fn one(text: &str, colour: u32) -> (f: Vec<Span>)
    ensures
        runs(f@) == seq![(text@, colour)],
        unplaced(f@),
{
    let mut f: Vec<Span> = Vec::new();
    f.push(Span::new(text, colour));
    assert(runs(f@) =~= seq![(text@, colour)]);
    f
}

fn two(first: &str, a: u32, second: &str, b: u32) -> (f: Vec<Span>)
    ensures
        runs(f@) == seq![(first@, a), (second@, b)],
        unplaced(f@),
{
    let mut f: Vec<Span> = Vec::new();
    f.push(Span::new(first, a));
    f.push(Span::new(second, b));
    assert(runs(f@) =~= seq![(first@, a), (second@, b)]);
    f
}

impl Status {
    /// A status line, preserving international host and user names.
    pub fn new(who: &str, size: (u32, u32), rtt: Option<u64>) -> (st: Status)
        ensures
            st.who@ == who@,
            st.width == size.0,
            st.height == size.1,
            st.rtt == rtt,
            st.stalled is None,
            st.uploads is None,
    {
        Status {
            who: text::copy(who),
            width: size.0,
            height: size.1,
            rtt,
            stalled: None,
            uploads: None,
        }
    }

    fn link_field(&self) -> (f: Vec<Span>)
        ensures
            runs(f@) == link_runs(*self),
            unplaced(f@),
    {
        match self.stalled {
            Some(d) => {
                let mut s = text::copy("stalled ");
                let n = text::decimal_of(d / time::SECOND);
                s.push_str(n.as_str());
                s.push_str(" s");
                one(s.as_str(), colour::WARN)
            },
            None => {
                let value = match self.rtt {
                    Some(ms) => {
                        let mut s = text::decimal_of(ms);
                        s.push_str(" ms");
                        s
                    },
                    None => text::copy("--"),
                };
                two("rtt ", colour::DIM, value.as_str(), colour::TEXT)
            },
        }
    }

    /// The fields right of the state dot, most important first.
    pub fn fields(&self) -> (fields: Vec<Vec<Span>>)
        ensures
            all_runs(fields@) == field_runs(*self),
            forall|i: int| 0 <= i < fields@.len() ==> unplaced(#[trigger] fields@[i]@),
            fields@.len() >= 3,
            fields@[0]@.len() == 1,
    {
        let mut out: Vec<Vec<Span>> = Vec::new();
        out.push(one(self.who.as_str(), colour::TEXT));
        let mut size = text::decimal_of(self.width as u64);
        size.push('x');
        let h = text::decimal_of(self.height as u64);
        size.push_str(h.as_str());
        assert(size@ =~= screen_text(self.width, self.height));
        out.push(one(size.as_str(), colour::DIM));
        out.push(self.link_field());
        if let Some((files, percent)) = self.uploads {
            let mut s = text::decimal_of(files as u64);
            if files == 1 {
                s.push_str(" file ");
            } else {
                s.push_str(" files ");
            }
            let n = text::decimal_of(percent);
            s.push_str(n.as_str());
            s.push_str("%");
            out.push(two("up ", colour::DIM, s.as_str(), colour::TEXT));
        }
        assert(all_runs(out@) =~= field_runs(*self));
        proof {
            assert(runs(out@[0]@).len() == out@[0]@.len());
        }
        out
    }
}

// ---------------------------------------------------------------------------
// Layout
// ---------------------------------------------------------------------------

/// What a bar button does.
#[derive(Clone, Copy, Debug, PartialEq, Eq, Structural)]
pub enum Action {
    /// Open local file transfer controls.
    Transfers,
    /// Toggle the window's fullscreen state.
    Fullscreen,
    /// Send Ctrl+Alt+Del into the session.
    SecureAttention,
    /// End the session.
    Disconnect,
}

/// The actions of the buttons, left to right.
pub open spec fn action_of(i: int) -> Action {
    if i == 0 {
        Action::Transfers
    } else if i == 1 {
        Action::Fullscreen
    } else if i == 2 {
        Action::SecureAttention
    } else {
        Action::Disconnect
    }
}

impl Action {
    /// What a button says.
    pub open spec fn label_text(self) -> &'static str {
        match self {
            Action::Transfers => "Transfers",
            Action::Fullscreen => "Fullscreen",
            Action::SecureAttention => "Ctrl+Alt+Del",
            Action::Disconnect => "Disconnect",
        }
    }

    /// The accelerator of a button.
    pub open spec fn shortcut_text(self) -> &'static str {
        match self {
            Action::Transfers => "C-A-T",
            Action::Fullscreen => "C-A-Enter",
            Action::SecureAttention => "C-A-End",
            Action::Disconnect => "C-A-Q",
        }
    }

    /// The colour of a label: ending the session stands out.
    pub open spec fn colour_word(self) -> u32 {
        if self == Action::Disconnect {
            colour::DANGER
        } else {
            colour::TEXT
        }
    }

    /// The action of a button, counted from the left.
    pub fn nth(i: usize) -> (a: Action)
        ensures
            a == action_of(i as int),
    {
        if i == 0 {
            Action::Transfers
        } else if i == 1 {
            Action::Fullscreen
        } else if i == 2 {
            Action::SecureAttention
        } else {
            Action::Disconnect
        }
    }

    /// What a button says.
    pub fn label(self) -> (t: &'static str)
        ensures
            t == self.label_text(),
    {
        match self {
            Action::Transfers => "Transfers",
            Action::Fullscreen => "Fullscreen",
            Action::SecureAttention => "Ctrl+Alt+Del",
            Action::Disconnect => "Disconnect",
        }
    }

    fn shortcut(self) -> (t: &'static str)
        ensures
            t == self.shortcut_text(),
    {
        match self {
            Action::Transfers => "C-A-T",
            Action::Fullscreen => "C-A-Enter",
            Action::SecureAttention => "C-A-End",
            Action::Disconnect => "C-A-Q",
        }
    }
}

/// A laid-out button.
#[derive(Clone, Debug, PartialEq, Eq)]
pub struct Button {
    /// What pressing it does.
    pub action: Action,
    /// Where it is.
    pub rect: Rect,
    /// The label.
    pub label: &'static str,
    /// The accelerator.
    pub shortcut: &'static str,
    /// Whether the accelerator is being printed.
    pub shortcut_shown: bool,
    /// Label colour.
    pub colour: u32,
}

/// One frame's worth of bar geometry.
#[derive(Clone, Debug, PartialEq, Eq)]
pub struct Layout {
    /// The whole bar.
    pub bar: Rect,
    /// The connection status dot.
    pub dot: Rect,
    /// The colour of the dot.
    pub dot_colour: u32,
    /// Text runs, already positioned.
    pub spans: Vec<Span>,
    /// Buttons, leftmost first.
    pub buttons: Vec<Button>,
    /// The scale everything was laid out at.
    pub s: u32,
    /// Where the text begins vertically.
    pub text_y: u32,
    /// Where the text ends horizontally; nothing where there is none.
    pub text_end: u32,
}

/// How wide the texts of a bar are in its font, in pixels.
#[derive(Clone, Debug, PartialEq, Eq)]
pub struct Measured {
    /// The button labels, left to right.
    pub labels: Vec<u32>,
    /// The runs of each field.
    pub fields: Vec<Vec<u32>>,
    /// For each number of characters, as many of the first of `user@host` with
    /// an ellipsis behind them.
    pub cuts: Vec<u32>,
}

pub open spec fn widths(fields: Seq<Vec<u32>>) -> Seq<Seq<u32>> {
    fields.map_values(|f: Vec<u32>| f@)
}

impl Measured {
    /// Every text of a status was measured.
    pub open spec fn fits(self, st: Status) -> bool {
        &&& self.labels@.len() == 4
        &&& self.fields@.len() == field_runs(st).len()
        &&& forall|i: int|
            0 <= i < self.fields@.len() ==> (#[trigger] self.fields@[i])@.len() == field_runs(
                st,
            )[i].len()
        &&& self.cuts@.len() == st.who@.len() + 1
    }
}

/// The width of a button with its label.
pub open spec fn label_width(m: Measured, i: int, s: int) -> int {
    m.labels@[i] + 19 * s
}

/// Whether the buttons have room for their labels beside `user@host`.
pub open spec fn labeled(width: int, s: int, m: Measured) -> bool {
    13 * s + m.fields@[0]@[0] + 8 * s + (label_width(m, 0, s) + label_width(m, 1, s)
        + label_width(m, 2, s) + label_width(m, 3, s)) + 9 * s <= width
}

/// The width of a button: without room for labels every action keeps an icon.
pub open spec fn button_width(width: int, s: int, m: Measured, i: int) -> int {
    if labeled(width, s, m) {
        label_width(m, i, s)
    } else {
        22 * s
    }
}

pub open spec fn floor_zero(n: int) -> int {
    if n < 0 {
        0
    } else {
        n
    }
}

/// A button with its right edge at `right`.
pub open spec fn button(i: int, right: int, w: int, s: int) -> Button {
    Button {
        action: action_of(i),
        rect: Rect {
            x: (right - w) as u32,
            y: (3 * s) as u32,
            width: w as u32,
            height: (18 * s) as u32,
        },
        label: action_of(i).label_text(),
        shortcut: action_of(i).shortcut_text(),
        shortcut_shown: false,
        colour: action_of(i).colour_word(),
    }
}

/// The first `n` buttons that fit when the last of them ends at `right`: they
/// fill leftwards until there is no room.
pub open spec fn buttons_up_to(n: nat, right: int, width: int, s: int, m: Measured) -> Seq<Button>
    decreases n,
{
    if n == 0 {
        seq![]
    } else {
        let w = button_width(width, s, m, n - 1);
        if right < w + 4 * s {
            seq![]
        } else {
            buttons_up_to((n - 1) as nat, floor_zero(right - (w + 3 * s)), width, s, m).push(
                button(n - 1, right, w, s),
            )
        }
    }
}

/// The buttons of a bar.
pub open spec fn bar_buttons(width: int, s: int, m: Measured) -> Seq<Button> {
    buttons_up_to(4, floor_zero(width - 4 * s), width, s, m)
}

/// Where the text must end.
pub open spec fn text_limit(width: int, s: int, m: Measured) -> int {
    let buttons = bar_buttons(width, s, m);
    floor_zero(
        (if buttons.len() > 0 {
            buttons[0].rect.x as int
        } else {
            width
        }) - 4 * s,
    )
}

/// The room for text.
pub open spec fn text_room(width: int, s: int, m: Measured) -> int {
    floor_zero(text_limit(width, s, m) - 13 * s)
}

/// The width of the runs of a field together.
pub open spec fn sum(w: Seq<u32>) -> int
    decreases w.len(),
{
    if w.len() == 0 {
        0
    } else {
        sum(w.drop_last()) + w.last()
    }
}

/// The width of the first `n` fields without the gaps.
pub open spec fn fields_width(w: Seq<Seq<u32>>, n: int) -> int
    decreases n,
{
    if n <= 0 {
        0
    } else {
        fields_width(w, n - 1) + sum(w[n - 1])
    }
}

/// How many of the first `n` fields are kept: they are given up from the end
/// until the rest fits, but for the first.
pub open spec fn kept_fields(w: Seq<Seq<u32>>, n: nat, s: int, room: int) -> nat
    decreases n,
{
    if n <= 1 {
        n
    } else if fields_width(w, n as int) + 12 * s * (n - 1) <= room {
        n
    } else {
        kept_fields(w, (n - 1) as nat, s, room)
    }
}

/// How many of the first `k` characters leave room for the ellipsis.
pub open spec fn cut_at(cuts: Seq<u32>, k: nat, room: int) -> nat
    decreases k,
{
    if k == 0 || cuts[k as int] <= room {
        k
    } else {
        cut_at(cuts, (k - 1) as nat, room)
    }
}

/// What is shown of `user@host`, and how wide it is: all of it, or as much as
/// fits with an ellipsis behind it, or nothing.
pub open spec fn shown_name(who: Seq<char>, m: Measured, room: int) -> (Seq<char>, u32) {
    let full = m.fields@[0]@[0];
    if full <= room {
        (who, full)
    } else {
        let k = cut_at(m.cuts@, who.len(), room);
        if k == 0 {
            (seq![], 0u32)
        } else {
            (who.take(k as int) + "..."@, m.cuts@[k as int])
        }
    }
}

/// A run with its left edge.
pub type Placed = (int, Seq<char>, u32);

/// The runs of a field from `x` on, one behind the other; empty ones are left
/// out.
pub open spec fn placed_field(x: int, field: Seq<Run>, w: Seq<u32>) -> Seq<Placed>
    decreases field.len(),
{
    if field.len() == 0 || w.len() != field.len() {
        seq![]
    } else {
        let head = placed_field(x, field.drop_last(), w.drop_last());
        let run = field.last();
        if run.0.len() == 0 {
            head
        } else {
            head.push((field_end(x, field.drop_last(), w.drop_last()), run.0, run.1))
        }
    }
}

/// Where the runs of a field end.
pub open spec fn field_end(x: int, field: Seq<Run>, w: Seq<u32>) -> int
    decreases field.len(),
{
    if field.len() == 0 || w.len() != field.len() {
        x
    } else {
        let before = field_end(x, field.drop_last(), w.drop_last());
        if field.last().0.len() == 0 {
            before
        } else {
            before + w.last()
        }
    }
}

/// The first `n` fields from `x` on with gaps between them, and where the next
/// one would begin.
pub open spec fn placed(
    x: int,
    fields: Seq<Seq<Run>>,
    w: Seq<Seq<u32>>,
    n: int,
    s: int,
) -> (Seq<Placed>, int)
    decreases n,
{
    if n <= 0 {
        (seq![], x)
    } else {
        let (before, at) = placed(x, fields, w, n - 1, s);
        (
            before + placed_field(at, fields[n - 1], w[n - 1]),
            field_end(at, fields[n - 1], w[n - 1]) + 12 * s,
        )
    }
}

/// The fields of a bar, with `user@host` as it is shown.
pub open spec fn shown_fields(st: Status, m: Measured, room: int) -> (
    Seq<Seq<Run>>,
    Seq<Seq<u32>>,
) {
    let (name, w) = shown_name(st.who@, m, room);
    (
        field_runs(st).update(0, seq![(name, colour::TEXT)]),
        widths(m.fields@).update(0, seq![w]),
    )
}

/// The text of a bar.
pub open spec fn bar_text(width: int, s: int, st: Status, m: Measured) -> Seq<Placed> {
    let room = text_room(width, s, m);
    let n = kept_fields(widths(m.fields@), m.fields@.len(), s, room);
    let (fields, w) = shown_fields(st, m, room);
    placed(13 * s, fields, w, n as int, s).0
}

pub open spec fn span_models(spans: Seq<Span>) -> Seq<Placed> {
    spans.map_values(|sp: Span| (sp.x as int, sp.text@, sp.colour))
}

fn place_buttons(n: usize, right: u32, width: u32, s: u32, m: &Measured, with_labels: bool) -> (v:
    Vec<Button>)
    requires
        n <= 4,
        s <= MAX_SCALE,
        m.labels@.len() == 4,
        m.fields@.len() > 0,
        m.fields@[0]@.len() > 0,
        right <= width,
        with_labels == labeled(width as int, s as int, *m),
    ensures
        v@ == buttons_up_to(n as nat, right as int, width as int, s as int, *m),
        v@.len() > 0 ==> v@[0].rect.x <= width,
    decreases n,
{
    if n == 0 {
        return Vec::new();
    }
    let w: u64 = if with_labels {
        m.labels[n - 1] as u64 + 19 * s as u64
    } else {
        22 * s as u64
    };
    if (right as u64) < w + 4 * s as u64 {
        return Vec::new();
    }
    let taken: u64 = w + 3 * s as u64;
    let left: u32 = if right as u64 > taken {
        (right as u64 - taken) as u32
    } else {
        0
    };
    let mut v = place_buttons(n - 1, left, width, s, m, with_labels);
    let action = Action::nth(n - 1);
    let colour = match action {
        Action::Disconnect => colour::DANGER,
        _ => colour::TEXT,
    };
    let b = Button {
        action,
        rect: Rect::new(right - w as u32, 3 * s, w as u32, 18 * s),
        label: action.label(),
        shortcut: action.shortcut(),
        shortcut_shown: false,
        colour,
    };
    assert(b == button(n - 1, right as int, w as int, s as int));
    v.push(b);
    v
}

fn sum_of(w: &Vec<u32>) -> (n: u64)
    requires
        w@.len() <= 2,
    ensures
        n == sum(w@),
        n <= 2 * 0xffff_ffff,
{
    let mut n: u64 = 0;
    let mut i: usize = 0;
    while i < w.len()
        invariant
            i <= w.len() <= 2,
            n == sum(w@.take(i as int)),
            n <= i * 0xffff_ffff,
        decreases w.len() - i,
    {
        assert(w@.take(i + 1).drop_last() =~= w@.take(i as int));
        n = n + w[i] as u64;
        i = i + 1;
    }
    assert(w@.take(w@.len() as int) =~= w@);
    n
}

fn width_of(fields: &Vec<Vec<u32>>, n: usize) -> (t: u64)
    requires
        n <= fields@.len(),
        n <= 4,
        forall|i: int| 0 <= i < fields@.len() ==> (#[trigger] fields@[i])@.len() <= 2,
    ensures
        t == fields_width(widths(fields@), n as int),
        t <= n * 0x2_0000_0000,
    decreases n,
{
    if n == 0 {
        return 0;
    }
    let head: u64 = width_of(fields, n - 1);
    assert(widths(fields@)[n - 1] == fields@[n - 1]@);
    head + sum_of(&fields[n - 1])
}

fn fields_kept(fields: &Vec<Vec<u32>>, n: usize, s: u32, room: u32) -> (k: usize)
    requires
        n <= fields@.len(),
        n <= 4,
        s <= MAX_SCALE,
        forall|i: int| 0 <= i < fields@.len() ==> (#[trigger] fields@[i])@.len() <= 2,
    ensures
        k == kept_fields(widths(fields@), n as nat, s as int, room as int),
        k <= n,
        n > 0 ==> k > 0,
        k > 1 ==> fields_width(widths(fields@), k as int) + 12 * s * (k - 1) <= room,
    decreases n,
{
    if n <= 1 {
        return n;
    }
    let t: u64 = width_of(fields, n);
    assert(12 * s * (n - 1) <= 36 * s) by (nonlinear_arith)
        requires
            2 <= n <= 4,
            0 <= s,
    ;
    let gaps: u64 = 12 * s as u64 * (n - 1) as u64;
    if t + gaps <= room as u64 {
        return n;
    }
    fields_kept(fields, n - 1, s, room)
}

fn cut_length(cuts: &Vec<u32>, k: usize, room: u32) -> (j: usize)
    requires
        k < cuts@.len(),
    ensures
        j == cut_at(cuts@, k as nat, room as int),
        j <= k,
        j > 0 ==> cuts@[j as int] <= room,
    decreases k,
{
    if k == 0 || cuts[k] <= room {
        return k;
    }
    cut_length(cuts, k - 1, room)
}

fn name_shown(who: &str, m: &Measured, room: u32) -> (r: (String, u32))
    requires
        m.fields@.len() > 0,
        m.fields@[0]@.len() > 0,
        m.cuts@.len() == who@.len() + 1,
    ensures
        (r.0@, r.1) == shown_name(who@, *m, room as int),
        r.1 <= room,
{
    let full: u32 = m.fields[0][0];
    if full <= room {
        return (text::copy(who), full);
    }
    let v = text::chars_of(who);
    let k = cut_length(&m.cuts, v.len(), room);
    if k == 0 {
        let none = String::new();
        assert(none@ =~= seq![]);
        return (none, 0);
    }
    let head = text::slice_of(&v, 0, k);
    assert(head@ =~= who@.take(k as int));
    let mut s = text::string_of(&head);
    s.push_str("...");
    (s, m.cuts[k])
}

impl Layout {
    /// Whether a button has the point.
    pub open spec fn hit(self, i: int, x: u32, y: u32) -> bool {
        self.buttons@[i].rect.holds(x as int, y as int)
    }

    /// Index of the button under a window point, if any.
    pub fn button_at(&self, x: u32, y: u32) -> (r: Option<usize>)
        ensures
            match r {
                Some(i) => i < self.buttons@.len() && self.hit(i as int, x, y) && forall|j: int|
                    0 <= j < i ==> !#[trigger] self.hit(j, x, y),
                None => forall|j: int|
                    0 <= j < self.buttons@.len() ==> !#[trigger] self.hit(j, x, y),
            },
    {
        let mut i: usize = 0;
        while i < self.buttons.len()
            invariant
                i <= self.buttons@.len(),
                forall|j: int| 0 <= j < i ==> !#[trigger] self.hit(j, x, y),
            decreases self.buttons.len() - i,
        {
            let r = self.buttons[i].rect;
            if x >= r.x && x < r.right() && y >= r.y && y < r.bottom() {
                assert(self.hit(i as int, x, y));
                return Some(i);
            }
            assert(!self.hit(i as int, x, y));
            i = i + 1;
        }
        None
    }

    /// Right edge of the text.
    pub fn text_right(&self) -> (r: u32)
        ensures
            r == self.text_end,
    {
        self.text_end
    }
}

/// Where the text of a bar ends: nothing where there is none.
pub open spec fn bar_text_end(width: int, s: int, st: Status, m: Measured) -> int {
    let room = text_room(width, s, m);
    let n = kept_fields(widths(m.fields@), m.fields@.len(), s, room);
    let (fields, w) = shown_fields(st, m, room);
    let (text, next) = placed(13 * s, fields, w, n as int, s);
    if text.len() == 0 {
        0
    } else {
        next - 12 * s
    }
}

proof fn lemma_sum_nonneg(w: Seq<u32>)
    ensures
        sum(w) >= 0,
    decreases w.len(),
{
    if w.len() > 0 {
        lemma_sum_nonneg(w.drop_last());
    }
}

/// The runs of a field take no more room than they are wide together.
proof fn lemma_field_end(x: int, field: Seq<Run>, w: Seq<u32>)
    requires
        w.len() == field.len(),
    ensures
        x <= field_end(x, field, w) <= x + sum(w),
    decreases field.len(),
{
    if field.len() > 0 {
        lemma_field_end(x, field.drop_last(), w.drop_last());
    }
}

/// Every run of a field begins where the field does or after it, and ends
/// where it does or before it.
proof fn lemma_placed_field_range(x: int, field: Seq<Run>, w: Seq<u32>, i: int)
    requires
        w.len() == field.len(),
        0 <= i < placed_field(x, field, w).len(),
    ensures
        x <= placed_field(x, field, w)[i].0 <= field_end(x, field, w),
    decreases field.len(),
{
    if field.len() > 0 {
        let head = placed_field(x, field.drop_last(), w.drop_last());
        lemma_field_end(x, field.drop_last(), w.drop_last());
        if i < head.len() {
            lemma_placed_field_range(x, field.drop_last(), w.drop_last(), i);
        }
    }
}

/// Where the first `n` fields of a bar end: their widths and the gaps between
/// them behind `x`.
proof fn lemma_placed_end(x: int, fields: Seq<Seq<Run>>, w: Seq<Seq<u32>>, n: int, s: int)
    requires
        0 <= n <= fields.len(),
        fields.len() == w.len(),
        0 <= s,
        forall|i: int| 0 <= i < fields.len() ==> (#[trigger] fields[i]).len() == w[i].len(),
    ensures
        x + 12 * s * n <= placed(x, fields, w, n, s).1 <= x + fields_width(w, n) + 12 * s * n,
    decreases n,
{
    if n > 0 {
        lemma_placed_end(x, fields, w, n - 1, s);
        let at = placed(x, fields, w, n - 1, s).1;
        assert(fields[n - 1].len() == w[n - 1].len());
        lemma_field_end(at, fields[n - 1], w[n - 1]);
        assert(12 * s * n == 12 * s * (n - 1) + 12 * s) by (nonlinear_arith);
    } else {
        assert(12 * s * n == 0) by (nonlinear_arith)
            requires
                n == 0,
        ;
    }
}

/// The width of a list of fields whose first is one run.
proof fn lemma_fields_width_first(w: Seq<Seq<u32>>, first: u32, n: int)
    requires
        1 <= n <= w.len(),
        w[0].len() == 1,
    ensures
        fields_width(w.update(0, seq![first]), n) == fields_width(w, n) - w[0][0] + first,
    decreases n,
{
    let v = w.update(0, seq![first]);
    if n == 1 {
        assert(v[0].drop_last() =~= Seq::<u32>::empty());
        assert(w[0].drop_last() =~= Seq::<u32>::empty());
        assert(sum(v[0]) == first) by {
            reveal_with_fuel(sum, 2);
        }
        assert(sum(w[0]) == w[0][0]) by {
            reveal_with_fuel(sum, 2);
        }
        reveal_with_fuel(fields_width, 2);
    } else {
        lemma_fields_width_first(w, first, n - 1);
    }
}

fn place_field(out: &mut Vec<Span>, at: u64, field: Vec<Span>, w: &Vec<u32>) -> (end: u64)
    requires
        field@.len() == w@.len(),
        w@.len() <= 2,
        at + sum(w@) <= u32::MAX,
    ensures
        span_models(final(out)@) == span_models(old(out)@) + placed_field(
            at as int,
            runs(field@),
            w@,
        ),
        end == field_end(at as int, runs(field@), w@),
{
    let ghost before = span_models(out@);
    let ghost all = runs(field@);
    let ghost spans = field@;
    let mut x: u64 = at;
    let mut i: usize = 0;
    assert(before + placed_field(at as int, all.take(0), w@.take(0)) =~= before);
    proof {
        lemma_field_end(at as int, all, w@);
    }
    for sp in it: field
        invariant
            it.seq() == spans,
            i == it.index(),
            all == runs(spans),
            spans.len() == w@.len(),
            w@.len() <= 2,
            at + sum(w@) <= u32::MAX,
            x == field_end(at as int, all.take(i as int), w@.take(i as int)),
            span_models(out@) == before + placed_field(
                at as int,
                all.take(i as int),
                w@.take(i as int),
            ),
    {
        proof {
            assert(all.take(i + 1).drop_last() =~= all.take(i as int));
            assert(w@.take(i + 1).drop_last() =~= w@.take(i as int));
            assert(all.take(i + 1).last() == (sp.text@, sp.colour));
            lemma_field_end(at as int, all.take(i as int), w@.take(i as int));
            lemma_field_end(at as int, all.take(i + 1), w@.take(i + 1));
            lemma_sum_take(w@, i as int);
            lemma_sum_take(w@, i + 1);
        }
        if !sp.text.as_str().is_empty() {
            let ghost now = span_models(out@);
            let ghost head = placed_field(at as int, all.take(i as int), w@.take(i as int));
            let ghost run = (x as int, sp.text@, sp.colour);
            out.push(Span { x: x as u32, text: sp.text, colour: sp.colour });
            assert(span_models(out@) =~= now.push(run));
            assert(before + head.push(run) =~= (before + head).push(run));
            x = x + w[i] as u64;
        }
        i = i + 1;
    }
    assert(all.take(all.len() as int) =~= all);
    assert(w@.take(w@.len() as int) =~= w@);
    x
}

proof fn lemma_sum_take(w: Seq<u32>, k: int)
    requires
        0 <= k <= w.len(),
    ensures
        0 <= sum(w.take(k)) <= sum(w),
    decreases w.len(),
{
    lemma_sum_nonneg(w.take(k));
    if k == w.len() {
        assert(w.take(k) =~= w);
    } else {
        lemma_sum_take(w.drop_last(), k);
        assert(w.drop_last().take(k) =~= w.take(k));
    }
}

proof fn lemma_fields_width_grows(w: Seq<Seq<u32>>, k: int, n: int)
    requires
        0 <= k <= n,
    ensures
        0 <= fields_width(w, k) <= fields_width(w, n),
    decreases n,
{
    if n > 0 {
        lemma_sum_nonneg(w[n - 1]);
        if k < n {
            lemma_fields_width_grows(w, k, n - 1);
        } else {
            lemma_fields_width_grows(w, n - 1, n - 1);
        }
    }
}

fn place_text(st: &Status, m: &Measured, s: u32, room: u32) -> (r: (Vec<Span>, u32))
    requires
        s <= MAX_SCALE,
        m.fits(*st),
        13 * s + room <= u32::MAX,
    ensures
        ({
            let n = kept_fields(widths(m.fields@), m.fields@.len(), s as int, room as int);
            let (fields, w) = shown_fields(*st, *m, room as int);
            let (text, next) = placed(13 * s, fields, w, n as int, s as int);
            &&& span_models(r.0@) == text
            &&& r.1 == if text.len() == 0 {
                0
            } else {
                next - 12 * s
            }
            &&& r.1 <= 13 * s + room
        }),
{
    let mut fields = st.fields();
    let ghost model = field_runs(*st);
    assert forall|i: int| 0 <= i < m.fields@.len() implies (#[trigger] m.fields@[i])@.len() <= 2 by {
        assert(model[i].len() <= 2);
    }
    assert(model.len() <= 4);
    let n = fields_kept(&m.fields, m.fields.len(), s, room);
    let (name, name_width) = name_shown(st.who.as_str(), m, room);
    let ghost shown = name@;
    let first = one(name.as_str(), colour::TEXT);
    let ghost old_fields = fields@;
    fields.set(0, first);
    let mut first_width: Vec<u32> = Vec::new();
    first_width.push(name_width);
    let ghost fr = shown_fields(*st, *m, room as int).0;
    let ghost w = shown_fields(*st, *m, room as int).1;
    proof {
        assert(all_runs(fields@) =~= all_runs(old_fields).update(0, runs(fields@[0]@)));
        assert(all_runs(fields@) =~= fr);
        assert(first_width@ =~= seq![name_width]);
        assert(widths(m.fields@)[0] == m.fields@[0]@);
        lemma_fields_width_first(widths(m.fields@), name_width, n as int);
        if n > 1 {
            lemma_fields_width_grows(widths(m.fields@), 1, n as int);
            assert(fields_width(widths(m.fields@), 1) == m.fields@[0]@[0]) by {
                reveal_with_fuel(fields_width, 2);
                reveal_with_fuel(sum, 2);
                assert(m.fields@[0]@.drop_last() =~= Seq::<u32>::empty());
            }
            assert(12 * s * (n - 1) >= 0) by (nonlinear_arith)
                requires
                    n > 1,
                    s >= 0,
            ;
            assert(name_width == m.fields@[0]@[0]);
        } else {
            assert(fields_width(widths(m.fields@), 1) == m.fields@[0]@[0]) by {
                reveal_with_fuel(fields_width, 2);
                reveal_with_fuel(sum, 2);
                assert(m.fields@[0]@.drop_last() =~= Seq::<u32>::empty());
            }
            assert(12 * s * (n - 1) == 0) by (nonlinear_arith)
                requires
                    n == 1,
            ;
        }
        assert(fields_width(w, n as int) + 12 * s * (n - 1) <= room);
        assert forall|i: int| 0 <= i < fr.len() implies (#[trigger] fr[i]).len() == w[i].len() by {
            if i > 0 {
                assert(w[i] == m.fields@[i]@);
                assert(fr[i] == model[i]);
            }
        }
    }
    let mut spans: Vec<Span> = Vec::new();
    let mut at: u64 = 13 * s as u64;
    let mut i: usize = 0;
    let ghost all_fields = fields@;
    assert(span_models(spans@) =~= seq![]);
    for field in it: fields
        invariant
            it.seq() == all_fields,
            1 <= n <= m.fields@.len() <= 4,
            all_fields.len() == m.fields@.len(),
            fr == all_runs(all_fields),
            fr.len() == w.len(),
            first_width@ == w[0],
            forall|k: int| 0 < k < m.fields@.len() ==> w[k] == (#[trigger] m.fields@[k])@,
            forall|k: int| 0 <= k < fr.len() ==> (#[trigger] fr[k]).len() == w[k].len(),
            forall|k: int| 0 <= k < m.fields@.len() ==> (#[trigger] m.fields@[k])@.len() <= 2,
            w[0].len() == 1,
            s <= MAX_SCALE,
            13 * s + room <= u32::MAX,
            fields_width(w, n as int) + 12 * s * (n - 1) <= room,
            i == if it.index() < n {
                it.index() as int
            } else {
                n as int
            },
            at == placed(13 * s, fr, w, i as int, s as int).1,
            span_models(spans@) == placed(13 * s, fr, w, i as int, s as int).0,
    {
        if i < n {
            proof {
                lemma_placed_end(13 * s, fr, w, i as int, s as int);
                lemma_fields_width_grows(w, i + 1, n as int);
                assert(12 * s * i <= 12 * s * (n - 1)) by (nonlinear_arith)
                    requires
                        i <= n - 1,
                        0 <= s,
                ;
                lemma_sum_nonneg(w[i as int]);
                assert(fr[i as int] == runs(field@));
                assert(fr[i as int].len() == field@.len());
            }
            let end: u64 = if i == 0 {
                place_field(&mut spans, at, field, &first_width)
            } else {
                place_field(&mut spans, at, field, &m.fields[i])
            };
            proof {
                lemma_field_end(at as int, fr[i as int], w[i as int]);
            }
            at = end + 12 * s as u64;
            i = i + 1;
        }
    }
    proof {
        lemma_placed_end(13 * s, fr, w, n as int, s as int);
        assert(12 * s * n == 12 * s * (n - 1) + 12 * s) by (nonlinear_arith);
        assert(12 * s * n >= 12 * s) by (nonlinear_arith)
            requires
                n >= 1,
                0 <= s,
        ;
    }
    if spans.len() == 0 {
        (spans, 0)
    } else {
        let end: u32 = (at - 12 * s as u64) as u32;
        (spans, end)
    }
}

impl Layout {
    /// This is the bar of a window that wide, at a scale, for a status.
    pub open spec fn laid_out(self, width: u32, s: u32, st: Status, m: Measured) -> bool {
        &&& self.bar == (Rect { x: 0, y: 0, width, height: (24 * s) as u32 })
        &&& self.dot == (Rect {
            x: (4 * s) as u32,
            y: (9 * s) as u32,
            width: (6 * s) as u32,
            height: (6 * s) as u32,
        })
        &&& self.dot_colour == if st.stalled is Some {
            colour::WARN
        } else {
            colour::OK
        }
        &&& self.s == s
        &&& self.text_y == 7 * s / 2
        &&& self.buttons@ == bar_buttons(width as int, s as int, m)
        &&& span_models(self.spans@) == bar_text(width as int, s as int, st, m)
        &&& self.text_end == bar_text_end(width as int, s as int, st, m)
    }
}

/// Responsive toolbar: at narrow widths every action keeps an icon button.
/// Identity is retained before optional connection statistics.
pub fn bar_layout(width: u32, s: u32, st: &Status, m: &Measured) -> (l: Layout)
    requires
        s <= MAX_SCALE,
        m.fits(*st),
    ensures
        l.laid_out(width, s, *st, *m),
{
    assert(field_runs(*st)[0].len() == 1);
    assert(m.fields@[0]@.len() == 1);
    let with_labels = 13 * s as u64 + m.fields[0][0] as u64 + 8 * s as u64 + (m.labels[0] as u64
        + 19 * s as u64 + (m.labels[1] as u64 + 19 * s as u64) + (m.labels[2] as u64 + 19
        * s as u64) + (m.labels[3] as u64 + 19 * s as u64)) + 9 * s as u64 <= width as u64;
    let right: u32 = width.saturating_sub(4 * s);
    let buttons = place_buttons(4, right, width, s, m, with_labels);
    let edge: u32 = if buttons.len() > 0 {
        buttons[0].rect.x
    } else {
        width
    };
    let limit: u32 = edge.saturating_sub(4 * s);
    let room: u32 = limit.saturating_sub(13 * s);
    let (spans, text_end) = place_text(st, m, s, room);
    Layout {
        bar: Rect::new(0, 0, width, bar_height(s)),
        dot: Rect::new(4 * s, 9 * s, 6 * s, 6 * s),
        dot_colour: if st.stalled.is_some() {
            colour::WARN
        } else {
            colour::OK
        },
        spans,
        buttons,
        s,
        text_y: 7 * s / 2,
        text_end,
    }
}

// ---------------------------------------------------------------------------
// Laws of the layout
// ---------------------------------------------------------------------------

pub(crate) proof fn lemma_buttons(n: nat, right: int, width: int, s: int, m: Measured)
    requires
        n <= 4,
        0 <= s <= MAX_SCALE,
        0 <= right <= u32::MAX,
    ensures
        ({
            let b = buttons_up_to(n, right, width, s, m);
            &&& b.len() <= n
            &&& forall|i: int|
                0 <= i < b.len() ==> {
                    &&& 4 * s <= (#[trigger] b[i]).rect.x
                    &&& b[i].rect.x + b[i].rect.width <= right
                    &&& b[i].rect.y == 3 * s
                    &&& b[i].rect.height == 18 * s
                    &&& b[i].action == action_of(n - b.len() + i)
                }
            &&& forall|i: int, j: int|
                0 <= i < j < b.len() ==> (#[trigger] b[i]).rect.x + b[i].rect.width + 3 * s <= (
                #[trigger] b[j]).rect.x
        }),
    decreases n,
{
    if n > 0 {
        let w = button_width(width, s, m, n - 1);
        if right >= w + 4 * s {
            lemma_buttons((n - 1) as nat, floor_zero(right - (w + 3 * s)), width, s, m);
        }
    }
}

/// At any width and scale the text ends left of the first button and of the
/// right margin, the buttons do not overlap, and the last one ends inside the
/// bar: whatever the texts measure, so long as a text that is not empty is not
/// of no width.
pub proof fn law_text_and_buttons_never_overlap(width: u32, s: u32, st: Status, m: Measured)
    requires
        1 <= s <= MAX_SCALE,
        m.fits(st),
        st.who@.len() > 0 ==> m.fields@[0]@[0] > 0,
        forall|k: int| 0 < k < m.cuts@.len() ==> m.cuts@[k] > 0,
    ensures
        ({
            let b = bar_buttons(width as int, s as int, m);
            let end = bar_text_end(width as int, s as int, st, m);
            &&& end + 4 * s <= proto::max_of(width as int, 4 * s)
            &&& b.len() > 0 ==> end <= b[0].rect.x && b.last().rect.x + b.last().rect.width <= width
            &&& forall|i: int, j: int|
                0 <= i < j < b.len() ==> (#[trigger] b[i]).rect.x + b[i].rect.width <= (
                #[trigger] b[j]).rect.x
        }),
{
    let b = bar_buttons(width as int, s as int, m);
    lemma_buttons(4, floor_zero(width - 4 * s), width as int, s as int, m);
    let room = text_room(width as int, s as int, m);
    if room > 0 {
        lemma_text_end(width as int, s as int, st, m, room);
    } else {
        let w = widths(m.fields@);
        let n = kept_fields(w, m.fields@.len(), s as int, room);
        assert(field_runs(st)[0].len() == 1);
        assert(m.fields@[0]@.len() == 1);
        lemma_kept(w, m.fields@.len(), s as int, room);
        assert(n == 1) by {
            if n > 1 {
                lemma_fields_width_grows(w, 0, n as int);
                assert(12 * s * (n - 1) > 0) by (nonlinear_arith)
                    requires
                        n > 1,
                        s >= 1,
                ;
            }
        }
        let (name, first) = shown_name(st.who@, m, room);
        lemma_cut(m.cuts@, st.who@.len(), room);
        assert(name.len() == 0);
        let (fields, shown) = shown_fields(st, m, room);
        assert(fields[0].drop_last() =~= Seq::<Run>::empty());
        assert(shown[0].drop_last() =~= Seq::<u32>::empty());
        reveal_with_fuel(placed, 2);
        reveal_with_fuel(placed_field, 2);
        assert(placed(13 * s, fields, shown, 1, s as int).0 =~= Seq::<Placed>::empty());
    }
}

proof fn lemma_text_end(width: int, s: int, st: Status, m: Measured, room: int)
    requires
        0 <= s <= MAX_SCALE,
        0 <= width <= u32::MAX,
        m.fits(st),
        room == text_room(width, s, m),
    ensures
        bar_text_end(width, s, st, m) <= 13 * s + room,
{
    let n = kept_fields(widths(m.fields@), m.fields@.len(), s, room);
    let (fields, w) = shown_fields(st, m, room);
    lemma_kept(widths(m.fields@), m.fields@.len(), s, room);
    assert(field_runs(st)[0].len() == 1);
    assert(m.fields@[0]@.len() == 1);
    assert(widths(m.fields@)[0] == m.fields@[0]@);
    let (name, first) = shown_name(st.who@, m, room);
    lemma_cut(m.cuts@, st.who@.len(), room);
    assert(first <= room);
    lemma_fields_width_first(widths(m.fields@), first, n as int);
    assert(fields_width(widths(m.fields@), 1) == m.fields@[0]@[0]) by {
        reveal_with_fuel(fields_width, 2);
        reveal_with_fuel(sum, 2);
        assert(m.fields@[0]@.drop_last() =~= Seq::<u32>::empty());
    }
    lemma_fields_width_grows(widths(m.fields@), 1, n as int);
    assert(12 * s * (n - 1) >= 0) by (nonlinear_arith)
        requires
            n >= 1,
            s >= 0,
    ;
    assert(n == 1 ==> 12 * s * (n - 1) == 0) by (nonlinear_arith);
    assert forall|i: int| 0 <= i < fields.len() implies (#[trigger] fields[i]).len() == w[i].len() by {
        if i > 0 {
            assert(w[i] == m.fields@[i]@);
        }
    }
    lemma_placed_end(13 * s, fields, w, n as int, s);
    assert(12 * s * n == 12 * s * (n - 1) + 12 * s) by (nonlinear_arith);
}

proof fn lemma_kept(w: Seq<Seq<u32>>, n: nat, s: int, room: int)
    requires
        n >= 1,
    ensures
        1 <= kept_fields(w, n, s, room) <= n,
        kept_fields(w, n, s, room) > 1 ==> fields_width(w, kept_fields(w, n, s, room) as int) + 12
            * s * (kept_fields(w, n, s, room) - 1) <= room,
    decreases n,
{
    if n > 1 && fields_width(w, n as int) + 12 * s * (n - 1) > room {
        lemma_kept(w, (n - 1) as nat, s, room);
    }
}

proof fn lemma_cut(cuts: Seq<u32>, k: nat, room: int)
    ensures
        cut_at(cuts, k, room) <= k,
        cut_at(cuts, k, room) > 0 ==> cuts[cut_at(cuts, k, room) as int] <= room,
    decreases k,
{
    if k > 0 && cuts[k as int] > room {
        lemma_cut(cuts, (k - 1) as nat, room);
    }
}

/// A window wide enough for four icons keeps all four actions, in their order.
pub proof fn law_narrow_windows_keep_every_action(width: u32, s: u32, st: Status, m: Measured)
    requires
        1 <= s <= MAX_SCALE,
        m.fits(st),
        width >= 105 * s,
    ensures
        ({
            let b = bar_buttons(width as int, s as int, m);
            &&& b.len() == 4
            &&& b[0].action == Action::Transfers
            &&& b[1].action == Action::Fullscreen
            &&& b[2].action == Action::SecureAttention
            &&& b[3].action == Action::Disconnect
            &&& forall|i: int| 0 <= i < 4 ==> !(#[trigger] b[i]).shortcut_shown
            &&& b[3].colour == colour::DANGER
        }),
{
    reveal_with_fuel(buttons_up_to, 5);
    assert(field_runs(st)[0].len() == 1);
    assert(m.fields@[0]@.len() == 1);
}

// ---------------------------------------------------------------------------
// State
// ---------------------------------------------------------------------------

/// Show/hide state and pointer bookkeeping for one session window.
pub struct Overlay {
    pub visible: bool,
    pub pinned: bool,
    pub focused: bool,
    /// The pointer is on the bar itself, which holds it up with no delay -- a
    /// bar that hid out from under the pointer aiming at its buttons would be
    /// unusable.
    pub on_bar: bool,
    /// Native fullscreen chrome is outside the view's mouse tracking area. It
    /// reveals the bar without claiming a pointer event or arming a button.
    pub native_hover: bool,
    /// Physical pixels covered by a revealed native title bar.
    pub top_inset: u32,
    /// When the pointer entered the hot zone, or `None` when it is outside.
    pub in_zone_since: Option<u64>,
    /// Whether the pointer was holding the bar up at the last tick, so that
    /// the grace period is armed by the pointer *leaving* and by nothing else.
    pub was_pointed: bool,
    pub hide_at: Option<u64>,
    pub flash_until: Option<u64>,
    pub hover: Option<usize>,
    pub armed: Option<usize>,
    /// The layout drawn last frame, used for hit testing.
    pub layout: Option<Layout>,
    /// The area painted last frame, so the area a hidden bar used to cover is
    /// still presented once more.
    pub painted: Option<Rect>,
}

/// The button of a layout under a point, counted from its top.
pub open spec fn under(layout: Option<Layout>, x: u32, y: u32, hover: Option<usize>) -> bool {
    match layout {
        None => hover is None,
        Some(l) => match hover {
            Some(i) => i < l.buttons@.len() && l.hit(i as int, x, y) && forall|j: int|
                0 <= j < i ==> !#[trigger] l.hit(j, x, y),
            None => forall|j: int| 0 <= j < l.buttons@.len() ==> !#[trigger] l.hit(j, x, y),
        },
    }
}

impl Overlay {
    /// The bar of a session that has just begun.
    pub open spec fn opening(now: u64) -> Overlay {
        Overlay {
            visible: false,
            pinned: false,
            focused: false,
            on_bar: false,
            native_hover: false,
            top_inset: 0,
            in_zone_since: None,
            was_pointed: false,
            hide_at: None,
            flash_until: Some(time::later(now, FLASH)),
            hover: None,
            armed: None,
            layout: None,
            painted: None,
        }
    }

    /// A hidden bar that shows itself once, so a new session's user sees it.
    pub fn new(now: u64) -> (o: Overlay)
        ensures
            o == Overlay::opening(now),
    {
        Overlay {
            visible: false,
            pinned: false,
            focused: false,
            on_bar: false,
            native_hover: false,
            top_inset: 0,
            in_zone_since: None,
            was_pointed: false,
            hide_at: None,
            flash_until: Some(time::after(now, FLASH)),
            hover: None,
            armed: None,
            layout: None,
            painted: None,
        }
    }

    /// Whether the bar is on screen.
    pub fn visible(&self) -> (r: bool)
        ensures
            r == self.visible,
    {
        self.visible
    }

    /// Whether the bar is pinned open.
    pub fn pinned(&self) -> (r: bool)
        ensures
            r == self.pinned,
    {
        self.pinned
    }

    /// Pin or unpin. Per-window and not persisted: a pin is an intent about
    /// this window right now.
    pub fn toggle_pin(&mut self) -> (r: bool)
        ensures
            *final(self) == (Overlay { pinned: !old(self).pinned, ..*old(self) }),
            r == final(self).pinned,
    {
        self.pinned = !self.pinned;
        self.pinned
    }

    /// Show the bar for [`FLASH`] regardless of the pointer.
    pub fn flash(&mut self, now: u64)
        ensures
            *final(self) == (Overlay {
                flash_until: Some(time::later(now, FLASH)),
                ..*old(self)
            }),
    {
        self.flash_until = Some(time::after(now, FLASH));
    }

    /// Follow native fullscreen chrome. Returns whether the bar moved.
    ///
    /// A title bar that retracts as the pointer moves down onto ours leaves
    /// our buttons where they are while the user is reaching for them.
    pub fn set_native_chrome(&mut self, hovered: bool, top_inset: u32) -> (moved: bool)
        ensures
            moved == !(old(self).top_inset == top_inset || (top_inset < old(self).top_inset && old(
                self,
            ).on_bar)),
            *final(self) == if moved {
                Overlay {
                    native_hover: hovered,
                    top_inset,
                    on_bar: false,
                    in_zone_since: None,
                    hover: None,
                    armed: None,
                    ..*old(self)
                }
            } else {
                Overlay { native_hover: hovered, ..*old(self) }
            },
    {
        self.native_hover = hovered;
        if self.top_inset == top_inset || (top_inset < self.top_inset && self.on_bar) {
            return false;
        }
        self.top_inset = top_inset;
        self.on_bar = false;
        self.in_zone_since = None;
        self.hover = None;
        self.armed = None;
        true
    }

    /// The absolute presentation rectangle, including native title-bar space.
    pub open spec fn area(self, width: u32, height: u32, s: u32) -> Option<Rect> {
        if self.visible && width > 0 && self.top_inset < height {
            Some(Rect { x: 0, y: self.top_inset, width, height: (24 * s) as u32 })
        } else {
            None
        }
    }

    /// The absolute presentation rectangle, including native title-bar space.
    pub fn bounds(&self, width: u32, height: u32, s: u32) -> (r: Option<Rect>)
        requires
            s <= MAX_SCALE,
        ensures
            r == self.area(width, height, s),
    {
        if self.visible && width > 0 && self.top_inset < height {
            Some(Rect::new(0, self.top_inset, width, bar_height(s)))
        } else {
            None
        }
    }

    /// The state once the focus is this.
    pub open spec fn focused_as(self, focused: bool) -> Overlay {
        if focused == self.focused {
            self
        } else {
            Overlay {
                focused,
                on_bar: false,
                native_hover: false,
                in_zone_since: None,
                hover: None,
                armed: None,
                ..self
            }
        }
    }

    /// Window focus changed.
    ///
    /// Either direction throws the pointer state away, the dwell included.
    /// What the pointer was doing over an unfocused window was not a request
    /// for this bar, so the clock starts when the window is the user's again.
    pub fn set_focused(&mut self, focused: bool)
        ensures
            *final(self) == old(self).focused_as(focused),
    {
        if focused == self.focused {
            return;
        }
        self.focused = focused;
        self.on_bar = false;
        self.native_hover = false;
        self.in_zone_since = None;
        self.hover = None;
        self.armed = None;
    }

    /// The pointer left the window.
    pub fn pointer_left(&mut self)
        ensures
            *final(self) == (Overlay {
                on_bar: false,
                in_zone_since: None,
                hover: None,
                ..*old(self)
            }),
    {
        self.on_bar = false;
        self.in_zone_since = None;
        self.hover = None;
    }

    /// The session has taken the pointer -- a button is down on the remote
    /// screen.
    ///
    /// This cancels a dwell in progress: clicking a panel at the top of the
    /// remote desktop, or dragging a window up there, must not raise the bar
    /// over the thing being clicked.
    pub fn pointer_taken(&mut self)
        ensures
            *final(self) == (Overlay {
                on_bar: false,
                native_hover: false,
                in_zone_since: None,
                ..*old(self)
            }),
    {
        self.on_bar = false;
        self.native_hover = false;
        self.in_zone_since = None;
    }

    /// Whether a point is on the bar.
    pub open spec fn over_bar(self, y: u32, s: u32) -> bool {
        self.visible && self.top_inset <= y && y - self.top_inset < 24 * s
    }

    /// Whether a point is in the strip that brings the bar up.
    pub open spec fn over_strip(self, y: u32, s: u32) -> bool {
        self.top_inset <= y && y - self.top_inset < 4 * s
    }

    /// `after` is the state once the pointer was at that place.
    #[verifier::opaque]
    pub open spec fn followed(self, after: Overlay, x: u32, y: u32, s: u32, now: u64) -> bool {
        let claimed = self.over_bar(y, s);
        &&& after == (Overlay {
            on_bar: claimed,
            in_zone_since: if claimed || self.over_strip(y, s) {
                match self.in_zone_since {
                    Some(at) => Some(at),
                    None => Some(now),
                }
            } else {
                None
            },
            hover: after.hover,
            ..self
        })
        &&& if claimed {
            under(self.layout, x, (y - self.top_inset) as u32, after.hover)
        } else {
            after.hover is None
        }
    }

    /// Note the pointer position. Returns true when it is over the bar, in
    /// which case the caller must not forward the event to the session.
    ///
    /// Re-entering the strip restarts the dwell; staying does not, so the
    /// timer survives movement along it.
    pub fn track(&mut self, x: u32, y: u32, s: u32, now: u64) -> (claimed: bool)
        requires
            s <= MAX_SCALE,
        ensures
            claimed == old(self).over_bar(y, s),
            old(self).followed(*final(self), x, y, s, now),
    {
        reveal(Overlay::followed);
        let below = y >= self.top_inset;
        let depth: u32 = if below {
            y - self.top_inset
        } else {
            0
        };
        self.on_bar = self.visible && below && depth < bar_height(s);
        if self.on_bar || (below && depth < hot_zone_height(s)) {
            if self.in_zone_since.is_none() {
                self.in_zone_since = Some(now);
            }
        } else {
            self.in_zone_since = None;
        }
        self.hover = if self.on_bar {
            match &self.layout {
                Some(l) => l.button_at(x, depth),
                None => None,
            }
        } else {
            None
        };
        self.on_bar
    }

    /// Whether a dwell is running that has not yet raised the bar, so the
    /// caller knows to keep waking up finely enough to honour it.
    pub fn revealing(&self) -> (r: bool)
        ensures
            r == (!self.visible && self.focused && self.in_zone_since is Some),
    {
        !self.visible && self.focused && self.in_zone_since.is_some()
    }

    /// A press landed on the bar.
    pub fn press(&mut self)
        ensures
            *final(self) == (Overlay { armed: old(self).hover, ..*old(self) }),
    {
        self.armed = self.hover;
    }

    /// The action of the button that a release completes a press of, if any.
    pub open spec fn completed(self) -> Option<Action> {
        match (self.armed, self.hover, self.layout) {
            (Some(a), Some(h), Some(l)) => if a == h && a < l.buttons@.len() {
                Some(l.buttons@[a as int].action)
            } else {
                None
            },
            _ => None,
        }
    }

    /// A release landed on the bar; returns the action when it completed a
    /// press and release inside the same button.
    pub fn release(&mut self) -> (r: Option<Action>)
        ensures
            *final(self) == (Overlay { armed: None, ..*old(self) }),
            r == old(self).completed(),
    {
        let armed: usize = match self.armed.take() {
            Some(a) => a,
            None => {
                return None;
            },
        };
        match self.hover {
            Some(h) => {
                if h != armed {
                    return None;
                }
            },
            None => {
                return None;
            },
        }
        match &self.layout {
            Some(l) => if armed < l.buttons.len() {
                Some(l.buttons[armed].action)
            } else {
                None
            },
            None => None,
        }
    }

    /// Whether the opening or a later flash is still on.
    pub open spec fn flashing(self, now: u64) -> bool {
        self.flash_until matches Some(t) && now < t
    }

    /// Whether the pointer holds the bar up: at once where it is on it or on
    /// native chrome, and after the dwell where it is in the hot zone.
    pub open spec fn pointed(self, now: u64) -> bool {
        self.focused && (self.native_hover || self.on_bar || (self.in_zone_since matches Some(t)
            && time::since(now, t) >= REVEAL_DELAY))
    }

    /// When the grace period of the pointer ends, if it runs.
    pub open spec fn grace(self, now: u64) -> Option<u64> {
        if self.pointed(now) {
            None
        } else if self.was_pointed {
            Some(time::later(now, HIDE_DELAY))
        } else {
            self.hide_at
        }
    }

    /// Whether the bar should be up.
    pub open spec fn wanted(self, now: u64) -> bool {
        self.pinned || self.flashing(now) || self.pointed(now) || (self.visible && (self.grace(
            now,
        ) matches Some(t) && now < t))
    }

    /// The state after a tick. A bar that hides forgets what it pointed at.
    pub open spec fn ticked(self, now: u64) -> Overlay {
        let want = self.wanted(now);
        let hides = self.visible && !want;
        Overlay {
            flash_until: if self.flashing(now) {
                self.flash_until
            } else {
                None
            },
            was_pointed: self.pointed(now),
            hide_at: if want {
                self.grace(now)
            } else {
                None
            },
            visible: want,
            hover: if hides {
                None
            } else {
                self.hover
            },
            armed: if hides {
                None
            } else {
                self.armed
            },
            ..self
        }
    }

    /// Advance the show/hide state machine. Returns true when visibility
    /// changed, which the caller turns into a full redraw so the pixels the
    /// bar covered are repainted.
    ///
    /// The grace period is armed by the pointer leaving and by nothing else:
    /// it exists so that crossing the bar's own bottom edge does not make it
    /// flicker. An expiring flash or an unpin hides the bar at once.
    pub fn tick(&mut self, now: u64) -> (changed: bool)
        ensures
            changed == (old(self).wanted(now) != old(self).visible),
            *final(self) == old(self).ticked(now),
    {
        let over = match self.flash_until {
            Some(t) => now >= t,
            None => false,
        };
        if over {
            self.flash_until = None;
        }
        let dwelt = match self.in_zone_since {
            Some(t) => time::elapsed(now, t) >= REVEAL_DELAY,
            None => false,
        };
        let pointed = self.focused && (self.native_hover || self.on_bar || dwelt);
        if pointed {
            self.hide_at = None;
        } else if self.was_pointed {
            self.hide_at = Some(time::after(now, HIDE_DELAY));
        }
        self.was_pointed = pointed;
        let in_grace = match self.hide_at {
            Some(t) => now < t,
            None => false,
        };
        let want = self.pinned || self.flash_until.is_some() || pointed || (self.visible
            && in_grace);
        if !want {
            self.hide_at = None;
        }
        if want == self.visible {
            return false;
        }
        self.visible = want;
        if !want {
            self.hover = None;
            self.armed = None;
        }
        true
    }

    /// `after` is the state once the bar was laid out for a frame.
    pub open spec fn drawn(
        self,
        after: Overlay,
        dst_w: u32,
        dst_h: u32,
        s: u32,
        status: Status,
        m: Measured,
    ) -> bool {
        let area = self.area(dst_w, dst_h, s);
        &&& after == (Overlay { layout: after.layout, painted: area, ..self })
        &&& match after.layout {
            Some(l) => area is Some && l.laid_out(dst_w, s, status, m),
            None => area is None,
        }
    }

    /// Lay the bar out for a frame, if it is showing.
    ///
    /// Returns the rectangles that must be presented: what is drawn now and
    /// what was drawn last frame. The second is what makes a hidden bar
    /// actually disappear: nothing would present those pixels without naming
    /// the region.
    pub fn draw(&mut self, dst_w: u32, dst_h: u32, s: u32, status: &Status, m: &Measured) -> (r: (
        Option<Rect>,
        Option<Rect>,
    ))
        requires
            s <= MAX_SCALE,
            m.fits(*status),
        ensures
            r == (old(self).area(dst_w, dst_h, s), old(self).painted),
            old(self).drawn(*final(self), dst_w, dst_h, s, *status, *m),
    {
        let was = self.painted.take();
        match self.bounds(dst_w, dst_h, s) {
            None => {
                self.layout = None;
                (None, was)
            },
            Some(bar) => {
                self.layout = Some(bar_layout(dst_w, s, status, m));
                self.painted = Some(bar);
                (Some(bar), was)
            },
        }
    }
}

// ---------------------------------------------------------------------------
// Laws of the state
// ---------------------------------------------------------------------------

/// A pinned bar never hides.
pub proof fn law_pinned_never_hides(o: Overlay, now: u64)
    requires
        o.pinned,
    ensures
        o.wanted(now),
{
}

/// An unfocused window is not raised by the pointer: without a pin or a flash
/// a hidden bar stays hidden.
pub proof fn law_unfocused_window_does_not_raise_the_bar(o: Overlay, now: u64)
    requires
        !o.focused,
        !o.pinned,
        !o.flashing(now),
        !o.visible,
    ensures
        !o.wanted(now),
{
}

/// Passing through the strip does not raise the bar: a dwell shorter than the
/// delay leaves a hidden bar hidden, however the pointer moved along it.
pub proof fn law_short_dwell_does_not_raise_the_bar(o: Overlay, now: u64)
    requires
        !o.pinned,
        !o.flashing(now),
        !o.visible,
        !o.native_hover,
        !o.on_bar,
        o.in_zone_since matches Some(t) ==> time::since(now, t) < REVEAL_DELAY,
    ensures
        !o.wanted(now),
{
}

/// The pointer is only claimed while the bar is showing.
pub proof fn law_hidden_bar_claims_nothing(o: Overlay, y: u32, s: u32)
    requires
        !o.visible,
    ensures
        !o.over_bar(y, s),
{
}

/// A bar that has just been left by the pointer stays up for the grace period
/// and, unless something else holds it, is gone once that is over.
pub proof fn law_grace_period(o: Overlay, now: u64, later: u64)
    requires
        o.visible,
        o.was_pointed,
        !o.pinned,
        now + HIDE_DELAY <= u64::MAX,
        now <= later,
        !o.pointed(now),
        !o.flashing(now),
    ensures
        o.wanted(now),
        ({
            let next = Overlay {
                flash_until: None,
                was_pointed: false,
                hide_at: o.grace(now),
                ..o
            };
            !next.pointed(later) ==> (next.wanted(later) <==> later < now + HIDE_DELAY)
        }),
{
}

// ---------------------------------------------------------------------------
// Laws of what the bar says and where
// ---------------------------------------------------------------------------

/// The bar says who is where, how large the screen is, how far away the server
/// is or for how long it has been silent, and how far the uploads are.
pub proof fn law_bar_says(st: Status)
    ensures
        ({
            let f = field_runs(st);
            &&& f.len() == if st.uploads is Some {
                4int
            } else {
                3
            }
            &&& f[0] == seq![(st.who@, colour::TEXT)]
            &&& f[1] == seq![
                (
                    text::decimal(st.width as nat) + seq!['x'] + text::decimal(st.height as nat),
                    colour::DIM,
                ),
            ]
            &&& st.stalled matches Some(d) ==> f[2] == seq![
                ("stalled "@ + text::decimal((d / 1_000_000_000) as nat) + " s"@, colour::WARN),
            ]
            &&& st.stalled is None && st.rtt is None ==> f[2] == seq![
                ("rtt "@, colour::DIM),
                ("--"@, colour::TEXT),
            ]
            &&& st.stalled is None ==> (st.rtt matches Some(ms) ==> f[2] == seq![
                ("rtt "@, colour::DIM),
                (text::decimal(ms as nat) + " ms"@, colour::TEXT),
            ])
            &&& st.uploads matches Some((n, p)) ==> f[3][0] == ("up "@, colour::DIM) && f[3].len()
                == 2
            &&& st.uploads matches Some((n, p)) ==> (n == 1 ==> f[3][1].0 == text::decimal(1)
                + " file "@ + text::decimal(p as nat) + "%"@)
            &&& st.uploads matches Some((n, p)) ==> (n != 1 ==> f[3][1].0 == text::decimal(n as nat)
                + " files "@ + text::decimal(p as nat) + "%"@)
        }),
{
}

/// The four buttons say what they do, and only the one that ends the session is
/// in the colour of danger.
pub proof fn law_buttons_say()
    ensures
        action_of(0) == Action::Transfers,
        action_of(1) == Action::Fullscreen,
        action_of(2) == Action::SecureAttention,
        action_of(3) == Action::Disconnect,
        Action::Transfers.label_text() == "Transfers",
        Action::Fullscreen.label_text() == "Fullscreen",
        Action::SecureAttention.label_text() == "Ctrl+Alt+Del",
        Action::Disconnect.label_text() == "Disconnect",
        Action::Transfers.shortcut_text() == "C-A-T",
        Action::Fullscreen.shortcut_text() == "C-A-Enter",
        Action::SecureAttention.shortcut_text() == "C-A-End",
        Action::Disconnect.shortcut_text() == "C-A-Q",
        Action::Transfers.colour_word() == colour::TEXT,
        Action::Fullscreen.colour_word() == colour::TEXT,
        Action::SecureAttention.colour_word() == colour::TEXT,
        Action::Disconnect.colour_word() == colour::DANGER,
{
}

/// Where all four buttons fit they stand side by side at the right end of the
/// bar: the last of them four steps from the edge, three steps between each two,
/// each as wide as its label and nineteen steps where there is room for that and
/// the name, and twenty-two steps where not, and all in the same rows.
pub proof fn law_buttons_stand_at_the_right(width: u32, s: u32, m: Measured)
    requires
        s <= MAX_SCALE,
        m.labels@.len() == 4,
        bar_buttons(width as int, s as int, m).len() == 4,
    ensures
        ({
            let b = bar_buttons(width as int, s as int, m);
            let wide = 30 * s + m.fields@[0]@[0] + m.labels@[0] + m.labels@[1] + m.labels@[2]
                + m.labels@[3] + 76 * s <= width;
            &&& b[3].rect.x + b[3].rect.width == width - 4 * s
            &&& b[2].rect.x + b[2].rect.width + 3 * s == b[3].rect.x
            &&& b[1].rect.x + b[1].rect.width + 3 * s == b[2].rect.x
            &&& b[0].rect.x + b[0].rect.width + 3 * s == b[1].rect.x
            &&& forall|i: int|
                0 <= i < 4 ==> (#[trigger] b[i]).rect.width == if wide {
                    m.labels@[i] + 19 * s
                } else {
                    22 * s
                }
            &&& forall|i: int|
                0 <= i < 4 ==> (#[trigger] b[i]).rect.y == 3 * s && b[i].rect.height == 18 * s
                    && b[i].action == action_of(i) && b[i].label == action_of(i).label_text()
                    && b[i].colour == action_of(i).colour_word()
        }),
{
    reveal_with_fuel(buttons_up_to, 5);
    let w = width as int;
    let k = s as int;
    let r3 = floor_zero(w - 4 * k);
    let w3 = button_width(w, k, m, 3);
    let r2 = floor_zero(r3 - (w3 + 3 * k));
    let w2 = button_width(w, k, m, 2);
    let r1 = floor_zero(r2 - (w2 + 3 * k));
    let w1 = button_width(w, k, m, 1);
    let r0 = floor_zero(r1 - (w1 + 3 * k));
    let w0 = button_width(w, k, m, 0);
    let b = bar_buttons(w, k, m);
    let b3 = buttons_up_to(3, r2, w, k, m);
    let b2 = buttons_up_to(2, r1, w, k, m);
    let b1 = buttons_up_to(1, r0, w, k, m);
    lemma_buttons(3, r2, w, k, m);
    lemma_buttons(2, r1, w, k, m);
    lemma_buttons(1, r0, w, k, m);
    assert(b == b3.push(button(3, r3, w3, k)));
    assert(b3 == b2.push(button(2, r2, w2, k)));
    assert(b2 == b1.push(button(1, r1, w1, k)));
    assert(b1 =~= seq![button(0, r0, w0, k)]);
    assert(b[3] == button(3, r3, w3, k));
    assert(b[2] == button(2, r2, w2, k));
    assert(b[1] == button(1, r1, w1, k));
    assert(b[0] == button(0, r0, w0, k));
}

proof fn lemma_kept_fits(w: Seq<Seq<u32>>, n: nat, s: int, room: int, k: int)
    requires
        1 < k <= n,
        fields_width(w, k) + 12 * s * (k - 1) <= room,
    ensures
        kept_fields(w, n, s, room) >= k,
    decreases n,
{
    if n > k && !(fields_width(w, n as int) + 12 * s * (n - 1) <= room) {
        lemma_kept_fits(w, (n - 1) as nat, s, room, k);
    }
}

proof fn lemma_kept_some(w: Seq<Seq<u32>>, n: nat, s: int, room: int)
    ensures
        kept_fields(w, n, s, room) <= n,
        n >= 1 ==> kept_fields(w, n, s, room) >= 1,
    decreases n,
{
    if n > 1 && !(fields_width(w, n as int) + 12 * s * (n - 1) <= room) {
        lemma_kept_some(w, (n - 1) as nat, s, room);
    }
}

proof fn lemma_placed_goes_on(
    x: int,
    fields: Seq<Seq<Run>>,
    w: Seq<Seq<u32>>,
    k: int,
    n: int,
    s: int,
)
    requires
        0 <= k <= n,
    ensures
        placed(x, fields, w, k, s).0.len() <= placed(x, fields, w, n, s).0.len(),
        forall|i: int|
            0 <= i < placed(x, fields, w, k, s).0.len() ==> #[trigger] placed(
                x,
                fields,
                w,
                n,
                s,
            ).0[i] == placed(x, fields, w, k, s).0[i],
    decreases n - k,
{
    if k < n {
        lemma_placed_goes_on(x, fields, w, k, n - 1, s);
    }
}

/// The status is written from the left: the name thirteen steps from the edge,
/// whole where there is room for it; the size of the screen twelve steps behind
/// it, where there is room for both. The room ends four steps before the first
/// button.
pub proof fn law_status_is_written_from_the_left(width: u32, s: u32, st: Status, m: Measured)
    requires
        s <= MAX_SCALE,
        m.fits(st),
        st.who@.len() > 0,
    ensures
        ({
            let b = bar_buttons(width as int, s as int, m);
            let end = if b.len() > 0 {
                b[0].rect.x as int
            } else {
                width as int
            };
            let text = bar_text(width as int, s as int, st, m);
            let name = m.fields@[0]@[0] as int;
            let size = m.fields@[1]@[0] as int;
            &&& 13 * s + name + 4 * s <= end ==> text.len() >= 1 && text[0] == (
                13 * s as int,
                st.who@,
                colour::TEXT,
            )
            &&& 13 * s + name + 12 * s + size + 4 * s <= end ==> text.len() >= 2 && text[1] == (
                13 * s + name + 12 * s,
                text::decimal(st.width as nat) + seq!['x'] + text::decimal(st.height as nat),
                colour::DIM,
            )
        }),
{
    let k = s as int;
    let w = widths(m.fields@);
    let room = text_room(width as int, k, m);
    let n = kept_fields(w, m.fields@.len(), k, room);
    let (fields, ws) = shown_fields(st, m, room);
    let f = field_runs(st);
    assert(f[0].len() == 1 && f[1].len() == 1);
    assert(m.fields@[0]@.len() == 1 && m.fields@[1]@.len() == 1);
    lemma_kept_some(w, m.fields@.len(), k, room);
    let name = m.fields@[0]@[0] as int;
    let size = m.fields@[1]@[0] as int;
    let x = 13 * k;
    if name <= room {
        assert(fields[0] =~= seq![(st.who@, colour::TEXT)]);
        assert(ws[0] =~= seq![m.fields@[0]@[0]]);
        lemma_one_run(x, st.who@, colour::TEXT, m.fields@[0]@[0]);
        reveal_with_fuel(placed, 3);
        let one = placed(x, fields, ws, 1, k);
        assert(one.0 =~= seq![(x, st.who@, colour::TEXT)]);
        assert(one.1 == x + name + 12 * k);
        lemma_placed_goes_on(x, fields, ws, 1, n as int, k);
        assert(placed(x, fields, ws, n as int, k).0[0] == one.0[0]);
        if name + 12 * k + size <= room {
            reveal_with_fuel(fields_width, 3);
            assert(w[0] == m.fields@[0]@ && w[1] == m.fields@[1]@);
            reveal_with_fuel(sum, 2);
            assert(m.fields@[0]@.drop_last() =~= Seq::<u32>::empty());
            assert(m.fields@[1]@.drop_last() =~= Seq::<u32>::empty());
            assert(fields_width(w, 2) == name + size);
            lemma_kept_fits(w, m.fields@.len(), k, room, 2);
            let shown = text::decimal(st.width as nat) + seq!['x'] + text::decimal(
                st.height as nat,
            );
            assert(fields[1] =~= seq![(shown, colour::DIM)]);
            assert(ws[1] =~= seq![m.fields@[1]@[0]]);
            lemma_one_run(one.1, shown, colour::DIM, m.fields@[1]@[0]);
            let two = placed(x, fields, ws, 2, k);
            assert(shown.len() > 0);
            assert(two.0 =~= one.0 + seq![(one.1, shown, colour::DIM)]);
            lemma_placed_goes_on(x, fields, ws, 2, n as int, k);
            assert(placed(x, fields, ws, n as int, k).0[1] == two.0[1]);
        }
    }
}

proof fn lemma_one_run(x: int, t: Seq<char>, c: u32, w: u32)
    requires
        t.len() > 0,
    ensures
        placed_field(x, seq![(t, c)], seq![w]) == seq![(x, t, c)],
        field_end(x, seq![(t, c)], seq![w]) == x + w,
{
    let f = seq![(t, c)];
    let v = seq![w];
    assert(f.drop_last() =~= Seq::<Run>::empty());
    assert(v.drop_last() =~= Seq::<u32>::empty());
    reveal_with_fuel(placed_field, 2);
    reveal_with_fuel(field_end, 2);
    assert(placed_field(x, f, v) =~= seq![(x, t, c)]);
}

/// A name that does not fit is cut to the longest beginning that does with three
/// dots behind it, and left out where not even one character does.
pub proof fn law_long_name_is_cut(who: Seq<char>, m: Measured, room: int, k: int)
    requires
        m.cuts@.len() == who.len() + 1,
        m.fields@[0]@[0] > room,
        0 < k <= who.len(),
    ensures
        m.cuts@[k] <= room && (forall|j: int| k < j <= who.len() ==> m.cuts@[j] > room)
            ==> shown_name(who, m, room) == (who.take(k) + "..."@, m.cuts@[k]),
        (forall|j: int| 0 < j <= who.len() ==> m.cuts@[j] > room) ==> shown_name(who, m, room)
            == (Seq::<char>::empty(), 0u32),
        m.fields@[0]@[0] <= room ==> shown_name(who, m, room) == (who, m.fields@[0]@[0]),
{
    if m.cuts@[k] <= room && (forall|j: int| k < j <= who.len() ==> m.cuts@[j] > room) {
        lemma_cut_at(m.cuts@, who.len(), room, k as nat);
    }
    if forall|j: int| 0 < j <= who.len() ==> m.cuts@[j] > room {
        lemma_cut_at(m.cuts@, who.len(), room, 0);
    }
}

proof fn lemma_cut_at(cuts: Seq<u32>, n: nat, room: int, k: nat)
    requires
        k <= n,
        n < cuts.len(),
        k == 0 || cuts[k as int] <= room,
        forall|j: int| k < j <= n ==> cuts[j] > room,
    ensures
        cut_at(cuts, n, room) == k,
    decreases n,
{
    if n > k {
        lemma_cut_at(cuts, (n - 1) as nat, room, k);
    }
}

/// The bar lies across the window, twenty-four steps high; its dot is six steps
/// wide, four from the left and nine from the top, and warns while the link is
/// silent.
pub proof fn law_bar_lies_across_the_window(l: Layout, width: u32, s: u32, st: Status, m: Measured)
    requires
        s <= MAX_SCALE,
        l.laid_out(width, s, st, m),
    ensures
        l.bar.x == 0 && l.bar.y == 0 && l.bar.width == width && l.bar.height == 24 * s,
        l.dot.x == 4 * s && l.dot.y == 9 * s && l.dot.width == 6 * s && l.dot.height == 6 * s,
        st.stalled is Some ==> l.dot_colour == colour::WARN,
        st.stalled is None ==> l.dot_colour == colour::OK,
        l.s == s,
        l.text_y == 7 * s / 2,
        l.buttons@ == bar_buttons(width as int, s as int, m),
        l.spans@.len() == bar_text(width as int, s as int, st, m).len(),
        forall|i: int|
            0 <= i < l.spans@.len() ==> ((#[trigger] l.spans@[i]).x as int, l.spans@[i].text@, l.spans@[i].colour)
                == bar_text(width as int, s as int, st, m)[i],
{
    assert(span_models(l.spans@).len() == l.spans@.len());
    assert forall|i: int| 0 <= i < l.spans@.len() implies ((#[trigger] l.spans@[i]).x as int, l.spans@[i].text@, l.spans@[i].colour)
        == bar_text(width as int, s as int, st, m)[i] by {
        assert(span_models(l.spans@)[i] == ((l.spans@[i]).x as int, l.spans@[i].text@, l.spans@[i].colour));
    }
}

/// The bar takes the pointer over its own rows while it shows, and waits for it
/// in the top four steps; it is drawn while it shows in a window that has room
/// for it.
pub proof fn law_bar_is_at_the_top(o: Overlay, width: u32, height: u32, y: u32, s: u32)
    requires
        s <= MAX_SCALE,
    ensures
        o.over_bar(y, s) <==> o.visible && o.top_inset <= y && y < o.top_inset + 24 * s,
        o.over_strip(y, s) <==> o.top_inset <= y && y < o.top_inset + 4 * s,
        o.visible && width > 0 && o.top_inset < height ==> o.area(width, height, s) == Some(
            Rect { x: 0, y: o.top_inset, width, height: (24 * s) as u32 },
        ),
        !o.visible || width == 0 || o.top_inset >= height ==> o.area(width, height, s) is None,
{
}

/// The pointer that is followed is over the button whose rectangle it is in, over
/// none where it is in none or off the bar; and it has been at the top since it
/// came there.
pub proof fn law_pointer_is_followed(o: Overlay, after: Overlay, x: u32, y: u32, s: u32, now: u64)
    requires
        o.followed(after, x, y, s, now),
        y < u32::MAX,
        x < u32::MAX,
    ensures
        after.on_bar == o.over_bar(y, s),
        !o.over_bar(y, s) ==> after.hover is None,
        o.over_bar(y, s) && o.layout is None ==> after.hover is None,
        after.hover matches Some(i) ==> (o.layout matches Some(l) && i < l.buttons@.len()
            && l.buttons@[i as int].rect.x <= x && x < l.buttons@[i as int].rect.x
            + l.buttons@[i as int].rect.width && l.buttons@[i as int].rect.y <= y - o.top_inset && y
            - o.top_inset < l.buttons@[i as int].rect.y + l.buttons@[i as int].rect.height),
        o.over_bar(y, s) && after.hover is None ==> (o.layout matches Some(l) ==> forall|j: int|
            0 <= j < l.buttons@.len() ==> !(#[trigger] l.hit(j, x, (y - o.top_inset) as u32))),
        o.over_bar(y, s) || o.over_strip(y, s) ==> after.in_zone_since == if o.in_zone_since is Some {
            o.in_zone_since
        } else {
            Some(now)
        },
        !o.over_bar(y, s) && !o.over_strip(y, s) ==> after.in_zone_since is None,
        after.pinned == o.pinned && after.visible == o.visible && after.layout == o.layout,
{
    reveal(Overlay::followed);
}

/// The bar shows while it is pinned, for a second and a half after a flash, while
/// the pointer is on it or has rested at the top for six tenths of a second in a
/// window that has the focus, and for seven tenths of a second after the pointer
/// went; and at no other time.
pub proof fn law_bar_shows_when(o: Overlay, now: u64)
    requires
        o.in_zone_since matches Some(t) ==> t <= now,
        now + 700_000_000 <= u64::MAX,
    ensures
        ({
            let flash = o.flash_until matches Some(t) && now < t;
            let rests = o.in_zone_since matches Some(t) && now - t >= 600_000_000;
            let pointed = o.focused && (o.native_hover || o.on_bar || rests);
            let lingers = o.visible && !pointed && (o.was_pointed || (o.hide_at matches Some(t) && now
                < t));
            &&& o.wanted(now) <==> o.pinned || flash || pointed || lingers
            &&& o.ticked(now).visible == o.wanted(now)
            &&& o.ticked(now).was_pointed == pointed
            &&& o.wanted(now) && !pointed && o.was_pointed ==> o.ticked(now).hide_at == Some(
                (now + 700_000_000) as u64,
            )
            &&& o.ticked(now).pinned == o.pinned && o.ticked(now).layout == o.layout
            &&& o.visible && !o.wanted(now) ==> o.ticked(now).hover is None && o.ticked(
                now,
            ).armed is None
        }),
        FLASH == 1_500_000_000,
        now + 1_500_000_000 <= u64::MAX ==> Overlay::opening(now).flash_until == Some(
            (now + 1_500_000_000) as u64,
        ),
        !Overlay::opening(now).visible && !Overlay::opening(now).pinned,
{
}

/// A window that gains or loses the focus forgets where the pointer was.
pub proof fn law_focus_forgets_the_pointer(o: Overlay, focused: bool)
    ensures
        o.focused_as(focused).focused == focused,
        focused == o.focused ==> o.focused_as(focused) == o,
        focused != o.focused ==> !o.focused_as(focused).on_bar && o.focused_as(focused).hover is None
            && o.focused_as(focused).armed is None && o.focused_as(focused).in_zone_since is None
            && o.focused_as(focused).pinned == o.pinned && o.focused_as(focused).visible == o.visible,
{
}

/// A click does what the button says that was pressed and is let go over, and
/// nothing where they differ.
pub proof fn law_click_is_one_button(o: Overlay, l: Layout, i: usize)
    requires
        o.layout == Some(l),
        i < l.buttons@.len(),
        o.armed == Some(i),
    ensures
        o.hover == Some(i) ==> o.completed() == Some(l.buttons@[i as int].action),
        o.hover != Some(i) ==> o.completed() is None,
{
}

/// What is drawn of the bar is what is laid out for it, where it is drawn.
pub proof fn law_drawn_bar_is_laid_out(
    o: Overlay,
    after: Overlay,
    w: u32,
    h: u32,
    s: u32,
    st: Status,
    m: Measured,
)
    requires
        o.drawn(after, w, h, s, st, m),
    ensures
        o.visible && w > 0 && o.top_inset < h ==> (after.layout matches Some(l) && l.laid_out(
            w,
            s,
            st,
            m,
        )) && (after.painted matches Some(r) && r.y == o.top_inset && r.x == 0 && r.width == w),
        !o.visible || w == 0 || o.top_inset >= h ==> after.layout is None && after.painted is None,
        after.pinned == o.pinned && after.visible == o.visible && after.hover == o.hover,
{
}

/// A piece of text is its characters and its colour.
pub proof fn law_pieces_are_text_and_colour(field: Seq<Span>, i: int)
    requires
        0 <= i < field.len(),
    ensures
        runs(field).len() == field.len(),
        runs(field)[i] == (field[i].text@, field[i].colour),
{
}

/// A flash is over at its moment and is not kept after it; a bar that has just
/// begun is not seen, not pointed at, and lies at the top.
pub proof fn law_flash_is_over(o: Overlay, now: u64)
    ensures
        o.flash_until matches Some(t) ==> (now < t ==> o.ticked(now).flash_until == Some(t)) && (now
            >= t ==> o.ticked(now).flash_until is None),
        o.flash_until is None ==> o.ticked(now).flash_until is None,
        o.ticked(now).top_inset == o.top_inset && o.ticked(now).focused == o.focused
            && o.ticked(now).on_bar == o.on_bar && o.ticked(now).in_zone_since == o.in_zone_since
            && o.ticked(now).native_hover == o.native_hover,
        o.visible && o.wanted(now) || !o.visible ==> o.ticked(now).hover == o.hover && o.ticked(
            now,
        ).armed == o.armed,
        !o.wanted(now) ==> o.ticked(now).hide_at is None,
        ({
            let b = Overlay::opening(now);
            &&& b.top_inset == 0 && !b.visible && !b.pinned && !b.focused && !b.on_bar
            &&& !b.native_hover && !b.was_pointed && b.in_zone_since is None && b.hide_at is None
            &&& b.hover is None && b.armed is None && b.layout is None && b.painted is None
        }),
{
}

} // verus!
