//! What the bar is drawn with.
//!
//! The drawing is a list of marks, in order, each over what came before.
//! Places are in tenths of a pixel, so that they are exact at every scale.

use vstd::prelude::*;

use crate::overlay::colour;
use crate::overlay::{Action, Button, Layout, MAX_SCALE};
use crate::proto::Rect;

verus! {

/// Words that stand in the layout.
#[derive(Clone, Copy, Debug, PartialEq, Eq, Structural)]
pub enum Words {
    /// The label of a button, by its place.
    Label(usize),
    /// A run of the status, by its place.
    Span(usize),
}

/// One mark of the drawing. `x10` and the like are tenths of a pixel.
#[derive(Clone, Copy, Debug, PartialEq, Eq)]
pub enum Mark {
    /// The ground of the bar, which lets what is below shine through.
    Scrim { rect: Rect, alpha: u8 },
    /// A filled disc.
    Disc { x10: i64, y10: i64, radius10: i64, colour: u32 },
    /// Words that begin at `x10` and are centred on `y10`, cut off at both ends
    /// where ends are given.
    Text { words: Words, x10: i64, y10: i64, size10: i64, colour: u32, ends: Option<(i64, i64)> },
    /// A filled rectangle with round corners.
    Fill { rect: Rect, radius: u8, colour: u32 },
    /// The inner edge of a rectangle with round corners.
    Edge { rect: Rect, radius: u8, width10: i64, colour: u32 },
    /// The inner edge of a rectangle around a place.
    Outline {
        x10: i64,
        y10: i64,
        w10: i64,
        h10: i64,
        radius: u8,
        width10: i64,
        colour: u32,
    },
    /// A line.
    Line { ax10: i64, ay10: i64, bx10: i64, by10: i64, width10: i64, colour: u32 },
}

/// The size of the letters.
pub open spec fn letter_size(s: int) -> int {
    70 * s
}

/// A small number, or the largest there is.
pub open spec fn small(n: int) -> u8 {
    if n > 255 {
        255
    } else {
        n as u8
    }
}

/// A button shows its sign alone.
pub open spec fn compact(b: Button, s: int) -> bool {
    b.rect.width == 22 * s
}

/// The middle of the bar.
pub open spec fn middle(l: Layout) -> int {
    5 * l.bar.height
}

/// A line of a sign, from one place around its centre to another, in tenths of
/// the scale.
pub open spec fn stroke(b: Button, s: int, from: (int, int), to: (int, int)) -> Mark {
    let (cx, cy) = centre(b, s);
    Mark::Line {
        ax10: (cx + from.0 * s) as i64,
        ay10: (cy + from.1 * s) as i64,
        bx10: (cx + to.0 * s) as i64,
        by10: (cy + to.1 * s) as i64,
        width10: (8 * s) as i64,
        colour: b.colour,
    }
}

/// The centre of a button's sign.
pub open spec fn centre(b: Button, s: int) -> (int, int) {
    (
        10 * b.rect.x + if compact(b, s) {
            110 * s
        } else {
            80 * s
        },
        10 * b.rect.y + 5 * b.rect.height,
    )
}

/// The sign of a button.
pub open spec fn sign(b: Button, s: int) -> Seq<Mark> {
    match b.action {
        Action::Transfers => seq![
            stroke(b, s, (-20, 30), (-20, -30)),
            stroke(b, s, (-40, -10), (-20, -30)),
            stroke(b, s, (-20, -30), (0, -10)),
            stroke(b, s, (20, -30), (20, 30)),
            stroke(b, s, (0, 10), (20, 30)),
            stroke(b, s, (20, 30), (40, 10)),
        ],
        Action::Fullscreen => seq![
            stroke(b, s, (-30, -10), (-30, -30)),
            stroke(b, s, (-10, -30), (-30, -30)),
            stroke(b, s, (30, -10), (30, -30)),
            stroke(b, s, (10, -30), (30, -30)),
            stroke(b, s, (-30, 10), (-30, 30)),
            stroke(b, s, (-10, 30), (-30, 30)),
            stroke(b, s, (30, 10), (30, 30)),
            stroke(b, s, (10, 30), (30, 30)),
        ],
        Action::SecureAttention => seq![
            Mark::Outline {
                x10: centre(b, s).0 as i64,
                y10: centre(b, s).1 as i64,
                w10: (80 * s) as i64,
                h10: (50 * s) as i64,
                radius: small(s),
                width10: (8 * s) as i64,
                colour: b.colour,
            },
            stroke(b, s, (-20, 0), (20, 0)),
        ],
        Action::Disconnect => seq![
            stroke(b, s, (-25, -25), (25, 25)),
            stroke(b, s, (-25, 25), (25, -25)),
        ],
    }
}

/// A button: its ground, its edge, its sign, and its label where it has one.
pub open spec fn button_marks(
    b: Button,
    i: int,
    s: int,
    hover: Option<usize>,
    pressed: Option<usize>,
) -> Seq<Mark> {
    seq![
        Mark::Fill {
            rect: b.rect,
            radius: small(3 * s),
            colour: if pressed matches Some(p) && p == i {
                colour::PRESS
            } else if hover matches Some(h) && h == i {
                colour::HOVER
            } else {
                colour::BUTTON
            },
        },
        Mark::Edge {
            rect: b.rect,
            radius: small(3 * s),
            width10: (5 * s) as i64,
            colour: if hover matches Some(h) && h == i {
                colour::ACCENT
            } else {
                colour::BORDER
            },
        },
    ] + sign(b, s) + (if compact(b, s) {
        Seq::<Mark>::empty()
    } else {
        seq![
            Mark::Text {
                words: Words::Label(i as usize),
                x10: (10 * b.rect.x + 150 * s) as i64,
                y10: (10 * b.rect.y + 5 * b.rect.height) as i64,
                size10: letter_size(s) as i64,
                colour: b.colour,
                ends: None,
            },
        ]
    })
}

/// The first `n` buttons.
pub open spec fn all_buttons(
    l: Layout,
    n: nat,
    hover: Option<usize>,
    pressed: Option<usize>,
) -> Seq<Mark>
    decreases n,
{
    if n == 0 {
        Seq::empty()
    } else {
        all_buttons(l, (n - 1) as nat, hover, pressed) + button_marks(
            l.buttons@[n - 1],
            n - 1,
            l.s as int,
            hover,
            pressed,
        )
    }
}

/// The button under the pointer, where it shows its sign alone.
pub open spec fn named(l: Layout, hover: Option<usize>) -> Option<usize> {
    match hover {
        Some(i) => if i < l.buttons@.len() && compact(l.buttons@[i as int], l.s as int) {
            Some(i)
        } else {
            None
        },
        None => None,
    }
}

/// Where the words end at the latest.
pub open spec fn words_end(l: Layout, dst_w: u32) -> int {
    10 * (if l.buttons@.len() > 0 {
        l.buttons@[0].rect.x
    } else {
        dst_w
    }) - 40 * l.s
}

/// The words of the bar: the status, or what the button under the pointer does
/// where only its sign says so.
pub open spec fn words(l: Layout, dst_w: u32, hover: Option<usize>) -> Seq<Mark> {
    match named(l, hover) {
        Some(i) => seq![
            Mark::Text {
                words: Words::Label(i),
                x10: (130 * l.s) as i64,
                y10: middle(l) as i64,
                size10: letter_size(l.s as int) as i64,
                colour: l.buttons@[i as int].colour,
                ends: Some(((130 * l.s) as i64, words_end(l, dst_w) as i64)),
            },
        ],
        None => Seq::new(
            l.spans@.len(),
            |k: int|
                Mark::Text {
                    words: Words::Span(k as usize),
                    x10: (10 * l.spans@[k].x) as i64,
                    y10: middle(l) as i64,
                    size10: letter_size(l.s as int) as i64,
                    colour: l.spans@[k].colour,
                    ends: None,
                },
        ),
    }
}

/// The whole bar.
pub open spec fn bar_marks(
    l: Layout,
    dst_w: u32,
    hover: Option<usize>,
    pressed: Option<usize>,
) -> Seq<Mark> {
    seq![
        Mark::Scrim { rect: l.bar, alpha: colour::SCRIM_ALPHA as u8 },
        Mark::Disc {
            x10: (10 * l.dot.x + 30 * l.s) as i64,
            y10: middle(l) as i64,
            radius10: (20 * l.s) as i64,
            colour: l.dot_colour,
        },
    ] + words(l, dst_w, hover) + all_buttons(l, l.buttons@.len(), hover, pressed)
}

fn small_of(n: u32) -> (r: u8)
    ensures
        r == small(n as int),
{
    if n > 255 {
        255
    } else {
        n as u8
    }
}

fn push_stroke(
    out: &mut Vec<Mark>,
    b: &Button,
    s: u32,
    from: (i64, i64),
    to: (i64, i64),
)
    requires
        s <= MAX_SCALE,
        -40 <= from.0 <= 40,
        -40 <= from.1 <= 40,
        -40 <= to.0 <= 40,
        -40 <= to.1 <= 40,
    ensures
        final(out)@ == old(out)@.push(
            stroke(
                *b,
                s as int,
                (from.0 as int, from.1 as int),
                (to.0 as int, to.1 as int),
            ),
        ),
{
    let (cx, cy) = centre_of(b, s);
    let k: i64 = s as i64;
    assert(-40 * k <= from.0 * k <= 40 * k && -40 * k <= from.1 * k <= 40 * k && -40 * k <= to.0 * k
        <= 40 * k && -40 * k <= to.1 * k <= 40 * k) by (nonlinear_arith)
        requires
            0 <= k,
            -40 <= from.0 <= 40,
            -40 <= from.1 <= 40,
            -40 <= to.0 <= 40,
            -40 <= to.1 <= 40,
    ;
    out.push(
        Mark::Line {
            ax10: cx + from.0 * k,
            ay10: cy + from.1 * k,
            bx10: cx + to.0 * k,
            by10: cy + to.1 * k,
            width10: 8 * k,
            colour: b.colour,
        },
    );
}

fn centre_of(b: &Button, s: u32) -> (c: (i64, i64))
    requires
        s <= MAX_SCALE,
    ensures
        (c.0 as int, c.1 as int) == centre(*b, s as int),
        0 <= c.0 <= 10 * u32::MAX + 110 * MAX_SCALE,
        0 <= c.1 <= 15 * u32::MAX,
{
    let shift: i64 = if b.rect.width == 22 * s {
        110 * (s as i64)
    } else {
        80 * (s as i64)
    };
    (10 * (b.rect.x as i64) + shift, 10 * (b.rect.y as i64) + 5 * (b.rect.height as i64))
}

#[verifier::rlimit(40)]
fn push_sign(out: &mut Vec<Mark>, b: &Button, s: u32)
    requires
        s <= MAX_SCALE,
    ensures
        final(out)@ == old(out)@ + sign(*b, s as int),
{
    match b.action {
        Action::Transfers => {
            push_stroke(out, b, s, (-20, 30), (-20, -30));
            push_stroke(out, b, s, (-40, -10), (-20, -30));
            push_stroke(out, b, s, (-20, -30), (0, -10));
            push_stroke(out, b, s, (20, -30), (20, 30));
            push_stroke(out, b, s, (0, 10), (20, 30));
            push_stroke(out, b, s, (20, 30), (40, 10));
        },
        Action::Fullscreen => {
            push_stroke(out, b, s, (-30, -10), (-30, -30));
            push_stroke(out, b, s, (-10, -30), (-30, -30));
            push_stroke(out, b, s, (30, -10), (30, -30));
            push_stroke(out, b, s, (10, -30), (30, -30));
            push_stroke(out, b, s, (-30, 10), (-30, 30));
            push_stroke(out, b, s, (-10, 30), (-30, 30));
            push_stroke(out, b, s, (30, 10), (30, 30));
            push_stroke(out, b, s, (10, 30), (30, 30));
        },
        Action::SecureAttention => {
            let (cx, cy) = centre_of(b, s);
            out.push(
                Mark::Outline {
                    x10: cx,
                    y10: cy,
                    w10: 80 * (s as i64),
                    h10: 50 * (s as i64),
                    radius: small_of(s),
                    width10: 8 * (s as i64),
                    colour: b.colour,
                },
            );
            push_stroke(out, b, s, (-20, 0), (20, 0));
        },
        Action::Disconnect => {
            push_stroke(out, b, s, (-25, -25), (25, 25));
            push_stroke(out, b, s, (-25, 25), (25, -25));
        },
    }
    assert(out@ =~= old(out)@ + sign(*b, s as int));
}

fn is_at(place: Option<usize>, i: usize) -> (r: bool)
    ensures
        r == (place matches Some(p) && p == i),
{
    match place {
        Some(p) => p == i,
        None => false,
    }
}

fn push_button(
    out: &mut Vec<Mark>,
    b: &Button,
    i: usize,
    s: u32,
    hover: Option<usize>,
    pressed: Option<usize>,
)
    requires
        s <= MAX_SCALE,
    ensures
        final(out)@ == old(out)@ + button_marks(*b, i as int, s as int, hover, pressed),
{
    let ground = if is_at(pressed, i) {
        colour::PRESS
    } else if is_at(hover, i) {
        colour::HOVER
    } else {
        colour::BUTTON
    };
    let edge = if is_at(hover, i) {
        colour::ACCENT
    } else {
        colour::BORDER
    };
    out.push(Mark::Fill { rect: b.rect, radius: small_of(3 * s), colour: ground });
    out.push(
        Mark::Edge {
            rect: b.rect,
            radius: small_of(3 * s),
            width10: 5 * (s as i64),
            colour: edge,
        },
    );
    push_sign(out, b, s);
    if b.rect.width != 22 * s {
        out.push(
            Mark::Text {
                words: Words::Label(i),
                x10: 10 * (b.rect.x as i64) + 150 * (s as i64),
                y10: 10 * (b.rect.y as i64) + 5 * (b.rect.height as i64),
                size10: 70 * (s as i64),
                colour: b.colour,
                ends: None,
            },
        );
    }
    assert(out@ =~= old(out)@ + button_marks(*b, i as int, s as int, hover, pressed));
}

/// The marks the bar is drawn with. `hover` and `pressed` are the places of the
/// button under the pointer and the one that is held down.
pub fn paint(l: &Layout, dst_w: u32, hover: Option<usize>, pressed: Option<usize>) -> (out: Vec<
    Mark,
>)
    requires
        l.s <= MAX_SCALE,
    ensures
        out@ == bar_marks(*l, dst_w, hover, pressed),
{
    let s: u32 = l.s;
    let mid: i64 = 5 * (l.bar.height as i64);
    let mut out: Vec<Mark> = Vec::new();
    out.push(Mark::Scrim { rect: l.bar, alpha: colour::SCRIM_ALPHA as u8 });
    out.push(
        Mark::Disc {
            x10: 10 * (l.dot.x as i64) + 30 * (s as i64),
            y10: mid,
            radius10: 20 * (s as i64),
            colour: l.dot_colour,
        },
    );
    let ghost head = out@;
    let named_at: Option<usize> = match hover {
        Some(i) => if i < l.buttons.len() && l.buttons[i].rect.width == 22 * s {
            Some(i)
        } else {
            None
        },
        None => None,
    };
    match named_at {
        Some(i) => {
            let first: u32 = if l.buttons.len() > 0 {
                l.buttons[0].rect.x
            } else {
                dst_w
            };
            let left: i64 = 130 * (s as i64);
            let right: i64 = 10 * (first as i64) - 40 * (s as i64);
            out.push(
                Mark::Text {
                    words: Words::Label(i),
                    x10: left,
                    y10: mid,
                    size10: 70 * (s as i64),
                    colour: l.buttons[i].colour,
                    ends: Some((left, right)),
                },
            );
        },
        None => {
            let ghost all = words(*l, dst_w, hover);
            let mut k: usize = 0;
            assert(head + all.take(0) =~= head);
            while k < l.spans.len()
                invariant
                    k <= l.spans.len(),
                    s == l.s,
                    s <= MAX_SCALE,
                    mid == 5 * l.bar.height,
                    named(*l, hover) is None,
                    all == words(*l, dst_w, hover),
                    out@ == head + all.take(k as int),
                decreases l.spans.len() - k,
            {
                out.push(
                    Mark::Text {
                        words: Words::Span(k),
                        x10: 10 * (l.spans[k].x as i64),
                        y10: mid,
                        size10: 70 * (s as i64),
                        colour: l.spans[k].colour,
                        ends: None,
                    },
                );
                k = k + 1;
                assert(out@ =~= head + all.take(k as int));
            }
            assert(all.take(k as int) =~= all);
        },
    }
    assert(out@ =~= head + words(*l, dst_w, hover));
    let ghost said = out@;
    let mut i: usize = 0;
    assert(said + all_buttons(*l, 0, hover, pressed) =~= said);
    while i < l.buttons.len()
        invariant
            i <= l.buttons.len(),
            s == l.s,
            s <= MAX_SCALE,
            out@ == said + all_buttons(*l, i as nat, hover, pressed),
        decreases l.buttons.len() - i,
    {
        let ghost before = all_buttons(*l, i as nat, hover, pressed);
        push_button(&mut out, &l.buttons[i], i, s, hover, pressed);
        assert(out@ =~= said + (before + button_marks(
            l.buttons@[i as int],
            i as int,
            s as int,
            hover,
            pressed,
        )));
        i = i + 1;
    }
    assert(out@ =~= bar_marks(*l, dst_w, hover, pressed));
    out
}

// ---------------------------------------------------------------------------
// Laws of the drawing
// ---------------------------------------------------------------------------

/// The rows a mark touches, in tenths of a pixel. Words are taken to reach their
/// size above and below the line they are centred on, which is twice the room
/// that letters of that size take.
pub open spec fn rows(mark: Mark) -> (int, int) {
    match mark {
        Mark::Scrim { rect, .. } => (10 * rect.y, 10 * (rect.y + rect.height)),
        Mark::Disc { y10, radius10, .. } => (y10 - radius10, y10 + radius10),
        Mark::Text { y10, size10, .. } => (y10 - size10, y10 + size10),
        Mark::Fill { rect, .. } => (10 * rect.y, 10 * (rect.y + rect.height)),
        Mark::Edge { rect, .. } => (10 * rect.y, 10 * (rect.y + rect.height)),
        Mark::Outline { y10, h10, .. } => (y10 - h10, y10 + h10),
        Mark::Line { ay10, by10, width10, .. } => (
            (if ay10 < by10 {
                ay10
            } else {
                by10
            }) - width10,
            (if ay10 < by10 {
                by10
            } else {
                ay10
            }) + width10,
        ),
    }
}

/// A mark touches no row but those of a bar at that scale.
pub open spec fn in_rows(mark: Mark, s: int) -> bool {
    0 <= rows(mark).0 && rows(mark).1 <= 240 * s
}

proof fn lemma_offset(n: int, s: int)
    by (nonlinear_arith)
    requires
        -30 <= n <= 30,
        0 <= s,
    ensures
        -30 * s <= n * s <= 30 * s,
{
}

#[verifier::rlimit(40)]
proof fn lemma_button_rows(
    b: Button,
    i: int,
    s: int,
    hover: Option<usize>,
    pressed: Option<usize>,
)
    requires
        0 <= s <= MAX_SCALE,
        b.rect.y == 3 * s,
        b.rect.height == 18 * s,
    ensures
        forall|k: int|
            0 <= k < button_marks(b, i, s, hover, pressed).len() ==> in_rows(
                #[trigger] button_marks(b, i, s, hover, pressed)[k],
                s,
            ),
{
    assert forall|from: (int, int), to: (int, int)|
        -30 <= from.1 <= 30 && -30 <= to.1 <= 30 implies in_rows(
        #[trigger] stroke(b, s, from, to),
        s,
    ) by {
        lemma_offset(from.1, s);
        lemma_offset(to.1, s);
    }
    let all = sign(b, s);
    assert forall|k: int| 0 <= k < all.len() implies in_rows(#[trigger] all[k], s) by {}
}

proof fn lemma_buttons_rows(
    l: Layout,
    n: nat,
    hover: Option<usize>,
    pressed: Option<usize>,
)
    requires
        l.s <= MAX_SCALE,
        n <= l.buttons@.len(),
        forall|i: int|
            0 <= i < n ==> (#[trigger] l.buttons@[i]).rect.y == 3 * l.s && l.buttons@[i].rect.height
                == 18 * l.s,
    ensures
        forall|k: int|
            0 <= k < all_buttons(l, n, hover, pressed).len() ==> in_rows(
                #[trigger] all_buttons(l, n, hover, pressed)[k],
                l.s as int,
            ),
    decreases n,
{
    if n > 0 {
        let before = all_buttons(l, (n - 1) as nat, hover, pressed);
        let last = button_marks(l.buttons@[n - 1], n - 1, l.s as int, hover, pressed);
        lemma_buttons_rows(l, (n - 1) as nat, hover, pressed);
        lemma_button_rows(l.buttons@[n - 1], n - 1, l.s as int, hover, pressed);
        assert forall|k: int| 0 <= k < (before + last).len() implies in_rows(
            #[trigger] (before + last)[k],
            l.s as int,
        ) by {
            if k < before.len() {
                assert(in_rows(before[k], l.s as int));
            } else {
                assert(in_rows(last[k - before.len()], l.s as int));
            }
        }
    }
}

/// The bar paints only its own rows: every mark of a bar that was laid out
/// stays above its lower edge, whatever is under the pointer or held down.
/// Everything below is the remote screen.
#[verifier::rlimit(40)]
pub proof fn law_marks_stay_in_the_bar(
    l: Layout,
    width: u32,
    s: u32,
    st: crate::overlay::Status,
    m: crate::overlay::Measured,
    dst_w: u32,
    hover: Option<usize>,
    pressed: Option<usize>,
)
    requires
        s <= MAX_SCALE,
        l.laid_out(width, s, st, m),
    ensures
        l.bar.height == 24 * s,
        forall|k: int|
            0 <= k < bar_marks(l, dst_w, hover, pressed).len() ==> in_rows(
                #[trigger] bar_marks(l, dst_w, hover, pressed)[k],
                s as int,
            ),
{
    crate::overlay::lemma_buttons(
        4,
        crate::overlay::floor_zero(width - 4 * s),
        width as int,
        s as int,
        m,
    );
    lemma_buttons_rows(l, l.buttons@.len(), hover, pressed);
    let said = words(l, dst_w, hover);
    let all = bar_marks(l, dst_w, hover, pressed);
    let after = all_buttons(l, l.buttons@.len(), hover, pressed);
    assert forall|k: int| 0 <= k < said.len() implies in_rows(#[trigger] said[k], s as int) by {}
    assert forall|k: int| 0 <= k < all.len() implies in_rows(#[trigger] all[k], s as int) by {
        if 2 <= k < 2 + said.len() {
            assert(all[k] == said[k - 2]);
        } else if k >= 2 + said.len() {
            assert(all[k] == after[k - 2 - said.len()]);
        }
    }
}

/// The bar is drawn from its ground up: the ground over the whole bar, then the
/// dot in the middle of its square, then the words, each piece where it was laid
/// out, unless the pointer is over a button too narrow for its label: its label
/// stands in their place, from thirteen steps to four before the first button.
pub proof fn law_bar_is_drawn_in_order(
    l: Layout,
    dst_w: u32,
    hover: Option<usize>,
    pressed: Option<usize>,
    k: int,
)
    requires
        l.s <= MAX_SCALE,
    ensures
        ({
            let m = bar_marks(l, dst_w, hover, pressed);
            let narrow = hover matches Some(i) && i < l.buttons@.len()
                && l.buttons@[i as int].rect.width == 22 * l.s;
            &&& m.len() >= 2
            &&& m[0] == (Mark::Scrim { rect: l.bar, alpha: 245 })
            &&& m[1] == (Mark::Disc {
                x10: (10 * (l.dot.x + 3 * l.s)) as i64,
                y10: (5 * l.bar.height) as i64,
                radius10: (20 * l.s) as i64,
                colour: l.dot_colour,
            })
            &&& !narrow && 0 <= k < l.spans@.len() ==> m.len() > 2 + k && m[2 + k] == (Mark::Text {
                words: Words::Span(k as usize),
                x10: (10 * l.spans@[k].x) as i64,
                y10: (5 * l.bar.height) as i64,
                size10: (70 * l.s) as i64,
                colour: l.spans@[k].colour,
                ends: None,
            })
            &&& narrow ==> (hover matches Some(i) && m.len() > 2 && m[2] == (Mark::Text {
                words: Words::Label(i),
                x10: (130 * l.s) as i64,
                y10: (5 * l.bar.height) as i64,
                size10: (70 * l.s) as i64,
                colour: l.buttons@[i as int].colour,
                ends: Some(
                    ((130 * l.s) as i64, (10 * l.buttons@[0].rect.x - 40 * l.s) as i64),
                ),
            }))
        }),
{
}

/// A button is filled and edged over its whole rectangle, darker while it is
/// pressed and lighter while the pointer is over it; its label stands fifteen
/// steps from its left edge, on its middle row, where there is room for it.
pub proof fn law_button_is_drawn(b: Button, i: usize, s: u32, hover: Option<usize>, pressed: Option<usize>)
    requires
        s <= 85,
    ensures
        ({
            let m = button_marks(b, i as int, s as int, hover, pressed);
            let fill = if pressed == Some(i) {
                colour::PRESS
            } else if hover == Some(i) {
                colour::HOVER
            } else {
                colour::BUTTON
            };
            let edge = if hover == Some(i) {
                colour::ACCENT
            } else {
                colour::BORDER
            };
            &&& m.len() == 2 + sign(b, s as int).len() + if b.rect.width == 22 * s {
                0int
            } else {
                1
            }
            &&& m[0] == (Mark::Fill { rect: b.rect, radius: (3 * s) as u8, colour: fill })
            &&& m[1] == (Mark::Edge {
                rect: b.rect,
                radius: (3 * s) as u8,
                width10: (5 * s) as i64,
                colour: edge,
            })
            &&& b.rect.width != 22 * s ==> m.last() == (Mark::Text {
                words: Words::Label(i),
                x10: (10 * (b.rect.x + 15 * s)) as i64,
                y10: (10 * b.rect.y + 5 * b.rect.height) as i64,
                size10: (70 * s) as i64,
                colour: b.colour,
                ends: None,
            })
        }),
{
    let m = button_marks(b, i as int, s as int, hover, pressed);
    assert(m.len() == 2 + sign(b, s as int).len() + if b.rect.width == 22 * s {
        0int
    } else {
        1
    });
}

/// Every button of the bar is drawn, one after the other in their order.
pub proof fn law_every_button_is_drawn(
    l: Layout,
    n: nat,
    k: int,
    hover: Option<usize>,
    pressed: Option<usize>,
)
    requires
        0 <= k < n,
    ensures
        ({
            let from = all_buttons(l, k as nat, hover, pressed).len() as int;
            let own = button_marks(l.buttons@[k], k, l.s as int, hover, pressed);
            let all = all_buttons(l, n, hover, pressed);
            from + own.len() <= all.len() && all.subrange(from, from + own.len()) == own
        }),
    decreases n,
{
    let from = all_buttons(l, k as nat, hover, pressed).len() as int;
    let own = button_marks(l.buttons@[k], k, l.s as int, hover, pressed);
    let all = all_buttons(l, n, hover, pressed);
    if k == n - 1 {
        assert(all.subrange(from, from + own.len()) =~= own);
    } else {
        law_every_button_is_drawn(l, (n - 1) as nat, k, hover, pressed);
        let before = all_buttons(l, (n - 1) as nat, hover, pressed);
        assert(all.subrange(from, from + own.len()) =~= before.subrange(from, from + own.len()));
    }
}

/// The signs: two arrows, up and down; the four corners of a screen; a keyboard
/// with its long key; a cross. Each is drawn about the middle of its button
/// where it stands alone, and eight steps from its left edge beside a label.
pub proof fn law_signs_are_drawn_about_the_middle(b: Button, s: u32)
    requires
        s <= MAX_SCALE,
    ensures
        ({
            let m = sign(b, s as int);
            let x = 10 * b.rect.x + if b.rect.width == 22 * s {
                5 * b.rect.width
            } else {
                80 * s
            };
            let y = 10 * b.rect.y + 5 * b.rect.height;
            let line = |ax: int, ay: int, bx: int, by: int|
                Mark::Line {
                    ax10: (x + ax * s) as i64,
                    ay10: (y + ay * s) as i64,
                    bx10: (x + bx * s) as i64,
                    by10: (y + by * s) as i64,
                    width10: (8 * s) as i64,
                    colour: b.colour,
                };
            &&& b.action is Disconnect ==> m.len() == 2 && m[0] == line(-25, -25, 25, 25) && m[1]
                == line(-25, 25, 25, -25)
            &&& b.action is Transfers ==> m.len() == 6 && m[0] == line(-20, 30, -20, -30) && m[1]
                == line(-40, -10, -20, -30) && m[2] == line(-20, -30, 0, -10) && m[3] == line(
                20,
                -30,
                20,
                30,
            ) && m[4] == line(0, 10, 20, 30) && m[5] == line(20, 30, 40, 10)
            &&& b.action is Fullscreen ==> m.len() == 8 && m[0] == line(-30, -10, -30, -30) && m[1]
                == line(-10, -30, -30, -30) && m[2] == line(30, -10, 30, -30) && m[3] == line(
                10,
                -30,
                30,
                -30,
            ) && m[4] == line(-30, 10, -30, 30) && m[5] == line(-10, 30, -30, 30) && m[6] == line(
                30,
                10,
                30,
                30,
            ) && m[7] == line(10, 30, 30, 30)
            &&& b.action is SecureAttention ==> m.len() == 2 && m[1] == line(-20, 0, 20, 0)
                && (m[0] matches Mark::Outline { x10, y10, w10, h10, colour, .. } && x10 == x && y10
                == y && w10 == 80 * s && h10 == 50 * s && colour == b.colour)
        }),
{
}

} // verus!
