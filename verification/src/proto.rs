//! The values the session and the client exchange, as plain data.

use vstd::prelude::*;

pub mod keysym;

verus! {

/// The port a server listens on unless told otherwise.
pub const DEFAULT_PORT: u16 = 3390;

// ---------------------------------------------------------------------------
// Rectangles
// ---------------------------------------------------------------------------

/// A rectangle of pixels. Its right and bottom edges are clamped to the range
/// of the coordinates.
#[derive(Clone, Copy, Debug, PartialEq, Eq, Structural)]
pub struct Rect {
    pub x: u32,
    pub y: u32,
    pub width: u32,
    pub height: u32,
}

pub open spec fn clamp_u32(n: int) -> u32 {
    if n < 0 {
        0
    } else if n > u32::MAX {
        u32::MAX
    } else {
        n as u32
    }
}

pub open spec fn min_of(a: int, b: int) -> int {
    if a <= b {
        a
    } else {
        b
    }
}

pub open spec fn max_of(a: int, b: int) -> int {
    if a >= b {
        a
    } else {
        b
    }
}

pub fn min_u32(a: u32, b: u32) -> (r: u32)
    ensures
        r == min_of(a as int, b as int),
{
    if a <= b {
        a
    } else {
        b
    }
}

pub fn max_u32(a: u32, b: u32) -> (r: u32)
    ensures
        r == max_of(a as int, b as int),
{
    if a >= b {
        a
    } else {
        b
    }
}

impl Rect {
    /// The first column right of the rectangle.
    pub open spec fn right_edge(self) -> int {
        min_of(self.x + self.width, u32::MAX as int)
    }

    /// The first row below the rectangle.
    pub open spec fn bottom_edge(self) -> int {
        min_of(self.y + self.height, u32::MAX as int)
    }

    pub open spec fn empty(self) -> bool {
        self.width == 0 || self.height == 0
    }

    /// Whether the pixel at `(px, py)` is in the rectangle.
    pub open spec fn holds(self, px: int, py: int) -> bool {
        self.x <= px < self.right_edge() && self.y <= py < self.bottom_edge()
    }

    /// Whether the edges of `other` lie within those of this rectangle.
    pub open spec fn covers(self, other: Rect) -> bool {
        self.x <= other.x && self.y <= other.y && other.right_edge() <= self.right_edge()
            && other.bottom_edge() <= self.bottom_edge()
    }

    /// The rectangle between two pairs of edges, or the empty one.
    pub open spec fn between(x0: int, y0: int, x1: int, y1: int) -> Rect {
        if x0 < x1 && y0 < y1 {
            Rect { x: x0 as u32, y: y0 as u32, width: (x1 - x0) as u32, height: (y1 - y0) as u32 }
        } else {
            Rect { x: 0, y: 0, width: 0, height: 0 }
        }
    }

    /// What two rectangles have in common.
    pub open spec fn common(self, other: Rect) -> Rect {
        Rect::between(
            max_of(self.x as int, other.x as int),
            max_of(self.y as int, other.y as int),
            min_of(self.right_edge(), other.right_edge()),
            min_of(self.bottom_edge(), other.bottom_edge()),
        )
    }

    /// The smallest rectangle around two, of which an empty one counts for
    /// nothing.
    pub open spec fn around(self, other: Rect) -> Rect {
        if self.empty() {
            other
        } else if other.empty() {
            self
        } else {
            Rect::between(
                min_of(self.x as int, other.x as int),
                min_of(self.y as int, other.y as int),
                max_of(self.right_edge(), other.right_edge()),
                max_of(self.bottom_edge(), other.bottom_edge()),
            )
        }
    }

    pub fn new(x: u32, y: u32, width: u32, height: u32) -> (r: Rect)
        ensures
            r == (Rect { x, y, width, height }),
    {
        Rect { x, y, width, height }
    }

    pub fn right(&self) -> (r: u32)
        ensures
            r == self.right_edge(),
    {
        self.x.saturating_add(self.width)
    }

    pub fn bottom(&self) -> (r: u32)
        ensures
            r == self.bottom_edge(),
    {
        self.y.saturating_add(self.height)
    }

    pub fn is_empty(&self) -> (r: bool)
        ensures
            r == self.empty(),
    {
        self.width == 0 || self.height == 0
    }

    /// The number of pixels between the sides.
    pub fn area(&self) -> (r: u64)
        ensures
            r == self.width * self.height,
    {
        proof {
            let (w, h) = (self.width as int, self.height as int);
            assert(w * h <= 0xffff_ffff * 0xffff_ffff) by (nonlinear_arith)
                requires
                    0 <= w <= 0xffff_ffff,
                    0 <= h <= 0xffff_ffff,
            ;
        }
        self.width as u64 * self.height as u64
    }

    pub fn contains(&self, other: &Rect) -> (r: bool)
        ensures
            r == self.covers(*other),
    {
        self.x <= other.x && self.y <= other.y && other.right() <= self.right() && other.bottom()
            <= self.bottom()
    }

    fn from_edges(x0: u32, y0: u32, x1: u32, y1: u32) -> (r: Rect)
        ensures
            r == Rect::between(x0 as int, y0 as int, x1 as int, y1 as int),
    {
        if x0 < x1 && y0 < y1 {
            Rect { x: x0, y: y0, width: x1 - x0, height: y1 - y0 }
        } else {
            Rect { x: 0, y: 0, width: 0, height: 0 }
        }
    }

    pub fn intersect(&self, other: &Rect) -> (r: Rect)
        ensures
            r == self.common(*other),
    {
        Rect::from_edges(
            max_u32(self.x, other.x),
            max_u32(self.y, other.y),
            min_u32(self.right(), other.right()),
            min_u32(self.bottom(), other.bottom()),
        )
    }

    pub fn union(&self, other: &Rect) -> (r: Rect)
        ensures
            r == self.around(*other),
    {
        if self.is_empty() {
            *other
        } else if other.is_empty() {
            *self
        } else {
            Rect::from_edges(
                min_u32(self.x, other.x),
                min_u32(self.y, other.y),
                max_u32(self.right(), other.right()),
                max_u32(self.bottom(), other.bottom()),
            )
        }
    }

    /// A pixel is in the intersection exactly when it is in both rectangles.
    pub proof fn law_intersect_pixels(a: Rect, b: Rect, px: int, py: int)
        ensures
            a.common(b).holds(px, py) <==> a.holds(px, py) && b.holds(px, py),
    {
    }

    /// A union has every pixel of either rectangle.
    pub proof fn law_union_pixels(a: Rect, b: Rect, px: int, py: int)
        requires
            a.holds(px, py) || b.holds(px, py),
        ensures
            a.around(b).holds(px, py),
    {
    }

    /// A rectangle has every pixel of one it covers.
    pub proof fn law_covers_pixels(a: Rect, b: Rect, px: int, py: int)
        requires
            a.covers(b),
            b.holds(px, py),
        ensures
            a.holds(px, py),
    {
    }
}

impl Default for Rect {
    fn default() -> (r: Rect)
        ensures
            r == (Rect { x: 0, y: 0, width: 0, height: 0 }),
    {
        Rect { x: 0, y: 0, width: 0, height: 0 }
    }
}

// ---------------------------------------------------------------------------
// Pixels
// ---------------------------------------------------------------------------

/// The decoded remote screen: rows of `0xRRGGBB`, top to bottom.
#[derive(Clone, Debug, PartialEq, Eq)]
pub struct Framebuffer {
    pub width: u32,
    pub height: u32,
    pub pixels: Vec<u32>,
}

impl Framebuffer {
    pub open spec fn wf(self) -> bool {
        self.pixels@.len() == self.width * self.height
    }

    /// The colour at a place on the screen.
    pub open spec fn at(self, x: int, y: int) -> u32 {
        self.pixels@[y * self.width + x]
    }

    /// A black screen.
    pub fn new(width: u32, height: u32) -> (fb: Framebuffer)
        requires
            width * height <= usize::MAX,
        ensures
            fb.wf(),
            fb.width == width,
            fb.height == height,
            forall|i: int| 0 <= i < fb.pixels@.len() ==> fb.pixels@[i] == 0,
    {
        let n: usize = (width as u64 * height as u64) as usize;
        let mut pixels: Vec<u32> = Vec::new();
        while pixels.len() < n
            invariant
                pixels.len() <= n,
                forall|i: int| 0 <= i < pixels@.len() ==> pixels@[i] == 0,
            decreases n - pixels.len(),
        {
            pixels.push(0);
        }
        Framebuffer { width, height, pixels }
    }

    /// The whole screen as a rectangle.
    pub fn bounds(&self) -> (r: Rect)
        ensures
            r == (Rect { x: 0, y: 0, width: self.width, height: self.height }),
    {
        Rect { x: 0, y: 0, width: self.width, height: self.height }
    }

    /// The colour at a place on the screen.
    pub fn get(&self, x: u32, y: u32) -> (c: u32)
        requires
            self.wf(),
            x < self.width,
            y < self.height,
        ensures
            c == self.at(x as int, y as int),
    {
        proof {
            lemma_pixel_index(self.width as int, self.height as int, x as int, y as int);
        }
        let total: usize = self.pixels.len();
        assert(y * self.width + x < total);
        self.pixels[y as usize * self.width as usize + x as usize]
    }

    /// Paint the part of a rectangle that lies on the screen in one colour.
    pub fn fill(&mut self, r: &Rect, color: u32)
        requires
            old(self).wf(),
        ensures
            final(self).wf(),
            final(self).width == old(self).width,
            final(self).height == old(self).height,
            forall|x: int, y: int|
                0 <= x < old(self).width && 0 <= y < old(self).height ==> #[trigger] final(self).at(
                    x,
                    y,
                ) == if r.holds(x, y) {
                    color
                } else {
                    old(self).at(x, y)
                },
    {
        let ghost w = self.width as int;
        let ghost h = self.height as int;
        let ghost start = *self;
        let mut y: u32 = 0;
        while y < self.height
            invariant
                y <= self.height,
                self.wf(),
                start == *old(self),
                self.width == start.width == w,
                self.height == start.height == h,
                forall|i: int, j: int|
                    0 <= i < w && 0 <= j < h ==> #[trigger] self.at(i, j) == if j < y && r.holds(
                        i,
                        j,
                    ) {
                        color
                    } else {
                        start.at(i, j)
                    },
            decreases self.height - y,
        {
            let mut x: u32 = 0;
            while x < self.width
                invariant
                    x <= self.width,
                    y < self.height,
                    self.wf(),
                    self.width == start.width == w,
                    self.height == start.height == h,
                    forall|i: int, j: int|
                        0 <= i < w && 0 <= j < h ==> #[trigger] self.at(i, j) == if (j < y || (j
                            == y && i < x)) && r.holds(i, j) {
                            color
                        } else {
                            start.at(i, j)
                        },
                decreases self.width - x,
            {
                proof {
                    lemma_pixel_index(w, h, x as int, y as int);
                }
                let total: usize = self.pixels.len();
                assert(y * self.width + x < total);
                let ghost before = *self;
                if r.x <= x && x < r.right() && r.y <= y && y < r.bottom() {
                    let at: usize = y as usize * self.width as usize + x as usize;
                    self.pixels[at] = color;
                    proof {
                        assert forall|i: int, j: int|
                            0 <= i < w && 0 <= j < h && !(i == x && j == y) implies self.at(i, j)
                            == before.at(i, j) by {
                            lemma_pixel_index(w, h, i, j);
                            if j * w + i == at {
                                lemma_pixel_distinct(w, i, j, x as int, y as int);
                            }
                        }
                    }
                }
                assert forall|i: int, j: int| 0 <= i < w && 0 <= j < h implies #[trigger] self.at(
                    i,
                    j,
                ) == (if (j < y || (j == y && i < x + 1)) && r.holds(i, j) {
                    color
                } else {
                    start.at(i, j)
                }) by {
                    assert(before.at(i, j) == if (j < y || (j == y && i < x)) && r.holds(i, j) {
                        color
                    } else {
                        start.at(i, j)
                    });
                    if !(i == x && j == y) {
                        assert(self.at(i, j) == before.at(i, j));
                    }
                }
                x = x + 1;
            }
            y = y + 1;
        }
    }
}

/// The index of a pixel lies in the buffer, and tells its place.
pub proof fn lemma_pixel_index(width: int, height: int, x: int, y: int)
    requires
        0 <= x < width,
        0 <= y < height,
    ensures
        0 <= y * width <= y * width + x < width * height,
        (y + 1) * width <= width * height,
        (y + 1) * width == y * width + width,
{
    assert(0 <= y * width) by (nonlinear_arith)
        requires
            0 <= y,
            0 <= width,
    ;
    assert((y + 1) * width == y * width + width) by (nonlinear_arith);
    assert((y + 1) * width <= width * height) by (nonlinear_arith)
        requires
            y + 1 <= height,
            0 <= width,
    ;
}

/// Two places in a row-major buffer are the same only if their indices are.
pub proof fn lemma_pixel_distinct(width: int, x: int, y: int, i: int, j: int)
    requires
        0 <= x < width,
        0 <= i < width,
        0 <= y,
        0 <= j,
        y * width + x == j * width + i,
    ensures
        x == i && y == j,
{
    assert(y == j) by (nonlinear_arith)
        requires
            0 <= x < width,
            0 <= i < width,
            y * width + x == j * width + i,
    ;
}

/// A pointer shape: premultiplied `0xAARRGGBB` pixels and the pixel that
/// points.
#[derive(Debug, PartialEq, Eq)]
pub struct CursorImage {
    pub width: u16,
    pub height: u16,
    pub hot_x: u16,
    pub hot_y: u16,
    pub argb: Vec<u32>,
}

impl CursorImage {
    pub open spec fn wf(self) -> bool {
        self.width * self.height <= self.argb@.len()
    }

    /// Whether two shapes are the same picture.
    pub open spec fn alike(self, other: CursorImage) -> bool {
        self.width == other.width && self.height == other.height && self.hot_x == other.hot_x
            && self.hot_y == other.hot_y && self.argb@ == other.argb@
    }
}

impl Clone for CursorImage {
    fn clone(&self) -> (r: CursorImage)
        ensures
            r.alike(*self),
    {
        let argb = self.argb.clone();
        assert(argb@ =~= self.argb@);
        CursorImage {
            width: self.width,
            height: self.height,
            hot_x: self.hot_x,
            hot_y: self.hot_y,
            argb,
        }
    }
}

// ---------------------------------------------------------------------------
// Features and messages
// ---------------------------------------------------------------------------

/// What two sides of a connection agree to use.
#[derive(Clone, Copy, Debug, PartialEq, Eq, Structural)]
pub struct Features {
    pub local_cursor: bool,
    pub clipboard: bool,
    pub resize: bool,
    pub clipboard_image: bool,
    pub file_transfer: bool,
    pub clipboard_files: bool,
    pub atomic_files: bool,
}

/// The clipboard formats an offer or a request names.
#[derive(Clone, Copy, Debug, PartialEq, Eq, Structural)]
pub struct Formats {
    pub png: bool,
    pub files: bool,
}

/// A file one side has on its clipboard.
#[derive(Clone, Debug, PartialEq, Eq)]
pub struct FileEntry {
    pub path: String,
    pub size: u64,
}

/// What a transfer is for.
#[derive(Clone, Copy, Debug, PartialEq, Eq, Structural)]
pub enum TransferPurpose {
    ClipboardImage,
    FileDownload,
    FileUpload,
}

/// A message of the protocol, as far as the client decides on it.
#[derive(Debug, PartialEq, Eq)]
pub enum Message {
    ClientHello { version: u16, client_name: String, features: Features, width: u16, height: u16 },
    ServerHello {
        version: u16,
        server_name: String,
        features: Features,
        session_id: u64,
        username: String,
        width: u16,
        height: u16,
    },
    Rejected { code: u16, reason: String },
    /// A screen update, with the area that decoding it changed. There is none
    /// where it could not be decoded.
    ScreenUpdate { frame_id: u64, applied: Option<Rect> },
    FrameAck { frame_id: u64 },
    ScreenResized { width: u16, height: u16 },
    CursorShape { cursor: CursorImage },
    CursorPosition { x: u16, y: u16 },
    ClipboardText { text: String },
    ClipboardOffer { formats: Formats },
    ClipboardRequest { formats: Formats },
    FileList { id: u64, files: Vec<FileEntry> },
    FileRequest { id: u64, path: String },
    TransferOptions { id: u64, replace: bool },
    TransferAccept { id: u64, accepted: bool, reason: String },
    TransferEnd { id: u64, ok: bool, message: String },
    KeyEvent { keysym: u32, down: bool },
    PointerMotion { x: u16, y: u16 },
    PointerButton { button: u8, down: bool },
    Scroll { dx: i16, dy: i16 },
    ResizeRequest { width: u16, height: u16 },
    RefreshRequest,
    Notice { text: String },
    Ping { nonce: u64 },
    Pong { nonce: u64 },
    Disconnect { reason: String },
    /// Any other message.
    Other,
}

// ---------------------------------------------------------------------------
// Laws of rectangles and pixels
// ---------------------------------------------------------------------------

/// A rectangle holds the places from its corner on, as many columns as it is
/// wide and as many rows as it is high.
pub proof fn law_rect_holds_its_places(r: Rect, px: int, py: int)
    requires
        0 <= px < u32::MAX,
        0 <= py < u32::MAX,
    ensures
        r.holds(px, py) <==> r.x <= px && px < r.x + r.width && r.y <= py && py < r.y + r.height,
        r.empty() <==> r.width == 0 || r.height == 0,
{
}

/// Two rectangles have in common the places that are in both, and are empty
/// together where there are none.
pub proof fn law_common_is_both(a: Rect, b: Rect, px: int, py: int)
    requires
        0 <= px < u32::MAX,
        0 <= py < u32::MAX,
    ensures
        a.common(b).holds(px, py) <==> (a.x <= px && px < a.x + a.width && a.y <= py && py < a.y
            + a.height && b.x <= px && px < b.x + b.width && b.y <= py && py < b.y + b.height),
{
}

/// What lies around two rectangles is no larger than it must be: it begins at
/// the lesser corner and ends at the greater, and an empty one adds nothing.
pub proof fn law_around_is_the_least(a: Rect, b: Rect)
    requires
        a.x + a.width < u32::MAX,
        a.y + a.height < u32::MAX,
        b.x + b.width < u32::MAX,
        b.y + b.height < u32::MAX,
    ensures
        a.width == 0 || a.height == 0 ==> a.around(b) == b,
        !(a.width == 0 || a.height == 0) && (b.width == 0 || b.height == 0) ==> a.around(b) == a,
        a.width > 0 && a.height > 0 && b.width > 0 && b.height > 0 ==> ({
            let u = a.around(b);
            &&& u.x <= a.x && u.x <= b.x && (u.x == a.x || u.x == b.x)
            &&& u.y <= a.y && u.y <= b.y && (u.y == a.y || u.y == b.y)
            &&& u.x + u.width >= a.x + a.width && u.x + u.width >= b.x + b.width
            &&& u.x + u.width == a.x + a.width || u.x + u.width == b.x + b.width
            &&& u.y + u.height >= a.y + a.height && u.y + u.height >= b.y + b.height
            &&& u.y + u.height == a.y + a.height || u.y + u.height == b.y + b.height
        }),
{
}

/// One rectangle contains another exactly where its corner is no further in and
/// its far corner no nearer.
pub proof fn law_covers_by_corners(a: Rect, b: Rect)
    requires
        a.x + a.width < u32::MAX,
        a.y + a.height < u32::MAX,
        b.x + b.width < u32::MAX,
        b.y + b.height < u32::MAX,
    ensures
        a.covers(b) <==> a.x <= b.x && a.y <= b.y && b.x + b.width <= a.x + a.width && b.y
            + b.height <= a.y + a.height,
{
}

/// A pixel of the screen is stored row by row from the top, each row from the
/// left.
pub proof fn law_pixels_are_stored_by_rows(fb: Framebuffer, x: int, y: int)
    ensures
        fb.at(x, y) == fb.pixels@[y * fb.width + x],
        fb.wf() <==> fb.pixels@.len() == fb.width * fb.height,
{
}

/// The port a server listens on where nothing else is said.
pub proof fn law_default_port()
    ensures
        DEFAULT_PORT == 3390,
{
}

} // verus!
