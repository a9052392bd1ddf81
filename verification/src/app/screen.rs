//! The pixels of the session window.

use vstd::prelude::*;

use crate::proto;
use crate::proto::{CursorImage, Framebuffer, Rect};

verus! {

// ---------------------------------------------------------------------------
// The remote screen
// ---------------------------------------------------------------------------

/// What the window shows of the remote screen at a place: the screen is
/// anchored at the top left, and black is shown beyond it.
pub open spec fn shown(fb: Framebuffer, x: int, y: int) -> u32 {
    if x < fb.width && y < fb.height {
        fb.at(x, y)
    } else {
        0
    }
}

/// Whether a buffer of that size shows the remote screen.
pub open spec fn showing(dst: Seq<u32>, w: int, h: int, fb: Framebuffer) -> bool {
    forall|x: int, y: int|
        0 <= x < w && 0 <= y < h ==> #[trigger] dst[y * w + x] == shown(fb, x, y)
}

/// Copy the framebuffer into the window buffer (top-left anchored, black
/// where the window is larger than the remote screen).
pub fn blit(dst: &mut [u32], dst_w: u32, dst_h: u32, fb: &Framebuffer)
    requires
        fb.wf(),
        dst_w * dst_h <= old(dst)@.len(),
    ensures
        final(dst)@.len() == old(dst)@.len(),
        showing(final(dst)@, dst_w as int, dst_h as int, *fb),
        forall|i: int|
            dst_w * dst_h <= i < old(dst)@.len() ==> final(dst)@[i] == old(dst)@[i],
{
    let mut y: u32 = 0;
    while y < dst_h
        invariant
            y <= dst_h,
            fb.wf(),
            dst@.len() == old(dst)@.len(),
            dst_w * dst_h <= dst@.len(),
            forall|i: int, j: int|
                0 <= i < dst_w && 0 <= j < y ==> #[trigger] dst@[j * dst_w + i] == shown(*fb, i, j),
            forall|i: int| dst_w * dst_h <= i < dst@.len() ==> dst@[i] == old(dst)@[i],
        decreases dst_h - y,
    {
        let mut x: u32 = 0;
        while x < dst_w
            invariant
                x <= dst_w,
                y < dst_h,
                fb.wf(),
                dst@.len() == old(dst)@.len(),
                dst_w * dst_h <= dst@.len(),
                forall|i: int, j: int|
                    0 <= i < dst_w && 0 <= j < y ==> #[trigger] dst@[j * dst_w + i] == shown(
                        *fb,
                        i,
                        j,
                    ),
                forall|i: int|
                    0 <= i < x ==> #[trigger] dst@[y as int * dst_w + i] == shown(*fb, i, y as int),
                forall|i: int| dst_w * dst_h <= i < dst@.len() ==> dst@[i] == old(dst)@[i],
            decreases dst_w - x,
        {
            let color: u32 = if x < fb.width && y < fb.height {
                fb.get(x, y)
            } else {
                0
            };
            proof {
                proto::lemma_pixel_index(dst_w as int, dst_h as int, x as int, y as int);
            }
            let total: usize = dst.len();
            assert(y * dst_w + x < total);
            let at: usize = y as usize * dst_w as usize + x as usize;
            let ghost before = dst@;
            dst[at] = color;
            proof {
                assert(dst@ =~= before.update(at as int, color));
                assert forall|i: int, j: int| 0 <= i < dst_w && 0 <= j < y implies #[trigger] dst@[j
                    * dst_w + i] == shown(*fb, i, j) by {
                    if j * dst_w + i == at {
                        proto::lemma_pixel_distinct(dst_w as int, i, j, x as int, y as int);
                    }
                    proto::lemma_pixel_index(dst_w as int, dst_h as int, i, j);
                    assert(before[j * dst_w + i] == shown(*fb, i, j));
                }
                assert forall|i: int| 0 <= i < x implies #[trigger] dst@[y as int * dst_w + i]
                    == shown(*fb, i, y as int) by {
                    proto::lemma_pixel_index(dst_w as int, dst_h as int, i, y as int);
                    assert(before[y as int * dst_w + i] == shown(*fb, i, y as int));
                }
            }
            x = x + 1;
        }
        y = y + 1;
    }
}

/// Drawing the remote screen leaves no trace of what the window showed before:
/// two buffers end up with the same pixels whatever they held.
pub proof fn law_blit_erases(
    first: Seq<u32>,
    second: Seq<u32>,
    w: int,
    h: int,
    fb: Framebuffer,
)
    requires
        0 < w,
        0 <= h,
        first.len() == w * h,
        second.len() == w * h,
        showing(first, w, h, fb),
        showing(second, w, h, fb),
    ensures
        first == second,
{
    assert forall|i: int| 0 <= i < first.len() implies first[i] == second[i] by {
        let y = i / w;
        let x = i % w;
        assert(i == y * w + x && 0 <= x < w) by {
            vstd::arithmetic::div_mod::lemma_fundamental_div_mod(i, w);
            vstd::arithmetic::div_mod::lemma_mod_bound(i, w);
            assert(w * y == y * w) by (nonlinear_arith);
        }
        assert(0 <= y < h) by (nonlinear_arith)
            requires
                i == y * w + x,
                0 <= x < w,
                0 <= i < w * h,
                0 < w,
        ;
        assert(first[y * w + x] == shown(fb, x, y));
        assert(second[y * w + x] == shown(fb, x, y));
    }
    assert(first =~= second);
}

// ---------------------------------------------------------------------------
// The pointer
// ---------------------------------------------------------------------------

/// One channel of a premultiplied colour with alpha `255 - inv` over another.
pub open spec fn blend(sc: u32, dc: u32, inv: u32) -> u32 {
    proto::min_of(sc + (dc * inv + 127) / 255, 255) as u32
}

/// A premultiplied `0xAARRGGBB` pixel over an opaque `0xRRGGBB` one.
pub open spec fn over(s: u32, d: u32) -> u32 {
    let a = s >> 24u32;
    if a == 0 {
        d
    } else if a == 255 {
        s & 0x00ff_ffffu32
    } else {
        let inv = (255 - a) as u32;
        let r = blend((s >> 16u32) & 0xff, (d >> 16u32) & 0xff, inv);
        let g = blend((s >> 8u32) & 0xff, (d >> 8u32) & 0xff, inv);
        let b = blend(s & 0xff, d & 0xff, inv);
        (r << 16u32) | (g << 8u32) | b
    }
}

fn blend_channel(sc: u32, dc: u32, inv: u32) -> (r: u32)
    requires
        sc <= 255,
        dc <= 255,
        inv <= 255,
    ensures
        r == blend(sc, dc, inv),
{
    assert(dc * inv <= 255 * 255) by (nonlinear_arith)
        requires
            dc <= 255,
            inv <= 255,
    ;
    proto::min_u32(sc + (dc * inv + 127) / 255, 255)
}

fn pixel_over(s: u32, d: u32) -> (r: u32)
    ensures
        r == over(s, d),
{
    let a: u32 = s >> 24u32;
    assert(s >> 24u32 <= 255) by (bit_vector);
    if a == 0 {
        return d;
    }
    if a == 255 {
        return s & 0x00ff_ffffu32;
    }
    let inv: u32 = 255 - a;
    assert(forall|v: u32| #[trigger] (v & 0xff) <= 255) by (bit_vector);
    let r: u32 = blend_channel((s >> 16u32) & 0xff, (d >> 16u32) & 0xff, inv);
    let g: u32 = blend_channel((s >> 8u32) & 0xff, (d >> 8u32) & 0xff, inv);
    let b: u32 = blend_channel(s & 0xff, d & 0xff, inv);
    (r << 16u32) | (g << 8u32) | b
}

/// Whether a pointer shape with its hot spot at `(px, py)` reaches a place.
pub open spec fn reaches(cur: CursorImage, px: int, py: int, x: int, y: int) -> bool {
    0 <= x - (px - cur.hot_x) < cur.width && 0 <= y - (py - cur.hot_y) < cur.height
}

/// What a place shows once the pointer is drawn over the colour `d`.
pub open spec fn pointed(cur: CursorImage, px: int, py: int, x: int, y: int, d: u32) -> u32 {
    if reaches(cur, px, py, x, y) {
        over(cur.argb@[(y - (py - cur.hot_y)) * cur.width + (x - (px - cur.hot_x))], d)
    } else {
        d
    }
}

/// Alpha-blend a premultiplied ARGB cursor onto the buffer.
pub fn draw_cursor(dst: &mut [u32], dst_w: u32, dst_h: u32, cur: &CursorImage, px: u32, py: u32)
    requires
        cur.wf(),
        dst_w * dst_h <= old(dst)@.len(),
    ensures
        final(dst)@.len() == old(dst)@.len(),
        forall|x: int, y: int|
            0 <= x < dst_w && 0 <= y < dst_h ==> #[trigger] final(dst)@[y * dst_w + x] == pointed(
                *cur,
                px as int,
                py as int,
                x,
                y,
                old(dst)@[y * dst_w + x],
            ),
        forall|i: int|
            dst_w * dst_h <= i < old(dst)@.len() ==> final(dst)@[i] == old(dst)@[i],
{
    let ox: i64 = px as i64 - cur.hot_x as i64;
    let oy: i64 = py as i64 - cur.hot_y as i64;
    let ghost start = dst@;
    let ghost w = dst_w as int;
    let mut y: u32 = 0;
    while y < dst_h
        invariant
            y <= dst_h,
            cur.wf(),
            w == dst_w,
            ox == px - cur.hot_x,
            oy == py - cur.hot_y,
            start == old(dst)@,
            dst@.len() == start.len(),
            dst_w * dst_h <= dst@.len(),
            forall|i: int, j: int|
                0 <= i < w && 0 <= j < y ==> #[trigger] dst@[j * w + i] == pointed(
                    *cur,
                    px as int,
                    py as int,
                    i,
                    j,
                    start[j * w + i],
                ),
            forall|i: int| y * w <= i < dst@.len() ==> dst@[i] == start[i],
        decreases dst_h - y,
    {
        let mut x: u32 = 0;
        while x < dst_w
            invariant
                x <= dst_w,
                y < dst_h,
                cur.wf(),
                w == dst_w,
                ox == px - cur.hot_x,
                oy == py - cur.hot_y,
                dst@.len() == start.len(),
                dst_w * dst_h <= dst@.len(),
                forall|i: int, j: int|
                    0 <= i < w && 0 <= j < y ==> #[trigger] dst@[j * w + i] == pointed(
                        *cur,
                        px as int,
                        py as int,
                        i,
                        j,
                        start[j * w + i],
                    ),
                forall|i: int|
                    0 <= i < x ==> #[trigger] dst@[y * w + i] == pointed(
                        *cur,
                        px as int,
                        py as int,
                        i,
                        y as int,
                        start[y * w + i],
                    ),
                forall|i: int| y * w + x <= i < dst@.len() ==> dst@[i] == start[i],
            decreases dst_w - x,
        {
            proof {
                proto::lemma_pixel_index(w, dst_h as int, x as int, y as int);
            }
            let total: usize = dst.len();
            assert(y * dst_w + x < total);
            let at: usize = y as usize * dst_w as usize + x as usize;
            let cx: i64 = x as i64 - ox;
            let cy: i64 = y as i64 - oy;
            let ghost before = dst@;
            if 0 <= cx && cx < cur.width as i64 && 0 <= cy && cy < cur.height as i64 {
                proof {
                    proto::lemma_pixel_index(
                        cur.width as int,
                        cur.height as int,
                        cx as int,
                        cy as int,
                    );
                }
                let total: usize = cur.argb.len();
                assert(cy * cur.width + cx < total);
                let s: u32 = cur.argb[cy as usize * cur.width as usize + cx as usize];
                let d: u32 = dst[at];
                dst[at] = pixel_over(s, d);
            }
            proof {
                assert(forall|i: int|
                    0 <= i < before.len() && i != at ==> dst@[i] == before[i]);
                assert forall|i: int, j: int| 0 <= i < w && 0 <= j < y implies #[trigger] dst@[j * w
                    + i] == pointed(*cur, px as int, py as int, i, j, start[j * w + i]) by {
                    if j * w + i == at {
                        proto::lemma_pixel_distinct(w, i, j, x as int, y as int);
                    }
                    proto::lemma_pixel_index(w, dst_h as int, i, j);
                    assert(before[j * w + i] == pointed(
                        *cur,
                        px as int,
                        py as int,
                        i,
                        j,
                        start[j * w + i],
                    ));
                }
                assert forall|i: int| 0 <= i < x implies #[trigger] dst@[y * w + i] == pointed(
                    *cur,
                    px as int,
                    py as int,
                    i,
                    y as int,
                    start[y * w + i],
                ) by {
                    proto::lemma_pixel_index(w, dst_h as int, i, y as int);
                    assert(before[y * w + i] == pointed(
                        *cur,
                        px as int,
                        py as int,
                        i,
                        y as int,
                        start[y * w + i],
                    ));
                }
            }
            x = x + 1;
        }
        proof {
            assert((y + 1) * w == y * w + w) by (nonlinear_arith);
        }
        y = y + 1;
    }
    proof {
        assert(dst_h * w == dst_w * dst_h) by (nonlinear_arith)
            requires
                w == dst_w,
        ;
    }
}

/// The part of the window a pointer shape with its hot spot at `(px, py)`
/// covers, cut off at the top and left edges.
pub open spec fn pointer_area(cur: CursorImage, px: int, py: int) -> Rect {
    let x = px - cur.hot_x;
    let y = py - cur.hot_y;
    let x0 = proto::max_of(x, 0);
    let y0 = proto::max_of(y, 0);
    Rect {
        x: x0 as u32,
        y: y0 as u32,
        width: proto::max_of(x + cur.width - x0, 0) as u32,
        height: proto::max_of(y + cur.height - y0, 0) as u32,
    }
}

/// The window rectangle a cursor image covers at `(px, py)`, clamped to the
/// positive quadrant. Used to present the pixels the pointer leaves behind.
pub fn cursor_bounds(cur: &CursorImage, px: u32, py: u32) -> (r: Rect)
    ensures
        r == pointer_area(*cur, px as int, py as int),
{
    let x: i64 = px as i64 - cur.hot_x as i64;
    let y: i64 = py as i64 - cur.hot_y as i64;
    let x0: i64 = if x > 0 {
        x
    } else {
        0
    };
    let y0: i64 = if y > 0 {
        y
    } else {
        0
    };
    let w: i64 = x + cur.width as i64 - x0;
    let h: i64 = y + cur.height as i64 - y0;
    Rect::new(
        x0 as u32,
        y0 as u32,
        if w > 0 {
            w as u32
        } else {
            0
        },
        if h > 0 {
            h as u32
        } else {
            0
        },
    )
}

/// Every place of a window that the pointer reaches lies in its bounds, so
/// presenting them presents all that drawing it changed.
pub proof fn law_cursor_bounds_cover(cur: CursorImage, px: u32, py: u32, x: int, y: int)
    requires
        0 <= x < u32::MAX,
        0 <= y < u32::MAX,
        reaches(cur, px as int, py as int, x, y),
    ensures
        pointer_area(cur, px as int, py as int).holds(x, y),
{
}

// ---------------------------------------------------------------------------
// What to present
// ---------------------------------------------------------------------------

/// The rectangles of a list that `r` does not cover.
pub open spec fn uncovered(out: Seq<Rect>, r: Rect) -> Seq<Rect>
    decreases out.len(),
{
    if out.len() == 0 {
        out
    } else if r.covers(out.last()) {
        uncovered(out.drop_last(), r)
    } else {
        uncovered(out.drop_last(), r).push(out.last())
    }
}

/// Whether some rectangle of a list covers `r`.
pub open spec fn covered(out: Seq<Rect>, r: Rect) -> bool {
    exists|i: int| 0 <= i < out.len() && (#[trigger] out[i]).covers(r)
}

/// A list of damaged rectangles with one more taken in: it is left out where
/// one of the list covers it, and takes the place of those it covers.
pub open spec fn with_damage(out: Seq<Rect>, r: Rect) -> Seq<Rect> {
    if r.empty() || covered(out, r) {
        out
    } else {
        uncovered(out, r).push(r)
    }
}

/// The damaged parts of a window, clipped to it.
pub open spec fn damage(win: Rect, parts: Seq<Rect>) -> Seq<Rect>
    decreases parts.len(),
{
    if parts.len() == 0 {
        seq![]
    } else {
        with_damage(damage(win, parts.drop_last()), parts.last().common(win))
    }
}

/// What to present: the damaged parts, or everything where that was asked for
/// or nothing is damaged.
pub open spec fn presented(win: Rect, full: bool, parts: Seq<Rect>) -> Seq<Rect> {
    if full || damage(win, parts).len() == 0 {
        seq![win]
    } else {
        damage(win, parts)
    }
}

fn covered_by_any(out: &Vec<Rect>, r: &Rect) -> (b: bool)
    ensures
        b == covered(out@, *r),
{
    let mut i: usize = 0;
    while i < out.len()
        invariant
            i <= out.len(),
            forall|k: int| 0 <= k < i ==> !(#[trigger] out@[k]).covers(*r),
        decreases out.len() - i,
    {
        if out[i].contains(r) {
            return true;
        }
        i = i + 1;
    }
    false
}

fn drop_covered(out: &Vec<Rect>, r: &Rect) -> (kept: Vec<Rect>)
    ensures
        kept@ == uncovered(out@, *r),
{
    let mut kept: Vec<Rect> = Vec::new();
    let mut i: usize = 0;
    while i < out.len()
        invariant
            i <= out.len(),
            kept@ == uncovered(out@.take(i as int), *r),
        decreases out.len() - i,
    {
        assert(out@.take(i + 1).drop_last() =~= out@.take(i as int));
        if !r.contains(&out[i]) {
            kept.push(out[i]);
        }
        i = i + 1;
    }
    assert(out@.take(out@.len() as int) =~= out@);
    kept
}

/// Work out what to present.
///
/// `parts` are candidate damaged rectangles in window coordinates; empty ones
/// are ignored and the rest are clipped to `win`. A rectangle already covered
/// by another is dropped, so a full-window part collapses the list rather than
/// presenting the same pixels twice.
///
/// An empty result would mean the whole window, so that is what is returned:
/// it is what a compositor-driven expose looks like, where nothing in our own
/// state changed but the pixels still have to go out.
pub fn damage_regions(win: Rect, full: bool, parts: &[Rect]) -> (out: Vec<Rect>)
    ensures
        out@ == presented(win, full, parts@),
{
    if full {
        let mut all: Vec<Rect> = Vec::new();
        all.push(win);
        return all;
    }
    let mut out: Vec<Rect> = Vec::new();
    let mut i: usize = 0;
    while i < parts.len()
        invariant
            i <= parts.len(),
            out@ == damage(win, parts@.take(i as int)),
        decreases parts.len() - i,
    {
        assert(parts@.take(i + 1).drop_last() =~= parts@.take(i as int));
        let r = parts[i].intersect(&win);
        if !r.is_empty() && !covered_by_any(&out, &r) {
            let mut kept = drop_covered(&out, &r);
            kept.push(r);
            out = kept;
        }
        i = i + 1;
    }
    assert(parts@.take(parts@.len() as int) =~= parts@);
    if out.len() == 0 {
        out.push(win);
    }
    out
}

proof fn lemma_uncovered(out: Seq<Rect>, r: Rect)
    ensures
        forall|i: int|
            0 <= i < uncovered(out, r).len() ==> out.contains(#[trigger] uncovered(out, r)[i])
                && !r.covers(uncovered(out, r)[i]),
        forall|i: int|
            0 <= i < out.len() && !r.covers(#[trigger] out[i]) ==> uncovered(out, r).contains(
                out[i],
            ),
        uncovered(out, r).len() <= out.len(),
    decreases out.len(),
{
    if out.len() > 0 {
        let head = out.drop_last();
        lemma_uncovered(head, r);
        let kept = uncovered(out, r);
        assert forall|i: int| 0 <= i < kept.len() implies out.contains(#[trigger] kept[i])
            && !r.covers(kept[i]) by {
            if i < uncovered(head, r).len() {
                let k = choose|k: int| 0 <= k < head.len() && head[k] == uncovered(head, r)[i];
                assert(out[k] == kept[i]);
            } else {
                assert(kept[i] == out[out.len() - 1]);
            }
        }
        assert forall|i: int| 0 <= i < out.len() && !r.covers(#[trigger] out[i]) implies kept.contains(
            out[i],
        ) by {
            if i < head.len() {
                assert(head[i] == out[i]);
                let k = choose|k: int|
                    0 <= k < uncovered(head, r).len() && uncovered(head, r)[k] == out[i];
                assert(kept[k] == out[i]);
            } else {
                assert(kept[kept.len() - 1] == out[i]);
            }
        }
    }
}

/// Whether some rectangle of a list has the pixel.
pub open spec fn lit(out: Seq<Rect>, px: int, py: int) -> bool {
    exists|i: int| 0 <= i < out.len() && (#[trigger] out[i]).holds(px, py)
}

proof fn lemma_with_damage_lit(out: Seq<Rect>, r: Rect, px: int, py: int)
    ensures
        lit(with_damage(out, r), px, py) <==> lit(out, px, py) || r.holds(px, py),
{
    let after = with_damage(out, r);
    lemma_uncovered(out, r);
    if r.empty() {
    } else if covered(out, r) {
        if r.holds(px, py) {
            let k = choose|k: int| 0 <= k < out.len() && (#[trigger] out[k]).covers(r);
            assert(out[k].holds(px, py));
        }
    } else {
        let kept = uncovered(out, r);
        if lit(after, px, py) {
            let k = choose|k: int| 0 <= k < after.len() && (#[trigger] after[k]).holds(px, py);
            if k < kept.len() {
                assert(out.contains(kept[k]));
                let j = choose|j: int| 0 <= j < out.len() && out[j] == kept[k];
                assert(out[j].holds(px, py));
            }
        }
        if r.holds(px, py) {
            assert(after[kept.len() as int].holds(px, py));
        } else if lit(out, px, py) {
            let k = choose|k: int| 0 <= k < out.len() && (#[trigger] out[k]).holds(px, py);
            assert(!r.covers(out[k])) by {
                if r.covers(out[k]) {
                    Rect::law_covers_pixels(r, out[k], px, py);
                }
            }
            let j = choose|j: int| 0 <= j < kept.len() && kept[j] == out[k];
            assert(after[j].holds(px, py));
        }
    }
}

/// The damaged rectangles have exactly the pixels of the window that some part
/// has: nothing that changed is left out, and nothing else is presented.
pub proof fn law_damage_exact(win: Rect, parts: Seq<Rect>, px: int, py: int)
    ensures
        lit(damage(win, parts), px, py) <==> win.holds(px, py) && lit(parts, px, py),
    decreases parts.len(),
{
    if parts.len() > 0 {
        let head = parts.drop_last();
        law_damage_exact(win, head, px, py);
        lemma_with_damage_lit(damage(win, head), parts.last().common(win), px, py);
        if lit(parts, px, py) {
            let k = choose|k: int| 0 <= k < parts.len() && (#[trigger] parts[k]).holds(px, py);
            if k < head.len() {
                assert(head[k].holds(px, py));
            }
        }
        if lit(head, px, py) {
            let k = choose|k: int| 0 <= k < head.len() && (#[trigger] head[k]).holds(px, py);
            assert(parts[k].holds(px, py));
        }
        if parts.last().holds(px, py) {
            assert(parts[parts.len() - 1].holds(px, py));
        }
    }
}

/// Whether no rectangle of a list is empty or covered by another.
pub open spec fn spare(out: Seq<Rect>) -> bool {
    &&& forall|i: int| 0 <= i < out.len() ==> !(#[trigger] out[i]).empty()
    &&& forall|i: int, j: int|
        0 <= i < out.len() && 0 <= j < out.len() && i != j ==> !(#[trigger] out[i]).covers(
            #[trigger] out[j],
        )
}

proof fn lemma_uncovered_spare(out: Seq<Rect>, r: Rect)
    requires
        spare(out),
    ensures
        spare(uncovered(out, r)),
    decreases out.len(),
{
    if out.len() > 0 {
        let head = out.drop_last();
        assert(spare(head)) by {
            assert forall|i: int, j: int|
                0 <= i < head.len() && 0 <= j < head.len() && i != j implies !(
            #[trigger] head[i]).covers(#[trigger] head[j]) by {
                assert(head[i] == out[i] && head[j] == out[j]);
            }
            assert forall|i: int| 0 <= i < head.len() implies !(#[trigger] head[i]).empty() by {
                assert(head[i] == out[i]);
            }
        }
        lemma_uncovered_spare(head, r);
        lemma_uncovered(head, r);
        let kept = uncovered(head, r);
        let all = uncovered(out, r);
        assert forall|i: int, j: int|
            0 <= i < all.len() && 0 <= j < all.len() && i != j implies !(#[trigger] all[i]).covers(
            #[trigger] all[j],
        ) by {
            if i >= kept.len() {
                assert(head.contains(kept[j]));
                let k = choose|k: int| 0 <= k < head.len() && head[k] == kept[j];
                assert(out[k] == all[j] && out[out.len() - 1] == all[i]);
            } else if j >= kept.len() {
                assert(head.contains(kept[i]));
                let k = choose|k: int| 0 <= k < head.len() && head[k] == kept[i];
                assert(out[k] == all[i] && out[out.len() - 1] == all[j]);
            }
        }
    }
}

/// No damaged rectangle is empty, and none lies inside another: the same
/// pixels are not presented for the sake of a rectangle that adds nothing.
pub proof fn law_damage_spare(win: Rect, parts: Seq<Rect>)
    ensures
        spare(damage(win, parts)),
    decreases parts.len(),
{
    if parts.len() > 0 {
        let out = damage(win, parts.drop_last());
        let r = parts.last().common(win);
        law_damage_spare(win, parts.drop_last());
        if !r.empty() && !covered(out, r) {
            lemma_uncovered_spare(out, r);
            lemma_uncovered(out, r);
            let kept = uncovered(out, r);
            let after = kept.push(r);
            assert forall|i: int, j: int|
                0 <= i < after.len() && 0 <= j < after.len() && i != j implies !(
            #[trigger] after[i]).covers(#[trigger] after[j]) by {
                if i < kept.len() && j >= kept.len() {
                    assert(out.contains(kept[i]));
                    let k = choose|k: int| 0 <= k < out.len() && out[k] == kept[i];
                    assert(!out[k].covers(r));
                }
            }
        }
    }
}

// ---------------------------------------------------------------------------
// Clipboard images
// ---------------------------------------------------------------------------

pub const DIGEST_SEED: u64 = 0xcbf2_9ce4_8422_2325;

pub const DIGEST_FACTOR: u64 = 0x0000_0100_0000_01b3;

/// The FNV-1a hash of a sequence of bytes.
pub open spec fn fnv1a(bytes: Seq<u8>) -> u64
    decreases bytes.len(),
{
    if bytes.len() == 0 {
        DIGEST_SEED
    } else {
        vstd::wrapping::u64_specs::wrapping_mul(
            fnv1a(bytes.drop_last()) ^ (bytes.last() as u64),
            DIGEST_FACTOR,
        )
    }
}

/// The digest of image bytes.
pub open spec fn digest(bytes: Seq<u8>) -> u64 {
    fnv1a(bytes) ^ (bytes.len() as u64)
}

/// A cheap digest of image bytes, used only to notice that the clipboard
/// image changed. Collisions would merely skip one redundant offer.
pub fn image_digest(bytes: &[u8]) -> (d: u64)
    ensures
        d == digest(bytes@),
{
    let mut h: u64 = DIGEST_SEED;
    let mut i: usize = 0;
    while i < bytes.len()
        invariant
            i <= bytes.len(),
            h == fnv1a(bytes@.take(i as int)),
        decreases bytes.len() - i,
    {
        assert(bytes@.take(i + 1).drop_last() =~= bytes@.take(i as int));
        h = (h ^ (bytes[i] as u64)).wrapping_mul(DIGEST_FACTOR);
        i = i + 1;
    }
    assert(bytes@.take(bytes@.len() as int) =~= bytes@);
    h ^ (bytes.len() as u64)
}

// ---------------------------------------------------------------------------
// Laws of what is seen
// ---------------------------------------------------------------------------

/// The window shows the remote screen pixel for pixel from the top left: a place
/// in both shows the pixel the framebuffer stores for that column and row, and a
/// place beyond the screen is black.
pub proof fn law_window_shows_the_screen(
    dst: Seq<u32>,
    w: int,
    h: int,
    fb: Framebuffer,
    x: int,
    y: int,
)
    requires
        showing(dst, w, h, fb),
        0 <= x < w,
        0 <= y < h,
    ensures
        x < fb.width && y < fb.height ==> dst[y * w + x] == fb.pixels@[y * fb.width + x],
        x >= fb.width || y >= fb.height ==> dst[y * w + x] == 0,
{
    assert(dst[y * w + x] == shown(fb, x, y));
}

/// The pointer is drawn with its hot spot on the place it points at: each pixel
/// of its shape goes over the place as far from there as it is from the hot
/// spot, one of no alpha leaves the place as it is, one of full alpha is seen
/// alone, and no place off the shape changes.
pub proof fn law_pointer_is_drawn_around_its_hot_spot(
    cur: CursorImage,
    px: int,
    py: int,
    x: int,
    y: int,
    d: u32,
)
    ensures
        ({
            let cx = x - px + cur.hot_x;
            let cy = y - py + cur.hot_y;
            let s = cur.argb@[cy * cur.width + cx];
            let inside = 0 <= cx && cx < cur.width && 0 <= cy && cy < cur.height;
            &&& !inside ==> pointed(cur, px, py, x, y, d) == d
            &&& inside && s < 0x0100_0000 ==> pointed(cur, px, py, x, y, d) == d
            &&& inside && s >= 0xff00_0000 ==> pointed(cur, px, py, x, y, d) == s - 0xff00_0000
            &&& reaches(cur, px, py, x, y) <==> inside
        }),
{
    let cx = x - px + cur.hot_x;
    let cy = y - py + cur.hot_y;
    let s = cur.argb@[cy * cur.width + cx];
    assert(y - (py - cur.hot_y) == cy);
    assert(x - (px - cur.hot_x) == cx);
    assert(s < 0x0100_0000u32 ==> s >> 24u32 == 0) by (bit_vector);
    assert(s >= 0xff00_0000u32 ==> s >> 24u32 == 255 && s & 0x00ff_ffffu32 == s - 0xff00_0000)
        by (bit_vector);
}

/// A channel of a translucent pixel is its own premultiplied value and as much
/// of what is below as the alpha lets through, to the nearest step, and never
/// more than full.
pub proof fn law_translucent_channel(sc: u32, dc: u32, a: u32)
    requires
        sc <= 255,
        dc <= 255,
        a <= 255,
    ensures
        ({
            let r = blend(sc, dc, (255 - a) as u32);
            &&& r <= 255
            &&& r < 255 ==> -127 <= 255 * r - (255 * sc + dc * (255 - a)) <= 127
            &&& r == 255 ==> 255 * sc + dc * (255 - a) >= 255 * 255 - 127
        }),
{
    let inv = (255 - a) as int;
    assert(0 <= dc * inv <= 255 * 255) by (nonlinear_arith)
        requires
            0 <= dc <= 255,
            0 <= inv <= 255,
    ;
}

/// The colours of a translucent pixel are its own over those below, each in its
/// own place: red over red, green over green and blue over blue.
pub proof fn law_translucent_colours_stay_apart(s: u32, d: u32)
    requires
        0x0100_0000 <= s < 0xff00_0000,
    ensures
        ({
            let inv = (255 - s / 0x100_0000) as u32;
            &&& over(s, d) < 0x0100_0000
            &&& over(s, d) / 0x1_0000 == blend(
                (s / 0x1_0000 % 0x100) as u32,
                (d / 0x1_0000 % 0x100) as u32,
                inv,
            )
            &&& over(s, d) / 0x100 % 0x100 == blend(
                (s / 0x100 % 0x100) as u32,
                (d / 0x100 % 0x100) as u32,
                inv,
            )
            &&& over(s, d) % 0x100 == blend((s % 0x100) as u32, (d % 0x100) as u32, inv)
        }),
{
    assert(s >> 24u32 == s / 0x100_0000) by (bit_vector);
    assert((s >> 16u32) & 0xff == s / 0x1_0000 % 0x100) by (bit_vector);
    assert((s >> 8u32) & 0xff == s / 0x100 % 0x100) by (bit_vector);
    assert(s & 0xff == s % 0x100) by (bit_vector);
    assert((d >> 16u32) & 0xff == d / 0x1_0000 % 0x100) by (bit_vector);
    assert((d >> 8u32) & 0xff == d / 0x100 % 0x100) by (bit_vector);
    assert(d & 0xff == d % 0x100) by (bit_vector);
    assert(0x0100_0000u32 <= s < 0xff00_0000u32 ==> 0 < s / 0x100_0000 < 255) by (bit_vector);
    let inv = (255 - s / 0x100_0000) as u32;
    let r = blend((s / 0x1_0000 % 0x100) as u32, (d / 0x1_0000 % 0x100) as u32, inv);
    let g = blend((s / 0x100 % 0x100) as u32, (d / 0x100 % 0x100) as u32, inv);
    let b = blend((s % 0x100) as u32, (d % 0x100) as u32, inv);
    law_translucent_channel(
        (s / 0x1_0000 % 0x100) as u32,
        (d / 0x1_0000 % 0x100) as u32,
        (255 - inv) as u32,
    );
    law_translucent_channel(
        (s / 0x100 % 0x100) as u32,
        (d / 0x100 % 0x100) as u32,
        (255 - inv) as u32,
    );
    law_translucent_channel((s % 0x100) as u32, (d % 0x100) as u32, (255 - inv) as u32);
    assert(r <= 255 && g <= 255 && b <= 255 ==> ({
        let o = (r << 16u32) | (g << 8u32) | b;
        o < 0x0100_0000 && o / 0x1_0000 == r && o / 0x100 % 0x100 == g && o % 0x100 == b
    })) by (bit_vector);
}

/// The area a pointer covers is its shape's own, but for what is off the top or
/// the left of the window.
pub proof fn law_pointer_area_is_its_shape(cur: CursorImage, px: u32, py: u32, x: int, y: int)
    requires
        0 <= x < u32::MAX,
        0 <= y < u32::MAX,
    ensures
        pointer_area(cur, px as int, py as int).holds(x, y) <==> px - cur.hot_x <= x && x < px
            - cur.hot_x + cur.width && py - cur.hot_y <= y && y < py - cur.hot_y + cur.height,
{
}

/// What is presented of a window: all of it where everything is to be repainted
/// or nothing is damaged in it; otherwise each damaged place of the window, and
/// no other.
pub proof fn law_presented_is_the_damage(
    win: Rect,
    full: bool,
    parts: Seq<Rect>,
    px: int,
    py: int,
)
    requires
        0 <= px < u32::MAX,
        0 <= py < u32::MAX,
    ensures
        full ==> presented(win, full, parts) == seq![win],
        ({
            let in_win = win.x <= px && px < win.x + win.width && win.y <= py && py < win.y
                + win.height;
            let in_part = exists|i: int|
                0 <= i < parts.len() && (#[trigger] parts[i]).x <= px && px < parts[i].x
                    + parts[i].width && parts[i].y <= py && py < parts[i].y + parts[i].height;
            let seen = exists|i: int|
                0 <= i < presented(win, full, parts).len() && (#[trigger] presented(
                    win,
                    full,
                    parts,
                )[i]).holds(px, py);
            &&& in_win && in_part ==> seen
            &&& seen ==> in_win
            &&& seen && !in_part ==> presented(win, full, parts) == seq![win]
        }),
{
    law_damage_exact(win, parts, px, py);
    let all = presented(win, full, parts);
    let in_part = exists|i: int|
        0 <= i < parts.len() && (#[trigger] parts[i]).x <= px && px < parts[i].x + parts[i].width
            && parts[i].y <= py && py < parts[i].y + parts[i].height;
    assert(lit(parts, px, py) == in_part) by {
        if in_part {
            let i = choose|i: int|
                0 <= i < parts.len() && (#[trigger] parts[i]).x <= px && px < parts[i].x
                    + parts[i].width && parts[i].y <= py && py < parts[i].y + parts[i].height;
            assert(parts[i].holds(px, py));
        }
    }
    if all == seq![win] {
        assert(all[0] == win);
        assert(lit(all, px, py) <==> win.holds(px, py));
    }
    assert(lit(all, px, py) == exists|i: int|
        0 <= i < all.len() && (#[trigger] all[i]).holds(px, py));
}

/// The digest of an image goes on from that of its beginning, byte by byte, and
/// takes its length in: a hash that is well known.
pub proof fn law_digest_takes_every_byte(bytes: Seq<u8>, b: u8)
    ensures
        digest(Seq::empty()) == 0xcbf2_9ce4_8422_2325,
        digest(bytes.push(b)) ^ ((bytes.len() + 1) as u64)
            == vstd::wrapping::u64_specs::wrapping_mul(
            (digest(bytes) ^ (bytes.len() as u64)) ^ (b as u64),
            0x0000_0100_0000_01b3,
        ),
{
    assert(bytes.push(b).drop_last() =~= bytes);
    assert(forall|a: u64, n: u64| #[trigger] ((a ^ n) ^ n) == a) by (bit_vector);
    assert(0xcbf2_9ce4_8422_2325u64 ^ 0u64 == 0xcbf2_9ce4_8422_2325u64) by (bit_vector);
}

} // verus!
