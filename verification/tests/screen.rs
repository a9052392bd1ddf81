use lynxrdp_client::app::{blit, cursor_bounds, damage_regions, draw_cursor, image_digest};
use lynxrdp_client::overlay::{bar_layout, paint, Measured, Status};
use lynxrdp_client::proto::{CursorImage, Framebuffer, Rect};

#[test]
fn blit_clips_and_pads() {
    let mut fb = Framebuffer::new(3, 2);
    let bounds = fb.bounds();
    fb.fill(&bounds, 0x123456);
    let mut dst = vec![0xFFu32; 4 * 3];
    blit(&mut dst, 4, 3, &fb);
    assert_eq!(dst[0], 0x123456);
    assert_eq!(dst[2], 0x123456);
    assert_eq!(dst[3], 0);
    assert_eq!(dst[8], 0);
    let mut small = vec![0u32; 2];
    blit(&mut small, 2, 1, &fb);
    assert_eq!(small, vec![0x123456, 0x123456]);
}

#[test]
fn damage_names_only_what_moved() {
    let win = Rect::new(0, 0, 800, 600);
    let got = damage_regions(
        win,
        false,
        &[
            Rect::new(10, 10, 20, 20),
            Rect::default(),
            Rect::new(700, 500, 32, 32),
        ],
    );
    assert_eq!(
        got,
        vec![Rect::new(10, 10, 20, 20), Rect::new(700, 500, 32, 32)]
    );
}

#[test]
fn damage_is_clipped_and_deduplicated() {
    let win = Rect::new(0, 0, 800, 600);
    // A rectangle running off the edge is clipped, not refused: a cursor
    // half off the window still has to be presented.
    let got = damage_regions(win, false, &[Rect::new(790, 590, 32, 32)]);
    assert_eq!(got, vec![Rect::new(790, 590, 10, 10)]);
    // A part covering another collapses the list rather than uploading
    // the same pixels twice.
    let got = damage_regions(
        win,
        false,
        &[Rect::new(10, 10, 4, 4), win, Rect::new(0, 0, 8, 8)],
    );
    assert_eq!(got, vec![win]);
}

#[test]
fn nothing_to_present_still_presents_everything() {
    // A redraw we did not ask for is an expose: our own state says nothing
    // changed, but the pixels still have to go out.
    let win = Rect::new(0, 0, 800, 600);
    assert_eq!(damage_regions(win, false, &[]), vec![win]);
    assert_eq!(damage_regions(win, false, &[Rect::default()]), vec![win]);
    assert_eq!(
        damage_regions(win, true, &[Rect::new(1, 1, 2, 2)]),
        vec![win]
    );
}

#[test]
fn a_cursor_rectangle_covers_every_pixel_the_cursor_draws() {
    let cur = CursorImage {
        width: 16,
        height: 16,
        hot_x: 4,
        hot_y: 4,
        argb: vec![0xFF00_0000; 256],
    };
    assert_eq!(cursor_bounds(&cur, 100, 100), Rect::new(96, 96, 16, 16));
    // Clamped at the top-left corner: the visible part only.
    assert_eq!(cursor_bounds(&cur, 1, 2), Rect::new(0, 0, 13, 14));
    // Wholly off the top-left: nothing to present.
    assert!(
        cursor_bounds(&cur, 0, 0)
            .intersect(&Rect::new(0, 0, 800, 600))
            .area()
            <= 144
    );
}

#[test]
fn the_bar_leaves_no_trace_in_the_framebuffer() {
    // The bar is drawn into the presented buffer, so the next frame's blit
    // erases it whole.
    let mut fb = Framebuffer::new(200, 80);
    let bounds = fb.bounds();
    fb.fill(&bounds, 0x0033_6699);
    let before = fb.pixels.clone();

    let (w, h) = (200u32, 80u32);
    let mut clean = vec![0u32; (w * h) as usize];
    blit(&mut clean, w, h, &fb);

    let mut buf = vec![0u32; (w * h) as usize];
    blit(&mut buf, w, h, &fb);
    let status = Status::new("a@b", (200, 80), None);
    let measured = Measured {
        fields: status
            .fields()
            .iter()
            .map(|spans| spans.iter().map(|s| 7 * s.text.chars().count() as u32).collect())
            .collect(),
        labels: vec![60, 60, 60, 60],
        cuts: vec![7, 14, 21, 28],
    };
    let layout = bar_layout(w, 2, &status, &measured);
    let marks = paint(&layout, w, None, None);
    assert!(!marks.is_empty(), "the bar should have drawn something");
    for x in 0..w as usize {
        buf[x] = 0;
    }
    assert_ne!(buf, clean);
    assert_eq!(fb.pixels, before, "the framebuffer must be untouched");

    blit(&mut buf, w, h, &fb);
    assert_eq!(buf, clean, "the next blit must erase every trace of it");
}

#[test]
fn cursor_blends_and_clips() {
    let mut dst = vec![0u32; 4 * 4];
    let cur = CursorImage {
        width: 2,
        height: 2,
        hot_x: 1,
        hot_y: 1,
        argb: vec![0xFF00FF00, 0x80800000, 0x00000000, 0xFF0000FF],
    };
    draw_cursor(&mut dst, 4, 4, &cur, 0, 0);
    // Hotspot at (0,0) => image origin at (-1,-1); only bottom-right pixel visible.
    assert_eq!(dst[0], 0x0000FF);
    draw_cursor(&mut dst, 4, 4, &cur, 2, 2);
    assert_eq!(dst[4 + 1], 0x00FF00);
    assert_eq!(dst[4 + 2], 0x800000);
    assert_eq!(dst[8 + 2], 0x0000FF);
    assert_eq!(dst[8 + 1], 0);
    let hidden = CursorImage {
        width: 0,
        height: 0,
        hot_x: 0,
        hot_y: 0,
        argb: vec![],
    };
    draw_cursor(&mut dst, 4, 4, &hidden, 1, 1);
}

#[test]
fn a_half_transparent_cursor_blends_by_the_formula() {
    // (source + (screen * (255 - alpha) + 127) / 255), channel by channel.
    let mut dst = vec![0x00FF_8000u32];
    let cur = CursorImage {
        width: 1,
        height: 1,
        hot_x: 0,
        hot_y: 0,
        argb: vec![0x8010_2030],
    };
    draw_cursor(&mut dst, 1, 1, &cur, 0, 0);
    let channel = |s: u32, d: u32| (s + (d * 127 + 127) / 255).min(255);
    assert_eq!(
        dst[0],
        (channel(0x10, 0xFF) << 16) | (channel(0x20, 0x80) << 8) | channel(0x30, 0)
    );
    assert_eq!(dst[0], 0x008F_6030);
}

#[test]
fn the_digest_of_nothing_is_the_seed() {
    assert_eq!(image_digest(&[]), 0xcbf2_9ce4_8422_2325);
    assert_eq!(image_digest(b"a"), 0xaf63_dc4c_8601_ec8d);
    assert_ne!(image_digest(b"ab"), image_digest(b"ba"));
}
