use lynxrdp_client::overlay::{
    bar_height, bar_layout, colour, hot_zone_height, paint, Action, Layout, Mark, Measured,
    Overlay, Status, FLASH, HIDE_DELAY, REVEAL_DELAY,
};
use lynxrdp_client::proto::Rect;

const MILLI: u64 = 1_000_000;
const SECOND: u64 = 1_000_000_000;

fn status() -> Status {
    Status::new("alice@server1", (1920, 1080), Some(42))
}

/// The widths of a font whose letters are all equally wide.
fn measured(st: &Status, s: u32) -> Measured {
    let wide = |n: usize| n as u32 * 7 * s / 2;
    Measured {
        labels: (0..4)
            .map(|i| wide(Action::nth(i).label().chars().count()))
            .collect(),
        fields: st
            .fields()
            .iter()
            .map(|runs| runs.iter().map(|r| wide(r.text.chars().count())).collect())
            .collect(),
        cuts: (0..=st.who.chars().count()).map(|n| wide(n + 1)).collect(),
    }
}

fn layout(width: u32, s: u32, st: &Status) -> Layout {
    bar_layout(width, s, st, &measured(st, s))
}

fn draw(o: &mut Overlay, w: u32, h: u32) -> (Option<Rect>, Option<Rect>) {
    o.draw(w, h, 2, &status(), &measured(&status(), 2))
}

fn texts(l: &Layout) -> Vec<String> {
    l.spans.iter().map(|s| s.text.clone()).collect()
}

fn joined(l: &Layout) -> String {
    texts(l).join("")
}

#[test]
fn international_host_names_are_preserved() {
    assert_eq!(
        Status::new("jos\u{e9}@host", (800, 600), None).who,
        "jos\u{e9}@host"
    );
}

#[test]
fn the_round_trip_is_two_dashes_until_a_pong_arrives() {
    let st = Status::new("a@b", (800, 600), None);
    let l = layout(1600, 2, &st);
    assert!(joined(&l).contains("rtt --"), "{:?}", texts(&l));
    assert_eq!(l.dot_colour, colour::OK);
}

#[test]
fn a_stall_replaces_the_round_trip_with_a_word_as_well_as_a_colour() {
    // Colour alone is not a status: the dot turns amber *and* the field
    // says the word, so the state survives a monochrome screenshot and a
    // reader who cannot tell green from amber.
    let mut st = status();
    st.stalled = Some(12 * SECOND);
    let l = layout(1600, 2, &st);
    assert!(joined(&l).contains("stalled 12 s"), "{:?}", texts(&l));
    assert!(!joined(&l).contains("rtt"));
    assert_eq!(l.dot_colour, colour::WARN);
}

#[test]
fn buttons_never_overlap_the_text_at_any_width() {
    let mut st = status();
    st.uploads = Some((3, 42));
    for width in (120..2600).step_by(7) {
        for s in [2, 4, 6] {
            let l = layout(width, s, &st);
            if let Some(first) = l.buttons.first() {
                assert!(
                    l.text_right() <= first.rect.x,
                    "text runs into the buttons at {width}/{s}"
                );
                assert!(l.buttons.last().unwrap().rect.right() <= width);
            }
            for w in l.buttons.windows(2) {
                assert!(w[0].rect.right() <= w[1].rect.x, "buttons overlap");
            }
            // Nothing runs past the right margin either, buttons or not:
            // a field that reached the window edge would read as clipped
            // even when it is complete.
            assert!(
                l.text_right() + 4 * s <= width.max(4 * s),
                "the text reaches the edge at {width}/{s}"
            );
        }
    }
}

#[test]
fn narrow_windows_keep_all_four_graphical_actions() {
    for width in [320, 480, 640] {
        let l = layout(width, 2, &status());
        assert_eq!(l.buttons.len(), 4);
        assert_eq!(l.buttons[0].action, Action::Transfers);
        assert!(!l.spans[0].text.is_empty());
    }
}

#[test]
fn graphical_buttons_do_not_print_accelerator_codes() {
    let l = layout(1920, 2, &status());
    assert_eq!(l.buttons.len(), 4);
    assert!(l.buttons.iter().all(|b| !b.shortcut_shown));
    assert_eq!(l.buttons[3].action, Action::Disconnect);
    assert_eq!(l.buttons[3].colour, colour::DANGER);
}

#[test]
fn the_bar_paints_only_its_own_rows() {
    // Everything below the bar is the remote screen. One stray row would
    // be a line of our colour sitting on the user's desktop until the
    // server happened to redraw that scanline.
    let (w, s) = (900u32, 2u32);
    let bottom = 10 * bar_height(s) as i64;
    let marks = paint(&layout(w, s, &status()), w, Some(0), None);
    assert!(matches!(marks[0], Mark::Scrim { .. }));
    for mark in marks {
        let low = match mark {
            Mark::Scrim { rect, .. } | Mark::Fill { rect, .. } | Mark::Edge { rect, .. } => {
                10 * rect.bottom() as i64
            }
            Mark::Disc { y10, radius10, .. } => y10 + radius10,
            Mark::Text { y10, size10, .. } => y10 + size10 / 2,
            Mark::Outline { y10, h10, .. } => y10 + h10,
            Mark::Line {
                ay10,
                by10,
                width10,
                ..
            } => ay10.max(by10) + width10 / 2,
        };
        assert!(low <= bottom, "{mark:?}");
    }
}

#[test]
fn the_button_under_the_pointer_is_filled_differently() {
    let l = layout(1600, 2, &status());
    let fill = |hover: Option<usize>, pressed: Option<usize>| -> Vec<u32> {
        paint(&l, 1600, hover, pressed)
            .iter()
            .filter_map(|m| match m {
                Mark::Fill { colour, .. } => Some(*colour),
                _ => None,
            })
            .collect()
    };
    assert_eq!(
        fill(None, None),
        vec![colour::BUTTON, colour::BUTTON, colour::BUTTON, colour::BUTTON]
    );
    assert_eq!(fill(Some(1), None)[1], colour::HOVER);
    assert_eq!(fill(Some(1), Some(1))[1], colour::PRESS);
}

#[test]
fn the_bar_names_the_region_it_stops_covering() {
    // The blit has already restored those pixels; without naming the
    // region nothing would present them and the bar would linger.
    let now = SECOND;
    let mut o = Overlay::new(now);
    assert!(o.tick(now));
    let (drawn, was) = draw(&mut o, 400, 100);
    assert_eq!(drawn, Some(Rect::new(0, 0, 400, 48)));
    assert_eq!(was, None);
    let later = now + FLASH + MILLI;
    assert!(o.tick(later));
    assert!(!o.visible());
    let (drawn, was) = draw(&mut o, 400, 100);
    assert_eq!(drawn, None);
    assert_eq!(was, Some(Rect::new(0, 0, 400, 48)));
    // ...and only once.
    assert_eq!(draw(&mut o, 400, 100), (None, None));
}

#[test]
fn the_pointer_raises_the_bar_only_while_the_window_is_focused() {
    let mut now = SECOND;
    let mut o = Overlay::new(now);
    now += FLASH;
    o.tick(now);
    assert!(!o.visible(), "the opening flash should have expired");

    o.track(100, 2, 2, now);
    now += REVEAL_DELAY;
    o.tick(now);
    assert!(!o.visible(), "an unfocused window should not raise the bar");

    // Focus restarts the dwell, so the time already spent in the strip
    // over an unfocused window buys nothing.
    o.set_focused(true);
    assert!(!o.tick(now));
    o.track(100, 2, 2, now);
    assert!(o.revealing());
    now += REVEAL_DELAY;
    assert!(o.tick(now));
    assert!(o.visible());

    // Leaving starts the delay rather than hiding at once, so crossing the
    // bar's own edge does not make it flicker.
    o.track(100, 200, 2, now);
    now += MILLI;
    assert!(!o.tick(now));
    assert!(o.visible());
    now += HIDE_DELAY;
    assert!(o.tick(now));
    assert!(!o.visible());
}

#[test]
fn reaching_for_the_top_of_the_remote_screen_does_not_raise_the_bar() {
    // The whole point of the dwell: a pointer on its way to a panel or a
    // title bar passes through the strip, and passing through must not
    // put our bar over the thing it was going to.
    let mut now = SECOND;
    let mut o = Overlay::new(now);
    o.set_focused(true);
    now += FLASH;
    o.tick(now);
    assert!(!o.visible(), "the opening flash should have expired");

    o.track(100, 2, 2, now);
    now += REVEAL_DELAY / 2;
    assert!(!o.tick(now), "half a dwell is not a dwell");
    o.track(100, 300, 2, now);
    now += REVEAL_DELAY * 2;
    assert!(!o.tick(now));
    assert!(!o.visible(), "leaving the strip abandons the dwell");

    // Staying does raise it, and moving along the strip is staying: the
    // clock is reset by leaving and by nothing else.
    let entered = now;
    o.track(100, 2, 2, now);
    now += REVEAL_DELAY / 2;
    o.track(600, 5, 2, now);
    assert!(!o.tick(now));
    now = entered + REVEAL_DELAY;
    assert!(o.tick(now));
    assert!(o.visible());
}

#[test]
fn native_chrome_reveals_immediately_and_leaving_keeps_the_grace_period() {
    let mut now = SECOND;
    let mut o = Overlay::new(now);
    o.set_focused(true);
    now += FLASH;
    o.tick(now);
    assert!(!o.visible());
    o.pointer_left(); // The pointer was taken out of the content view.
    o.set_native_chrome(true, 64);
    assert!(o.tick(now));
    assert!(o.visible(), "native chrome must not add a second dwell");
    o.press();
    assert_eq!(o.release(), None, "native hover must not arm a control");
    now += FLASH * 2;
    o.tick(now);
    assert!(o.visible(), "stay up as long as native chrome is hovered");
    o.set_native_chrome(false, 0);
    o.tick(now);
    assert!(o.visible());
    now += HIDE_DELAY;
    assert!(o.tick(now));
    assert!(!o.visible());
}

#[test]
fn native_chrome_respects_focus_and_remote_drags() {
    let mut now = SECOND;
    let mut o = Overlay::new(now);
    now += FLASH;
    o.tick(now);
    o.set_native_chrome(true, 0);
    assert!(!o.tick(now));
    o.set_focused(true);
    assert!(!o.tick(now), "focus discards stale native hover");
    o.set_native_chrome(true, 0);
    o.pointer_taken();
    assert!(!o.tick(now), "a remote drag cancels native reveal too");
}

#[test]
fn an_inset_bar_paints_and_hit_tests_at_the_same_offset() {
    let now = SECOND;
    let mut o = Overlay::new(now);
    o.set_focused(true);
    o.set_native_chrome(true, 32);
    o.tick(now);
    let (w, h, s) = (1600, 160, 2);
    let layout = layout(w, s, &status());
    let (drawn, old) = draw(&mut o, w, h);
    assert_eq!(drawn, Some(Rect::new(0, 32, w, bar_height(s))));
    assert_eq!(drawn, o.bounds(w, h, s));
    assert_eq!(old, None);
    // The layout stays relative to the bar; only where it is shown moves.
    assert_eq!(o.layout.as_ref(), Some(&layout));
    let button = &layout.buttons[0];
    let (x, y) = (button.rect.x + 2, button.rect.y + 2);
    assert!(!o.track(x, y, s, now), "the native title bar isn't ours");
    assert!(o.track(x, y + 32, s, now));
    o.press();
    // The native row retracts when moving onto our buttons; don't move a
    // target out from under the pointer while completing the click.
    assert!(!o.set_native_chrome(false, 0));
    assert_eq!(o.release(), Some(button.action));
    o.track(x, 150, s, now);
    assert!(o.set_native_chrome(false, 0));
    let (drawn, old) = draw(&mut o, w, h);
    assert_eq!(drawn, Some(Rect::new(0, 0, w, bar_height(s))));
    assert_eq!(old, Some(Rect::new(0, 32, w, bar_height(s))));
}

#[test]
fn moving_or_hiding_an_inset_bar_retires_its_old_damage_and_click_target() {
    let now = SECOND;
    let mut o = Overlay::new(now);
    o.set_focused(true);
    o.tick(now);
    draw(&mut o, 1600, 100);
    let layout = layout(1600, 2, &status());
    let button = &layout.buttons[0];
    o.track(button.rect.x + 2, button.rect.y + 2, 2, now);
    o.press();
    o.set_native_chrome(true, 32);
    assert_eq!(o.release(), None, "moving geometry cancels an armed click");
    let (_, was) = draw(&mut o, 1600, 100);
    assert_eq!(was, Some(Rect::new(0, 0, 1600, 48)));
    o.set_native_chrome(false, 32);
    o.tick(now + FLASH + HIDE_DELAY);
    let (drawn, was) = draw(&mut o, 1600, 100);
    assert_eq!(drawn, None);
    assert_eq!(was, Some(Rect::new(0, 32, 1600, 48)));
    o.toggle_pin();
    o.tick(now + FLASH + HIDE_DELAY);
    o.set_native_chrome(false, 100);
    assert_eq!(o.bounds(1600, 100, 2), None);
    assert_eq!(draw(&mut o, 1600, 100).0, None);
}

#[test]
fn a_press_in_the_hot_zone_belongs_to_the_session() {
    // Clicking something at the top of the remote desktop and holding --
    // a menu, a drag -- would otherwise finish the dwell under the button
    // and cover what was clicked.
    let mut now = SECOND;
    let mut o = Overlay::new(now);
    o.set_focused(true);
    now += FLASH;
    o.tick(now);

    o.track(100, 2, 2, now);
    o.pointer_taken();
    now += REVEAL_DELAY * 3;
    assert!(!o.tick(now));
    assert!(!o.visible());
}

#[test]
fn a_pinned_bar_never_hides() {
    let mut now = SECOND;
    let mut o = Overlay::new(now);
    assert!(o.toggle_pin());
    assert!(o.pinned());
    o.tick(now);
    now += FLASH + HIDE_DELAY * 10;
    o.tick(now);
    assert!(o.visible());
    assert!(!o.toggle_pin());
    o.tick(now);
    assert!(!o.visible());
}

#[test]
fn only_a_press_and_a_release_inside_one_button_acts() {
    let now = SECOND;
    let mut o = Overlay::new(now);
    o.set_focused(true);
    o.tick(now);
    draw(&mut o, 1600, 100);
    let l = layout(1600, 2, &status());
    let disconnect = l
        .buttons
        .iter()
        .find(|b| b.action == Action::Disconnect)
        .unwrap();
    let (bx, by) = (disconnect.rect.x + 4, disconnect.rect.y + 4);

    // A press that drifts off the button before release does nothing.
    o.track(bx, by, 2, now);
    o.press();
    o.track(10, by, 2, now);
    assert_eq!(o.release(), None);

    // A release with no press does nothing either.
    o.track(bx, by, 2, now);
    assert_eq!(o.release(), None);

    o.track(bx, by, 2, now);
    o.press();
    assert_eq!(o.release(), Some(Action::Disconnect));
}

#[test]
fn the_pointer_is_only_claimed_while_the_bar_is_showing() {
    let now = SECOND;
    let mut o = Overlay::new(now);
    o.set_focused(true);
    assert!(
        !o.track(100, 10, 2, now),
        "hidden bar must not swallow the pointer"
    );
    o.tick(now);
    assert!(o.visible());
    assert!(o.track(100, 10, 2, now));
    assert!(
        !o.track(100, 60, 2, now),
        "below the bar is the remote screen"
    );
}

#[test]
fn heights_follow_the_scale() {
    for s in [2, 4, 6] {
        assert_eq!(bar_height(s), 24 * s);
        assert_eq!(bar_height(s) % 2, 0);
        assert_eq!(hot_zone_height(s), 4 * s);
    }
}

/// The scrim composited over an arbitrary remote screen.
fn over(src: u32, dst: u32, a: u32) -> u32 {
    (0..3)
        .map(|i| {
            let sh = i * 8;
            let (s, d) = ((src >> sh) & 0xff, (dst >> sh) & 0xff);
            ((s * a + d * (255 - a) + 127) / 255).min(255) << sh
        })
        .fold(0, |acc, c| acc | c)
}

/// The contrast ratio of two colours.
fn contrast(a: u32, b: u32) -> f64 {
    let luminance = |c: u32| -> f64 {
        let channel = |n: u32| {
            let v = n as f64 / 255.0;
            if v <= 0.04045 {
                v / 12.92
            } else {
                ((v + 0.055) / 1.055).powf(2.4)
            }
        };
        0.2126 * channel((c >> 16) & 0xff)
            + 0.7152 * channel((c >> 8) & 0xff)
            + 0.0722 * channel(c & 0xff)
    };
    let (x, y) = (luminance(a), luminance(b));
    (x.max(y) + 0.05) / (x.min(y) + 0.05)
}

#[test]
fn every_foreground_is_readable_over_any_remote_screen() {
    // The bar sits on pixels we do not control, so contrast has to hold
    // against the extremes rather than against a surface of our own.
    for screen in [0x00FF_FFFF, 0x0000_0000, 0x0026_5E8A] {
        let base = over(colour::SCRIM, screen, colour::SCRIM_ALPHA);
        // The scrim and actual button fills: a label has
        // to stay readable while the pointer is on it and while it is
        // held down, not only at rest.
        for fill in [base, colour::HOVER, colour::PRESS] {
            for (name, fg, floor) in [
                ("text", colour::TEXT, 4.5),
                ("dim", colour::DIM, 4.5),
                ("ok", colour::OK, 4.5),
                ("warn", colour::WARN, 4.5),
                ("danger", colour::DANGER, 4.5),
                // A hover outline conveys state on its own, so it takes
                // the non-text floor from WCAG 1.4.11.
                ("accent", colour::ACCENT, 3.0),
            ] {
                let got = contrast(fg, fill);
                assert!(
                    got >= floor,
                    "{name} is {got:.2}:1 over screen {screen:06X}, floor {floor}"
                );
            }
        }
    }
}
