use lynxrdp_client::gui_paint::{Renderer, Texture};
use lynxrdp_client::theme::{dark, focus_ring, light, packed, palette, unpacked};

/// The contrast ratio of two colours.
fn contrast_ratio(a: [u8; 3], b: [u8; 3]) -> f64 {
    let luminance = |c: [u8; 3]| -> f64 {
        let channel = |n: u8| {
            let v = n as f64 / 255.0;
            if v <= 0.04045 {
                v / 12.92
            } else {
                ((v + 0.055) / 1.055).powf(2.4)
            }
        };
        0.2126 * channel(c[0]) + 0.7152 * channel(c[1]) + 0.0722 * channel(c[2])
    };
    let (x, y) = (luminance(a), luminance(b));
    (x.max(y) + 0.05) / (x.min(y) + 0.05)
}

/// Foreground tokens and the surface each is drawn on, with the ratio the
/// palette promises.
#[test]
fn every_foreground_token_is_readable_on_its_surface() {
    for is_dark in [true, false] {
        let p = palette(is_dark);
        for (what, fg, bg) in [
            ("text", p.text, p.surface),
            ("text on sunken", p.text, p.surface_sunken),
            ("text on selection", p.text, p.accent_weak),
            ("text on hover", p.text, p.hover_fill),
            ("text_dim", p.text_dim, p.surface),
            ("text_dim on sunken", p.text_dim, p.surface_sunken),
            ("text_dim on hover", p.text_dim, p.hover_fill),
            ("text_dim on selection", p.text_dim, p.accent_weak),
            ("accent", p.accent, p.surface),
            ("accent_bright", p.accent_bright, p.surface),
            ("on_accent", p.on_accent, p.accent),
            ("ok", p.ok, p.surface),
            ("warn", p.warn, p.surface),
            ("danger", p.danger, p.surface),
            ("danger on hover", p.danger, p.hover_fill),
            // The destructive button in the delete modal is the one place
            // a token is used as a *fill* under text rather than as text.
            ("on_accent on danger", p.on_accent, p.danger),
            // Modals and menus sit on `surface_raised`, not on `surface`,
            // so every colour that carries words inside one is measured
            // there too.
            ("text on raised", p.text, p.surface_raised),
            ("text_dim on raised", p.text_dim, p.surface_raised),
            ("danger on raised", p.danger, p.surface_raised),
            ("warn on raised", p.warn, p.surface_raised),
        ] {
            let ratio = contrast_ratio(fg, bg);
            assert!(
                ratio >= 4.5,
                "{what} is {ratio:.2}:1, dark {is_dark}, under the 4.5 floor for text"
            );
        }
        // Outlines and state marks carry meaning without being text, so
        // WCAG 1.4.11 asks 3:1 of them rather than 4.5:1.
        for (what, fg, bg) in [
            ("border_strong", p.border_strong, p.surface),
            ("focus ring", focus_ring(&p, is_dark), p.surface),
            ("text_disabled", p.text_disabled, p.surface),
            ("selected edge", p.accent, p.surface),
        ] {
            let ratio = contrast_ratio(fg, bg);
            assert!(
                ratio >= 3.0,
                "{what} is {ratio:.2}:1, dark {is_dark}, under the 3.0 floor"
            );
        }
    }
}

#[test]
fn the_packed_form_is_the_same_colour_as_the_egui_one() {
    // The session window writes `packed` words straight into a framebuffer
    // while the launcher paints channels.
    assert_eq!(packed(dark().accent), 0x0012_A3CB);
    assert_eq!(unpacked(0x0012_A3CB), dark().accent);
    assert_eq!(packed([0xFF, 0xFF, 0xFF]), 0x00FF_FFFF);
    assert_eq!(packed([0, 0, 0]), 0);
    assert_eq!(palette(true), dark());
    assert_eq!(palette(false), light());
}

#[test]
fn a_patch_changes_only_its_own_pixels() {
    let mut r = Renderer::new();
    r.set(
        1,
        Texture {
            width: 3,
            height: 2,
            pixels: vec![1, 2, 3, 4, 5, 6],
        },
    );
    r.patch(1, 1, 0, 2, 2, &vec![20, 30, 50, 60]);
    assert_eq!(r.textures[&1].pixels, vec![1, 20, 30, 4, 50, 60]);
    // A patch of a texture that is not there is nothing.
    r.patch(2, 0, 0, 1, 1, &vec![9]);
    r.free(1);
    assert!(r.textures.is_empty());
}
