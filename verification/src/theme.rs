//! Colour tokens for the client's windows.
//!
//! One module so the two windows cannot drift apart: every colour is published
//! as three sRGB bytes ([`Palette`]) and as the `0x00RRGGBB` word a framebuffer
//! wants ([`packed`]).
//!
//! Note the asymmetry between the themes: dark uses the brand cyan with
//! near-black text on it, light uses a darkened cyan with white text. Brand
//! cyan cannot carry white text nor sit on white, so one accent for both
//! themes would fail contrast in one of them.

use vstd::prelude::*;

verus! {

/// One colour, as the three sRGB bytes a config file and a framebuffer both
/// speak.
pub type Rgb = [u8; 3];

/// A colour as the `0x00RRGGBB` word.
pub open spec fn word(colour: Rgb) -> u32 {
    ((colour[0] as u32) << 16u32) | ((colour[1] as u32) << 8u32) | (colour[2] as u32)
}

/// A colour as the `0x00RRGGBB` word a framebuffer holds.
pub fn packed(colour: Rgb) -> (w: u32)
    ensures
        w == word(colour),
        w == colour[0] * 0x1_0000 + colour[1] * 0x100 + colour[2],
{
    let (r, g, b) = (colour[0] as u32, colour[1] as u32, colour[2] as u32);
    assert((r << 16u32) | (g << 8u32) | b == r * 0x1_0000 + g * 0x100 + b) by (bit_vector)
        requires
            r < 256,
            g < 256,
            b < 256,
    ;
    (r << 16u32) | (g << 8u32) | b
}

/// The three bytes of a `0x00RRGGBB` word.
pub fn unpacked(w: u32) -> (colour: Rgb)
    ensures
        w <= 0x00ff_ffff ==> word(colour) == w,
{
    let r: u32 = (w >> 16u32) & 0xff;
    let g: u32 = (w >> 8u32) & 0xff;
    let b: u32 = w & 0xff;
    assert(r < 256 && g < 256 && b < 256 && (w <= 0x00ff_ffff ==> (r << 16u32) | (g << 8u32) | b
        == w)) by (bit_vector)
        requires
            r == (w >> 16u32) & 0xff,
            g == (w >> 8u32) & 0xff,
            b == w & 0xff,
    ;
    [r as u8, g as u8, b as u8]
}

/// The token set.
///
/// The field names are the meanings, not the colours: code should ask for
/// `danger` and not for "the red one".
#[derive(Clone, Copy, Debug, PartialEq, Eq)]
pub struct Palette {
    /// Window and panel background.
    pub surface: Rgb,
    /// Cards, popups and striped rows: a step towards the viewer.
    pub surface_raised: Rgb,
    /// Text-entry and read-only wells: a step away from the viewer.
    pub surface_sunken: Rgb,
    /// Hairlines and separators.
    pub border: Rgb,
    /// Outlines that carry meaning -- input edges, hovered controls.
    pub border_strong: Rgb,
    pub text: Rgb,
    /// Supporting text: addresses under names, hints, the status line.
    pub text_dim: Rgb,
    /// Disabled controls.
    pub text_disabled: Rgb,
    /// Primary action and links.
    pub accent: Rgb,
    /// Focus rings and hover, where the accent needs to be louder.
    pub accent_bright: Rgb,
    /// Selected-row fill. Barely a tint: selection is also marked by an edge.
    pub accent_weak: Rgb,
    /// Text on top of `accent`.
    pub on_accent: Rgb,
    /// Row and button hover.
    pub hover_fill: Rgb,
    pub ok: Rgb,
    pub warn: Rgb,
    pub danger: Rgb,
}

/// Dark theme, built to sit beside a terminal at 08:00.
pub open spec fn dark_tokens() -> Palette {
    Palette {
        surface: [0x14, 0x18, 0x1A],
        surface_raised: [0x1C, 0x22, 0x25],
        surface_sunken: [0x0E, 0x11, 0x13],
        border: [0x2A, 0x32, 0x36],
        border_strong: [0x5A, 0x6B, 0x73],
        text: [0xE4, 0xEA, 0xEC],
        text_dim: [0x9B, 0xA8, 0xAE],
        text_disabled: [0x6E, 0x7B, 0x81],
        accent: [0x12, 0xA3, 0xCB],
        accent_bright: [0x35, 0xB4, 0xDA],
        accent_weak: [0x12, 0x33, 0x3F],
        on_accent: [0x0B, 0x11, 0x13],
        hover_fill: [0x25, 0x2D, 0x31],
        ok: [0x4C, 0xAF, 0x82],
        warn: [0xE0, 0xA8, 0x4A],
        danger: [0xF0, 0x73, 0x6A],
    }
}

/// The dark theme.
pub fn dark() -> (p: Palette)
    ensures
        p == dark_tokens(),
{
    Palette {
        surface: [0x14, 0x18, 0x1A],
        surface_raised: [0x1C, 0x22, 0x25],
        surface_sunken: [0x0E, 0x11, 0x13],
        border: [0x2A, 0x32, 0x36],
        border_strong: [0x5A, 0x6B, 0x73],
        text: [0xE4, 0xEA, 0xEC],
        text_dim: [0x9B, 0xA8, 0xAE],
        text_disabled: [0x6E, 0x7B, 0x81],
        accent: [0x12, 0xA3, 0xCB],
        accent_bright: [0x35, 0xB4, 0xDA],
        accent_weak: [0x12, 0x33, 0x3F],
        on_accent: [0x0B, 0x11, 0x13],
        hover_fill: [0x25, 0x2D, 0x31],
        ok: [0x4C, 0xAF, 0x82],
        warn: [0xE0, 0xA8, 0x4A],
        danger: [0xF0, 0x73, 0x6A],
    }
}

/// Light theme. Not the dark one inverted: the accent is darkened so it can
/// carry white text, and the sunken well is white rather than darker than the
/// surface.
pub open spec fn light_tokens() -> Palette {
    Palette {
        surface: [0xF2, 0xF5, 0xF6],
        surface_raised: [0xFF, 0xFF, 0xFF],
        surface_sunken: [0xFF, 0xFF, 0xFF],
        border: [0xD2, 0xD9, 0xDD],
        border_strong: [0x7F, 0x8B, 0x91],
        text: [0x17, 0x1D, 0x21],
        text_dim: [0x59, 0x66, 0x6D],
        text_disabled: [0x78, 0x84, 0x8A],
        accent: [0x0A, 0x6E, 0x8E],
        accent_bright: [0x08, 0x60, 0x7C],
        accent_weak: [0xDB, 0xEF, 0xF7],
        on_accent: [0xFF, 0xFF, 0xFF],
        hover_fill: [0xE7, 0xEC, 0xEE],
        ok: [0x16, 0x70, 0x4A],
        warn: [0x8A, 0x53, 0x00],
        danger: [0xB0, 0x2A, 0x20],
    }
}

/// The light theme.
pub fn light() -> (p: Palette)
    ensures
        p == light_tokens(),
{
    Palette {
        surface: [0xF2, 0xF5, 0xF6],
        surface_raised: [0xFF, 0xFF, 0xFF],
        surface_sunken: [0xFF, 0xFF, 0xFF],
        border: [0xD2, 0xD9, 0xDD],
        border_strong: [0x7F, 0x8B, 0x91],
        text: [0x17, 0x1D, 0x21],
        text_dim: [0x59, 0x66, 0x6D],
        text_disabled: [0x78, 0x84, 0x8A],
        accent: [0x0A, 0x6E, 0x8E],
        accent_bright: [0x08, 0x60, 0x7C],
        accent_weak: [0xDB, 0xEF, 0xF7],
        on_accent: [0xFF, 0xFF, 0xFF],
        hover_fill: [0xE7, 0xEC, 0xEE],
        ok: [0x16, 0x70, 0x4A],
        warn: [0x8A, 0x53, 0x00],
        danger: [0xB0, 0x2A, 0x20],
    }
}

/// The palette for a theme.
pub fn palette(dark: bool) -> (p: Palette)
    ensures
        p == if dark {
            dark_tokens()
        } else {
            light_tokens()
        },
{
    if dark {
        self::dark()
    } else {
        light()
    }
}

/// The colour a focus ring is drawn in.
///
/// In dark the ring has to be brighter than the accent to read against the
/// surface; in light it has to be the accent itself, since `accent_bright` is
/// *darker* there.
pub fn focus_ring(p: &Palette, dark: bool) -> (c: Rgb)
    ensures
        c == if dark {
            p.accent_bright
        } else {
            p.accent
        },
{
    if dark {
        p.accent_bright
    } else {
        p.accent
    }
}

/// The dark colours, by their red, green and blue parts.
pub proof fn law_dark_colours_by_their_parts()
    ensures
        ({
            let p = dark_tokens();
            &&& p.surface@ == seq![20u8, 24, 26]
            &&& p.surface_raised@ == seq![28u8, 34, 37]
            &&& p.surface_sunken@ == seq![14u8, 17, 19]
            &&& p.border@ == seq![42u8, 50, 54]
            &&& p.border_strong@ == seq![90u8, 107, 115]
            &&& p.text@ == seq![228u8, 234, 236]
            &&& p.text_dim@ == seq![155u8, 168, 174]
            &&& p.text_disabled@ == seq![110u8, 123, 129]
            &&& p.accent@ == seq![18u8, 163, 203]
            &&& p.accent_bright@ == seq![53u8, 180, 218]
            &&& p.accent_weak@ == seq![18u8, 51, 63]
            &&& p.on_accent@ == seq![11u8, 17, 19]
            &&& p.hover_fill@ == seq![37u8, 45, 49]
            &&& p.ok@ == seq![76u8, 175, 130]
            &&& p.warn@ == seq![224u8, 168, 74]
            &&& p.danger@ == seq![240u8, 115, 106]
        }),
{
}

/// The light colours, by their red, green and blue parts.
pub proof fn law_light_colours_by_their_parts()
    ensures
        ({
            let p = light_tokens();
            &&& p.surface@ == seq![242u8, 245, 246]
            &&& p.surface_raised@ == seq![255u8, 255, 255]
            &&& p.surface_sunken@ == seq![255u8, 255, 255]
            &&& p.border@ == seq![210u8, 217, 221]
            &&& p.border_strong@ == seq![127u8, 139, 145]
            &&& p.text@ == seq![23u8, 29, 33]
            &&& p.text_dim@ == seq![89u8, 102, 109]
            &&& p.text_disabled@ == seq![120u8, 132, 138]
            &&& p.accent@ == seq![10u8, 110, 142]
            &&& p.accent_bright@ == seq![8u8, 96, 124]
            &&& p.accent_weak@ == seq![219u8, 239, 247]
            &&& p.on_accent@ == seq![255u8, 255, 255]
            &&& p.hover_fill@ == seq![231u8, 236, 238]
            &&& p.ok@ == seq![22u8, 112, 74]
            &&& p.warn@ == seq![138u8, 83, 0]
            &&& p.danger@ == seq![176u8, 42, 32]
        }),
{
}

} // verus!
