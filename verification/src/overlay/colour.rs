//! Presentation colours from the same dark theme as the graphical widgets.

use vstd::prelude::*;

use crate::theme;

verus! {

pub const SCRIM: u32 = 0x000E_1114;

pub const SCRIM_ALPHA: u32 = 245;

pub const TEXT: u32 = 0x00E4_EAEC;

pub const DIM: u32 = 0x009B_A8AE;

pub const OK: u32 = 0x004C_AF82;

pub const WARN: u32 = 0x00E0_A84A;

pub const DANGER: u32 = 0x00F0_736A;

pub const ACCENT: u32 = 0x0035_B4DA;

pub const BUTTON: u32 = 0x001C_2225;

pub const HOVER: u32 = 0x0025_2D31;

pub const PRESS: u32 = 0x000E_1113;

pub const BORDER: u32 = 0x005A_6B73;

/// The bar wears the dark theme: its colours are the theme's tokens.
pub proof fn law_colours_are_the_themes()
    ensures
        TEXT == theme::word(theme::dark_tokens().text),
        DIM == theme::word(theme::dark_tokens().text_dim),
        OK == theme::word(theme::dark_tokens().ok),
        WARN == theme::word(theme::dark_tokens().warn),
        DANGER == theme::word(theme::dark_tokens().danger),
        ACCENT == theme::word(theme::dark_tokens().accent_bright),
        BUTTON == theme::word(theme::dark_tokens().surface_raised),
        HOVER == theme::word(theme::dark_tokens().hover_fill),
        PRESS == theme::word(theme::dark_tokens().surface_sunken),
        BORDER == theme::word(theme::dark_tokens().border_strong),
{
    assert((0xE4u32 << 16u32) | (0xEAu32 << 8u32) | 0xECu32 == 0x00E4_EAECu32) by (bit_vector);
    assert((0x9Bu32 << 16u32) | (0xA8u32 << 8u32) | 0xAEu32 == 0x009B_A8AEu32) by (bit_vector);
    assert((0x4Cu32 << 16u32) | (0xAFu32 << 8u32) | 0x82u32 == 0x004C_AF82u32) by (bit_vector);
    assert((0xE0u32 << 16u32) | (0xA8u32 << 8u32) | 0x4Au32 == 0x00E0_A84Au32) by (bit_vector);
    assert((0xF0u32 << 16u32) | (0x73u32 << 8u32) | 0x6Au32 == 0x00F0_736Au32) by (bit_vector);
    assert((0x35u32 << 16u32) | (0xB4u32 << 8u32) | 0xDAu32 == 0x0035_B4DAu32) by (bit_vector);
    assert((0x1Cu32 << 16u32) | (0x22u32 << 8u32) | 0x25u32 == 0x001C_2225u32) by (bit_vector);
    assert((0x25u32 << 16u32) | (0x2Du32 << 8u32) | 0x31u32 == 0x0025_2D31u32) by (bit_vector);
    assert((0x0Eu32 << 16u32) | (0x11u32 << 8u32) | 0x13u32 == 0x000E_1113u32) by (bit_vector);
    assert((0x5Au32 << 16u32) | (0x6Bu32 << 8u32) | 0x73u32 == 0x005A_6B73u32) by (bit_vector);
}

/// The colours by their parts: eight bits each of red, green and blue.
pub proof fn law_colours_by_their_parts()
    ensures
        SCRIM == 65536 * 14 + 256 * 17 + 20,
        SCRIM_ALPHA == 245,
        TEXT == 65536 * 228 + 256 * 234 + 236,
        DIM == 65536 * 155 + 256 * 168 + 174,
        OK == 65536 * 76 + 256 * 175 + 130,
        WARN == 65536 * 224 + 256 * 168 + 74,
        DANGER == 65536 * 240 + 256 * 115 + 106,
        ACCENT == 65536 * 53 + 256 * 180 + 218,
        BUTTON == 65536 * 28 + 256 * 34 + 37,
        HOVER == 65536 * 37 + 256 * 45 + 49,
        PRESS == 65536 * 14 + 256 * 17 + 19,
        BORDER == 65536 * 90 + 256 * 107 + 115,
{
}

} // verus!
