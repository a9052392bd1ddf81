//! X11 keysyms.

use vstd::prelude::*;

verus! {

pub const BACKSPACE: u32 = 0xff08;

pub const TAB: u32 = 0xff09;

pub const CLEAR: u32 = 0xff0b;

pub const RETURN: u32 = 0xff0d;

pub const PAUSE: u32 = 0xff13;

pub const SCROLL_LOCK: u32 = 0xff14;

pub const ESCAPE: u32 = 0xff1b;

pub const HOME: u32 = 0xff50;

pub const LEFT: u32 = 0xff51;

pub const UP: u32 = 0xff52;

pub const RIGHT: u32 = 0xff53;

pub const DOWN: u32 = 0xff54;

pub const PAGE_UP: u32 = 0xff55;

pub const PAGE_DOWN: u32 = 0xff56;

pub const END: u32 = 0xff57;

pub const PRINT: u32 = 0xff61;

pub const INSERT: u32 = 0xff63;

pub const MENU: u32 = 0xff67;

pub const NUM_LOCK: u32 = 0xff7f;

pub const KP_ENTER: u32 = 0xff8d;

pub const KP_HOME: u32 = 0xff95;

pub const KP_LEFT: u32 = 0xff96;

pub const KP_UP: u32 = 0xff97;

pub const KP_RIGHT: u32 = 0xff98;

pub const KP_DOWN: u32 = 0xff99;

pub const KP_PAGE_UP: u32 = 0xff9a;

pub const KP_PAGE_DOWN: u32 = 0xff9b;

pub const KP_END: u32 = 0xff9c;

pub const KP_INSERT: u32 = 0xff9e;

pub const KP_DELETE: u32 = 0xff9f;

pub const KP_MULTIPLY: u32 = 0xffaa;

pub const KP_ADD: u32 = 0xffab;

pub const KP_SUBTRACT: u32 = 0xffad;

pub const KP_DECIMAL: u32 = 0xffae;

pub const KP_DIVIDE: u32 = 0xffaf;

pub const KP_0: u32 = 0xffb0;

pub const F1: u32 = 0xffbe;

pub const SHIFT_L: u32 = 0xffe1;

pub const SHIFT_R: u32 = 0xffe2;

pub const CONTROL_L: u32 = 0xffe3;

pub const CONTROL_R: u32 = 0xffe4;

pub const CAPS_LOCK: u32 = 0xffe5;

pub const ALT_L: u32 = 0xffe9;

pub const ALT_R: u32 = 0xffea;

pub const SUPER_L: u32 = 0xffeb;

pub const SUPER_R: u32 = 0xffec;

pub const DELETE: u32 = 0xffff;

pub const ISO_LEVEL3_SHIFT: u32 = 0xfe03;

pub const SPACE: u32 = 0x0020;

pub const AUDIO_LOWER_VOLUME: u32 = 0x1008_ff11;

pub const AUDIO_MUTE: u32 = 0x1008_ff12;

pub const AUDIO_RAISE_VOLUME: u32 = 0x1008_ff13;

pub const AUDIO_PLAY: u32 = 0x1008_ff14;

/// The keysym of a character: a printing character of Latin-1 is its own
/// keysym, and any other is its code point in the Unicode range.
pub open spec fn of_char(c: char) -> u32 {
    if 0x20 <= c as u32 <= 0x7e || 0xa0 <= c as u32 <= 0xff {
        c as u32
    } else {
        (0x0100_0000 + c as u32) as u32
    }
}

/// The keysym of a character.
pub fn keysym_from_char(c: char) -> (k: u32)
    ensures
        k == of_char(c),
{
    let n: u32 = c as u32;
    if (0x20 <= n && n <= 0x7e) || (0xa0 <= n && n <= 0xff) {
        n
    } else {
        0x0100_0000 + n
    }
}

/// Different characters have different keysyms.
pub proof fn law_characters_keep_apart(a: char, b: char)
    requires
        of_char(a) == of_char(b),
    ensures
        a == b,
{
}

/// The numbers of the keys: those of the editing keys lie together from 0xff08,
/// those that move the cursor from 0xff50, those of the number pad from 0xff80 to
/// 0xffb9, the function keys from 0xffbe and the modifiers from 0xffe1.
pub proof fn law_keys_have_their_numbers()
    ensures
        BACKSPACE == 65288,
        TAB == 65289,
        CLEAR == 65291,
        RETURN == 65293,
        PAUSE == 65299,
        SCROLL_LOCK == 65300,
        ESCAPE == 65307,
        HOME == 65360,
        LEFT == 65361,
        UP == 65362,
        RIGHT == 65363,
        DOWN == 65364,
        PAGE_UP == 65365,
        PAGE_DOWN == 65366,
        END == 65367,
        PRINT == 65377,
        INSERT == 65379,
        MENU == 65383,
        NUM_LOCK == 65407,
        KP_ENTER == 65421,
        KP_HOME == 65429,
        KP_LEFT == 65430,
        KP_UP == 65431,
        KP_RIGHT == 65432,
        KP_DOWN == 65433,
        KP_PAGE_UP == 65434,
        KP_PAGE_DOWN == 65435,
        KP_END == 65436,
        KP_INSERT == 65438,
        KP_DELETE == 65439,
        KP_MULTIPLY == 65450,
        KP_ADD == 65451,
        KP_SUBTRACT == 65453,
        KP_DECIMAL == 65454,
        KP_DIVIDE == 65455,
        KP_0 == 65456,
        F1 == 65470,
        SHIFT_L == 65505,
        SHIFT_R == 65506,
        CONTROL_L == 65507,
        CONTROL_R == 65508,
        CAPS_LOCK == 65509,
        ALT_L == 65513,
        ALT_R == 65514,
        SUPER_L == 65515,
        SUPER_R == 65516,
        DELETE == 65535,
        ISO_LEVEL3_SHIFT == 65027,
        SPACE == 32,
        AUDIO_LOWER_VOLUME == 269025041,
        AUDIO_MUTE == 269025042,
        AUDIO_RAISE_VOLUME == 269025043,
        AUDIO_PLAY == 269025044,
{
}

/// The printable characters of Latin-1 are their own keysyms, and every other
/// character is its own number above 0x0100_0000.
pub proof fn law_characters_have_their_numbers(c: char)
    ensures
        0x20 <= c as u32 <= 0x7e ==> of_char(c) == c as u32,
        0xa0 <= c as u32 <= 0xff ==> of_char(c) == c as u32,
        (c as u32) < 0x20 || 0x7f <= c as u32 <= 0x9f || c as u32 > 0xff ==> of_char(c) == 16777216
            + c as u32,
{
}

} // verus!
