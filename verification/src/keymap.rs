//! Translation of keyboard events into X11 keysyms.

use vstd::prelude::*;

use crate::proto::keysym as ks;
use crate::text;

verus! {

/// A key with a name rather than a character.
#[derive(Clone, Copy, Debug, PartialEq, Eq, Structural)]
pub enum NamedKey {
    Alt,
    AltGraph,
    CapsLock,
    Control,
    Shift,
    Super,
    Meta,
    Hyper,
    NumLock,
    ScrollLock,
    Enter,
    Tab,
    Space,
    ArrowDown,
    ArrowLeft,
    ArrowRight,
    ArrowUp,
    End,
    Home,
    PageDown,
    PageUp,
    Backspace,
    Clear,
    Delete,
    Insert,
    Escape,
    Pause,
    PrintScreen,
    ContextMenu,
    /// A function key, counted from one.
    Function(u8),
    AudioVolumeDown,
    AudioVolumeUp,
    AudioVolumeMute,
    MediaPlayPause,
    /// Any other key.
    Other,
}

/// What a key means under the keyboard layout.
#[derive(Clone, Debug, PartialEq, Eq)]
pub enum Key {
    /// The characters it types.
    Character(String),
    Named(NamedKey),
    /// A dead key.
    Dead,
    Unidentified,
}

/// Where on the keyboard a key sits.
#[derive(Clone, Copy, Debug, PartialEq, Eq, Structural)]
pub enum KeyLocation {
    Standard,
    Left,
    Right,
    Numpad,
}

/// The last function key there is a keysym for.
pub const LAST_FUNCTION_KEY: u8 = 20;

/// The keysyms of a key on the left and the right.
pub open spec fn sided(location: KeyLocation, left: u32, right: u32) -> u32 {
    if location == KeyLocation::Right {
        right
    } else {
        left
    }
}

/// The keysyms of a key on the numeric pad and elsewhere.
pub open spec fn padded(location: KeyLocation, pad: u32, plain: u32) -> u32 {
    if location == KeyLocation::Numpad {
        pad
    } else {
        plain
    }
}

/// The keysym of a named key, for those that have one.
pub open spec fn named_keysym(n: NamedKey, location: KeyLocation) -> Option<u32> {
    match n {
        NamedKey::Alt => Some(sided(location, ks::ALT_L, ks::ALT_R)),
        NamedKey::AltGraph => Some(ks::ISO_LEVEL3_SHIFT),
        NamedKey::CapsLock => Some(ks::CAPS_LOCK),
        NamedKey::Control => Some(sided(location, ks::CONTROL_L, ks::CONTROL_R)),
        NamedKey::Shift => Some(sided(location, ks::SHIFT_L, ks::SHIFT_R)),
        NamedKey::Super => Some(sided(location, ks::SUPER_L, ks::SUPER_R)),
        NamedKey::Meta => Some(sided(location, ks::SUPER_L, ks::SUPER_R)),
        NamedKey::Hyper => Some(sided(location, ks::SUPER_L, ks::SUPER_R)),
        NamedKey::NumLock => Some(ks::NUM_LOCK),
        NamedKey::ScrollLock => Some(ks::SCROLL_LOCK),
        NamedKey::Enter => Some(padded(location, ks::KP_ENTER, ks::RETURN)),
        NamedKey::Tab => Some(ks::TAB),
        NamedKey::Space => Some(ks::SPACE),
        NamedKey::ArrowDown => Some(padded(location, ks::KP_DOWN, ks::DOWN)),
        NamedKey::ArrowLeft => Some(padded(location, ks::KP_LEFT, ks::LEFT)),
        NamedKey::ArrowRight => Some(padded(location, ks::KP_RIGHT, ks::RIGHT)),
        NamedKey::ArrowUp => Some(padded(location, ks::KP_UP, ks::UP)),
        NamedKey::End => Some(padded(location, ks::KP_END, ks::END)),
        NamedKey::Home => Some(padded(location, ks::KP_HOME, ks::HOME)),
        NamedKey::PageDown => Some(padded(location, ks::KP_PAGE_DOWN, ks::PAGE_DOWN)),
        NamedKey::PageUp => Some(padded(location, ks::KP_PAGE_UP, ks::PAGE_UP)),
        NamedKey::Backspace => Some(ks::BACKSPACE),
        NamedKey::Clear => Some(ks::CLEAR),
        NamedKey::Delete => Some(padded(location, ks::KP_DELETE, ks::DELETE)),
        NamedKey::Insert => Some(padded(location, ks::KP_INSERT, ks::INSERT)),
        NamedKey::Escape => Some(ks::ESCAPE),
        NamedKey::Pause => Some(ks::PAUSE),
        NamedKey::PrintScreen => Some(ks::PRINT),
        NamedKey::ContextMenu => Some(ks::MENU),
        NamedKey::Function(f) => if 1 <= f <= LAST_FUNCTION_KEY {
            Some((ks::F1 + f - 1) as u32)
        } else {
            None
        },
        NamedKey::AudioVolumeDown => Some(ks::AUDIO_LOWER_VOLUME),
        NamedKey::AudioVolumeUp => Some(ks::AUDIO_RAISE_VOLUME),
        NamedKey::AudioVolumeMute => Some(ks::AUDIO_MUTE),
        NamedKey::MediaPlayPause => Some(ks::AUDIO_PLAY),
        NamedKey::Other => None,
    }
}

/// The keysym of a key: of its first character, or of its name. A key that
/// types nothing has none.
pub open spec fn keysym_of(key: Key, location: KeyLocation) -> Option<u32> {
    match key {
        Key::Character(s) => if s@.len() == 0 {
            None
        } else {
            Some(ks::of_char(s@[0]))
        },
        Key::Named(n) => named_keysym(n, location),
        Key::Dead => None,
        Key::Unidentified => None,
    }
}

fn on_side(location: KeyLocation, left: u32, right: u32) -> (k: u32)
    ensures
        k == sided(location, left, right),
{
    match location {
        KeyLocation::Right => right,
        _ => left,
    }
}

fn on_pad(location: KeyLocation, pad: u32, plain: u32) -> (k: u32)
    ensures
        k == padded(location, pad, plain),
{
    match location {
        KeyLocation::Numpad => pad,
        _ => plain,
    }
}

/// Map a logical key (plus its location) to an X11 keysym.
///
/// Several characters at once are a dead key composition; the first of them
/// counts here.
pub fn keysym_for(key: &Key, location: KeyLocation) -> (k: Option<u32>)
    ensures
        k == keysym_of(*key, location),
{
    match key {
        Key::Character(s) => {
            let v = text::chars_of(s.as_str());
            if v.len() == 0 {
                None
            } else {
                Some(ks::keysym_from_char(v[0]))
            }
        },
        Key::Named(n) => named(*n, location),
        Key::Dead => None,
        Key::Unidentified => None,
    }
}

/// Map a named key (plus its location) to an X11 keysym.
pub fn named(n: NamedKey, location: KeyLocation) -> (k: Option<u32>)
    ensures
        k == named_keysym(n, location),
{
    match n {
        NamedKey::Alt => Some(on_side(location, ks::ALT_L, ks::ALT_R)),
        NamedKey::AltGraph => Some(ks::ISO_LEVEL3_SHIFT),
        NamedKey::CapsLock => Some(ks::CAPS_LOCK),
        NamedKey::Control => Some(on_side(location, ks::CONTROL_L, ks::CONTROL_R)),
        NamedKey::Shift => Some(on_side(location, ks::SHIFT_L, ks::SHIFT_R)),
        NamedKey::Super => Some(on_side(location, ks::SUPER_L, ks::SUPER_R)),
        NamedKey::Meta => Some(on_side(location, ks::SUPER_L, ks::SUPER_R)),
        NamedKey::Hyper => Some(on_side(location, ks::SUPER_L, ks::SUPER_R)),
        NamedKey::NumLock => Some(ks::NUM_LOCK),
        NamedKey::ScrollLock => Some(ks::SCROLL_LOCK),
        NamedKey::Enter => Some(on_pad(location, ks::KP_ENTER, ks::RETURN)),
        NamedKey::Tab => Some(ks::TAB),
        NamedKey::Space => Some(ks::SPACE),
        NamedKey::ArrowDown => Some(on_pad(location, ks::KP_DOWN, ks::DOWN)),
        NamedKey::ArrowLeft => Some(on_pad(location, ks::KP_LEFT, ks::LEFT)),
        NamedKey::ArrowRight => Some(on_pad(location, ks::KP_RIGHT, ks::RIGHT)),
        NamedKey::ArrowUp => Some(on_pad(location, ks::KP_UP, ks::UP)),
        NamedKey::End => Some(on_pad(location, ks::KP_END, ks::END)),
        NamedKey::Home => Some(on_pad(location, ks::KP_HOME, ks::HOME)),
        NamedKey::PageDown => Some(on_pad(location, ks::KP_PAGE_DOWN, ks::PAGE_DOWN)),
        NamedKey::PageUp => Some(on_pad(location, ks::KP_PAGE_UP, ks::PAGE_UP)),
        NamedKey::Backspace => Some(ks::BACKSPACE),
        NamedKey::Clear => Some(ks::CLEAR),
        NamedKey::Delete => Some(on_pad(location, ks::KP_DELETE, ks::DELETE)),
        NamedKey::Insert => Some(on_pad(location, ks::KP_INSERT, ks::INSERT)),
        NamedKey::Escape => Some(ks::ESCAPE),
        NamedKey::Pause => Some(ks::PAUSE),
        NamedKey::PrintScreen => Some(ks::PRINT),
        NamedKey::ContextMenu => Some(ks::MENU),
        NamedKey::Function(f) => if 1 <= f && f <= LAST_FUNCTION_KEY {
            Some(ks::F1 + f as u32 - 1)
        } else {
            None
        },
        NamedKey::AudioVolumeDown => Some(ks::AUDIO_LOWER_VOLUME),
        NamedKey::AudioVolumeUp => Some(ks::AUDIO_RAISE_VOLUME),
        NamedKey::AudioVolumeMute => Some(ks::AUDIO_MUTE),
        NamedKey::MediaPlayPause => Some(ks::AUDIO_PLAY),
        NamedKey::Other => None,
    }
}

/// The keysym of a character on the numeric pad, for those that have one.
pub open spec fn pad_keysym(c: char) -> Option<u32> {
    if '0' <= c <= '9' {
        Some((ks::KP_0 + (c as u32 - '0' as u32)) as u32)
    } else if c == '.' || c == ',' {
        Some(ks::KP_DECIMAL)
    } else if c == '+' {
        Some(ks::KP_ADD)
    } else if c == '-' {
        Some(ks::KP_SUBTRACT)
    } else if c == '*' {
        Some(ks::KP_MULTIPLY)
    } else if c == '/' {
        Some(ks::KP_DIVIDE)
    } else {
        None
    }
}

/// Keysym for a numpad character key, honouring the numpad location so that
/// applications can distinguish `KP_1` from `1`.
pub fn numpad_keysym(c: char) -> (k: Option<u32>)
    ensures
        k == pad_keysym(c),
{
    if '0' <= c && c <= '9' {
        Some(ks::KP_0 + (c as u32 - 48))
    } else if c == '.' || c == ',' {
        Some(ks::KP_DECIMAL)
    } else if c == '+' {
        Some(ks::KP_ADD)
    } else if c == '-' {
        Some(ks::KP_SUBTRACT)
    } else if c == '*' {
        Some(ks::KP_MULTIPLY)
    } else if c == '/' {
        Some(ks::KP_DIVIDE)
    } else {
        None
    }
}

/// Whether a key is one of those that stand for Super.
pub open spec fn is_super(n: NamedKey) -> bool {
    n == NamedKey::Super || n == NamedKey::Meta || n == NamedKey::Hyper
}

/// Two keys at one place have the same keysym only if they are the same key,
/// but for those that stand for Super.
pub proof fn law_named_keys_keep_apart(a: NamedKey, b: NamedKey, location: KeyLocation)
    requires
        named_keysym(a, location) is Some,
        named_keysym(a, location) == named_keysym(b, location),
    ensures
        a == b || (is_super(a) && is_super(b)),
{
}

/// The keysym of a key that has one wherever it stands.
pub proof fn law_keysyms_of_single_keys(location: KeyLocation, f: u8)
    ensures
        named_keysym(NamedKey::AltGraph, location) == Some(0xfe03u32),
        named_keysym(NamedKey::CapsLock, location) == Some(0xffe5u32),
        named_keysym(NamedKey::NumLock, location) == Some(0xff7fu32),
        named_keysym(NamedKey::ScrollLock, location) == Some(0xff14u32),
        named_keysym(NamedKey::Tab, location) == Some(0xff09u32),
        named_keysym(NamedKey::Space, location) == Some(0x20u32),
        named_keysym(NamedKey::Backspace, location) == Some(0xff08u32),
        named_keysym(NamedKey::Clear, location) == Some(0xff0bu32),
        named_keysym(NamedKey::Escape, location) == Some(0xff1bu32),
        named_keysym(NamedKey::Pause, location) == Some(0xff13u32),
        named_keysym(NamedKey::PrintScreen, location) == Some(0xff61u32),
        named_keysym(NamedKey::ContextMenu, location) == Some(0xff67u32),
        named_keysym(NamedKey::AudioVolumeDown, location) == Some(0x1008_ff11u32),
        named_keysym(NamedKey::AudioVolumeMute, location) == Some(0x1008_ff12u32),
        named_keysym(NamedKey::AudioVolumeUp, location) == Some(0x1008_ff13u32),
        named_keysym(NamedKey::MediaPlayPause, location) == Some(0x1008_ff14u32),
        named_keysym(NamedKey::Other, location) is None,
        1 <= f <= 20 ==> (named_keysym(NamedKey::Function(f), location) matches Some(k) && k
            == 0xffbd + f),
        f < 1 || f > 20 ==> named_keysym(NamedKey::Function(f), location) is None,
{
}

/// The keysym of a key that stands on both sides of the keyboard: that of the
/// right where it is the right one, and of the left where it is not.
pub proof fn law_keysyms_of_paired_keys(location: KeyLocation)
    ensures
        ({
            let right = location == KeyLocation::Right;
            &&& named_keysym(NamedKey::Shift, location) == Some(
                if right {
                    0xffe2u32
                } else {
                    0xffe1u32
                },
            )
            &&& named_keysym(NamedKey::Control, location) == Some(
                if right {
                    0xffe4u32
                } else {
                    0xffe3u32
                },
            )
            &&& named_keysym(NamedKey::Alt, location) == Some(
                if right {
                    0xffeau32
                } else {
                    0xffe9u32
                },
            )
            &&& named_keysym(NamedKey::Super, location) == Some(
                if right {
                    0xffecu32
                } else {
                    0xffebu32
                },
            )
            &&& named_keysym(NamedKey::Meta, location) == named_keysym(NamedKey::Super, location)
            &&& named_keysym(NamedKey::Hyper, location) == named_keysym(NamedKey::Super, location)
        }),
{
}

/// The keysym of a key that stands on the pad too, on it.
pub proof fn law_keysyms_on_the_pad()
    ensures
        ({
            let pad = KeyLocation::Numpad;
            &&& named_keysym(NamedKey::Enter, pad) == Some(0xff8du32)
            &&& named_keysym(NamedKey::Home, pad) == Some(0xff95u32)
            &&& named_keysym(NamedKey::ArrowLeft, pad) == Some(0xff96u32)
            &&& named_keysym(NamedKey::ArrowUp, pad) == Some(0xff97u32)
            &&& named_keysym(NamedKey::ArrowRight, pad) == Some(0xff98u32)
            &&& named_keysym(NamedKey::ArrowDown, pad) == Some(0xff99u32)
            &&& named_keysym(NamedKey::PageUp, pad) == Some(0xff9au32)
            &&& named_keysym(NamedKey::PageDown, pad) == Some(0xff9bu32)
            &&& named_keysym(NamedKey::End, pad) == Some(0xff9cu32)
            &&& named_keysym(NamedKey::Insert, pad) == Some(0xff9eu32)
            &&& named_keysym(NamedKey::Delete, pad) == Some(0xff9fu32)
        }),
{
}

/// The keysym of a key that stands on the pad too, off it.
pub proof fn law_keysyms_off_the_pad(location: KeyLocation)
    requires
        location != KeyLocation::Numpad,
    ensures
        named_keysym(NamedKey::Enter, location) == Some(0xff0du32),
        named_keysym(NamedKey::Home, location) == Some(0xff50u32),
        named_keysym(NamedKey::ArrowLeft, location) == Some(0xff51u32),
        named_keysym(NamedKey::ArrowUp, location) == Some(0xff52u32),
        named_keysym(NamedKey::ArrowRight, location) == Some(0xff53u32),
        named_keysym(NamedKey::ArrowDown, location) == Some(0xff54u32),
        named_keysym(NamedKey::PageUp, location) == Some(0xff55u32),
        named_keysym(NamedKey::PageDown, location) == Some(0xff56u32),
        named_keysym(NamedKey::End, location) == Some(0xff57u32),
        named_keysym(NamedKey::Insert, location) == Some(0xff63u32),
        named_keysym(NamedKey::Delete, location) == Some(0xffffu32),
{
}

/// A key that writes is told by the first character it writes: a printing one of
/// Latin-1 by its own number, any other in the range of Unicode. A key that
/// writes nothing, a dead one and an unknown one are not told.
pub proof fn law_written_characters_are_told(s: String, c: char, location: KeyLocation)
    requires
        s@.len() > 0 ==> s@[0] == c,
    ensures
        s@.len() == 0 ==> keysym_of(Key::Character(s), location) is None,
        s@.len() > 0 && (0x20 <= c as u32 <= 0x7e || 0xa0 <= c as u32 <= 0xff) ==> keysym_of(
            Key::Character(s),
            location,
        ) == Some(c as u32),
        s@.len() > 0 && ((c as u32) < 0x20 || 0x7e < c as u32 && (c as u32) < 0xa0 || c as u32
            > 0xff) ==> (keysym_of(Key::Character(s), location) matches Some(k) && k == 0x0100_0000
            + c as u32),
        keysym_of(Key::Dead, location) is None,
        keysym_of(Key::Unidentified, location) is None,
        forall|n: NamedKey|
            #[trigger] keysym_of(Key::Named(n), location) == named_keysym(n, location),
{
}

/// The keysym of a character on the pad: each digit has its own, the point and
/// the comma are one, and so are the four operators.
pub proof fn law_keysyms_of_pad_characters(c: char)
    ensures
        0x30 <= c as u32 <= 0x39 ==> (pad_keysym(c) matches Some(k) && k == 0xffb0 + (c as u32
            - 0x30)),
        pad_keysym('.') == Some(0xffaeu32),
        pad_keysym(',') == Some(0xffaeu32),
        pad_keysym('+') == Some(0xffabu32),
        pad_keysym('-') == Some(0xffadu32),
        pad_keysym('*') == Some(0xffaau32),
        pad_keysym('/') == Some(0xffafu32),
        !(0x30 <= c as u32 <= 0x39) && c != '.' && c != ',' && c != '+' && c != '-' && c != '*' && c
            != '/' ==> pad_keysym(c) is None,
{
}

} // verus!
