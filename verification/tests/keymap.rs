use lynxrdp_client::keymap::{keysym_for, numpad_keysym, Key, KeyLocation, NamedKey};
use lynxrdp_client::proto::keysym as ks;

#[test]
fn characters_map_to_keysyms() {
    assert_eq!(
        keysym_for(&Key::Character("a".to_string()), KeyLocation::Standard),
        Some(0x61)
    );
    assert_eq!(
        keysym_for(&Key::Character("€".to_string()), KeyLocation::Standard),
        Some(0x100_20ac)
    );
    assert_eq!(
        keysym_for(&Key::Named(NamedKey::Enter), KeyLocation::Standard),
        Some(ks::RETURN)
    );
    assert_eq!(
        keysym_for(&Key::Named(NamedKey::Enter), KeyLocation::Numpad),
        Some(ks::KP_ENTER)
    );
    assert_eq!(
        keysym_for(&Key::Named(NamedKey::Shift), KeyLocation::Right),
        Some(ks::SHIFT_R)
    );
    assert_eq!(
        keysym_for(&Key::Named(NamedKey::Shift), KeyLocation::Left),
        Some(ks::SHIFT_L)
    );
    assert_eq!(
        keysym_for(&Key::Named(NamedKey::Function(12)), KeyLocation::Standard),
        Some(0xffc9)
    );
    assert_eq!(
        keysym_for(&Key::Named(NamedKey::Other), KeyLocation::Standard),
        None
    );
    assert_eq!(keysym_for(&Key::Dead, KeyLocation::Standard), None);
    assert_eq!(numpad_keysym('7'), Some(ks::KP_0 + 7));
    assert_eq!(numpad_keysym('x'), None);
}
