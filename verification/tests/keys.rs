use lynxrdp_client::app::keys::{
    accelerator_for, button_codes, Accelerator, KeyEvent, KeyOutcome, Keyboard, Modifiers,
    MouseButton, PhysicalKey,
};
use lynxrdp_client::keymap::{Key, KeyLocation, NamedKey};
use lynxrdp_client::proto::keysym as ks;
use lynxrdp_client::proto::Message;

const NONE: Modifiers = Modifiers {
    shift: false,
    control: false,
    alt: false,
    logo: false,
};
const CONTROL: Modifiers = Modifiers {
    control: true,
    ..NONE
};
const ALT: Modifiers = Modifiers { alt: true, ..NONE };
const CTRL_ALT: Modifiers = Modifiers {
    control: true,
    alt: true,
    ..NONE
};

#[test]
fn the_layout_has_the_last_word_on_which_letter_is_which() {
    let ch = |c: &str| Key::Character(c.to_string());
    const KEY_N: PhysicalKey = PhysicalKey::Other(49);
    const END: PhysicalKey = PhysicalKey::Other(107);
    const ENTER: PhysicalKey = PhysicalKey::Other(28);

    // The ordinary case: the layout says `b`, and it sits on the physical
    // B key.
    assert_eq!(
        accelerator_for(CTRL_ALT, &ch("b"), PhysicalKey::KeyB),
        Some(Accelerator::Pin)
    );
    // Where a modifier is applied first the letter never arrives; the place
    // of the key is all there is left to go on.
    assert_eq!(
        accelerator_for(CTRL_ALT, &ch("\u{222b}"), PhysicalKey::KeyB),
        Some(Accelerator::Pin)
    );
    assert_eq!(
        accelerator_for(CTRL_ALT, &ch("\u{153}"), PhysicalKey::KeyQ),
        Some(Accelerator::Disconnect)
    );
    // Dvorak: the key labelled B is physically N, and it still pins...
    assert_eq!(
        accelerator_for(CTRL_ALT, &ch("b"), KEY_N),
        Some(Accelerator::Pin)
    );
    // ...while the physical B key types `x` there, and Ctrl+Alt+X belongs
    // to the session.
    assert_eq!(accelerator_for(CTRL_ALT, &ch("x"), PhysicalKey::KeyB), None);
    // The named keys do not depend on the layout at all.
    assert_eq!(
        accelerator_for(CTRL_ALT, &Key::Named(NamedKey::End), END),
        Some(Accelerator::SecureAttention)
    );
    // And nothing at all fires without both modifiers.
    for m in [NONE, CONTROL, ALT] {
        assert_eq!(
            accelerator_for(m, &Key::Named(NamedKey::Enter), ENTER),
            None
        );
    }
    assert_eq!(
        accelerator_for(CTRL_ALT, &Key::Named(NamedKey::Enter), ENTER),
        Some(Accelerator::Fullscreen)
    );
}

#[test]
fn every_pointer_button_gets_its_own_bit() {
    // Sharing a bit would mean releasing Back cleared Forward's flag, and
    // the bar would come up in the middle of a two-button drag.
    let buttons = [
        MouseButton::Left,
        MouseButton::Middle,
        MouseButton::Right,
        MouseButton::Back,
        MouseButton::Forward,
    ];
    let mut seen = 0u8;
    for b in buttons {
        let (_, bit) = button_codes(b).expect("a named button has a code");
        assert_eq!(bit.count_ones(), 1, "{b:?} is not a single bit");
        assert_eq!(seen & bit, 0, "{b:?} shares a bit with an earlier button");
        seen |= bit;
    }
    assert!(button_codes(MouseButton::Other(9)).is_none());
}

fn event(c: &str, down: bool) -> KeyEvent {
    KeyEvent {
        logical: Key::Character(c.to_string()),
        location: KeyLocation::Standard,
        physical: PhysicalKey::Other(0),
        down,
    }
}

#[test]
fn a_release_undoes_its_press() {
    let mut keyboard = Keyboard::new();
    assert_eq!(
        keyboard.on_key(NONE, &event("a", true)),
        KeyOutcome::Send {
            keysym: 0x61,
            down: true
        }
    );
    assert_eq!(keyboard.pressed, vec![0x61]);
    assert_eq!(
        keyboard.on_key(NONE, &event("a", false)),
        KeyOutcome::Send {
            keysym: 0x61,
            down: false
        }
    );
    assert!(keyboard.pressed.is_empty());
}

#[test]
fn the_release_of_a_kept_key_is_kept_too() {
    let mut keyboard = Keyboard::new();
    assert_eq!(
        keyboard.on_key(CTRL_ALT, &event("b", true)),
        KeyOutcome::Bar(Accelerator::Pin)
    );
    assert!(keyboard.pressed.is_empty());
    // The modifiers have gone up first: the session must still not see the
    // release of a key it never saw pressed.
    assert_eq!(
        keyboard.on_key(NONE, &event("b", false)),
        KeyOutcome::Nothing
    );
    // From then on the key is the session's again.
    assert_eq!(
        keyboard.on_key(NONE, &event("b", true)),
        KeyOutcome::Send {
            keysym: 0x62,
            down: true
        }
    );
}

#[test]
fn letting_go_of_everything_releases_what_was_down() {
    let mut keyboard = Keyboard::new();
    keyboard.on_key(NONE, &event("a", true));
    keyboard.on_key(NONE, &event("b", true));
    assert_eq!(
        keyboard.release_all(),
        vec![
            Message::KeyEvent {
                keysym: 0x61,
                down: false
            },
            Message::KeyEvent {
                keysym: 0x62,
                down: false
            },
        ]
    );
    assert!(keyboard.pressed.is_empty());
    assert!(keyboard.release_all().is_empty());
}

#[test]
fn the_secure_attention_keys_nest() {
    let keyboard = Keyboard::new();
    let told: Vec<(u32, bool)> = keyboard
        .secure_attention()
        .iter()
        .map(|m| match m {
            Message::KeyEvent { keysym, down } => (*keysym, *down),
            _ => panic!("not a key"),
        })
        .collect();
    assert_eq!(
        told,
        vec![
            (ks::CONTROL_L, true),
            (ks::ALT_L, true),
            (ks::DELETE, true),
            (ks::DELETE, false),
            (ks::ALT_L, false),
            (ks::CONTROL_L, false),
        ]
    );
}
