//! The keys and buttons of a session window: which of them it keeps for
//! itself, and which are held down in the session.

use vstd::prelude::*;

use crate::keymap;
use crate::keymap::{Key, KeyLocation, NamedKey};
use crate::proto::keysym as ks;
use crate::proto::Message;
use crate::text;

verus! {

/// The modifier keys that are down.
#[derive(Clone, Copy, Debug, PartialEq, Eq, Structural)]
pub struct Modifiers {
    pub shift: bool,
    pub control: bool,
    pub alt: bool,
    /// The key with a logo or a command sign.
    pub logo: bool,
}

/// Where a key sits, whatever the layout makes of it.
#[derive(Clone, Copy, Debug, PartialEq, Eq, Structural)]
pub enum PhysicalKey {
    KeyB,
    KeyQ,
    KeyW,
    /// Any other key, by its number.
    Other(u32),
}

/// An accelerator this window keeps rather than forwarding.
#[derive(Clone, Copy, Debug, PartialEq, Eq, Structural)]
pub enum Accelerator {
    /// Ctrl+Alt+Enter.
    Fullscreen,
    /// Ctrl+Alt+End.
    SecureAttention,
    /// Ctrl+Alt+B.
    Pin,
    /// Ctrl+Alt+Q.
    Disconnect,
}

/// A button of the pointer.
#[derive(Clone, Copy, Debug, PartialEq, Eq, Structural)]
pub enum MouseButton {
    Left,
    Middle,
    Right,
    Back,
    Forward,
    /// Any other button.
    Other(u16),
}

// ---------------------------------------------------------------------------
// Accelerators
// ---------------------------------------------------------------------------

/// An ASCII letter or digit.
pub open spec fn alphanumeric(c: char) -> bool {
    ('0' <= c <= '9') || ('a' <= c <= 'z') || ('A' <= c <= 'Z')
}

/// What the layout makes of a key: an accelerator, a letter that belongs to
/// the session, or nothing that decides.
pub open spec fn layout_says(s: Seq<char>) -> Option<Option<Accelerator>> {
    if s.len() == 1 && (s[0] == 'b' || s[0] == 'B') {
        Some(Some(Accelerator::Pin))
    } else if s.len() == 1 && (s[0] == 'q' || s[0] == 'Q') {
        Some(Some(Accelerator::Disconnect))
    } else if forall|i: int| 0 <= i < s.len() ==> alphanumeric(#[trigger] s[i]) {
        Some(None)
    } else {
        None
    }
}

/// What the place of a key makes of it.
pub open spec fn place_says(physical: PhysicalKey) -> Option<Accelerator> {
    match physical {
        PhysicalKey::KeyB => Some(Accelerator::Pin),
        PhysicalKey::KeyQ => Some(Accelerator::Disconnect),
        _ => None,
    }
}

/// The accelerator a key stands for, if it stands for one.
pub open spec fn accelerator_of(
    modifiers: Modifiers,
    logical: Key,
    physical: PhysicalKey,
) -> Option<Accelerator> {
    if !(modifiers.control && modifiers.alt) {
        None
    } else {
        match logical {
            Key::Named(NamedKey::Enter) => Some(Accelerator::Fullscreen),
            Key::Named(NamedKey::End) => Some(Accelerator::SecureAttention),
            Key::Character(c) => match layout_says(c@) {
                Some(said) => said,
                None => place_says(physical),
            },
            _ => place_says(physical),
        }
    }
}

fn all_alphanumeric(v: &Vec<char>) -> (r: bool)
    ensures
        r == forall|i: int| 0 <= i < v@.len() ==> alphanumeric(#[trigger] v@[i]),
{
    let mut i: usize = 0;
    while i < v.len()
        invariant
            i <= v.len(),
            forall|j: int| 0 <= j < i ==> alphanumeric(#[trigger] v@[j]),
        decreases v.len() - i,
    {
        let c = v[i];
        if !(('0' <= c && c <= '9') || ('a' <= c && c <= 'z') || ('A' <= c && c <= 'Z')) {
            assert(!alphanumeric(v@[i as int]));
            return false;
        }
        i = i + 1;
    }
    true
}

/// Match a key event against the bar's accelerators.
///
/// The layout's answer wins where it gives one: on Dvorak the key labelled B
/// is what should pin, wherever it sits. The place of the key is consulted only
/// when the layout produced no letter at all, which is the case where a
/// modifier is applied before the event is seen and a symbol arrives in place
/// of the letter. Falling through to the place unconditionally would swallow
/// combinations that belong to the session.
pub fn accelerator_for(modifiers: Modifiers, logical: &Key, physical: PhysicalKey) -> (r: Option<
    Accelerator,
>)
    ensures
        r == accelerator_of(modifiers, *logical, physical),
{
    if !(modifiers.control && modifiers.alt) {
        return None;
    }
    match logical {
        Key::Named(NamedKey::Enter) => {
            return Some(Accelerator::Fullscreen);
        },
        Key::Named(NamedKey::End) => {
            return Some(Accelerator::SecureAttention);
        },
        Key::Character(c) => {
            let v = text::chars_of(c.as_str());
            if v.len() == 1 && (v[0] == 'b' || v[0] == 'B') {
                return Some(Accelerator::Pin);
            }
            if v.len() == 1 && (v[0] == 'q' || v[0] == 'Q') {
                return Some(Accelerator::Disconnect);
            }
            if all_alphanumeric(&v) {
                return None;
            }
        },
        _ => {},
    }
    match physical {
        PhysicalKey::KeyB => Some(Accelerator::Pin),
        PhysicalKey::KeyQ => Some(Accelerator::Disconnect),
        _ => None,
    }
}

/// No key is kept from the session unless both modifiers are down.
pub proof fn law_accelerators_need_both_modifiers(
    modifiers: Modifiers,
    logical: Key,
    physical: PhysicalKey,
)
    requires
        !modifiers.control || !modifiers.alt,
    ensures
        accelerator_of(modifiers, logical, physical) is None,
{
}

/// A letter or digit the layout produced decides alone: where the key sits does
/// not matter.
pub proof fn law_layout_has_the_last_word(
    modifiers: Modifiers,
    s: String,
    a: PhysicalKey,
    b: PhysicalKey,
)
    requires
        forall|i: int| 0 <= i < s@.len() ==> alphanumeric(#[trigger] s@[i]),
    ensures
        accelerator_of(modifiers, Key::Character(s), a) == accelerator_of(
            modifiers,
            Key::Character(s),
            b,
        ),
{
}

// ---------------------------------------------------------------------------
// Buttons
// ---------------------------------------------------------------------------

/// The protocol button code and our own held-buttons bit, for those that have
/// them.
pub open spec fn codes_of(b: MouseButton) -> Option<(u8, u8)> {
    match b {
        MouseButton::Left => Some((1u8, 1u8)),
        MouseButton::Middle => Some((2u8, 2u8)),
        MouseButton::Right => Some((3u8, 4u8)),
        MouseButton::Back => Some((8u8, 8u8)),
        MouseButton::Forward => Some((9u8, 16u8)),
        MouseButton::Other(_) => None,
    }
}

/// The protocol button code and our own held-buttons bit.
///
/// The bit is not the protocol code: the codes of the last two would not fit
/// in a byte of flags. It has to be one bit per button so that letting go of
/// the second button of a two-button drag is not mistaken for the end of the
/// drag.
pub fn button_codes(b: MouseButton) -> (r: Option<(u8, u8)>)
    ensures
        r == codes_of(b),
{
    match b {
        MouseButton::Left => Some((1, 1)),
        MouseButton::Middle => Some((2, 2)),
        MouseButton::Right => Some((3, 4)),
        MouseButton::Back => Some((8, 8)),
        MouseButton::Forward => Some((9, 16)),
        MouseButton::Other(_) => None,
    }
}

/// The flags once a button went down or up.
pub open spec fn held_after(held: u8, bit: u8, down: bool) -> u8 {
    if down {
        held | bit
    } else {
        held & !bit
    }
}

/// Every pointer button has a bit of its own: letting go of one leaves the
/// flags of the others alone.
pub proof fn law_buttons_keep_apart(a: MouseButton, b: MouseButton, held: u8)
    requires
        codes_of(a) is Some,
        codes_of(b) is Some,
        a != b,
    ensures
        held_after(held, (codes_of(a)->0).1, false) & (codes_of(b)->0).1 == held & (codes_of(
            b,
        )->0).1,
        held_after(held, (codes_of(a)->0).1, true) & (codes_of(b)->0).1 == held & (codes_of(
            b,
        )->0).1,
        held_after(held, (codes_of(a)->0).1, true) & (codes_of(a)->0).1 != 0,
        held_after(held, (codes_of(a)->0).1, false) & (codes_of(a)->0).1 == 0,
{
    let x = (codes_of(a)->0).1;
    let y = (codes_of(b)->0).1;
    assert(x & y == 0) by (bit_vector)
        requires
            x == 1 || x == 2 || x == 4 || x == 8 || x == 16,
            y == 1 || y == 2 || y == 4 || y == 8 || y == 16,
            x != y,
    ;
    assert((held & !x) & y == held & y && (held | x) & y == held & y && (held | x) & x != 0 && (held
        & !x) & x == 0) by (bit_vector)
        requires
            x & y == 0,
            x != 0,
    ;
}

// ---------------------------------------------------------------------------
// The keyboard
// ---------------------------------------------------------------------------

/// Which keys are down.
#[derive(Clone, Debug, PartialEq, Eq)]
pub struct Keyboard {
    /// The keys that are down in the session, in the order they went down.
    pub pressed: Vec<u32>,
    /// Keysyms consumed as part of a bar accelerator. Their release is consumed
    /// too: by then the user may have let go of Ctrl, so the modifier test that
    /// recognised the press would no longer fire.
    pub swallowed: Vec<u32>,
}

/// Which keys are down.
#[verifier::ext_equal]
pub struct Keys {
    pub pressed: Seq<u32>,
    pub swallowed: Seq<u32>,
}

impl View for Keyboard {
    type V = Keys;

    open spec fn view(&self) -> Keys {
        Keys { pressed: self.pressed@, swallowed: self.swallowed@ }
    }
}

/// A key event.
#[derive(Clone, Debug, PartialEq, Eq)]
pub struct KeyEvent {
    /// What the key means under the layout.
    pub logical: Key,
    pub location: KeyLocation,
    pub physical: PhysicalKey,
    pub down: bool,
}

/// What becomes of a key event.
#[derive(Clone, Copy, Debug, PartialEq, Eq, Structural)]
pub enum KeyOutcome {
    /// Nothing.
    Nothing,
    /// The window keeps it.
    Bar(Accelerator),
    /// The session gets it.
    Send { keysym: u32, down: bool },
}

/// `s` without the key `k`.
pub open spec fn without(s: Seq<u32>, k: u32) -> Seq<u32>
    decreases s.len(),
{
    if s.len() == 0 {
        s
    } else if s.last() == k {
        without(s.drop_last(), k)
    } else {
        without(s.drop_last(), k).push(s.last())
    }
}

/// `s` with the first `k` in it taken out and the last key in its place.
pub open spec fn swapped_out(s: Seq<u32>, k: u32) -> Seq<u32> {
    match s.index_of_first(k) {
        Some(i) => s.update(i, s.last()).drop_last(),
        None => s,
    }
}

/// The keysym the session is told: numpad characters arrive as numpad keysyms.
pub open spec fn told_keysym(logical: Key, location: KeyLocation, k: u32) -> u32 {
    match logical {
        Key::Character(c) => if location == KeyLocation::Numpad && c@.len() > 0 {
            match keymap::pad_keysym(c@[0]) {
                Some(pad) => pad,
                None => k,
            }
        } else {
            k
        },
        _ => k,
    }
}

/// The keys that are down in the session once `k` went down or up.
pub open spec fn pressed_after(pressed: Seq<u32>, k: u32, down: bool) -> Seq<u32> {
    if !down {
        without(pressed, k)
    } else if pressed.contains(k) {
        pressed
    } else {
        pressed.push(k)
    }
}

/// What a key event does.
pub open spec fn key_step(keys: Keys, modifiers: Modifiers, event: KeyEvent) -> (Keys, KeyOutcome) {
    match keymap::keysym_of(event.logical, event.location) {
        None => (keys, KeyOutcome::Nothing),
        Some(k) => {
            let acc = accelerator_of(modifiers, event.logical, event.physical);
            if event.down && acc is Some {
                (Keys { swallowed: keys.swallowed.push(k), ..keys }, KeyOutcome::Bar(acc->0))
            } else if !event.down && keys.swallowed.contains(k) {
                (Keys { swallowed: swapped_out(keys.swallowed, k), ..keys }, KeyOutcome::Nothing)
            } else {
                let told = told_keysym(event.logical, event.location, k);
                (
                    Keys { pressed: pressed_after(keys.pressed, told, event.down), ..keys },
                    KeyOutcome::Send { keysym: told, down: event.down },
                )
            }
        },
    }
}

fn first_at(v: &Vec<u32>, k: u32) -> (r: Option<usize>)
    ensures
        match r {
            Some(i) => v@.index_of_first(k) == Some(i as int) && i < v@.len(),
            None => !v@.contains(k),
        },
{
    let mut i: usize = 0;
    while i < v.len()
        invariant
            i <= v.len(),
            forall|j: int| 0 <= j < i ==> v@[j] != k,
        decreases v.len() - i,
    {
        if v[i] == k {
            assert(v@.contains(k));
            proof {
                v@.index_of_first_ensures(k);
            }
            return Some(i);
        }
        i = i + 1;
    }
    None
}

fn taken_out(v: &Vec<u32>, k: u32) -> (r: Vec<u32>)
    ensures
        r@ == without(v@, k),
{
    let mut r: Vec<u32> = Vec::new();
    let mut i: usize = 0;
    assert(v@.take(0) =~= Seq::<u32>::empty());
    while i < v.len()
        invariant
            i <= v.len(),
            r@ == without(v@.take(i as int), k),
        decreases v.len() - i,
    {
        assert(v@.take(i + 1).drop_last() =~= v@.take(i as int));
        if v[i] != k {
            r.push(v[i]);
        }
        i = i + 1;
    }
    assert(v@.take(v@.len() as int) =~= v@);
    r
}

proof fn lemma_without(s: Seq<u32>, k: u32)
    ensures
        !without(s, k).contains(k),
        !s.contains(k) ==> without(s, k) == s,
        forall|x: u32| x != k && s.contains(x) ==> without(s, k).contains(x),
        forall|x: u32| without(s, k).contains(x) ==> s.contains(x),
        s.no_duplicates() ==> without(s, k).no_duplicates(),
    decreases s.len(),
{
    if s.len() > 0 {
        let head = s.drop_last();
        lemma_without(head, k);
        let last = s.last();
        assert(s =~= head.push(last));
        let w = without(head, k);
        assert(s[s.len() - 1] == last);
        assert forall|x: u32| head.contains(x) implies s.contains(x) by {
            let i = choose|i: int| 0 <= i < head.len() && head[i] == x;
            assert(s[i] == x);
        }
        assert forall|x: u32| s.contains(x) implies head.contains(x) || x == last by {
            let i = choose|i: int| 0 <= i < s.len() && s[i] == x;
            if i < head.len() {
                assert(head[i] == x);
            }
        }
        if last != k {
            let t = w.push(last);
            assert(t[w.len() as int] == last);
            assert forall|x: u32| w.contains(x) implies t.contains(x) by {
                let i = choose|i: int| 0 <= i < w.len() && w[i] == x;
                assert(t[i] == x);
            }
            assert forall|x: u32| t.contains(x) implies w.contains(x) || x == last by {
                let i = choose|i: int| 0 <= i < t.len() && t[i] == x;
                if i < w.len() {
                    assert(w[i] == x);
                }
            }
            if s.no_duplicates() {
                assert(head.no_duplicates());
                assert(!head.contains(last)) by {
                    if head.contains(last) {
                        let i = choose|i: int| 0 <= i < head.len() && head[i] == last;
                        assert(s[i] == s[s.len() - 1]);
                    }
                }
                assert(!w.contains(last));
                assert forall|i: int, j: int|
                    0 <= i < t.len() && 0 <= j < t.len() && i != j implies t[i] != t[j] by {
                    if i < w.len() && j < w.len() {
                        assert(w[i] != w[j]);
                    } else if i < w.len() {
                        assert(w.contains(w[i]));
                    } else {
                        assert(w.contains(w[j]));
                    }
                }
            }
        } else if s.no_duplicates() {
            assert(head.no_duplicates());
        }
    }
}

/// A key of the session.
pub open spec fn key_message(keysym: u32, down: bool) -> Message {
    Message::KeyEvent { keysym, down }
}

/// The releases of some keys, in order.
pub open spec fn releases(pressed: Seq<u32>) -> Seq<Message> {
    Seq::new(pressed.len(), |i: int| key_message(pressed[i], false))
}

/// Whether one of two keys is down.
pub open spec fn either_down(pressed: Seq<u32>, a: u32, b: u32) -> bool {
    pressed.contains(a) || pressed.contains(b)
}

/// The modifiers that have to be synthesised for Ctrl+Alt+Del.
pub open spec fn synthesised(pressed: Seq<u32>) -> Seq<u32> {
    (if either_down(pressed, ks::CONTROL_L, ks::CONTROL_R) {
        Seq::<u32>::empty()
    } else {
        seq![ks::CONTROL_L]
    }) + (if either_down(pressed, ks::ALT_L, ks::ALT_R) {
        Seq::<u32>::empty()
    } else {
        seq![ks::ALT_L]
    })
}

/// Ctrl+Alt+Del: the missing modifiers go down, Delete goes down and up, and
/// the same modifiers come up again in the opposite order.
pub open spec fn attention(pressed: Seq<u32>) -> Seq<Message> {
    let synth = synthesised(pressed);
    Seq::new(synth.len(), |i: int| key_message(synth[i], true)) + seq![
        key_message(ks::DELETE, true),
        key_message(ks::DELETE, false),
    ] + releases(synth.reverse())
}

fn is_down(v: &Vec<u32>, k: u32) -> (r: bool)
    ensures
        r == v@.contains(k),
{
    proof {
        v@.index_of_first_ensures(k);
    }
    match first_at(v, k) {
        Some(_) => true,
        None => false,
    }
}

impl Keyboard {
    /// No key is recorded as down twice.
    pub open spec fn wf(self) -> bool {
        self.pressed@.no_duplicates()
    }

    /// A keyboard with no key down.
    pub fn new() -> (k: Keyboard)
        ensures
            k.wf(),
            k@.pressed == Seq::<u32>::empty(),
            k@.swallowed == Seq::<u32>::empty(),
    {
        Keyboard { pressed: Vec::new(), swallowed: Vec::new() }
    }

    /// Take a key event.
    ///
    /// A press of a key that is already down is an auto-repeat, which the
    /// session should see as repeated presses.
    pub fn on_key(&mut self, modifiers: Modifiers, event: &KeyEvent) -> (r: KeyOutcome)
        ensures
            final(self)@ == key_step(old(self)@, modifiers, *event).0,
            r == key_step(old(self)@, modifiers, *event).1,
            old(self).wf() ==> final(self).wf(),
    {
        proof {
            lemma_without(
                self.pressed@,
                told_keysym(
                    event.logical,
                    event.location,
                    keymap::keysym_of(event.logical, event.location)->0,
                ),
            );
        }
        let k: u32 = match keymap::keysym_for(&event.logical, event.location) {
            Some(k) => k,
            None => {
                return KeyOutcome::Nothing;
            },
        };
        if event.down {
            match accelerator_for(modifiers, &event.logical, event.physical) {
                Some(acc) => {
                    self.swallowed.push(k);
                    return KeyOutcome::Bar(acc);
                },
                None => {},
            }
        } else {
            proof {
                self.swallowed@.index_of_first_ensures(k);
            }
            match first_at(&self.swallowed, k) {
                Some(i) => {
                    self.swallowed.swap_remove(i);
                    return KeyOutcome::Nothing;
                },
                None => {},
            }
        }
        let told: u32 = match &event.logical {
            Key::Character(c) => {
                let v = text::chars_of(c.as_str());
                if event.location == KeyLocation::Numpad && v.len() > 0 {
                    match keymap::numpad_keysym(v[0]) {
                        Some(pad) => pad,
                        None => k,
                    }
                } else {
                    k
                }
            },
            _ => k,
        };
        if event.down {
            if !is_down(&self.pressed, told) {
                let ghost was = self.pressed@;
                self.pressed.push(told);
                assert(was.no_duplicates() ==> self.pressed@.no_duplicates()) by {
                    assert forall|i: int| 0 <= i < was.len() implies was[i] != told by {
                        assert(was.contains(was[i]));
                    }
                }
            }
        } else {
            self.pressed = taken_out(&self.pressed, told);
        }
        KeyOutcome::Send { keysym: told, down: event.down }
    }

    /// Let go of every key that is down in the session.
    ///
    /// The releases of swallowed keys will arrive with the window unfocused, or
    /// not at all; either way there is nothing left to match them against.
    pub fn release_all(&mut self) -> (m: Vec<Message>)
        ensures
            m@ == releases(old(self)@.pressed),
            final(self)@.pressed == Seq::<u32>::empty(),
            final(self)@.swallowed == Seq::<u32>::empty(),
            final(self).wf(),
    {
        let mut m: Vec<Message> = Vec::new();
        let mut i: usize = 0;
        while i < self.pressed.len()
            invariant
                i <= self.pressed.len(),
                self@ == old(self)@,
                m@ == releases(old(self)@.pressed).take(i as int),
            decreases self.pressed.len() - i,
        {
            m.push(Message::KeyEvent { keysym: self.pressed[i], down: false });
            i = i + 1;
            assert(m@ =~= releases(old(self)@.pressed).take(i as int));
        }
        self.pressed = Vec::new();
        self.swallowed = Vec::new();
        assert(m@ =~= releases(old(self)@.pressed));
        m
    }

    /// Ctrl+Alt+Del for the session.
    ///
    /// The modifiers are synthesised only when they are not already physically
    /// down. From the bar's button nothing is held, so all three keys are
    /// pressed and released in order; from Ctrl+Alt+End the session has already
    /// seen the modifiers go down, and pressing them again -- or releasing them
    /// afterwards while the user is still holding them -- would leave our idea
    /// of the keyboard and the session's disagreeing. What is synthesised is up
    /// again at the end, so that nothing is left to release later.
    pub fn secure_attention(&self) -> (m: Vec<Message>)
        ensures
            m@ == attention(self@.pressed),
    {
        let control = !(is_down(&self.pressed, ks::CONTROL_L) || is_down(
            &self.pressed,
            ks::CONTROL_R,
        ));
        let alt = !(is_down(&self.pressed, ks::ALT_L) || is_down(&self.pressed, ks::ALT_R));
        let mut m: Vec<Message> = Vec::new();
        if control {
            m.push(Message::KeyEvent { keysym: ks::CONTROL_L, down: true });
        }
        if alt {
            m.push(Message::KeyEvent { keysym: ks::ALT_L, down: true });
        }
        m.push(Message::KeyEvent { keysym: ks::DELETE, down: true });
        m.push(Message::KeyEvent { keysym: ks::DELETE, down: false });
        if alt {
            m.push(Message::KeyEvent { keysym: ks::ALT_L, down: false });
        }
        if control {
            m.push(Message::KeyEvent { keysym: ks::CONTROL_L, down: false });
        }
        assert(m@ =~= attention(self@.pressed));
        m
    }
}

/// The release of a key the window kept never reaches the session, whatever
/// modifiers are still down by then.
pub proof fn law_kept_key_stays_kept(
    keys: Keys,
    modifiers: Modifiers,
    later: Modifiers,
    press: KeyEvent,
    release: KeyEvent,
)
    requires
        press.down,
        !release.down,
        release.logical == press.logical,
        release.location == press.location,
        key_step(keys, modifiers, press).1 is Bar,
    ensures
        key_step(key_step(keys, modifiers, press).0, later, release).1 is Nothing,
{
    let k = keymap::keysym_of(press.logical, press.location)->0;
    let kept = keys.swallowed.push(k);
    assert(kept[keys.swallowed.len() as int] == k);
}

/// A key that goes down and up again, none of which the window keeps, leaves
/// the session's keyboard as it was.
pub proof fn law_release_undoes_press(
    keys: Keys,
    modifiers: Modifiers,
    later: Modifiers,
    press: KeyEvent,
    release: KeyEvent,
    keysym: u32,
)
    requires
        press.down,
        !release.down,
        release.logical == press.logical,
        release.location == press.location,
        key_step(keys, modifiers, press).1 == (KeyOutcome::Send { keysym, down: true }),
        !keys.pressed.contains(keysym),
        keymap::keysym_of(press.logical, press.location) matches Some(k)
            && !keys.swallowed.contains(k),
    ensures
        key_step(key_step(keys, modifiers, press).0, later, release).0.pressed == keys.pressed,
        key_step(key_step(keys, modifiers, press).0, later, release).1 == (KeyOutcome::Send {
            keysym,
            down: false,
        }),
{
    let down = keys.pressed.push(keysym);
    assert(down.drop_last() =~= keys.pressed);
    lemma_without(keys.pressed, keysym);
}

/// The session holds what the window says it holds: a key the session was told
/// is down is recorded as down, and one it was told is up is not.
pub proof fn law_recorded_as_told(keys: Keys, modifiers: Modifiers, event: KeyEvent)
    ensures
        match key_step(keys, modifiers, event).1 {
            KeyOutcome::Send { keysym, down } => key_step(
                keys,
                modifiers,
                event,
            ).0.pressed.contains(keysym) == down,
            _ => key_step(keys, modifiers, event).0.pressed == keys.pressed,
        },
{
    match key_step(keys, modifiers, event).1 {
        KeyOutcome::Send { keysym, down } => {
            lemma_without(keys.pressed, keysym);
            if down && !keys.pressed.contains(keysym) {
                assert(keys.pressed.push(keysym)[keys.pressed.len() as int] == keysym);
            }
        },
        _ => {},
    }
}

/// The keys the session holds down after some messages.
pub open spec fn held_by(held: Set<u32>, messages: Seq<Message>) -> Set<u32>
    decreases messages.len(),
{
    if messages.len() == 0 {
        held
    } else {
        let before = held_by(held, messages.drop_last());
        match messages.last() {
            Message::KeyEvent { keysym, down } => if down {
                before.insert(keysym)
            } else {
                before.remove(keysym)
            },
            _ => before,
        }
    }
}

proof fn lemma_held_by_more(held: Set<u32>, messages: Seq<Message>, m: Message)
    ensures
        held_by(held, messages.push(m)) == match m {
            Message::KeyEvent { keysym, down } => if down {
                held_by(held, messages).insert(keysym)
            } else {
                held_by(held, messages).remove(keysym)
            },
            _ => held_by(held, messages),
        },
{
    assert(messages.push(m).drop_last() =~= messages);
}

/// Ctrl+Alt+Del leaves the session holding the keys it held before.
pub proof fn law_attention_leaves_the_keyboard_alone(pressed: Seq<u32>)
    requires
        !pressed.contains(ks::DELETE),
    ensures
        held_by(pressed.to_set(), attention(pressed)) == pressed.to_set(),
{
    let held = pressed.to_set();
    let e = Seq::<Message>::empty();
    let c = key_message(ks::CONTROL_L, true);
    let a = key_message(ks::ALT_L, true);
    let d = key_message(ks::DELETE, true);
    let du = key_message(ks::DELETE, false);
    let au = key_message(ks::ALT_L, false);
    let cu = key_message(ks::CONTROL_L, false);
    let control = !either_down(pressed, ks::CONTROL_L, ks::CONTROL_R);
    let alt = !either_down(pressed, ks::ALT_L, ks::ALT_R);
    let m1 = if control {
        e.push(c)
    } else {
        e
    };
    let m2 = if alt {
        m1.push(a)
    } else {
        m1
    };
    let m3 = m2.push(d).push(du);
    let m4 = if alt {
        m3.push(au)
    } else {
        m3
    };
    let m5 = if control {
        m4.push(cu)
    } else {
        m4
    };
    assert(attention(pressed) =~= m5);
    lemma_held_by_more(held, e, c);
    lemma_held_by_more(held, m1, a);
    lemma_held_by_more(held, m2, d);
    lemma_held_by_more(held, m2.push(d), du);
    lemma_held_by_more(held, m3, au);
    lemma_held_by_more(held, m4, cu);
    assert(held_by(held, m5) =~= held);
}

/// Letting go of every key leaves the session holding none of those that were
/// recorded as down.
pub proof fn law_release_all_leaves_nothing_down(pressed: Seq<u32>)
    ensures
        held_by(pressed.to_set(), releases(pressed)) == Set::<u32>::empty(),
{
    lemma_releases(pressed.to_set(), pressed);
    assert(held_by(pressed.to_set(), releases(pressed)) =~= Set::<u32>::empty());
}

proof fn lemma_releases(held: Set<u32>, pressed: Seq<u32>)
    ensures
        forall|k: u32|
            #[trigger] held_by(held, releases(pressed)).contains(k) <==> held.contains(k)
                && !pressed.contains(k),
    decreases pressed.len(),
{
    if pressed.len() > 0 {
        let head = pressed.drop_last();
        lemma_releases(held, head);
        assert(releases(pressed) =~= releases(head).push(key_message(pressed.last(), false)));
        lemma_held_by_more(held, releases(head), key_message(pressed.last(), false));
        assert forall|k: u32| pressed.contains(k) implies head.contains(k) || k
            == pressed.last() by {
            let i = choose|i: int| 0 <= i < pressed.len() && pressed[i] == k;
            if i < head.len() {
                assert(head[i] == k);
            }
        }
        assert forall|k: u32| head.contains(k) implies pressed.contains(k) by {
            let i = choose|i: int| 0 <= i < head.len() && head[i] == k;
            assert(pressed[i] == k);
        }
        assert(pressed[pressed.len() - 1] == pressed.last());
    }
}

// ---------------------------------------------------------------------------
// Laws of what is told
// ---------------------------------------------------------------------------

/// With Control and Alt held, Enter toggles the full screen and End asks for
/// attention; `B` pins the bar and `Q` disconnects, by the letter where the
/// layout writes letters and by the place of the key where it writes others; and
/// any other letter or digit is no accelerator.
pub proof fn law_accelerators_are_these(
    modifiers: Modifiers,
    s: String,
    c: char,
    physical: PhysicalKey,
    n: NamedKey,
)
    requires
        modifiers.control,
        modifiers.alt,
        s@.len() == 1 ==> s@ == seq![c],
    ensures
        accelerator_of(modifiers, Key::Named(NamedKey::Enter), physical) == Some(
            Accelerator::Fullscreen,
        ),
        accelerator_of(modifiers, Key::Named(NamedKey::End), physical) == Some(
            Accelerator::SecureAttention,
        ),
        s@.len() == 1 && (c == 'b' || c == 'B') ==> accelerator_of(modifiers, Key::Character(s), physical)
            == Some(Accelerator::Pin),
        s@.len() == 1 && (c == 'q' || c == 'Q') ==> accelerator_of(modifiers, Key::Character(s), physical)
            == Some(Accelerator::Disconnect),
        (s@.len() == 1 && c != 'b' && c != 'B' && c != 'q' && c != 'Q' && (0x30 <= c as u32 <= 0x39
            || 0x41 <= c as u32 <= 0x5a || 0x61 <= c as u32 <= 0x7a)) ==> accelerator_of(
            modifiers,
            Key::Character(s),
            physical,
        ) is None,
        s@.len() == 1 && c as u32 > 0x7f ==> accelerator_of(
            modifiers,
            Key::Character(s),
            physical,
        ) == if physical == PhysicalKey::KeyB {
            Some(Accelerator::Pin)
        } else if physical == PhysicalKey::KeyQ {
            Some(Accelerator::Disconnect)
        } else {
            None
        },
        n != NamedKey::Enter && n != NamedKey::End && physical != PhysicalKey::KeyB && physical
            != PhysicalKey::KeyQ ==> accelerator_of(modifiers, Key::Named(n), physical) is None,
{
    if s@.len() == 1 {
        assert(s@[0] == c);
        if c as u32 > 0x7f {
            assert(!alphanumeric(s@[0]));
        } else if alphanumeric(c) {
            assert(forall|i: int| 0 <= i < s@.len() ==> alphanumeric(#[trigger] s@[i]));
        }
    }
}

/// A key that is no accelerator reaches the session as it is: a press as a
/// press and a release as a release, under its own keysym, or that of the pad
/// for a character of the pad.
pub proof fn law_keys_reach_the_session(keys: Keys, modifiers: Modifiers, event: KeyEvent, k: u32)
    requires
        keymap::keysym_of(event.logical, event.location) == Some(k),
        event.down ==> accelerator_of(modifiers, event.logical, event.physical) is None,
        !event.down ==> !keys.swallowed.contains(k),
    ensures
        key_step(keys, modifiers, event).1 matches KeyOutcome::Send { keysym, down } && down
            == event.down && (event.location != KeyLocation::Numpad || event.logical is Named
            ==> keysym == k) && (event.location == KeyLocation::Numpad && (
        event.logical matches Key::Character(c) && c@.len() > 0 && (keymap::pad_keysym(
            c@[0],
        ) is Some)) ==> Some(keysym) == keymap::pad_keysym((event.logical->Character_0)@[0])),
        key_step(keys, modifiers, event).0.swallowed == keys.swallowed,
{
}

/// An accelerator stays with the window: what its key would be is not told, and
/// its release is not either.
pub proof fn law_accelerator_is_kept(keys: Keys, modifiers: Modifiers, event: KeyEvent, k: u32)
    requires
        event.down,
        keymap::keysym_of(event.logical, event.location) == Some(k),
        accelerator_of(modifiers, event.logical, event.physical) is Some,
    ensures
        key_step(keys, modifiers, event).1 matches KeyOutcome::Bar(a) && Some(a) == accelerator_of(
            modifiers,
            event.logical,
            event.physical,
        ),
        key_step(keys, modifiers, event).0.pressed == keys.pressed,
        key_step(keys, modifiers, event).0.swallowed == keys.swallowed.push(k),
{
}

/// The buttons of the pointer as the session counts them, each with a bit of its
/// own; a button that is pressed has its bit set and one that is let go has not.
pub proof fn law_buttons_have_their_numbers(b: u16)
    ensures
        codes_of(MouseButton::Left) == Some((1u8, 1u8)),
        codes_of(MouseButton::Middle) == Some((2u8, 2u8)),
        codes_of(MouseButton::Right) == Some((3u8, 4u8)),
        codes_of(MouseButton::Back) == Some((8u8, 8u8)),
        codes_of(MouseButton::Forward) == Some((9u8, 16u8)),
        codes_of(MouseButton::Other(b)) is None,
{
}

/// Asking for attention presses what is missing of Control and Alt, then Delete,
/// and lets go in the opposite order: nothing else is told.
pub proof fn law_attention_is_control_alt_delete(pressed: Seq<u32>)
    ensures
        ({
            let control = pressed.contains(0xffe3u32) || pressed.contains(0xffe4u32);
            let alt = pressed.contains(0xffe9u32) || pressed.contains(0xffeau32);
            let press = |k: u32| Message::KeyEvent { keysym: k, down: true };
            let release = |k: u32| Message::KeyEvent { keysym: k, down: false };
            &&& control && alt ==> attention(pressed) == seq![press(0xffff), release(0xffff)]
            &&& control && !alt ==> attention(pressed) == seq![
                press(0xffe9),
                press(0xffff),
                release(0xffff),
                release(0xffe9),
            ]
            &&& !control && alt ==> attention(pressed) == seq![
                press(0xffe3),
                press(0xffff),
                release(0xffff),
                release(0xffe3),
            ]
            &&& !control && !alt ==> attention(pressed) == seq![
                press(0xffe3),
                press(0xffe9),
                press(0xffff),
                release(0xffff),
                release(0xffe9),
                release(0xffe3),
            ]
        }),
{
    let control = pressed.contains(0xffe3u32) || pressed.contains(0xffe4u32);
    let alt = pressed.contains(0xffe9u32) || pressed.contains(0xffeau32);
    let press = |k: u32| Message::KeyEvent { keysym: k, down: true };
    let release = |k: u32| Message::KeyEvent { keysym: k, down: false };
    let a = attention(pressed);
    let s = synthesised(pressed);
    if control && alt {
        assert(s =~= Seq::<u32>::empty());
        assert(a =~= seq![press(0xffff), release(0xffff)]);
    } else if control {
        assert(s =~= seq![0xffe9u32]);
        assert(a =~= seq![press(0xffe9), press(0xffff), release(0xffff), release(0xffe9)]);
    } else if alt {
        assert(s =~= seq![0xffe3u32]);
        assert(a =~= seq![press(0xffe3), press(0xffff), release(0xffff), release(0xffe3)]);
    } else {
        assert(s =~= seq![0xffe3u32, 0xffe9u32]);
        assert(a =~= seq![
            press(0xffe3),
            press(0xffe9),
            press(0xffff),
            release(0xffff),
            release(0xffe9),
            release(0xffe3),
        ]);
    }
}

/// Letting go of everything tells one release for each key that is down, in the
/// order they went down, and nothing else.
pub proof fn law_release_of_every_key_is_told(pressed: Seq<u32>, i: int)
    requires
        0 <= i < pressed.len(),
    ensures
        releases(pressed).len() == pressed.len(),
        releases(pressed)[i] == (Message::KeyEvent { keysym: pressed[i], down: false }),
{
}

} // verus!
