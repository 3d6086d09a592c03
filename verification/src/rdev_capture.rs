//! Capture on macOS and Windows from a global input hook: turning each
//! hooked key or button into a routed event, and tracking the modifiers.
use vstd::prelude::*;
use crate::keymap::{Key, key_hid, rdev_to_hid};
use crate::proto::{Modifiers, MouseButton};
use crate::router::RouteEvent;

verus! {

/// The global-hook capture backend.
pub struct RdevCapture;

/// The global-hook capture backend.
pub fn backend() -> (r: RdevCapture) {
    RdevCapture
}

/// A mouse button as the hook reports it.
#[derive(Debug, Clone, Copy, PartialEq, Eq, Structural)]
pub enum Button {
    Left,
    Right,
    Middle,
    Unknown(u8),
}

/// The wire button of a hooked button: extra buttons 4 and 5 are back and forward.
pub open spec fn button_spec(b: Button) -> MouseButton {
    match b {
        Button::Left => MouseButton::Left,
        Button::Right => MouseButton::Right,
        Button::Middle => MouseButton::Middle,
        Button::Unknown(n) => if n == 4 {
            MouseButton::Back
        } else if n == 5 {
            MouseButton::Forward
        } else {
            MouseButton::Other(n)
        },
    }
}

pub fn rdev_button_to_proto(b: Button) -> (r: MouseButton)
    ensures
        r == button_spec(b),
{
    match b {
        Button::Left => MouseButton::Left,
        Button::Right => MouseButton::Right,
        Button::Middle => MouseButton::Middle,
        Button::Unknown(4) => MouseButton::Back,
        Button::Unknown(5) => MouseButton::Forward,
        Button::Unknown(n) => MouseButton::Other(n),
    }
}

/// The modifiers after `key` went down (`pressed`) or up: either shift key
/// sets shift, either control key ctrl, Alt or AltGr alt, either meta key
/// meta; other keys change nothing.
pub open spec fn modifiers_after(m: Modifiers, key: Key, pressed: bool) -> Modifiers {
    match key {
        Key::ShiftLeft | Key::ShiftRight => Modifiers { shift: pressed, ..m },
        Key::ControlLeft | Key::ControlRight => Modifiers { ctrl: pressed, ..m },
        Key::Alt | Key::AltGr => Modifiers { alt: pressed, ..m },
        Key::MetaLeft | Key::MetaRight => Modifiers { meta: pressed, ..m },
        _ => m,
    }
}

pub fn update_modifiers(m: &mut Modifiers, key: Key, pressed: bool)
    ensures
        *final(m) == modifiers_after(*old(m), key, pressed),
{
    match key {
        Key::ShiftLeft | Key::ShiftRight => m.shift = pressed,
        Key::ControlLeft | Key::ControlRight => m.ctrl = pressed,
        Key::Alt | Key::AltGr => m.alt = pressed,
        Key::MetaLeft | Key::MetaRight => m.meta = pressed,
        _ => {},
    }
}

/// A hooked key. A press updates the modifiers first, so the event carries
/// the modifier it sets; a release reports the modifiers as they were and
/// clears afterwards. Keys without a HID usage produce no event.
pub fn key_event(m: &mut Modifiers, key: Key, pressed: bool) -> (r: Option<RouteEvent>)
    ensures
        *final(m) == modifiers_after(*old(m), key, pressed),
        r == (match key_hid(key) {
            Some(hid) => Some(
                RouteEvent::Key {
                    keycode: hid,
                    pressed,
                    modifiers: if pressed { modifiers_after(*old(m), key, pressed) } else { *old(m) },
                },
            ),
            None => None,
        }),
{
    if pressed {
        update_modifiers(m, key, true);
        match rdev_to_hid(key) {
            Some(hid) => Some(RouteEvent::Key { keycode: hid, pressed: true, modifiers: *m }),
            None => None,
        }
    } else {
        let ev = match rdev_to_hid(key) {
            Some(hid) => Some(RouteEvent::Key { keycode: hid, pressed: false, modifiers: *m }),
            None => None,
        };
        update_modifiers(m, key, false);
        ev
    }
}

/// A hooked button press or release.
pub fn button_event(b: Button, pressed: bool) -> (r: RouteEvent)
    ensures
        r == (RouteEvent::MouseButton { button: button_spec(b), pressed }),
{
    RouteEvent::MouseButton { button: rdev_button_to_proto(b), pressed }
}

/// Pressing and then releasing the same key leaves the modifiers as they
/// were, when the key's modifier was not held before.
pub proof fn lemma_press_release_restores_modifiers(m: Modifiers, key: Key)
    requires
        modifiers_after(m, key, false) == m,
    ensures
        modifiers_after(modifiers_after(m, key, true), key, false) == m,
{
}

} // verus!
