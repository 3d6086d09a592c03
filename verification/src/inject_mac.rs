//! Injection on macOS and Windows: which path a key takes, the modifier
//! flags stamped on synthesized events, multi-click counting, scroll units,
//! and what the Quartz injector releases when the host takes control back.
use vstd::prelude::*;
use crate::keymap::{hid_key, hid_to_cg_keycode, hid_to_rdev, lemma_hid_to_cg_at, Key, HID_TO_CG, table_get};
use crate::keymap_mac::{evdev_to_mac, EVDEV_TO_MAC};
use crate::proto::{Modifiers, MouseButton};
use crate::rdev_capture::Button;

verus! {

/// `CGEventFlags` bits of the four standard modifiers.
pub const CG_FLAG_SHIFT: u64 = 0x00020000;

pub const CG_FLAG_CONTROL: u64 = 0x00040000;

pub const CG_FLAG_ALTERNATE: u64 = 0x00080000;

pub const CG_FLAG_COMMAND: u64 = 0x00100000;

/// The flag mask of a modifier set: shift, control, option and command bits.
pub open spec fn cg_flags_spec(m: Modifiers) -> u64 {
    (if m.shift { CG_FLAG_SHIFT } else { 0u64 }) | (if m.ctrl { CG_FLAG_CONTROL } else { 0u64 }) | (if m.alt {
        CG_FLAG_ALTERNATE
    } else {
        0u64
    }) | (if m.meta { CG_FLAG_COMMAND } else { 0u64 })
}

pub fn modifiers_to_cg_flags(m: Modifiers) -> (r: u64)
    ensures
        r == cg_flags_spec(m),
{
    let s: u64 = if m.shift { CG_FLAG_SHIFT } else { 0 };
    let c: u64 = if m.ctrl { CG_FLAG_CONTROL } else { 0 };
    let a: u64 = if m.alt { CG_FLAG_ALTERNATE } else { 0 };
    let k: u64 = if m.meta { CG_FLAG_COMMAND } else { 0 };
    s | c | a | k
}

/// Each modifier sets exactly its own bit.
pub proof fn lemma_cg_flag_bits(m: Modifiers)
    ensures
        (cg_flags_spec(m) & CG_FLAG_SHIFT != 0) == m.shift,
        (cg_flags_spec(m) & CG_FLAG_CONTROL != 0) == m.ctrl,
        (cg_flags_spec(m) & CG_FLAG_ALTERNATE != 0) == m.alt,
        (cg_flags_spec(m) & CG_FLAG_COMMAND != 0) == m.meta,
{
    let s: u64 = if m.shift { CG_FLAG_SHIFT } else { 0 };
    let c: u64 = if m.ctrl { CG_FLAG_CONTROL } else { 0 };
    let a: u64 = if m.alt { CG_FLAG_ALTERNATE } else { 0 };
    let k: u64 = if m.meta { CG_FLAG_COMMAND } else { 0 };
    assert(((s | c | a | k) & 0x00020000u64 != 0) == (s == 0x00020000u64)) by (bit_vector)
        requires
            s == 0 || s == 0x00020000u64,
            c == 0 || c == 0x00040000u64,
            a == 0 || a == 0x00080000u64,
            k == 0 || k == 0x00100000u64,
    ;
    assert(((s | c | a | k) & 0x00040000u64 != 0) == (c == 0x00040000u64)) by (bit_vector)
        requires
            s == 0 || s == 0x00020000u64,
            c == 0 || c == 0x00040000u64,
            a == 0 || a == 0x00080000u64,
            k == 0 || k == 0x00100000u64,
    ;
    assert(((s | c | a | k) & 0x00080000u64 != 0) == (a == 0x00080000u64)) by (bit_vector)
        requires
            s == 0 || s == 0x00020000u64,
            c == 0 || c == 0x00040000u64,
            a == 0 || a == 0x00080000u64,
            k == 0 || k == 0x00100000u64,
    ;
    assert(((s | c | a | k) & 0x00100000u64 != 0) == (k == 0x00100000u64)) by (bit_vector)
        requires
            s == 0 || s == 0x00020000u64,
            c == 0 || c == 0x00040000u64,
            a == 0 || a == 0x00080000u64,
            k == 0 || k == 0x00100000u64,
    ;
}

/// The macOS virtual keycodes of modifier keys: right command, command,
/// shift, caps lock, option, control, right shift, right option, right
/// control.
pub open spec fn is_modifier_cg_spec(k: u16) -> bool {
    0x36 <= k <= 0x3E
}

/// Whether a macOS virtual keycode is a modifier, which must be posted as a
/// flags-changed event rather than a key press.
pub fn is_modifier_cg_keycode(k: u16) -> (r: bool)
    ensures
        r == is_modifier_cg_spec(k),
{
    k == 0x36 || k == 0x37 || k == 0x38 || k == 0x39 || k == 0x3A || k == 0x3B || k == 0x3C || k == 0x3D || k == 0x3E
}

/// Every HID modifier usage (left and right control, shift, option and
/// command) has a macOS keycode, and that keycode counts as a modifier, so
/// it is posted as a flags-changed event.
pub proof fn lemma_modifier_usages_are_modifier_keycodes(hid: u16)
    requires
        0xE0 <= hid <= 0xE7,
    ensures
        table_get(HID_TO_CG@, hid) matches Some(c) && is_modifier_cg_spec(c),
{
    if hid == 224 {
        lemma_hid_to_cg_at(90);
    } else if hid == 225 {
        lemma_hid_to_cg_at(91);
    } else if hid == 226 {
        lemma_hid_to_cg_at(92);
    } else if hid == 227 {
        lemma_hid_to_cg_at(93);
    } else if hid == 228 {
        lemma_hid_to_cg_at(94);
    } else if hid == 229 {
        lemma_hid_to_cg_at(95);
    } else if hid == 230 {
        lemma_hid_to_cg_at(96);
    } else if hid == 231 {
        lemma_hid_to_cg_at(97);
    }
}

/// How a key from the server is injected.
#[derive(Debug, Clone, Copy, PartialEq, Eq, Structural)]
pub enum KeyRoute {
    /// Post a Quartz keyboard event with this virtual keycode.
    Quartz(u16),
    /// Fall back to the hook library's key.
    Hook(Key),
    /// No mapping: skip the key.
    Skip,
}

/// On macOS a key takes the Quartz path when its usage has a virtual
/// keycode, and the hook library otherwise; elsewhere it always takes the
/// hook library. Usages neither knows are skipped.
pub fn key_route(hid: u32, on_macos: bool) -> (r: KeyRoute)
    ensures
        r == (if on_macos && hid <= 0xFFFF && table_get(HID_TO_CG@, hid as u16) is Some {
            KeyRoute::Quartz(table_get(HID_TO_CG@, hid as u16)->0)
        } else {
            match hid_key(hid) {
                Some(k) => KeyRoute::Hook(k),
                None => KeyRoute::Skip,
            }
        }),
{
    if on_macos {
        if let Some(cg) = hid_to_cg_keycode(hid) {
            return KeyRoute::Quartz(cg);
        }
    }
    match hid_to_rdev(hid) {
        Some(k) => KeyRoute::Hook(k),
        None => KeyRoute::Skip,
    }
}

/// The hook library's button for a wire button: back and forward are extra
/// buttons 4 and 5.
pub fn map_button(b: MouseButton) -> (r: Button)
    ensures
        r == (match b {
            MouseButton::Left => Button::Left,
            MouseButton::Right => Button::Right,
            MouseButton::Middle => Button::Middle,
            MouseButton::Back => Button::Unknown(4),
            MouseButton::Forward => Button::Unknown(5),
            MouseButton::Other(n) => Button::Unknown(n),
        }),
{
    match b {
        MouseButton::Left => Button::Left,
        MouseButton::Right => Button::Right,
        MouseButton::Middle => Button::Middle,
        MouseButton::Back => Button::Unknown(4),
        MouseButton::Forward => Button::Unknown(5),
        MouseButton::Other(n) => Button::Unknown(n),
    }
}

/// The click count of a new press: one more than the last, up to three,
/// when it repeats the previous press's button within the double-click
/// window; one otherwise.
pub fn next_click_count(previous: Option<MouseButton>, within_window: bool, button: MouseButton, count: i64) -> (r: i64)
    requires
        count <= 3,
    ensures
        (previous == Some(button) && within_window) ==> r == (if count + 1 < 3 { count + 1 } else { 3 }),
        !(previous == Some(button) && within_window) ==> r == 1,
{
    let same = match previous {
        Some(p) => p == button,
        None => false,
    };
    if same && within_window {
        if count + 1 < 3 {
            count + 1
        } else {
            3
        }
    } else {
        1
    }
}

/// The scroll a wheel notch becomes on macOS: three lines per notch, or
/// nothing when both axes are zero. Returns (vertical, horizontal).
pub fn scroll_lines(dx: i16, dy: i16) -> (r: Option<(i32, i32)>)
    ensures
        dx == 0 && dy == 0 ==> r is None,
        !(dx == 0 && dy == 0) ==> (r matches Some((v, h)) && v == dy * 3 && h == dx * 3),
{
    let vy = dy as i32 * 3;
    let vx = dx as i32 * 3;
    if vx == 0 && vy == 0 {
        return None;
    }
    Some((vy, vx))
}

/// The modifier keys, as evdev codes, the Quartz injector releases when the
/// host takes control back: both controls, shifts, alts and metas.
pub open spec fn leave_evdev() -> Seq<u16> {
    seq![29u16, 42u16, 54u16, 56u16, 97u16, 100u16, 125u16, 126u16]
}

/// The macOS keys released when the host takes control back, in the order
/// of `leave_evdev`, each one that has a macOS keycode.
pub open spec fn leave_keys_spec(k: int) -> Seq<u16>
    decreases k,
{
    if k <= 0 {
        Seq::empty()
    } else {
        let rest = leave_keys_spec(k - 1);
        match table_get(EVDEV_TO_MAC@, leave_evdev()[k - 1]) {
            Some(m) => rest.push(m),
            None => rest,
        }
    }
}

pub fn leave_keys() -> (r: Vec<u16>)
    ensures
        r@ == leave_keys_spec(8),
{
    let codes: [u16; 8] = [29, 42, 54, 56, 97, 100, 125, 126];
    assert(codes@ == leave_evdev());
    let mut r: Vec<u16> = Vec::new();
    let mut i: usize = 0;
    while i < 8
        invariant
            0 <= i <= 8,
            codes@ == leave_evdev(),
            r@ == leave_keys_spec(i as int),
        decreases 8 - i,
    {
        if let Some(m) = evdev_to_mac(codes[i]) {
            r.push(m);
        }
        i = i + 1;
    }
    r
}

/// What a button code from the host does on macOS.
#[derive(Debug, Clone, Copy, PartialEq, Eq, Structural)]
pub enum QuartzButton {
    Left,
    Right,
    Center,
}

/// `BTN_LEFT`, `BTN_RIGHT` and `BTN_MIDDLE` map to the three Quartz buttons;
/// side buttons have no portable meaning and are dropped.
pub fn quartz_button(code: u16) -> (r: Option<QuartzButton>)
    ensures
        r == (if code == 272 {
            Some(QuartzButton::Left)
        } else if code == 273 {
            Some(QuartzButton::Right)
        } else if code == 274 {
            Some(QuartzButton::Center)
        } else {
            None
        }),
{
    if code == 272 {
        Some(QuartzButton::Left)
    } else if code == 273 {
        Some(QuartzButton::Right)
    } else if code == 274 {
        Some(QuartzButton::Center)
    } else {
        None
    }
}

} // verus!
