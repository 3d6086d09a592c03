//! USB HID keyboard usage page (0x07) <-> platform keycode conversions.
//!
//! All platforms send HID usage codes on the wire. Each backend converts
//! to or from its native representation: Linux evdev key codes, the key
//! names of the macOS/Windows input layer, and macOS virtual keycodes.
use vstd::prelude::*;

verus! {

// ---- Linux evdev <-> HID -----------------------------------------------

/// HID keyboard usage -> Linux evdev key code; index = HID usage, 0 = no mapping.
/// From the kernel's hid_keyboard[] table (drivers/hid/hid-input.c).
pub const HID_TO_EVDEV: [u16; 256] = [
    0, 0, 0, 0, 30, 48, 46, 32, 18, 33, 34, 35, 23, 36, 37, 38, // 0x00
    50, 49, 24, 25, 16, 19, 31, 20, 22, 47, 17, 45, 21, 44, 2, 3, // 0x10
    4, 5, 6, 7, 8, 9, 10, 11, 28, 1, 14, 15, 57, 12, 13, 26, // 0x20
    27, 43, 43, 39, 40, 41, 51, 52, 53, 58, 59, 60, 61, 62, 63, 64, // 0x30
    65, 66, 67, 68, 87, 88, 99, 70, 119, 110, 102, 104, 111, 107, 109, 106, // 0x40
    105, 108, 103, 69, 98, 55, 74, 78, 96, 79, 80, 81, 75, 76, 77, 71, // 0x50
    72, 73, 82, 83, 86, 127, 116, 117, 183, 184, 185, 186, 187, 188, 189, 190, // 0x60
    191, 192, 193, 194, 134, 138, 130, 132, 128, 129, 131, 137, 133, 135, 136, 113, // 0x70
    115, 114, 0, 0, 0, 121, 0, 89, 93, 124, 92, 94, 95, 0, 0, 0, // 0x80
    122, 123, 90, 91, 85, 0, 0, 0, 0, 0, 0, 0, 0, 0, 0, 0, // 0x90
    0, 0, 0, 0, 0, 0, 0, 0, 0, 0, 0, 0, 0, 0, 0, 0, // 0xA0
    0, 0, 0, 0, 0, 0, 0, 0, 0, 0, 0, 0, 0, 0, 0, 0, // 0xB0
    0, 0, 0, 0, 0, 0, 0, 0, 0, 0, 0, 0, 0, 0, 0, 0, // 0xC0
    0, 0, 0, 0, 0, 0, 0, 0, 0, 0, 0, 0, 0, 0, 0, 0, // 0xD0
    29, 42, 56, 125, 97, 54, 100, 126, 0, 0, 0, 0, 0, 0, 0, 0, // 0xE0
    0, 0, 0, 0, 0, 0, 0, 0, 0, 0, 0, 0, 0, 0, 0, 0, // 0xF0
];

/// The evdev code of a HID usage, if it has one.
pub open spec fn hid_evdev(hid: int) -> Option<u32> {
    if 0 <= hid < 256 && HID_TO_EVDEV@[hid] != 0 {
        Some(HID_TO_EVDEV@[hid] as u32)
    } else {
        None
    }
}

pub fn hid_to_evdev(hid: u32) -> (r: Option<u32>)
    ensures
        r == hid_evdev(hid as int),
{
    if hid >= 256 {
        return None;
    }
    let v = HID_TO_EVDEV[hid as usize];
    if v == 0 {
        None
    } else {
        Some(v as u32)
    }
}

/// The lowest HID usage from `i` on whose evdev code is `evdev`.
pub open spec fn first_hid_from(evdev: u32, i: int) -> Option<u32>
    decreases 256 - i,
{
    if i < 0 || i >= 256 {
        None
    } else if hid_evdev(i) == Some(evdev) {
        Some(i as u32)
    } else {
        first_hid_from(evdev, i + 1)
    }
}

/// The lowest HID usage whose evdev code is `evdev`, if any.
pub open spec fn evdev_hid(evdev: u32) -> Option<u32> {
    first_hid_from(evdev, 0)
}

/// The lowest HID usage whose evdev code is `evdev`, if any.
pub fn evdev_to_hid(evdev: u32) -> (r: Option<u32>)
    ensures
        r == evdev_hid(evdev),
{
    let mut i: usize = 0;
    while i < 256
        invariant
            0 <= i <= 256,
            evdev_hid(evdev) == first_hid_from(evdev, i as int),
        decreases 256 - i,
    {
        let e = HID_TO_EVDEV[i];
        if e != 0 && e as u32 == evdev {
            return Some(i as u32);
        }
        i = i + 1;
    }
    None
}

proof fn lemma_first_hid_from(evdev: u32, i: int)
    requires
        0 <= i <= 256,
    ensures
        first_hid_from(evdev, i) matches Some(h) ==> i <= h < 256 && hid_evdev(h as int) == Some(evdev),
        first_hid_from(evdev, i) is None ==> forall|j: int| i <= j < 256 ==> hid_evdev(j) != Some(evdev),
        forall|j: int| i <= j < 256 && hid_evdev(j) == Some(evdev) ==> (first_hid_from(evdev, i) matches Some(h) && h <= j),
    decreases 256 - i,
{
    if i < 256 {
        lemma_first_hid_from(evdev, i + 1);
    }
}

/// Converting an evdev code back to HID gives a usage that converts to the
/// same code again; and every code that some usage produces converts back.
pub proof fn lemma_evdev_round_trip(hid: int, evdev: u32)
    ensures
        evdev_hid(evdev) matches Some(h) ==> hid_evdev(h as int) == Some(evdev),
        hid_evdev(hid) == Some(evdev) ==> (evdev_hid(evdev) matches Some(h) && h <= hid),
{
    lemma_first_hid_from(evdev, 0);
}

// ---- macOS / Windows key names <-> HID --------------------------------

/// Key names of the macOS/Windows input layer (its `Key` enum).
#[derive(Debug, Clone, Copy, PartialEq, Eq, Structural)]
pub enum Key {
    KeyA, KeyB, KeyC, KeyD, KeyE, KeyF, KeyG, KeyH,
    KeyI, KeyJ, KeyK, KeyL, KeyM, KeyN, KeyO, KeyP,
    KeyQ, KeyR, KeyS, KeyT, KeyU, KeyV, KeyW, KeyX,
    KeyY, KeyZ, Num1, Num2, Num3, Num4, Num5, Num6,
    Num7, Num8, Num9, Num0, Return, Escape, Backspace, Tab,
    Space, Minus, Equal, LeftBracket, RightBracket, BackSlash, SemiColon, Quote,
    BackQuote, Comma, Dot, Slash, CapsLock, F1, F2, F3,
    F4, F5, F6, F7, F8, F9, F10, F11,
    F12, PrintScreen, ScrollLock, Pause, Insert, Home, PageUp, Delete,
    End, PageDown, RightArrow, LeftArrow, DownArrow, UpArrow, NumLock, KpDivide,
    KpMultiply, KpMinus, KpPlus, KpReturn, Kp1, Kp2, Kp3, Kp4,
    Kp5, Kp6, Kp7, Kp8, Kp9, Kp0, KpDelete, IntlBackslash,
    ControlLeft, ShiftLeft, Alt, MetaLeft, ControlRight, ShiftRight, AltGr, MetaRight,
    Function,
    Unknown(u32),
}

/// `(key, HID usage)` pairs, sorted by usage. `BackSlash` appears twice: the
/// non-US `#`/`~` usage (0x32) has no key of its own and falls back to it.
pub const KEY_HID: [(Key, u32); 105] = [
    (Key::KeyA, 0x04), (Key::KeyB, 0x05), (Key::KeyC, 0x06), (Key::KeyD, 0x07),
    (Key::KeyE, 0x08), (Key::KeyF, 0x09), (Key::KeyG, 0x0A), (Key::KeyH, 0x0B),
    (Key::KeyI, 0x0C), (Key::KeyJ, 0x0D), (Key::KeyK, 0x0E), (Key::KeyL, 0x0F),
    (Key::KeyM, 0x10), (Key::KeyN, 0x11), (Key::KeyO, 0x12), (Key::KeyP, 0x13),
    (Key::KeyQ, 0x14), (Key::KeyR, 0x15), (Key::KeyS, 0x16), (Key::KeyT, 0x17),
    (Key::KeyU, 0x18), (Key::KeyV, 0x19), (Key::KeyW, 0x1A), (Key::KeyX, 0x1B),
    (Key::KeyY, 0x1C), (Key::KeyZ, 0x1D), (Key::Num1, 0x1E), (Key::Num2, 0x1F),
    (Key::Num3, 0x20), (Key::Num4, 0x21), (Key::Num5, 0x22), (Key::Num6, 0x23),
    (Key::Num7, 0x24), (Key::Num8, 0x25), (Key::Num9, 0x26), (Key::Num0, 0x27),
    (Key::Return, 0x28), (Key::Escape, 0x29), (Key::Backspace, 0x2A), (Key::Tab, 0x2B),
    (Key::Space, 0x2C), (Key::Minus, 0x2D), (Key::Equal, 0x2E), (Key::LeftBracket, 0x2F),
    (Key::RightBracket, 0x30), (Key::BackSlash, 0x31), (Key::BackSlash, 0x32), (Key::SemiColon, 0x33),
    (Key::Quote, 0x34), (Key::BackQuote, 0x35), (Key::Comma, 0x36), (Key::Dot, 0x37),
    (Key::Slash, 0x38), (Key::CapsLock, 0x39), (Key::F1, 0x3A), (Key::F2, 0x3B),
    (Key::F3, 0x3C), (Key::F4, 0x3D), (Key::F5, 0x3E), (Key::F6, 0x3F),
    (Key::F7, 0x40), (Key::F8, 0x41), (Key::F9, 0x42), (Key::F10, 0x43),
    (Key::F11, 0x44), (Key::F12, 0x45), (Key::PrintScreen, 0x46), (Key::ScrollLock, 0x47),
    (Key::Pause, 0x48), (Key::Insert, 0x49), (Key::Home, 0x4A), (Key::PageUp, 0x4B),
    (Key::Delete, 0x4C), (Key::End, 0x4D), (Key::PageDown, 0x4E), (Key::RightArrow, 0x4F),
    (Key::LeftArrow, 0x50), (Key::DownArrow, 0x51), (Key::UpArrow, 0x52), (Key::NumLock, 0x53),
    (Key::KpDivide, 0x54), (Key::KpMultiply, 0x55), (Key::KpMinus, 0x56), (Key::KpPlus, 0x57),
    (Key::KpReturn, 0x58), (Key::Kp1, 0x59), (Key::Kp2, 0x5A), (Key::Kp3, 0x5B),
    (Key::Kp4, 0x5C), (Key::Kp5, 0x5D), (Key::Kp6, 0x5E), (Key::Kp7, 0x5F),
    (Key::Kp8, 0x60), (Key::Kp9, 0x61), (Key::Kp0, 0x62), (Key::KpDelete, 0x63),
    (Key::IntlBackslash, 0x64), (Key::ControlLeft, 0xE0), (Key::ShiftLeft, 0xE1), (Key::Alt, 0xE2),
    (Key::MetaLeft, 0xE3), (Key::ControlRight, 0xE4), (Key::ShiftRight, 0xE5), (Key::AltGr, 0xE6),
    (Key::MetaRight, 0xE7),
];

/// The usage of the first entry from `i` on whose key is `k`.
pub open spec fn key_hid_from(t: Seq<(Key, u32)>, k: Key, i: int) -> Option<u32>
    decreases t.len() - i,
{
    if i < 0 || i >= t.len() {
        None
    } else if t[i].0 == k {
        Some(t[i].1)
    } else {
        key_hid_from(t, k, i + 1)
    }
}

/// The key of the first entry from `i` on whose usage is `hid`.
pub open spec fn hid_key_from(t: Seq<(Key, u32)>, hid: u32, i: int) -> Option<Key>
    decreases t.len() - i,
{
    if i < 0 || i >= t.len() {
        None
    } else if t[i].1 == hid {
        Some(t[i].0)
    } else {
        hid_key_from(t, hid, i + 1)
    }
}

/// The HID usage of a key: the first table entry naming it.
pub open spec fn key_hid(k: Key) -> Option<u32> {
    key_hid_from(KEY_HID@, k, 0)
}

/// The key of a HID usage: the table entry with that usage.
pub open spec fn hid_key(hid: u32) -> Option<Key> {
    hid_key_from(KEY_HID@, hid, 0)
}

/// Key -> HID usage. `Function` and `Unknown` have none.
pub fn rdev_to_hid(key: Key) -> (r: Option<u32>)
    ensures
        r == key_hid(key),
{
    let mut i: usize = 0;
    while i < KEY_HID.len()
        invariant
            0 <= i <= KEY_HID@.len(),
            key_hid(key) == key_hid_from(KEY_HID@, key, i as int),
        decreases KEY_HID@.len() - i,
    {
        let (k, h) = KEY_HID[i];
        if k == key {
            return Some(h);
        }
        i = i + 1;
    }
    None
}

/// HID usage -> key, or `None` for usages with no key.
pub fn hid_to_rdev(hid: u32) -> (r: Option<Key>)
    ensures
        r == hid_key(hid),
{
    let mut i: usize = 0;
    while i < KEY_HID.len()
        invariant
            0 <= i <= KEY_HID@.len(),
            hid_key(hid) == hid_key_from(KEY_HID@, hid, i as int),
        decreases KEY_HID@.len() - i,
    {
        let (k, h) = KEY_HID[i];
        if h == hid {
            return Some(k);
        }
        i = i + 1;
    }
    None
}

/// Usages strictly increase along the table from `i` on.
pub open spec fn hid_sorted_from(t: Seq<(Key, u32)>, i: int) -> bool
    decreases t.len() - i,
{
    if i < 0 || i + 1 >= t.len() {
        true
    } else {
        t[i].1 < t[i + 1].1 && hid_sorted_from(t, i + 1)
    }
}

proof fn lemma_hid_sorted_from(t: Seq<(Key, u32)>, i: int)
    requires
        0 <= i,
        hid_sorted_from(t, i),
    ensures
        forall|a: int, b: int| i <= a < b < t.len() ==> t[a].1 < t[b].1,
    decreases t.len() - i,
{
    if i + 1 < t.len() {
        lemma_hid_sorted_from(t, i + 1);
        assert forall|a: int, b: int| i <= a < b < t.len() implies t[a].1 < t[b].1 by {
            if a > i {
            } else if b > i + 1 {
                assert(t[i + 1].1 < t[b].1);
            }
        }
    }
}

proof fn lemma_key_hid_from(t: Seq<(Key, u32)>, k: Key, i: int)
    requires
        0 <= i <= t.len(),
    ensures
        key_hid_from(t, k, i) matches Some(h) ==> exists|j: int| i <= j < t.len() && t[j] == (k, h),
    decreases t.len() - i,
{
    if i < t.len() {
        lemma_key_hid_from(t, k, i + 1);
    }
}

proof fn lemma_hid_key_at(t: Seq<(Key, u32)>, j: int, i: int)
    requires
        0 <= i <= j < t.len(),
        forall|a: int, b: int| 0 <= a < b < t.len() ==> t[a].1 < t[b].1,
    ensures
        hid_key_from(t, t[j].1, i) == Some(t[j].0),
    decreases j - i,
{
    if i < j {
        assert(t[i].1 < t[j].1);
        lemma_hid_key_at(t, j, i + 1);
    }
}

/// The key table is sorted by usage.
#[verifier::rlimit(100)]
proof fn lemma_key_hid_sorted()
    ensures
        forall|a: int, b: int| 0 <= a < b < KEY_HID@.len() ==> KEY_HID@[a].1 < KEY_HID@[b].1,
{
    reveal_with_fuel(hid_sorted_from, 11);
    assert(hid_sorted_from(KEY_HID@, 100));
    assert(hid_sorted_from(KEY_HID@, 90));
    assert(hid_sorted_from(KEY_HID@, 80));
    assert(hid_sorted_from(KEY_HID@, 70));
    assert(hid_sorted_from(KEY_HID@, 60));
    assert(hid_sorted_from(KEY_HID@, 50));
    assert(hid_sorted_from(KEY_HID@, 40));
    assert(hid_sorted_from(KEY_HID@, 30));
    assert(hid_sorted_from(KEY_HID@, 20));
    assert(hid_sorted_from(KEY_HID@, 10));
    assert(hid_sorted_from(KEY_HID@, 0));
    lemma_hid_sorted_from(KEY_HID@, 0);
}

proof fn lemma_table_round_trip(t: Seq<(Key, u32)>, k: Key)
    requires
        forall|a: int, b: int| 0 <= a < b < t.len() ==> t[a].1 < t[b].1,
    ensures
        key_hid_from(t, k, 0) matches Some(h) ==> hid_key_from(t, h, 0) == Some(k),
{
    lemma_key_hid_from(t, k, 0);
    if let Some(h) = key_hid_from(t, k, 0) {
        let j = choose|j: int| 0 <= j < t.len() && t[j] == (k, h);
        lemma_hid_key_at(t, j, 0);
    }
}

/// Converting a key to HID and back gives the same key.
pub proof fn lemma_key_round_trip(k: Key)
    ensures
        key_hid(k) matches Some(h) ==> hid_key(h) == Some(k),
{
    lemma_key_hid_sorted();
    lemma_table_round_trip(KEY_HID@, k);
}

/// The usage a table entry's key converts back to: its own, except that the
/// non-US `#`/`~` usage (0x32), which shares `BackSlash`, comes back as 0x31.
pub open spec fn usage_back(hid: u32) -> u32 {
    if hid == 0x32 {
        0x31
    } else {
        hid
    }
}

proof fn lemma_entries_convert_back_0_15()
    ensures
        forall|i: int| 0 <= i < 15 ==> key_hid(#[trigger] KEY_HID@[i].0) == Some(usage_back(KEY_HID@[i].1)),
{
    reveal_with_fuel(key_hid_from, 16);
    assert(key_hid(KEY_HID@[0].0) == Some(usage_back(KEY_HID@[0].1)));
    assert(key_hid(KEY_HID@[1].0) == Some(usage_back(KEY_HID@[1].1)));
    assert(key_hid(KEY_HID@[2].0) == Some(usage_back(KEY_HID@[2].1)));
    assert(key_hid(KEY_HID@[3].0) == Some(usage_back(KEY_HID@[3].1)));
    assert(key_hid(KEY_HID@[4].0) == Some(usage_back(KEY_HID@[4].1)));
    assert(key_hid(KEY_HID@[5].0) == Some(usage_back(KEY_HID@[5].1)));
    assert(key_hid(KEY_HID@[6].0) == Some(usage_back(KEY_HID@[6].1)));
    assert(key_hid(KEY_HID@[7].0) == Some(usage_back(KEY_HID@[7].1)));
    assert(key_hid(KEY_HID@[8].0) == Some(usage_back(KEY_HID@[8].1)));
    assert(key_hid(KEY_HID@[9].0) == Some(usage_back(KEY_HID@[9].1)));
    assert(key_hid(KEY_HID@[10].0) == Some(usage_back(KEY_HID@[10].1)));
    assert(key_hid(KEY_HID@[11].0) == Some(usage_back(KEY_HID@[11].1)));
    assert(key_hid(KEY_HID@[12].0) == Some(usage_back(KEY_HID@[12].1)));
    assert(key_hid(KEY_HID@[13].0) == Some(usage_back(KEY_HID@[13].1)));
    assert(key_hid(KEY_HID@[14].0) == Some(usage_back(KEY_HID@[14].1)));
    assert forall|i: int| 0 <= i < 15 implies key_hid(#[trigger] KEY_HID@[i].0) == Some(usage_back(KEY_HID@[i].1)) by {
        if i == 0 {} else if i == 1 {} else if i == 2 {} else if i == 3 {} else if i == 4 {} else if i == 5 {} else if i == 6 {} else if i == 7 {} else if i == 8 {} else if i == 9 {} else if i == 10 {} else if i == 11 {} else if i == 12 {} else if i == 13 {} else if i == 14 {}
    }
}

proof fn lemma_entries_convert_back_15_30()
    ensures
        forall|i: int| 15 <= i < 30 ==> key_hid(#[trigger] KEY_HID@[i].0) == Some(usage_back(KEY_HID@[i].1)),
{
    reveal_with_fuel(key_hid_from, 31);
    assert(key_hid(KEY_HID@[15].0) == Some(usage_back(KEY_HID@[15].1)));
    assert(key_hid(KEY_HID@[16].0) == Some(usage_back(KEY_HID@[16].1)));
    assert(key_hid(KEY_HID@[17].0) == Some(usage_back(KEY_HID@[17].1)));
    assert(key_hid(KEY_HID@[18].0) == Some(usage_back(KEY_HID@[18].1)));
    assert(key_hid(KEY_HID@[19].0) == Some(usage_back(KEY_HID@[19].1)));
    assert(key_hid(KEY_HID@[20].0) == Some(usage_back(KEY_HID@[20].1)));
    assert(key_hid(KEY_HID@[21].0) == Some(usage_back(KEY_HID@[21].1)));
    assert(key_hid(KEY_HID@[22].0) == Some(usage_back(KEY_HID@[22].1)));
    assert(key_hid(KEY_HID@[23].0) == Some(usage_back(KEY_HID@[23].1)));
    assert(key_hid(KEY_HID@[24].0) == Some(usage_back(KEY_HID@[24].1)));
    assert(key_hid(KEY_HID@[25].0) == Some(usage_back(KEY_HID@[25].1)));
    assert(key_hid(KEY_HID@[26].0) == Some(usage_back(KEY_HID@[26].1)));
    assert(key_hid(KEY_HID@[27].0) == Some(usage_back(KEY_HID@[27].1)));
    assert(key_hid(KEY_HID@[28].0) == Some(usage_back(KEY_HID@[28].1)));
    assert(key_hid(KEY_HID@[29].0) == Some(usage_back(KEY_HID@[29].1)));
    assert forall|i: int| 15 <= i < 30 implies key_hid(#[trigger] KEY_HID@[i].0) == Some(usage_back(KEY_HID@[i].1)) by {
        if i == 15 {} else if i == 16 {} else if i == 17 {} else if i == 18 {} else if i == 19 {} else if i == 20 {} else if i == 21 {} else if i == 22 {} else if i == 23 {} else if i == 24 {} else if i == 25 {} else if i == 26 {} else if i == 27 {} else if i == 28 {} else if i == 29 {}
    }
}

proof fn lemma_entries_convert_back_30_45()
    ensures
        forall|i: int| 30 <= i < 45 ==> key_hid(#[trigger] KEY_HID@[i].0) == Some(usage_back(KEY_HID@[i].1)),
{
    reveal_with_fuel(key_hid_from, 46);
    assert(key_hid(KEY_HID@[30].0) == Some(usage_back(KEY_HID@[30].1)));
    assert(key_hid(KEY_HID@[31].0) == Some(usage_back(KEY_HID@[31].1)));
    assert(key_hid(KEY_HID@[32].0) == Some(usage_back(KEY_HID@[32].1)));
    assert(key_hid(KEY_HID@[33].0) == Some(usage_back(KEY_HID@[33].1)));
    assert(key_hid(KEY_HID@[34].0) == Some(usage_back(KEY_HID@[34].1)));
    assert(key_hid(KEY_HID@[35].0) == Some(usage_back(KEY_HID@[35].1)));
    assert(key_hid(KEY_HID@[36].0) == Some(usage_back(KEY_HID@[36].1)));
    assert(key_hid(KEY_HID@[37].0) == Some(usage_back(KEY_HID@[37].1)));
    assert(key_hid(KEY_HID@[38].0) == Some(usage_back(KEY_HID@[38].1)));
    assert(key_hid(KEY_HID@[39].0) == Some(usage_back(KEY_HID@[39].1)));
    assert(key_hid(KEY_HID@[40].0) == Some(usage_back(KEY_HID@[40].1)));
    assert(key_hid(KEY_HID@[41].0) == Some(usage_back(KEY_HID@[41].1)));
    assert(key_hid(KEY_HID@[42].0) == Some(usage_back(KEY_HID@[42].1)));
    assert(key_hid(KEY_HID@[43].0) == Some(usage_back(KEY_HID@[43].1)));
    assert(key_hid(KEY_HID@[44].0) == Some(usage_back(KEY_HID@[44].1)));
    assert forall|i: int| 30 <= i < 45 implies key_hid(#[trigger] KEY_HID@[i].0) == Some(usage_back(KEY_HID@[i].1)) by {
        if i == 30 {} else if i == 31 {} else if i == 32 {} else if i == 33 {} else if i == 34 {} else if i == 35 {} else if i == 36 {} else if i == 37 {} else if i == 38 {} else if i == 39 {} else if i == 40 {} else if i == 41 {} else if i == 42 {} else if i == 43 {} else if i == 44 {}
    }
}

proof fn lemma_entries_convert_back_45_60()
    ensures
        forall|i: int| 45 <= i < 60 ==> key_hid(#[trigger] KEY_HID@[i].0) == Some(usage_back(KEY_HID@[i].1)),
{
    reveal_with_fuel(key_hid_from, 61);
    assert(key_hid(KEY_HID@[45].0) == Some(usage_back(KEY_HID@[45].1)));
    assert(key_hid(KEY_HID@[46].0) == Some(usage_back(KEY_HID@[46].1)));
    assert(key_hid(KEY_HID@[47].0) == Some(usage_back(KEY_HID@[47].1)));
    assert(key_hid(KEY_HID@[48].0) == Some(usage_back(KEY_HID@[48].1)));
    assert(key_hid(KEY_HID@[49].0) == Some(usage_back(KEY_HID@[49].1)));
    assert(key_hid(KEY_HID@[50].0) == Some(usage_back(KEY_HID@[50].1)));
    assert(key_hid(KEY_HID@[51].0) == Some(usage_back(KEY_HID@[51].1)));
    assert(key_hid(KEY_HID@[52].0) == Some(usage_back(KEY_HID@[52].1)));
    assert(key_hid(KEY_HID@[53].0) == Some(usage_back(KEY_HID@[53].1)));
    assert(key_hid(KEY_HID@[54].0) == Some(usage_back(KEY_HID@[54].1)));
    assert(key_hid(KEY_HID@[55].0) == Some(usage_back(KEY_HID@[55].1)));
    assert(key_hid(KEY_HID@[56].0) == Some(usage_back(KEY_HID@[56].1)));
    assert(key_hid(KEY_HID@[57].0) == Some(usage_back(KEY_HID@[57].1)));
    assert(key_hid(KEY_HID@[58].0) == Some(usage_back(KEY_HID@[58].1)));
    assert(key_hid(KEY_HID@[59].0) == Some(usage_back(KEY_HID@[59].1)));
    assert forall|i: int| 45 <= i < 60 implies key_hid(#[trigger] KEY_HID@[i].0) == Some(usage_back(KEY_HID@[i].1)) by {
        if i == 45 {} else if i == 46 {} else if i == 47 {} else if i == 48 {} else if i == 49 {} else if i == 50 {} else if i == 51 {} else if i == 52 {} else if i == 53 {} else if i == 54 {} else if i == 55 {} else if i == 56 {} else if i == 57 {} else if i == 58 {} else if i == 59 {}
    }
}

proof fn lemma_entries_convert_back_60_70()
    ensures
        forall|i: int| 60 <= i < 70 ==> key_hid(#[trigger] KEY_HID@[i].0) == Some(usage_back(KEY_HID@[i].1)),
{
    reveal_with_fuel(key_hid_from, 71);
    assert(key_hid(KEY_HID@[60].0) == Some(usage_back(KEY_HID@[60].1)));
    assert(key_hid(KEY_HID@[61].0) == Some(usage_back(KEY_HID@[61].1)));
    assert(key_hid(KEY_HID@[62].0) == Some(usage_back(KEY_HID@[62].1)));
    assert(key_hid(KEY_HID@[63].0) == Some(usage_back(KEY_HID@[63].1)));
    assert(key_hid(KEY_HID@[64].0) == Some(usage_back(KEY_HID@[64].1)));
    assert(key_hid(KEY_HID@[65].0) == Some(usage_back(KEY_HID@[65].1)));
    assert(key_hid(KEY_HID@[66].0) == Some(usage_back(KEY_HID@[66].1)));
    assert(key_hid(KEY_HID@[67].0) == Some(usage_back(KEY_HID@[67].1)));
    assert(key_hid(KEY_HID@[68].0) == Some(usage_back(KEY_HID@[68].1)));
    assert(key_hid(KEY_HID@[69].0) == Some(usage_back(KEY_HID@[69].1)));
    assert forall|i: int| 60 <= i < 70 implies key_hid(#[trigger] KEY_HID@[i].0) == Some(usage_back(KEY_HID@[i].1)) by {
        if i == 60 {} else if i == 61 {} else if i == 62 {} else if i == 63 {} else if i == 64 {} else if i == 65 {} else if i == 66 {} else if i == 67 {} else if i == 68 {} else if i == 69 {}
    }
}

proof fn lemma_entries_convert_back_70_80()
    ensures
        forall|i: int| 70 <= i < 80 ==> key_hid(#[trigger] KEY_HID@[i].0) == Some(usage_back(KEY_HID@[i].1)),
{
    reveal_with_fuel(key_hid_from, 81);
    assert(key_hid(KEY_HID@[70].0) == Some(usage_back(KEY_HID@[70].1)));
    assert(key_hid(KEY_HID@[71].0) == Some(usage_back(KEY_HID@[71].1)));
    assert(key_hid(KEY_HID@[72].0) == Some(usage_back(KEY_HID@[72].1)));
    assert(key_hid(KEY_HID@[73].0) == Some(usage_back(KEY_HID@[73].1)));
    assert(key_hid(KEY_HID@[74].0) == Some(usage_back(KEY_HID@[74].1)));
    assert(key_hid(KEY_HID@[75].0) == Some(usage_back(KEY_HID@[75].1)));
    assert(key_hid(KEY_HID@[76].0) == Some(usage_back(KEY_HID@[76].1)));
    assert(key_hid(KEY_HID@[77].0) == Some(usage_back(KEY_HID@[77].1)));
    assert(key_hid(KEY_HID@[78].0) == Some(usage_back(KEY_HID@[78].1)));
    assert(key_hid(KEY_HID@[79].0) == Some(usage_back(KEY_HID@[79].1)));
    assert forall|i: int| 70 <= i < 80 implies key_hid(#[trigger] KEY_HID@[i].0) == Some(usage_back(KEY_HID@[i].1)) by {
        if i == 70 {} else if i == 71 {} else if i == 72 {} else if i == 73 {} else if i == 74 {} else if i == 75 {} else if i == 76 {} else if i == 77 {} else if i == 78 {} else if i == 79 {}
    }
}

proof fn lemma_entries_convert_back_80_86()
    ensures
        forall|i: int| 80 <= i < 86 ==> key_hid(#[trigger] KEY_HID@[i].0) == Some(usage_back(KEY_HID@[i].1)),
{
    reveal_with_fuel(key_hid_from, 87);
    assert(key_hid(KEY_HID@[80].0) == Some(usage_back(KEY_HID@[80].1)));
    assert(key_hid(KEY_HID@[81].0) == Some(usage_back(KEY_HID@[81].1)));
    assert(key_hid(KEY_HID@[82].0) == Some(usage_back(KEY_HID@[82].1)));
    assert(key_hid(KEY_HID@[83].0) == Some(usage_back(KEY_HID@[83].1)));
    assert(key_hid(KEY_HID@[84].0) == Some(usage_back(KEY_HID@[84].1)));
    assert(key_hid(KEY_HID@[85].0) == Some(usage_back(KEY_HID@[85].1)));
    assert forall|i: int| 80 <= i < 86 implies key_hid(#[trigger] KEY_HID@[i].0) == Some(usage_back(KEY_HID@[i].1)) by {
        if i == 80 {} else if i == 81 {} else if i == 82 {} else if i == 83 {} else if i == 84 {} else if i == 85 {}
    }
}

#[verifier::rlimit(100)]
proof fn lemma_entries_convert_back_86_92()
    ensures
        forall|i: int| 86 <= i < 92 ==> key_hid(#[trigger] KEY_HID@[i].0) == Some(usage_back(KEY_HID@[i].1)),
{
    reveal_with_fuel(key_hid_from, 93);
    assert(key_hid(KEY_HID@[86].0) == Some(usage_back(KEY_HID@[86].1)));
    assert(key_hid(KEY_HID@[87].0) == Some(usage_back(KEY_HID@[87].1)));
    assert(key_hid(KEY_HID@[88].0) == Some(usage_back(KEY_HID@[88].1)));
    assert(key_hid(KEY_HID@[89].0) == Some(usage_back(KEY_HID@[89].1)));
    assert(key_hid(KEY_HID@[90].0) == Some(usage_back(KEY_HID@[90].1)));
    assert(key_hid(KEY_HID@[91].0) == Some(usage_back(KEY_HID@[91].1)));
    assert forall|i: int| 86 <= i < 92 implies key_hid(#[trigger] KEY_HID@[i].0) == Some(usage_back(KEY_HID@[i].1)) by {
        if i == 86 {} else if i == 87 {} else if i == 88 {} else if i == 89 {} else if i == 90 {} else if i == 91 {}
    }
}

#[verifier::rlimit(100)]
proof fn lemma_entries_convert_back_92_93()
    ensures
        forall|i: int| 92 <= i < 93 ==> key_hid(#[trigger] KEY_HID@[i].0) == Some(usage_back(KEY_HID@[i].1)),
{
    reveal_with_fuel(key_hid_from, 94);
    assert(key_hid(KEY_HID@[92].0) == Some(usage_back(KEY_HID@[92].1)));
    assert forall|i: int| 92 <= i < 93 implies key_hid(#[trigger] KEY_HID@[i].0) == Some(usage_back(KEY_HID@[i].1)) by {
        if i == 92 {}
    }
}

#[verifier::rlimit(100)]
proof fn lemma_entries_convert_back_93_94()
    ensures
        forall|i: int| 93 <= i < 94 ==> key_hid(#[trigger] KEY_HID@[i].0) == Some(usage_back(KEY_HID@[i].1)),
{
    reveal_with_fuel(key_hid_from, 95);
    assert(key_hid(KEY_HID@[93].0) == Some(usage_back(KEY_HID@[93].1)));
    assert forall|i: int| 93 <= i < 94 implies key_hid(#[trigger] KEY_HID@[i].0) == Some(usage_back(KEY_HID@[i].1)) by {
        if i == 93 {}
    }
}

#[verifier::rlimit(100)]
proof fn lemma_entries_convert_back_94_95()
    ensures
        forall|i: int| 94 <= i < 95 ==> key_hid(#[trigger] KEY_HID@[i].0) == Some(usage_back(KEY_HID@[i].1)),
{
    reveal_with_fuel(key_hid_from, 96);
    assert(key_hid(KEY_HID@[94].0) == Some(usage_back(KEY_HID@[94].1)));
    assert forall|i: int| 94 <= i < 95 implies key_hid(#[trigger] KEY_HID@[i].0) == Some(usage_back(KEY_HID@[i].1)) by {
        if i == 94 {}
    }
}

#[verifier::rlimit(100)]
proof fn lemma_entries_convert_back_95_96()
    ensures
        forall|i: int| 95 <= i < 96 ==> key_hid(#[trigger] KEY_HID@[i].0) == Some(usage_back(KEY_HID@[i].1)),
{
    reveal_with_fuel(key_hid_from, 97);
    assert(key_hid(KEY_HID@[95].0) == Some(usage_back(KEY_HID@[95].1)));
    assert forall|i: int| 95 <= i < 96 implies key_hid(#[trigger] KEY_HID@[i].0) == Some(usage_back(KEY_HID@[i].1)) by {
        if i == 95 {}
    }
}

#[verifier::rlimit(100)]
proof fn lemma_entries_convert_back_96_97()
    ensures
        forall|i: int| 96 <= i < 97 ==> key_hid(#[trigger] KEY_HID@[i].0) == Some(usage_back(KEY_HID@[i].1)),
{
    reveal_with_fuel(key_hid_from, 98);
    assert(key_hid(KEY_HID@[96].0) == Some(usage_back(KEY_HID@[96].1)));
    assert forall|i: int| 96 <= i < 97 implies key_hid(#[trigger] KEY_HID@[i].0) == Some(usage_back(KEY_HID@[i].1)) by {
        if i == 96 {}
    }
}

#[verifier::rlimit(100)]
proof fn lemma_entries_convert_back_97_98()
    ensures
        forall|i: int| 97 <= i < 98 ==> key_hid(#[trigger] KEY_HID@[i].0) == Some(usage_back(KEY_HID@[i].1)),
{
    reveal_with_fuel(key_hid_from, 99);
    assert(key_hid(KEY_HID@[97].0) == Some(usage_back(KEY_HID@[97].1)));
    assert forall|i: int| 97 <= i < 98 implies key_hid(#[trigger] KEY_HID@[i].0) == Some(usage_back(KEY_HID@[i].1)) by {
        if i == 97 {}
    }
}

#[verifier::rlimit(100)]
proof fn lemma_entries_convert_back_98_99()
    ensures
        forall|i: int| 98 <= i < 99 ==> key_hid(#[trigger] KEY_HID@[i].0) == Some(usage_back(KEY_HID@[i].1)),
{
    reveal_with_fuel(key_hid_from, 60);
    assert(key_hid_from(KEY_HID@, KEY_HID@[98].0, 50) == Some(usage_back(KEY_HID@[98].1)));
    assert(key_hid_from(KEY_HID@, KEY_HID@[98].0, 0) == key_hid_from(KEY_HID@, KEY_HID@[98].0, 50));
    assert forall|i: int| 98 <= i < 99 implies key_hid(#[trigger] KEY_HID@[i].0) == Some(usage_back(KEY_HID@[i].1)) by {
        if i == 98 {}
    }
}

#[verifier::rlimit(100)]
proof fn lemma_entries_convert_back_99_100()
    ensures
        forall|i: int| 99 <= i < 100 ==> key_hid(#[trigger] KEY_HID@[i].0) == Some(usage_back(KEY_HID@[i].1)),
{
    reveal_with_fuel(key_hid_from, 60);
    assert(key_hid_from(KEY_HID@, KEY_HID@[99].0, 50) == Some(usage_back(KEY_HID@[99].1)));
    assert(key_hid_from(KEY_HID@, KEY_HID@[99].0, 0) == key_hid_from(KEY_HID@, KEY_HID@[99].0, 50));
    assert forall|i: int| 99 <= i < 100 implies key_hid(#[trigger] KEY_HID@[i].0) == Some(usage_back(KEY_HID@[i].1)) by {
        if i == 99 {}
    }
}

#[verifier::rlimit(100)]
proof fn lemma_entries_convert_back_100_101()
    ensures
        forall|i: int| 100 <= i < 101 ==> key_hid(#[trigger] KEY_HID@[i].0) == Some(usage_back(KEY_HID@[i].1)),
{
    reveal_with_fuel(key_hid_from, 60);
    assert(key_hid_from(KEY_HID@, KEY_HID@[100].0, 50) == Some(usage_back(KEY_HID@[100].1)));
    assert(key_hid_from(KEY_HID@, KEY_HID@[100].0, 0) == key_hid_from(KEY_HID@, KEY_HID@[100].0, 50));
    assert forall|i: int| 100 <= i < 101 implies key_hid(#[trigger] KEY_HID@[i].0) == Some(usage_back(KEY_HID@[i].1)) by {
        if i == 100 {}
    }
}

#[verifier::rlimit(100)]
proof fn lemma_entries_convert_back_101_102()
    ensures
        forall|i: int| 101 <= i < 102 ==> key_hid(#[trigger] KEY_HID@[i].0) == Some(usage_back(KEY_HID@[i].1)),
{
    reveal_with_fuel(key_hid_from, 60);
    assert(key_hid_from(KEY_HID@, KEY_HID@[101].0, 50) == Some(usage_back(KEY_HID@[101].1)));
    assert(key_hid_from(KEY_HID@, KEY_HID@[101].0, 0) == key_hid_from(KEY_HID@, KEY_HID@[101].0, 50));
    assert forall|i: int| 101 <= i < 102 implies key_hid(#[trigger] KEY_HID@[i].0) == Some(usage_back(KEY_HID@[i].1)) by {
        if i == 101 {}
    }
}

#[verifier::rlimit(100)]
proof fn lemma_entries_convert_back_102_103()
    ensures
        forall|i: int| 102 <= i < 103 ==> key_hid(#[trigger] KEY_HID@[i].0) == Some(usage_back(KEY_HID@[i].1)),
{
    reveal_with_fuel(key_hid_from, 60);
    assert(key_hid_from(KEY_HID@, KEY_HID@[102].0, 50) == Some(usage_back(KEY_HID@[102].1)));
    assert(key_hid_from(KEY_HID@, KEY_HID@[102].0, 0) == key_hid_from(KEY_HID@, KEY_HID@[102].0, 50));
    assert forall|i: int| 102 <= i < 103 implies key_hid(#[trigger] KEY_HID@[i].0) == Some(usage_back(KEY_HID@[i].1)) by {
        if i == 102 {}
    }
}

#[verifier::rlimit(100)]
proof fn lemma_entries_convert_back_103_104()
    ensures
        forall|i: int| 103 <= i < 104 ==> key_hid(#[trigger] KEY_HID@[i].0) == Some(usage_back(KEY_HID@[i].1)),
{
    reveal_with_fuel(key_hid_from, 60);
    assert(key_hid_from(KEY_HID@, KEY_HID@[103].0, 50) == Some(usage_back(KEY_HID@[103].1)));
    assert(key_hid_from(KEY_HID@, KEY_HID@[103].0, 0) == key_hid_from(KEY_HID@, KEY_HID@[103].0, 50));
    assert forall|i: int| 103 <= i < 104 implies key_hid(#[trigger] KEY_HID@[i].0) == Some(usage_back(KEY_HID@[i].1)) by {
        if i == 103 {}
    }
}

#[verifier::rlimit(100)]
proof fn lemma_entries_convert_back_104_105()
    ensures
        forall|i: int| 104 <= i < 105 ==> key_hid(#[trigger] KEY_HID@[i].0) == Some(usage_back(KEY_HID@[i].1)),
{
    reveal_with_fuel(key_hid_from, 60);
    assert(key_hid_from(KEY_HID@, KEY_HID@[104].0, 50) == Some(usage_back(KEY_HID@[104].1)));
    assert(key_hid_from(KEY_HID@, KEY_HID@[104].0, 0) == key_hid_from(KEY_HID@, KEY_HID@[104].0, 50));
    assert forall|i: int| 104 <= i < 105 implies key_hid(#[trigger] KEY_HID@[i].0) == Some(usage_back(KEY_HID@[i].1)) by {
        if i == 104 {}
    }
}

/// The usage a key found in the table comes from: `hid_key_from` returns the
/// key of some entry with that usage.
proof fn lemma_hid_key_from_entry(t: Seq<(Key, u32)>, hid: u32, i: int)
    requires
        0 <= i,
    ensures
        hid_key_from(t, hid, i) matches Some(k) ==> exists|j: int| i <= j < t.len() && t[j] == (k, hid),
    decreases t.len() - i,
{
    if i < t.len() && t[i].1 != hid {
        lemma_hid_key_from_entry(t, hid, i + 1);
    }
}

/// Converting a HID usage to a key and back gives the same usage, except
/// for the non-US `#`/`~` usage (0x32), which has no key of its own: it
/// comes back as the backslash usage (0x31).
pub proof fn lemma_hid_round_trip(hid: u32)
    ensures
        hid_key(hid) matches Some(k) ==> key_hid(k) == Some(usage_back(hid)),
{
    lemma_entries_convert_back_0_15();
    lemma_entries_convert_back_15_30();
    lemma_entries_convert_back_30_45();
    lemma_entries_convert_back_45_60();
    lemma_entries_convert_back_60_70();
    lemma_entries_convert_back_70_80();
    lemma_entries_convert_back_80_86();
    lemma_entries_convert_back_86_92();
    lemma_entries_convert_back_92_93();
    lemma_entries_convert_back_93_94();
    lemma_entries_convert_back_94_95();
    lemma_entries_convert_back_95_96();
    lemma_entries_convert_back_96_97();
    lemma_entries_convert_back_97_98();
    lemma_entries_convert_back_98_99();
    lemma_entries_convert_back_99_100();
    lemma_entries_convert_back_100_101();
    lemma_entries_convert_back_101_102();
    lemma_entries_convert_back_102_103();
    lemma_entries_convert_back_103_104();
    lemma_entries_convert_back_104_105();
    lemma_hid_key_from_entry(KEY_HID@, hid, 0);
    if hid_key(hid) is Some {
        let k = hid_key(hid)->0;
        let j = choose|j: int| 0 <= j < KEY_HID@.len() && KEY_HID@[j] == (k, hid);
        assert(key_hid(KEY_HID@[j].0) == Some(usage_back(KEY_HID@[j].1)));
    }
}

// ---- HID -> macOS virtual keycode --------------------------------------

/// `(HID usage, macOS virtual keycode)` pairs, sorted by usage. macOS values
/// are the `kVK_*` constants of `<HIToolbox/Events.h>`.
pub const HID_TO_CG: [(u16, u16); 98] = [
    (0x04, 0x00), (0x05, 0x0B), (0x06, 0x08), (0x07, 0x02), (0x08, 0x0E), (0x09, 0x03),
    (0x0A, 0x05), (0x0B, 0x04), (0x0C, 0x22), (0x0D, 0x26), (0x0E, 0x28), (0x0F, 0x25),
    (0x10, 0x2E), (0x11, 0x2D), (0x12, 0x1F), (0x13, 0x23), (0x14, 0x0C), (0x15, 0x0F),
    (0x16, 0x01), (0x17, 0x11), (0x18, 0x20), (0x19, 0x09), (0x1A, 0x0D), (0x1B, 0x07),
    (0x1C, 0x10), (0x1D, 0x06),
    (0x1E, 0x12), (0x1F, 0x13), (0x20, 0x14), (0x21, 0x15), (0x22, 0x17), (0x23, 0x16),
    (0x24, 0x1A), (0x25, 0x1C), (0x26, 0x19), (0x27, 0x1D),
    (0x28, 0x24), (0x29, 0x35), (0x2A, 0x33), (0x2B, 0x30), (0x2C, 0x31),
    (0x2D, 0x1B), (0x2E, 0x18), (0x2F, 0x21), (0x30, 0x1E), (0x31, 0x2A), (0x33, 0x29),
    (0x34, 0x27), (0x35, 0x32), (0x36, 0x2B), (0x37, 0x2F), (0x38, 0x2C), (0x39, 0x39),
    (0x3A, 0x7A), (0x3B, 0x78), (0x3C, 0x63), (0x3D, 0x76), (0x3E, 0x60), (0x3F, 0x61),
    (0x40, 0x62), (0x41, 0x64), (0x42, 0x65), (0x43, 0x6D), (0x44, 0x67), (0x45, 0x6F),
    (0x4A, 0x73), (0x4B, 0x74), (0x4C, 0x75), (0x4D, 0x77), (0x4E, 0x79), (0x4F, 0x7C),
    (0x50, 0x7B), (0x51, 0x7D), (0x52, 0x7E),
    (0x54, 0x4B), (0x55, 0x43), (0x56, 0x4E), (0x57, 0x45), (0x58, 0x4C), (0x59, 0x53),
    (0x5A, 0x54), (0x5B, 0x55), (0x5C, 0x56), (0x5D, 0x57), (0x5E, 0x58), (0x5F, 0x59),
    (0x60, 0x5B), (0x61, 0x5C), (0x62, 0x52), (0x63, 0x41),
    (0xE0, 0x3B), (0xE1, 0x38), (0xE2, 0x3A), (0xE3, 0x37), (0xE4, 0x3E), (0xE5, 0x3C),
    (0xE6, 0x3D), (0xE7, 0x36),
];

/// Each key of the table is strictly larger than the one before it.
pub open spec fn sorted_from(t: Seq<(u16, u16)>, i: int) -> bool
    decreases t.len() - i,
{
    if i < 0 || i + 1 >= t.len() {
        true
    } else {
        t[i].0 < t[i + 1].0 && sorted_from(t, i + 1)
    }
}

/// Keys strictly increase along the whole table.
pub open spec fn strictly_sorted(t: Seq<(u16, u16)>) -> bool {
    forall|i: int, j: int| 0 <= i < j < t.len() ==> t[i].0 < t[j].0
}

pub proof fn lemma_sorted_from(t: Seq<(u16, u16)>, i: int)
    requires
        0 <= i,
        sorted_from(t, i),
    ensures
        forall|a: int, b: int| i <= a < b < t.len() ==> t[a].0 < t[b].0,
    decreases t.len() - i,
{
    if i + 1 < t.len() {
        lemma_sorted_from(t, i + 1);
        assert forall|a: int, b: int| i <= a < b < t.len() implies t[a].0 < t[b].0 by {
            if a > i {
            } else if b > i + 1 {
                assert(t[i + 1].0 < t[b].0);
            }
        }
    }
}

/// The value a sorted table stores under `key`, if any.
pub open spec fn table_get(t: Seq<(u16, u16)>, key: u16) -> Option<u16> {
    if exists|i: int| 0 <= i < t.len() && t[i].0 == key {
        Some(t[choose|i: int| 0 <= i < t.len() && t[i].0 == key].1)
    } else {
        None
    }
}

/// In a table sorted by strictly increasing keys, the value stored under
/// entry `j`'s key is entry `j`'s value.
pub proof fn lemma_table_get_at(t: Seq<(u16, u16)>, j: int)
    requires
        strictly_sorted(t),
        0 <= j < t.len(),
    ensures
        table_get(t, t[j].0) == Some(t[j].1),
{
    let c = choose|i: int| 0 <= i < t.len() && t[i].0 == t[j].0;
    if c < j {
        assert(t[c].0 < t[j].0);
    } else if c > j {
        assert(t[j].0 < t[c].0);
    }
}

/// Binary search of a table sorted by strictly increasing keys.
pub fn lookup_sorted(t: &[(u16, u16)], key: u16) -> (r: Option<u16>)
    requires
        strictly_sorted(t@),
    ensures
        r == table_get(t@, key),
{
    let mut lo: usize = 0;
    let mut hi: usize = t.len();
    while lo < hi
        invariant
            0 <= lo <= hi <= t@.len(),
            strictly_sorted(t@),
            forall|i: int| 0 <= i < lo ==> t@[i].0 < key,
            forall|i: int| hi <= i < t@.len() ==> t@[i].0 > key,
        decreases hi - lo,
    {
        let mid = lo + (hi - lo) / 2;
        let (k, v) = t[mid];
        if k == key {
            proof {
                let c = choose|i: int| 0 <= i < t@.len() && t@[i].0 == key;
                assert(c == mid as int) by {
                    if c < mid as int {
                        assert(t@[c].0 < t@[mid as int].0);
                    } else if c > mid as int {
                        assert(t@[mid as int].0 < t@[c].0);
                    }
                }
            }
            return Some(v);
        } else if k < key {
            proof {
                assert forall|i: int| 0 <= i < mid + 1 implies t@[i].0 < key by {
                    if i < mid as int {
                        assert(t@[i].0 < t@[mid as int].0);
                    }
                }
            }
            lo = mid + 1;
        } else {
            proof {
                assert forall|i: int| mid <= i < t@.len() implies t@[i].0 > key by {
                    if i > mid as int {
                        assert(t@[mid as int].0 < t@[i].0);
                    }
                }
            }
            hi = mid;
        }
    }
    proof {
        assert(!(exists|i: int| 0 <= i < t@.len() && t@[i].0 == key));
    }
    None
}

/// The HID -> macOS table is sorted by usage.
pub proof fn lemma_hid_to_cg_sorted()
    ensures
        strictly_sorted(HID_TO_CG@),
{
    reveal_with_fuel(sorted_from, 99);
    assert(sorted_from(HID_TO_CG@, 0));
    lemma_sorted_from(HID_TO_CG@, 0);
}

/// The HID table's lookup of entry `j`'s usage gives entry `j`'s keycode.
pub proof fn lemma_hid_to_cg_at(j: int)
    requires
        0 <= j < HID_TO_CG@.len(),
    ensures
        table_get(HID_TO_CG@, HID_TO_CG@[j].0) == Some(HID_TO_CG@[j].1),
{
    lemma_hid_to_cg_sorted();
    lemma_table_get_at(HID_TO_CG@, j);
}

/// HID usage -> macOS virtual keycode, or `None` for usages with no direct
/// macOS equivalent (NumLock, Insert, ...).
pub fn hid_to_cg_keycode(hid: u32) -> (r: Option<u16>)
    ensures
        r == (if hid <= 0xFFFF { table_get(HID_TO_CG@, hid as u16) } else { None }),
{
    if hid > 0xFFFF {
        return None;
    }
    proof { lemma_hid_to_cg_sorted(); }
    lookup_sorted(&HID_TO_CG, hid as u16)
}

} // verus!
