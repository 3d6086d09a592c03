//! Keycode mapping from Linux evdev codes to macOS virtual keycodes, and
//! the modifier flags macOS expects on injected key events.
//!
//! Both sides name physical key positions, not characters: evdev `KEY_Q` and
//! macOS `kVK_ANSI_Q` both mean "the key where Q sits on a US board", and each
//! OS applies its own layout on top.
use vstd::prelude::*;
use crate::keymap::{hid_evdev, lemma_sorted_from, lemma_table_get_at, lookup_sorted, sorted_from, strictly_sorted, table_get, HID_TO_CG};

verus! {

/// macOS `CGEventFlags` bits that matter for injected keys.
pub const FLAG_SHIFT: u64 = 0x0002_0000;
pub const FLAG_CONTROL: u64 = 0x0004_0000;
pub const FLAG_ALTERNATE: u64 = 0x0008_0000;
pub const FLAG_COMMAND: u64 = 0x0010_0000;
pub const FLAG_ALPHA_SHIFT: u64 = 0x0001_0000;

/// `(evdev, macOS)` pairs, sorted by evdev code. macOS values are the `kVK_*`
/// constants of Carbon `HIToolbox/Events.h`; Linux values are from
/// `linux/input-event-codes.h`.
pub const EVDEV_TO_MAC: [(u16, u16); 112] = [
    (1, 0x35), // ESC          -> Escape
    (2, 0x12), // 1            -> ANSI_1
    (3, 0x13), // 2
    (4, 0x14), // 3
    (5, 0x15), // 4
    (6, 0x17), // 5            -> note: mac 5 is 0x17, 6 is 0x16 (not sequential)
    (7, 0x16), // 6
    (8, 0x1A), // 7
    (9, 0x1C), // 8
    (10, 0x19), // 9
    (11, 0x1D), // 0
    (12, 0x1B), // MINUS        -> ANSI_Minus
    (13, 0x18), // EQUAL        -> ANSI_Equal
    (14, 0x33), // BACKSPACE    -> Delete
    (15, 0x30), // TAB
    (16, 0x0C), // Q
    (17, 0x0D), // W
    (18, 0x0E), // E
    (19, 0x0F), // R
    (20, 0x11), // T
    (21, 0x10), // Y
    (22, 0x20), // U
    (23, 0x22), // I
    (24, 0x1F), // O
    (25, 0x23), // P
    (26, 0x21), // LEFTBRACE
    (27, 0x1E), // RIGHTBRACE
    (28, 0x24), // ENTER        -> Return
    (29, 0x3B), // LEFTCTRL     -> Control
    (30, 0x00), // A
    (31, 0x01), // S
    (32, 0x02), // D
    (33, 0x03), // F
    (34, 0x05), // G
    (35, 0x04), // H
    (36, 0x26), // J
    (37, 0x28), // K
    (38, 0x25), // L
    (39, 0x29), // SEMICOLON
    (40, 0x27), // APOSTROPHE   -> Quote
    (41, 0x32), // GRAVE
    (42, 0x38), // LEFTSHIFT    -> Shift
    (43, 0x2A), // BACKSLASH
    (44, 0x06), // Z
    (45, 0x07), // X
    (46, 0x08), // C
    (47, 0x09), // V
    (48, 0x0B), // B
    (49, 0x2D), // N
    (50, 0x2E), // M
    (51, 0x2B), // COMMA
    (52, 0x2F), // DOT          -> Period
    (53, 0x2C), // SLASH
    (54, 0x3C), // RIGHTSHIFT
    (55, 0x43), // KPASTERISK   -> KeypadMultiply
    (56, 0x3A), // LEFTALT      -> Option
    (57, 0x31), // SPACE
    (58, 0x39), // CAPSLOCK
    (59, 0x7A), // F1
    (60, 0x78), // F2
    (61, 0x63), // F3
    (62, 0x76), // F4
    (63, 0x60), // F5
    (64, 0x61), // F6
    (65, 0x62), // F7
    (66, 0x64), // F8
    (67, 0x65), // F9
    (68, 0x6D), // F10
    (69, 0x47), // NUMLOCK      -> KeypadClear (mac has no numlock)
    (71, 0x59), // KP7
    (72, 0x5B), // KP8
    (73, 0x5C), // KP9
    (74, 0x4E), // KPMINUS
    (75, 0x56), // KP4
    (76, 0x57), // KP5
    (77, 0x58), // KP6
    (78, 0x45), // KPPLUS
    (79, 0x53), // KP1
    (80, 0x54), // KP2
    (81, 0x55), // KP3
    (82, 0x52), // KP0
    (83, 0x41), // KPDOT        -> KeypadDecimal
    (87, 0x67), // F11
    (88, 0x6F), // F12
    (96, 0x4C), // KPENTER
    (97, 0x3E), // RIGHTCTRL
    (98, 0x4B), // KPSLASH
    (100, 0x3D), // RIGHTALT     -> RightOption
    (102, 0x73), // HOME
    (103, 0x7E), // UP
    (104, 0x74), // PAGEUP
    (105, 0x7B), // LEFT
    (106, 0x7C), // RIGHT
    (107, 0x77), // END
    (108, 0x7D), // DOWN
    (109, 0x79), // PAGEDOWN
    (111, 0x75), // DELETE       -> ForwardDelete
    (113, 0x4A), // MUTE
    (114, 0x49), // VOLUMEDOWN
    (115, 0x48), // VOLUMEUP
    (117, 0x51), // KPEQUAL
    (119, 0x71), // PAUSE        -> F15, the closest mac analogue
    (125, 0x37), // LEFTMETA     -> Command
    (126, 0x36), // RIGHTMETA    -> RightCommand
    (183, 0x69), // F13
    (184, 0x6B), // F14
    (185, 0x71), // F15
    (186, 0x6A), // F16
    (187, 0x40), // F17
    (188, 0x4F), // F18
    (189, 0x50), // F19
    (190, 0x5A), // F20
];

/// Keys macOS reports through event flags rather than as ordinary key events.
pub const MODIFIER_EVDEV: [u16; 9] = [29, 42, 54, 56, 58, 97, 100, 125, 126];

/// The evdev -> macOS table is sorted by evdev code, with no code twice.
pub proof fn lemma_evdev_to_mac_sorted()
    ensures
        strictly_sorted(EVDEV_TO_MAC@),
{
    lemma_evdev_to_mac_lower_half_sorted();
    lemma_sorted_from(EVDEV_TO_MAC@, 0);
}

proof fn lemma_evdev_to_mac_lower_half_sorted()
    ensures
        sorted_from(EVDEV_TO_MAC@, 0),
{
    lemma_evdev_to_mac_upper_half_sorted();
    reveal_with_fuel(sorted_from, 57);
    assert(sorted_from(EVDEV_TO_MAC@, 0));
}

proof fn lemma_evdev_to_mac_upper_half_sorted()
    ensures
        sorted_from(EVDEV_TO_MAC@, 56),
{
    reveal_with_fuel(sorted_from, 58);
    assert(sorted_from(EVDEV_TO_MAC@, 56));
}

/// Every macOS code in the table is a 7-bit virtual keycode.
pub proof fn lemma_mac_codes_are_7_bit()
    ensures
        forall|i: int| 0 <= i < EVDEV_TO_MAC@.len() ==> #[trigger] EVDEV_TO_MAC@[i].1 <= 0x7F,
{
    assert forall|i: int| 0 <= i < EVDEV_TO_MAC@.len() implies #[trigger] EVDEV_TO_MAC@[i].1 <= 0x7F by {
        mac_code_at(i);
    }
}

proof fn mac_code_at(i: int)
    requires
        0 <= i < EVDEV_TO_MAC@.len(),
    ensures
        EVDEV_TO_MAC@[i].1 <= 0x7F,
    decreases EVDEV_TO_MAC@.len() - i,
{
    if i + 1 < EVDEV_TO_MAC@.len() {
        mac_code_at(i + 1);
    }
}

/// The evdev table's lookup of entry `j`'s code gives entry `j`'s keycode.
proof fn lemma_evdev_to_mac_at(j: int)
    requires
        0 <= j < EVDEV_TO_MAC@.len(),
    ensures
        table_get(EVDEV_TO_MAC@, EVDEV_TO_MAC@[j].0) == Some(EVDEV_TO_MAC@[j].1),
{
    lemma_evdev_to_mac_sorted();
    lemma_table_get_at(EVDEV_TO_MAC@, j);
}

/// The macOS keycode of table entry `i` of the HID table is what the evdev
/// table gives for the usage's evdev code.
proof fn lemma_cg_entry_agrees(i: int)
    requires
        0 <= i < HID_TO_CG@.len(),
    ensures
        hid_evdev(HID_TO_CG@[i].0 as int) matches Some(e) && e <= 0xFFFF && table_get(EVDEV_TO_MAC@, e as u16) == Some(
            HID_TO_CG@[i].1,
        ),
        HID_TO_CG@[i].1 <= 0x7F,
{
    if i < 14 {
        lemma_cg_entries_agree_0_14(i);
    } else if i < 28 {
        lemma_cg_entries_agree_14_28(i);
    } else if i < 42 {
        lemma_cg_entries_agree_28_42(i);
    } else if i < 56 {
        lemma_cg_entries_agree_42_56(i);
    } else if i < 70 {
        lemma_cg_entries_agree_56_70(i);
    } else if i < 84 {
        lemma_cg_entries_agree_70_84(i);
    } else if i < 98 {
        lemma_cg_entries_agree_84_98(i);
    }
}

proof fn lemma_cg_entries_agree_0_14(i: int)
    requires
        0 <= i < 14,
        HID_TO_CG@.len() == 98,
    ensures
        hid_evdev(HID_TO_CG@[i].0 as int) matches Some(e) && e <= 0xFFFF && table_get(EVDEV_TO_MAC@, e as u16) == Some(
            HID_TO_CG@[i].1,
        ),
        HID_TO_CG@[i].1 <= 0x7F,
{
    if i == 0 {
        lemma_evdev_to_mac_at(29);
    } else if i == 1 {
        lemma_evdev_to_mac_at(47);
    } else if i == 2 {
        lemma_evdev_to_mac_at(45);
    } else if i == 3 {
        lemma_evdev_to_mac_at(31);
    } else if i == 4 {
        lemma_evdev_to_mac_at(17);
    } else if i == 5 {
        lemma_evdev_to_mac_at(32);
    } else if i == 6 {
        lemma_evdev_to_mac_at(33);
    } else if i == 7 {
        lemma_evdev_to_mac_at(34);
    } else if i == 8 {
        lemma_evdev_to_mac_at(22);
    } else if i == 9 {
        lemma_evdev_to_mac_at(35);
    } else if i == 10 {
        lemma_evdev_to_mac_at(36);
    } else if i == 11 {
        lemma_evdev_to_mac_at(37);
    } else if i == 12 {
        lemma_evdev_to_mac_at(49);
    } else if i == 13 {
        lemma_evdev_to_mac_at(48);
    }
}

proof fn lemma_cg_entries_agree_14_28(i: int)
    requires
        14 <= i < 28,
        HID_TO_CG@.len() == 98,
    ensures
        hid_evdev(HID_TO_CG@[i].0 as int) matches Some(e) && e <= 0xFFFF && table_get(EVDEV_TO_MAC@, e as u16) == Some(
            HID_TO_CG@[i].1,
        ),
        HID_TO_CG@[i].1 <= 0x7F,
{
    if i == 14 {
        lemma_evdev_to_mac_at(23);
    } else if i == 15 {
        lemma_evdev_to_mac_at(24);
    } else if i == 16 {
        lemma_evdev_to_mac_at(15);
    } else if i == 17 {
        lemma_evdev_to_mac_at(18);
    } else if i == 18 {
        lemma_evdev_to_mac_at(30);
    } else if i == 19 {
        lemma_evdev_to_mac_at(19);
    } else if i == 20 {
        lemma_evdev_to_mac_at(21);
    } else if i == 21 {
        lemma_evdev_to_mac_at(46);
    } else if i == 22 {
        lemma_evdev_to_mac_at(16);
    } else if i == 23 {
        lemma_evdev_to_mac_at(44);
    } else if i == 24 {
        lemma_evdev_to_mac_at(20);
    } else if i == 25 {
        lemma_evdev_to_mac_at(43);
    } else if i == 26 {
        lemma_evdev_to_mac_at(1);
    } else if i == 27 {
        lemma_evdev_to_mac_at(2);
    }
}

proof fn lemma_cg_entries_agree_28_42(i: int)
    requires
        28 <= i < 42,
        HID_TO_CG@.len() == 98,
    ensures
        hid_evdev(HID_TO_CG@[i].0 as int) matches Some(e) && e <= 0xFFFF && table_get(EVDEV_TO_MAC@, e as u16) == Some(
            HID_TO_CG@[i].1,
        ),
        HID_TO_CG@[i].1 <= 0x7F,
{
    if i == 28 {
        lemma_evdev_to_mac_at(3);
    } else if i == 29 {
        lemma_evdev_to_mac_at(4);
    } else if i == 30 {
        lemma_evdev_to_mac_at(5);
    } else if i == 31 {
        lemma_evdev_to_mac_at(6);
    } else if i == 32 {
        lemma_evdev_to_mac_at(7);
    } else if i == 33 {
        lemma_evdev_to_mac_at(8);
    } else if i == 34 {
        lemma_evdev_to_mac_at(9);
    } else if i == 35 {
        lemma_evdev_to_mac_at(10);
    } else if i == 36 {
        lemma_evdev_to_mac_at(27);
    } else if i == 37 {
        lemma_evdev_to_mac_at(0);
    } else if i == 38 {
        lemma_evdev_to_mac_at(13);
    } else if i == 39 {
        lemma_evdev_to_mac_at(14);
    } else if i == 40 {
        lemma_evdev_to_mac_at(56);
    } else if i == 41 {
        lemma_evdev_to_mac_at(11);
    }
}

proof fn lemma_cg_entries_agree_42_56(i: int)
    requires
        42 <= i < 56,
        HID_TO_CG@.len() == 98,
    ensures
        hid_evdev(HID_TO_CG@[i].0 as int) matches Some(e) && e <= 0xFFFF && table_get(EVDEV_TO_MAC@, e as u16) == Some(
            HID_TO_CG@[i].1,
        ),
        HID_TO_CG@[i].1 <= 0x7F,
{
    if i == 42 {
        lemma_evdev_to_mac_at(12);
    } else if i == 43 {
        lemma_evdev_to_mac_at(25);
    } else if i == 44 {
        lemma_evdev_to_mac_at(26);
    } else if i == 45 {
        lemma_evdev_to_mac_at(42);
    } else if i == 46 {
        lemma_evdev_to_mac_at(38);
    } else if i == 47 {
        lemma_evdev_to_mac_at(39);
    } else if i == 48 {
        lemma_evdev_to_mac_at(40);
    } else if i == 49 {
        lemma_evdev_to_mac_at(50);
    } else if i == 50 {
        lemma_evdev_to_mac_at(51);
    } else if i == 51 {
        lemma_evdev_to_mac_at(52);
    } else if i == 52 {
        lemma_evdev_to_mac_at(57);
    } else if i == 53 {
        lemma_evdev_to_mac_at(58);
    } else if i == 54 {
        lemma_evdev_to_mac_at(59);
    } else if i == 55 {
        lemma_evdev_to_mac_at(60);
    }
}

proof fn lemma_cg_entries_agree_56_70(i: int)
    requires
        56 <= i < 70,
        HID_TO_CG@.len() == 98,
    ensures
        hid_evdev(HID_TO_CG@[i].0 as int) matches Some(e) && e <= 0xFFFF && table_get(EVDEV_TO_MAC@, e as u16) == Some(
            HID_TO_CG@[i].1,
        ),
        HID_TO_CG@[i].1 <= 0x7F,
{
    if i == 56 {
        lemma_evdev_to_mac_at(61);
    } else if i == 57 {
        lemma_evdev_to_mac_at(62);
    } else if i == 58 {
        lemma_evdev_to_mac_at(63);
    } else if i == 59 {
        lemma_evdev_to_mac_at(64);
    } else if i == 60 {
        lemma_evdev_to_mac_at(65);
    } else if i == 61 {
        lemma_evdev_to_mac_at(66);
    } else if i == 62 {
        lemma_evdev_to_mac_at(67);
    } else if i == 63 {
        lemma_evdev_to_mac_at(82);
    } else if i == 64 {
        lemma_evdev_to_mac_at(83);
    } else if i == 65 {
        lemma_evdev_to_mac_at(88);
    } else if i == 66 {
        lemma_evdev_to_mac_at(90);
    } else if i == 67 {
        lemma_evdev_to_mac_at(96);
    } else if i == 68 {
        lemma_evdev_to_mac_at(93);
    } else if i == 69 {
        lemma_evdev_to_mac_at(95);
    }
}

proof fn lemma_cg_entries_agree_70_84(i: int)
    requires
        70 <= i < 84,
        HID_TO_CG@.len() == 98,
    ensures
        hid_evdev(HID_TO_CG@[i].0 as int) matches Some(e) && e <= 0xFFFF && table_get(EVDEV_TO_MAC@, e as u16) == Some(
            HID_TO_CG@[i].1,
        ),
        HID_TO_CG@[i].1 <= 0x7F,
{
    if i == 70 {
        lemma_evdev_to_mac_at(92);
    } else if i == 71 {
        lemma_evdev_to_mac_at(91);
    } else if i == 72 {
        lemma_evdev_to_mac_at(94);
    } else if i == 73 {
        lemma_evdev_to_mac_at(89);
    } else if i == 74 {
        lemma_evdev_to_mac_at(86);
    } else if i == 75 {
        lemma_evdev_to_mac_at(54);
    } else if i == 76 {
        lemma_evdev_to_mac_at(72);
    } else if i == 77 {
        lemma_evdev_to_mac_at(76);
    } else if i == 78 {
        lemma_evdev_to_mac_at(84);
    } else if i == 79 {
        lemma_evdev_to_mac_at(77);
    } else if i == 80 {
        lemma_evdev_to_mac_at(78);
    } else if i == 81 {
        lemma_evdev_to_mac_at(79);
    } else if i == 82 {
        lemma_evdev_to_mac_at(73);
    } else if i == 83 {
        lemma_evdev_to_mac_at(74);
    }
}

proof fn lemma_cg_entries_agree_84_98(i: int)
    requires
        84 <= i < 98,
        HID_TO_CG@.len() == 98,
    ensures
        hid_evdev(HID_TO_CG@[i].0 as int) matches Some(e) && e <= 0xFFFF && table_get(EVDEV_TO_MAC@, e as u16) == Some(
            HID_TO_CG@[i].1,
        ),
        HID_TO_CG@[i].1 <= 0x7F,
{
    if i == 84 {
        lemma_evdev_to_mac_at(75);
    } else if i == 85 {
        lemma_evdev_to_mac_at(69);
    } else if i == 86 {
        lemma_evdev_to_mac_at(70);
    } else if i == 87 {
        lemma_evdev_to_mac_at(71);
    } else if i == 88 {
        lemma_evdev_to_mac_at(80);
    } else if i == 89 {
        lemma_evdev_to_mac_at(81);
    } else if i == 90 {
        lemma_evdev_to_mac_at(28);
    } else if i == 91 {
        lemma_evdev_to_mac_at(41);
    } else if i == 92 {
        lemma_evdev_to_mac_at(55);
    } else if i == 93 {
        lemma_evdev_to_mac_at(102);
    } else if i == 94 {
        lemma_evdev_to_mac_at(85);
    } else if i == 95 {
        lemma_evdev_to_mac_at(53);
    } else if i == 96 {
        lemma_evdev_to_mac_at(87);
    } else if i == 97 {
        lemma_evdev_to_mac_at(103);
    }
}

/// The two keycode tables agree: a HID usage with a macOS keycode has an
/// evdev code, and the evdev table gives that same macOS keycode, which is
/// a 7-bit code.
pub proof fn lemma_cg_table_agrees_with_evdev_table(hid: u16)
    ensures
        table_get(HID_TO_CG@, hid) matches Some(c) ==> (hid_evdev(hid as int) matches Some(e) && e <= 0xFFFF
            && table_get(EVDEV_TO_MAC@, e as u16) == Some(c) && c <= 0x7F),
{
    if table_get(HID_TO_CG@, hid) is Some {
        let i = choose|i: int| 0 <= i < HID_TO_CG@.len() && HID_TO_CG@[i].0 == hid;
        lemma_cg_entry_agrees(i);
    }
}

/// Map a Linux evdev key code to a macOS virtual keycode.
///
/// Returns `None` for keys with no macOS equivalent, which the caller should
/// drop rather than substitute: pressing a wrong key is worse than none.
pub fn evdev_to_mac(evdev: u16) -> (r: Option<u16>)
    ensures
        r == table_get(EVDEV_TO_MAC@, evdev),
{
    proof { lemma_evdev_to_mac_sorted(); }
    lookup_sorted(&EVDEV_TO_MAC, evdev)
}

/// Whether this evdev code is a modifier macOS tracks through event flags.
pub fn is_modifier(evdev: u16) -> (r: bool)
    ensures
        r == MODIFIER_EVDEV@.contains(evdev),
{
    let mut i: usize = 0;
    while i < 9
        invariant
            0 <= i <= 9,
            forall|j: int| 0 <= j < i ==> MODIFIER_EVDEV@[j] != evdev,
        decreases 9 - i,
    {
        if MODIFIER_EVDEV[i] == evdev {
            assert(MODIFIER_EVDEV@[i as int] == evdev);
            return true;
        }
        i = i + 1;
    }
    false
}

/// The `CGEventFlags` bit a modifier key contributes, if any.
pub open spec fn mac_flag(evdev: u16) -> Option<u64> {
    if evdev == 42 || evdev == 54 {
        Some(FLAG_SHIFT)
    } else if evdev == 29 || evdev == 97 {
        Some(FLAG_CONTROL)
    } else if evdev == 56 || evdev == 100 {
        Some(FLAG_ALTERNATE)
    } else if evdev == 125 || evdev == 126 {
        Some(FLAG_COMMAND)
    } else if evdev == 58 {
        Some(FLAG_ALPHA_SHIFT)
    } else {
        None
    }
}

/// The `CGEventFlags` bit a modifier key contributes, if any.
pub fn mac_flag_for(evdev: u16) -> (r: Option<u64>)
    ensures
        r == mac_flag(evdev),
{
    match evdev {
        42 | 54 => Some(FLAG_SHIFT),
        29 | 97 => Some(FLAG_CONTROL),
        56 | 100 => Some(FLAG_ALTERNATE),
        125 | 126 => Some(FLAG_COMMAND),
        58 => Some(FLAG_ALPHA_SHIFT),
        _ => None,
    }
}

/// Exactly the modifier keys carry a flag.
pub proof fn lemma_flag_iff_modifier(evdev: u16)
    ensures
        mac_flag(evdev) is Some <==> MODIFIER_EVDEV@.contains(evdev),
{
    if MODIFIER_EVDEV@.contains(evdev) {
        let j = choose|j: int| 0 <= j < MODIFIER_EVDEV@.len() && MODIFIER_EVDEV@[j] == evdev;
        assert(0 <= j < 9);
    }
    if mac_flag(evdev) is Some {
        if evdev == 29 { assert(MODIFIER_EVDEV@[0] == evdev); }
        if evdev == 42 { assert(MODIFIER_EVDEV@[1] == evdev); }
        if evdev == 54 { assert(MODIFIER_EVDEV@[2] == evdev); }
        if evdev == 56 { assert(MODIFIER_EVDEV@[3] == evdev); }
        if evdev == 58 { assert(MODIFIER_EVDEV@[4] == evdev); }
        if evdev == 97 { assert(MODIFIER_EVDEV@[5] == evdev); }
        if evdev == 100 { assert(MODIFIER_EVDEV@[6] == evdev); }
        if evdev == 125 { assert(MODIFIER_EVDEV@[7] == evdev); }
        if evdev == 126 { assert(MODIFIER_EVDEV@[8] == evdev); }
    }
}

/// The flags after one key transition: a modifier's bit is set on press and
/// cleared on release; any other key leaves the flags as they were.
pub open spec fn after_key(held: u64, evdev: u16, pressed: bool) -> u64 {
    match mac_flag(evdev) {
        Some(bit) => if pressed { held | bit } else { held & !bit },
        None => held,
    }
}

/// Tracks which modifiers are held so injected events carry the right flags.
///
/// macOS will not infer this: posting the `A` keycode while Shift is down
/// produces a lowercase `a` unless the event itself carries the shift flag.
#[derive(Debug, Clone, Copy, PartialEq, Eq, Structural)]
pub struct ModifierState {
    held: u64,
}

impl ModifierState {
    /// The flag bits currently held.
    pub closed spec fn bits(self) -> u64 {
        self.held
    }

    pub fn new() -> (r: ModifierState)
        ensures
            r.bits() == 0,
    {
        ModifierState { held: 0 }
    }

    /// Record a modifier transition. Non-modifier keys leave the state untouched.
    pub fn update(&mut self, evdev: u16, pressed: bool)
        ensures
            final(self).bits() == after_key(old(self).bits(), evdev, pressed),
    {
        let bit = match mac_flag_for(evdev) {
            Some(b) => b,
            None => return,
        };
        if pressed {
            self.held = self.held | bit;
        } else {
            self.held = self.held & !bit;
        }
    }

    /// Current flag bits to stamp onto an outgoing event.
    pub fn flags(self) -> (r: u64)
        ensures
            r == self.bits(),
    {
        self.held
    }

    /// Drop every held modifier.
    pub fn clear(&mut self)
        ensures
            final(self).bits() == 0,
    {
        self.held = 0;
    }
}

impl Default for ModifierState {
    fn default() -> (r: ModifierState)
        ensures
            r.bits() == 0,
    {
        ModifierState { held: 0 }
    }
}

/// After a modifier key goes down its flag is set, and after it comes up its
/// flag is clear, whatever was held before; the other bits are untouched.
/// Left and right keys share one flag, so releasing either clears it.
pub proof fn lemma_modifier_transition(held: u64, evdev: u16, pressed: bool)
    requires
        mac_flag(evdev) is Some,
    ensures
        ({
            let bit = mac_flag(evdev)->0;
            let after = after_key(held, evdev, pressed);
            &&& pressed ==> after & bit == bit
            &&& !pressed ==> after & bit == 0
            &&& after & !bit == held & !bit
        }),
{
    let bit = mac_flag(evdev)->0;
    if pressed {
        assert((held | bit) & bit == bit && (held | bit) & !bit == held & !bit) by (bit_vector);
    } else {
        assert((held & !bit) & bit == 0 && (held & !bit) & !bit == held & !bit) by (bit_vector);
    }
}

/// Keys that are not modifiers never change the flags.
pub proof fn lemma_non_modifier_keeps_flags(held: u64, evdev: u16, pressed: bool)
    requires
        !MODIFIER_EVDEV@.contains(evdev),
    ensures
        after_key(held, evdev, pressed) == held,
{
    lemma_flag_iff_modifier(evdev);
}

/// Pressing and then releasing a modifier whose flag was clear leaves the
/// flags exactly as they were.
pub proof fn lemma_press_release_restores(held: u64, evdev: u16, other: u16)
    requires
        mac_flag(evdev) is Some,
        mac_flag(other) == mac_flag(evdev),
        held & mac_flag(evdev)->0 == 0,
    ensures
        after_key(after_key(held, evdev, true), other, false) == held,
{
    let bit = mac_flag(evdev)->0;
    assert(held & bit == 0 ==> (held | bit) & !bit == held) by (bit_vector);
}

} // verus!
