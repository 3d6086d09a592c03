use wayflow::keymap::{evdev_to_hid, hid_to_cg_keycode, hid_to_evdev, hid_to_rdev, rdev_to_hid, Key};
use wayflow::keymap_mac::{
    evdev_to_mac, is_modifier, mac_flag_for, ModifierState, EVDEV_TO_MAC, FLAG_COMMAND, FLAG_CONTROL,
    FLAG_SHIFT,
};

// ---- HID <-> evdev ----

#[test]
fn keymap_key_a_roundtrip() {
    assert_eq!(hid_to_evdev(0x04), Some(30));
    assert_eq!(evdev_to_hid(30), Some(0x04));
}

#[test]
fn enter_roundtrip() {
    assert_eq!(hid_to_evdev(0x28), Some(28));
    assert_eq!(evdev_to_hid(28), Some(0x28));
}

#[test]
fn escape_roundtrip() {
    assert_eq!(hid_to_evdev(0x29), Some(1));
    assert_eq!(evdev_to_hid(1), Some(0x29));
}

#[test]
fn f1_roundtrip() {
    assert_eq!(hid_to_evdev(0x3A), Some(59));
    assert_eq!(evdev_to_hid(59), Some(0x3A));
}

#[test]
fn f12_roundtrip() {
    assert_eq!(hid_to_evdev(0x45), Some(88));
    assert_eq!(evdev_to_hid(88), Some(0x45));
}

#[test]
fn arrow_keys_roundtrip() {
    assert_eq!(hid_to_evdev(0x4F), Some(106));
    assert_eq!(hid_to_evdev(0x50), Some(105));
    assert_eq!(hid_to_evdev(0x51), Some(108));
    assert_eq!(hid_to_evdev(0x52), Some(103));
}

#[test]
fn left_ctrl_roundtrip() {
    assert_eq!(hid_to_evdev(0xE0), Some(29));
    assert_eq!(evdev_to_hid(29), Some(0xE0));
}

#[test]
fn left_shift_roundtrip() {
    assert_eq!(hid_to_evdev(0xE1), Some(42));
    assert_eq!(evdev_to_hid(42), Some(0xE1));
}

#[test]
fn left_meta_roundtrip() {
    assert_eq!(hid_to_evdev(0xE3), Some(125));
    assert_eq!(evdev_to_hid(125), Some(0xE3));
}

#[test]
fn right_alt_roundtrip() {
    assert_eq!(hid_to_evdev(0xE6), Some(100));
    assert_eq!(evdev_to_hid(100), Some(0xE6));
}

#[test]
fn keymap_unmapped_hid_returns_none() {
    assert_eq!(hid_to_evdev(0x00), None);
    assert_eq!(hid_to_evdev(0x01), None);
    assert_eq!(hid_to_evdev(0xA0), None);
    assert_eq!(hid_to_evdev(0xFF), None);
    assert_eq!(hid_to_cg_keycode(0x00), None);
    assert_eq!(hid_to_cg_keycode(0x53), None);
    assert_eq!(hid_to_cg_keycode(0xFF), None);
}

#[test]
fn unmapped_evdev_returns_none() {
    assert_eq!(evdev_to_hid(0), None);
    assert_eq!(evdev_to_hid(255), None);
}

#[test]
fn hid_out_of_range_returns_none() {
    assert_eq!(hid_to_evdev(256), None);
    assert_eq!(hid_to_evdev(u32::MAX), None);
}

#[test]
fn keymap_numpad_roundtrip() {
    assert_eq!(hid_to_evdev(0x59), Some(79));
    assert_eq!(hid_to_evdev(0x62), Some(82));
    assert_eq!(hid_to_evdev(0x63), Some(83));
}

#[test]
fn space_roundtrip() {
    assert_eq!(hid_to_evdev(0x2C), Some(57));
    assert_eq!(evdev_to_hid(57), Some(0x2C));
}

#[test]
fn every_evdev_code_of_a_usage_maps_back_to_a_usage() {
    for hid in 0u32..256 {
        if let Some(ev) = hid_to_evdev(hid) {
            let back = evdev_to_hid(ev).expect("evdev code of a usage has a usage");
            assert_eq!(hid_to_evdev(back), Some(ev));
        }
    }
}

// ---- HID <-> hook keys ----

#[test]
fn key_a_roundtrip() {
    assert_eq!(rdev_to_hid(Key::KeyA), Some(0x04));
    assert_eq!(hid_to_rdev(0x04), Some(Key::KeyA));
}

#[test]
fn all_letters_roundtrip() {
    let letters = [
        Key::KeyA, Key::KeyB, Key::KeyC, Key::KeyD, Key::KeyE, Key::KeyF, Key::KeyG, Key::KeyH,
        Key::KeyI, Key::KeyJ, Key::KeyK, Key::KeyL, Key::KeyM, Key::KeyN, Key::KeyO, Key::KeyP,
        Key::KeyQ, Key::KeyR, Key::KeyS, Key::KeyT, Key::KeyU, Key::KeyV, Key::KeyW, Key::KeyX,
        Key::KeyY, Key::KeyZ,
    ];
    for key in letters {
        let hid = rdev_to_hid(key).unwrap_or_else(|| panic!("{key:?} missing"));
        let back = hid_to_rdev(hid).unwrap_or_else(|| panic!("hid {hid:#x} missing"));
        assert_eq!(back, key, "roundtrip failed for {key:?}");
    }
}

#[test]
fn digits_roundtrip() {
    for key in [
        Key::Num1, Key::Num2, Key::Num3, Key::Num4, Key::Num5, Key::Num6, Key::Num7, Key::Num8,
        Key::Num9, Key::Num0,
    ] {
        let hid = rdev_to_hid(key).unwrap();
        assert_eq!(hid_to_rdev(hid), Some(key));
    }
}

#[test]
fn function_keys_roundtrip() {
    for key in [
        Key::F1, Key::F2, Key::F3, Key::F4, Key::F5, Key::F6, Key::F7, Key::F8, Key::F9, Key::F10,
        Key::F11, Key::F12,
    ] {
        let hid = rdev_to_hid(key).unwrap();
        assert_eq!(hid_to_rdev(hid), Some(key));
    }
}

#[test]
fn modifiers_roundtrip() {
    for key in [
        Key::ControlLeft, Key::ControlRight, Key::ShiftLeft, Key::ShiftRight, Key::Alt, Key::AltGr,
        Key::MetaLeft, Key::MetaRight,
    ] {
        let hid = rdev_to_hid(key).unwrap();
        assert_eq!(hid_to_rdev(hid), Some(key));
    }
}

#[test]
fn nav_keys_roundtrip() {
    for key in [
        Key::UpArrow, Key::DownArrow, Key::LeftArrow, Key::RightArrow, Key::Home, Key::End,
        Key::PageUp, Key::PageDown, Key::Insert, Key::Delete,
    ] {
        let hid = rdev_to_hid(key).unwrap();
        assert_eq!(hid_to_rdev(hid), Some(key));
    }
}

#[test]
fn numpad_roundtrip() {
    for key in [
        Key::Kp0, Key::Kp1, Key::Kp2, Key::Kp3, Key::Kp4, Key::Kp5, Key::Kp6, Key::Kp7, Key::Kp8,
        Key::Kp9, Key::KpReturn, Key::KpPlus, Key::KpMinus, Key::KpMultiply, Key::KpDivide,
        Key::KpDelete,
    ] {
        let hid = rdev_to_hid(key).unwrap();
        assert_eq!(hid_to_rdev(hid), Some(key));
    }
}

#[test]
fn function_key_returns_none() {
    assert_eq!(rdev_to_hid(Key::Function), None);
}

#[test]
fn unknown_key_returns_none() {
    assert_eq!(rdev_to_hid(Key::Unknown(0xDEAD)), None);
}

#[test]
fn rdev_unmapped_hid_returns_none() {
    assert_eq!(hid_to_rdev(0x00), None);
    assert_eq!(hid_to_rdev(0xA0), None);
    assert_eq!(hid_to_rdev(0xFF), None);
    assert_eq!(hid_to_rdev(u32::MAX), None);
}

#[test]
fn intl_backslash_maps_to_0x64() {
    assert_eq!(rdev_to_hid(Key::IntlBackslash), Some(0x64));
    assert_eq!(hid_to_rdev(0x64), Some(Key::IntlBackslash));
}

#[test]
fn hid_0x32_maps_to_backslash() {
    assert_eq!(hid_to_rdev(0x32), Some(Key::BackSlash));
}

// ---- HID -> macOS virtual keycodes ----

#[test]
fn modifiers_have_cg_codes() {
    assert_eq!(hid_to_cg_keycode(0xE0), Some(0x3B));
    assert_eq!(hid_to_cg_keycode(0xE1), Some(0x38));
    assert_eq!(hid_to_cg_keycode(0xE2), Some(0x3A));
    assert_eq!(hid_to_cg_keycode(0xE3), Some(0x37));
}

#[test]
fn alpha_have_cg_codes() {
    assert_eq!(hid_to_cg_keycode(0x04), Some(0x00));
    assert_eq!(hid_to_cg_keycode(0x08), Some(0x0E));
    assert_eq!(hid_to_cg_keycode(0x1D), Some(0x06));
}

#[test]
fn unmapped_hid_returns_none() {
    assert_eq!(hid_to_cg_keycode(0x00), None);
    assert_eq!(hid_to_cg_keycode(0x53), None);
    assert_eq!(hid_to_cg_keycode(0xFF), None);
}

#[test]
fn cg_keycode_out_of_u16_range_is_none() {
    assert_eq!(hid_to_cg_keycode(0x1_0004), None);
    assert_eq!(hid_to_cg_keycode(u32::MAX), None);
}

// ---- evdev -> macOS ----

#[test]
fn table_is_sorted_and_unique() {
    let keys: Vec<u16> = EVDEV_TO_MAC.iter().map(|&(k, _)| k).collect();
    let mut sorted = keys.clone();
    sorted.sort_unstable();
    sorted.dedup();
    assert_eq!(keys, sorted, "evdev keys must be sorted and unique");
}

#[test]
fn letters_map_to_their_mac_positions() {
    assert_eq!(evdev_to_mac(30), Some(0x00));
    assert_eq!(evdev_to_mac(17), Some(0x0D));
    assert_eq!(evdev_to_mac(44), Some(0x06));
}

#[test]
fn mac_digit_order_is_not_sequential() {
    assert_eq!(evdev_to_mac(6), Some(0x17));
    assert_eq!(evdev_to_mac(7), Some(0x16));
}

#[test]
fn unmapped_keys_are_dropped_not_guessed() {
    assert_eq!(evdev_to_mac(0), None);
    assert_eq!(evdev_to_mac(9999), None);
}

#[test]
fn every_mapped_key_has_a_plausible_mac_code() {
    for &(evdev, mac) in EVDEV_TO_MAC.iter() {
        assert!(mac <= 0x7F, "evdev {evdev} maps to out-of-range {mac:#x}");
    }
}

#[test]
fn every_table_entry_is_found_by_lookup() {
    for &(evdev, mac) in EVDEV_TO_MAC.iter() {
        assert_eq!(evdev_to_mac(evdev), Some(mac));
    }
}

#[test]
fn modifier_keys_are_recognised() {
    for code in [29u16, 42, 54, 56, 58, 97, 100, 125, 126] {
        assert!(is_modifier(code), "{code} is a modifier");
        assert!(mac_flag_for(code).is_some());
    }
    assert!(!is_modifier(30));
    assert_eq!(mac_flag_for(30), None);
    assert_eq!(mac_flag_for(54), Some(FLAG_SHIFT));
    assert_eq!(mac_flag_for(126), Some(FLAG_COMMAND));
}

#[test]
fn modifier_state_tracks_press_and_release() {
    let mut mods = ModifierState::new();
    assert_eq!(mods.flags(), 0);
    mods.update(42, true);
    assert_eq!(mods.flags(), FLAG_SHIFT);
    mods.update(29, true);
    assert_eq!(mods.flags(), FLAG_SHIFT | FLAG_CONTROL);
    mods.update(42, false);
    assert_eq!(mods.flags(), FLAG_CONTROL);
}

#[test]
fn either_shift_releases_the_same_bit() {
    let mut mods = ModifierState::new();
    mods.update(42, true);
    mods.update(54, false);
    assert_eq!(mods.flags(), 0, "shift should not be stuck");
}

#[test]
fn non_modifiers_do_not_disturb_state() {
    let mut mods = ModifierState::new();
    mods.update(42, true);
    mods.update(30, true);
    mods.update(30, false);
    assert_eq!(mods.flags(), FLAG_SHIFT);
}

#[test]
fn clear_drops_everything() {
    let mut mods = ModifierState::new();
    mods.update(125, true);
    mods.update(42, true);
    mods.clear();
    assert_eq!(mods.flags(), 0);
}

#[test]
fn modifier_state_default_is_empty() {
    assert_eq!(ModifierState::default().flags(), 0);
}

#[test]
fn every_usage_with_a_key_converts_back() {
    for h in 0u32..256 {
        if let Some(k) = hid_to_rdev(h) {
            let back = if h == 0x32 { 0x31 } else { h };
            assert_eq!(rdev_to_hid(k), Some(back), "usage {h:#x}");
        }
    }
    assert_eq!(rdev_to_hid(Key::Function), None);
    assert_eq!(rdev_to_hid(Key::Unknown(7)), None);
}

#[test]
fn cg_table_agrees_with_evdev_table() {
    for h in 0u32..256 {
        if let Some(c) = hid_to_cg_keycode(h) {
            let e = hid_to_evdev(h).expect("usage with a macOS keycode has an evdev code");
            assert_eq!(evdev_to_mac(e as u16), Some(c), "usage {h:#x}");
            assert!(c <= 0x7F);
        }
    }
}
