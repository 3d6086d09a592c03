use wayflow::inject_mac::{
    is_modifier_cg_keycode, key_route, leave_keys, map_button, modifiers_to_cg_flags, next_click_count, quartz_button,
    scroll_lines, KeyRoute, QuartzButton, CG_FLAG_ALTERNATE, CG_FLAG_COMMAND, CG_FLAG_CONTROL, CG_FLAG_SHIFT,
};
use wayflow::keymap::Key;
use wayflow::proto::{Modifiers, MouseButton};
use wayflow::rdev_capture::Button;
use wayflow::text::{hex_string, sort_strings, str_eq, str_lex_lt};

#[test]
fn hex_labels() {
    assert_eq!(hex_string(0), "0x0");
    assert_eq!(hex_string(0xE2), "0xE2");
    assert_eq!(hex_string(0x4), "0x4");
    assert_eq!(hex_string(u64::MAX), "0xFFFFFFFFFFFFFFFF");
}

#[test]
fn lexicographic_order() {
    assert!(str_lex_lt("0x1F", "0x4"));
    assert!(str_lex_lt("ab", "abc"));
    assert!(!str_lex_lt("abc", "ab"));
    assert!(!str_lex_lt("same", "same"));
    assert!(str_eq("same", "same"));
    assert!(!str_eq("same", "Same"));
    let sorted = sort_strings(&vec!["b".to_string(), "a".to_string(), "ab".to_string(), "a".to_string()]);
    assert_eq!(sorted, vec!["a", "a", "ab", "b"]);
}

#[test]
fn cg_flags() {
    assert_eq!(modifiers_to_cg_flags(Modifiers::default()), 0);
    assert_eq!(modifiers_to_cg_flags(Modifiers { shift: true, meta: true, ..Modifiers::default() }), CG_FLAG_SHIFT | CG_FLAG_COMMAND);
    assert_eq!(
        modifiers_to_cg_flags(Modifiers { shift: true, ctrl: true, alt: true, meta: true }),
        CG_FLAG_SHIFT | CG_FLAG_CONTROL | CG_FLAG_ALTERNATE | CG_FLAG_COMMAND
    );
}

#[test]
fn cg_modifier_keycodes() {
    for k in 0x36u16..=0x3E {
        assert!(is_modifier_cg_keycode(k));
    }
    // Every HID modifier usage maps to a modifier keycode.
    for h in 0xE0u32..=0xE7 {
        let c = wayflow::keymap::hid_to_cg_keycode(h).unwrap();
        assert!(is_modifier_cg_keycode(c));
    }
    assert!(!is_modifier_cg_keycode(0x35));
    assert!(!is_modifier_cg_keycode(0x3F));
    assert!(!is_modifier_cg_keycode(0x00));
}

#[test]
fn key_routes() {
    assert_eq!(key_route(0x04, true), KeyRoute::Quartz(0x00));
    assert_eq!(key_route(0x04, false), KeyRoute::Hook(Key::KeyA));
    assert_eq!(key_route(0x53, true), KeyRoute::Hook(Key::NumLock));
    assert_eq!(key_route(0xA0, true), KeyRoute::Skip);
    assert_eq!(key_route(u32::MAX, false), KeyRoute::Skip);
}

#[test]
fn map_button_all_variants() {
    assert_eq!(map_button(MouseButton::Left), Button::Left);
    assert_eq!(map_button(MouseButton::Right), Button::Right);
    assert_eq!(map_button(MouseButton::Middle), Button::Middle);
    assert_eq!(map_button(MouseButton::Back), Button::Unknown(4));
    assert_eq!(map_button(MouseButton::Forward), Button::Unknown(5));
    assert_eq!(map_button(MouseButton::Other(9)), Button::Unknown(9));
}

#[test]
fn click_counting() {
    assert_eq!(next_click_count(None, true, MouseButton::Left, 0), 1);
    assert_eq!(next_click_count(Some(MouseButton::Left), true, MouseButton::Left, 1), 2);
    assert_eq!(next_click_count(Some(MouseButton::Left), true, MouseButton::Left, 3), 3);
    assert_eq!(next_click_count(Some(MouseButton::Left), false, MouseButton::Left, 2), 1);
    assert_eq!(next_click_count(Some(MouseButton::Right), true, MouseButton::Left, 2), 1);
}

#[test]
fn scroll_in_lines() {
    assert_eq!(scroll_lines(0, 0), None);
    assert_eq!(scroll_lines(1, -2), Some((-6, 3)));
}

#[test]
fn quartz_leave_releases_modifiers() {
    assert_eq!(leave_keys(), vec![0x3B, 0x38, 0x3C, 0x3A, 0x3E, 0x3D, 0x37, 0x36]);
    assert_eq!(quartz_button(272), Some(QuartzButton::Left));
    assert_eq!(quartz_button(274), Some(QuartzButton::Center));
    assert_eq!(quartz_button(275), None);
}
