use wayflow::capture::{
    backend, build_barriers, dir_for_barrier, ei_interfaces, evdev_to_mouse_button, has_left_neighbor,
    has_right_neighbor, modifier_hid_codes, xkb_mods_to_proto, KeyTracker, NudgeDir, Region,
};
use wayflow::keymap::Key;
use wayflow::proto::{Modifiers, MouseButton};
use wayflow::rdev_capture::{button_event, key_event, rdev_button_to_proto, update_modifiers, Button};
use wayflow::router::RouteEvent;
use wayflow::wlr_capture::{
    monitor_layout, nudge_coordinate, output_strips, Activation, Crossing, Edge, OutputInfo, Phase, ReleaseStep,
};

#[test]
fn linux_wayland_backend_fn_returns_capture() {
    let _b = backend();
}

#[test]
fn evdev_to_mouse_button_known() {
    assert!(matches!(evdev_to_mouse_button(0x110), MouseButton::Left));
    assert!(matches!(evdev_to_mouse_button(0x111), MouseButton::Right));
    assert!(matches!(evdev_to_mouse_button(0x112), MouseButton::Middle));
    assert!(matches!(evdev_to_mouse_button(0x113), MouseButton::Back));
    assert!(matches!(evdev_to_mouse_button(0x114), MouseButton::Forward));
}

#[test]
fn evdev_to_mouse_button_unknown() {
    assert!(matches!(evdev_to_mouse_button(0x115), MouseButton::Other(_)));
    assert_eq!(evdev_to_mouse_button(0x115), MouseButton::Other(0x15));
}

#[test]
fn xkb_mods_shift_only() {
    let m = xkb_mods_to_proto(0x01);
    assert!(m.shift && !m.ctrl && !m.alt && !m.meta);
}

#[test]
fn xkb_mods_all() {
    let m = xkb_mods_to_proto(0x01 | 0x04 | 0x08 | 0x40);
    assert!(m.shift && m.ctrl && m.alt && m.meta);
}

#[test]
fn xkb_mods_none() {
    let m = xkb_mods_to_proto(0x00);
    assert!(!m.shift && !m.ctrl && !m.alt && !m.meta);
}

#[test]
fn xkb_lock_and_other_bits_are_not_modifiers() {
    let m = xkb_mods_to_proto(0x02 | 0x10 | 0x80);
    assert_eq!(m, Modifiers::default());
}

#[test]
fn modifier_codes_follow_the_held_mask() {
    let all = Modifiers { shift: true, ctrl: true, alt: true, meta: true };
    assert_eq!(modifier_hid_codes(all), vec![0xE1, 0xE0, 0xE2, 0xE3]);
    assert_eq!(modifier_hid_codes(Modifiers { alt: true, ..Modifiers::default() }), vec![0xE2]);
    assert!(modifier_hid_codes(Modifiers::default()).is_empty());
}

#[test]
fn ei_interfaces_asks_for_device_version_two() {
    let m = ei_interfaces();
    assert_eq!(m.len(), 10);
    assert_eq!(m[0], ("ei_connection", 1));
    assert!(m.contains(&("ei_device", 2)));
    assert!(m.contains(&("ei_keyboard", 1)));
}

#[test]
fn build_barriers_empty_regions() {
    let barriers = build_barriers(&vec![]);
    assert!(barriers.is_empty());
}

fn region(x: i32, y: i32, w: u32, h: u32) -> Region {
    Region { x, y, width: w, height: h }
}

#[test]
fn single_region_gets_four_barriers() {
    let rs = vec![region(0, 0, 1920, 1080)];
    let b = build_barriers(&rs);
    assert_eq!(b.len(), 4);
    assert_eq!((b[0].id, b[0].x1, b[0].y1, b[0].x2, b[0].y2, b[0].dir), (1, 1919, 0, 1919, 1079, NudgeDir::Right));
    assert_eq!((b[1].id, b[1].x1, b[1].y1, b[1].x2, b[1].y2, b[1].dir), (2, 0, 0, 0, 1079, NudgeDir::Left));
    assert_eq!((b[2].id, b[2].x1, b[2].y1, b[2].x2, b[2].y2, b[2].dir), (3, 0, 1079, 1919, 1079, NudgeDir::Bottom));
    assert_eq!((b[3].id, b[3].x1, b[3].y1, b[3].x2, b[3].y2, b[3].dir), (4, 0, 0, 1919, 0, NudgeDir::Top));
    assert_eq!(dir_for_barrier(&b, 3), Some(NudgeDir::Bottom));
    assert_eq!(dir_for_barrier(&b, 9), None);
}

#[test]
fn internal_seam_gets_no_barrier() {
    let rs = vec![region(0, 0, 2560, 1440), region(2560, 0, 1920, 1080)];
    assert!(has_right_neighbor(&rs, rs[0]));
    assert!(has_left_neighbor(&rs, rs[1]));
    assert!(!has_left_neighbor(&rs, rs[0]));
    let b = build_barriers(&rs);
    assert_eq!(b.len(), 6);
    let ids: Vec<u32> = b.iter().map(|x| x.id).collect();
    assert_eq!(ids, vec![1, 2, 3, 4, 5, 6]);
    assert!(!b.iter().any(|x| x.dir == NudgeDir::Right && x.x1 == 2559));
    assert!(!b.iter().any(|x| x.dir == NudgeDir::Left && x.x1 == 2560));
}

#[test]
fn activation_synthesizes_held_modifiers_once() {
    let mut t = KeyTracker::new();
    t.set_modifiers(0x01 | 0x04);
    let presses = t.activate();
    let m = Modifiers { shift: true, ctrl: true, ..Modifiers::default() };
    assert_eq!(
        presses,
        vec![
            RouteEvent::Key { keycode: 0xE1, pressed: true, modifiers: m },
            RouteEvent::Key { keycode: 0xE0, pressed: true, modifiers: m },
        ]
    );
    assert!(t.is_active());
    let again = t.activate();
    assert!(again.is_empty());
}

#[test]
fn deactivation_releases_everything_held() {
    let mut t = KeyTracker::new();
    t.set_modifiers(0x01);
    t.activate();
    assert_eq!(t.key(30, true), Some(RouteEvent::Key { keycode: 0x04, pressed: true, modifiers: Modifiers { shift: true, ..Modifiers::default() } }));
    let releases = t.deactivate();
    let none = Modifiers::default();
    assert_eq!(
        releases,
        vec![
            RouteEvent::Key { keycode: 0xE1, pressed: false, modifiers: none },
            RouteEvent::Key { keycode: 0x04, pressed: false, modifiers: none },
        ]
    );
    assert!(!t.is_active());
    assert!(t.deactivate().is_empty());
}

#[test]
fn keys_are_ignored_while_inactive_or_unmapped() {
    let mut t = KeyTracker::new();
    assert_eq!(t.key(30, true), None);
    t.activate();
    assert_eq!(t.key(0, true), None);
    assert_eq!(t.key(30, true).is_some(), true);
    assert_eq!(t.key(30, false), Some(RouteEvent::Key { keycode: 0x04, pressed: false, modifiers: Modifiers::default() }));
    assert!(t.deactivate().is_empty());
}

#[test]
fn edge_variants_are_distinct() {
    assert_ne!(Edge::Left, Edge::Right);
    assert_ne!(Edge::Top, Edge::Bottom);
}

#[test]
fn outputs_publish_only_when_complete() {
    let a = OutputInfo { x: 0, y: 0, width: 2560, height: 1440, done: true };
    let b = OutputInfo { x: 2560, y: 0, width: 1920, height: 1080, done: false };
    assert!(monitor_layout(&vec![a, b]).is_none());
    assert!(monitor_layout(&vec![]).is_none());
    let b = OutputInfo { done: true, ..b };
    let screens = monitor_layout(&vec![a, b]).unwrap();
    assert_eq!(screens.len(), 2);
    assert_eq!(screens[0].name, "output-0");
    assert_eq!(screens[1].name, "output-1");
    assert_eq!((screens[1].x, screens[1].width, screens[1].height), (2560, 1920, 1080));
}

#[test]
fn strips_cover_all_four_edges() {
    let s = output_strips();
    assert_eq!(s.len(), 4);
    assert_eq!((s[0].edge, s[0].width, s[0].height), (Edge::Right, 1, 0));
    assert_eq!((s[3].edge, s[3].width, s[3].height), (Edge::Bottom, 0, 1));
}

#[test]
fn release_nudges_five_pixels_inside() {
    let o = OutputInfo { x: 100, y: 50, width: 1920, height: 1080, done: true };
    assert_eq!(nudge_coordinate(&o, Edge::Right), 2015);
    assert_eq!(nudge_coordinate(&o, Edge::Left), 105);
    assert_eq!(nudge_coordinate(&o, Edge::Bottom), 1125);
    assert_eq!(nudge_coordinate(&o, Edge::Top), 55);
}

#[test]
fn refused_crossing_never_builds_an_overlay() {
    let mut a = Activation::new();
    assert!(a.on_crossing(Edge::Right, 0));
    assert_eq!(a.on_release(), ReleaseStep::DiscardCrossing);
    assert_eq!(a.take_crossing(false), None);
    assert_eq!(a.phase, Phase::Idle);
}

#[test]
fn accepted_crossing_builds_an_overlay_and_release_ends_it() {
    let mut a = Activation::new();
    assert!(a.on_crossing(Edge::Left, 1));
    assert!(!a.on_crossing(Edge::Right, 0));
    assert_eq!(a.take_crossing(false), Some(Crossing { edge: Edge::Left, output: 1 }));
    a.overlay_created();
    assert_eq!(a.phase, Phase::Active);
    assert!(!a.on_crossing(Edge::Left, 1));
    assert_eq!(a.on_release(), ReleaseStep::ReleaseCapture);
    assert_eq!(a.phase, Phase::Idle);
    assert_eq!(a.on_release(), ReleaseStep::Nothing);
}

#[test]
fn pending_release_discards_the_crossing() {
    let mut a = Activation::new();
    a.on_crossing(Edge::Top, 0);
    assert_eq!(a.take_crossing(true), None);
    assert_eq!(a.deferred, None);
}

#[test]
fn rdev_backend_backend_fn_returns_capture() {
    let _b = wayflow::rdev_capture::backend();
}

#[test]
fn rdev_button_all_known() {
    assert!(matches!(rdev_button_to_proto(Button::Left), MouseButton::Left));
    assert!(matches!(rdev_button_to_proto(Button::Right), MouseButton::Right));
    assert!(matches!(rdev_button_to_proto(Button::Middle), MouseButton::Middle));
    assert!(matches!(rdev_button_to_proto(Button::Unknown(4)), MouseButton::Back));
    assert!(matches!(rdev_button_to_proto(Button::Unknown(5)), MouseButton::Forward));
    assert!(matches!(rdev_button_to_proto(Button::Unknown(9)), MouseButton::Other(9)));
}

#[test]
fn update_modifiers_shift() {
    let mut m = Modifiers::default();
    update_modifiers(&mut m, Key::ShiftLeft, true);
    assert!(m.shift && !m.ctrl && !m.alt && !m.meta);
    update_modifiers(&mut m, Key::ShiftLeft, false);
    assert!(!m.shift);
}

#[test]
fn update_modifiers_ctrl() {
    let mut m = Modifiers::default();
    update_modifiers(&mut m, Key::ControlRight, true);
    assert!(m.ctrl);
}

#[test]
fn update_modifiers_alt() {
    let mut m = Modifiers::default();
    update_modifiers(&mut m, Key::Alt, true);
    assert!(m.alt);
    update_modifiers(&mut m, Key::AltGr, true);
    assert!(m.alt);
}

#[test]
fn update_modifiers_meta() {
    let mut m = Modifiers::default();
    update_modifiers(&mut m, Key::MetaLeft, true);
    assert!(m.meta);
}

#[test]
fn update_modifiers_non_modifier_key_no_change() {
    let mut m = Modifiers { shift: true, ..Modifiers::default() };
    update_modifiers(&mut m, Key::KeyA, true);
    assert!(m.shift);
}

#[test]
fn hooked_keys_carry_the_right_modifiers() {
    let mut m = Modifiers::default();
    let press = key_event(&mut m, Key::ShiftLeft, true);
    let shift = Modifiers { shift: true, ..Modifiers::default() };
    assert_eq!(press, Some(RouteEvent::Key { keycode: 0xE1, pressed: true, modifiers: shift }));
    let release = key_event(&mut m, Key::ShiftLeft, false);
    assert_eq!(release, Some(RouteEvent::Key { keycode: 0xE1, pressed: false, modifiers: shift }));
    assert_eq!(m, Modifiers::default());
    assert_eq!(key_event(&mut m, Key::Function, true), None);
    assert_eq!(
        button_event(Button::Unknown(4), true),
        RouteEvent::MouseButton { button: MouseButton::Back, pressed: true }
    );
}
