use wayflow::probe::{candidates, default_paths, kind_label, mono_epoch_unix_ns, saturating_u64, DeviceInfo, EventNumbering};
use wayflow::proto::{LinuxEvent, Platform, WindowsEvent};

fn dev(path: &str, key_a: bool, rel_x: bool, btn_left: bool) -> DeviceInfo {
    DeviceInfo { path: path.into(), name: format!("dev {path}"), has_key_a: key_a, has_rel_x: rel_x, has_btn_left: btn_left }
}

#[test]
fn devices_are_classified_by_capability_and_sorted() {
    let found = candidates(&vec![
        dev("/dev/input/event7", false, false, false),
        dev("/dev/input/event10", true, false, false),
        dev("/dev/input/event2", false, true, false),
        dev("/dev/input/event3", false, false, true),
    ]);
    let paths: Vec<&str> = found.iter().map(|c| c.path.as_str()).collect();
    assert_eq!(paths, vec!["/dev/input/event10", "/dev/input/event2", "/dev/input/event3", "/dev/input/event7"]);
    assert!(found[0].keyboard && !found[0].pointer);
    assert!(found[1].pointer && found[2].pointer);
    assert!(!found[3].interesting());
    assert_eq!(found[0].name, "dev /dev/input/event10");
}

#[test]
fn only_keyboards_and_pointers_are_captured() {
    let found = candidates(&vec![dev("/b", true, false, false), dev("/a", false, false, false), dev("/c", false, true, true)]);
    assert_eq!(default_paths(&found), vec!["/b".to_string(), "/c".to_string()]);
}

#[test]
fn kind_labels() {
    let found = candidates(&vec![
        dev("/1", true, true, false),
        dev("/2", true, false, false),
        dev("/3", false, false, true),
        dev("/4", false, false, false),
    ]);
    let labels: Vec<&str> = found.iter().map(kind_label).collect();
    assert_eq!(labels, vec!["kbd+ptr", "kbd", "ptr", "-"]);
}

#[test]
fn mono_epoch_saturates() {
    assert_eq!(mono_epoch_unix_ns(1_000, 300), 700);
    assert_eq!(mono_epoch_unix_ns(300, 1_000), 0);
    assert_eq!(mono_epoch_unix_ns(u128::MAX, 0), u64::MAX);
    assert_eq!(saturating_u64(5), 5);
    assert_eq!(saturating_u64(u64::MAX as u128 + 1), u64::MAX);
}

#[test]
fn syn_frames_are_skipped_unless_asked_for() {
    let mut n = EventNumbering::new(false);
    assert_eq!(n.number(1), Some(0));
    assert_eq!(n.number(0), None);
    assert_eq!(n.number(2), Some(1));
    assert_eq!(n.next_number(), 2);
    let mut all = EventNumbering::new(true);
    assert_eq!(all.number(0), Some(0));
    assert_eq!(all.number(0), Some(1));
}

#[test]
fn linux_event_syn() {
    let syn = LinuxEvent { device: "/dev/input/event3".into(), ev_type: 0, code: 0, value: 0, ev_time_us: 5 };
    let key = LinuxEvent { device: "/dev/input/event3".into(), ev_type: 1, code: 30, value: 1, ev_time_us: 0 };
    assert!(syn.is_syn());
    assert!(!key.is_syn());
}

#[test]
fn probe_wire_types_compare_by_value() {
    let w = WindowsEvent {
        message: 0x0100,
        hook_time: 42,
        extra_info: 0,
        flags: 0,
        vk_code: Some(0x41),
        scan_code: Some(0x1E),
        point: None,
        mouse_data: None,
    };
    assert_eq!(w.clone(), w);
    assert_ne!(Platform::Linux, Platform::MacOs);
}
