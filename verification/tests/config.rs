use wayflow::config::{
    default_port, modifier_name_to_hid, remap_modifier_key, warn_unknown_modifier_names, config_file_path, ClientConfig, Config,
    ModifierNameWarning,
};

fn map(pairs: &[(&str, &str)]) -> Vec<(String, String)> {
    pairs.iter().map(|(a, b)| (a.to_string(), b.to_string())).collect()
}

#[test]
fn default_path_contains_wayflow() {
    let p = Config::default_path();
    assert!(p.contains("wayflow"));
    assert!(p.ends_with("config.toml"));
}

#[test]
fn default_port_is_24800() {
    assert_eq!(default_port(), 24800);
}

#[test]
fn modifier_name_to_hid_known() {
    assert_eq!(modifier_name_to_hid("ctrl_left"), Some(0xE0));
    assert_eq!(modifier_name_to_hid("shift_left"), Some(0xE1));
    assert_eq!(modifier_name_to_hid("alt"), Some(0xE2));
    assert_eq!(modifier_name_to_hid("meta_left"), Some(0xE3));
    assert_eq!(modifier_name_to_hid("ctrl_right"), Some(0xE4));
    assert_eq!(modifier_name_to_hid("meta_right"), Some(0xE7));
    assert_eq!(modifier_name_to_hid("bogus"), None);
}

#[test]
fn modifier_name_aliases() {
    for n in ["alt", "alt_left", "option", "option_left", "opt", "opt_left"] {
        assert_eq!(modifier_name_to_hid(n), Some(0xE2), "alias {n} should be 0xE2");
    }
    for n in ["alt_gr", "alt_right", "option_right", "opt_right"] {
        assert_eq!(modifier_name_to_hid(n), Some(0xE6), "alias {n} should be 0xE6");
    }
    for n in [
        "meta_left", "super", "super_left", "cmd", "cmd_left", "command", "command_left", "win",
        "win_left", "windows", "windows_left",
    ] {
        assert_eq!(modifier_name_to_hid(n), Some(0xE3), "alias {n} should be 0xE3");
    }
    for n in ["meta_right", "super_right", "cmd_right", "command_right", "win_right", "windows_right"] {
        assert_eq!(modifier_name_to_hid(n), Some(0xE7), "alias {n} should be 0xE7");
    }
    assert_eq!(modifier_name_to_hid("control_left"), Some(0xE0));
    assert_eq!(modifier_name_to_hid("control_right"), Some(0xE4));
}

#[test]
fn shift_names_and_near_misses() {
    assert_eq!(modifier_name_to_hid("shift_right"), Some(0xE5));
    assert_eq!(modifier_name_to_hid("Shift_left"), None);
    assert_eq!(modifier_name_to_hid("ctrl"), None);
    assert_eq!(modifier_name_to_hid(""), None);
}

#[test]
fn remap_swap_alt_meta_using_left_right_aliases() {
    let m = map(&[
        ("alt_left", "meta_left"),
        ("alt_right", "meta_right"),
        ("meta_left", "alt_left"),
        ("meta_right", "alt_right"),
    ]);
    assert_eq!(remap_modifier_key(&m, 0xE2), 0xE3);
    assert_eq!(remap_modifier_key(&m, 0xE3), 0xE2);
    assert_eq!(remap_modifier_key(&m, 0xE6), 0xE7);
    assert_eq!(remap_modifier_key(&m, 0xE7), 0xE6);
    assert_eq!(remap_modifier_key(&m, 0xE0), 0xE0);
}

#[test]
fn remap_modifier_key_swaps_ctrl_meta() {
    let m = map(&[
        ("ctrl_left", "meta_left"),
        ("meta_left", "ctrl_left"),
        ("ctrl_right", "meta_right"),
        ("meta_right", "ctrl_right"),
    ]);
    assert_eq!(remap_modifier_key(&m, 0xE0), 0xE3);
    assert_eq!(remap_modifier_key(&m, 0xE3), 0xE0);
    assert_eq!(remap_modifier_key(&m, 0xE4), 0xE7);
    assert_eq!(remap_modifier_key(&m, 0xE7), 0xE4);
    assert_eq!(remap_modifier_key(&m, 0xE1), 0xE1);
    assert_eq!(remap_modifier_key(&m, 0x04), 0x04);
}

#[test]
fn remap_modifier_key_empty_map_passthrough() {
    let m: Vec<(String, String)> = Vec::new();
    assert_eq!(remap_modifier_key(&m, 0xE0), 0xE0);
    assert_eq!(remap_modifier_key(&m, 0x04), 0x04);
}

#[test]
fn remap_with_unknown_target_passes_key_through() {
    let m = map(&[("ctrl_left", "hyper")]);
    assert_eq!(remap_modifier_key(&m, 0xE0), 0xE0);
}

#[test]
fn remap_never_touches_a_non_modifier_key() {
    let m = map(&[("ctrl_left", "meta_left"), ("alt", "shift_left")]);
    for hid in [0x04u32, 0x28, 0x2C, 0x53, 0xFF] {
        assert_eq!(remap_modifier_key(&m, hid), hid);
    }
}

#[test]
fn unknown_modifier_names_are_reported() {
    let m = map(&[("ctrl_left", "meta_left"), ("bogus", "alt"), ("alt", "hyper")]);
    let w = warn_unknown_modifier_names(&m);
    assert_eq!(
        w,
        vec![
            ModifierNameWarning::UnknownKey { from: "bogus".to_string() },
            ModifierNameWarning::UnknownValue { from: "alt".to_string(), to: "hyper".to_string() },
        ]
    );
    assert!(warn_unknown_modifier_names(&map(&[("alt", "meta_left")])).is_empty());
}

#[test]
fn client_server_addr_joins_host_and_port() {
    let c = ClientConfig { server: "helicon".to_string(), port: 24800 };
    assert_eq!(c.server_addr(), "helicon:24800");
    let c = ClientConfig { server: "10.0.0.2".to_string(), port: 7 };
    assert_eq!(c.server_addr(), "10.0.0.2:7");
}

#[test]
fn config_file_path_joins_dir_wayflow_and_file() {
    assert_eq!(config_file_path(Some("/home/u/.config".to_string()), '/', "config.toml"), "/home/u/.config/wayflow/config.toml");
    // A trailing separator is not doubled.
    assert_eq!(config_file_path(Some("/home/u/.config/".to_string()), '/', "client.toml"), "/home/u/.config/wayflow/client.toml");
    // No configuration directory: relative to the working directory.
    assert_eq!(config_file_path(None, '/', "config.toml"), "./wayflow/config.toml");
    assert_eq!(config_file_path(Some("C:\\Users\\u".to_string()), '\\', "config.toml"), "C:\\Users\\u\\wayflow\\config.toml");
}

#[test]
fn client_default_path_names_client_toml() {
    let p = ClientConfig::default_path();
    assert!(p.contains("wayflow"));
    assert!(p.ends_with("client.toml"));
}
