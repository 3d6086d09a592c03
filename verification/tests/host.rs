use wayflow::host::{
    boundary_output, check_mark, configured_size, requirements, Advertised, BoundGlobals, CheckMark, Config, Edge,
    Error, HostKeyAction, HostKeys, OutputInfo, ProbeError, DEFAULT_PORT,
};

fn advertised(names: &[(&str, u32)]) -> Advertised {
    Advertised { globals: names.iter().map(|(n, v)| (n.to_string(), *v)).collect() }
}

#[test]
fn version_of_finds_the_first_match() {
    let a = advertised(&[("wl_seat", 7), ("wl_compositor", 6), ("wl_seat", 9)]);
    assert_eq!(a.version_of("wl_seat"), Some(7));
    assert_eq!(a.version_of("wl_compositor"), Some(6));
    assert_eq!(a.version_of("wp_viewporter"), None);
}

#[test]
fn missing_required_skips_optional_protocols() {
    let a = advertised(&[
        ("wl_compositor", 6),
        ("wl_seat", 9),
        ("wl_output", 4),
        ("zwlr_layer_shell_v1", 4),
        ("zwp_pointer_constraints_v1", 1),
    ]);
    let missing: Vec<&str> = a.missing_required().iter().map(|r| r.interface).collect();
    assert_eq!(missing, vec!["zwp_relative_pointer_manager_v1", "zwp_keyboard_shortcuts_inhibit_manager_v1"]);
    let all: Vec<(String, u32)> = requirements().iter().map(|r| (r.interface.to_string(), 1)).collect();
    assert!(Advertised { globals: all }.missing_required().is_empty());
    assert_eq!(Advertised::new().missing_required().len(), 7);
}

#[test]
fn check_marks() {
    let a = advertised(&[("wl_seat", 9)]);
    let reqs = requirements();
    assert_eq!(reqs.len(), 10);
    assert_eq!(check_mark(&a, &reqs[1]), CheckMark::Present(9));
    assert_eq!(check_mark(&a, &reqs[0]), CheckMark::Missing);
    assert_eq!(check_mark(&a, &reqs[8]), CheckMark::Degraded);
}

#[test]
fn probe_error_messages() {
    assert_eq!(ProbeError::Roundtrip("eof".into()).message(), "registry roundtrip failed: eof");
    assert!(ProbeError::Connect("no socket".into()).message().starts_with("cannot reach a Wayland compositor (no socket). "));
}

#[test]
fn config_defaults_to_the_left_edge() {
    let c = Config::default();
    assert_eq!(c.edge, Edge::Left);
    assert_eq!(c.port, DEFAULT_PORT);
    assert_eq!(DEFAULT_PORT, 47821);
}

#[test]
fn strip_geometry() {
    assert_eq!(Edge::Left.strip_size(), (1, 0));
    assert_eq!(Edge::Top.strip_size(), (0, 1));
    let a = Edge::Right.anchors();
    assert!(a.right && a.top && a.bottom && !a.left);
}

#[test]
fn globals_are_checked_in_order() {
    let all = BoundGlobals {
        compositor: true,
        layer_shell: true,
        viewporter: true,
        single_pixel_buffer: true,
        seat: true,
        shortcuts_inhibit: true,
        relative_pointer: true,
    };
    assert_eq!(all.check_globals(), Ok(()));
    assert_eq!(
        BoundGlobals { viewporter: false, seat: false, ..all }.check_globals(),
        Err(Error::MissingGlobal("wp_viewporter"))
    );
    assert_eq!(
        BoundGlobals { relative_pointer: false, ..all }.check_globals(),
        Err(Error::MissingGlobal("zwp_relative_pointer_manager_v1"))
    );
}

fn out(x: i32, y: i32, w: i32, h: i32, done: bool) -> OutputInfo {
    OutputInfo { x, y, width: w, height: h, done }
}

#[test]
fn boundary_output_is_the_outermost_ready_one() {
    let outs = vec![out(0, 0, 2560, 1440, true), out(-1920, 0, 1920, 1080, true), out(2560, 0, 1920, 1080, true)];
    assert_eq!(boundary_output(&outs, Edge::Left), Some(1));
    assert_eq!(boundary_output(&outs, Edge::Right), Some(2));
    assert_eq!(boundary_output(&outs, Edge::Top), Some(0));
    assert_eq!(boundary_output(&outs, Edge::Bottom), Some(0));
    let not_ready = vec![out(-5000, 0, 10, 10, false), out(0, 0, 10, 10, true)];
    assert_eq!(boundary_output(&not_ready, Edge::Left), Some(1));
    assert_eq!(boundary_output(&vec![out(0, 0, 1, 1, false)], Edge::Left), None);
    assert_eq!(OutputInfo::default(), out(0, 0, 0, 0, false));
}

#[test]
fn configured_size_never_zero() {
    assert_eq!(configured_size(0, 1080), (1, 1080));
    assert_eq!(configured_size(1, 0), (1, 1));
    assert_eq!(configured_size(u32::MAX, 20), (1, 20));
}

#[test]
fn ctrl_escape_ends_capture() {
    let mut k = HostKeys::new();
    assert_eq!(k.on_key(29, true), HostKeyAction::Forward { code: 29, pressed: true });
    assert_eq!(k.on_key(1, true), HostKeyAction::Escape);
    assert_eq!(k.take_releases(), vec![29, 1]);
    assert!(k.take_releases().is_empty());
}

#[test]
fn escape_alone_is_forwarded() {
    let mut k = HostKeys::new();
    assert_eq!(k.on_key(1, true), HostKeyAction::Forward { code: 1, pressed: true });
    assert_eq!(k.on_key(1, false), HostKeyAction::Forward { code: 1, pressed: false });
    assert_eq!(k.on_key(97, true), HostKeyAction::Forward { code: 97, pressed: true });
    assert_eq!(k.on_key(70_000, true), HostKeyAction::Ignore);
    assert_eq!(k.take_releases(), vec![97]);
}
