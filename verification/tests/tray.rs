use wayflow::tray::{
    after_exit, error_rgba, icon_for, idle_rgba, in_corner, menu_enabled, push_line, rounded_square, running_rgba,
    status_label, tooltip, IconKind, Mode, State, LINE_RING,
};

#[test]
fn mode_labels() {
    assert_eq!(Mode::Server.label(), "server");
    assert_eq!(Mode::Client.label(), "client");
}

#[test]
fn state_queries() {
    let r = State::Running { mode: Mode::Client, pid: 42 };
    assert!(r.is_running());
    assert_eq!(r.mode(), Some(Mode::Client));
    assert_eq!(State::Stopped.mode(), None);
    assert_eq!(State::Crashed { mode: Mode::Server, code: None }.mode(), Some(Mode::Server));
    assert!(!State::Stopped.is_running());
}

#[test]
fn status_labels() {
    assert_eq!(status_label(State::Stopped), "status: stopped");
    assert_eq!(status_label(State::Running { mode: Mode::Server, pid: 4242 }), "status: running server (pid 4242)");
    assert_eq!(status_label(State::Crashed { mode: Mode::Client, code: Some(-9) }), "status: client crashed (exit -9)");
    assert_eq!(status_label(State::Crashed { mode: Mode::Server, code: None }), "status: server crashed");
    assert_eq!(tooltip(State::Running { mode: Mode::Client, pid: 7 }), "Wayflow (running client (pid 7))");
    assert_eq!(tooltip(State::Stopped), "Wayflow (stopped)");
}

#[test]
fn exit_status_becomes_stopped_or_crashed() {
    let running = State::Running { mode: Mode::Client, pid: 9 };
    assert_eq!(after_exit(running, true, Some(0)), State::Stopped);
    assert_eq!(after_exit(running, false, Some(1)), State::Crashed { mode: Mode::Client, code: Some(1) });
    assert_eq!(after_exit(State::Stopped, false, None), State::Crashed { mode: Mode::Server, code: None });
}

#[test]
fn menu_and_icon_follow_the_state() {
    let m = menu_enabled(State::Running { mode: Mode::Server, pid: 1 });
    assert!(!m.start_server && !m.start_client && m.stop);
    let m = menu_enabled(State::Stopped);
    assert!(m.start_server && m.start_client && !m.stop);
    assert_eq!(icon_for(State::Stopped), IconKind::Idle);
    assert_eq!(icon_for(State::Running { mode: Mode::Server, pid: 1 }), IconKind::Running);
    assert_eq!(icon_for(State::Crashed { mode: Mode::Server, code: None }), IconKind::Error);
}

#[test]
fn line_ring_keeps_the_newest_fifty() {
    let mut lines: Vec<String> = Vec::new();
    for i in 0..60 {
        push_line(&mut lines, format!("line {i}"));
    }
    assert_eq!(lines.len(), LINE_RING);
    assert_eq!(lines[0], "line 10");
    assert_eq!(lines[49], "line 59");
}

#[test]
fn corner_test() {
    assert!(in_corner(6, 6, 6));
    assert!(in_corner(1, 3, 6));
    assert!(!in_corner(0, 0, 6));
    assert!(!in_corner(0, 1, 6));
}

#[test]
fn icons_have_transparent_corners() {
    let buf = rounded_square(1, 2, 3, 4);
    assert_eq!(buf.len(), 32 * 32 * 4);
    assert_eq!(&buf[0..4], &[0, 0, 0, 0]);
    let centre = (16 * 32 + 16) * 4;
    assert_eq!(&buf[centre..centre + 4], &[1, 2, 3, 4]);
    let last = (31 * 32 + 31) * 4;
    assert_eq!(&buf[last..last + 4], &[0, 0, 0, 0]);
    let edge_mid = (16 * 32) * 4;
    assert_eq!(&buf[edge_mid..edge_mid + 4], &[1, 2, 3, 4]);
    assert_eq!(&idle_rgba()[centre..centre + 4], &[0x70, 0x70, 0x70, 0xFF]);
    assert_eq!(&running_rgba()[centre..centre + 4], &[0x3B, 0xC4, 0x6E, 0xFF]);
    assert_eq!(&error_rgba()[centre..centre + 4], &[0xD0, 0x4A, 0x4A, 0xFF]);
}
