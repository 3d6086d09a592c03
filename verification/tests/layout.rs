use wayflow::config::Edge;
use wayflow::layout::{map_to_client, screens_fit, ServerLayout};
use wayflow::proto::ScreenInfo;

fn mon(x: i32, y: i32, w: u16, h: u16) -> ScreenInfo {
    ScreenInfo { name: String::new(), x, y, width: w, height: h }
}

fn client(w: u16, h: u16) -> ScreenInfo {
    mon(0, 0, w, h)
}

fn single() -> ServerLayout {
    ServerLayout::new(vec![mon(0, 0, 2560, 1440)])
}

fn dual_side_by_side() -> ServerLayout {
    ServerLayout::new(vec![mon(0, 0, 2560, 1440), mon(2560, 0, 1920, 1080)])
}

fn dual_stacked() -> ServerLayout {
    ServerLayout::new(vec![mon(0, 0, 2560, 1440), mon(0, 1440, 2560, 1440)])
}

#[test]
fn single_right_boundary() {
    assert_eq!(single().right_boundary_at(500), Some(2559));
    assert_eq!(single().right_boundary_at(0), Some(2559));
    assert_eq!(single().right_boundary_at(1439), Some(2559));
}

#[test]
fn single_left_boundary() {
    assert_eq!(single().left_boundary_at(500), Some(0));
}

#[test]
fn single_bottom_boundary() {
    assert_eq!(single().bottom_boundary_at(100), Some(1439));
}

#[test]
fn single_top_boundary() {
    assert_eq!(single().top_boundary_at(100), Some(0));
}

#[test]
fn single_out_of_range_returns_none() {
    assert_eq!(single().right_boundary_at(1440), None);
    assert_eq!(single().left_boundary_at(1440), None);
    assert_eq!(single().bottom_boundary_at(2560), None);
    assert_eq!(single().top_boundary_at(2560), None);
}

#[test]
fn single_at_right_edge() {
    assert!(single().at_right_edge(2559, 500));
    assert!(!single().at_right_edge(2558, 500));
    assert!(!single().at_right_edge(2559, 1440));
}

#[test]
fn single_at_left_edge() {
    assert!(single().at_left_edge(0, 500));
    assert!(!single().at_left_edge(1, 500));
}

#[test]
fn single_at_bottom_edge() {
    assert!(single().at_bottom_edge(100, 1439));
    assert!(!single().at_bottom_edge(100, 1438));
}

#[test]
fn single_at_top_edge() {
    assert!(single().at_top_edge(100, 0));
    assert!(!single().at_top_edge(100, 1));
}

#[test]
fn single_crossed_edge_center_returns_none() {
    assert_eq!(single().crossed_edge(500, 500), None);
}

#[test]
fn single_crossed_edge_all_sides() {
    assert_eq!(single().crossed_edge(2559, 500), Some(Edge::Right));
    assert_eq!(single().crossed_edge(0, 500), Some(Edge::Left));
    assert_eq!(single().crossed_edge(100, 1439), Some(Edge::Bottom));
    assert_eq!(single().crossed_edge(100, 0), Some(Edge::Top));
}

#[test]
fn corner_prefers_left_right_over_top_bottom() {
    assert_eq!(single().crossed_edge(0, 0), Some(Edge::Left));
    assert_eq!(single().crossed_edge(2559, 1439), Some(Edge::Right));
}

#[test]
fn dual_right_boundary_in_shared_y_region() {
    assert_eq!(dual_side_by_side().right_boundary_at(500), Some(4479));
}

#[test]
fn dual_right_boundary_in_dp1_only_region() {
    assert_eq!(dual_side_by_side().right_boundary_at(1200), Some(2559));
}

#[test]
fn dual_left_boundary() {
    assert_eq!(dual_side_by_side().left_boundary_at(500), Some(0));
    assert_eq!(dual_side_by_side().left_boundary_at(1200), Some(0));
}

#[test]
fn dual_at_right_edge_dp2_region() {
    assert!(dual_side_by_side().at_right_edge(4479, 500));
    assert!(!dual_side_by_side().at_right_edge(2559, 500));
}

#[test]
fn dual_at_right_edge_dp1_only_region() {
    assert!(dual_side_by_side().at_right_edge(2559, 1200));
    assert!(!dual_side_by_side().at_right_edge(4479, 1200));
}

#[test]
fn dual_stacked_bottom_boundary() {
    assert_eq!(dual_stacked().bottom_boundary_at(100), Some(2879));
}

#[test]
fn dual_stacked_top_boundary() {
    assert_eq!(dual_stacked().top_boundary_at(100), Some(0));
}

#[test]
fn map_right_no_offset() {
    let c = client(2560, 1600);
    assert_eq!(map_to_client(2559, 720, &c, Edge::Right, 0), (0, 720));
}

#[test]
fn map_right_with_offset() {
    let c = client(2560, 1600);
    assert_eq!(map_to_client(2559, 720, &c, Edge::Right, 100), (0, 620));
}

#[test]
fn map_right_clamps_below_zero() {
    let c = client(2560, 1600);
    assert_eq!(map_to_client(2559, 50, &c, Edge::Right, 200), (0, 0));
}

#[test]
fn map_right_clamps_above_height() {
    let c = client(2560, 1080);
    assert_eq!(map_to_client(2559, 1200, &c, Edge::Right, -200), (0, 1079));
}

#[test]
fn map_left_no_offset() {
    let c = client(1920, 1080);
    assert_eq!(map_to_client(0, 400, &c, Edge::Left, 0), (1919, 400));
}

#[test]
fn map_bottom_no_offset() {
    let c = client(2560, 1440);
    assert_eq!(map_to_client(640, 1439, &c, Edge::Bottom, 0), (640, 0));
}

#[test]
fn map_top_no_offset() {
    let c = client(2560, 1440);
    assert_eq!(map_to_client(640, 0, &c, Edge::Top, 0), (640, 1439));
}

#[test]
fn map_bottom_with_offset() {
    let c = client(2560, 1440);
    assert_eq!(map_to_client(640, 1439, &c, Edge::Bottom, 100), (540, 0));
}

#[test]
fn map_with_extreme_offset_still_clamps() {
    let c = client(1920, 1080);
    assert_eq!(map_to_client(0, i32::MIN, &c, Edge::Left, i32::MAX), (1919, 0));
    assert_eq!(map_to_client(i32::MAX, 0, &c, Edge::Top, i32::MIN), (1919, 1079));
}

#[test]
fn negative_origin_monitor() {
    let layout = ServerLayout::new(vec![mon(-1920, 0, 1920, 1080), mon(0, 0, 2560, 1440)]);
    assert_eq!(layout.left_boundary_at(500), Some(-1920));
    assert_eq!(layout.right_boundary_at(500), Some(2559));
    assert_eq!(layout.left_boundary_at(1100), Some(0));
}

#[test]
fn empty_layout_returns_none() {
    let layout = ServerLayout::new(vec![]);
    assert_eq!(layout.right_boundary_at(0), None);
    assert_eq!(layout.crossed_edge(0, 0), None);
}

#[test]
fn layout_reports_its_monitors() {
    let layout = dual_side_by_side();
    assert_eq!(layout.monitor_count(), 2);
    assert_eq!(layout.screens()[1].x, 2560);
    assert!(layout.on_any_monitor(3000, 100));
    assert!(!layout.on_any_monitor(3000, 1200));
}

#[test]
fn screens_fit_rejects_overflowing_monitors() {
    assert!(screens_fit(&vec![mon(0, 0, 2560, 1440)]));
    assert!(!screens_fit(&vec![mon(i32::MAX - 10, 0, 100, 100)]));
    assert!(!screens_fit(&vec![mon(0, i32::MAX, 0, 100)]));
}
