use screenclip::selection_geometry::{
    all_edge_handles, detect_fits, detect_resize_edge, drag_points_fit, edge_handle_rect, resize_fits,
    resize_rect, selection_rect_from_points, ResizeEdge,
};

#[test]
fn selection_rect_normalizes_drag_points() {
    assert_eq!(
        selection_rect_from_points(Some((30, 40)), Some((10, 20))),
        Some((10, 20, 21, 21))
    );
}

#[test]
fn detect_resize_edge_hits_each_midpoint_handle() {
    let rect = (100, 200, 80, 60);

    assert_eq!(detect_resize_edge(rect, (140, 200)), Some(ResizeEdge::Top));
    assert_eq!(detect_resize_edge(rect, (140, 259)), Some(ResizeEdge::Bottom));
    assert_eq!(detect_resize_edge(rect, (100, 230)), Some(ResizeEdge::Left));
    assert_eq!(detect_resize_edge(rect, (179, 230)), Some(ResizeEdge::Right));
    assert_eq!(detect_resize_edge(rect, (140, 230)), None);
}

#[test]
fn top_handle_crossing_monitor_seam_still_hits() {
    let rect = (1880, 100, 80, 40);
    assert_eq!(detect_resize_edge(rect, (1920, 100)), Some(ResizeEdge::Top));
}

#[test]
fn resize_rect_moves_only_target_edge() {
    let rect = (100, 200, 80, 60);

    assert_eq!(resize_rect(rect, ResizeEdge::Top, (140, 180)), (100, 180, 80, 80));
    assert_eq!(resize_rect(rect, ResizeEdge::Bottom, (140, 279)), (100, 200, 80, 80));
    assert_eq!(resize_rect(rect, ResizeEdge::Left, (80, 230)), (80, 200, 100, 60));
    assert_eq!(resize_rect(rect, ResizeEdge::Right, (199, 230)), (100, 200, 100, 60));
}

#[test]
fn resize_rect_clamps_to_minimum_size() {
    let rect = (100, 200, 80, 60);

    assert_eq!(resize_rect(rect, ResizeEdge::Left, (250, 230)), (179, 200, 1, 60));
    assert_eq!(resize_rect(rect, ResizeEdge::Top, (140, 400)), (100, 259, 80, 1));
}

#[test]
fn handle_rects_cover_all_four_edges() {
    let rect = (100, 200, 80, 60);
    let handles = all_edge_handles(rect);

    assert_eq!(handles.len(), 4);
    assert_eq!(edge_handle_rect(rect, ResizeEdge::Top).y, 196);
    assert_eq!(edge_handle_rect(rect, ResizeEdge::Right).x, 176);
}

#[test]
fn selection_needs_both_points() {
    assert_eq!(selection_rect_from_points(None, Some((1, 2))), None);
    assert_eq!(selection_rect_from_points(Some((1, 2)), None), None);
    assert_eq!(selection_rect_from_points(Some((5, 5)), Some((5, 5))), Some((5, 5, 1, 1)));
}

#[test]
fn handles_are_centred_on_their_edges() {
    let rect = (100, 200, 80, 60);
    let h = all_edge_handles(rect);
    assert_eq!(h[0].0, ResizeEdge::Top);
    assert_eq!((h[0].1.x, h[0].1.y, h[0].1.width, h[0].1.height), (116, 196, 48, 8));
    assert_eq!(h[1].0, ResizeEdge::Bottom);
    assert_eq!((h[1].1.x, h[1].1.y, h[1].1.width, h[1].1.height), (116, 256, 48, 8));
    assert_eq!(h[2].0, ResizeEdge::Left);
    assert_eq!((h[2].1.x, h[2].1.y, h[2].1.width, h[2].1.height), (96, 206, 8, 48));
    assert_eq!(h[3].0, ResizeEdge::Right);
    assert_eq!((h[3].1.x, h[3].1.y, h[3].1.width, h[3].1.height), (176, 206, 8, 48));
}

#[test]
fn resize_onto_current_edge_keeps_selection() {
    let rect = (100, 200, 80, 60);
    assert_eq!(resize_rect(rect, ResizeEdge::Top, (0, 200)), rect);
    assert_eq!(resize_rect(rect, ResizeEdge::Bottom, (0, 259)), rect);
    assert_eq!(resize_rect(rect, ResizeEdge::Left, (100, 0)), rect);
    assert_eq!(resize_rect(rect, ResizeEdge::Right, (179, 0)), rect);
}

#[test]
fn small_selection_handles_shrink_to_selection() {
    let rect = (10, 10, 20, 0);
    let top = edge_handle_rect(rect, ResizeEdge::Top);
    assert_eq!((top.x, top.y, top.width, top.height), (10, 6, 20, 8));
    let left = edge_handle_rect(rect, ResizeEdge::Left);
    assert_eq!((left.x, left.y, left.width, left.height), (6, 10, 8, 1));
}

#[test]
fn drag_from_either_corner_gives_same_selection() {
    let a = Some((30, 5));
    let b = Some((-7, 41));
    assert_eq!(selection_rect_from_points(a, b), selection_rect_from_points(b, a));
    assert_eq!(selection_rect_from_points(a, b), Some((-7, 5, 38, 37)));
}

#[test]
fn resizing_twice_to_the_same_pointer_changes_nothing() {
    let rect = (100, 100, 50, 40);
    for edge in [ResizeEdge::Top, ResizeEdge::Bottom, ResizeEdge::Left, ResizeEdge::Right] {
        for pointer in [(0, 0), (120, 120), (400, 300), (100, 139)] {
            let once = resize_rect(rect, edge, pointer);
            assert_eq!(resize_rect(once, edge, pointer), once);
        }
    }
}

#[test]
fn drag_points_fit_only_when_the_span_fits() {
    assert!(drag_points_fit(Some((0, 0)), Some((1920, 1080))));
    assert!(drag_points_fit(None, Some((i32::MIN, 0))));
    assert!(!drag_points_fit(Some((i32::MIN, 0)), Some((i32::MAX, 0))));
    assert!(!drag_points_fit(Some((0, -2)), Some((0, i32::MAX - 1))));
}

#[test]
fn resize_fits_only_when_edges_fit() {
    assert!(resize_fits((10, 10, 100, 100), ResizeEdge::Right, (300, 50)));
    assert!(!resize_fits((10, 10, 100, 100), ResizeEdge::Right, (i32::MAX, 50)));
    assert!(!resize_fits((i32::MAX - 5, 10, 100, 100), ResizeEdge::Top, (0, 0)));
    assert!(!resize_fits((10, 10, 100, 100), ResizeEdge::Left, (i32::MIN, 0)));
}

#[test]
fn detect_fits_only_when_handles_fit() {
    assert!(detect_fits((100, 100, 200, 150), (200, 100)));
    assert!(!detect_fits((i32::MAX - 10, 100, 200, 150), (0, 0)));
    assert!(!detect_fits((100, i32::MIN, 200, 150), (0, 0)));
}
