use screenclip::desktop_geometry::DesktopRect;

#[test]
fn seam_spanning_rect_intersects_both_viewports() {
    let left = DesktopRect::from_origin_size((0, 0), (1920, 1080));
    let right = DesktopRect::from_origin_size((1920, 0), (1920, 1080));
    let text = DesktopRect::from_origin_size((1880, 400), (120, 32));

    assert!(text.intersects(left));
    assert!(text.intersects(right));
}

#[test]
fn exclusive_edges_prevent_duplicate_intersection() {
    let left = DesktopRect::from_origin_size((0, 0), (1920, 1080));
    let right = DesktopRect::from_origin_size((1920, 0), (1920, 1080));
    let text = DesktopRect::from_origin_size((1920, 400), (80, 32));

    assert!(!text.intersects(left));
    assert!(text.intersects(right));
}

#[test]
fn viewport_contains_anchor_with_negative_origin() {
    let viewport = DesktopRect::from_origin_size((-1600, 0), (1600, 900));

    assert!(viewport.contains_point((-1, 120)));
    assert!(!viewport.contains_point((0, 120)));
}

#[test]
fn negative_size_is_clamped_to_empty() {
    let r = DesktopRect::from_origin_size((5, 6), (-3, -4));
    assert_eq!(r, DesktopRect { x: 5, y: 6, width: 0, height: 0 });
    assert!(!r.contains_point((5, 6)));
    assert_eq!(r.right(), 5);
    assert_eq!(r.bottom(), 6);
}

#[test]
fn intersection_is_symmetric_on_examples() {
    let a = DesktopRect::from_origin_size((0, 0), (10, 10));
    let b = DesktopRect::from_origin_size((9, 9), (5, 5));
    let c = DesktopRect::from_origin_size((10, 0), (5, 5));
    assert_eq!(a.intersects(b), b.intersects(a));
    assert!(a.intersects(b));
    assert_eq!(a.intersects(c), c.intersects(a));
    assert!(!a.intersects(c));
}

#[test]
fn adjacent_rects_share_no_pixel_example() {
    let left = DesktopRect::from_origin_size((0, 0), (100, 100));
    let right = DesktopRect::from_origin_size((100, 0), (100, 100));
    for x in 95..105 {
        assert!(!(left.contains_point((x, 50)) && right.contains_point((x, 50))));
        assert!(left.contains_point((x, 50)) || right.contains_point((x, 50)));
    }
}
