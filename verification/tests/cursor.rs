use screenclip::annotations::text::{TextAnnotation, TextPixelBounds};
use screenclip::cursor::{
    cursor_args_fit, cursor_icon_for_resize_edge, resolve_cursor_icon, CursorChoice, CursorShape,
};
use screenclip::overlay_ui::ToolMode;
use screenclip::selection_geometry::ResizeEdge;

const B: TextPixelBounds = TextPixelBounds { offset_x: 0, offset_y: 0, width: 40, height: 20 };

fn text_at(id: u64, pos: (i32, i32)) -> TextAnnotation {
    let mut a = TextAnnotation::new(id, pos);
    a.text = "x".to_string();
    a
}

#[test]
fn resize_edges_map_to_resize_cursors() {
    assert_eq!(cursor_icon_for_resize_edge(ResizeEdge::Top), CursorShape::NResize);
    assert_eq!(cursor_icon_for_resize_edge(ResizeEdge::Bottom), CursorShape::SResize);
    assert_eq!(cursor_icon_for_resize_edge(ResizeEdge::Left), CursorShape::WResize);
    assert_eq!(cursor_icon_for_resize_edge(ResizeEdge::Right), CursorShape::EResize);
}

#[test]
fn dragging_text_always_grabs() {
    let r = resolve_cursor_icon(
        false,
        ToolMode::Select,
        Some((140, 200)),
        Some((100, 200, 80, 60)),
        &[],
        &[],
        true,
        None,
        Some(1),
        Some(ResizeEdge::Left),
    );
    assert_eq!(r, CursorChoice::Shape(CursorShape::Grabbing));
}

#[test]
fn active_resize_shows_its_edge() {
    let r = resolve_cursor_icon(false, ToolMode::Text, None, None, &[], &[], true, None, None, Some(ResizeEdge::Bottom));
    assert_eq!(r, CursorChoice::Shape(CursorShape::SResize));
}

#[test]
fn select_mode_shows_handle_cursor_then_ui_then_crosshair() {
    let sel = Some((100, 200, 80, 60));
    let on_top = resolve_cursor_icon(false, ToolMode::Select, Some((140, 200)), sel, &[], &[], true, None, None, None);
    assert_eq!(on_top, CursorChoice::Shape(CursorShape::NResize));
    let ui = resolve_cursor_icon(false, ToolMode::Select, Some((140, 230)), sel, &[], &[], true, None, None, None);
    assert_eq!(ui, CursorChoice::FromUi);
    let plain = resolve_cursor_icon(true, ToolMode::Select, Some((140, 230)), sel, &[], &[], true, None, None, None);
    assert_eq!(plain, CursorChoice::Shape(CursorShape::Crosshair));
    let rect_tool = resolve_cursor_icon(true, ToolMode::Rectangle, Some((140, 200)), sel, &[], &[], true, None, None, None);
    assert_eq!(rect_tool, CursorChoice::Shape(CursorShape::Crosshair));
}

#[test]
fn text_mode_moves_on_border_and_types_elsewhere() {
    let anns = [text_at(1, (100, 100))];
    let bounds = [B];
    // focus box [96, 144) x [96, 124)
    let border = resolve_cursor_icon(false, ToolMode::Text, Some((96, 110)), None, &anns, &bounds, true, Some(1), None, None);
    assert_eq!(border, CursorChoice::Shape(CursorShape::Move));
    let inside = resolve_cursor_icon(true, ToolMode::Text, Some((110, 110)), None, &anns, &bounds, true, Some(1), None, None);
    assert_eq!(inside, CursorChoice::Shape(CursorShape::Text));
    let elsewhere = resolve_cursor_icon(true, ToolMode::Text, Some((500, 500)), None, &anns, &bounds, true, Some(1), None, None);
    assert_eq!(elsewhere, CursorChoice::Shape(CursorShape::Text));
    let ui = resolve_cursor_icon(false, ToolMode::Text, Some((500, 500)), None, &anns, &bounds, true, Some(1), None, None);
    assert_eq!(ui, CursorChoice::FromUi);
}

#[test]
fn cursor_args_fit_checks_text_and_handles() {
    let anns = [text_at(1, (10, 10))];
    assert!(cursor_args_fit(ToolMode::Select, Some((5, 5)), Some((0, 0, 100, 100)), &anns, &[B], None));
    assert!(!cursor_args_fit(ToolMode::Select, Some((5, 5)), Some((0, 0, 100, 100)), &anns, &[], None));
    assert!(!cursor_args_fit(
        ToolMode::Select,
        Some((5, 5)),
        Some((i32::MAX - 3, 0, 100, 100)),
        &anns,
        &[B],
        None
    ));
    assert!(cursor_args_fit(ToolMode::Text, Some((5, 5)), Some((i32::MAX - 3, 0, 100, 100)), &anns, &[B], None));
}
