use screenclip::annotations::text::{TextAnnotation, TextAnnotationDrag};
use screenclip::overlay_ui::{OverlayAction, ToolMode};
use screenclip::selection_geometry::ResizeEdge;
use screenclip::session::{EscapeAction, FrameEnd, FrameOutcome, SessionState};

#[test]
fn escape_action_prefers_exiting_text_mode() {
    assert_eq!(
        EscapeAction::for_overlay_state(true, ToolMode::Text),
        Some(EscapeAction::ExitTextMode)
    );
}

#[test]
fn escape_action_exits_rectangle_mode() {
    assert_eq!(
        EscapeAction::for_overlay_state(true, ToolMode::Rectangle),
        Some(EscapeAction::ExitRectangleMode)
    );
}

#[test]
fn escape_action_closes_session_in_select_mode() {
    assert_eq!(
        EscapeAction::for_overlay_state(true, ToolMode::Select),
        Some(EscapeAction::CloseSession)
    );
}

#[test]
fn escape_action_is_ignored_without_active_session() {
    assert_eq!(EscapeAction::for_overlay_state(false, ToolMode::Select), None);
    assert_eq!(EscapeAction::for_overlay_state(false, ToolMode::Text), None);
    assert_eq!(EscapeAction::for_overlay_state(false, ToolMode::Rectangle), None);
}

#[test]
fn exit_text_mode_clears_text_edit_state_only() {
    let mut app = SessionState::new();
    app.tool_mode = ToolMode::Text;
    app.selected_rect = Some((1, 2, 3, 4));
    app.pending_text_focus_id = Some(7);
    app.focused_text_annotation_id = Some(7);
    app.text_annotation_drag = Some(TextAnnotationDrag { id: 7, pointer_offset: (3, 4) });
    app.caret_redraw_scheduled = true;
    app.needs_redraw = false;

    app.exit_text_mode();

    assert_eq!(app.tool_mode, ToolMode::Select);
    assert_eq!(app.pending_text_focus_id, None);
    assert_eq!(app.focused_text_annotation_id, None);
    assert!(app.text_annotation_drag.is_none());
    assert!(!app.caret_redraw_scheduled);
    assert!(app.needs_redraw);
    assert_eq!(app.selected_rect, Some((1, 2, 3, 4)));
}

#[test]
fn exit_rectangle_mode_returns_to_select() {
    let mut app = SessionState::new();
    app.tool_mode = ToolMode::Rectangle;
    app.exit_rectangle_mode();
    assert_eq!(app.tool_mode, ToolMode::Select);
    assert!(app.needs_redraw);
}

#[test]
fn handle_escape_steps_back_one_level() {
    let mut app = SessionState::new();
    app.tool_mode = ToolMode::Text;
    assert_eq!(app.handle_escape(true), Some(EscapeAction::ExitTextMode));
    assert_eq!(app.tool_mode, ToolMode::Select);
    assert_eq!(app.handle_escape(true), Some(EscapeAction::CloseSession));
    assert_eq!(app.handle_escape(false), None);
}

#[test]
fn drag_selects_the_spanned_rectangle() {
    let mut app = SessionState::new();
    app.on_cursor_moved(30, 40);
    app.on_left_pressed(false, false);
    assert_eq!(app.drag_start, Some((30, 40)));
    app.on_cursor_moved(10, 20);
    app.on_left_released();
    assert_eq!(app.selected_rect, Some((10, 20, 21, 21)));
    assert_eq!(app.drag_start, None);
    assert_eq!(app.drag_current, None);
}

#[test]
fn pressing_on_a_handle_resizes_the_selection() {
    let mut app = SessionState::new();
    app.selected_rect = Some((100, 200, 80, 60));
    app.on_cursor_moved(140, 200);
    app.on_left_pressed(false, false);
    assert_eq!(app.selection_resize.map(|r| r.edge), Some(ResizeEdge::Top));
    app.on_cursor_moved(140, 180);
    assert_eq!(app.selected_rect, Some((100, 180, 80, 80)));
    app.on_left_released();
    assert!(app.selection_resize.is_none());
    assert_eq!(app.selected_rect, Some((100, 180, 80, 80)));
}

#[test]
fn rectangle_tool_records_dragged_rectangles() {
    let mut app = SessionState::new();
    app.tool_mode = ToolMode::Rectangle;
    app.on_cursor_moved(5, 5);
    app.on_left_pressed(false, false);
    app.on_cursor_moved(14, 24);
    app.on_left_released();
    assert_eq!(app.rectangle_annotations.len(), 1);
    assert_eq!(app.rectangle_annotations[0].global_rect, (5, 5, 10, 20));
}

#[test]
fn text_tool_places_numbered_annotations() {
    let mut app = SessionState::new();
    app.tool_mode = ToolMode::Text;
    app.on_cursor_moved(50, 60);
    app.on_left_pressed(false, false);
    app.on_cursor_moved(70, 80);
    app.on_left_pressed(false, false);
    assert_eq!(app.text_annotations.len(), 2);
    assert_eq!(app.text_annotations[0].id, 0);
    assert_eq!(app.text_annotations[0].global_pos, (50, 60));
    assert_eq!(app.text_annotations[1].id, 1);
    assert_eq!(app.next_text_annotation_id, 2);
    assert_eq!(app.focused_text_annotation_id, Some(1));
    assert_eq!(app.pending_text_focus_id, Some(1));
}

#[test]
fn grabbed_text_follows_the_pointer() {
    let mut app = SessionState::new();
    app.tool_mode = ToolMode::Text;
    app.text_annotations.push(TextAnnotation::new(3, (100, 100)));
    app.next_text_annotation_id = 4;
    app.focused_text_annotation_id = Some(3);
    app.on_cursor_moved(96, 98);
    app.on_left_pressed(true, false);
    let drag = app.text_annotation_drag.expect("border press grabs the text");
    assert_eq!((drag.id, drag.pointer_offset), (3, (-4, -2)));
    app.on_cursor_moved(200, 300);
    assert_eq!(app.text_annotations[0].global_pos, (204, 302));
    app.on_left_released();
    assert!(app.text_annotation_drag.is_none());
}

#[test]
fn ui_press_is_left_to_the_ui() {
    let mut app = SessionState::new();
    app.on_cursor_moved(30, 40);
    app.on_left_pressed(false, true);
    assert_eq!(app.drag_start, None);
}

#[test]
fn frames_are_planned_only_when_needed() {
    let mut app = SessionState::new();
    assert!(app.begin_frame(false).is_none());
    app.note_window_event(false);
    assert!(app.needs_redraw);
    app.selected_rect = Some((1, 2, 30, 40));
    let plan = app.begin_frame(false).expect("a redraw was requested");
    assert!(!app.needs_redraw);
    assert_eq!(plan.active_selection_rect, Some((1, 2, 30, 40)));
    assert!(plan.show_toolbar);
    assert!(app.begin_frame(true).is_some());
}

#[test]
fn frame_outcome_decides_exit_before_save_and_copy() {
    let mut app = SessionState::new();
    app.selected_rect = Some((1, 2, 3, 4));
    let plan = app.begin_frame(true).unwrap();
    let mut outcome = FrameOutcome::new();
    app.apply_window_result(&mut outcome, OverlayAction::Save, None);
    app.apply_window_result(&mut outcome, OverlayAction::Exit, Some(9));
    assert!(outcome.save && outcome.exit);
    assert!(matches!(app.finish_frame(outcome, &plan), FrameEnd::CloseSession));
    assert_eq!(app.focused_text_annotation_id, Some(9));

    let mut outcome = FrameOutcome::new();
    app.apply_window_result(&mut outcome, OverlayAction::Copy, None);
    assert!(matches!(app.finish_frame(outcome, &plan), FrameEnd::Copy(Some((1, 2, 3, 4)))));
}

#[test]
fn tool_buttons_toggle_their_tool() {
    let mut app = SessionState::new();
    let plan = app.begin_frame(true).unwrap();
    let mut outcome = FrameOutcome::new();
    app.apply_window_result(&mut outcome, OverlayAction::StartTextInsert, None);
    assert_eq!(app.tool_mode, ToolMode::Text);
    app.apply_window_result(&mut outcome, OverlayAction::StartRectangleInsert, None);
    assert_eq!(app.tool_mode, ToolMode::Rectangle);
    app.apply_window_result(&mut outcome, OverlayAction::StartRectangleInsert, None);
    assert_eq!(app.tool_mode, ToolMode::Select);
    app.apply_window_result(&mut outcome, OverlayAction::StartTextInsert, None);
    assert!(matches!(app.finish_frame(outcome, &plan), FrameEnd::WaitForCaretBlink));
    assert!(app.caret_redraw_scheduled);
}

#[test]
fn reset_forgets_the_session() {
    let mut app = SessionState::new();
    app.tool_mode = ToolMode::Text;
    app.selected_rect = Some((1, 2, 3, 4));
    app.text_annotations.push(TextAnnotation::new(0, (1, 1)));
    app.next_text_annotation_id = 1;
    app.reset_capture_state();
    assert_eq!(app.tool_mode, ToolMode::Select);
    assert_eq!(app.selected_rect, None);
    assert!(app.text_annotations.is_empty());
    assert_eq!(app.next_text_annotation_id, 0);
}

#[test]
fn focus_for_preview_and_cursor() {
    let mut app = SessionState::new();
    app.focused_text_annotation_id = Some(1);
    app.text_annotation_drag = Some(TextAnnotationDrag { id: 2, pointer_offset: (0, 0) });
    let plan = app.begin_frame(true).unwrap();
    assert_eq!(plan.preview_focus(Some(3)), Some(3));
    assert_eq!(plan.preview_focus(None), Some(2));
    assert_eq!(plan.cursor_focus(None), Some(1));
    assert_eq!(plan.cursor_focus(Some(3)), Some(3));
}

#[test]
fn cursor_move_fits_follows_the_dragged_annotation() {
    let mut s = SessionState::new();
    s.text_annotations.push(TextAnnotation::new(3, (10, 10)));
    s.text_annotation_drag = Some(TextAnnotationDrag { id: 3, pointer_offset: (i32::MIN, 0) });
    assert!(!s.cursor_move_fits(1, 0));
    assert!(s.cursor_move_fits(-1, 0));
    s.text_annotation_drag = Some(TextAnnotationDrag { id: 9, pointer_offset: (i32::MIN, 0) });
    assert!(s.cursor_move_fits(1, 0));
}

#[test]
fn cursor_move_fits_checks_an_edge_drag() {
    let mut s = SessionState::new();
    s.selected_rect = Some((10, 10, 100, 100));
    s.selection_resize = Some(screenclip::session::SelectionResizeDrag { edge: ResizeEdge::Bottom });
    assert!(s.cursor_move_fits(50, 500));
    assert!(!s.cursor_move_fits(50, i32::MAX));
}

#[test]
fn press_fits_needs_a_fresh_text_id() {
    let mut s = SessionState::new();
    s.tool_mode = ToolMode::Text;
    s.last_cursor_global = Some((5, 5));
    assert!(s.press_fits(false, false));
    s.next_text_annotation_id = u64::MAX;
    assert!(!s.press_fits(false, false));
    assert!(s.press_fits(false, true));
}

#[test]
fn release_fits_checks_the_dragged_rectangle() {
    let mut s = SessionState::new();
    s.drag_start = Some((i32::MIN, 0));
    s.drag_current = Some((i32::MAX, 0));
    assert!(!s.release_fits());
    s.tool_mode = ToolMode::Text;
    assert!(s.release_fits());
}
