//! Which mouse cursor the overlay shows.
use vstd::prelude::*;

use crate::annotations::text::{
    annotation_views, cursor_hit_test, hit_test_fits, hit_test_in_range, spec_cursor_hit_test, TextAnnotation,
    TextAnnotationCursorHit, TextPixelBounds,
};
use crate::overlay_ui::ToolMode;
use crate::selection_geometry::{
    detect_fits, detect_in_range, detect_resize_edge, spec_detect_resize_edge, ResizeEdge, SelectionRect,
};

verus! {

/// The cursor shapes the overlay chooses itself.
#[derive(Debug, Clone, Copy, PartialEq, Eq, Structural)]
pub enum CursorShape {
    Crosshair,
    Text,
    Grab,
    Grabbing,
    Move,
    NResize,
    SResize,
    WResize,
    EResize,
}

/// The cursor to show: one of ours, or the one the UI toolkit asked for.
#[derive(Debug, Clone, Copy, PartialEq, Eq, Structural)]
pub enum CursorChoice {
    Shape(CursorShape),
    FromUi,
}

pub open spec fn spec_cursor_for_edge(edge: ResizeEdge) -> CursorShape {
    match edge {
        ResizeEdge::Top => CursorShape::NResize,
        ResizeEdge::Bottom => CursorShape::SResize,
        ResizeEdge::Left => CursorShape::WResize,
        ResizeEdge::Right => CursorShape::EResize,
    }
}

/// The resize cursor pointing across the dragged edge.
pub fn cursor_icon_for_resize_edge(edge: ResizeEdge) -> (r: CursorShape)
    ensures
        r == spec_cursor_for_edge(edge),
{
    match edge {
        ResizeEdge::Top => CursorShape::NResize,
        ResizeEdge::Bottom => CursorShape::SResize,
        ResizeEdge::Left => CursorShape::WResize,
        ResizeEdge::Right => CursorShape::EResize,
    }
}

/// Everything the cursor decision may hit-test stays within `i32`.
pub open spec fn cursor_args_ok(
    tool_mode: ToolMode,
    cursor_global: Option<(i32, i32)>,
    selected_rect: Option<SelectionRect>,
    annotations: Seq<TextAnnotation>,
    bounds: Seq<TextPixelBounds>,
    focused_id: Option<u64>,
) -> bool {
    &&& hit_test_in_range(annotation_views(annotations), bounds, focused_id)
    &&& match (tool_mode, cursor_global, selected_rect) {
        (ToolMode::Select, Some(p), Some(r)) => detect_in_range(r, p),
        _ => true,
    }
}

/// Whether choosing the cursor can compute its hit tests in `i32`.
pub fn cursor_args_fit(
    tool_mode: ToolMode,
    cursor_global: Option<(i32, i32)>,
    selected_rect: Option<SelectionRect>,
    text_annotations: &[TextAnnotation],
    bounds: &[TextPixelBounds],
    focused_text_annotation_id: Option<u64>,
) -> (r: bool)
    ensures
        r == cursor_args_ok(
            tool_mode,
            cursor_global,
            selected_rect,
            text_annotations@,
            bounds@,
            focused_text_annotation_id,
        ),
{
    if !hit_test_fits(text_annotations, bounds, focused_text_annotation_id) {
        return false;
    }
    match (tool_mode, cursor_global, selected_rect) {
        (ToolMode::Select, Some(p), Some(rect)) => detect_fits(rect, p),
        _ => true,
    }
}

/// The cursor, by priority: dragging a text box grabs; dragging a selection
/// edge shows that edge's resize cursor; in text mode the focus box border
/// moves; in selection mode a handle under the pointer shows its resize
/// cursor; then whatever the UI asks for, when it asks for something other
/// than the default; then in text mode grab on a focus border and the text
/// cursor elsewhere; and the crosshair otherwise.
pub open spec fn spec_resolve_cursor(
    ui_cursor_is_default: bool,
    tool_mode: ToolMode,
    cursor_global: Option<(i32, i32)>,
    selected_rect: Option<SelectionRect>,
    anns: Seq<TextAnnotation>,
    bounds: Seq<TextPixelBounds>,
    fonts_available: bool,
    focused_id: Option<u64>,
    dragging_id: Option<u64>,
    resize_edge: Option<ResizeEdge>,
) -> CursorChoice {
    let hit = match cursor_global {
        Some(p) => spec_cursor_hit_test(annotation_views(anns), bounds, fonts_available, focused_id, p),
        None => None,
    };
    let handle = match (cursor_global, selected_rect) {
        (Some(p), Some(r)) => spec_detect_resize_edge(r, p),
        _ => None,
    };
    if dragging_id is Some {
        CursorChoice::Shape(CursorShape::Grabbing)
    } else if resize_edge is Some {
        CursorChoice::Shape(spec_cursor_for_edge(resize_edge->0))
    } else if tool_mode == ToolMode::Text && hit == Some(TextAnnotationCursorHit::Border) {
        CursorChoice::Shape(CursorShape::Move)
    } else if tool_mode == ToolMode::Select && handle is Some {
        CursorChoice::Shape(spec_cursor_for_edge(handle->0))
    } else if !ui_cursor_is_default {
        CursorChoice::FromUi
    } else if tool_mode == ToolMode::Text {
        if hit == Some(TextAnnotationCursorHit::Border) {
            CursorChoice::Shape(CursorShape::Grab)
        } else {
            CursorChoice::Shape(CursorShape::Text)
        }
    } else {
        CursorChoice::Shape(CursorShape::Crosshair)
    }
}

/// The UI toolkit's cursor is shown whenever it asks for one other than its
/// default and nothing of the overlay's own takes priority: no text box or
/// selection edge is being dragged, the pointer is not on the focus box
/// border in the text tool, and not on a selection handle in the select
/// tool. This holds in every tool mode.
pub proof fn lemma_ui_cursor_shown_when_nothing_takes_priority(
    tool_mode: ToolMode,
    cursor_global: Option<(i32, i32)>,
    selected_rect: Option<SelectionRect>,
    anns: Seq<TextAnnotation>,
    bounds: Seq<TextPixelBounds>,
    fonts_available: bool,
    focused_id: Option<u64>,
)
    requires
        tool_mode == ToolMode::Text && cursor_global is Some ==> spec_cursor_hit_test(
            annotation_views(anns),
            bounds,
            fonts_available,
            focused_id,
            cursor_global.unwrap(),
        ) != Some(TextAnnotationCursorHit::Border),
        tool_mode == ToolMode::Select && cursor_global is Some && selected_rect is Some
            ==> spec_detect_resize_edge(selected_rect.unwrap(), cursor_global.unwrap()) is None,
    ensures
        spec_resolve_cursor(
            false,
            tool_mode,
            cursor_global,
            selected_rect,
            anns,
            bounds,
            fonts_available,
            focused_id,
            None,
            None,
        ) == CursorChoice::FromUi,
{
}

/// In the rectangle tool the cursor is the grab cursor while a text box is
/// dragged, the edge's resize cursor while a selection edge is dragged,
/// else the UI toolkit's cursor when it asks for one other than its
/// default, and the crosshair otherwise; the pointer position, selection
/// and text annotations do not matter.
pub proof fn lemma_rectangle_tool_cursor(
    ui_cursor_is_default: bool,
    cursor_global: Option<(i32, i32)>,
    selected_rect: Option<SelectionRect>,
    anns: Seq<TextAnnotation>,
    bounds: Seq<TextPixelBounds>,
    fonts_available: bool,
    focused_id: Option<u64>,
    dragging_id: Option<u64>,
    resize_edge: Option<ResizeEdge>,
)
    ensures
        spec_resolve_cursor(
            ui_cursor_is_default,
            ToolMode::Rectangle,
            cursor_global,
            selected_rect,
            anns,
            bounds,
            fonts_available,
            focused_id,
            dragging_id,
            resize_edge,
        ) == if dragging_id is Some {
            CursorChoice::Shape(CursorShape::Grabbing)
        } else if resize_edge is Some {
            CursorChoice::Shape(spec_cursor_for_edge(resize_edge->0))
        } else if !ui_cursor_is_default {
            CursorChoice::FromUi
        } else {
            CursorChoice::Shape(CursorShape::Crosshair)
        },
{
}

/// Chooses the cursor; `bounds` are the measured text bounds of the text
/// annotations and `ui_cursor_is_default` tells whether the UI toolkit
/// asked for its default cursor.
pub fn resolve_cursor_icon(
    ui_cursor_is_default: bool,
    tool_mode: ToolMode,
    cursor_global: Option<(i32, i32)>,
    selected_rect: Option<SelectionRect>,
    text_annotations: &[TextAnnotation],
    bounds: &[TextPixelBounds],
    fonts_available: bool,
    focused_text_annotation_id: Option<u64>,
    dragging_text_annotation_id: Option<u64>,
    selection_resize_edge: Option<ResizeEdge>,
) -> (r: CursorChoice)
    requires
        cursor_args_ok(
            tool_mode,
            cursor_global,
            selected_rect,
            text_annotations@,
            bounds@,
            focused_text_annotation_id,
        ),
    ensures
        r == spec_resolve_cursor(
            ui_cursor_is_default,
            tool_mode,
            cursor_global,
            selected_rect,
            text_annotations@,
            bounds@,
            fonts_available,
            focused_text_annotation_id,
            dragging_text_annotation_id,
            selection_resize_edge,
        ),
{
    if dragging_text_annotation_id.is_some() {
        return CursorChoice::Shape(CursorShape::Grabbing);
    }
    if let Some(edge) = selection_resize_edge {
        return CursorChoice::Shape(cursor_icon_for_resize_edge(edge));
    }
    let in_text_mode = match tool_mode {
        ToolMode::Text => true,
        _ => false,
    };
    let in_select_mode = match tool_mode {
        ToolMode::Select => true,
        _ => false,
    };
    if let Some(point) = cursor_global {
        if in_text_mode {
            let hit = cursor_hit_test(
                text_annotations,
                bounds,
                fonts_available,
                focused_text_annotation_id,
                point,
            );
            if let Some(TextAnnotationCursorHit::Border) = hit {
                return CursorChoice::Shape(CursorShape::Move);
            }
        }
        if in_select_mode {
            if let Some(rect) = selected_rect {
                if let Some(edge) = detect_resize_edge(rect, point) {
                    return CursorChoice::Shape(cursor_icon_for_resize_edge(edge));
                }
            }
        }
    }
    if !ui_cursor_is_default {
        return CursorChoice::FromUi;
    }
    if in_text_mode {
        if let Some(point) = cursor_global {
            match cursor_hit_test(
                text_annotations,
                bounds,
                fonts_available,
                focused_text_annotation_id,
                point,
            ) {
                Some(TextAnnotationCursorHit::Border) => {
                    return CursorChoice::Shape(CursorShape::Grab);
                },
                Some(TextAnnotationCursorHit::Text) => {
                    return CursorChoice::Shape(CursorShape::Text);
                },
                None => {},
            }
        }
        return CursorChoice::Shape(CursorShape::Text);
    }
    CursorChoice::Shape(CursorShape::Crosshair)
}

} // verus!
