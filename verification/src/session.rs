use vstd::prelude::*;

use crate::annotations::rectangle::RectangleAnnotation;
use crate::annotations::text::{
    annotation_views, find_text_annotation, first_with_id, fresh_text_annotation, has_id,
    is_first_with_id, lemma_first_with_id, lemma_has_id_has_first, TextAnnotation,
    TextAnnotationDrag, TextAnnotationView,
};
use crate::overlay_ui::{OverlayAction, ToolMode};
use crate::selection_geometry::{
    detect_fits, detect_in_range, detect_resize_edge, drag_points_fit, drag_points_in_range, drag_rect_in_range, in_i32, resize_fits, resize_in_range,
    resize_rect, selection_rect_from_points, spec_detect_resize_edge, spec_resize_rect,
    spec_selection_rect, to_selection_rect, ResizeEdge, SelectionRect,
};

verus! {

/// What pressing Escape does on the capture overlay.
#[derive(Debug, Clone, Copy, PartialEq, Eq, Structural)]
pub enum EscapeAction {
    ExitTextMode,
    ExitRectangleMode,
    CloseSession,
}

impl EscapeAction {
    pub open spec fn spec_for_overlay_state(has_active_session: bool, tool_mode: ToolMode) -> Option<
        Self,
    > {
        if !has_active_session {
            None
        } else {
            match tool_mode {
                ToolMode::Text => Some(EscapeAction::ExitTextMode),
                ToolMode::Rectangle => Some(EscapeAction::ExitRectangleMode),
                ToolMode::Select => Some(EscapeAction::CloseSession),
            }
        }
    }

    /// Escape first leaves an annotation tool; in selection mode it closes
    /// the capture session. Without a session it does nothing.
    pub fn for_overlay_state(has_active_session: bool, tool_mode: ToolMode) -> (r: Option<Self>)
        ensures
            r == Self::spec_for_overlay_state(has_active_session, tool_mode),
    {
        if !has_active_session {
            return None;
        }
        match tool_mode {
            ToolMode::Text => Some(Self::ExitTextMode),
            ToolMode::Rectangle => Some(Self::ExitRectangleMode),
            ToolMode::Select => Some(Self::CloseSession),
        }
    }
}

/// A selection edge being dragged.
#[derive(Debug, Clone, Copy, PartialEq, Eq, Structural)]
pub struct SelectionResizeDrag {
    pub edge: ResizeEdge,
}

// ---------------------------------------------------------------------------
// The session state
// ---------------------------------------------------------------------------

/// The abstract state of a capture session.
pub struct SessionView {
    pub last_cursor_global: Option<(i32, i32)>,
    pub drag_start: Option<(i32, i32)>,
    pub drag_current: Option<(i32, i32)>,
    pub selected_rect: Option<SelectionRect>,
    pub selection_resize: Option<SelectionResizeDrag>,
    pub tool_mode: ToolMode,
    pub text_annotations: Seq<TextAnnotationView>,
    pub rectangle_annotations: Seq<RectangleAnnotation>,
    pub next_text_annotation_id: u64,
    pub pending_text_focus_id: Option<u64>,
    pub needs_redraw: bool,
    pub caret_redraw_scheduled: bool,
    pub focused_text_annotation_id: Option<u64>,
    pub text_annotation_drag: Option<TextAnnotationDrag>,
}

/// Pointer, selection, tool and annotation state of the capture overlay.
/// The windows, captured images and timers live with the windowing layer,
/// which feeds events in and performs the returned decisions.
pub struct SessionState {
    pub last_cursor_global: Option<(i32, i32)>,
    pub drag_start: Option<(i32, i32)>,
    pub drag_current: Option<(i32, i32)>,
    pub selected_rect: Option<SelectionRect>,
    pub selection_resize: Option<SelectionResizeDrag>,
    pub tool_mode: ToolMode,
    pub text_annotations: Vec<TextAnnotation>,
    pub rectangle_annotations: Vec<RectangleAnnotation>,
    pub next_text_annotation_id: u64,
    pub pending_text_focus_id: Option<u64>,
    pub needs_redraw: bool,
    /// A redraw is scheduled for the next caret blink.
    pub caret_redraw_scheduled: bool,
    pub focused_text_annotation_id: Option<u64>,
    pub text_annotation_drag: Option<TextAnnotationDrag>,
}

impl View for SessionState {
    type V = SessionView;

    open spec fn view(&self) -> SessionView {
        SessionView {
            last_cursor_global: self.last_cursor_global,
            drag_start: self.drag_start,
            drag_current: self.drag_current,
            selected_rect: self.selected_rect,
            selection_resize: self.selection_resize,
            tool_mode: self.tool_mode,
            text_annotations: annotation_views(self.text_annotations@),
            rectangle_annotations: self.rectangle_annotations@,
            next_text_annotation_id: self.next_text_annotation_id,
            pending_text_focus_id: self.pending_text_focus_id,
            needs_redraw: self.needs_redraw,
            caret_redraw_scheduled: self.caret_redraw_scheduled,
            focused_text_annotation_id: self.focused_text_annotation_id,
            text_annotation_drag: self.text_annotation_drag,
        }
    }
}

impl SessionView {
    /// No pointer activity, no selection, no annotations, selection tool.
    pub open spec fn initial() -> SessionView {
        SessionView {
            last_cursor_global: None,
            drag_start: None,
            drag_current: None,
            selected_rect: None,
            selection_resize: None,
            tool_mode: ToolMode::Select,
            text_annotations: Seq::empty(),
            rectangle_annotations: Seq::empty(),
            next_text_annotation_id: 0,
            pending_text_focus_id: None,
            needs_redraw: false,
            caret_redraw_scheduled: false,
            focused_text_annotation_id: None,
            text_annotation_drag: None,
        }
    }

    /// Every text annotation carries a distinct id below the next id to hand out.
    pub open spec fn ids_well_formed(self) -> bool {
        &&& forall|i: int|
            0 <= i < self.text_annotations.len() ==> #[trigger] self.text_annotations[i].id
                < self.next_text_annotation_id
        &&& forall|i: int, j: int|
            0 <= i < j < self.text_annotations.len() ==> #[trigger] self.text_annotations[i].id
                != #[trigger] self.text_annotations[j].id
    }

    pub open spec fn after_exit_text_mode(self) -> SessionView {
        SessionView {
            tool_mode: ToolMode::Select,
            pending_text_focus_id: None,
            focused_text_annotation_id: None,
            text_annotation_drag: None,
            caret_redraw_scheduled: false,
            needs_redraw: true,
            ..self
        }
    }

    pub open spec fn after_exit_rectangle_mode(self) -> SessionView {
        SessionView { tool_mode: ToolMode::Select, needs_redraw: true, ..self }
    }

    pub open spec fn after_escape(self, has_active_session: bool) -> SessionView {
        match EscapeAction::spec_for_overlay_state(has_active_session, self.tool_mode) {
            Some(EscapeAction::ExitTextMode) => self.after_exit_text_mode(),
            Some(EscapeAction::ExitRectangleMode) => self.after_exit_rectangle_mode(),
            _ => self,
        }
    }

    pub open spec fn after_window_event(self, is_redraw_event: bool) -> SessionView {
        if is_redraw_event {
            self
        } else {
            SessionView { needs_redraw: true, ..self }
        }
    }

    /// The text annotation being dragged follows the pointer.
    pub open spec fn drag_move_in_range(self, gx: i32, gy: i32) -> bool {
        match self.text_annotation_drag {
            Some(drag) => has_id(self.text_annotations, drag.id) ==> {
                &&& in_i32(gx - drag.pointer_offset.0)
                &&& in_i32(gy - drag.pointer_offset.1)
            },
            None => true,
        }
    }

    pub open spec fn cursor_move_in_range(self, gx: i32, gy: i32) -> bool {
        &&& self.drag_move_in_range(gx, gy)
        &&& (self.text_annotation_drag is None && self.selection_resize is Some
            && self.selected_rect is Some) ==> resize_in_range(
            self.selected_rect.unwrap(),
            self.selection_resize.unwrap().edge,
            (gx, gy),
        )
    }

    pub open spec fn after_cursor_moved(self, gx: i32, gy: i32) -> SessionView {
        let v = SessionView { last_cursor_global: Some((gx, gy)), ..self };
        match self.text_annotation_drag {
            Some(drag) => if has_id(self.text_annotations, drag.id) {
                let i = first_with_id(self.text_annotations, drag.id);
                let a = self.text_annotations[i];
                let moved = TextAnnotationView {
                    global_pos: (
                        (gx - drag.pointer_offset.0) as i32,
                        (gy - drag.pointer_offset.1) as i32,
                    ),
                    ..a
                };
                SessionView { text_annotations: self.text_annotations.update(i, moved), ..v }
            } else {
                v
            },
            None => match self.selection_resize {
                Some(resize) => match self.selected_rect {
                    Some(rect) => SessionView {
                        selected_rect: Some(
                            to_selection_rect(spec_resize_rect(rect, resize.edge, (gx, gy))),
                        ),
                        ..v
                    },
                    None => v,
                },
                None => if self.drag_start is Some {
                    SessionView { drag_current: Some((gx, gy)), ..v }
                } else {
                    v
                },
            },
        }
    }

    /// A press on the border of the focused text annotation grabs it.
    pub open spec fn grabs_text_border(self, border_hit: bool) -> bool {
        &&& self.tool_mode == ToolMode::Text
        &&& self.last_cursor_global is Some
        &&& self.focused_text_annotation_id is Some
        &&& border_hit
    }

    pub open spec fn press_in_range(self, border_hit: bool, egui_blocks: bool) -> bool {
        let p = self.last_cursor_global.unwrap();
        if self.grabs_text_border(border_hit) {
            let id = self.focused_text_annotation_id.unwrap();
            has_id(self.text_annotations, id) ==> {
                let a = self.text_annotations[first_with_id(self.text_annotations, id)];
                &&& in_i32(p.0 - a.global_pos.0)
                &&& in_i32(p.1 - a.global_pos.1)
            }
        } else if egui_blocks || self.last_cursor_global is None {
            true
        } else {
            match self.tool_mode {
                ToolMode::Select => self.selected_rect matches Some(rect) ==> detect_in_range(
                    rect,
                    p,
                ),
                ToolMode::Text => self.next_text_annotation_id < u64::MAX,
                ToolMode::Rectangle => true,
            }
        }
    }

    pub open spec fn start_drag(self, p: (i32, i32)) -> SessionView {
        SessionView {
            selection_resize: None,
            drag_start: Some(p),
            drag_current: Some(p),
            ..self
        }
    }

    pub open spec fn after_left_pressed(self, border_hit: bool, egui_blocks: bool) -> SessionView {
        if self.grabs_text_border(border_hit) {
            let p = self.last_cursor_global.unwrap();
            let id = self.focused_text_annotation_id.unwrap();
            if has_id(self.text_annotations, id) {
                let a = self.text_annotations[first_with_id(self.text_annotations, id)];
                let drag = TextAnnotationDrag {
                    id,
                    pointer_offset: ((p.0 - a.global_pos.0) as i32, (p.1 - a.global_pos.1) as i32),
                };
                SessionView { text_annotation_drag: Some(drag), ..self }
            } else {
                self
            }
        } else if egui_blocks || self.last_cursor_global is None {
            self
        } else {
            let p = self.last_cursor_global.unwrap();
            match self.tool_mode {
                ToolMode::Select => {
                    let hit = match self.selected_rect {
                        Some(rect) => spec_detect_resize_edge(rect, p),
                        None => None,
                    };
                    match hit {
                        Some(edge) => SessionView {
                            selection_resize: Some(SelectionResizeDrag { edge }),
                            ..self
                        },
                        None => SessionView { selected_rect: None, ..self.start_drag(p) },
                    }
                },
                ToolMode::Text => {
                    let id = self.next_text_annotation_id;
                    SessionView {
                        text_annotations: self.text_annotations.push(
                            fresh_text_annotation(id, p),
                        ),
                        next_text_annotation_id: (id + 1) as u64,
                        focused_text_annotation_id: Some(id),
                        pending_text_focus_id: Some(id),
                        ..self
                    }
                },
                ToolMode::Rectangle => self.start_drag(p),
            }
        }
    }

    pub open spec fn release_in_range(self) -> bool {
        (self.text_annotation_drag is None && self.selection_resize is None && self.tool_mode
            != ToolMode::Text) ==> drag_points_in_range(self.drag_start, self.drag_current)
    }

    pub open spec fn after_left_released(self) -> SessionView {
        if self.text_annotation_drag is Some {
            SessionView { text_annotation_drag: None, ..self }
        } else if self.selection_resize is Some {
            SessionView { selection_resize: None, ..self }
        } else {
            let drag_rect = spec_selection_rect(self.drag_start, self.drag_current);
            match self.tool_mode {
                ToolMode::Text => self,
                ToolMode::Rectangle => {
                    let rects = match drag_rect {
                        Some(rect) => if rect.2 > 0 && rect.3 > 0 {
                            self.rectangle_annotations.push(RectangleAnnotation { global_rect: rect })
                        } else {
                            self.rectangle_annotations
                        },
                        None => self.rectangle_annotations,
                    };
                    SessionView {
                        rectangle_annotations: rects,
                        drag_start: None,
                        drag_current: None,
                        ..self
                    }
                },
                ToolMode::Select => SessionView {
                    selected_rect: match drag_rect {
                        Some(rect) => Some(rect),
                        None => self.selected_rect,
                    },
                    drag_start: None,
                    drag_current: None,
                    ..self
                },
            }
        }
    }
}

// ---------------------------------------------------------------------------
// Frames
// ---------------------------------------------------------------------------

/// What every window draws in one frame.
#[derive(Debug, Clone, Copy)]
pub struct FramePlan {
    /// The selection shown dimmed-out-around with its border and handles.
    pub active_selection_rect: Option<SelectionRect>,
    /// The rectangle annotation being dragged out.
    pub active_annotation_rect: Option<SelectionRect>,
    pub show_toolbar: bool,
    pub focused_text_annotation_id: Option<u64>,
    pub dragging_text_annotation_id: Option<u64>,
    pub selection_resize_edge: Option<ResizeEdge>,
}

/// The requests collected from the windows during one frame.
#[derive(Debug, Clone, Copy)]
pub struct FrameOutcome {
    pub save: bool,
    pub copy: bool,
    pub exit: bool,
    pub focused_text_annotation_id: Option<u64>,
}

/// What the windowing layer does once a frame has been drawn everywhere.
#[derive(Debug, Clone, Copy)]
pub enum FrameEnd {
    /// Close the capture session.
    CloseSession,
    /// Save the selection (if any) to a file, then close the session.
    Save(Option<SelectionRect>),
    /// Copy the selection (if any) to the clipboard, then close the session.
    Copy(Option<SelectionRect>),
    /// Wake up again for the next caret blink.
    WaitForCaretBlink,
    /// Wait for the next event.
    Wait,
}

pub open spec fn spec_frame_plan(v: SessionView) -> FramePlan {
    let drag_rect = spec_selection_rect(v.drag_start, v.drag_current);
    FramePlan {
        active_selection_rect: match v.tool_mode {
            ToolMode::Select => match drag_rect {
                Some(r) => Some(r),
                None => v.selected_rect,
            },
            _ => v.selected_rect,
        },
        active_annotation_rect: match v.tool_mode {
            ToolMode::Rectangle => drag_rect,
            _ => None,
        },
        show_toolbar: v.drag_start is None && v.selection_resize is None && v.selected_rect is Some,
        focused_text_annotation_id: v.focused_text_annotation_id,
        dragging_text_annotation_id: match v.text_annotation_drag {
            Some(d) => Some(d.id),
            None => None,
        },
        selection_resize_edge: match v.selection_resize {
            Some(r) => Some(r.edge),
            None => None,
        },
    }
}

pub open spec fn toggled_tool(current: ToolMode, tool: ToolMode) -> ToolMode {
    if current == tool {
        ToolMode::Select
    } else {
        tool
    }
}

pub open spec fn spec_outcome_after(
    o: FrameOutcome,
    action: OverlayAction,
    focused_id: Option<u64>,
) -> FrameOutcome {
    let o1 = match focused_id {
        Some(id) => FrameOutcome { focused_text_annotation_id: Some(id), ..o },
        None => o,
    };
    match action {
        OverlayAction::Save => FrameOutcome { save: true, ..o1 },
        OverlayAction::Copy => FrameOutcome { copy: true, ..o1 },
        OverlayAction::Exit => FrameOutcome { exit: true, ..o1 },
        _ => o1,
    }
}

pub open spec fn spec_tool_after(tool: ToolMode, action: OverlayAction) -> ToolMode {
    match action {
        OverlayAction::StartTextInsert => toggled_tool(tool, ToolMode::Text),
        OverlayAction::StartRectangleInsert => toggled_tool(tool, ToolMode::Rectangle),
        _ => tool,
    }
}

pub open spec fn spec_frame_focus(o: FrameOutcome, plan: FramePlan) -> Option<u64> {
    match o.focused_text_annotation_id {
        Some(id) => Some(id),
        None => plan.dragging_text_annotation_id,
    }
}

pub open spec fn spec_frame_end(v: SessionView, o: FrameOutcome) -> FrameEnd {
    if o.exit {
        FrameEnd::CloseSession
    } else if o.save {
        FrameEnd::Save(v.selected_rect)
    } else if o.copy {
        FrameEnd::Copy(v.selected_rect)
    } else if v.tool_mode == ToolMode::Text {
        FrameEnd::WaitForCaretBlink
    } else {
        FrameEnd::Wait
    }
}

/// What a drawn frame ends with follows the widgets' requests: exit closes
/// the session; otherwise save saves the selection, even when copy was also
/// asked for; otherwise copy copies it; with no request the session waits,
/// for the next caret blink in text mode. Saving and copying the same
/// selection are different ends.
pub proof fn lemma_frame_end_follows_request(v: SessionView, o: FrameOutcome)
    ensures
        o.exit ==> spec_frame_end(v, o) == FrameEnd::CloseSession,
        !o.exit && o.save ==> spec_frame_end(v, o) == FrameEnd::Save(v.selected_rect),
        !o.exit && !o.save && o.copy ==> spec_frame_end(v, o) == FrameEnd::Copy(v.selected_rect),
        !o.exit && !o.save && !o.copy && v.tool_mode == ToolMode::Text ==> spec_frame_end(v, o)
            == FrameEnd::WaitForCaretBlink,
        !o.exit && !o.save && !o.copy && v.tool_mode != ToolMode::Text ==> spec_frame_end(v, o)
            == FrameEnd::Wait,
        FrameEnd::Save(v.selected_rect) != FrameEnd::Copy(v.selected_rect),
{
}

impl FramePlan {
    /// The annotation drawn with its focus box in a window: the one whose
    /// editor has the keyboard focus there, else the one being dragged, else
    /// the one focused before this frame.
    pub fn preview_focus(&self, window_focus: Option<u64>) -> (r: Option<u64>)
        ensures
            r == match window_focus {
                Some(id) => Some(id),
                None => match self.dragging_text_annotation_id {
                    Some(id) => Some(id),
                    None => self.focused_text_annotation_id,
                },
            },
    {
        match window_focus {
            Some(id) => Some(id),
            None => match self.dragging_text_annotation_id {
                Some(id) => Some(id),
                None => self.focused_text_annotation_id,
            },
        }
    }

    /// The annotation whose focus box the cursor reacts to in a window: the
    /// one focused there, else the one focused before this frame.
    pub fn cursor_focus(&self, window_focus: Option<u64>) -> (r: Option<u64>)
        ensures
            r == match window_focus {
                Some(id) => Some(id),
                None => self.focused_text_annotation_id,
            },
    {
        match window_focus {
            Some(id) => Some(id),
            None => self.focused_text_annotation_id,
        }
    }
}

impl FrameOutcome {
    pub fn new() -> (r: Self)
        ensures
            !r.save,
            !r.copy,
            !r.exit,
            r.focused_text_annotation_id is None,
    {
        FrameOutcome { save: false, copy: false, exit: false, focused_text_annotation_id: None }
    }
}

impl SessionState {
    pub fn new() -> (r: Self)
        ensures
            r@ == SessionView::initial(),
    {
        let r = SessionState {
            last_cursor_global: None,
            drag_start: None,
            drag_current: None,
            selected_rect: None,
            selection_resize: None,
            tool_mode: ToolMode::Select,
            text_annotations: Vec::new(),
            rectangle_annotations: Vec::new(),
            next_text_annotation_id: 0,
            pending_text_focus_id: None,
            needs_redraw: false,
            caret_redraw_scheduled: false,
            focused_text_annotation_id: None,
            text_annotation_drag: None,
        };
        assert(r@.text_annotations =~= Seq::<TextAnnotationView>::empty());
        r
    }

    /// Forgets everything about the current capture session.
    pub fn reset_capture_state(&mut self)
        ensures
            final(self)@ == SessionView::initial(),
    {
        self.last_cursor_global = None;
        self.drag_start = None;
        self.drag_current = None;
        self.selected_rect = None;
        self.selection_resize = None;
        self.tool_mode = ToolMode::Select;
        self.text_annotations.clear();
        self.rectangle_annotations.clear();
        self.next_text_annotation_id = 0;
        self.pending_text_focus_id = None;
        self.needs_redraw = false;
        self.caret_redraw_scheduled = false;
        self.focused_text_annotation_id = None;
        self.text_annotation_drag = None;
        assert(self@.text_annotations =~= Seq::<TextAnnotationView>::empty());
    }

    pub fn escape_action(&self, has_active_session: bool) -> (r: Option<EscapeAction>)
        ensures
            r == EscapeAction::spec_for_overlay_state(has_active_session, self.tool_mode),
    {
        EscapeAction::for_overlay_state(has_active_session, self.tool_mode)
    }

    /// Leaves the text tool: focus, pending focus, a running drag and the
    /// caret blink are dropped; the selection and annotations stay.
    pub fn exit_text_mode(&mut self)
        ensures
            final(self)@ == old(self)@.after_exit_text_mode(),
    {
        self.tool_mode = ToolMode::Select;
        self.pending_text_focus_id = None;
        self.focused_text_annotation_id = None;
        self.text_annotation_drag = None;
        self.caret_redraw_scheduled = false;
        self.needs_redraw = true;
    }

    pub fn exit_rectangle_mode(&mut self)
        ensures
            final(self)@ == old(self)@.after_exit_rectangle_mode(),
    {
        self.tool_mode = ToolMode::Select;
        self.needs_redraw = true;
    }

    /// Handles an Escape key press. Leaving an annotation tool happens here;
    /// for `CloseSession` the caller ends the session.
    pub fn handle_escape(&mut self, has_active_session: bool) -> (r: Option<EscapeAction>)
        ensures
            r == EscapeAction::spec_for_overlay_state(has_active_session, old(self).tool_mode),
            final(self)@ == old(self)@.after_escape(has_active_session),
    {
        let action = self.escape_action(has_active_session);
        match action {
            Some(EscapeAction::ExitTextMode) => self.exit_text_mode(),
            Some(EscapeAction::ExitRectangleMode) => self.exit_rectangle_mode(),
            _ => {},
        }
        action
    }

    /// Any window event other than a redraw request makes the next frame
    /// redraw.
    pub fn note_window_event(&mut self, is_redraw_event: bool)
        ensures
            final(self)@ == old(self)@.after_window_event(is_redraw_event),
    {
        if !is_redraw_event {
            self.needs_redraw = true;
        }
    }

    /// Whether `on_cursor_moved(gx, gy)` can compute its result in `i32`.
    pub fn cursor_move_fits(&self, gx: i32, gy: i32) -> (r: bool)
        ensures
            r == self@.cursor_move_in_range(gx, gy),
    {
        if let Some(drag) = self.text_annotation_drag {
            match find_text_annotation(self.text_annotations.as_slice(), drag.id) {
                Some(i) => {
                    proof {
                        lemma_first_with_id(self@.text_annotations, drag.id, i as int);
                    }
                    let x = gx as i64 - drag.pointer_offset.0 as i64;
                    let y = gy as i64 - drag.pointer_offset.1 as i64;
                    i32::MIN as i64 <= x && x <= i32::MAX as i64 && i32::MIN as i64 <= y && y
                        <= i32::MAX as i64
                },
                None => true,
            }
        } else {
            match (self.selection_resize, self.selected_rect) {
                (Some(resize), Some(rect)) => resize_fits(rect, resize.edge, (gx, gy)),
                _ => true,
            }
        }
    }

    /// Whether `on_left_pressed(border_hit, egui_blocks)` can compute its
    /// result in `i32` and still hand out a fresh text annotation id.
    pub fn press_fits(&self, border_hit: bool, egui_blocks: bool) -> (r: bool)
        ensures
            r == self@.press_in_range(border_hit, egui_blocks),
    {
        let in_text_mode = match self.tool_mode {
            ToolMode::Text => true,
            _ => false,
        };
        if in_text_mode && border_hit && self.last_cursor_global.is_some()
            && self.focused_text_annotation_id.is_some() {
            let p = self.last_cursor_global.unwrap();
            let id = self.focused_text_annotation_id.unwrap();
            return match find_text_annotation(self.text_annotations.as_slice(), id) {
                Some(i) => {
                    proof {
                        lemma_first_with_id(self@.text_annotations, id, i as int);
                    }
                    let pos = self.text_annotations[i].global_pos;
                    let x = p.0 as i64 - pos.0 as i64;
                    let y = p.1 as i64 - pos.1 as i64;
                    i32::MIN as i64 <= x && x <= i32::MAX as i64 && i32::MIN as i64 <= y && y
                        <= i32::MAX as i64
                },
                None => true,
            };
        }
        if egui_blocks {
            return true;
        }
        match self.last_cursor_global {
            None => true,
            Some(p) => match self.tool_mode {
                ToolMode::Select => match self.selected_rect {
                    Some(rect) => detect_fits(rect, p),
                    None => true,
                },
                ToolMode::Text => self.next_text_annotation_id < u64::MAX,
                ToolMode::Rectangle => true,
            },
        }
    }

    /// Whether `on_left_released` can compute the dragged rectangle in `i32`.
    pub fn release_fits(&self) -> (r: bool)
        ensures
            r == self@.release_in_range(),
    {
        let in_text_mode = match self.tool_mode {
            ToolMode::Text => true,
            _ => false,
        };
        if self.text_annotation_drag.is_none() && self.selection_resize.is_none() && !in_text_mode {
            drag_points_fit(self.drag_start, self.drag_current)
        } else {
            true
        }
    }

    /// The pointer moved to the global pixel `(gx, gy)`: a dragged text
    /// annotation follows it, else a dragged selection edge follows it, else
    /// a drag in progress extends to it.
    pub fn on_cursor_moved(&mut self, gx: i32, gy: i32)
        requires
            old(self)@.cursor_move_in_range(gx, gy),
        ensures
            final(self)@ == old(self)@.after_cursor_moved(gx, gy),
    {
        let ghost old_view = self@;
        self.last_cursor_global = Some((gx, gy));
        if let Some(drag) = self.text_annotation_drag {
            match find_text_annotation(self.text_annotations.as_slice(), drag.id) {
                Some(i) => {
                    proof {
                        lemma_first_with_id(old_view.text_annotations, drag.id, i as int);
                    }
                    self.text_annotations[i].global_pos =
                        (gx - drag.pointer_offset.0, gy - drag.pointer_offset.1);
                    assert(self@.text_annotations =~= old_view.after_cursor_moved(
                        gx,
                        gy,
                    ).text_annotations);
                },
                None => {},
            }
        } else if let Some(resize) = self.selection_resize {
            if let Some(rect) = self.selected_rect {
                self.selected_rect = Some(resize_rect(rect, resize.edge, (gx, gy)));
            }
        } else if self.drag_start.is_some() {
            self.drag_current = Some((gx, gy));
        }
    }

    /// The left button went down at the last known pointer position.
    /// `border_hit` tells whether the pointer is on the border of the focused
    /// text annotation, `egui_blocks` whether an overlay widget takes the
    /// click.
    pub fn on_left_pressed(&mut self, border_hit: bool, egui_blocks: bool)
        requires
            old(self)@.press_in_range(border_hit, egui_blocks),
        ensures
            final(self)@ == old(self)@.after_left_pressed(border_hit, egui_blocks),
    {
        let ghost old_view = self@;
        if self.tool_mode == ToolMode::Text {
            if let Some(pointer) = self.last_cursor_global {
                if let Some(id) = self.focused_text_annotation_id {
                    if border_hit {
                        match find_text_annotation(self.text_annotations.as_slice(), id) {
                            Some(i) => {
                                proof {
                                    lemma_first_with_id(old_view.text_annotations, id, i as int);
                                }
                                let pos = self.text_annotations[i].global_pos;
                                self.text_annotation_drag = Some(
                                    TextAnnotationDrag {
                                        id,
                                        pointer_offset: (pointer.0 - pos.0, pointer.1 - pos.1),
                                    },
                                );
                            },
                            None => {},
                        }
                        return ;
                    }
                }
            }
        }
        if egui_blocks {
            return ;
        }
        let p = match self.last_cursor_global {
            Some(p) => p,
            None => return ,
        };
        match self.tool_mode {
            ToolMode::Select => {
                if let Some(rect) = self.selected_rect {
                    if let Some(edge) = detect_resize_edge(rect, p) {
                        self.selection_resize = Some(SelectionResizeDrag { edge });
                        return ;
                    }
                }
                self.selection_resize = None;
                self.drag_start = Some(p);
                self.drag_current = Some(p);
                self.selected_rect = None;
            },
            ToolMode::Text => {
                let id = self.next_text_annotation_id;
                self.next_text_annotation_id = id + 1;
                self.text_annotations.push(TextAnnotation::new(id, p));
                self.focused_text_annotation_id = Some(id);
                self.pending_text_focus_id = Some(id);
                assert(self@.text_annotations =~= old_view.text_annotations.push(
                    fresh_text_annotation(id, p),
                ));
            },
            ToolMode::Rectangle => {
                self.selection_resize = None;
                self.drag_start = Some(p);
                self.drag_current = Some(p);
            },
        }
    }

    /// The left button was released: a grab or edge drag ends, a rectangle
    /// drag adds a rectangle annotation, a selection drag sets the selection.
    pub fn on_left_released(&mut self)
        requires
            old(self)@.release_in_range(),
        ensures
            final(self)@ == old(self)@.after_left_released(),
    {
        if self.text_annotation_drag.is_some() {
            self.text_annotation_drag = None;
            return ;
        }
        if self.selection_resize.is_some() {
            self.selection_resize = None;
            return ;
        }
        match self.tool_mode {
            ToolMode::Text => {},
            ToolMode::Rectangle => {
                if let Some(rect) = selection_rect_from_points(self.drag_start, self.drag_current) {
                    if rect.2 > 0 && rect.3 > 0 {
                        self.rectangle_annotations.push(RectangleAnnotation { global_rect: rect });
                    }
                }
                self.drag_start = None;
                self.drag_current = None;
            },
            ToolMode::Select => {
                if let Some(rect) = selection_rect_from_points(self.drag_start, self.drag_current) {
                    self.selected_rect = Some(rect);
                }
                self.drag_start = None;
                self.drag_current = None;
            },
        }
    }

    /// Starts a frame. Nothing is drawn unless something changed or the
    /// caret is due to blink; otherwise the redraw flag is consumed and the
    /// plan that every window draws is returned.
    pub fn begin_frame(&mut self, caret_redraw_due: bool) -> (r: Option<FramePlan>)
        requires
            drag_points_in_range(old(self).drag_start, old(self).drag_current),
        ensures
            !old(self).needs_redraw && !caret_redraw_due ==> r is None && final(self)@ == old(
                self,
            )@,
            old(self).needs_redraw || caret_redraw_due ==> r == Some(spec_frame_plan(old(self)@))
                && final(self)@ == (SessionView { needs_redraw: false, ..old(self)@ }),
    {
        if !self.needs_redraw && !caret_redraw_due {
            return None;
        }
        self.needs_redraw = false;
        let drag_rect = selection_rect_from_points(self.drag_start, self.drag_current);
        let active_selection_rect = match self.tool_mode {
            ToolMode::Select => match drag_rect {
                Some(r) => Some(r),
                None => self.selected_rect,
            },
            _ => self.selected_rect,
        };
        let active_annotation_rect = match self.tool_mode {
            ToolMode::Rectangle => drag_rect,
            _ => None,
        };
        let show_toolbar = self.drag_start.is_none() && self.selection_resize.is_none()
            && self.selected_rect.is_some();
        Some(
            FramePlan {
                active_selection_rect,
                active_annotation_rect,
                show_toolbar,
                focused_text_annotation_id: self.focused_text_annotation_id,
                dragging_text_annotation_id: match self.text_annotation_drag {
                    Some(d) => Some(d.id),
                    None => None,
                },
                selection_resize_edge: match self.selection_resize {
                    Some(r) => Some(r.edge),
                    None => None,
                },
            },
        )
    }

    /// Records what one window's widgets asked for. The text and rectangle
    /// buttons toggle their tool at once, so windows drawn later in the same
    /// frame already see the new tool.
    pub fn apply_window_result(
        &mut self,
        outcome: &mut FrameOutcome,
        action: OverlayAction,
        focused_annotation_id: Option<u64>,
    )
        ensures
            *final(outcome) == spec_outcome_after(*old(outcome), action, focused_annotation_id),
            final(self)@ == (SessionView {
                tool_mode: spec_tool_after(old(self).tool_mode, action),
                ..old(self)@
            }),
    {
        if let Some(id) = focused_annotation_id {
            outcome.focused_text_annotation_id = Some(id);
        }
        match action {
            OverlayAction::Save => outcome.save = true,
            OverlayAction::Copy => outcome.copy = true,
            OverlayAction::StartTextInsert => {
                self.tool_mode = if self.tool_mode == ToolMode::Text {
                    ToolMode::Select
                } else {
                    ToolMode::Text
                };
            },
            OverlayAction::StartRectangleInsert => {
                self.tool_mode = if self.tool_mode == ToolMode::Rectangle {
                    ToolMode::Select
                } else {
                    ToolMode::Rectangle
                };
            },
            OverlayAction::Exit => outcome.exit = true,
            OverlayAction::NoAction => {},
        }
    }

    /// Ends a frame: the focused text annotation becomes the one a window
    /// reported (else the one being dragged), and the collected requests are
    /// decided in the order exit, save, copy. Otherwise the caret blink is
    /// scheduled exactly when the text tool is active.
    pub fn finish_frame(&mut self, outcome: FrameOutcome, plan: &FramePlan) -> (r: FrameEnd)
        ensures
            r == spec_frame_end(old(self)@, outcome),
            final(self)@ == (SessionView {
                focused_text_annotation_id: spec_frame_focus(outcome, *plan),
                caret_redraw_scheduled: if outcome.exit || outcome.save || outcome.copy {
                    old(self).caret_redraw_scheduled
                } else {
                    old(self).tool_mode == ToolMode::Text
                },
                ..old(self)@
            }),
    {
        self.focused_text_annotation_id = match outcome.focused_text_annotation_id {
            Some(id) => Some(id),
            None => plan.dragging_text_annotation_id,
        };
        if outcome.exit {
            return FrameEnd::CloseSession;
        }
        if outcome.save {
            return FrameEnd::Save(self.selected_rect);
        }
        if outcome.copy {
            return FrameEnd::Copy(self.selected_rect);
        }
        if self.tool_mode == ToolMode::Text {
            self.caret_redraw_scheduled = true;
            FrameEnd::WaitForCaretBlink
        } else {
            self.caret_redraw_scheduled = false;
            FrameEnd::Wait
        }
    }
}

// ---------------------------------------------------------------------------
// Laws
// ---------------------------------------------------------------------------

/// Text annotations keep distinct ids, all below the next id to hand out:
/// a fresh session has none, and no event, tool change or frame step breaks
/// the property.
pub proof fn lemma_text_ids_stay_unique(
    v: SessionView,
    gx: i32,
    gy: i32,
    border_hit: bool,
    egui_blocks: bool,
    has_active_session: bool,
    is_redraw_event: bool,
)
    requires
        v.ids_well_formed(),
        v.press_in_range(border_hit, egui_blocks),
    ensures
        SessionView::initial().ids_well_formed(),
        v.after_cursor_moved(gx, gy).ids_well_formed(),
        v.after_left_pressed(border_hit, egui_blocks).ids_well_formed(),
        v.after_left_released().ids_well_formed(),
        v.after_escape(has_active_session).ids_well_formed(),
        v.after_window_event(is_redraw_event).ids_well_formed(),
{
    let moved = v.after_cursor_moved(gx, gy);
    if let Some(drag) = v.text_annotation_drag {
        if has_id(v.text_annotations, drag.id) {
            let k = choose|k: int| 0 <= k < v.text_annotations.len() && v.text_annotations[k].id == drag.id;
            lemma_has_id_has_first(v.text_annotations, drag.id, k);
            let i = first_with_id(v.text_annotations, drag.id);
            assert forall|k: int| 0 <= k < moved.text_annotations.len() implies #[trigger] moved.text_annotations[k].id
                == v.text_annotations[k].id by {}
        }
    }
    let pressed = v.after_left_pressed(border_hit, egui_blocks);
    assert forall|k: int| 0 <= k < pressed.text_annotations.len() implies #[trigger] pressed.text_annotations[k].id
        < pressed.next_text_annotation_id by {
        if k < v.text_annotations.len() {
            assert(pressed.text_annotations[k] == v.text_annotations[k]);
        }
    }
    assert forall|i: int, j: int|
        0 <= i < j < pressed.text_annotations.len() implies #[trigger] pressed.text_annotations[i].id
        != #[trigger] pressed.text_annotations[j].id by {
        if j < v.text_annotations.len() {
            assert(pressed.text_annotations[i] == v.text_annotations[i]);
            assert(pressed.text_annotations[j] == v.text_annotations[j]);
        } else {
            assert(pressed.text_annotations[i] == v.text_annotations[i]);
        }
    }
}

/// Pressing in selection mode away from the selection's handles, moving the
/// pointer and releasing selects the rectangle spanned by the press and
/// release points, both included.
pub proof fn lemma_drag_selects_spanned_rect(v: SessionView, p: (i32, i32), q: (i32, i32))
    requires
        v.tool_mode == ToolMode::Select,
        v.last_cursor_global == Some(p),
        v.text_annotation_drag is None,
        match v.selected_rect {
            Some(rect) => spec_detect_resize_edge(rect, p) is None,
            None => true,
        },
    ensures
        v.after_left_pressed(false, false).after_cursor_moved(q.0, q.1).after_left_released().selected_rect
            == spec_selection_rect(Some(p), Some(q)),
        v.after_left_pressed(false, false).after_cursor_moved(
            q.0,
            q.1,
        ).after_left_released().drag_start is None,
{
}

/// In rectangle mode a press, move and release adds exactly one rectangle
/// annotation, the one spanned by the two points, and leaves the selection
/// as it was.
pub proof fn lemma_rectangle_drag_adds_spanned_rect(v: SessionView, p: (i32, i32), q: (i32, i32))
    requires
        v.tool_mode == ToolMode::Rectangle,
        v.last_cursor_global == Some(p),
        drag_rect_in_range(p, q),
        v.text_annotation_drag is None,
    ensures
        ({
            let after = v.after_left_pressed(false, false).after_cursor_moved(
                q.0,
                q.1,
            ).after_left_released();
            &&& after.rectangle_annotations == v.rectangle_annotations.push(
                RectangleAnnotation { global_rect: spec_selection_rect(Some(p), Some(q)).unwrap() },
            )
            &&& after.selected_rect == v.selected_rect
        }),
{
    let r = spec_selection_rect(Some(p), Some(q)).unwrap();
    assert(r.2 > 0 && r.3 > 0);
}

/// Grabbing the focused text annotation by its border and moving the
/// pointer moves the annotation by the pointer's displacement.
pub proof fn lemma_grabbed_text_follows_pointer(v: SessionView, i: int, q: (i32, i32))
    requires
        v.tool_mode == ToolMode::Text,
        v.last_cursor_global is Some,
        v.focused_text_annotation_id == Some(v.text_annotations[i].id),
        is_first_with_id(v.text_annotations, v.text_annotations[i].id, i),
        v.press_in_range(true, false),
        v.after_left_pressed(true, false).cursor_move_in_range(q.0, q.1),
    ensures
        ({
            let p = v.last_cursor_global.unwrap();
            let a = v.after_left_pressed(true, false).after_cursor_moved(
                q.0,
                q.1,
            ).text_annotations[i];
            &&& a.global_pos.0 == v.text_annotations[i].global_pos.0 + (q.0 - p.0)
            &&& a.global_pos.1 == v.text_annotations[i].global_pos.1 + (q.1 - p.1)
            &&& a.text == v.text_annotations[i].text
        }),
{
    lemma_first_with_id(v.text_annotations, v.text_annotations[i].id, i);
}

} // verus!
