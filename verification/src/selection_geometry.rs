use vstd::prelude::*;

use crate::desktop_geometry::DesktopRect;

verus! {

pub const RESIZE_HANDLE_THICKNESS: i32 = 8;
pub const RESIZE_HANDLE_LENGTH: i32 = 48;
pub const RESIZE_HIT_SLOP: i32 = 6;
pub const MIN_SELECTION_SIZE: i32 = 1;

/// `(x, y, width, height)` of a selection in global desktop pixels.
pub type SelectionRect = (i32, i32, i32, i32);

#[derive(Debug, Clone, Copy, PartialEq, Eq, Structural)]
pub enum ResizeEdge {
    Top,
    Bottom,
    Left,
    Right,
}

pub open spec fn in_i32(v: int) -> bool {
    i32::MIN <= v <= i32::MAX
}

pub open spec fn spec_min(a: int, b: int) -> int {
    if a <= b { a } else { b }
}

pub open spec fn spec_max(a: int, b: int) -> int {
    if a >= b { a } else { b }
}

// ---------------------------------------------------------------------------
// Selection from a drag gesture
// ---------------------------------------------------------------------------

/// The drag between two points covers both end points inclusively.
pub open spec fn drag_rect_in_range(start: (i32, i32), current: (i32, i32)) -> bool {
    &&& spec_max(start.0 as int, current.0 as int) - spec_min(start.0 as int, current.0 as int) + 1 <= i32::MAX
    &&& spec_max(start.1 as int, current.1 as int) - spec_min(start.1 as int, current.1 as int) + 1 <= i32::MAX
}

pub open spec fn drag_points_in_range(start: Option<(i32, i32)>, current: Option<(i32, i32)>) -> bool {
    match (start, current) {
        (Some(s), Some(c)) => drag_rect_in_range(s, c),
        _ => true,
    }
}

/// The normalised rectangle spanned by two drag points, both included.
pub open spec fn spec_rect_from_points(s: (i32, i32), c: (i32, i32)) -> (int, int, int, int) {
    let x0 = spec_min(s.0 as int, c.0 as int);
    let y0 = spec_min(s.1 as int, c.1 as int);
    let x1 = spec_max(s.0 as int, c.0 as int);
    let y1 = spec_max(s.1 as int, c.1 as int);
    (x0, y0, x1 - x0 + 1, y1 - y0 + 1)
}

pub open spec fn rect_matches(r: SelectionRect, s: (int, int, int, int)) -> bool {
    r.0 == s.0 && r.1 == s.1 && r.2 == s.2 && r.3 == s.3
}

pub open spec fn to_selection_rect(s: (int, int, int, int)) -> SelectionRect {
    (s.0 as i32, s.1 as i32, s.2 as i32, s.3 as i32)
}

/// The selection spanned by a drag, if both of its points are known.
pub open spec fn spec_selection_rect(start: Option<(i32, i32)>, current: Option<(i32, i32)>) -> Option<
    SelectionRect,
> {
    match (start, current) {
        (Some(s), Some(c)) => Some(to_selection_rect(spec_rect_from_points(s, c))),
        _ => None,
    }
}

pub fn selection_rect_from_points(
    start: Option<(i32, i32)>,
    current: Option<(i32, i32)>,
) -> (r: Option<SelectionRect>)
    requires
        drag_points_in_range(start, current),
    ensures
        r == spec_selection_rect(start, current),
        r matches Some(rect) ==> rect_matches(
            rect,
            spec_rect_from_points(start.unwrap(), current.unwrap()),
        ),
{
    let (sx, sy) = start?;
    let (cx, cy) = current?;
    let x0 = if sx <= cx { sx } else { cx };
    let y0 = if sy <= cy { sy } else { cy };
    let x1 = if sx >= cx { sx } else { cx };
    let y1 = if sy >= cy { sy } else { cy };
    Some((x0, y0, x1 - x0 + 1, y1 - y0 + 1))
}

// ---------------------------------------------------------------------------
// Resize handles
// ---------------------------------------------------------------------------

/// Width of the selection as drawn: never less than one pixel.
pub open spec fn bounds_w(rect: SelectionRect) -> int {
    spec_max(rect.2 as int, 1)
}

pub open spec fn bounds_h(rect: SelectionRect) -> int {
    spec_max(rect.3 as int, 1)
}

/// Length of the top and bottom handles.
pub open spec fn handle_len_h(rect: SelectionRect) -> int {
    spec_min(bounds_w(rect), RESIZE_HANDLE_LENGTH as int)
}

/// Length of the left and right handles.
pub open spec fn handle_len_v(rect: SelectionRect) -> int {
    spec_min(bounds_h(rect), RESIZE_HANDLE_LENGTH as int)
}

/// Left end of the (centred) top and bottom handles.
pub open spec fn handle_x(rect: SelectionRect) -> int {
    rect.0 + (bounds_w(rect) - handle_len_h(rect)) / 2
}

/// Top end of the (centred) left and right handles.
pub open spec fn handle_y(rect: SelectionRect) -> int {
    rect.1 + (bounds_h(rect) - handle_len_v(rect)) / 2
}

/// Origin of the handle on `edge`: centred across the edge line.
pub open spec fn handle_origin(rect: SelectionRect, edge: ResizeEdge) -> (int, int) {
    let half = RESIZE_HANDLE_THICKNESS / 2;
    match edge {
        ResizeEdge::Top => (handle_x(rect), rect.1 - half),
        ResizeEdge::Bottom => (handle_x(rect), rect.1 + bounds_h(rect) - half),
        ResizeEdge::Left => (rect.0 - half, handle_y(rect)),
        ResizeEdge::Right => (rect.0 + bounds_w(rect) - half, handle_y(rect)),
    }
}

pub open spec fn handle_size(rect: SelectionRect, edge: ResizeEdge) -> (int, int) {
    match edge {
        ResizeEdge::Top | ResizeEdge::Bottom => (handle_len_h(rect), RESIZE_HANDLE_THICKNESS as int),
        ResizeEdge::Left | ResizeEdge::Right => (RESIZE_HANDLE_THICKNESS as int, handle_len_v(rect)),
    }
}

/// Every intermediate value of computing the handle of `edge` fits in `i32`.
pub open spec fn handle_in_range(rect: SelectionRect, edge: ResizeEdge) -> bool {
    &&& in_i32(handle_x(rect))
    &&& in_i32(handle_y(rect))
    &&& in_i32(handle_origin(rect, edge).0)
    &&& in_i32(handle_origin(rect, edge).1)
    &&& (edge == ResizeEdge::Bottom ==> in_i32(rect.1 + bounds_h(rect)))
    &&& (edge == ResizeEdge::Right ==> in_i32(rect.0 + bounds_w(rect)))
}

pub open spec fn spec_handle(rect: SelectionRect, edge: ResizeEdge) -> DesktopRect {
    DesktopRect {
        x: handle_origin(rect, edge).0 as i32,
        y: handle_origin(rect, edge).1 as i32,
        width: handle_size(rect, edge).0 as i32,
        height: handle_size(rect, edge).1 as i32,
    }
}

fn selection_bounds(rect: SelectionRect) -> (r: DesktopRect)
    ensures
        r.x == rect.0,
        r.y == rect.1,
        r.width == bounds_w(rect),
        r.height == bounds_h(rect),
{
    DesktopRect::from_origin_size(
        (rect.0, rect.1),
        (if rect.2 >= 1 { rect.2 } else { 1 }, if rect.3 >= 1 { rect.3 } else { 1 }),
    )
}

pub fn edge_handle_rect(rect: SelectionRect, edge: ResizeEdge) -> (r: DesktopRect)
    requires
        handle_in_range(rect, edge),
    ensures
        r == spec_handle(rect, edge),
{
    let bounds = selection_bounds(rect);
    let horizontal_length = if bounds.width <= RESIZE_HANDLE_LENGTH {
        bounds.width
    } else {
        RESIZE_HANDLE_LENGTH
    };
    let vertical_length = if bounds.height <= RESIZE_HANDLE_LENGTH {
        bounds.height
    } else {
        RESIZE_HANDLE_LENGTH
    };
    let horizontal_x = bounds.x + (bounds.width - horizontal_length) / 2;
    let vertical_y = bounds.y + (bounds.height - vertical_length) / 2;
    let half_thickness = RESIZE_HANDLE_THICKNESS / 2;

    match edge {
        ResizeEdge::Top => DesktopRect::from_origin_size(
            (horizontal_x, bounds.y - half_thickness),
            (horizontal_length, RESIZE_HANDLE_THICKNESS),
        ),
        ResizeEdge::Bottom => DesktopRect::from_origin_size(
            (horizontal_x, bounds.bottom() - half_thickness),
            (horizontal_length, RESIZE_HANDLE_THICKNESS),
        ),
        ResizeEdge::Left => DesktopRect::from_origin_size(
            (bounds.x - half_thickness, vertical_y),
            (RESIZE_HANDLE_THICKNESS, vertical_length),
        ),
        ResizeEdge::Right => DesktopRect::from_origin_size(
            (bounds.right() - half_thickness, vertical_y),
            (RESIZE_HANDLE_THICKNESS, vertical_length),
        ),
    }
}

/// All four handles can be computed.
pub open spec fn all_handles_in_range(rect: SelectionRect) -> bool {
    &&& handle_in_range(rect, ResizeEdge::Top)
    &&& handle_in_range(rect, ResizeEdge::Bottom)
    &&& handle_in_range(rect, ResizeEdge::Left)
    &&& handle_in_range(rect, ResizeEdge::Right)
}

pub fn all_edge_handles(rect: SelectionRect) -> (r: [(ResizeEdge, DesktopRect); 4])
    requires
        all_handles_in_range(rect),
    ensures
        r@ == seq![
            (ResizeEdge::Top, spec_handle(rect, ResizeEdge::Top)),
            (ResizeEdge::Bottom, spec_handle(rect, ResizeEdge::Bottom)),
            (ResizeEdge::Left, spec_handle(rect, ResizeEdge::Left)),
            (ResizeEdge::Right, spec_handle(rect, ResizeEdge::Right)),
        ],
{
    let r = [
        (ResizeEdge::Top, edge_handle_rect(rect, ResizeEdge::Top)),
        (ResizeEdge::Bottom, edge_handle_rect(rect, ResizeEdge::Bottom)),
        (ResizeEdge::Left, edge_handle_rect(rect, ResizeEdge::Left)),
        (ResizeEdge::Right, edge_handle_rect(rect, ResizeEdge::Right)),
    ];
    assert(r@ =~= seq![
        (ResizeEdge::Top, spec_handle(rect, ResizeEdge::Top)),
        (ResizeEdge::Bottom, spec_handle(rect, ResizeEdge::Bottom)),
        (ResizeEdge::Left, spec_handle(rect, ResizeEdge::Left)),
        (ResizeEdge::Right, spec_handle(rect, ResizeEdge::Right)),
    ]);
    r
}


/// The handle grown by `slop` pixels on every side (before clamping the
/// size at zero).
pub open spec fn expanded_in_range(rect: SelectionRect, edge: ResizeEdge, slop: i32) -> bool {
    let h = spec_handle(rect, edge);
    &&& handle_in_range(rect, edge)
    &&& in_i32(slop * 2)
    &&& in_i32(h.x - slop)
    &&& in_i32(h.y - slop)
    &&& in_i32(h.width + slop * 2)
    &&& in_i32(h.height + slop * 2)
    &&& spec_expanded(rect, edge, slop).edges_in_range()
}

pub open spec fn spec_expanded(rect: SelectionRect, edge: ResizeEdge, slop: i32) -> DesktopRect {
    let h = spec_handle(rect, edge);
    DesktopRect {
        x: (h.x - slop) as i32,
        y: (h.y - slop) as i32,
        width: spec_max(h.width + slop * 2, 0) as i32,
        height: spec_max(h.height + slop * 2, 0) as i32,
    }
}

fn expanded_handle_rect(rect: SelectionRect, edge: ResizeEdge, slop: i32) -> (r: DesktopRect)
    requires
        expanded_in_range(rect, edge, slop),
    ensures
        r == spec_expanded(rect, edge, slop),
{
    let handle = edge_handle_rect(rect, edge);
    DesktopRect::from_origin_size(
        (handle.x - slop, handle.y - slop),
        (handle.width + slop * 2, handle.height + slop * 2),
    )
}

/// The pointer lies on the (slop-expanded) handle of `edge`.
pub open spec fn handle_hit(rect: SelectionRect, edge: ResizeEdge, point: (i32, i32)) -> bool {
    spec_expanded(rect, edge, RESIZE_HIT_SLOP).has_point((point.0 as int, point.1 as int))
}

/// The handles are tried in the order top, bottom, left, right; a handle is
/// only computed when no earlier one was hit.
pub open spec fn detect_in_range(rect: SelectionRect, point: (i32, i32)) -> bool {
    &&& expanded_in_range(rect, ResizeEdge::Top, RESIZE_HIT_SLOP)
    &&& (handle_hit(rect, ResizeEdge::Top, point) || {
        &&& expanded_in_range(rect, ResizeEdge::Bottom, RESIZE_HIT_SLOP)
        &&& (handle_hit(rect, ResizeEdge::Bottom, point) || {
            &&& expanded_in_range(rect, ResizeEdge::Left, RESIZE_HIT_SLOP)
            &&& (handle_hit(rect, ResizeEdge::Left, point) || expanded_in_range(
                rect,
                ResizeEdge::Right,
                RESIZE_HIT_SLOP,
            ))
        })
    })
}

/// The first edge, in the order top, bottom, left, right, whose handle the
/// pointer hits.
pub open spec fn spec_detect_resize_edge(rect: SelectionRect, point: (i32, i32)) -> Option<ResizeEdge> {
    if handle_hit(rect, ResizeEdge::Top, point) {
        Some(ResizeEdge::Top)
    } else if handle_hit(rect, ResizeEdge::Bottom, point) {
        Some(ResizeEdge::Bottom)
    } else if handle_hit(rect, ResizeEdge::Left, point) {
        Some(ResizeEdge::Left)
    } else if handle_hit(rect, ResizeEdge::Right, point) {
        Some(ResizeEdge::Right)
    } else {
        None
    }
}

pub fn detect_resize_edge(rect: SelectionRect, point: (i32, i32)) -> (r: Option<ResizeEdge>)
    requires
        detect_in_range(rect, point),
    ensures
        r == spec_detect_resize_edge(rect, point),
{
    if expanded_handle_rect(rect, ResizeEdge::Top, RESIZE_HIT_SLOP).contains_point(point) {
        return Some(ResizeEdge::Top);
    }
    if expanded_handle_rect(rect, ResizeEdge::Bottom, RESIZE_HIT_SLOP).contains_point(point) {
        return Some(ResizeEdge::Bottom);
    }
    if expanded_handle_rect(rect, ResizeEdge::Left, RESIZE_HIT_SLOP).contains_point(point) {
        return Some(ResizeEdge::Left);
    }
    if expanded_handle_rect(rect, ResizeEdge::Right, RESIZE_HIT_SLOP).contains_point(point) {
        return Some(ResizeEdge::Right);
    }
    None
}

// ---------------------------------------------------------------------------
// Resizing
// ---------------------------------------------------------------------------

/// `(x0, y0, x1, y1)` of the resized selection, right and bottom exclusive.
pub open spec fn spec_resize_edges(rect: SelectionRect, edge: ResizeEdge, pointer: (i32, i32)) -> (
    int,
    int,
    int,
    int,
) {
    let x0 = rect.0 as int;
    let y0 = rect.1 as int;
    let x1 = rect.0 + spec_max(rect.2 as int, MIN_SELECTION_SIZE as int);
    let y1 = rect.1 + spec_max(rect.3 as int, MIN_SELECTION_SIZE as int);
    match edge {
        ResizeEdge::Top => (x0, spec_min(pointer.1 as int, y1 - MIN_SELECTION_SIZE), x1, y1),
        ResizeEdge::Bottom => (x0, y0, x1, spec_max(pointer.1 + 1, y0 + MIN_SELECTION_SIZE)),
        ResizeEdge::Left => (spec_min(pointer.0 as int, x1 - MIN_SELECTION_SIZE), y0, x1, y1),
        ResizeEdge::Right => (x0, y0, spec_max(pointer.0 + 1, x0 + MIN_SELECTION_SIZE), y1),
    }
}

pub open spec fn spec_resize_rect(rect: SelectionRect, edge: ResizeEdge, pointer: (i32, i32)) -> (
    int,
    int,
    int,
    int,
) {
    let e = spec_resize_edges(rect, edge, pointer);
    (e.0, e.1, e.2 - e.0, e.3 - e.1)
}

pub open spec fn resize_in_range(rect: SelectionRect, edge: ResizeEdge, pointer: (i32, i32)) -> bool {
    let r = spec_resize_rect(rect, edge, pointer);
    &&& in_i32(rect.0 + spec_max(rect.2 as int, MIN_SELECTION_SIZE as int))
    &&& in_i32(rect.1 + spec_max(rect.3 as int, MIN_SELECTION_SIZE as int))
    &&& (edge == ResizeEdge::Bottom ==> in_i32(pointer.1 + 1))
    &&& (edge == ResizeEdge::Right ==> in_i32(pointer.0 + 1))
    &&& in_i32(r.2)
    &&& in_i32(r.3)
}

pub fn resize_rect(rect: SelectionRect, edge: ResizeEdge, pointer: (i32, i32)) -> (r: SelectionRect)
    requires
        resize_in_range(rect, edge, pointer),
    ensures
        rect_matches(r, spec_resize_rect(rect, edge, pointer)),
        r.2 >= MIN_SELECTION_SIZE,
        r.3 >= MIN_SELECTION_SIZE,
{
    let (x, y, width, height) = rect;
    let mut x0 = x;
    let mut y0 = y;
    let mut x1 = x + if width >= MIN_SELECTION_SIZE { width } else { MIN_SELECTION_SIZE };
    let mut y1 = y + if height >= MIN_SELECTION_SIZE { height } else { MIN_SELECTION_SIZE };

    match edge {
        ResizeEdge::Top => {
            let limit = y1 - MIN_SELECTION_SIZE;
            y0 = if pointer.1 <= limit { pointer.1 } else { limit };
        },
        ResizeEdge::Bottom => {
            let moved = pointer.1 + 1;
            let limit = y0 + MIN_SELECTION_SIZE;
            y1 = if moved >= limit { moved } else { limit };
        },
        ResizeEdge::Left => {
            let limit = x1 - MIN_SELECTION_SIZE;
            x0 = if pointer.0 <= limit { pointer.0 } else { limit };
        },
        ResizeEdge::Right => {
            let moved = pointer.0 + 1;
            let limit = x0 + MIN_SELECTION_SIZE;
            x1 = if moved >= limit { moved } else { limit };
        },
    }

    (x0, y0, x1 - x0, y1 - y0)
}

// ---------------------------------------------------------------------------
// Testing that the arithmetic above fits in `i32`
// ---------------------------------------------------------------------------

pub(crate) fn fits_i32(v: i64) -> (r: bool)
    ensures
        r == in_i32(v as int),
{
    i32::MIN as i64 <= v && v <= i32::MAX as i64
}

/// Whether the selection spanned by a drag can be computed.
pub fn drag_points_fit(start: Option<(i32, i32)>, current: Option<(i32, i32)>) -> (r: bool)
    ensures
        r == drag_points_in_range(start, current),
{
    match (start, current) {
        (Some(s), Some(c)) => {
            let (sx, sy, cx, cy) = (s.0 as i64, s.1 as i64, c.0 as i64, c.1 as i64);
            let w = if sx >= cx { sx - cx } else { cx - sx };
            let h = if sy >= cy { sy - cy } else { cy - sy };
            w + 1 <= i32::MAX as i64 && h + 1 <= i32::MAX as i64
        },
        _ => true,
    }
}

/// Whether dragging the handle of `edge` to `pointer` can be computed.
pub fn resize_fits(rect: SelectionRect, edge: ResizeEdge, pointer: (i32, i32)) -> (r: bool)
    ensures
        r == resize_in_range(rect, edge, pointer),
{
    let (x, y) = (rect.0 as i64, rect.1 as i64);
    let w = if rect.2 >= MIN_SELECTION_SIZE { rect.2 as i64 } else { MIN_SELECTION_SIZE as i64 };
    let h = if rect.3 >= MIN_SELECTION_SIZE { rect.3 as i64 } else { MIN_SELECTION_SIZE as i64 };
    let (px, py) = (pointer.0 as i64, pointer.1 as i64);
    let mut x0 = x;
    let mut y0 = y;
    let mut x1 = x + w;
    let mut y1 = y + h;
    let edges_fit = fits_i32(x1) && fits_i32(y1);
    let pointer_fits = match edge {
        ResizeEdge::Bottom => fits_i32(py + 1),
        ResizeEdge::Right => fits_i32(px + 1),
        _ => true,
    };
    match edge {
        ResizeEdge::Top => {
            y0 = if py <= y1 - 1 { py } else { y1 - 1 };
        },
        ResizeEdge::Bottom => {
            y1 = if py + 1 >= y0 + 1 { py + 1 } else { y0 + 1 };
        },
        ResizeEdge::Left => {
            x0 = if px <= x1 - 1 { px } else { x1 - 1 };
        },
        ResizeEdge::Right => {
            x1 = if px + 1 >= x0 + 1 { px + 1 } else { x0 + 1 };
        },
    }
    edges_fit && pointer_fits && fits_i32(x1 - x0) && fits_i32(y1 - y0)
}

/// The handle of `edge` as `(x, y, width, height)` in `i64`, and whether
/// computing it fits in `i32`.
fn handle_geometry(rect: SelectionRect, edge: ResizeEdge) -> (r: (i64, i64, i64, i64, bool))
    ensures
        r.4 == handle_in_range(rect, edge),
        r.4 ==> {
            let h = spec_handle(rect, edge);
            &&& r.0 == h.x
            &&& r.1 == h.y
            &&& r.2 == h.width
            &&& r.3 == h.height
        },
{
    let (x, y) = (rect.0 as i64, rect.1 as i64);
    let bw = if rect.2 >= 1 { rect.2 as i64 } else { 1 };
    let bh = if rect.3 >= 1 { rect.3 as i64 } else { 1 };
    let len_h = if bw <= RESIZE_HANDLE_LENGTH as i64 { bw } else { RESIZE_HANDLE_LENGTH as i64 };
    let len_v = if bh <= RESIZE_HANDLE_LENGTH as i64 { bh } else { RESIZE_HANDLE_LENGTH as i64 };
    let hx = x + (bw - len_h) / 2;
    let hy = y + (bh - len_v) / 2;
    let half = (RESIZE_HANDLE_THICKNESS / 2) as i64;
    let thick = RESIZE_HANDLE_THICKNESS as i64;
    let (ox, oy, sw, sh) = match edge {
        ResizeEdge::Top => (hx, y - half, len_h, thick),
        ResizeEdge::Bottom => (hx, y + bh - half, len_h, thick),
        ResizeEdge::Left => (x - half, hy, thick, len_v),
        ResizeEdge::Right => (x + bw - half, hy, thick, len_v),
    };
    let far_fits = match edge {
        ResizeEdge::Bottom => fits_i32(y + bh),
        ResizeEdge::Right => fits_i32(x + bw),
        _ => true,
    };
    (ox, oy, sw, sh, fits_i32(hx) && fits_i32(hy) && fits_i32(ox) && fits_i32(oy) && far_fits)
}

/// Whether the handle of `edge`, far edges included, can be computed.
pub(crate) fn handle_fits(rect: SelectionRect, edge: ResizeEdge) -> (r: bool)
    ensures
        r == (handle_in_range(rect, edge) && spec_handle(rect, edge).edges_in_range()),
{
    let (ox, oy, sw, sh, ok) = handle_geometry(rect, edge);
    ok && fits_i32(ox + sw) && fits_i32(oy + sh)
}

/// Whether the slop-expanded handle of `edge` can be computed.
fn expanded_fits(rect: SelectionRect, edge: ResizeEdge) -> (r: bool)
    ensures
        r == expanded_in_range(rect, edge, RESIZE_HIT_SLOP),
{
    let (ox, oy, sw, sh, ok) = handle_geometry(rect, edge);
    let slop = RESIZE_HIT_SLOP as i64;
    ok && fits_i32(ox - slop) && fits_i32(oy - slop) && fits_i32(ox - slop + sw + 2 * slop)
        && fits_i32(oy - slop + sh + 2 * slop)
}

/// Whether looking for the handle under `point` can be computed.
pub fn detect_fits(rect: SelectionRect, point: (i32, i32)) -> (r: bool)
    ensures
        r == detect_in_range(rect, point),
{
    if !expanded_fits(rect, ResizeEdge::Top) {
        return false;
    }
    if expanded_handle_rect(rect, ResizeEdge::Top, RESIZE_HIT_SLOP).contains_point(point) {
        return true;
    }
    if !expanded_fits(rect, ResizeEdge::Bottom) {
        return false;
    }
    if expanded_handle_rect(rect, ResizeEdge::Bottom, RESIZE_HIT_SLOP).contains_point(point) {
        return true;
    }
    if !expanded_fits(rect, ResizeEdge::Left) {
        return false;
    }
    if expanded_handle_rect(rect, ResizeEdge::Left, RESIZE_HIT_SLOP).contains_point(point) {
        return true;
    }
    expanded_fits(rect, ResizeEdge::Right)
}

/// Dragging from either corner gives the same selection: the spanned
/// rectangle, and whether it can be computed, do not depend on which of the
/// two points the drag started at.
pub proof fn lemma_drag_is_symmetric(start: Option<(i32, i32)>, current: Option<(i32, i32)>)
    ensures
        spec_selection_rect(start, current) == spec_selection_rect(current, start),
        drag_points_in_range(start, current) == drag_points_in_range(current, start),
{
}

/// Dragging a handle to the same pointer a second time changes nothing:
/// the resized selection can be resized again and stays as it is.
pub proof fn lemma_resize_is_idempotent(rect: SelectionRect, edge: ResizeEdge, pointer: (i32, i32))
    requires
        resize_in_range(rect, edge, pointer),
    ensures
        ({
            let once = spec_resize_rect(rect, edge, pointer);
            &&& resize_in_range(to_selection_rect(once), edge, pointer)
            &&& spec_resize_rect(to_selection_rect(once), edge, pointer) == once
        }),
{
}

/// The dragged edge follows the pointer, stopped only one pixel short of the
/// opposite edge, whatever the selection's previous extent in that
/// direction: the bottom or right handle dragged to a row or column at or
/// past the opposite edge makes that row or column the selection's last;
/// the top or left handle dragged to one before the opposite (exclusive)
/// edge makes it the selection's first. Otherwise the selection keeps its
/// minimum size of one pixel against the opposite edge.
pub proof fn lemma_resize_follows_pointer(rect: SelectionRect, edge: ResizeEdge, pointer: (i32, i32))
    ensures
        ({
            let r = spec_resize_rect(rect, edge, pointer);
            let bottom = rect.1 + spec_max(rect.3 as int, 1);
            let right = rect.0 + spec_max(rect.2 as int, 1);
            match edge {
                ResizeEdge::Bottom => r.1 == rect.1 && if rect.1 <= pointer.1 {
                    r.3 == pointer.1 - rect.1 + 1
                } else {
                    r.3 == 1
                },
                ResizeEdge::Right => r.0 == rect.0 && if rect.0 <= pointer.0 {
                    r.2 == pointer.0 - rect.0 + 1
                } else {
                    r.2 == 1
                },
                ResizeEdge::Top => r.1 + r.3 == bottom && if pointer.1 < bottom {
                    r.1 == pointer.1
                } else {
                    r.3 == 1
                },
                ResizeEdge::Left => r.0 + r.2 == right && if pointer.0 < right {
                    r.0 == pointer.0
                } else {
                    r.2 == 1
                },
            }
        }),
{
}

/// Dragging a handle only moves the dragged edge: the opposite edge and the
/// extent across the drag direction keep their (at least one pixel) values.
pub proof fn lemma_resize_moves_only_target_edge(
    rect: SelectionRect,
    edge: ResizeEdge,
    pointer: (i32, i32),
)
    ensures
        ({
            let r = spec_resize_rect(rect, edge, pointer);
            let w = spec_max(rect.2 as int, 1);
            let h = spec_max(rect.3 as int, 1);
            match edge {
                ResizeEdge::Top => r.0 == rect.0 && r.2 == w && r.1 + r.3 == rect.1 + h,
                ResizeEdge::Bottom => r.0 == rect.0 && r.2 == w && r.1 == rect.1,
                ResizeEdge::Left => r.1 == rect.1 && r.3 == h && r.0 + r.2 == rect.0 + w,
                ResizeEdge::Right => r.1 == rect.1 && r.3 == h && r.0 == rect.0,
            }
        }),
        spec_resize_rect(rect, edge, pointer).2 >= MIN_SELECTION_SIZE,
        spec_resize_rect(rect, edge, pointer).3 >= MIN_SELECTION_SIZE,
{
}

/// Dragging a handle onto the edge's current pixel leaves a selection of
/// positive size unchanged.
pub proof fn lemma_resize_onto_current_edge_is_identity(rect: SelectionRect, edge: ResizeEdge, pointer: (i32, i32))
    requires
        rect.2 >= 1,
        rect.3 >= 1,
        match edge {
            ResizeEdge::Top => pointer.1 == rect.1,
            ResizeEdge::Bottom => pointer.1 == rect.1 + rect.3 - 1,
            ResizeEdge::Left => pointer.0 == rect.0,
            ResizeEdge::Right => pointer.0 == rect.0 + rect.2 - 1,
        },
    ensures
        rect_matches(rect, spec_resize_rect(rect, edge, pointer)),
{
}

/// The pixel in the middle of the top edge always grabs the top handle.
pub proof fn lemma_top_edge_midpoint_hits_top(rect: SelectionRect)
    requires
        rect.2 >= 1,
        rect.3 >= 1,
        expanded_in_range(rect, ResizeEdge::Top, RESIZE_HIT_SLOP),
        in_i32(rect.0 + rect.2 / 2),
    ensures
        spec_detect_resize_edge(rect, ((rect.0 + rect.2 / 2) as i32, rect.1)) == Some(ResizeEdge::Top),
{
}

} // verus!
