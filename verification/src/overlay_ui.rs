use vstd::prelude::*;

use crate::desktop_geometry::DesktopRect;
use crate::selection_geometry::{fits_i32, in_i32, SelectionRect};

verus! {

/// The size label is owned by the window holding the bottom-left pixel of
/// the selection.
pub fn size_label_anchor(x: i32, y: i32, h: i32) -> (r: (i32, i32))
    requires
        in_i32(y + h),
        in_i32(y + h - 1),
    ensures
        r.0 == x,
        r.1 == y + h - 1,
{
    (x, y + h - 1)
}

/// The toolbar is owned by the window holding the top-right pixel of the
/// selection.
pub fn toolbar_anchor(x: i32, y: i32, w: i32) -> (r: (i32, i32))
    requires
        in_i32(x + w),
        in_i32(x + w - 1),
    ensures
        r.0 == x + w - 1,
        r.1 == y,
{
    (x + w - 1, y)
}

/// The anchor lies in the half-open window rectangle `[gx0, gx1) x [gy0, gy1)`.
pub open spec fn spec_owns(anchor: (i32, i32), gx0: int, gy0: int, gx1: int, gy1: int) -> bool {
    &&& gx0 <= anchor.0 < gx1
    &&& gy0 <= anchor.1 < gy1
}

/// Returns `true` if `anchor` belongs to the window described by the given
/// global-pixel rectangle `[gx0, gx1) x [gy0, gy1)`.
///
/// Right and bottom edges are exclusive so each pixel is owned by exactly
/// one monitor, which prevents duplicate UI at screen junctions.
pub fn anchor_owns_window(
    anchor: (i32, i32),
    win_gx0: i32,
    win_gy0: i32,
    win_gx1: i32,
    win_gy1: i32,
) -> (r: bool)
    ensures
        r == spec_owns(anchor, win_gx0 as int, win_gy0 as int, win_gx1 as int, win_gy1 as int),
{
    anchor.0 >= win_gx0 && anchor.0 < win_gx1 && anchor.1 >= win_gy0 && anchor.1 < win_gy1
}

/// Ownership of an anchor agrees with the pixel membership of the window's
/// desktop rectangle.
pub proof fn lemma_owns_is_contains(anchor: (i32, i32), win: DesktopRect)
    ensures
        spec_owns(anchor, win.x as int, win.y as int, win.spec_right(), win.spec_bottom())
            == win.has_point((anchor.0 as int, anchor.1 as int)),
{
}

/// Two windows side by side (the right edge of the left one is the left edge
/// of the right one, same rows): every anchor in their rows between the outer
/// edges is owned by exactly one of them.
pub proof fn lemma_side_by_side_windows_own_each_anchor_once(
    anchor: (i32, i32),
    x0: int,
    seam: int,
    x1: int,
    gy0: int,
    gy1: int,
)
    requires
        x0 <= anchor.0 < x1,
        gy0 <= anchor.1 < gy1,
    ensures
        spec_owns(anchor, x0, gy0, seam, gy1) != spec_owns(anchor, seam, gy0, x1, gy1),
{
}

/// Two windows stacked vertically (the bottom edge of the upper one is the
/// top edge of the lower one, same columns): every anchor in their columns
/// between the outer edges is owned by exactly one of them.
pub proof fn lemma_stacked_windows_own_each_anchor_once(
    anchor: (i32, i32),
    gx0: int,
    gx1: int,
    y0: int,
    seam: int,
    y1: int,
)
    requires
        gx0 <= anchor.0 < gx1,
        y0 <= anchor.1 < y1,
    ensures
        spec_owns(anchor, gx0, y0, gx1, seam) != spec_owns(anchor, gx0, seam, gx1, y1),
{
}

/// The tool that a click on the capture overlay uses.
#[derive(Debug, Clone, Copy, PartialEq, Eq, Structural)]
pub enum ToolMode {
    Select,
    Text,
    Rectangle,
}

impl Default for ToolMode {
    fn default() -> (r: Self)
        ensures
            r == ToolMode::Select,
    {
        ToolMode::Select
    }
}

/// Action requested by an overlay widget during a frame.
#[derive(Debug, Clone, Copy, PartialEq, Eq, Structural)]
pub enum OverlayAction {
    NoAction,
    Save,
    Copy,
    StartTextInsert,
    StartRectangleInsert,
    Exit,
}

/// Which overlay widgets one window draws in this frame.
#[derive(Debug, Clone, Copy, PartialEq, Eq, Structural)]
pub struct OverlayWidgets {
    pub size_label: bool,
    pub toolbar: bool,
}

/// Overlay widgets of the capture session. The drawing itself happens in the
/// windowing layer; this type decides which window owns which widget.
pub struct OverlayUi;

/// The window rectangle `[origin, origin + size)` fits in `i32`.
pub open spec fn window_in_range(window_origin: (i32, i32), window_size: (u32, u32)) -> bool {
    &&& window_size.0 <= i32::MAX
    &&& window_size.1 <= i32::MAX
    &&& in_i32(window_origin.0 + window_size.0)
    &&& in_i32(window_origin.1 + window_size.1)
}

/// The selection's anchors can be computed.
pub open spec fn selection_anchors_in_range(rect: SelectionRect) -> bool {
    &&& in_i32(rect.1 + rect.3)
    &&& in_i32(rect.1 + rect.3 - 1)
    &&& in_i32(rect.0 + rect.2)
    &&& in_i32(rect.0 + rect.2 - 1)
}

/// The window owns the size label of a non-empty selection.
pub open spec fn owns_size_label(rect: SelectionRect, window_origin: (i32, i32), window_size: (u32, u32)) -> bool {
    spec_owns(
        (rect.0, (rect.1 + rect.3 - 1) as i32),
        window_origin.0 as int,
        window_origin.1 as int,
        window_origin.0 + window_size.0,
        window_origin.1 + window_size.1,
    )
}

/// The window owns the toolbar of a non-empty selection.
pub open spec fn owns_toolbar(rect: SelectionRect, window_origin: (i32, i32), window_size: (u32, u32)) -> bool {
    spec_owns(
        ((rect.0 + rect.2 - 1) as i32, rect.1),
        window_origin.0 as int,
        window_origin.1 as int,
        window_origin.0 + window_size.0,
        window_origin.1 + window_size.1,
    )
}

pub open spec fn spec_widgets(
    active_rect: Option<SelectionRect>,
    show_toolbar: bool,
    window_origin: (i32, i32),
    window_size: (u32, u32),
) -> OverlayWidgets {
    match active_rect {
        Some(rect) => if rect.2 <= 0 || rect.3 <= 0 {
            OverlayWidgets { size_label: false, toolbar: false }
        } else {
            OverlayWidgets {
                size_label: owns_size_label(rect, window_origin, window_size),
                toolbar: show_toolbar && owns_toolbar(rect, window_origin, window_size),
            }
        },
        None => OverlayWidgets { size_label: false, toolbar: false },
    }
}

/// Whether deciding the widgets of the window at `window_origin` of size
/// `window_size` for `active_rect` can compute its anchors and the window's
/// far edges in `i32`.
pub fn widgets_args_fit(
    active_rect: Option<SelectionRect>,
    window_origin: (i32, i32),
    window_size: (u32, u32),
) -> (r: bool)
    ensures
        r == (window_in_range(window_origin, window_size) && match active_rect {
            Some(rect) => rect.2 > 0 && rect.3 > 0 ==> selection_anchors_in_range(rect),
            None => true,
        }),
{
    let window_fits = window_size.0 <= i32::MAX as u32 && window_size.1 <= i32::MAX as u32
        && fits_i32(window_origin.0 as i64 + window_size.0 as i64) && fits_i32(
        window_origin.1 as i64 + window_size.1 as i64,
    );
    let anchors_fit = match active_rect {
        Some(rect) => if rect.2 > 0 && rect.3 > 0 {
            let bottom = rect.1 as i64 + rect.3 as i64;
            let right = rect.0 as i64 + rect.2 as i64;
            fits_i32(bottom) && fits_i32(bottom - 1) && fits_i32(right) && fits_i32(right - 1)
        } else {
            true
        },
        None => true,
    };
    window_fits && anchors_fit
}

impl OverlayUi {
    pub fn new() -> (r: Self) {
        OverlayUi
    }

    /// Decides which widgets the window at `window_origin` of size
    /// `window_size` draws for the active selection. Ownership uses fixed
    /// selection corners so a cross-monitor selection never moves its
    /// widgets between windows while the cursor moves. The toolbar is shown
    /// only when `show_toolbar` is set (the selection is confirmed).
    pub fn widgets_for_window(
        &self,
        active_rect: Option<SelectionRect>,
        show_toolbar: bool,
        window_origin: (i32, i32),
        window_size: (u32, u32),
    ) -> (r: OverlayWidgets)
        requires
            window_in_range(window_origin, window_size),
            match active_rect {
                Some(rect) => rect.2 > 0 && rect.3 > 0 ==> selection_anchors_in_range(rect),
                None => true,
            },
        ensures
            r == spec_widgets(active_rect, show_toolbar, window_origin, window_size),
    {
        let none = OverlayWidgets { size_label: false, toolbar: false };
        let (x, y, w, h) = match active_rect {
            Some(rect) => rect,
            None => return none,
        };
        if w <= 0 || h <= 0 {
            return none;
        }
        let win_gx0 = window_origin.0;
        let win_gy0 = window_origin.1;
        let win_gx1 = win_gx0 + window_size.0 as i32;
        let win_gy1 = win_gy0 + window_size.1 as i32;
        let label_anchor = size_label_anchor(x, y, h);
        let toolbar_corner = toolbar_anchor(x, y, w);
        let owns_label = anchor_owns_window(label_anchor, win_gx0, win_gy0, win_gx1, win_gy1);
        let owns_bar = anchor_owns_window(toolbar_corner, win_gx0, win_gy0, win_gx1, win_gy1);
        OverlayWidgets { size_label: owns_label, toolbar: show_toolbar && owns_bar }
    }
}

/// Windows whose desktop rectangles do not overlap never both draw the same
/// widget: a selection's size label and toolbar each appear at most once,
/// whatever the selection and however it spans the monitors.
pub proof fn lemma_widgets_never_duplicated(
    active_rect: Option<SelectionRect>,
    show_toolbar: bool,
    a_origin: (i32, i32),
    a_size: (u32, u32),
    b_origin: (i32, i32),
    b_size: (u32, u32),
)
    requires
        a_origin.0 + a_size.0 <= b_origin.0 || b_origin.0 + b_size.0 <= a_origin.0
            || a_origin.1 + a_size.1 <= b_origin.1 || b_origin.1 + b_size.1 <= a_origin.1,
    ensures
        !(spec_widgets(active_rect, show_toolbar, a_origin, a_size).size_label && spec_widgets(
            active_rect,
            show_toolbar,
            b_origin,
            b_size,
        ).size_label),
        !(spec_widgets(active_rect, show_toolbar, a_origin, a_size).toolbar && spec_widgets(
            active_rect,
            show_toolbar,
            b_origin,
            b_size,
        ).toolbar),
{
}

} // verus!
