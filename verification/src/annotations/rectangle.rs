use vstd::prelude::*;

use crate::desktop_geometry::DesktopRect;
use crate::frame::{
    fill_with, frame_fits, frame_fits_len, frame_painted, in_frame, lemma_paint_one_more,
    lemma_painted_compose_const, lemma_painted_nothing, lemma_painted_same_region, pack_rgb,
    lemma_pixel_index_bounds, pixel_index, set_frame_pixel, spec_pack_rgb,
};
use crate::image_buffer::{image_dims, image_pixels, PixelImage};
use crate::selection_geometry::{fits_i32, in_i32};

verus! {

pub const RECTANGLE_BORDER_THICKNESS: i32 = 3;

/// A rectangle outline drawn over the capture, in global desktop pixels.
#[derive(Debug, Clone, Copy, PartialEq, Eq)]
pub struct RectangleAnnotation {
    pub global_rect: (i32, i32, i32, i32),
}

// ---------------------------------------------------------------------------
// Regions
// ---------------------------------------------------------------------------

pub open spec fn in_block(x0: int, x1: int, y0: int, y1: int, lx: int, ly: int) -> bool {
    x0 <= lx < x1 && y0 <= ly < y1
}

pub open spec fn block_region(x0: int, x1: int, y0: int, y1: int) -> spec_fn(int, int) -> bool {
    |lx: int, ly: int| in_block(x0, x1, y0, y1, lx, ly)
}

/// The rows `[y0, ly)` of a block and the first `lx - x0` pixels of row `ly`.
pub open spec fn block_progress(x0: int, x1: int, y0: int, ly: int, lx: int) -> spec_fn(int, int) -> bool {
    |a: int, b: int| x0 <= a < x1 && (y0 <= b < ly || (b == ly && x0 <= a < lx))
}

pub open spec fn band_region(c0: int, r0: int, c1: int, r1: int) -> spec_fn(int, int) -> bool {
    |lx: int, ly: int| border_band(c0, r0, c1, r1, lx, ly)
}

pub open spec fn stroke_region_fn(rect: (i32, i32, i32, i32), origin: (i32, i32)) -> spec_fn(int, int) -> bool {
    |lx: int, ly: int| stroke_region(rect, origin, lx, ly)
}

pub open spec fn strokes_region(
    annotations: Seq<RectangleAnnotation>,
    n: int,
    viewport: DesktopRect,
    origin: (i32, i32),
) -> spec_fn(int, int) -> bool {
    |lx: int, ly: int| some_annotation_strokes(annotations, n, viewport, origin, lx, ly)
}

/// The outlines drawn for a window: those of the annotations overlapping
/// its viewport and, if it overlaps too, that of the rectangle being
/// dragged out.
pub open spec fn preview_region(
    annotations: Seq<RectangleAnnotation>,
    active_rect: Option<(i32, i32, i32, i32)>,
    viewport: DesktopRect,
    origin: (i32, i32),
) -> spec_fn(int, int) -> bool {
    |lx: int, ly: int|
        some_annotation_strokes(annotations, annotations.len() as int, viewport, origin, lx, ly)
            || (active_rect matches Some(r) && spec_rect_intersects_viewport(r, viewport)
            && stroke_region(r, origin, lx, ly))
}

pub open spec fn packed(color: [u8; 4]) -> u32 {
    spec_pack_rgb(color[0], color[1], color[2])
}

/// The pixels of `[c0, c1) x [r0, r1)` within the border thickness of one
/// of its edges.
pub open spec fn border_band(c0: int, r0: int, c1: int, r1: int, lx: int, ly: int) -> bool {
    let t = RECTANGLE_BORDER_THICKNESS as int;
    &&& c0 <= lx < c1
    &&& r0 <= ly < r1
    &&& (ly < r0 + t || ly >= r1 - t || lx < c0 + t || lx >= c1 - t)
}

/// The outline of the global rectangle `rect`, in coordinates local to
/// `origin`.
pub open spec fn stroke_region(rect: (i32, i32, i32, i32), origin: (i32, i32), lx: int, ly: int) -> bool {
    let c0 = rect.0 - origin.0;
    let r0 = rect.1 - origin.1;
    border_band(c0, r0, c0 + rect.2, r0 + rect.3, lx, ly)
}

pub open spec fn rect_as_desktop(rect: (i32, i32, i32, i32)) -> DesktopRect {
    DesktopRect { x: rect.0, y: rect.1, width: rect.2, height: rect.3 }
}

/// A rectangle of positive size overlapping the viewport.
pub open spec fn spec_rect_intersects_viewport(rect: (i32, i32, i32, i32), viewport: DesktopRect) -> bool {
    rect.2 > 0 && rect.3 > 0 && rect_as_desktop(rect).spec_intersects(viewport)
}

pub open spec fn stroke_in_range(rect: (i32, i32, i32, i32), origin: (i32, i32)) -> bool {
    let c0 = rect.0 - origin.0;
    let r0 = rect.1 - origin.1;
    let t = RECTANGLE_BORDER_THICKNESS as int;
    &&& in_i32(c0)
    &&& in_i32(r0)
    &&& in_i32(c0 + rect.2)
    &&& in_i32(r0 + rect.3)
    &&& (rect.2 > 0 && rect.3 > 0) ==> {
        &&& in_i32(c0 + t)
        &&& in_i32(r0 + t)
        &&& in_i32(c0 + rect.2 - t)
        &&& in_i32(r0 + rect.3 - t)
    }
}

/// Testing `rect` against the viewport, and stroking it when it overlaps,
/// stays within `i32`.
pub open spec fn annotation_in_range(
    rect: (i32, i32, i32, i32),
    viewport: DesktopRect,
    origin: (i32, i32),
) -> bool {
    &&& (rect.2 > 0 && rect.3 > 0) ==> rect_as_desktop(rect).edges_in_range()
    &&& spec_rect_intersects_viewport(rect, viewport) ==> stroke_in_range(rect, origin)
}

pub open spec fn some_annotation_strokes(
    annotations: Seq<RectangleAnnotation>,
    n: int,
    viewport: DesktopRect,
    origin: (i32, i32),
    lx: int,
    ly: int,
) -> bool {
    exists|i: int|
        0 <= i < n && spec_rect_intersects_viewport(annotations[i].global_rect, viewport)
            && #[trigger] stroke_region(annotations[i].global_rect, origin, lx, ly)
}

// ---------------------------------------------------------------------------
// The frame surface
// ---------------------------------------------------------------------------

/// Writes one pixel of a window frame; pixels outside the frame are dropped.
fn write_frame_pixel(frame: &mut [u32], size: (u32, u32), lx: i32, ly: i32, color: [u8; 4])
    requires
        frame_fits(old(frame)@.len(), size),
    ensures
        in_frame(size, lx as int, ly as int) ==> final(frame)@ == old(frame)@.update(
            pixel_index(size, lx as int, ly as int),
            packed(color),
        ),
        !in_frame(size, lx as int, ly as int) ==> final(frame)@ == old(frame)@,
        final(frame)@.len() == old(frame)@.len(),
{
    if lx < 0 || ly < 0 {
        return ;
    }
    let ulx = lx as u32;
    let uly = ly as u32;
    if ulx >= size.0 || uly >= size.1 {
        return ;
    }
    set_frame_pixel(frame, size, lx, ly, pack_rgb(color[0], color[1], color[2]));
}

/// Paints the block `[x0, x1) x [y0, y1)` of local pixels.
fn fill_block_frame(
    frame: &mut [u32],
    size: (u32, u32),
    x0: i32,
    x1: i32,
    y0: i32,
    y1: i32,
    color: [u8; 4],
)
    requires
        frame_fits(old(frame)@.len(), size),
    ensures
        frame_painted(
            old(frame)@,
            final(frame)@,
            size,
            block_region(x0 as int, x1 as int, y0 as int, y1 as int),
            fill_with(packed(color)),
        ),
{
    let ghost start = frame@;
    let ghost f = fill_with(packed(color));
    proof {
        lemma_painted_nothing(start, size, block_region(x0 as int, x1 as int, y0 as int, y0 as int), f);
    }
    let mut ly = y0;
    while ly < y1
        invariant
            y0 <= ly,
            ly <= y1 || ly == y0,
            f == fill_with(packed(color)),
            frame@.len() == start.len(),
            frame_fits(start.len(), size),
            frame_painted(start, frame@, size, block_region(x0 as int, x1 as int, y0 as int, ly as int), f),
        decreases y1 - ly,
    {
        proof {
            lemma_painted_same_region(
                start,
                frame@,
                size,
                block_region(x0 as int, x1 as int, y0 as int, ly as int),
                block_progress(x0 as int, x1 as int, y0 as int, ly as int, x0 as int),
                f,
            );
        }
        let mut lx = x0;
        while lx < x1
            invariant
                x0 <= lx,
                lx <= x1 || lx == x0,
                y0 <= ly < y1,
                f == fill_with(packed(color)),
                frame@.len() == start.len(),
                frame_fits(start.len(), size),
                frame_painted(
                    start,
                    frame@,
                    size,
                    block_progress(x0 as int, x1 as int, y0 as int, ly as int, lx as int),
                    f,
                ),
            decreases x1 - lx,
        {
            let ghost before = frame@;
            let ghost region = block_progress(x0 as int, x1 as int, y0 as int, ly as int, lx as int);
            let ghost grown = block_progress(x0 as int, x1 as int, y0 as int, ly as int, lx + 1);
            write_frame_pixel(frame, size, lx, ly, color);
            proof {
                if in_frame(size, lx as int, ly as int) {
                    lemma_paint_one_more(start, before, size, region, f, lx as int, ly as int, grown);
                } else {
                    lemma_painted_same_region(start, before, size, region, grown, f);
                }
            }
            lx = lx + 1;
        }
        proof {
            lemma_painted_same_region(
                start,
                frame@,
                size,
                block_progress(x0 as int, x1 as int, y0 as int, ly as int, lx as int),
                block_region(x0 as int, x1 as int, y0 as int, ly + 1),
                f,
            );
        }
        ly = ly + 1;
    }
    proof {
        lemma_painted_same_region(
            start,
            frame@,
            size,
            block_region(x0 as int, x1 as int, y0 as int, ly as int),
            block_region(x0 as int, x1 as int, y0 as int, y1 as int),
            f,
        );
    }
}

pub open spec fn stroke_edges_in_range(c0: i32, r0: i32, c1: i32, r1: i32) -> bool {
    let t = RECTANGLE_BORDER_THICKNESS as int;
    (c0 < c1 && r0 < r1) ==> {
        &&& in_i32(c0 + t)
        &&& in_i32(r0 + t)
        &&& in_i32(c1 - t)
        &&& in_i32(r1 - t)
    }
}

/// The four strips of an outline, as painted one after another.
pub open spec fn strips_region(
    c0: int,
    r0: int,
    c1: int,
    r1: int,
    top_end: int,
    bottom_start: int,
    left_end: int,
    right_start: int,
    n: int,
) -> spec_fn(int, int) -> bool {
    |lx: int, ly: int|
        (n >= 1 && in_block(c0, c1, r0, top_end, lx, ly)) || (n >= 2 && in_block(
            c0,
            c1,
            bottom_start,
            r1,
            lx,
            ly,
        )) || (n >= 3 && in_block(c0, left_end, r0, r1, lx, ly)) || (n >= 4 && in_block(
            right_start,
            c1,
            r0,
            r1,
            lx,
            ly,
        ))
}

/// Paints the outline of `[c0, c1) x [r0, r1)`, `RECTANGLE_BORDER_THICKNESS`
/// pixels thick, as four strips along the edges.
fn stroke_edges_frame(
    frame: &mut [u32],
    size: (u32, u32),
    c0: i32,
    r0: i32,
    c1: i32,
    r1: i32,
    color: [u8; 4],
)
    requires
        frame_fits(old(frame)@.len(), size),
        stroke_edges_in_range(c0, r0, c1, r1),
    ensures
        frame_painted(
            old(frame)@,
            final(frame)@,
            size,
            band_region(c0 as int, r0 as int, c1 as int, r1 as int),
            fill_with(packed(color)),
        ),
{
    let ghost start = frame@;
    let ghost v = packed(color);
    if c0 >= c1 || r0 >= r1 {
        proof {
            lemma_painted_nothing(start, size, band_region(c0 as int, r0 as int, c1 as int, r1 as int), fill_with(v));
        }
        return ;
    }
    let t = RECTANGLE_BORDER_THICKNESS;
    let top_end = if r0 + t <= r1 { r0 + t } else { r1 };
    let bottom_start = if r1 - t >= r0 { r1 - t } else { r0 };
    let left_end = if c0 + t <= c1 { c0 + t } else { c1 };
    let right_start = if c1 - t >= c0 { c1 - t } else { c0 };
    let ghost strips = |n: int|
        strips_region(
            c0 as int,
            r0 as int,
            c1 as int,
            r1 as int,
            top_end as int,
            bottom_start as int,
            left_end as int,
            right_start as int,
            n,
        );

    fill_block_frame(frame, size, c0, c1, r0, top_end, color);
    proof {
        lemma_painted_same_region(start, frame@, size, block_region(c0 as int, c1 as int, r0 as int, top_end as int), strips(1), fill_with(v));
    }
    let ghost s1 = frame@;
    fill_block_frame(frame, size, c0, c1, bottom_start, r1, color);
    proof {
        lemma_painted_compose_const(start, s1, frame@, size, strips(1), block_region(c0 as int, c1 as int, bottom_start as int, r1 as int), v, strips(2));
    }
    let ghost s2 = frame@;
    fill_block_frame(frame, size, c0, left_end, r0, r1, color);
    proof {
        lemma_painted_compose_const(start, s2, frame@, size, strips(2), block_region(c0 as int, left_end as int, r0 as int, r1 as int), v, strips(3));
    }
    let ghost s3 = frame@;
    fill_block_frame(frame, size, right_start, c1, r0, r1, color);
    proof {
        lemma_painted_compose_const(start, s3, frame@, size, strips(3), block_region(right_start as int, c1 as int, r0 as int, r1 as int), v, strips(4));
        lemma_painted_same_region(start, frame@, size, strips(4), band_region(c0 as int, r0 as int, c1 as int, r1 as int), fill_with(v));
    }
}

/// Strokes the global rectangle `global_rect` onto a frame whose top-left
/// pixel is the global pixel `origin`.
fn stroke_into_frame(
    frame: &mut [u32],
    size: (u32, u32),
    global_rect: (i32, i32, i32, i32),
    origin: (i32, i32),
    color: [u8; 4],
)
    requires
        frame_fits(old(frame)@.len(), size),
        stroke_in_range(global_rect, origin),
    ensures
        frame_painted(
            old(frame)@,
            final(frame)@,
            size,
            stroke_region_fn(global_rect, origin),
            fill_with(packed(color)),
        ),
{
    let (rx, ry, rw, rh) = global_rect;
    let c0 = rx - origin.0;
    let r0 = ry - origin.1;
    let c1 = c0 + rw;
    let r1 = r0 + rh;
    stroke_edges_frame(frame, size, c0, r0, c1, r1, color);
    proof {
        lemma_painted_same_region(
            old(frame)@,
            frame@,
            size,
            band_region(c0 as int, r0 as int, c1 as int, r1 as int),
            stroke_region_fn(global_rect, origin),
            fill_with(packed(color)),
        );
    }
}

/// A rectangle annotation of positive size overlapping `viewport`.
pub fn rect_intersects_viewport(rect: (i32, i32, i32, i32), viewport: DesktopRect) -> (r: bool)
    requires
        viewport.edges_in_range(),
        (rect.2 > 0 && rect.3 > 0) ==> rect_as_desktop(rect).edges_in_range(),
    ensures
        r == spec_rect_intersects_viewport(rect, viewport),
{
    let (rx, ry, rw, rh) = rect;
    if rw <= 0 || rh <= 0 {
        return false;
    }
    DesktopRect::from_origin_size((rx, ry), (rw, rh)).intersects(viewport)
}

/// The viewport of a window frame in global desktop pixels.
pub open spec fn frame_viewport(origin: (i32, i32), size: (u32, u32)) -> DesktopRect {
    DesktopRect { x: origin.0, y: origin.1, width: size.0 as i32, height: size.1 as i32 }
}

/// Whether testing `rect` against `viewport`, and stroking it relative to
/// `origin` when it overlaps, can be computed in `i32`.
fn annotation_fits(rect: (i32, i32, i32, i32), viewport: DesktopRect, origin: (i32, i32)) -> (r: bool)
    requires
        viewport.edges_in_range(),
    ensures
        r == annotation_in_range(rect, viewport, origin),
{
    let (x, y, w, h) = (rect.0 as i64, rect.1 as i64, rect.2 as i64, rect.3 as i64);
    let positive = w > 0 && h > 0;
    if positive && !(fits_i32(x + w) && fits_i32(y + h)) {
        return false;
    }
    let overlaps = positive && x < viewport.x as i64 + viewport.width as i64 && x + w
        > viewport.x as i64 && y < viewport.y as i64 + viewport.height as i64 && y + h
        > viewport.y as i64;
    if !overlaps {
        return true;
    }
    let (c0, r0) = (x - origin.0 as i64, y - origin.1 as i64);
    let t = RECTANGLE_BORDER_THICKNESS as i64;
    fits_i32(c0) && fits_i32(r0) && fits_i32(c0 + w) && fits_i32(r0 + h) && fits_i32(c0 + t)
        && fits_i32(r0 + t) && fits_i32(c0 + w - t) && fits_i32(r0 + h - t)
}

/// Whether `draw_preview` can draw into a frame of `frame_len` pixels of
/// the window at `window_origin` of `frame_size`.
pub fn preview_args_fit(
    frame_len: usize,
    frame_size: (u32, u32),
    window_origin: (i32, i32),
    annotations: &[RectangleAnnotation],
    active_rect: Option<(i32, i32, i32, i32)>,
) -> (r: bool)
    ensures
        r == ({
            &&& frame_fits(frame_len as nat, frame_size)
            &&& frame_viewport(window_origin, frame_size).edges_in_range()
            &&& forall|i: int|
                0 <= i < annotations@.len() ==> annotation_in_range(
                    #[trigger] annotations@[i].global_rect,
                    frame_viewport(window_origin, frame_size),
                    window_origin,
                )
            &&& active_rect matches Some(r) ==> annotation_in_range(
                r,
                frame_viewport(window_origin, frame_size),
                window_origin,
            )
        }),
{
    if !frame_fits_len(frame_len, frame_size) {
        return false;
    }
    if !(fits_i32(window_origin.0 as i64 + frame_size.0 as i64) && fits_i32(
        window_origin.1 as i64 + frame_size.1 as i64,
    )) {
        return false;
    }
    let viewport = DesktopRect {
        x: window_origin.0,
        y: window_origin.1,
        width: frame_size.0 as i32,
        height: frame_size.1 as i32,
    };
    let mut i: usize = 0;
    while i < annotations.len()
        invariant
            i <= annotations@.len(),
            viewport == frame_viewport(window_origin, frame_size),
            viewport.edges_in_range(),
            forall|k: int|
                0 <= k < i ==> annotation_in_range(
                    #[trigger] annotations@[k].global_rect,
                    viewport,
                    window_origin,
                ),
        decreases annotations.len() - i,
    {
        if !annotation_fits(annotations[i].global_rect, viewport, window_origin) {
            return false;
        }
        i += 1;
    }
    match active_rect {
        Some(r) => annotation_fits(r, viewport, window_origin),
        None => true,
    }
}

/// Draws the outlines of the rectangle annotations, and of the one being
/// dragged out, that overlap the window at `window_origin`.
pub fn draw_preview(
    frame: &mut [u32],
    frame_size: (u32, u32),
    window_origin: (i32, i32),
    annotations: &[RectangleAnnotation],
    active_rect: Option<(i32, i32, i32, i32)>,
    border_color: [u8; 4],
)
    requires
        frame_fits(old(frame)@.len(), frame_size),
        frame_viewport(window_origin, frame_size).edges_in_range(),
        forall|i: int|
            0 <= i < annotations@.len() ==> annotation_in_range(
                #[trigger] annotations@[i].global_rect,
                frame_viewport(window_origin, frame_size),
                window_origin,
            ),
        active_rect matches Some(r) ==> annotation_in_range(
            r,
            frame_viewport(window_origin, frame_size),
            window_origin,
        ),
    ensures
        frame_painted(
            old(frame)@,
            final(frame)@,
            frame_size,
            preview_region(
                annotations@,
                active_rect,
                frame_viewport(window_origin, frame_size),
                window_origin,
            ),
            fill_with(packed(border_color)),
        ),
{
    let ghost start = frame@;
    let ghost v = packed(border_color);
    let window_rect = DesktopRect::from_origin_size(
        window_origin,
        (frame_size.0 as i32, frame_size.1 as i32),
    );
    assert(window_rect == frame_viewport(window_origin, frame_size));
    proof {
        lemma_painted_nothing(start, frame_size, strokes_region(annotations@, 0, window_rect, window_origin), fill_with(v));
    }
    let mut i: usize = 0;
    while i < annotations.len()
        invariant
            i <= annotations@.len(),
            v == packed(border_color),
            window_rect == frame_viewport(window_origin, frame_size),
            window_rect.edges_in_range(),
            frame@.len() == start.len(),
            frame_fits(start.len(), frame_size),
            forall|k: int|
                0 <= k < annotations@.len() ==> annotation_in_range(
                    #[trigger] annotations@[k].global_rect,
                    window_rect,
                    window_origin,
                ),
            frame_painted(
                start,
                frame@,
                frame_size,
                strokes_region(annotations@, i as int, window_rect, window_origin),
                fill_with(v),
            ),
        decreases annotations@.len() - i,
    {
        let rect = annotations[i].global_rect;
        let ghost before = frame@;
        if rect_intersects_viewport(rect, window_rect) {
            stroke_into_frame(frame, frame_size, rect, window_origin, border_color);
            proof {
                lemma_painted_compose_const(
                    start,
                    before,
                    frame@,
                    frame_size,
                    strokes_region(annotations@, i as int, window_rect, window_origin),
                    stroke_region_fn(rect, window_origin),
                    v,
                    strokes_region(annotations@, i + 1, window_rect, window_origin),
                );
            }
        } else {
            proof {
                lemma_painted_same_region(
                    start,
                    frame@,
                    frame_size,
                    strokes_region(annotations@, i as int, window_rect, window_origin),
                    strokes_region(annotations@, i + 1, window_rect, window_origin),
                    fill_with(v),
                );
            }
        }
        i += 1;
    }
    let ghost done = frame@;
    let ghost strokes = strokes_region(annotations@, annotations@.len() as int, window_rect, window_origin);
    let ghost total = preview_region(annotations@, active_rect, window_rect, window_origin);
    if let Some(active) = active_rect {
        if rect_intersects_viewport(active, window_rect) {
            stroke_into_frame(frame, frame_size, active, window_origin, border_color);
            proof {
                lemma_painted_compose_const(
                    start,
                    done,
                    frame@,
                    frame_size,
                    strokes,
                    stroke_region_fn(active, window_origin),
                    v,
                    total,
                );
            }
            return ;
        }
    }
    proof {
        lemma_painted_same_region(start, frame@, frame_size, strokes, total, fill_with(v));
    }
}

// ---------------------------------------------------------------------------
// The image surface
// ---------------------------------------------------------------------------

/// Writes one pixel of an exported image; pixels outside it are dropped.
fn write_image_pixel(image: &mut PixelImage, lx: i32, ly: i32, color: [u8; 4])
    ensures
        image_dims(*final(image)) == image_dims(*old(image)),
        image_pixels(*final(image)).len() == image_pixels(*old(image)).len(),
        image_pixels(*old(image)).len() == image_dims(*old(image)).0 * image_dims(*old(image)).1,
        in_frame(image_dims(*old(image)), lx as int, ly as int) ==> image_pixels(*final(image))
            == image_pixels(*old(image)).update(
            pixel_index(image_dims(*old(image)), lx as int, ly as int),
            color,
        ),
        !in_frame(image_dims(*old(image)), lx as int, ly as int) ==> image_pixels(*final(image))
            == image_pixels(*old(image)),
{
    let (width, height) = image.dimensions();
    if lx < 0 || ly < 0 {
        return ;
    }
    let ulx = lx as u32;
    let uly = ly as u32;
    if ulx >= width || uly >= height {
        return ;
    }
    proof {
        lemma_pixel_index_bounds(image_dims(*image), lx as int, ly as int);
    }
    image.put_pixel(ulx, uly, color);
}

/// Paints the block `[x0, x1) x [y0, y1)` of an image.
fn fill_block_image(image: &mut PixelImage, x0: i32, x1: i32, y0: i32, y1: i32, color: [u8; 4])
    ensures
        image_dims(*final(image)) == image_dims(*old(image)),
        frame_painted(
            image_pixels(*old(image)),
            image_pixels(*final(image)),
            image_dims(*old(image)),
            block_region(x0 as int, x1 as int, y0 as int, y1 as int),
            fill_with(color),
        ),
{
    let ghost start = image_pixels(*image);
    let ghost dims = image_dims(*image);
    let ghost f = fill_with(color);
    let _ = image.dimensions();
    proof {
        lemma_painted_nothing(start, dims, block_region(x0 as int, x1 as int, y0 as int, y0 as int), f);
    }
    let mut ly = y0;
    while ly < y1
        invariant
            y0 <= ly,
            ly <= y1 || ly == y0,
            f == fill_with(color),
            image_dims(*image) == dims,
            start.len() == dims.0 * dims.1,
            image_pixels(*image).len() == start.len(),
            frame_painted(start, image_pixels(*image), dims, block_region(x0 as int, x1 as int, y0 as int, ly as int), f),
        decreases y1 - ly,
    {
        proof {
            lemma_painted_same_region(
                start,
                image_pixels(*image),
                dims,
                block_region(x0 as int, x1 as int, y0 as int, ly as int),
                block_progress(x0 as int, x1 as int, y0 as int, ly as int, x0 as int),
                f,
            );
        }
        let mut lx = x0;
        while lx < x1
            invariant
                x0 <= lx,
                lx <= x1 || lx == x0,
                y0 <= ly < y1,
                f == fill_with(color),
                image_dims(*image) == dims,
                start.len() == dims.0 * dims.1,
                image_pixels(*image).len() == start.len(),
                frame_painted(
                    start,
                    image_pixels(*image),
                    dims,
                    block_progress(x0 as int, x1 as int, y0 as int, ly as int, lx as int),
                    f,
                ),
            decreases x1 - lx,
        {
            let ghost before = image_pixels(*image);
            let ghost region = block_progress(x0 as int, x1 as int, y0 as int, ly as int, lx as int);
            let ghost grown = block_progress(x0 as int, x1 as int, y0 as int, ly as int, lx + 1);
            write_image_pixel(image, lx, ly, color);
            proof {
                if in_frame(dims, lx as int, ly as int) {
                    lemma_paint_one_more(start, before, dims, region, f, lx as int, ly as int, grown);
                } else {
                    lemma_painted_same_region(start, before, dims, region, grown, f);
                }
            }
            lx = lx + 1;
        }
        proof {
            lemma_painted_same_region(
                start,
                image_pixels(*image),
                dims,
                block_progress(x0 as int, x1 as int, y0 as int, ly as int, lx as int),
                block_region(x0 as int, x1 as int, y0 as int, ly + 1),
                f,
            );
        }
        ly = ly + 1;
    }
    proof {
        lemma_painted_same_region(
            start,
            image_pixels(*image),
            dims,
            block_region(x0 as int, x1 as int, y0 as int, ly as int),
            block_region(x0 as int, x1 as int, y0 as int, y1 as int),
            f,
        );
    }
}

/// Paints the outline of `[c0, c1) x [r0, r1)` onto an image, as four
/// strips along the edges.
fn stroke_edges_image(image: &mut PixelImage, c0: i32, r0: i32, c1: i32, r1: i32, color: [u8; 4])
    requires
        stroke_edges_in_range(c0, r0, c1, r1),
    ensures
        image_dims(*final(image)) == image_dims(*old(image)),
        frame_painted(
            image_pixels(*old(image)),
            image_pixels(*final(image)),
            image_dims(*old(image)),
            band_region(c0 as int, r0 as int, c1 as int, r1 as int),
            fill_with(color),
        ),
{
    let ghost start = image_pixels(*image);
    let ghost dims = image_dims(*image);
    if c0 >= c1 || r0 >= r1 {
        proof {
            lemma_painted_nothing(start, dims, band_region(c0 as int, r0 as int, c1 as int, r1 as int), fill_with(color));
        }
        return ;
    }
    let t = RECTANGLE_BORDER_THICKNESS;
    let top_end = if r0 + t <= r1 { r0 + t } else { r1 };
    let bottom_start = if r1 - t >= r0 { r1 - t } else { r0 };
    let left_end = if c0 + t <= c1 { c0 + t } else { c1 };
    let right_start = if c1 - t >= c0 { c1 - t } else { c0 };
    let ghost strips = |n: int|
        strips_region(
            c0 as int,
            r0 as int,
            c1 as int,
            r1 as int,
            top_end as int,
            bottom_start as int,
            left_end as int,
            right_start as int,
            n,
        );

    fill_block_image(image, c0, c1, r0, top_end, color);
    proof {
        lemma_painted_same_region(start, image_pixels(*image), dims, block_region(c0 as int, c1 as int, r0 as int, top_end as int), strips(1), fill_with(color));
    }
    let ghost s1 = image_pixels(*image);
    fill_block_image(image, c0, c1, bottom_start, r1, color);
    proof {
        lemma_painted_compose_const(start, s1, image_pixels(*image), dims, strips(1), block_region(c0 as int, c1 as int, bottom_start as int, r1 as int), color, strips(2));
    }
    let ghost s2 = image_pixels(*image);
    fill_block_image(image, c0, left_end, r0, r1, color);
    proof {
        lemma_painted_compose_const(start, s2, image_pixels(*image), dims, strips(2), block_region(c0 as int, left_end as int, r0 as int, r1 as int), color, strips(3));
    }
    let ghost s3 = image_pixels(*image);
    fill_block_image(image, right_start, c1, r0, r1, color);
    proof {
        lemma_painted_compose_const(start, s3, image_pixels(*image), dims, strips(3), block_region(right_start as int, c1 as int, r0 as int, r1 as int), color, strips(4));
        lemma_painted_same_region(start, image_pixels(*image), dims, strips(4), band_region(c0 as int, r0 as int, c1 as int, r1 as int), fill_with(color));
    }
}

/// Strokes the global rectangle `global_rect` onto an image whose top-left
/// pixel is the global pixel `origin`.
fn stroke_into_image(
    image: &mut PixelImage,
    global_rect: (i32, i32, i32, i32),
    origin: (i32, i32),
    color: [u8; 4],
)
    requires
        stroke_in_range(global_rect, origin),
    ensures
        image_dims(*final(image)) == image_dims(*old(image)),
        frame_painted(
            image_pixels(*old(image)),
            image_pixels(*final(image)),
            image_dims(*old(image)),
            stroke_region_fn(global_rect, origin),
            fill_with(color),
        ),
{
    let (rx, ry, rw, rh) = global_rect;
    let c0 = rx - origin.0;
    let r0 = ry - origin.1;
    let c1 = c0 + rw;
    let r1 = r0 + rh;
    stroke_edges_image(image, c0, r0, c1, r1, color);
    proof {
        lemma_painted_same_region(
            image_pixels(*old(image)),
            image_pixels(*image),
            image_dims(*old(image)),
            band_region(c0 as int, r0 as int, c1 as int, r1 as int),
            stroke_region_fn(global_rect, origin),
            fill_with(color),
        );
    }
}

/// The exported area of the selection `(x, y, width, height)`; a negative
/// size counts as empty.
pub open spec fn selection_viewport(selection: (i32, i32, i32, i32)) -> DesktopRect {
    DesktopRect {
        x: selection.0,
        y: selection.1,
        width: if selection.2 >= 0 { selection.2 } else { 0 },
        height: if selection.3 >= 0 { selection.3 } else { 0 },
    }
}

/// Whether `render_to_image` can burn `annotations` into the image exported
/// for `selection`.
pub fn export_args_fit(selection: (i32, i32, i32, i32), annotations: &[RectangleAnnotation]) -> (r: bool)
    ensures
        r == ({
            &&& selection_viewport(selection).edges_in_range()
            &&& forall|i: int|
                0 <= i < annotations@.len() ==> annotation_in_range(
                    #[trigger] annotations@[i].global_rect,
                    selection_viewport(selection),
                    (selection.0, selection.1),
                )
        }),
{
    let viewport = DesktopRect::from_origin_size((selection.0, selection.1), (selection.2, selection.3));
    if !(fits_i32(viewport.x as i64 + viewport.width as i64) && fits_i32(
        viewport.y as i64 + viewport.height as i64,
    )) {
        return false;
    }
    let origin = (selection.0, selection.1);
    let mut i: usize = 0;
    while i < annotations.len()
        invariant
            i <= annotations@.len(),
            viewport == selection_viewport(selection),
            viewport.edges_in_range(),
            origin == (selection.0, selection.1),
            forall|k: int|
                0 <= k < i ==> annotation_in_range(#[trigger] annotations@[k].global_rect, viewport, origin),
        decreases annotations.len() - i,
    {
        if !annotation_fits(annotations[i].global_rect, viewport, origin) {
            return false;
        }
        i += 1;
    }
    true
}

/// Burns the outlines of the annotations that overlap the selection into
/// the exported image of that selection, whose top-left pixel is the
/// selection's corner.
pub fn render_to_image(
    image: &mut PixelImage,
    selection: (i32, i32, i32, i32),
    annotations: &[RectangleAnnotation],
    border_color: [u8; 4],
)
    requires
        selection_viewport(selection).edges_in_range(),
        forall|i: int|
            0 <= i < annotations@.len() ==> annotation_in_range(
                #[trigger] annotations@[i].global_rect,
                selection_viewport(selection),
                (selection.0, selection.1),
            ),
    ensures
        image_dims(*final(image)) == image_dims(*old(image)),
        frame_painted(
            image_pixels(*old(image)),
            image_pixels(*final(image)),
            image_dims(*old(image)),
            strokes_region(
                annotations@,
                annotations@.len() as int,
                selection_viewport(selection),
                (selection.0, selection.1),
            ),
            fill_with(border_color),
        ),
{
    let (sx, sy, sw, sh) = selection;
    let selection_rect = DesktopRect::from_origin_size((sx, sy), (sw, sh));
    let origin = (sx, sy);
    let ghost start = image_pixels(*image);
    let ghost dims = image_dims(*image);
    proof {
        lemma_painted_nothing(start, dims, strokes_region(annotations@, 0, selection_rect, origin), fill_with(border_color));
    }
    let mut i: usize = 0;
    while i < annotations.len()
        invariant
            i <= annotations@.len(),
            selection_rect == selection_viewport(selection),
            selection_rect.edges_in_range(),
            origin == (selection.0, selection.1),
            image_dims(*image) == dims,
            forall|k: int|
                0 <= k < annotations@.len() ==> annotation_in_range(
                    #[trigger] annotations@[k].global_rect,
                    selection_rect,
                    origin,
                ),
            frame_painted(
                start,
                image_pixels(*image),
                dims,
                strokes_region(annotations@, i as int, selection_rect, origin),
                fill_with(border_color),
            ),
        decreases annotations@.len() - i,
    {
        let rect = annotations[i].global_rect;
        let ghost before = image_pixels(*image);
        if rect_intersects_viewport(rect, selection_rect) {
            stroke_into_image(image, rect, origin, border_color);
            proof {
                lemma_painted_compose_const(
                    start,
                    before,
                    image_pixels(*image),
                    dims,
                    strokes_region(annotations@, i as int, selection_rect, origin),
                    stroke_region_fn(rect, origin),
                    border_color,
                    strokes_region(annotations@, i + 1, selection_rect, origin),
                );
            }
        } else {
            proof {
                lemma_painted_same_region(
                    start,
                    image_pixels(*image),
                    dims,
                    strokes_region(annotations@, i as int, selection_rect, origin),
                    strokes_region(annotations@, i + 1, selection_rect, origin),
                    fill_with(border_color),
                );
            }
        }
        i += 1;
    }
}

/// An outline covers the same global pixels whichever window, or exported
/// image, it is drawn in: the local pixel of the global pixel `(gx, gy)` is
/// on it for one origin exactly when it is for any other.
pub proof fn lemma_outline_is_window_independent(
    rect: (i32, i32, i32, i32),
    o1: (i32, i32),
    o2: (i32, i32),
    gx: int,
    gy: int,
)
    ensures
        stroke_region(rect, o1, gx - o1.0, gy - o1.1) == stroke_region(rect, o2, gx - o2.0, gy - o2.1),
{
}

} // verus!
