//! Software rendering of the overlay background: the captured monitor,
//! dimmed, with the active selection shown at full brightness inside a
//! border and its four resize handles.
use std::collections::HashMap;

use vstd::prelude::*;

use crate::desktop_geometry::DesktopRect;
use crate::frame::{frame_fits, in_frame, pixel_index, set_frame_pixel, spec_pack_rgb, pack_rgb};
use crate::image_buffer::{PixelImage, image_dims, image_index, image_pixels, pixels_of_bytes};
use crate::selection_geometry::{
    ResizeEdge,
    SelectionRect,
    all_edge_handles,
    all_handles_in_range,
    fits_i32,
    handle_fits,
    in_i32,
    spec_handle,
    spec_min,
};

verus! {

/// Grey level the dimmed capture is mixed with.
pub const DIM_GRAY: u8 = 46;

/// A channel dimmed to 35% of itself plus 65% of `DIM_GRAY`, rounded to
/// the nearest integer (halves up).
pub open spec fn spec_dim_channel(c: u8) -> u8 {
    ((35 * c + 65 * DIM_GRAY + 50) / 100) as u8
}

pub open spec fn spec_dim_rgb(r: u8, g: u8, b: u8) -> u32 {
    spec_pack_rgb(spec_dim_channel(r), spec_dim_channel(g), spec_dim_channel(b))
}

fn dim_channel(c: u8) -> (r: u8)
    ensures
        r == spec_dim_channel(c),
{
    ((35 * c as u32 + 65 * DIM_GRAY as u32 + 50) / 100) as u8
}

/// The dimmed colour of a captured pixel, packed as `0x00RRGGBB`.
pub fn dim_rgb(r: u8, g: u8, b: u8) -> (out: u32)
    ensures
        out == spec_dim_rgb(r, g, b),
{
    pack_rgb(dim_channel(r), dim_channel(g), dim_channel(b))
}

/// Colour of the resize handles, `(240, 247, 255)`.
pub open spec fn handle_color() -> u32 {
    spec_pack_rgb(240, 247, 255)
}

/// Colour of the two-pixel selection border, `(26, 179, 255)`.
pub open spec fn selection_border_color() -> u32 {
    spec_pack_rgb(26, 179, 255)
}

pub open spec fn some_handle_has_point(h: Seq<(ResizeEdge, DesktopRect)>, gx: int, gy: int) -> bool {
    exists|i: int| 0 <= i < h.len() && (#[trigger] h[i]).1.has_point((gx, gy))
}

/// The global pixel `(gx, gy)` lies on one of the handles.
pub open spec fn on_any_handle(handles: Option<Seq<(ResizeEdge, DesktopRect)>>, gx: int, gy: int) -> bool {
    match handles {
        Some(h) => some_handle_has_point(h, gx, gy),
        None => false,
    }
}

/// What the selection paints at global pixel `(gx, gy)`, if anything:
/// the handle colour on a handle, the border colour on the two outermost
/// rings of the selection frame `rect` (`(x0, y0, x1, y1)`, all edges
/// inclusive), the undimmed capture colour inside it, and nothing outside.
pub open spec fn spec_selection_overlay_pixel(
    red: u8,
    green: u8,
    blue: u8,
    gx: int,
    gy: int,
    rect: Option<(i32, i32, i32, i32)>,
    handles: Option<Seq<(ResizeEdge, DesktopRect)>>,
) -> Option<u32> {
    if on_any_handle(handles, gx, gy) {
        Some(handle_color())
    } else {
        match rect {
            None => None,
            Some(r) => if gx < r.0 || gx > r.2 || gy < r.1 || gy > r.3 {
                None
            } else if gx - r.0 <= 1 || r.2 - gx <= 1 || gy - r.1 <= 1 || r.3 - gy <= 1 {
                Some(selection_border_color())
            } else {
                Some(spec_pack_rgb(red, green, blue))
            },
        }
    }
}

pub open spec fn handles_view(handles: Option<&[(ResizeEdge, DesktopRect); 4]>) -> Option<
    Seq<(ResizeEdge, DesktopRect)>,
> {
    match handles {
        Some(h) => Some(h@),
        None => None,
    }
}

pub open spec fn handles_in_range(handles: Option<&[(ResizeEdge, DesktopRect); 4]>) -> bool {
    match handles {
        Some(h) => forall|i: int| 0 <= i < 4 ==> (#[trigger] h@[i]).1.edges_in_range(),
        None => true,
    }
}

/// What the selection paints at a global pixel, given the capture's colour
/// there, the selection frame and the resize handles.
pub fn selection_overlay_pixel(
    red: u8,
    green: u8,
    blue: u8,
    gx: i32,
    gy: i32,
    rect: Option<(i32, i32, i32, i32)>,
    handle_rects: Option<&[(ResizeEdge, DesktopRect); 4]>,
) -> (r: Option<u32>)
    requires
        handles_in_range(handle_rects),
    ensures
        r == spec_selection_overlay_pixel(
            red,
            green,
            blue,
            gx as int,
            gy as int,
            rect,
            handles_view(handle_rects),
        ),
{
    if let Some(handles) = handle_rects {
        let mut i: usize = 0;
        while i < 4
            invariant
                i <= 4,
                handle_rects == Some(handles),
                forall|k: int| 0 <= k < 4 ==> (#[trigger] handles@[k]).1.edges_in_range(),
                forall|k: int|
                    0 <= k < i ==> !(#[trigger] handles@[k]).1.has_point((gx as int, gy as int)),
            decreases 4 - i,
        {
            let (_, handle) = handles[i];
            if handle.contains_point((gx, gy)) {
                assert(handles_view(handle_rects) == Some(handles@));
                assert(handles@.len() == 4);
                assert(handles@[i as int].1.has_point((gx as int, gy as int)));
                assert(some_handle_has_point(handles@, gx as int, gy as int));
                return Some(pack_rgb(240, 247, 255));
            }
            i += 1;
        }
        assert(!on_any_handle(handles_view(handle_rects), gx as int, gy as int));
    }
    let (rx0, ry0, rx1, ry1) = match rect {
        Some(r) => r,
        None => {
            return None;
        },
    };
    if gx < rx0 || gx > rx1 || gy < ry0 || gy > ry1 {
        return None;
    }
    let (x, y) = (gx as i64, gy as i64);
    let is_border = x - rx0 as i64 <= 1 || rx1 as i64 - x <= 1 || y - ry0 as i64 <= 1 || ry1 as i64
        - y <= 1;
    Some(
        if is_border {
            pack_rgb(26, 179, 255)
        } else {
            pack_rgb(red, green, blue)
        },
    )
}


/// The selection frame `(x0, y0, x1, y1)`, all edges inclusive, of a
/// selection `(x, y, width, height)`.
pub open spec fn selection_frame(active: Option<SelectionRect>) -> Option<(i32, i32, i32, i32)> {
    match active {
        Some(r) => Some((r.0, r.1, (r.0 + r.2 - 1) as i32, (r.1 + r.3 - 1) as i32)),
        None => None,
    }
}

/// The four resize handles of a selection, top, bottom, left, right.
pub open spec fn selection_handles(active: Option<SelectionRect>) -> Option<
    Seq<(ResizeEdge, DesktopRect)>,
> {
    match active {
        Some(r) => Some(
            seq![
                (ResizeEdge::Top, spec_handle(r, ResizeEdge::Top)),
                (ResizeEdge::Bottom, spec_handle(r, ResizeEdge::Bottom)),
                (ResizeEdge::Left, spec_handle(r, ResizeEdge::Left)),
                (ResizeEdge::Right, spec_handle(r, ResizeEdge::Right)),
            ],
        ),
        None => None,
    }
}

/// The arguments of a background drawing stay within `i32` and the
/// capture has a pixel to sample whenever the frame has one.
pub open spec fn background_args_ok(
    dims: (u32, u32),
    size: (u32, u32),
    origin: (i32, i32),
    active: Option<SelectionRect>,
) -> bool {
    &&& (size.0 > 0 && size.1 > 0) ==> (dims.0 > 0 && dims.1 > 0)
    &&& size.0 <= i32::MAX
    &&& size.1 <= i32::MAX
    &&& in_i32(origin.0 + size.0)
    &&& in_i32(origin.1 + size.1)
    &&& match active {
        Some(r) => {
            &&& in_i32(r.0 + r.2 - 1)
            &&& in_i32(r.1 + r.3 - 1)
            &&& all_handles_in_range(r)
            &&& spec_handle(r, ResizeEdge::Top).edges_in_range()
            &&& spec_handle(r, ResizeEdge::Bottom).edges_in_range()
            &&& spec_handle(r, ResizeEdge::Left).edges_in_range()
            &&& spec_handle(r, ResizeEdge::Right).edges_in_range()
        },
        None => true,
    }
}

/// Whether drawing the background of a `size` frame at `origin` from a
/// capture of `dims`, with the selection `active`, stays within `i32`.
pub fn background_args_fit(
    dims: (u32, u32),
    size: (u32, u32),
    origin: (i32, i32),
    active: Option<SelectionRect>,
) -> (r: bool)
    ensures
        r == background_args_ok(dims, size, origin, active),
{
    if size.0 > 0 && size.1 > 0 && !(dims.0 > 0 && dims.1 > 0) {
        return false;
    }
    if !(size.0 <= i32::MAX as u32 && size.1 <= i32::MAX as u32) {
        return false;
    }
    if !(fits_i32(origin.0 as i64 + size.0 as i64) && fits_i32(origin.1 as i64 + size.1 as i64)) {
        return false;
    }
    match active {
        Some(r) => {
            fits_i32(r.0 as i64 + r.2 as i64 - 1) && fits_i32(r.1 as i64 + r.3 as i64 - 1)
                && handle_fits(r, ResizeEdge::Top) && handle_fits(r, ResizeEdge::Bottom)
                && handle_fits(r, ResizeEdge::Left) && handle_fits(r, ResizeEdge::Right)
        },
        None => true,
    }
}

/// The capture pixel shown at frame pixel `(x, y)`: the same position,
/// clamped to the capture's last row and column.
pub open spec fn source_pixel(pixels: Seq<[u8; 4]>, dims: (u32, u32), x: int, y: int) -> [u8; 4] {
    pixels[image_index(dims.0, spec_min(x, dims.0 - 1), spec_min(y, dims.1 - 1))]
}

/// The overlay background at frame pixel `(x, y)` of a window whose top-left
/// corner is `origin`: what the selection paints there, or else the dimmed
/// capture.
pub open spec fn spec_background_pixel(
    pixels: Seq<[u8; 4]>,
    dims: (u32, u32),
    origin: (i32, i32),
    active: Option<SelectionRect>,
    x: int,
    y: int,
) -> u32 {
    let p = source_pixel(pixels, dims, x, y);
    match spec_selection_overlay_pixel(
        p[0],
        p[1],
        p[2],
        origin.0 + x,
        origin.1 + y,
        selection_frame(active),
        selection_handles(active),
    ) {
        Some(v) => v,
        None => spec_dim_rgb(p[0], p[1], p[2]),
    }
}

/// `frame` holds exactly the background of a `size.0 x size.1` window.
pub open spec fn background_drawn(
    frame: Seq<u32>,
    pixels: Seq<[u8; 4]>,
    dims: (u32, u32),
    size: (u32, u32),
    origin: (i32, i32),
    active: Option<SelectionRect>,
) -> bool {
    &&& frame.len() == size.0 * size.1
    &&& forall|x: int, y: int|
        #![trigger pixel_index(size, x, y)]
        in_frame(size, x, y) ==> frame[pixel_index(size, x, y)] == spec_background_pixel(
            pixels,
            dims,
            origin,
            active,
            x,
            y,
        )
}

fn handles_of(active: Option<SelectionRect>) -> (r: Option<[(ResizeEdge, DesktopRect); 4]>)
    requires
        match active {
            Some(a) => {
                &&& all_handles_in_range(a)
                &&& spec_handle(a, ResizeEdge::Top).edges_in_range()
                &&& spec_handle(a, ResizeEdge::Bottom).edges_in_range()
                &&& spec_handle(a, ResizeEdge::Left).edges_in_range()
                &&& spec_handle(a, ResizeEdge::Right).edges_in_range()
            },
            None => true,
        },
    ensures
        match r {
            Some(h) => selection_handles(active) == Some(h@) && forall|i: int|
                0 <= i < 4 ==> (#[trigger] h@[i]).1.edges_in_range(),
            None => active is None,
        },
{
    match active {
        Some(a) => {
            let h = all_edge_handles(a);
            Some(h)
        },
        None => None,
    }
}

/// Draws the background of a `width x height` window at `window_origin`
/// from `screenshot`, sampling pixel by pixel with clamping.
fn draw_overlay_background_sampled(
    frame: &mut [u32],
    width: u32,
    height: u32,
    screenshot: &PixelImage,
    window_origin: (i32, i32),
    active_rect: Option<SelectionRect>,
    rect: Option<(i32, i32, i32, i32)>,
    handle_rects: Option<[(ResizeEdge, DesktopRect); 4]>,
)
    requires
        old(frame)@.len() == width * height,
        frame_fits(old(frame)@.len(), (width, height)),
        background_args_ok(image_dims(*screenshot), (width, height), window_origin, active_rect),
        rect == selection_frame(active_rect),
        match handle_rects {
            Some(h) => selection_handles(active_rect) == Some(h@) && forall|i: int|
                0 <= i < 4 ==> (#[trigger] h@[i]).1.edges_in_range(),
            None => active_rect is None,
        },
    ensures
        background_drawn(
            final(frame)@,
            image_pixels(*screenshot),
            image_dims(*screenshot),
            (width, height),
            window_origin,
            active_rect,
        ),
{
    let ghost size = (width, height);
    let ghost pixels = image_pixels(*screenshot);
    let (sw, sh) = screenshot.dimensions();
    let last_x = if sw > 0 { sw - 1 } else { 0 };
    let last_y = if sh > 0 { sh - 1 } else { 0 };
    let mut y: u32 = 0;
    while y < height
        invariant
            y <= height,
            size == (width, height),
            pixels == image_pixels(*screenshot),
            (sw, sh) == image_dims(*screenshot),
            last_x == if sw > 0 { sw - 1 } else { 0 },
            last_y == if sh > 0 { sh - 1 } else { 0 },
            frame@.len() == width * height,
            frame_fits(frame@.len(), size),
            background_args_ok((sw, sh), size, window_origin, active_rect),
            rect == selection_frame(active_rect),
            match handle_rects {
                Some(h) => selection_handles(active_rect) == Some(h@) && forall|i: int|
                    0 <= i < 4 ==> (#[trigger] h@[i]).1.edges_in_range(),
                None => active_rect is None,
            },
            forall|px: int, py: int|
                #![trigger pixel_index(size, px, py)]
                in_frame(size, px, py) && py < y ==> frame@[pixel_index(size, px, py)]
                    == spec_background_pixel(pixels, (sw, sh), window_origin, active_rect, px, py),
        decreases height - y,
    {
        let mut x: u32 = 0;
        while x < width
            invariant
                x <= width,
                y < height,
                size == (width, height),
                pixels == image_pixels(*screenshot),
                (sw, sh) == image_dims(*screenshot),
                last_x == if sw > 0 { sw - 1 } else { 0 },
                last_y == if sh > 0 { sh - 1 } else { 0 },
                frame@.len() == width * height,
                frame_fits(frame@.len(), size),
                background_args_ok((sw, sh), size, window_origin, active_rect),
                rect == selection_frame(active_rect),
                match handle_rects {
                    Some(h) => selection_handles(active_rect) == Some(h@) && forall|i: int|
                        0 <= i < 4 ==> (#[trigger] h@[i]).1.edges_in_range(),
                    None => active_rect is None,
                },
                forall|px: int, py: int|
                    #![trigger pixel_index(size, px, py)]
                    in_frame(size, px, py) && (py < y || (py == y && px < x))
                        ==> frame@[pixel_index(size, px, py)] == spec_background_pixel(
                        pixels,
                        (sw, sh),
                        window_origin,
                        active_rect,
                        px,
                        py,
                    ),
            decreases width - x,
        {
            let sx = if x < last_x { x } else { last_x };
            let sy = if y < last_y { y } else { last_y };
            let src = screenshot.get_pixel(sx, sy);
            let mut out = dim_rgb(src[0], src[1], src[2]);
            let gx = window_origin.0 + x as i32;
            let gy = window_origin.1 + y as i32;
            let overlay = match &handle_rects {
                Some(h) => selection_overlay_pixel(src[0], src[1], src[2], gx, gy, rect, Some(h)),
                None => selection_overlay_pixel(src[0], src[1], src[2], gx, gy, rect, None),
            };
            if let Some(pixel) = overlay {
                out = pixel;
            }
            assert(out == spec_background_pixel(
                pixels,
                (sw, sh),
                window_origin,
                active_rect,
                x as int,
                y as int,
            ));
            set_frame_pixel(frame, (width, height), x as i32, y as i32, out);
            assert forall|px: int, py: int|
                #![trigger pixel_index(size, px, py)]
                in_frame(size, px, py) && (py < y || (py == y && px < x + 1))
                    implies frame@[pixel_index(size, px, py)] == spec_background_pixel(
                    pixels,
                    (sw, sh),
                    window_origin,
                    active_rect,
                    px,
                    py,
                ) by {
                crate::frame::lemma_pixel_index_bounds(size, px, py);
                if pixel_index(size, px, py) == pixel_index(size, x as int, y as int) {
                    crate::frame::lemma_pixel_index_injective(size, px, py, x as int, y as int);
                }
            }
            x += 1;
        }
        y += 1;
    }
}


/// Row `idx / width`, column `idx % width` is the pixel stored at `idx`.
proof fn lemma_flat_index(width: u32, height: u32, idx: int)
    requires
        0 <= idx < width * height,
    ensures
        0 <= idx % (width as int) < width,
        0 <= idx / (width as int) < height,
        pixel_index((width, height), idx % (width as int), idx / (width as int)) == idx,
{
    assert(width > 0) by (nonlinear_arith)
        requires
            0 <= idx < width * height,
    ;
    let q = idx / (width as int);
    let r = idx % (width as int);
    assert(idx == q * width + r && 0 <= r < width) by (nonlinear_arith)
        requires
            width > 0,
            q == idx / (width as int),
            r == idx % (width as int),
    ;
    assert(0 <= q < height) by (nonlinear_arith)
        requires
            idx == q * width + r,
            0 <= r < width,
            0 <= idx < width * height,
    ;
}

/// Draws the background of a window exactly as large as the capture,
/// reading the capture's bytes directly.
fn draw_overlay_background_exact_size(
    frame: &mut [u32],
    width: u32,
    screenshot: &PixelImage,
    window_origin: (i32, i32),
    active_rect: Option<SelectionRect>,
    rect: Option<(i32, i32, i32, i32)>,
    handle_rects: Option<[(ResizeEdge, DesktopRect); 4]>,
)
    requires
        image_dims(*screenshot).0 == width,
        old(frame)@.len() == width * image_dims(*screenshot).1,
        frame_fits(old(frame)@.len(), image_dims(*screenshot)),
        background_args_ok(
            image_dims(*screenshot),
            image_dims(*screenshot),
            window_origin,
            active_rect,
        ),
        rect == selection_frame(active_rect),
        match handle_rects {
            Some(h) => selection_handles(active_rect) == Some(h@) && forall|i: int|
                0 <= i < 4 ==> (#[trigger] h@[i]).1.edges_in_range(),
            None => active_rect is None,
        },
    ensures
        background_drawn(
            final(frame)@,
            image_pixels(*screenshot),
            image_dims(*screenshot),
            image_dims(*screenshot),
            window_origin,
            active_rect,
        ),
{
    let ghost dims = image_dims(*screenshot);
    let ghost pixels = image_pixels(*screenshot);
    let src = screenshot.as_raw();
    let src_len = src.len();
    let n = frame.len();
    let mut idx: usize = 0;
    while idx < n
        invariant
            idx <= n,
            n == frame@.len(),
            n == dims.0 * dims.1,
            dims == image_dims(*screenshot),
            dims.0 == width,
            pixels == image_pixels(*screenshot),
            4 * dims.0 * dims.1 <= src@.len(),
            src@.len() == src_len,
            pixels_of_bytes(src@, (dims.0 * dims.1) as nat) == pixels,
            frame_fits(n as nat, dims),
            background_args_ok(dims, dims, window_origin, active_rect),
            rect == selection_frame(active_rect),
            match handle_rects {
                Some(h) => selection_handles(active_rect) == Some(h@) && forall|i: int|
                    0 <= i < 4 ==> (#[trigger] h@[i]).1.edges_in_range(),
                None => active_rect is None,
            },
            forall|j: int|
                0 <= j < idx ==> #[trigger] frame@[j] == spec_background_pixel(
                    pixels,
                    dims,
                    window_origin,
                    active_rect,
                    j % (width as int),
                    j / (width as int),
                ),
        decreases n - idx,
    {
        proof {
            lemma_flat_index(dims.0, dims.1, idx as int);
            assert(4 * idx + 3 < 4 * dims.0 * dims.1) by (nonlinear_arith)
                requires
                    idx < dims.0 * dims.1,
            ;
        }
        let src_idx = idx * 4;
        let (red, green, blue) = (src[src_idx], src[src_idx + 1], src[src_idx + 2]);
        let mut pixel = dim_rgb(red, green, blue);
        let x = (idx as u32 % width) as i32;
        let y = (idx as u32 / width) as i32;
        let gx = window_origin.0 + x;
        let gy = window_origin.1 + y;
        let overlay = match &handle_rects {
            Some(h) => selection_overlay_pixel(red, green, blue, gx, gy, rect, Some(h)),
            None => selection_overlay_pixel(red, green, blue, gx, gy, rect, None),
        };
        if let Some(overlay_pixel) = overlay {
            pixel = overlay_pixel;
        }
        proof {
            let p = pixels[idx as int];
            assert(p == pixels_of_bytes(src@, (dims.0 * dims.1) as nat)[idx as int]);
            assert(source_pixel(pixels, dims, x as int, y as int) == p);
            assert(p[0] == red && p[1] == green && p[2] == blue);
        }
        frame[idx] = pixel;
        idx += 1;
    }
    proof {
        let size = dims;
        assert forall|x: int, y: int|
            #![trigger pixel_index(size, x, y)]
            in_frame(size, x, y) implies frame@[pixel_index(size, x, y)] == spec_background_pixel(
                pixels,
                dims,
                window_origin,
                active_rect,
                x,
                y,
            ) by {
            crate::frame::lemma_pixel_index_bounds(size, x, y);
            let j = pixel_index(size, x, y);
            vstd::arithmetic::div_mod::lemma_fundamental_div_mod_converse(j, width as int, y, x);
        }
    }
}

/// Draws the overlay background of a `width x height` window whose top-left
/// corner is at `window_origin` in global pixels: the capture dimmed, and
/// the active selection (`(x, y, width, height)`) undimmed inside its
/// border and handles. A capture of the window's size is read directly;
/// any other is sampled with clamping.
pub fn draw_overlay_background_into(
    frame: &mut [u32],
    width: u32,
    height: u32,
    screenshot: &PixelImage,
    window_origin: (i32, i32),
    active_rect: Option<SelectionRect>,
)
    requires
        old(frame)@.len() == width * height,
        frame_fits(old(frame)@.len(), (width, height)),
        background_args_ok(image_dims(*screenshot), (width, height), window_origin, active_rect),
    ensures
        background_drawn(
            final(frame)@,
            image_pixels(*screenshot),
            image_dims(*screenshot),
            (width, height),
            window_origin,
            active_rect,
        ),
{
    let rect = match active_rect {
        Some((x, y, w, h)) => Some((x, y, x + w - 1, y + h - 1)),
        None => None,
    };
    let handle_rects = handles_of(active_rect);
    let (sw, sh) = screenshot.dimensions();
    if sw == width && sh == height {
        draw_overlay_background_exact_size(
            frame,
            width,
            screenshot,
            window_origin,
            active_rect,
            rect,
            handle_rects,
        );
        return;
    }
    draw_overlay_background_sampled(
        frame,
        width,
        height,
        screenshot,
        window_origin,
        active_rect,
        rect,
        handle_rects,
    );
}


/// The key a background drawn from a capture of size `dims` is cached under.
pub open spec fn key_for(dims: (u32, u32), origin: (i32, i32), active: Option<SelectionRect>) -> BackgroundKey {
    BackgroundKey { screenshot_size: dims, window_origin: origin, active_rect: active }
}

/// `new` is `old` after drawing the overlay background of a capture with
/// `pixels` and `dims`: the cached background is kept when its key matches
/// and redrawn otherwise, and the frame is a copy of it.
pub open spec fn after_draw_background(
    old: CpuRendererView,
    new: CpuRendererView,
    pixels: Seq<[u8; 4]>,
    dims: (u32, u32),
    origin: (i32, i32),
    active: Option<SelectionRect>,
) -> bool {
    let key = key_for(dims, origin, active);
    &&& new.width == old.width
    &&& new.height == old.height
    &&& new.background_key == Some(key)
    &&& old.background_key == Some(key) ==> new.background == old.background
    &&& old.background_key != Some(key) ==> background_drawn(
        new.background,
        pixels,
        dims,
        (old.width, old.height),
        origin,
        active,
    )
    &&& new.frame == new.background
}

/// Drawing the background twice with the same capture, origin and
/// selection leaves the same frame both times.
pub proof fn lemma_redraw_keeps_frame(
    a: CpuRendererView,
    b: CpuRendererView,
    c: CpuRendererView,
    pixels: Seq<[u8; 4]>,
    dims: (u32, u32),
    origin: (i32, i32),
    active: Option<SelectionRect>,
)
    requires
        after_draw_background(a, b, pixels, dims, origin, active),
        after_draw_background(b, c, pixels, dims, origin, active),
    ensures
        c.frame == b.frame,
{
}

/// The cache is sound: if a cached background under the same key was drawn
/// from the same capture, the frame after drawing is exactly the overlay
/// background of that capture; and the cache then stays sound.
pub proof fn lemma_cached_background_is_exact(
    a: CpuRendererView,
    b: CpuRendererView,
    pixels: Seq<[u8; 4]>,
    dims: (u32, u32),
    origin: (i32, i32),
    active: Option<SelectionRect>,
)
    requires
        after_draw_background(a, b, pixels, dims, origin, active),
        a.background_key == Some(key_for(dims, origin, active)) ==> background_drawn(
            a.background,
            pixels,
            dims,
            (a.width, a.height),
            origin,
            active,
        ),
    ensures
        background_drawn(b.frame, pixels, dims, (b.width, b.height), origin, active),
        background_drawn(b.background, pixels, dims, (b.width, b.height), origin, active),
{
}

/// Without a selection the whole capture is shown dimmed.
pub proof fn lemma_no_selection_dims_everything(
    pixels: Seq<[u8; 4]>,
    dims: (u32, u32),
    origin: (i32, i32),
    x: int,
    y: int,
)
    ensures
        ({
            let p = source_pixel(pixels, dims, x, y);
            spec_background_pixel(pixels, dims, origin, None, x, y) == spec_dim_rgb(p[0], p[1], p[2])
        }),
{
}

/// Off the resize handles, the capture shows undimmed inside the
/// selection's two-pixel border and dimmed outside the selection.
pub proof fn lemma_selection_shows_capture_undimmed(
    pixels: Seq<[u8; 4]>,
    dims: (u32, u32),
    origin: (i32, i32),
    active: SelectionRect,
    x: int,
    y: int,
)
    requires
        in_i32(active.0 + active.2 - 1),
        in_i32(active.1 + active.3 - 1),
        !on_any_handle(selection_handles(Some(active)), origin.0 + x, origin.1 + y),
    ensures
        ({
            let p = source_pixel(pixels, dims, x, y);
            let gx = origin.0 + x;
            let gy = origin.1 + y;
            &&& (active.0 + 2 <= gx <= active.0 + active.2 - 3 && active.1 + 2 <= gy <= active.1
                + active.3 - 3) ==> spec_background_pixel(pixels, dims, origin, Some(active), x, y)
                == spec_pack_rgb(p[0], p[1], p[2])
            &&& (gx < active.0 || gx >= active.0 + active.2 || gy < active.1 || gy >= active.1
                + active.3) ==> spec_background_pixel(pixels, dims, origin, Some(active), x, y)
                == spec_dim_rgb(p[0], p[1], p[2])
        }),
{
}

/// What the cached background was drawn for.
#[derive(Debug, Clone, Copy)]
pub struct BackgroundKey {
    pub screenshot_size: (u32, u32),
    pub window_origin: (i32, i32),
    pub active_rect: Option<SelectionRect>,
}

fn same_key(a: Option<BackgroundKey>, b: BackgroundKey) -> (r: bool)
    ensures
        r == (a == Some(b)),
{
    match a {
        None => false,
        Some(k) => {
            let same_rect = match (k.active_rect, b.active_rect) {
                (None, None) => true,
                (Some(p), Some(q)) => p.0 == q.0 && p.1 == q.1 && p.2 == q.2 && p.3 == q.3,
                _ => false,
            };
            k.screenshot_size.0 == b.screenshot_size.0 && k.screenshot_size.1
                == b.screenshot_size.1 && k.window_origin.0 == b.window_origin.0
                && k.window_origin.1 == b.window_origin.1 && same_rect
        },
    }
}

/// The frame buffers of one overlay window: the frame being composed and a
/// cached copy of the last background drawn, with what it was drawn for.
pub struct CpuRenderer {
    width: u32,
    height: u32,
    frame: Vec<u32>,
    background_frame: Vec<u32>,
    background_key: Option<BackgroundKey>,
    textures: TextureStore,
}

/// The buffers of a renderer, the key of its cached background and its
/// textures.
pub struct CpuRendererView {
    pub width: u32,
    pub height: u32,
    pub frame: Seq<u32>,
    pub background: Seq<u32>,
    pub background_key: Option<BackgroundKey>,
    pub textures: Map<TextureKey, TextureDataView>,
}

impl View for CpuRenderer {
    type V = CpuRendererView;

    closed spec fn view(&self) -> CpuRendererView {
        CpuRendererView {
            width: self.width,
            height: self.height,
            frame: self.frame@,
            background: self.background_frame@,
            background_key: self.background_key,
            textures: self.textures@,
        }
    }
}

/// Both buffers hold one pixel per cell of a non-empty window whose pixel
/// count fits in `u32`.
pub open spec fn renderer_wf(v: CpuRendererView) -> bool {
    &&& v.width >= 1
    &&& v.height >= 1
    &&& v.width * v.height <= u32::MAX
    &&& v.frame.len() == v.width * v.height
    &&& v.background.len() == v.width * v.height
    &&& textures_wf(v.textures)
}

/// A size with each side raised to at least one pixel.
pub open spec fn at_least_one(v: u32) -> u32 {
    if v >= 1 { v } else { 1 }
}

/// `s` cut or zero-extended to `len` pixels.
pub open spec fn resized(s: Seq<u32>, len: nat) -> Seq<u32> {
    Seq::new(len, |i: int| if i < s.len() { s[i] } else { 0u32 })
}

fn zeroed(len: usize) -> (r: Vec<u32>)
    ensures
        r@ == Seq::new(len as nat, |i: int| 0u32),
{
    let mut v: Vec<u32> = Vec::with_capacity(len);
    let mut i: usize = 0;
    while i < len
        invariant
            i <= len,
            v@ == Seq::new(i as nat, |k: int| 0u32),
        decreases len - i,
    {
        v.push(0);
        i += 1;
    }
    v
}

fn resize_zeroed(v: &mut Vec<u32>, len: usize)
    ensures
        final(v)@ == resized(old(v)@, len as nat),
{
    if len <= v.len() {
        v.truncate(len);
    } else {
        while v.len() < len
            invariant
                old(v)@.len() <= v@.len() <= len,
                forall|i: int|
                    0 <= i < v@.len() ==> #[trigger] v@[i] == if i < old(v)@.len() {
                        old(v)@[i]
                    } else {
                        0u32
                    },
            decreases len - v@.len(),
        {
            v.push(0);
        }
    }
    assert(v@ =~= resized(old(v)@, len as nat));
}

impl CpuRenderer {
    pub open spec fn wf(&self) -> bool {
        renderer_wf(self@)
    }

    /// A renderer for a `width x height` window (each side at least one
    /// pixel), both buffers black and no background cached.
    pub fn new(width: u32, height: u32) -> (r: Self)
        requires
            at_least_one(width) * at_least_one(height) <= u32::MAX,
        ensures
            r.wf(),
            r@.width == at_least_one(width),
            r@.height == at_least_one(height),
            r@.frame == Seq::new((r@.width * r@.height) as nat, |i: int| 0u32),
            r@.background == r@.frame,
            r@.background_key is None,
            r@.textures == Map::<TextureKey, TextureDataView>::empty(),
    {
        let width = if width >= 1 { width } else { 1 };
        let height = if height >= 1 { height } else { 1 };
        let len = (width * height) as usize;
        CpuRenderer {
            width,
            height,
            frame: zeroed(len),
            background_frame: zeroed(len),
            background_key: None,
            textures: TextureStore::new(),
        }
    }

    /// Adapts the buffers to a new window size (each side at least one
    /// pixel): nothing changes when the size is the same; otherwise both
    /// buffers are cut or zero-extended to the new pixel count and the
    /// cached background is forgotten.
    pub fn resize(&mut self, width: u32, height: u32)
        requires
            old(self).wf(),
            at_least_one(width) * at_least_one(height) <= u32::MAX,
        ensures
            final(self).wf(),
            final(self)@.width == at_least_one(width),
            final(self)@.height == at_least_one(height),
            (at_least_one(width) == old(self)@.width && at_least_one(height) == old(self)@.height)
                ==> final(self)@ == old(self)@,
            !(at_least_one(width) == old(self)@.width && at_least_one(height) == old(self)@.height)
                ==> {
                &&& final(self)@.frame == resized(
                    old(self)@.frame,
                    (at_least_one(width) * at_least_one(height)) as nat,
                )
                &&& final(self)@.background == resized(
                    old(self)@.background,
                    (at_least_one(width) * at_least_one(height)) as nat,
                )
                &&& final(self)@.background_key is None
                &&& final(self)@.textures == old(self)@.textures
            },
    {
        let width = if width >= 1 { width } else { 1 };
        let height = if height >= 1 { height } else { 1 };
        if self.width == width && self.height == height {
            return;
        }
        self.width = width;
        self.height = height;
        let len = (self.width * self.height) as usize;
        resize_zeroed(&mut self.frame, len);
        resize_zeroed(&mut self.background_frame, len);
        self.background_key = None;
    }

    /// The frame's width and height.
    pub fn size(&self) -> (r: (u32, u32))
        ensures
            r == (self@.width, self@.height),
    {
        (self.width, self.height)
    }

    /// The composed frame, row-major, `0x00RRGGBB`.
    pub fn frame(&self) -> (r: &[u32])
        ensures
            r@ == self@.frame,
    {
        self.frame.as_slice()
    }

    /// The composed frame, for drawing onto it.
    pub fn frame_mut(&mut self) -> (r: &mut [u32])
        ensures
            r@ == old(self)@.frame,
            final(self)@.frame == final(r)@,
            final(self)@.width == old(self)@.width,
            final(self)@.height == old(self)@.height,
            final(self)@.background == old(self)@.background,
            final(self)@.background_key == old(self)@.background_key,
            final(self)@.textures == old(self)@.textures,
    {
        self.frame.as_mut_slice()
    }

    /// The UI toolkit's textures together with the frame, for drawing the
    /// toolkit's meshes onto the frame.
    pub fn textures_and_frame_mut(&mut self) -> (r: (&TextureStore, &mut [u32]))
        ensures
            r.0@ == old(self)@.textures,
            r.1@ == old(self)@.frame,
            final(self)@.frame == final(r.1)@,
            final(self)@.width == old(self)@.width,
            final(self)@.height == old(self)@.height,
            final(self)@.background == old(self)@.background,
            final(self)@.background_key == old(self)@.background_key,
            final(self)@.textures == old(self)@.textures,
    {
        (&self.textures, self.frame.as_mut_slice())
    }

    /// The UI toolkit's textures.
    pub fn textures(&self) -> (r: &TextureStore)
        ensures
            r@ == self@.textures,
    {
        &self.textures
    }

    /// Applies one frame's texture changes of the UI toolkit: first every
    /// update in order, then every release.
    pub fn apply_textures_delta(
        &mut self,
        set: Vec<(TextureKey, Option<(usize, usize)>, TextureData)>,
        free: &[TextureKey],
    )
        requires
            old(self).wf(),
            forall|i: int| 0 <= i < set@.len() ==> texture_wf((#[trigger] set@[i]).2@),
        ensures
            final(self).wf(),
            final(self)@.textures == spec_apply_sets(old(self)@.textures, update_views(set@)).remove_keys(
                key_set(free@),
            ),
            final(self)@.width == old(self)@.width,
            final(self)@.height == old(self)@.height,
            final(self)@.frame == old(self)@.frame,
            final(self)@.background == old(self)@.background,
            final(self)@.background_key == old(self)@.background_key,
    {
        self.textures.apply_textures_delta(set, free);
    }

    /// Sets the frame to the overlay background of `screenshot` seen through
    /// this window at `window_origin`, with the active selection. The
    /// background is redrawn only when the capture size, the origin or the
    /// selection differ from what the cached one was drawn for.
    pub fn draw_overlay_background(
        &mut self,
        screenshot: &PixelImage,
        window_origin: (i32, i32),
        active_rect: Option<SelectionRect>,
    )
        requires
            old(self).wf(),
            background_args_ok(
                image_dims(*screenshot),
                (old(self)@.width, old(self)@.height),
                window_origin,
                active_rect,
            ),
        ensures
            final(self).wf(),
            after_draw_background(
                old(self)@,
                final(self)@,
                image_pixels(*screenshot),
                image_dims(*screenshot),
                window_origin,
                active_rect,
            ),
            final(self)@.textures == old(self)@.textures,
    {
        let key = BackgroundKey {
            screenshot_size: screenshot.dimensions(),
            window_origin,
            active_rect,
        };
        if !same_key(self.background_key, key) {
            draw_overlay_background_into(
                self.background_frame.as_mut_slice(),
                self.width,
                self.height,
                screenshot,
                window_origin,
                active_rect,
            );
            self.background_key = Some(key);
        }
        let n = self.frame.len();
        let ghost before = self@;
        let mut i: usize = 0;
        while i < n
            invariant
                i <= n,
                n == self.frame@.len(),
                self@.width == before.width,
                self@.height == before.height,
                self@.background == before.background,
                self@.background_key == before.background_key,
                self@.textures == before.textures,
                self.frame@.len() == self.background_frame@.len(),
                forall|k: int| 0 <= k < i ==> self.frame@[k] == self.background_frame@[k],
            decreases n - i,
        {
            let v = self.background_frame[i];
            self.frame.set(i, v);
            i += 1;
        }
        assert(self.frame@ =~= self.background_frame@);
    }
}


// ---------------------------------------------------------------------------
// Textures of the UI toolkit
// ---------------------------------------------------------------------------

/// Identifies a texture of the UI toolkit: one it manages, or one a user
/// registered.
#[derive(Debug, Clone, Copy, PartialEq, Eq, Structural)]
pub enum TextureKey {
    Managed(u64),
    User(u64),
}

/// A `width x height` texture of premultiplied RGBA pixels, row-major.
#[derive(Debug)]
pub struct TextureData {
    pub width: usize,
    pub height: usize,
    pub pixels: Vec<[u8; 4]>,
}

/// A texture's size and pixels.
pub struct TextureDataView {
    pub width: usize,
    pub height: usize,
    pub pixels: Seq<[u8; 4]>,
}

impl View for TextureData {
    type V = TextureDataView;

    open spec fn view(&self) -> TextureDataView {
        TextureDataView { width: self.width, height: self.height, pixels: self.pixels@ }
    }
}

/// The texture holds exactly one pixel per cell.
pub open spec fn texture_wf(t: TextureDataView) -> bool {
    t.pixels.len() == t.width * t.height
}

pub open spec fn tex_index(width: usize, x: int, y: int) -> int {
    y * width + x
}

/// Cell `(c, r)` of `dst` after `src` is copied in with its top-left cell
/// at `(x, y)`, clipped to `dst`.
pub open spec fn blitted_pixel(dst: TextureDataView, src: TextureDataView, x: int, y: int, c: int, r: int) -> [u8; 4] {
    if x <= c < x + src.width && y <= r < y + src.height {
        src.pixels[tex_index(src.width, c - x, r - y)]
    } else {
        dst.pixels[tex_index(dst.width, c, r)]
    }
}

/// `new` is `dst` with `src` copied in at `(x, y)`.
pub open spec fn blitted(new: TextureDataView, dst: TextureDataView, src: TextureDataView, x: int, y: int) -> bool {
    &&& new.width == dst.width
    &&& new.height == dst.height
    &&& new.pixels.len() == dst.pixels.len()
    &&& forall|c: int, r: int|
        #![trigger tex_index(dst.width, c, r)]
        0 <= c < dst.width && 0 <= r < dst.height ==> new.pixels[tex_index(dst.width, c, r)]
            == blitted_pixel(dst, src, x, y, c, r)
}

/// `dst` with `src` copied in at `(x, y)`.
pub open spec fn spec_blit(dst: TextureDataView, src: TextureDataView, x: int, y: int) -> TextureDataView {
    TextureDataView {
        width: dst.width,
        height: dst.height,
        pixels: Seq::new(
            dst.pixels.len(),
            |i: int| blitted_pixel(dst, src, x, y, i % (dst.width as int), i / (dst.width as int)),
        ),
    }
}

proof fn lemma_blitted_is_spec_blit(new: TextureDataView, dst: TextureDataView, src: TextureDataView, x: int, y: int)
    requires
        texture_wf(dst),
        blitted(new, dst, src, x, y),
    ensures
        new == spec_blit(dst, src, x, y),
{
    let b = spec_blit(dst, src, x, y);
    assert forall|i: int| 0 <= i < new.pixels.len() implies new.pixels[i] == b.pixels[i] by {
        let w = dst.width as int;
        assert(w > 0) by (nonlinear_arith)
            requires
                0 <= i < dst.width * dst.height,
                w == dst.width,
        ;
        let c = i % w;
        let r = i / w;
        assert(i == r * w + c && 0 <= c < w) by (nonlinear_arith)
            requires
                w > 0,
                c == i % w,
                r == i / w,
        ;
        assert(0 <= r < dst.height) by (nonlinear_arith)
            requires
                i == r * w + c,
                0 <= c < w,
                0 <= i < dst.width * dst.height,
                w == dst.width,
        ;
        assert(tex_index(dst.width, c, r) == i);
    }
    assert(new.pixels =~= b.pixels);
}

proof fn lemma_tex_index_bounds(width: usize, height: usize, c: int, r: int)
    requires
        0 <= c < width,
        0 <= r < height,
    ensures
        0 <= tex_index(width, c, r) < width * height,
{
    assert(0 <= r * width + c < width * height) by (nonlinear_arith)
        requires
            0 <= c < width,
            0 <= r < height,
    ;
}

proof fn lemma_tex_index_injective(width: usize, a: int, b: int, c: int, d: int)
    requires
        0 <= a < width,
        0 <= c < width,
        0 <= b,
        0 <= d,
        tex_index(width, a, b) == tex_index(width, c, d),
    ensures
        a == c && b == d,
{
    assert(b == d) by (nonlinear_arith)
        requires
            0 <= a < width,
            0 <= c < width,
            0 <= b,
            0 <= d,
            b * width + a == d * width + c,
    {
        if b < d {
            assert(b * width + width <= d * width);
        } else if d < b {
            assert(d * width + width <= b * width);
        }
    }
}

/// Copies `src` into `dst` with its top-left cell at `(x, y)`; what falls
/// outside `dst` is dropped.
pub fn blit_texture(dst: &mut TextureData, src: &TextureData, x: usize, y: usize)
    requires
        texture_wf(old(dst)@),
        texture_wf(src@),
    ensures
        final(dst)@ == spec_blit(old(dst)@, src@, x as int, y as int),
{
    let ghost start = dst@;
    let dst_len = dst.pixels.len();
    let src_len = src.pixels.len();
    let rows = if y < dst.height {
        if src.height <= dst.height - y { src.height } else { dst.height - y }
    } else {
        0
    };
    let cols = if x < dst.width {
        if src.width <= dst.width - x { src.width } else { dst.width - x }
    } else {
        0
    };
    let mut row: usize = 0;
    while row < rows
        invariant
            texture_wf(src@),
            start.width == dst.width,
            start.height == dst.height,
            dst.pixels@.len() == start.pixels.len(),
            dst_len == start.pixels.len(),
            src_len == src.pixels@.len(),
            texture_wf(start),
            rows == if y < start.height { spec_min(src.height as int, start.height - y) } else { 0 },
            cols == if x < start.width { spec_min(src.width as int, start.width - x) } else { 0 },
            row <= rows,
            forall|c: int, r: int|
                #![trigger tex_index(start.width, c, r)]
                0 <= c < start.width && 0 <= r < start.height ==> dst.pixels@[tex_index(
                    start.width,
                    c,
                    r,
                )] == if r < y + row {
                    blitted_pixel(start, src@, x as int, y as int, c, r)
                } else {
                    start.pixels[tex_index(start.width, c, r)]
                },
        decreases rows - row,
    {
        let dst_y = y + row;
        let mut col: usize = 0;
        while col < cols
            invariant
                texture_wf(src@),
                start.width == dst.width,
                start.height == dst.height,
                dst.pixels@.len() == start.pixels.len(),
                dst_len == start.pixels.len(),
                src_len == src.pixels@.len(),
                texture_wf(start),
                rows == if y < start.height { spec_min(src.height as int, start.height - y) } else { 0 },
                cols == if x < start.width { spec_min(src.width as int, start.width - x) } else { 0 },
                row < rows,
                col <= cols,
                dst_y == y + row,
                forall|c: int, r: int|
                    #![trigger tex_index(start.width, c, r)]
                    0 <= c < start.width && 0 <= r < start.height ==> dst.pixels@[tex_index(
                        start.width,
                        c,
                        r,
                    )] == if r < y + row || (r == dst_y && c < x + col) {
                        blitted_pixel(start, src@, x as int, y as int, c, r)
                    } else {
                        start.pixels[tex_index(start.width, c, r)]
                    },
            decreases cols - col,
        {
            let dst_x = x + col;
            proof {
                lemma_tex_index_bounds(dst.width, dst.height, dst_x as int, dst_y as int);
                lemma_tex_index_bounds(src.width, src.height, col as int, row as int);
            }
            let dst_idx = dst_y * dst.width + dst_x;
            let src_idx = row * src.width + col;
            let value = src.pixels[src_idx];
            dst.pixels.set(dst_idx, value);
            proof {
                assert forall|c: int, r: int|
                    #![trigger tex_index(start.width, c, r)]
                    0 <= c < start.width && 0 <= r < start.height implies dst.pixels@[tex_index(
                        start.width,
                        c,
                        r,
                    )] == if r < y + row || (r == dst_y && c < x + col + 1) {
                        blitted_pixel(start, src@, x as int, y as int, c, r)
                    } else {
                        start.pixels[tex_index(start.width, c, r)]
                    } by {
                    lemma_tex_index_bounds(start.width, start.height, c, r);
                    if tex_index(start.width, c, r) == tex_index(start.width, dst_x as int, dst_y as int) {
                        lemma_tex_index_injective(start.width, c, r, dst_x as int, dst_y as int);
                    }
                }
            }
            col += 1;
        }
        row += 1;
    }
    proof {
        assert forall|c: int, r: int|
            #![trigger tex_index(start.width, c, r)]
            0 <= c < start.width && 0 <= r < start.height implies dst.pixels@[tex_index(
                start.width,
                c,
                r,
            )] == blitted_pixel(start, src@, x as int, y as int, c, r) by {
            if r >= y + row {
                assert(!(y <= r < y + src.height));
            }
        }
        lemma_blitted_is_spec_blit(dst@, start, src@, x as int, y as int);
    }
}

/// The texture stored under a key after setting `source` at `pos`: an
/// update at a position is copied into the texture already there;
/// otherwise `source` replaces it.
pub open spec fn texture_after_set(
    existing: Option<TextureDataView>,
    pos: Option<(usize, usize)>,
    source: TextureDataView,
) -> TextureDataView {
    match (pos, existing) {
        (Some(p), Some(e)) => spec_blit(e, source, p.0 as int, p.1 as int),
        _ => source,
    }
}

pub open spec fn textures_wf(m: Map<TextureKey, TextureDataView>) -> bool {
    forall|k: TextureKey| #[trigger] m.contains_key(k) ==> texture_wf(m[k])
}

/// The store after setting `source` at `pos` under `key`.
pub open spec fn spec_set_texture(
    m: Map<TextureKey, TextureDataView>,
    key: TextureKey,
    pos: Option<(usize, usize)>,
    source: TextureDataView,
) -> Map<TextureKey, TextureDataView> {
    m.insert(
        key,
        texture_after_set(if m.contains_key(key) { Some(m[key]) } else { None }, pos, source),
    )
}

/// The store after the updates `s`, in order.
pub open spec fn spec_apply_sets(
    m: Map<TextureKey, TextureDataView>,
    s: Seq<(TextureKey, Option<(usize, usize)>, TextureDataView)>,
) -> Map<TextureKey, TextureDataView>
    decreases s.len(),
{
    if s.len() == 0 {
        m
    } else {
        let e = s.last();
        spec_set_texture(spec_apply_sets(m, s.drop_last()), e.0, e.1, e.2)
    }
}

/// The keys occurring in `s`.
pub open spec fn key_set(s: Seq<TextureKey>) -> Set<TextureKey> {
    Set::new(|k: TextureKey| s.contains(k))
}

pub open spec fn update_views(s: Seq<(TextureKey, Option<(usize, usize)>, TextureData)>) -> Seq<
    (TextureKey, Option<(usize, usize)>, TextureDataView),
> {
    s.map_values(|e: (TextureKey, Option<(usize, usize)>, TextureData)| (e.0, e.1, e.2@))
}

pub open spec fn int_map_view(m: Map<u64, TextureData>) -> Map<u64, TextureDataView> {
    m.map_values(|t: TextureData| t@)
}

/// The textures the UI toolkit has uploaded, by key.
pub struct TextureStore {
    managed: HashMap<u64, TextureData>,
    user: HashMap<u64, TextureData>,
}

impl View for TextureStore {
    type V = Map<TextureKey, TextureDataView>;

    closed spec fn view(&self) -> Map<TextureKey, TextureDataView> {
        Map::new(
            |k: TextureKey|
                match k {
                    TextureKey::Managed(n) => self.managed@.contains_key(n),
                    TextureKey::User(n) => self.user@.contains_key(n),
                },
            |k: TextureKey|
                match k {
                    TextureKey::Managed(n) => self.managed@[n]@,
                    TextureKey::User(n) => self.user@[n]@,
                },
        )
    }
}

fn set_in_map(m: &mut HashMap<u64, TextureData>, n: u64, pos: Option<(usize, usize)>, source: TextureData)
    requires
        forall|k: u64| #[trigger] old(m)@.contains_key(k) ==> texture_wf(old(m)@[k]@),
        texture_wf(source@),
    ensures
        final(m)@.dom() == old(m)@.dom().insert(n),
        forall|k: u64| #[trigger] final(m)@.contains_key(k) && k != n ==> final(m)@[k] == old(m)@[k],
        final(m)@[n]@ == texture_after_set(
            if old(m)@.contains_key(n) { Some(old(m)@[n]@) } else { None },
            pos,
            source@,
        ),
        forall|k: u64| #[trigger] final(m)@.contains_key(k) ==> texture_wf(final(m)@[k]@),
{
    broadcast use vstd::std_specs::hash::group_hash_axioms;

    if let Some((x, y)) = pos {
        match m.remove(&n) {
            Some(mut existing) => {
                blit_texture(&mut existing, &source, x, y);
                m.insert(n, existing);
                assert(final(m)@.dom() =~= old(m)@.dom().insert(n));
                return;
            },
            None => {},
        }
    }
    m.insert(n, source);
    assert(m@.dom() =~= old(m)@.dom().insert(n));
}

impl TextureStore {
    pub open spec fn wf(&self) -> bool {
        textures_wf(self@)
    }

    proof fn lemma_wf_maps(&self)
        ensures
            self.wf() <==> (forall|k: u64| #[trigger] self.managed@.contains_key(k) ==> texture_wf(
                self.managed@[k]@,
            )) && (forall|k: u64| #[trigger] self.user@.contains_key(k) ==> texture_wf(
                self.user@[k]@,
            )),
    {
        if self.wf() {
            assert forall|k: u64| #[trigger] self.managed@.contains_key(k) implies texture_wf(
                self.managed@[k]@,
            ) by {
                assert(self@.contains_key(TextureKey::Managed(k)));
            }
            assert forall|k: u64| #[trigger] self.user@.contains_key(k) implies texture_wf(
                self.user@[k]@,
            ) by {
                assert(self@.contains_key(TextureKey::User(k)));
            }
        }
    }

    pub fn new() -> (r: Self)
        ensures
            r.wf(),
            r@ == Map::<TextureKey, TextureDataView>::empty(),
    {
        broadcast use vstd::std_specs::hash::group_hash_axioms;

        let r = TextureStore { managed: HashMap::new(), user: HashMap::new() };
        assert(r@ =~= Map::<TextureKey, TextureDataView>::empty());
        r
    }

    /// The texture stored under `key`.
    pub fn get(&self, key: TextureKey) -> (r: Option<&TextureData>)
        ensures
            match r {
                Some(t) => self@.contains_key(key) && t@ == self@[key],
                None => !self@.contains_key(key),
            },
    {
        broadcast use vstd::std_specs::hash::group_hash_axioms;

        match key {
            TextureKey::Managed(n) => self.managed.get(&n),
            TextureKey::User(n) => self.user.get(&n),
        }
    }

    /// Sets the texture under `key`: an update at a position is copied into
    /// the texture already stored there; otherwise `source` replaces it.
    pub fn set_texture(&mut self, key: TextureKey, pos: Option<(usize, usize)>, source: TextureData)
        requires
            old(self).wf(),
            texture_wf(source@),
        ensures
            final(self).wf(),
            final(self)@ == spec_set_texture(old(self)@, key, pos, source@),
    {
        let ghost src = source@;
        proof {
            self.lemma_wf_maps();
        }
        match key {
            TextureKey::Managed(n) => set_in_map(&mut self.managed, n, pos, source),
            TextureKey::User(n) => set_in_map(&mut self.user, n, pos, source),
        }
        assert(self@ =~= spec_set_texture(old(self)@, key, pos, src));
    }

    /// Forgets the texture under `key`.
    pub fn remove(&mut self, key: TextureKey)
        requires
            old(self).wf(),
        ensures
            final(self).wf(),
            final(self)@ == old(self)@.remove(key),
    {
        broadcast use vstd::std_specs::hash::group_hash_axioms;

        match key {
            TextureKey::Managed(n) => {
                self.managed.remove(&n);
            },
            TextureKey::User(n) => {
                self.user.remove(&n);
            },
        }
        assert(self@ =~= old(self)@.remove(key));
    }

    /// Applies one frame's texture changes: first every update in order,
    /// then every release.
    pub fn apply_textures_delta(
        &mut self,
        set: Vec<(TextureKey, Option<(usize, usize)>, TextureData)>,
        free: &[TextureKey],
    )
        requires
            old(self).wf(),
            forall|i: int| 0 <= i < set@.len() ==> texture_wf((#[trigger] set@[i]).2@),
        ensures
            final(self).wf(),
            final(self)@ == spec_apply_sets(old(self)@, update_views(set@)).remove_keys(
                key_set(free@),
            ),
    {
        broadcast use vstd::std_specs::vec::group_vec_axioms;

        let ghost s = update_views(set@);
        let ghost raw = set@;
        let ghost start = self@;
        for e in it: set.into_iter()
            invariant
                self.wf(),
                it.seq() == raw,
                s == update_views(raw),
                forall|i: int| 0 <= i < raw.len() ==> texture_wf((#[trigger] raw[i]).2@),
                self@ == spec_apply_sets(start, s.take(it.index())),
        {
            let ghost k = it.index();
            let (key, pos, data) = e;
            assert(s.take(k + 1).drop_last() =~= s.take(k));
            self.set_texture(key, pos, data);
        }
        proof {
            assert(s.take(s.len() as int) =~= s);
        }
        let ghost after_sets = self@;
        let mut j: usize = 0;
        while j < free.len()
            invariant
                self.wf(),
                j <= free@.len(),
                self@ == after_sets.remove_keys(key_set(free@.take(j as int))),
            decreases free@.len() - j,
        {
            self.remove(free[j]);
            proof {
                let prev = free@.take(j as int);
                let next = free@.take(j as int + 1);
                assert forall|k: TextureKey| next.contains(k) == (prev.contains(k) || k == free@[j as int]) by {
                    if next.contains(k) {
                        let i = choose|i: int| 0 <= i < next.len() && next[i] == k;
                        if i < j {
                            assert(prev[i] == k);
                        }
                    }
                    if prev.contains(k) {
                        let i = choose|i: int| 0 <= i < prev.len() && prev[i] == k;
                        assert(next[i] == k);
                    }
                    if k == free@[j as int] {
                        assert(next[j as int] == k);
                    }
                }
                assert(after_sets.remove_keys(key_set(next)) =~= after_sets.remove_keys(
                    key_set(prev),
                ).remove(free@[j as int]));
            }
            j += 1;
        }
        proof {
            assert(free@.take(free@.len() as int) =~= free@);
        }
    }
}

} // verus!
