//! Captured monitors and the image of a selection composed from them.
use vstd::prelude::*;

use crate::frame::{lemma_pixel_index_bounds, lemma_pixel_index_injective, pixel_index};
use crate::image_buffer::{
    PixelImage, catmull_rom_resized, image_dims, image_index, image_pixels, pixels_of_bytes,
    resize_catmull_rom,
};
use crate::selection_geometry::{
    in_i32, selection_rect_from_points, spec_max, spec_min, spec_selection_rect,
    drag_points_in_range, SelectionRect,
};

verus! {

/// The image captured from one monitor, whose top-left pixel is at
/// `origin` in global desktop pixels.
pub struct CapturedMonitor {
    pub origin: (i32, i32),
    pub image: PixelImage,
}

/// The capture covers the global pixel `(gx, gy)`.
pub open spec fn capture_covers(c: CapturedMonitor, gx: int, gy: int) -> bool {
    &&& c.origin.0 <= gx < c.origin.0 + image_dims(c.image).0
    &&& c.origin.1 <= gy < c.origin.1 + image_dims(c.image).1
}

/// The pixel a capture shows at the global pixel `(gx, gy)`.
pub open spec fn capture_pixel(c: CapturedMonitor, gx: int, gy: int) -> [u8; 4] {
    image_pixels(c.image)[image_index(image_dims(c.image).0, gx - c.origin.0, gy - c.origin.1)]
}

/// Opaque black, shown where no capture covers the selection.
pub open spec fn uncovered_pixel() -> [u8; 4] {
    [0, 0, 0, 255]
}

/// The global pixel `(gx, gy)` as composed from the first `n` captures: the
/// last of them covering it wins.
pub open spec fn composed_pixel(caps: Seq<CapturedMonitor>, n: int, gx: int, gy: int) -> [u8; 4]
    decreases n,
{
    if n <= 0 {
        uncovered_pixel()
    } else if capture_covers(caps[n - 1], gx, gy) {
        capture_pixel(caps[n - 1], gx, gy)
    } else {
        composed_pixel(caps, n - 1, gx, gy)
    }
}

/// Every capture's far edges and size fit in `i32`.
pub open spec fn captures_in_range(caps: Seq<CapturedMonitor>) -> bool {
    forall|i: int|
        0 <= i < caps.len() ==> {
            &&& image_dims((#[trigger] caps[i]).image).0 <= i32::MAX
            &&& image_dims(caps[i].image).1 <= i32::MAX
            &&& in_i32(caps[i].origin.0 + image_dims(caps[i].image).0)
            &&& in_i32(caps[i].origin.1 + image_dims(caps[i].image).1)
        }
}

/// Whether every capture's far edges fit in `i32`, as composing a selection
/// needs.
pub fn captures_fit(captures: &[CapturedMonitor]) -> (r: bool)
    ensures
        r == captures_in_range(captures@),
{
    let mut i: usize = 0;
    while i < captures.len()
        invariant
            i <= captures@.len(),
            captures_in_range(captures@.take(i as int)),
        decreases captures.len() - i,
    {
        let (w, h) = captures[i].image.dimensions();
        let (x, y) = captures[i].origin;
        let right = x as i64 + w as i64;
        let bottom = y as i64 + h as i64;
        if !(w <= i32::MAX as u32 && h <= i32::MAX as u32 && right <= i32::MAX as i64 && bottom
            <= i32::MAX as i64) {
            assert(captures@[i as int] == captures@.take(i as int + 1)[i as int]);
            return false;
        }
        assert(captures_in_range(captures@.take(i as int + 1))) by {
            assert forall|k: int| 0 <= k < i + 1 implies #[trigger] captures@.take(i as int + 1)[k]
                == captures@[k] by {}
            assert forall|k: int| 0 <= k < i implies #[trigger] captures@.take(i as int)[k]
                == captures@[k] by {}
        }
        i += 1;
    }
    assert(captures@.take(i as int) =~= captures@);
    true
}

/// The selection's image holds, at each of its pixels, the composed
/// capture pixel at the same global position.
pub open spec fn composed_selection(img: PixelImage, caps: Seq<CapturedMonitor>, rect: SelectionRect) -> bool {
    &&& image_dims(img) == (rect.2 as u32, rect.3 as u32)
    &&& image_pixels(img).len() == rect.2 * rect.3
    &&& forall|dx: int, dy: int|
        #![trigger pixel_index((rect.2 as u32, rect.3 as u32), dx, dy)]
        0 <= dx < rect.2 && 0 <= dy < rect.3 ==> image_pixels(img)[pixel_index(
            (rect.2 as u32, rect.3 as u32),
            dx,
            dy,
        )] == composed_pixel(caps, caps.len() as int, rect.0 + dx, rect.1 + dy)
}

/// Copies the part of one capture that overlaps the selection into the
/// selection's image.
fn copy_capture_into(
    output: &mut PixelImage,
    capture: &CapturedMonitor,
    rect: SelectionRect,
    Ghost(caps): Ghost<Seq<CapturedMonitor>>,
    Ghost(n): Ghost<int>,
)
    requires
        0 <= n < caps.len(),
        caps[n] == *capture,
        captures_in_range(caps),
        rect.2 > 0,
        rect.3 > 0,
        in_i32(rect.0 + rect.2),
        in_i32(rect.1 + rect.3),
        image_dims(*old(output)) == (rect.2 as u32, rect.3 as u32),
        image_pixels(*old(output)).len() == rect.2 * rect.3,
        forall|dx: int, dy: int|
            #![trigger pixel_index((rect.2 as u32, rect.3 as u32), dx, dy)]
            0 <= dx < rect.2 && 0 <= dy < rect.3 ==> image_pixels(*old(output))[pixel_index(
                (rect.2 as u32, rect.3 as u32),
                dx,
                dy,
            )] == composed_pixel(caps, n, rect.0 + dx, rect.1 + dy),
    ensures
        image_dims(*final(output)) == (rect.2 as u32, rect.3 as u32),
        image_pixels(*final(output)).len() == rect.2 * rect.3,
        forall|dx: int, dy: int|
            #![trigger pixel_index((rect.2 as u32, rect.3 as u32), dx, dy)]
            0 <= dx < rect.2 && 0 <= dy < rect.3 ==> image_pixels(*final(output))[pixel_index(
                (rect.2 as u32, rect.3 as u32),
                dx,
                dy,
            )] == composed_pixel(caps, n + 1, rect.0 + dx, rect.1 + dy),
{
    let ghost size = (rect.2 as u32, rect.3 as u32);
    let ghost start = image_pixels(*output);
    let (x, y, w, h) = rect;
    let (cw, ch) = capture.image.dimensions();
    assert(image_dims(caps[n].image).0 <= i32::MAX);
    let capture_x0 = capture.origin.0;
    let capture_y0 = capture.origin.1;
    let capture_x1 = capture_x0 + cw as i32;
    let capture_y1 = capture_y0 + ch as i32;
    let rect_x1 = x + w;
    let rect_y1 = y + h;
    let intersect_x0 = if x >= capture_x0 { x } else { capture_x0 };
    let intersect_y0 = if y >= capture_y0 { y } else { capture_y0 };
    let intersect_x1 = if rect_x1 <= capture_x1 { rect_x1 } else { capture_x1 };
    let intersect_y1 = if rect_y1 <= capture_y1 { rect_y1 } else { capture_y1 };
    if intersect_x0 >= intersect_x1 || intersect_y0 >= intersect_y1 {
        assert forall|dx: int, dy: int|
            #![trigger pixel_index(size, dx, dy)]
            0 <= dx < rect.2 && 0 <= dy < rect.3 implies image_pixels(*output)[pixel_index(
                size,
                dx,
                dy,
            )] == composed_pixel(caps, n + 1, rect.0 + dx, rect.1 + dy) by {
            assert(!capture_covers(caps[n], rect.0 + dx, rect.1 + dy));
        }
        return;
    }
    let mut global_y = intersect_y0;
    while global_y < intersect_y1
        invariant
            size == (rect.2 as u32, rect.3 as u32),
            (x, y, w, h) == rect,
            rect.2 > 0,
            rect.3 > 0,
            0 <= n < caps.len(),
            caps[n] == *capture,
            (cw, ch) == image_dims(capture.image),
            cw <= i32::MAX,
            ch <= i32::MAX,
            capture_x0 == capture.origin.0,
            capture_y0 == capture.origin.1,
            capture_x1 == capture_x0 + cw,
            capture_y1 == capture_y0 + ch,
            intersect_x0 == spec_max(x as int, capture_x0 as int),
            intersect_y0 == spec_max(y as int, capture_y0 as int),
            intersect_x1 == spec_min(x + w, capture_x1 as int),
            intersect_y1 == spec_min(y + h, capture_y1 as int),
            intersect_x0 < intersect_x1,
            intersect_y0 <= global_y <= intersect_y1,
            image_dims(*output) == size,
            image_pixels(*output).len() == rect.2 * rect.3,
            forall|dx: int, dy: int|
                #![trigger pixel_index(size, dx, dy)]
                0 <= dx < rect.2 && 0 <= dy < rect.3 ==> image_pixels(*output)[pixel_index(
                    size,
                    dx,
                    dy,
                )] == if capture_covers(caps[n], rect.0 + dx, rect.1 + dy) && rect.1 + dy
                    < global_y {
                    capture_pixel(caps[n], rect.0 + dx, rect.1 + dy)
                } else {
                    start[pixel_index(size, dx, dy)]
                },
        decreases intersect_y1 - global_y,
    {
        let mut global_x = intersect_x0;
        while global_x < intersect_x1
            invariant
                size == (rect.2 as u32, rect.3 as u32),
                (x, y, w, h) == rect,
                rect.2 > 0,
                rect.3 > 0,
                0 <= n < caps.len(),
                caps[n] == *capture,
                (cw, ch) == image_dims(capture.image),
                cw <= i32::MAX,
                ch <= i32::MAX,
                capture_x0 == capture.origin.0,
                capture_y0 == capture.origin.1,
                capture_x1 == capture_x0 + cw,
                capture_y1 == capture_y0 + ch,
                intersect_x0 == spec_max(x as int, capture_x0 as int),
                intersect_y0 == spec_max(y as int, capture_y0 as int),
                intersect_x1 == spec_min(x + w, capture_x1 as int),
                intersect_y1 == spec_min(y + h, capture_y1 as int),
                intersect_x0 <= global_x <= intersect_x1,
                intersect_y0 <= global_y < intersect_y1,
                image_dims(*output) == size,
                image_pixels(*output).len() == rect.2 * rect.3,
                forall|dx: int, dy: int|
                    #![trigger pixel_index(size, dx, dy)]
                    0 <= dx < rect.2 && 0 <= dy < rect.3 ==> image_pixels(*output)[pixel_index(
                        size,
                        dx,
                        dy,
                    )] == if capture_covers(caps[n], rect.0 + dx, rect.1 + dy) && (rect.1 + dy
                        < global_y || (rect.1 + dy == global_y && rect.0 + dx < global_x)) {
                        capture_pixel(caps[n], rect.0 + dx, rect.1 + dy)
                    } else {
                        start[pixel_index(size, dx, dy)]
                    },
            decreases intersect_x1 - global_x,
        {
            let src_x = (global_x - capture_x0) as u32;
            let src_y = (global_y - capture_y0) as u32;
            let dst_x = (global_x - x) as u32;
            let dst_y = (global_y - y) as u32;
            let pixel = capture.image.get_pixel(src_x, src_y);
            output.put_pixel(dst_x, dst_y, pixel);
            proof {
                lemma_pixel_index_bounds(size, dst_x as int, dst_y as int);
                assert forall|dx: int, dy: int|
                    #![trigger pixel_index(size, dx, dy)]
                    0 <= dx < rect.2 && 0 <= dy < rect.3 implies image_pixels(*output)[pixel_index(
                        size,
                        dx,
                        dy,
                    )] == if capture_covers(caps[n], rect.0 + dx, rect.1 + dy) && (rect.1 + dy
                        < global_y || (rect.1 + dy == global_y && rect.0 + dx < global_x + 1)) {
                        capture_pixel(caps[n], rect.0 + dx, rect.1 + dy)
                    } else {
                        start[pixel_index(size, dx, dy)]
                    } by {
                    lemma_pixel_index_bounds(size, dx, dy);
                    lemma_pixel_index_bounds(size, dst_x as int, dst_y as int);
                    if pixel_index(size, dx, dy) == pixel_index(size, dst_x as int, dst_y as int) {
                        lemma_pixel_index_injective(size, dx, dy, dst_x as int, dst_y as int);
                    }
                }
            }
            global_x += 1;
        }
        global_y += 1;
    }
    assert forall|dx: int, dy: int|
        #![trigger pixel_index(size, dx, dy)]
        0 <= dx < rect.2 && 0 <= dy < rect.3 implies image_pixels(*output)[pixel_index(
            size,
            dx,
            dy,
        )] == composed_pixel(caps, n + 1, rect.0 + dx, rect.1 + dy) by {
        if capture_covers(caps[n], rect.0 + dx, rect.1 + dy) {
            assert(rect.1 + dy < global_y);
        }
    }
}

/// The selection `(x, y, width, height)` composed from the captured
/// monitors, later captures drawn over earlier ones, opaque black where no
/// capture covers it. A selection without area is refused.
pub fn compose_selection_image(captures: &[CapturedMonitor], rect: SelectionRect) -> (r: Result<
    PixelImage,
    String,
>)
    requires
        captures_in_range(captures@),
        rect.2 > 0 && rect.3 > 0 ==> {
            &&& in_i32(rect.0 + rect.2)
            &&& in_i32(rect.1 + rect.3)
            &&& 4 * rect.2 * rect.3 <= isize::MAX
        },
    ensures
        r is Err <==> (rect.2 <= 0 || rect.3 <= 0),
        r matches Ok(img) ==> composed_selection(img, captures@, rect),
{
    let (x, y, w, h) = rect;
    if w <= 0 || h <= 0 {
        return Err("selection size must be positive".to_string());
    }
    let width = w as u32;
    let height = h as u32;
    assert(4 * width <= 4 * width * height) by (nonlinear_arith)
        requires
            height >= 1,
    ;
    let mut output = PixelImage::from_pixel(width, height, [0, 0, 0, 255]);
    let ghost size = (width, height);
    proof {
        assert forall|dx: int, dy: int|
            #![trigger pixel_index(size, dx, dy)]
            0 <= dx < rect.2 && 0 <= dy < rect.3 implies image_pixels(output)[pixel_index(
                size,
                dx,
                dy,
            )] == composed_pixel(captures@, 0, rect.0 + dx, rect.1 + dy) by {
            lemma_pixel_index_bounds(size, dx, dy);
        }
    }
    let mut i: usize = 0;
    while i < captures.len()
        invariant
            i <= captures@.len(),
            size == (rect.2 as u32, rect.3 as u32),
            rect.2 > 0,
            rect.3 > 0,
            in_i32(rect.0 + rect.2),
            in_i32(rect.1 + rect.3),
            captures_in_range(captures@),
            image_dims(output) == size,
            image_pixels(output).len() == rect.2 * rect.3,
            forall|dx: int, dy: int|
                #![trigger pixel_index(size, dx, dy)]
                0 <= dx < rect.2 && 0 <= dy < rect.3 ==> image_pixels(output)[pixel_index(
                    size,
                    dx,
                    dy,
                )] == composed_pixel(captures@, i as int, rect.0 + dx, rect.1 + dy),
        decreases captures.len() - i,
    {
        copy_capture_into(&mut output, &captures[i], rect, Ghost(captures@), Ghost(i as int));
        i += 1;
    }
    Ok(output)
}

/// The uniform grey image shown for a monitor that could not be captured,
/// at least one pixel on each side.
pub fn fallback_capture_image(width: u32, height: u32) -> (r: PixelImage)
    requires
        4 * spec_max(width as int, 1) * spec_max(height as int, 1) <= isize::MAX,
    ensures
        image_dims(r) == (spec_max(width as int, 1) as u32, spec_max(height as int, 1) as u32),
        forall|i: int| 0 <= i < image_pixels(r).len() ==> image_pixels(r)[i] == [70u8, 70, 70, 255],
{
    let w = if width >= 1 { width } else { 1 };
    let h = if height >= 1 { height } else { 1 };
    assert(4 * w <= 4 * w * h) by (nonlinear_arith)
        requires
            h >= 1,
    ;
    PixelImage::from_pixel(w, h, [70, 70, 70, 255])
}

/// A copy of an image.
pub fn copy_image(image: &PixelImage) -> (r: PixelImage)
    ensures
        image_dims(r) == image_dims(*image),
        image_pixels(r) == image_pixels(*image),
{
    image.clone_image()
}

/// The captured RGBA bytes `(width, height, bytes)` make an image: the byte
/// length `4 * width * height` fits in `usize` and the bytes hold it.
pub open spec fn capture_holds_image(captured: Option<(u32, u32, Vec<u8>)>) -> bool {
    match captured {
        Some((w, h, bytes)) => {
            &&& 4 * w <= usize::MAX
            &&& 4 * w * h <= usize::MAX
            &&& 4 * w * h <= bytes@.len()
        },
        None => false,
    }
}

/// The image a monitor of `monitor_size` shows: what was captured, when the
/// capture succeeded with bytes that hold its image, else the grey fallback
/// image of the monitor's size.
pub fn monitor_image(captured: Option<(u32, u32, Vec<u8>)>, monitor_size: (u32, u32)) -> (r: PixelImage)
    requires
        !capture_holds_image(captured) ==> 4 * spec_max(monitor_size.0 as int, 1) * spec_max(
            monitor_size.1 as int,
            1,
        ) <= isize::MAX,
    ensures
        capture_holds_image(captured) ==> {
            let (w, h, bytes) = captured.unwrap();
            &&& image_dims(r) == (w, h)
            &&& image_pixels(r) == pixels_of_bytes(bytes@, (w * h) as nat)
        },
        !capture_holds_image(captured) ==> {
            &&& image_dims(r) == (
                spec_max(monitor_size.0 as int, 1) as u32,
                spec_max(monitor_size.1 as int, 1) as u32,
            )
            &&& forall|i: int|
                0 <= i < image_pixels(r).len() ==> image_pixels(r)[i] == [70u8, 70, 70, 255]
        },
{
    if let Some((w, h, bytes)) = captured {
        if let Some(image) = PixelImage::from_raw(w, h, bytes) {
            return image;
        }
    }
    fallback_capture_image(monitor_size.0, monitor_size.1)
}

/// When neither image already has the window's size, the source is
/// resampled: both sizes must be positive, and the resampling buffers (four
/// `f32` channels at the source width and new height, then the new image)
/// must fit in one allocation.
pub open spec fn fit_in_range(source: PixelImage, screenshot: PixelImage, width: u32, height: u32) -> bool {
    image_dims(screenshot) != (width, height) && image_dims(source) != (width, height) ==> {
        &&& width > 0
        &&& height > 0
        &&& image_dims(source).0 > 0
        &&& image_dims(source).1 > 0
        &&& 16 * image_dims(source).0 * height <= isize::MAX
        &&& 4 * width * height <= isize::MAX
    }
}

/// Whether `fit_screenshot_to_window` can fit `screenshot` or `source` to a
/// window of `width x height`.
pub fn fit_fits(source: &PixelImage, screenshot: &PixelImage, width: u32, height: u32) -> (r: bool)
    ensures
        r == fit_in_range(*source, *screenshot, width, height),
{
    let (sw, sh) = screenshot.dimensions();
    let (w0, h0) = source.dimensions();
    if (sw == width && sh == height) || (w0 == width && h0 == height) {
        return true;
    }
    let limit = isize::MAX as u128;
    let (a, b, c) = (w0 as u128, width as u128, height as u128);
    assert(a * c <= 0xffff_ffffu128 * 0xffff_ffffu128 && b * c <= 0xffff_ffffu128 * 0xffff_ffffu128)
        by (nonlinear_arith)
        requires
            a <= 0xffff_ffffu128,
            b <= 0xffff_ffffu128,
            c <= 0xffff_ffffu128,
    ;
    let source_fits = 16 * (a * c) <= limit;
    let window_fits = 4 * (b * c) <= limit;
    assert(16 * (a * c) == 16 * a * c && 4 * (b * c) == 4 * b * c) by (nonlinear_arith);
    width > 0 && height > 0 && w0 > 0 && h0 > 0 && source_fits && window_fits
}

/// The capture a window shows, fitted to the window's new size: kept when
/// it already fits, else the unscaled source capture when that fits, else the
/// source capture scaled with the Catmull-Rom filter.
pub fn fit_screenshot_to_window(
    source: &PixelImage,
    screenshot: PixelImage,
    width: u32,
    height: u32,
) -> (r: PixelImage)
    requires
        fit_in_range(*source, screenshot, width, height),
    ensures
        image_dims(r) == (width, height),
        image_dims(screenshot) == (width, height) ==> image_pixels(r) == image_pixels(screenshot),
        image_dims(screenshot) != (width, height) && image_dims(*source) == (width, height)
            ==> image_pixels(r) == image_pixels(*source),
        image_dims(screenshot) != (width, height) && image_dims(*source) != (width, height)
            ==> image_pixels(r) == catmull_rom_resized(
            image_pixels(*source),
            image_dims(*source),
            width,
            height,
        ),
{
    let (sw, sh) = screenshot.dimensions();
    if sw == width && sh == height {
        return screenshot;
    }
    let (w0, h0) = source.dimensions();
    if w0 == width && h0 == height {
        copy_image(source)
    } else {
        resize_catmull_rom(source, width, height)
    }
}

/// The selection being dragged out between the press point and the pointer.
pub fn current_selection_rect(start: Option<(i32, i32)>, current: Option<(i32, i32)>) -> (r: Option<
    SelectionRect,
>)
    requires
        drag_points_in_range(start, current),
    ensures
        r == spec_selection_rect(start, current),
{
    selection_rect_from_points(start, current)
}

/// A pixel of the selection no capture covers is opaque black.
pub proof fn lemma_uncovered_pixel_is_black(caps: Seq<CapturedMonitor>, n: int, gx: int, gy: int)
    requires
        n <= caps.len(),
        forall|j: int| 0 <= j < n ==> !capture_covers(#[trigger] caps[j], gx, gy),
    ensures
        composed_pixel(caps, n, gx, gy) == uncovered_pixel(),
    decreases n,
{
    if n > 0 {
        assert(!capture_covers(caps[n - 1], gx, gy));
        lemma_uncovered_pixel_is_black(caps, n - 1, gx, gy);
    }
}

/// A pixel of the selection covered by exactly one capture shows that
/// capture: monitors that do not overlap compose into their union.
pub proof fn lemma_single_cover_shows_capture(
    caps: Seq<CapturedMonitor>,
    n: int,
    i: int,
    gx: int,
    gy: int,
)
    requires
        0 <= i < n <= caps.len(),
        capture_covers(caps[i], gx, gy),
        forall|j: int| 0 <= j < n && j != i ==> !capture_covers(#[trigger] caps[j], gx, gy),
    ensures
        composed_pixel(caps, n, gx, gy) == capture_pixel(caps[i], gx, gy),
    decreases n,
{
    if n - 1 != i {
        assert(!capture_covers(caps[n - 1], gx, gy));
        lemma_single_cover_shows_capture(caps, n - 1, i, gx, gy);
    }
}

} // verus!
