use screenclip::annotations::rectangle::{
    draw_preview, export_args_fit, preview_args_fit, rect_intersects_viewport, render_to_image,
    RectangleAnnotation,
};
use screenclip::desktop_geometry::DesktopRect;
use screenclip::image_buffer::PixelImage;

const BORDER_RGBA: [u8; 4] = [0x1A, 0xB3, 0xFF, 0xFF];
const BORDER_U32: u32 = 0x001AB3FF;

fn count_border_pixels(frame: &[u32]) -> usize {
    frame.iter().filter(|&&p| p == BORDER_U32).count()
}

// 100x50 rectangle perimeter (3px thick):
//   4 edge rectangles - 4 corner overlaps (3x3 each)
fn expected_perimeter(w: i32, h: i32, t: i32) -> i32 {
    w * t + w * t + t * h + t * h - 4 * t * t
}

fn count_pixels(image: &PixelImage, pred: impl Fn([u8; 4]) -> bool) -> usize {
    let (w, h) = image.dimensions();
    let mut n = 0;
    for y in 0..h {
        for x in 0..w {
            if pred(image.get_pixel(x, y)) {
                n += 1;
            }
        }
    }
    n
}

#[test]
fn clips_to_window() {
    let mut frame_left = vec![0u32; 1920 * 1080];
    let mut frame_right = vec![0u32; 1920 * 1080];

    let annotation = RectangleAnnotation { global_rect: (1900, 100, 100, 50) };

    draw_preview(&mut frame_left, (1920, 1080), (0, 0), &[annotation.clone()], None, BORDER_RGBA);
    draw_preview(&mut frame_right, (1920, 1080), (1920, 0), &[annotation], None, BORDER_RGBA);

    let left = count_border_pixels(&frame_left);
    let right = count_border_pixels(&frame_right);

    assert!(left > 0, "left window should see the rectangle");
    assert!(right > 0, "right window should see the rectangle");
    assert_eq!(left + right, expected_perimeter(100, 50, 3) as usize);
}

#[test]
fn active_rect_renders_in_both_windows() {
    let mut frame_left = vec![0u32; 1920 * 1080];
    let mut frame_right = vec![0u32; 1920 * 1080];

    let active = Some((1900, 100, 100, 50));

    draw_preview(&mut frame_left, (1920, 1080), (0, 0), &[], active, BORDER_RGBA);
    draw_preview(&mut frame_right, (1920, 1080), (1920, 0), &[], active, BORDER_RGBA);

    let left = count_border_pixels(&frame_left);
    let right = count_border_pixels(&frame_right);

    assert!(left > 0);
    assert!(right > 0);
    assert_eq!(left + right, expected_perimeter(100, 50, 3) as usize);
}

#[test]
fn render_burns_only_inside_selection() {
    let mut image = PixelImage::from_pixel(200, 200, [0, 0, 0, 0]);

    let inside = RectangleAnnotation { global_rect: (50, 50, 50, 50) };
    let outside = RectangleAnnotation { global_rect: (300, 300, 50, 50) };

    render_to_image(&mut image, (0, 0, 200, 200), &[inside, outside], BORDER_RGBA);

    let blue_count = count_pixels(&image, |p| p[0] == 0x1A && p[1] == 0xB3 && p[2] == 0xFF);

    assert_eq!(blue_count, expected_perimeter(50, 50, 3) as usize);
}

#[test]
fn border_color_is_respected() {
    let mut image = PixelImage::from_pixel(100, 100, [0, 0, 0, 0]);
    let red = [255, 0, 0, 255];

    render_to_image(
        &mut image,
        (0, 0, 100, 100),
        &[RectangleAnnotation { global_rect: (10, 10, 50, 50) }],
        red,
    );

    let red_count = count_pixels(&image, |p| p[0] == 255 && p[1] == 0 && p[2] == 0);
    assert_eq!(red_count, expected_perimeter(50, 50, 3) as usize);
}

#[test]
fn outline_pixels_sit_on_the_rectangle_edges() {
    let mut frame = vec![0u32; 40 * 30];
    let rect = RectangleAnnotation { global_rect: (105, 205, 10, 8) };
    draw_preview(&mut frame, (40, 30), (100, 200), &[rect], None, [1, 2, 3, 255]);
    let at = |x: usize, y: usize| frame[y * 40 + x];
    // corners and edges of the outline, in window-local pixels
    assert_eq!(at(5, 5), 0x010203);
    assert_eq!(at(14, 12), 0x010203);
    assert_eq!(at(7, 7), 0x010203);
    // inside the outline and just outside it stay untouched
    assert_eq!(at(8, 8), 0);
    assert_eq!(at(4, 5), 0);
    assert_eq!(at(15, 5), 0);
    assert_eq!(count_border_pixels(&frame), 0);
    assert_eq!(frame.iter().filter(|&&p| p == 0x010203).count(), expected_perimeter(10, 8, 3) as usize);
}

#[test]
fn preview_and_export_paint_the_same_global_pixels() {
    let rect = RectangleAnnotation { global_rect: (30, 40, 25, 20) };
    let mut frame = vec![0u32; 100 * 100];
    draw_preview(&mut frame, (100, 100), (10, 20), &[rect], None, BORDER_RGBA);
    let mut image = PixelImage::from_pixel(100, 100, [0, 0, 0, 0]);
    render_to_image(&mut image, (10, 20, 100, 100), &[rect], BORDER_RGBA);
    for y in 0..100u32 {
        for x in 0..100u32 {
            let in_frame = frame[(y * 100 + x) as usize] == BORDER_U32;
            let in_image = image.get_pixel(x, y) == BORDER_RGBA;
            assert_eq!(in_frame, in_image);
        }
    }
}

#[test]
fn empty_rectangles_are_not_drawn() {
    let viewport = DesktopRect::from_origin_size((0, 0), (100, 100));
    assert!(!rect_intersects_viewport((10, 10, 0, 10), viewport));
    assert!(!rect_intersects_viewport((10, 10, 10, -1), viewport));
    assert!(rect_intersects_viewport((10, 10, 1, 1), viewport));
    assert!(!rect_intersects_viewport((100, 10, 5, 5), viewport));
    let mut frame = vec![0u32; 100 * 100];
    draw_preview(&mut frame, (100, 100), (0, 0), &[], Some((10, 10, 0, 10)), BORDER_RGBA);
    assert_eq!(count_border_pixels(&frame), 0);
}

#[test]
fn preview_args_fit_checks_frame_and_outlines() {
    let near = [RectangleAnnotation { global_rect: (10, 10, 20, 20) }];
    let far = [RectangleAnnotation { global_rect: (i32::MAX - 5, 10, 20, 20) }];
    assert!(preview_args_fit(100 * 80, (100, 80), (0, 0), &near, Some((5, 5, 10, 10))));
    assert!(!preview_args_fit(100 * 80 - 1, (100, 80), (0, 0), &near, None));
    assert!(!preview_args_fit(100 * 80, (100, 80), (0, 0), &far, None));
    assert!(!preview_args_fit(100 * 80, (100, 80), (i32::MAX - 50, 0), &[], None));
    // An outline that misses the window is never stroked.
    let elsewhere = [RectangleAnnotation { global_rect: (i32::MIN, 10, 20, 20) }];
    assert!(preview_args_fit(100 * 80, (100, 80), (i32::MAX - 100, 0), &elsewhere, None));
}

#[test]
fn export_args_fit_checks_selection_and_outlines() {
    let near = [RectangleAnnotation { global_rect: (10, 10, 20, 20) }];
    assert!(export_args_fit((0, 0, 100, 80), &near));
    assert!(!export_args_fit((i32::MAX - 10, 0, 100, 80), &near));
    let far = [RectangleAnnotation { global_rect: (i32::MAX - 5, 10, 20, 20) }];
    assert!(!export_args_fit((0, 0, 100, 80), &far));
}
