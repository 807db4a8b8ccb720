use screenclip::capture::{
    compose_selection_image, copy_image, current_selection_rect, fallback_capture_image,
    captures_fit, fit_fits, fit_screenshot_to_window, monitor_image, CapturedMonitor,
};
use screenclip::image_buffer::PixelImage;

fn monitor(origin: (i32, i32), w: u32, h: u32, color: [u8; 4]) -> CapturedMonitor {
    CapturedMonitor { origin, image: PixelImage::from_pixel(w, h, color) }
}

const RED: [u8; 4] = [255, 0, 0, 255];
const GREEN: [u8; 4] = [0, 255, 0, 255];
const BLACK: [u8; 4] = [0, 0, 0, 255];

#[test]
fn selection_across_two_monitors_takes_each_part_from_its_monitor() {
    let captures = [monitor((0, 0), 100, 50, RED), monitor((100, 0), 100, 50, GREEN)];
    let image = compose_selection_image(&captures, (90, 10, 20, 10)).unwrap();
    assert_eq!(image.dimensions(), (20, 10));
    for y in 0..10 {
        for x in 0..20 {
            assert_eq!(image.get_pixel(x, y), if x < 10 { RED } else { GREEN });
        }
    }
}

#[test]
fn uncovered_parts_are_opaque_black() {
    let captures = [monitor((0, 0), 10, 10, RED)];
    let image = compose_selection_image(&captures, (5, 5, 10, 10)).unwrap();
    assert_eq!(image.get_pixel(4, 4), RED);
    assert_eq!(image.get_pixel(5, 4), BLACK);
    assert_eq!(image.get_pixel(4, 5), BLACK);
    let empty = compose_selection_image(&[], (0, 0, 3, 2)).unwrap();
    assert_eq!(empty.get_pixel(2, 1), BLACK);
}

#[test]
fn later_captures_are_drawn_over_earlier_ones() {
    let captures = [monitor((0, 0), 10, 10, RED), monitor((5, 0), 10, 10, GREEN)];
    let image = compose_selection_image(&captures, (0, 0, 15, 10)).unwrap();
    assert_eq!(image.get_pixel(4, 0), RED);
    assert_eq!(image.get_pixel(5, 0), GREEN);
    assert_eq!(image.get_pixel(9, 9), GREEN);
}

#[test]
fn selection_pixels_come_from_matching_capture_pixels() {
    let mut img = PixelImage::from_pixel(4, 4, BLACK);
    for y in 0..4 {
        for x in 0..4 {
            img.put_pixel(x, y, [x as u8, y as u8, 7, 255]);
        }
    }
    let captures = [CapturedMonitor { origin: (-2, 3), image: img }];
    let image = compose_selection_image(&captures, (-1, 4, 2, 2)).unwrap();
    assert_eq!(image.get_pixel(0, 0), [1, 1, 7, 255]);
    assert_eq!(image.get_pixel(1, 1), [2, 2, 7, 255]);
}

#[test]
fn empty_selection_is_refused() {
    let captures = [monitor((0, 0), 10, 10, RED)];
    for rect in [(0, 0, 0, 5), (0, 0, 5, 0), (0, 0, -1, 5)] {
        assert_eq!(
            compose_selection_image(&captures, rect).err(),
            Some("selection size must be positive".to_string())
        );
    }
}

#[test]
fn fallback_capture_is_grey_and_never_empty() {
    let img = fallback_capture_image(0, 3);
    assert_eq!(img.dimensions(), (1, 3));
    assert_eq!(img.get_pixel(0, 2), [70, 70, 70, 255]);
    let img = fallback_capture_image(4, 2);
    assert_eq!(img.dimensions(), (4, 2));
}

#[test]
fn current_selection_is_the_dragged_rectangle() {
    assert_eq!(current_selection_rect(Some((5, 5)), Some((1, 9))), Some((1, 5, 5, 5)));
    assert_eq!(current_selection_rect(None, Some((1, 9))), None);
}

fn pattern(w: u32, h: u32) -> PixelImage {
    let mut img = PixelImage::from_pixel(w, h, BLACK);
    for y in 0..h {
        for x in 0..w {
            img.put_pixel(x, y, [x as u8, y as u8, (x + y) as u8, 255]);
        }
    }
    img
}

fn same_pixels(a: &PixelImage, b: &PixelImage) -> bool {
    let (w, h) = a.dimensions();
    if b.dimensions() != (w, h) {
        return false;
    }
    (0..h).all(|y| (0..w).all(|x| a.get_pixel(x, y) == b.get_pixel(x, y)))
}

#[test]
fn copies_keep_every_pixel() {
    let img = pattern(5, 3);
    let copy = copy_image(&img);
    assert!(same_pixels(&img, &copy));
}

#[test]
fn window_capture_is_refitted_only_when_the_size_changes() {
    let source = pattern(8, 6);
    // already the right size: kept as it is
    let current = PixelImage::from_pixel(4, 3, RED);
    let kept = fit_screenshot_to_window(&source, current, 4, 3);
    assert_eq!(kept.get_pixel(2, 2), RED);
    // the source fits: a copy of the source
    let back = fit_screenshot_to_window(&source, PixelImage::from_pixel(4, 3, RED), 8, 6);
    assert!(same_pixels(&back, &source));
    // otherwise the source is scaled to the window
    let scaled = fit_screenshot_to_window(&source, PixelImage::from_pixel(8, 6, RED), 16, 12);
    assert_eq!(scaled.dimensions(), (16, 12));
    let flat = fit_screenshot_to_window(
        &PixelImage::from_pixel(8, 6, GREEN),
        PixelImage::from_pixel(1, 1, RED),
        3,
        2,
    );
    assert_eq!(flat.dimensions(), (3, 2));
    assert_eq!(flat.get_pixel(1, 1), GREEN);
}

#[test]
fn from_raw_needs_four_bytes_per_pixel() {
    assert!(PixelImage::from_raw(2, 2, vec![0; 15]).is_none());
    let img = PixelImage::from_raw(2, 2, (0..16).collect()).unwrap();
    assert_eq!(img.dimensions(), (2, 2));
    assert_eq!(img.get_pixel(1, 1), [12, 13, 14, 15]);
    assert!(PixelImage::from_raw(1 << 31, 0, Vec::new()).is_some() == (usize::BITS == 64));
}

#[test]
fn fit_fits_only_when_resampling_can_be_done() {
    let source = PixelImage::from_pixel(8, 6, RED);
    let current = PixelImage::from_pixel(4, 3, RED);
    assert!(fit_fits(&source, &current, 4, 3));
    assert!(fit_fits(&source, &current, 8, 6));
    assert!(fit_fits(&source, &current, 16, 12));
    assert!(!fit_fits(&source, &current, 0, 12));
    let empty = PixelImage::from_pixel(0, 6, RED);
    assert!(!fit_fits(&empty, &current, 16, 12));
}

#[test]
fn captures_fit_only_when_far_edges_fit() {
    assert!(captures_fit(&[monitor((0, 0), 4, 3, RED), monitor((4, 0), 4, 3, GREEN)]));
    assert!(captures_fit(&[]));
    assert!(!captures_fit(&[monitor((0, 0), 4, 3, RED), monitor((i32::MAX - 2, 0), 4, 3, GREEN)]));
}

#[test]
fn monitor_image_uses_the_capture_when_its_bytes_hold_it() {
    let bytes: Vec<u8> = (0..24).collect();
    let img = monitor_image(Some((3, 2, bytes)), (3, 2));
    assert_eq!(img.dimensions(), (3, 2));
    assert_eq!(img.get_pixel(2, 1), [20, 21, 22, 23]);
}

#[test]
fn monitor_image_falls_back_to_grey() {
    let short = monitor_image(Some((3, 2, vec![0; 23])), (5, 4));
    assert_eq!(short.dimensions(), (5, 4));
    assert_eq!(short.get_pixel(4, 3), [70, 70, 70, 255]);
    let missing = monitor_image(None, (0, 2));
    assert_eq!(missing.dimensions(), (1, 2));
    assert_eq!(missing.get_pixel(0, 1), [70, 70, 70, 255]);
}
