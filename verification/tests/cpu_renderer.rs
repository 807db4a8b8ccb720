use screenclip::cpu_renderer::{
    background_args_fit, blit_texture, dim_rgb, draw_overlay_background_into, selection_overlay_pixel, CpuRenderer,
    TextureData, TextureKey, TextureStore,
};
use screenclip::desktop_geometry::DesktopRect;
use screenclip::image_buffer::PixelImage;
use screenclip::selection_geometry::{all_edge_handles, ResizeEdge};

fn pack(r: u8, g: u8, b: u8) -> u32 {
    ((r as u32) << 16) | ((g as u32) << 8) | b as u32
}

/// The dimming worked out in `f32`: 35% of the channel plus 65% of the dim
/// grey, rounded.
fn dim_float(c: u8) -> u8 {
    let v = c as f32 * 0.35 + 46.0_f32 * 0.65;
    v.round() as u8
}

#[test]
fn dim_rgb_matches_the_float_formula_on_every_channel_value() {
    for c in 0..=255u8 {
        assert_eq!(dim_rgb(c, 0, 0) >> 16, dim_float(c) as u32);
        assert_eq!(dim_rgb(0, c, 0) >> 8 & 0xFF, dim_float(c) as u32);
        assert_eq!(dim_rgb(0, 0, c) & 0xFF, dim_float(c) as u32);
    }
}

#[test]
fn dim_rgb_exact_values() {
    assert_eq!(dim_rgb(0, 0, 0), pack(30, 30, 30));
    assert_eq!(dim_rgb(255, 255, 255), pack(119, 119, 119));
    assert_eq!(dim_rgb(100, 16, 36), pack(65, 36, 43));
}

#[test]
fn selection_overlay_pixel_paints_handles_border_and_inside() {
    let frame = Some((10, 20, 109, 99)); // selection (10, 20, 100, 80)
    // inside, away from the border: the undimmed colour
    assert_eq!(selection_overlay_pixel(1, 2, 3, 50, 50, frame, None), Some(pack(1, 2, 3)));
    // the two outermost rings are the border colour
    assert_eq!(selection_overlay_pixel(1, 2, 3, 10, 50, frame, None), Some(pack(26, 179, 255)));
    assert_eq!(selection_overlay_pixel(1, 2, 3, 11, 50, frame, None), Some(pack(26, 179, 255)));
    assert_eq!(selection_overlay_pixel(1, 2, 3, 12, 50, frame, None), Some(pack(1, 2, 3)));
    assert_eq!(selection_overlay_pixel(1, 2, 3, 50, 99, frame, None), Some(pack(26, 179, 255)));
    // outside: nothing
    assert_eq!(selection_overlay_pixel(1, 2, 3, 9, 50, frame, None), None);
    assert_eq!(selection_overlay_pixel(1, 2, 3, 50, 100, frame, None), None);
    assert_eq!(selection_overlay_pixel(1, 2, 3, 50, 50, None, None), None);
    // a handle wins over everything, even outside the selection
    let handles = all_edge_handles((10, 20, 100, 80));
    assert_eq!(
        selection_overlay_pixel(1, 2, 3, 60, 16, frame, Some(&handles)),
        Some(pack(240, 247, 255))
    );
    assert_eq!(selection_overlay_pixel(1, 2, 3, 60, 15, frame, Some(&handles)), None);
}

#[test]
fn handle_rects_are_tested_in_global_pixels() {
    let handles = [
        (ResizeEdge::Top, DesktopRect { x: 0, y: 0, width: 2, height: 2 }),
        (ResizeEdge::Bottom, DesktopRect { x: 10, y: 10, width: 1, height: 1 }),
        (ResizeEdge::Left, DesktopRect { x: 20, y: 20, width: 0, height: 5 }),
        (ResizeEdge::Right, DesktopRect { x: 30, y: 30, width: 1, height: 1 }),
    ];
    assert!(selection_overlay_pixel(0, 0, 0, 1, 1, None, Some(&handles)).is_some());
    assert!(selection_overlay_pixel(0, 0, 0, 30, 30, None, Some(&handles)).is_some());
    assert!(selection_overlay_pixel(0, 0, 0, 20, 20, None, Some(&handles)).is_none());
    assert!(selection_overlay_pixel(0, 0, 0, 2, 2, None, Some(&handles)).is_none());
}

fn gradient(w: u32, h: u32) -> PixelImage {
    let mut img = PixelImage::from_pixel(w, h, [0, 0, 0, 255]);
    for y in 0..h {
        for x in 0..w {
            img.put_pixel(x, y, [(x * 10) as u8, (y * 10) as u8, 200, 255]);
        }
    }
    img
}

#[test]
fn background_without_selection_is_dimmed_capture() {
    let shot = gradient(8, 6);
    let mut frame = vec![0u32; 8 * 6];
    draw_overlay_background_into(&mut frame, 8, 6, &shot, (100, 100), None);
    for y in 0..6u32 {
        for x in 0..8u32 {
            let p = shot.get_pixel(x, y);
            assert_eq!(frame[(y * 8 + x) as usize], dim_rgb(p[0], p[1], p[2]));
        }
    }
}

#[test]
fn background_clamps_sampling_to_a_smaller_capture() {
    let shot = gradient(4, 3);
    let mut frame = vec![0u32; 6 * 5];
    draw_overlay_background_into(&mut frame, 6, 5, &shot, (0, 0), None);
    let last = shot.get_pixel(3, 2);
    assert_eq!(frame[4 * 6 + 5], dim_rgb(last[0], last[1], last[2]));
    let edge = shot.get_pixel(3, 0);
    assert_eq!(frame[5], dim_rgb(edge[0], edge[1], edge[2]));
}

#[test]
fn background_with_selection_matches_per_pixel_rule() {
    let shot = gradient(60, 50);
    let selection = (1010, 2005, 30, 20);
    let handles = all_edge_handles(selection);
    let frame_rect = Some((1010, 2005, 1039, 2024));
    for (w, h) in [(60u32, 50u32), (64, 52)] {
        let mut frame = vec![0u32; (w * h) as usize];
        draw_overlay_background_into(&mut frame, w, h, &shot, (1000, 2000), Some(selection));
        for y in 0..h {
            for x in 0..w {
                let p = shot.get_pixel(x.min(59), y.min(49));
                let expected = selection_overlay_pixel(
                    p[0],
                    p[1],
                    p[2],
                    1000 + x as i32,
                    2000 + y as i32,
                    frame_rect,
                    Some(&handles),
                )
                .unwrap_or(dim_rgb(p[0], p[1], p[2]));
                assert_eq!(frame[(y * w + x) as usize], expected);
            }
        }
        // a pixel well inside the selection shows the capture undimmed
        let p = shot.get_pixel(25, 20);
        assert_eq!(frame[(20 * w + 25) as usize], pack(p[0], p[1], p[2]));
    }
}

#[test]
fn renderer_caches_background_until_arguments_change() {
    let shot = gradient(8, 6);
    let mut renderer = CpuRenderer::new(8, 6);
    assert!(renderer.frame().iter().all(|&p| p == 0));
    renderer.draw_overlay_background(&shot, (0, 0), None);
    let first = renderer.frame().to_vec();
    renderer.frame_mut()[0] = 0xABCDEF;
    renderer.draw_overlay_background(&shot, (0, 0), None);
    assert_eq!(renderer.frame(), &first[..]);
    // a different capture of the same size reuses the cached background
    let other = PixelImage::from_pixel(8, 6, [255, 255, 255, 255]);
    renderer.draw_overlay_background(&other, (0, 0), None);
    assert_eq!(renderer.frame(), &first[..]);
    // moving the selection redraws it
    renderer.draw_overlay_background(&other, (0, 0), Some((1, 1, 5, 4)));
    assert_eq!(renderer.frame()[0], dim_rgb(255, 255, 255));
}

#[test]
fn renderer_sizes_are_at_least_one_pixel() {
    let mut renderer = CpuRenderer::new(0, 0);
    assert_eq!(renderer.frame().len(), 1);
    renderer.resize(3, 2);
    assert_eq!(renderer.frame().len(), 6);
    renderer.frame_mut()[1] = 7;
    renderer.resize(2, 1);
    assert_eq!(renderer.frame(), &[0, 7][..]);
    renderer.resize(2, 0);
    assert_eq!(renderer.frame(), &[0, 7][..]);
}

fn texture(width: usize, height: usize, value: u8) -> TextureData {
    TextureData { width, height, pixels: vec![[value, value, value, value]; width * height] }
}

#[test]
fn blit_copies_and_clips() {
    let mut dst = texture(4, 3, 0);
    let mut src = texture(3, 2, 9);
    src.pixels[0] = [1, 2, 3, 4];
    blit_texture(&mut dst, &src, 2, 2);
    assert_eq!(dst.pixels[2 * 4 + 2], [1, 2, 3, 4]);
    assert_eq!(dst.pixels[2 * 4 + 3], [9, 9, 9, 9]);
    assert_eq!(dst.pixels[1 * 4 + 2], [0, 0, 0, 0]);
    assert_eq!(dst.pixels.iter().filter(|p| **p != [0, 0, 0, 0]).count(), 2);
    blit_texture(&mut dst, &src, 10, 0);
    assert_eq!(dst.pixels.iter().filter(|p| **p != [0, 0, 0, 0]).count(), 2);
}

#[test]
fn texture_updates_replace_or_patch() {
    let mut store = TextureStore::new();
    store.set_texture(TextureKey::Managed(1), None, texture(2, 2, 5));
    store.set_texture(TextureKey::Managed(1), Some((1, 1)), texture(1, 1, 7));
    let t = store.get(TextureKey::Managed(1)).unwrap();
    assert_eq!(t.pixels, vec![[5; 4], [5; 4], [5; 4], [7; 4]]);
    // a positioned update for an unknown texture stores it as given
    store.set_texture(TextureKey::User(1), Some((1, 1)), texture(1, 1, 3));
    assert_eq!(store.get(TextureKey::User(1)).unwrap().width, 1);
    assert!(store.get(TextureKey::Managed(2)).is_none());
    store.remove(TextureKey::Managed(1));
    assert!(store.get(TextureKey::Managed(1)).is_none());
    assert!(store.get(TextureKey::User(1)).is_some());
}

#[test]
fn texture_delta_applies_updates_in_order_then_frees() {
    let mut renderer = CpuRenderer::new(2, 2);
    renderer.apply_textures_delta(
        vec![
            (TextureKey::Managed(0), None, texture(2, 1, 1)),
            (TextureKey::Managed(0), Some((1, 0)), texture(1, 1, 2)),
            (TextureKey::User(5), None, texture(1, 1, 3)),
        ],
        &[TextureKey::User(5)],
    );
    let t = renderer.textures().get(TextureKey::Managed(0)).unwrap();
    assert_eq!(t.pixels, vec![[1; 4], [2; 4]]);
    assert!(renderer.textures().get(TextureKey::User(5)).is_none());
}

#[test]
fn renderer_size_is_at_least_one_pixel() {
    assert_eq!(CpuRenderer::new(0, 5).size(), (1, 5));
    let mut r = CpuRenderer::new(4, 3);
    assert_eq!(r.size(), (4, 3));
    r.resize(7, 0);
    assert_eq!(r.size(), (7, 1));
}

#[test]
fn background_args_fit_checks_window_and_selection() {
    assert!(background_args_fit((100, 80), (100, 80), (0, 0), Some((10, 10, 20, 20))));
    assert!(!background_args_fit((0, 80), (100, 80), (0, 0), None));
    assert!(!background_args_fit((100, 80), (100, 80), (i32::MAX - 50, 0), None));
    assert!(!background_args_fit((100, 80), (100, 80), (0, 0), Some((i32::MAX - 5, 10, 20, 20))));
}
