use screenclip::annotations::text::{
    annotation_line_count, annotation_measure_text, annotation_visual_rect, blend_selection_pixel,
    border_hit_test, cursor_hit_test, draw_text_annotation_border, draw_text_caret,
    draw_text_selection, font_for_char, plan_text_preview, selected_line_spans, sorted_selection_range,
    take_pending_focus, preview_plan_args_fit, text_is_blank, text_shown_in_export, hit_test_fits,
    text_annotation_box_rect, text_position_in_lines, SelectedSpan,
    text_caret_visible_at, text_line_segments, text_prefix_by_chars, TextAnnotation,
    TextAnnotationCursorHit, TextPixelBounds, TextPreviewPlan,
};
use screenclip::desktop_geometry::DesktopRect;

fn annotation(id: u64, pos: (i32, i32), text: &str) -> TextAnnotation {
    let mut a = TextAnnotation::new(id, pos);
    a.text = text.to_string();
    a
}

const BOUNDS: TextPixelBounds = TextPixelBounds { offset_x: 0, offset_y: 2, width: 40, height: 20 };

#[test]
fn new_annotation_is_empty_with_caret_at_start() {
    let a = TextAnnotation::new(4, (10, 20));
    assert_eq!(a.id, 4);
    assert_eq!(a.global_pos, (10, 20));
    assert!(a.text.is_empty());
    assert_eq!(a.caret_char_index, 0);
    assert_eq!(a.selection_anchor_char_index, 0);
}

#[test]
fn rects_around_measured_text() {
    let a = annotation(0, (100, 200), "hi");
    assert_eq!(
        annotation_visual_rect(&a, BOUNDS),
        DesktopRect { x: 100, y: 202, width: 40, height: 20 }
    );
    assert_eq!(
        text_annotation_box_rect(&a, BOUNDS),
        DesktopRect { x: 96, y: 196, width: 48, height: 28 }
    );
    let negative = TextPixelBounds { offset_x: -1, offset_y: -2, width: -5, height: 3 };
    assert_eq!(
        annotation_visual_rect(&a, negative),
        DesktopRect { x: 99, y: 198, width: 0, height: 3 }
    );
}

#[test]
fn hit_test_distinguishes_border_and_text() {
    let anns = [annotation(1, (100, 200), "a"), annotation(2, (300, 200), "b")];
    let bounds = [BOUNDS, BOUNDS];
    // focus box of annotation 1 is [96, 144) x [196, 224), border 3 px
    assert_eq!(
        cursor_hit_test(&anns, &bounds, true, Some(1), (97, 210)),
        Some(TextAnnotationCursorHit::Border)
    );
    assert_eq!(
        cursor_hit_test(&anns, &bounds, true, Some(1), (120, 210)),
        Some(TextAnnotationCursorHit::Text)
    );
    assert_eq!(
        cursor_hit_test(&anns, &bounds, true, Some(1), (143, 223)),
        Some(TextAnnotationCursorHit::Border)
    );
    // the other annotation is hit on its text only
    assert_eq!(
        cursor_hit_test(&anns, &bounds, true, Some(1), (310, 210)),
        Some(TextAnnotationCursorHit::Text)
    );
    assert_eq!(cursor_hit_test(&anns, &bounds, true, Some(1), (299, 210)), None);
    // without focus every annotation is hit on its text
    assert_eq!(
        cursor_hit_test(&anns, &bounds, true, None, (97, 210)),
        None
    );
    assert_eq!(
        cursor_hit_test(&anns, &bounds, true, None, (101, 210)),
        Some(TextAnnotationCursorHit::Text)
    );
    // without a font nothing is hit
    assert_eq!(cursor_hit_test(&anns, &bounds, false, Some(1), (97, 210)), None);
}

#[test]
fn border_hit_test_only_reports_the_border() {
    let anns = [annotation(1, (100, 200), "a")];
    let bounds = [BOUNDS];
    assert!(border_hit_test(&anns, &bounds, true, 1, (96, 196)));
    assert!(!border_hit_test(&anns, &bounds, true, 1, (110, 210)));
    assert!(!border_hit_test(&anns, &bounds, true, 2, (96, 196)));
    assert!(!border_hit_test(&anns, &bounds, false, 1, (96, 196)));
}

#[test]
fn line_count_counts_breaks() {
    assert_eq!(annotation_line_count(&annotation(0, (0, 0), "")), 1);
    assert_eq!(annotation_line_count(&annotation(0, (0, 0), "one")), 1);
    assert_eq!(annotation_line_count(&annotation(0, (0, 0), "a\nb\n")), 3);
    assert_eq!(annotation_line_count(&annotation(0, (0, 0), "ä\n\nö")), 3);
}

#[test]
fn selection_range_is_clamped_and_sorted() {
    let mut a = annotation(0, (0, 0), "héllo");
    a.caret_char_index = 4;
    a.selection_anchor_char_index = 1;
    assert_eq!(sorted_selection_range(&a), (1, 4));
    a.caret_char_index = 99;
    assert_eq!(sorted_selection_range(&a), (1, 5));
    a.selection_anchor_char_index = 7;
    assert_eq!(sorted_selection_range(&a), (5, 5));
}

#[test]
fn line_segments_split_at_breaks() {
    let segs = text_line_segments("ab\ncdé\n\nf");
    let got: Vec<(usize, usize, usize, &str)> =
        segs.iter().map(|s| (s.start_char, s.end_char, s.line_index, s.text)).collect();
    assert_eq!(
        got,
        vec![(0, 2, 0, "ab"), (3, 6, 1, "cdé"), (7, 7, 2, ""), (8, 9, 3, "f")]
    );
    let single = text_line_segments("");
    assert_eq!(single.len(), 1);
    assert_eq!((single[0].start_char, single[0].end_char, single[0].text), (0, 0, ""));
    // one segment per line
    let text = "x\ny\nz";
    assert_eq!(text_line_segments(text).len(), annotation_line_count(&annotation(0, (0, 0), text)));
}

#[test]
fn prefix_by_chars_counts_characters() {
    assert_eq!(text_prefix_by_chars("héllo", 0), "");
    assert_eq!(text_prefix_by_chars("héllo", 2), "hé");
    assert_eq!(text_prefix_by_chars("héllo", 5), "héllo");
    assert_eq!(text_prefix_by_chars("héllo", 50), "héllo");
}

#[test]
fn measured_text_uses_placeholder_when_empty() {
    assert_eq!(annotation_measure_text(&annotation(0, (0, 0), "")), "Type text...");
    assert_eq!(annotation_measure_text(&annotation(0, (0, 0), "x")), "x");
}

#[test]
fn caret_blinks_each_half_second() {
    assert!(text_caret_visible_at(None));
    assert!(text_caret_visible_at(Some(0)));
    assert!(text_caret_visible_at(Some(499)));
    assert!(!text_caret_visible_at(Some(500)));
    assert!(!text_caret_visible_at(Some(999)));
    assert!(text_caret_visible_at(Some(1_000)));
    assert_eq!(text_caret_visible_at(Some(123_456)), text_caret_visible_at(Some(124_456)));
}

/// The highlight blend worked out in `f32`: 55% of the highlight colour over
/// 45% of the frame pixel, rounded.
fn blend_float(dst: u32) -> u32 {
    let alpha = 0.55_f32;
    let ch = |s: f32, d: u32| (s * alpha + d as f32 * (1.0 - alpha)).round() as u32;
    (ch(40.0, (dst >> 16) & 0xFF) << 16) | (ch(120.0, (dst >> 8) & 0xFF) << 8) | ch(255.0, dst & 0xFF)
}

#[test]
fn selection_blend_matches_the_float_formula() {
    for d in 0..=255u32 {
        for dst in [d << 16, d << 8, d, d * 0x010101] {
            assert_eq!(blend_selection_pixel(dst), blend_float(dst));
        }
    }
    assert_eq!(blend_selection_pixel(0), 0x16428C);
    assert_eq!(blend_selection_pixel(0xFFFFFF), 0x89B5FF);
}

#[test]
fn focus_border_is_three_pixels_inside_the_window() {
    let mut frame = vec![0u32; 20 * 20];
    let window = DesktopRect { x: 100, y: 100, width: 20, height: 20 };
    let border = DesktopRect { x: 95, y: 102, width: 15, height: 10 };
    draw_text_annotation_border(&mut frame, (20, 20), (100, 100), window, border);
    let at = |x: usize, y: usize| frame[y * 20 + x];
    // global (100..110) x (102..112): left part of the box is outside the window
    assert_eq!(at(0, 2), 0x28A8FF); // top border row
    assert_eq!(at(0, 5), 0); // inside the box: the box's left border is outside the window
    assert_eq!(at(7, 5), 0x28A8FF); // right border: 110 - 107 <= 3
    assert_eq!(at(6, 5), 0);
    assert_eq!(at(3, 11), 0x28A8FF); // bottom border row
    assert_eq!(at(3, 12), 0); // below the box
    assert_eq!(at(10, 2), 0); // right of the box
}

#[test]
fn caret_is_a_white_column_cut_at_the_window_bottom() {
    let mut frame = vec![0u32; 10 * 10];
    let window = DesktopRect { x: 0, y: 0, width: 10, height: 10 };
    draw_text_caret(&mut frame, (10, 10), (0, 0), window, 4, 6, 28);
    for y in 0..10 {
        assert_eq!(frame[y * 10 + 4], if y >= 6 { 0xFFFFFF } else { 0 });
    }
    assert_eq!(frame.iter().filter(|&&p| p != 0).count(), 4);
    // a caret whose top is outside the window is not drawn
    let mut other = vec![0u32; 10 * 10];
    draw_text_caret(&mut other, (10, 10), (0, 0), window, 4, -1, 28);
    assert!(other.iter().all(|&p| p == 0));
    draw_text_caret(&mut other, (10, 10), (0, 0), window, 4, 2, 0);
    assert!(other.iter().all(|&p| p == 0));
}

#[test]
fn selection_highlight_blends_the_selected_block() {
    let mut frame = vec![0u32; 10 * 10];
    let window = DesktopRect { x: 0, y: 0, width: 10, height: 10 };
    draw_text_selection(&mut frame, (10, 10), (0, 0), window, 7, 3, 2, 3);
    for y in 0..10usize {
        for x in 0..10usize {
            let selected = (3..7).contains(&x) && (2..5).contains(&y);
            assert_eq!(frame[y * 10 + x], if selected { 0x16428C } else { 0 });
        }
    }
    let mut none = vec![0u32; 10 * 10];
    draw_text_selection(&mut none, (10, 10), (0, 0), window, 5, 5, 2, 3);
    draw_text_selection(&mut none, (10, 10), (0, 0), window, 1, 5, 2, 0);
    assert!(none.iter().all(|&p| p == 0));
}

#[test]
fn caret_position_is_line_and_column() {
    assert_eq!(text_position_in_lines("ab\ncdé\nf", 0), (0, 0));
    assert_eq!(text_position_in_lines("ab\ncdé\nf", 2), (0, 2));
    assert_eq!(text_position_in_lines("ab\ncdé\nf", 3), (1, 0));
    assert_eq!(text_position_in_lines("ab\ncdé\nf", 6), (1, 3));
    assert_eq!(text_position_in_lines("ab\ncdé\nf", 7), (2, 0));
    assert_eq!(text_position_in_lines("ab\ncdé\nf", 99), (2, 1));
    assert_eq!(text_position_in_lines("", 3), (0, 0));
}

#[test]
fn selection_spans_cover_each_selected_line_part() {
    let segs = text_line_segments("ab\ncdé\n\nf");
    let spans = selected_line_spans(&segs, 1, 9);
    assert_eq!(
        spans,
        vec![
            SelectedSpan { line_index: 0, start_local: 1, end_local: 2 },
            SelectedSpan { line_index: 1, start_local: 0, end_local: 3 },
            SelectedSpan { line_index: 3, start_local: 0, end_local: 1 },
        ]
    );
    assert!(selected_line_spans(&segs, 4, 4).is_empty());
    assert_eq!(
        selected_line_spans(&segs, 4, 5),
        vec![SelectedSpan { line_index: 1, start_local: 1, end_local: 2 }]
    );
}

#[test]
fn font_choice_follows_the_fallback_stack() {
    assert_eq!(font_for_char('a', &[]), None);
    assert_eq!(font_for_char('a', &[false, true, true]), Some(1));
    assert_eq!(font_for_char('a', &[false, false]), Some(0));
    // control characters other than tab always take the first font
    assert_eq!(font_for_char('\u{7}', &[false, true]), Some(0));
    assert_eq!(font_for_char('\t', &[false, true]), Some(1));
}

#[test]
fn preview_plan_shows_focus_decorations_only_when_focused() {
    let window = DesktopRect { x: 0, y: 0, width: 1920, height: 1080 };
    let mut a = annotation(5, (100, 200), "héllo");
    a.caret_char_index = 1;
    a.selection_anchor_char_index = 4;
    let focused = plan_text_preview(&a, BOUNDS, window, Some(5), true).unwrap();
    assert_eq!(
        focused,
        TextPreviewPlan {
            placeholder: false,
            draw_border: true,
            border_rect: DesktopRect { x: 96, y: 196, width: 48, height: 28 },
            selection: Some((1, 4)),
            draw_caret: true,
        }
    );
    let other = plan_text_preview(&a, BOUNDS, window, Some(6), true).unwrap();
    assert!(!other.draw_border && other.selection.is_none() && !other.draw_caret);
    let blink_off = plan_text_preview(&a, BOUNDS, window, Some(5), false).unwrap();
    assert!(!blink_off.draw_caret);
}

#[test]
fn preview_plan_skips_hidden_annotations() {
    let window = DesktopRect { x: 0, y: 0, width: 100, height: 100 };
    let empty = annotation(1, (10, 10), "");
    assert!(plan_text_preview(&empty, BOUNDS, window, None, true).is_none());
    let shown = plan_text_preview(&empty, BOUNDS, window, Some(1), true).unwrap();
    assert!(shown.placeholder && shown.draw_border && shown.selection.is_none());
    let far = annotation(2, (500, 500), "x");
    assert!(plan_text_preview(&far, BOUNDS, window, Some(2), true).is_none());
    // the focus box alone reaching into the window is enough
    let edge = annotation(3, (102, 50), "x");
    assert!(plan_text_preview(&edge, BOUNDS, window, None, true).is_some());
}

#[test]
fn pending_focus_is_taken_once_by_its_annotation() {
    let mut pending = Some(4);
    assert!(!take_pending_focus(&mut pending, 3));
    assert_eq!(pending, Some(4));
    assert!(take_pending_focus(&mut pending, 4));
    assert_eq!(pending, None);
    assert!(!take_pending_focus(&mut pending, 4));
}

#[test]
fn editor_cursor_is_clamped_to_the_text() {
    let mut a = annotation(0, (0, 0), "héllo");
    a.set_cursor_range(2, 40);
    assert_eq!((a.caret_char_index, a.selection_anchor_char_index), (2, 5));
    a.set_cursor_range(9, 0);
    assert_eq!((a.caret_char_index, a.selection_anchor_char_index), (5, 0));
    assert_eq!(a.text, "héllo");
}

#[test]
fn font_for_char_treats_c1_controls_as_control() {
    assert_eq!(font_for_char('\u{85}', &[false, true]), Some(0));
    assert_eq!(font_for_char('\u{9f}', &[false, true]), Some(0));
    assert_eq!(font_for_char('\u{7f}', &[false, true]), Some(0));
    assert_eq!(font_for_char('\u{a0}', &[false, true]), Some(1));
    assert_eq!(font_for_char(' ', &[false, true]), Some(1));
}

#[test]
fn blank_text_is_all_whitespace() {
    assert!(text_is_blank(""));
    assert!(text_is_blank(" \t\n\u{3000}"));
    assert!(!text_is_blank("  a "));
}

#[test]
fn export_shows_non_blank_text_over_the_selection() {
    let bounds = TextPixelBounds { offset_x: 0, offset_y: -5, width: 40, height: 20 };
    let inside = annotation(1, (110, 110), "hello");
    let blank = annotation(2, (110, 110), "   ");
    let outside = annotation(3, (500, 500), "far");
    let rect = (100, 100, 200, 100);
    assert!(text_shown_in_export(&inside, bounds, rect));
    assert!(!text_shown_in_export(&blank, bounds, rect));
    assert!(!text_shown_in_export(&outside, bounds, rect));
    // The text's rectangle only touches the selection's right edge.
    let touching = annotation(4, (300, 110), "edge");
    assert!(!text_shown_in_export(&touching, bounds, rect));
}

#[test]
fn hit_test_fits_only_when_rectangles_fit() {
    let bounds = [TextPixelBounds { offset_x: 0, offset_y: 0, width: 40, height: 20 }];
    let near = [annotation(1, (10, 10), "a")];
    let far = [annotation(1, (i32::MAX - 10, 10), "a")];
    assert!(hit_test_fits(&near, &bounds, Some(1)));
    assert!(!hit_test_fits(&far, &bounds, None));
    assert!(!hit_test_fits(&far, &bounds, Some(1)));
    assert!(!hit_test_fits(&near, &[], None));
}

#[test]
fn preview_plan_args_fit_checks_text_box_and_window() {
    let bounds = TextPixelBounds { offset_x: 0, offset_y: -5, width: 40, height: 20 };
    let window = DesktopRect { x: 0, y: 0, width: 100, height: 80 };
    assert!(preview_plan_args_fit(&annotation(1, (10, 10), "a"), bounds, window));
    assert!(!preview_plan_args_fit(&annotation(1, (i32::MIN, 10), "a"), bounds, window));
    assert!(!preview_plan_args_fit(&annotation(1, (i32::MAX - 20, 10), "a"), bounds, window));
    let edge = DesktopRect { x: i32::MAX - 10, y: 0, width: 100, height: 80 };
    assert!(!preview_plan_args_fit(&annotation(1, (10, 10), "a"), bounds, edge));
}

#[test]
fn blank_text_uses_the_white_space_set() {
    for c in ['\u{9}', '\u{d}', ' ', '\u{85}', '\u{a0}', '\u{1680}', '\u{2000}', '\u{200a}', '\u{2028}', '\u{2029}', '\u{202f}', '\u{205f}', '\u{3000}'] {
        assert!(text_is_blank(&c.to_string()), "{:?}", c);
        assert!(c.is_whitespace());
    }
    for c in ['\u{8}', '\u{e}', '\u{200b}', '\u{180e}', '\u{feff}', 'x'] {
        assert!(!text_is_blank(&c.to_string()), "{:?}", c);
        assert!(!c.is_whitespace());
    }
}

#[test]
fn whitespace_and_control_sets_match_std_on_every_char() {
    for c in (0u32..=0x10FFFF).filter_map(char::from_u32) {
        let mut buf = [0u8; 4];
        assert_eq!(text_is_blank(c.encode_utf8(&mut buf)), c.is_whitespace(), "{:?}", c);
        let first_font = font_for_char(c, &[false, true]) == Some(0);
        assert_eq!(first_font, c.is_control() && c != '\t', "{:?}", c);
    }
}
