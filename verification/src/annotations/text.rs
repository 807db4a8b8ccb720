use vstd::prelude::*;

use crate::desktop_geometry::DesktopRect;
use crate::frame::{
    fill_with, frame_fits, frame_painted, in_frame, lemma_pixel_index_bounds,
    lemma_pixel_index_injective, pack_rgb, pixel_index, set_frame_pixel, get_frame_pixel,
    spec_pack_rgb, spec_unpack, unpack_rgb,
};
use crate::selection_geometry::{fits_i32, in_i32, spec_max, spec_min};

verus! {

/// The abstract content of a text annotation.
pub struct TextAnnotationView {
    pub id: u64,
    pub global_pos: (i32, i32),
    pub text: Seq<char>,
    pub caret: usize,
    pub anchor: usize,
}

/// A text box placed on the capture. `global_pos` is the top-left corner
/// of the first line in global desktop pixels.
#[derive(Debug)]
pub struct TextAnnotation {
    pub id: u64,
    pub global_pos: (i32, i32),
    pub text: String,
    pub caret_char_index: usize,
    pub selection_anchor_char_index: usize,
}

impl View for TextAnnotation {
    type V = TextAnnotationView;

    open spec fn view(&self) -> TextAnnotationView {
        TextAnnotationView {
            id: self.id,
            global_pos: self.global_pos,
            text: self.text@,
            caret: self.caret_char_index,
            anchor: self.selection_anchor_char_index,
        }
    }
}

impl Clone for TextAnnotation {
    fn clone(&self) -> (r: Self)
        ensures
            r@ == self@,
    {
        TextAnnotation {
            id: self.id,
            global_pos: self.global_pos,
            text: self.text.clone(),
            caret_char_index: self.caret_char_index,
            selection_anchor_char_index: self.selection_anchor_char_index,
        }
    }
}

/// A freshly placed, empty text annotation with the caret at its start.
pub open spec fn fresh_text_annotation(id: u64, global_pos: (i32, i32)) -> TextAnnotationView {
    TextAnnotationView { id, global_pos, text: Seq::empty(), caret: 0, anchor: 0 }
}

impl TextAnnotation {
    pub fn new(id: u64, global_pos: (i32, i32)) -> (r: Self)
        ensures
            r@ == fresh_text_annotation(id, global_pos),
    {
        TextAnnotation {
            id,
            global_pos,
            text: String::new(),
            caret_char_index: 0,
            selection_anchor_char_index: 0,
        }
    }
}

/// A text annotation being moved by its border; the pointer keeps the
/// offset `pointer_offset` from the annotation's position.
#[derive(Debug, Clone, Copy, PartialEq, Eq)]
pub struct TextAnnotationDrag {
    pub id: u64,
    pub pointer_offset: (i32, i32),
}

#[derive(Debug, Clone, Copy, PartialEq, Eq, Structural)]
pub enum TextAnnotationCursorHit {
    Border,
    Text,
}

// ---------------------------------------------------------------------------
// Looking annotations up by id
// ---------------------------------------------------------------------------

pub open spec fn has_id(s: Seq<TextAnnotationView>, id: u64) -> bool {
    exists|i: int| 0 <= i < s.len() && s[i].id == id
}

pub open spec fn is_first_with_id(s: Seq<TextAnnotationView>, id: u64, i: int) -> bool {
    &&& 0 <= i < s.len()
    &&& s[i].id == id
    &&& forall|j: int| 0 <= j < i ==> s[j].id != id
}

/// Index of the first annotation carrying `id` (meaningful when `has_id`).
pub open spec fn first_with_id(s: Seq<TextAnnotationView>, id: u64) -> int {
    choose|i: int| is_first_with_id(s, id, i)
}

pub proof fn lemma_first_with_id(s: Seq<TextAnnotationView>, id: u64, i: int)
    requires
        is_first_with_id(s, id, i),
    ensures
        has_id(s, id),
        first_with_id(s, id) == i,
{
    let k = first_with_id(s, id);
    assert(is_first_with_id(s, id, k));
    if k < i {
        assert(s[k].id != id);
    } else if i < k {
        assert(s[i].id != id);
    }
}

/// An id that occurs at all occurs a first time.
pub proof fn lemma_has_id_has_first(s: Seq<TextAnnotationView>, id: u64, k: int)
    requires
        0 <= k < s.len(),
        s[k].id == id,
    ensures
        is_first_with_id(s, id, first_with_id(s, id)),
    decreases k,
{
    if exists|j: int| 0 <= j < k && s[j].id == id {
        let j = choose|j: int| 0 <= j < k && s[j].id == id;
        lemma_has_id_has_first(s, id, j);
    } else {
        assert(is_first_with_id(s, id, k));
    }
}

pub open spec fn annotation_views(v: Seq<TextAnnotation>) -> Seq<TextAnnotationView> {
    v.map_values(|a: TextAnnotation| a@)
}

/// Position of the first annotation carrying `id`, if any.
pub fn find_text_annotation(annotations: &[TextAnnotation], id: u64) -> (r: Option<usize>)
    ensures
        match r {
            Some(i) => is_first_with_id(annotation_views(annotations@), id, i as int),
            None => !has_id(annotation_views(annotations@), id),
        },
{
    let ghost s = annotation_views(annotations@);
    let mut i: usize = 0;
    while i < annotations.len()
        invariant
            i <= annotations.len(),
            s == annotation_views(annotations@),
            forall|j: int| 0 <= j < i ==> s[j].id != id,
        decreases annotations.len() - i,
    {
        if annotations[i].id == id {
            return Some(i);
        }
        i += 1;
    }
    None
}


// ---------------------------------------------------------------------------
// Measured text and the rectangles around it
// ---------------------------------------------------------------------------

/// Padding between the measured text and its focus box.
pub const TEXT_BORDER_PADDING_PIXELS: i32 = 4;
/// Thickness of the focus box's border.
pub const TEXT_BORDER_THICKNESS_PIXELS: i32 = 3;
/// Length of one caret blink cycle, visible for its first half.
pub const TEXT_CARET_BLINK_PERIOD_MS: u128 = 1000;
/// Colour of the focus box, `0x00RRGGBB`.
pub const TEXT_BORDER_COLOR: u32 = 0x28A8FF;
/// Colour of the caret, `0x00RRGGBB`.
pub const TEXT_CARET_COLOR: u32 = 0xFFFFFF;

/// Pixel bounds of rendered text relative to the annotation position: the
/// ink may start left of or above the position (`offset_*` negative).
#[derive(Debug, Clone, Copy, PartialEq, Eq, Structural)]
pub struct TextPixelBounds {
    pub offset_x: i32,
    pub offset_y: i32,
    pub width: i32,
    pub height: i32,
}

/// The rectangle covered by the rendered text.
pub open spec fn spec_visual_rect(a: TextAnnotationView, b: TextPixelBounds) -> DesktopRect {
    DesktopRect {
        x: (a.global_pos.0 + b.offset_x) as i32,
        y: (a.global_pos.1 + b.offset_y) as i32,
        width: spec_max(b.width as int, 0) as i32,
        height: spec_max(b.height as int, 0) as i32,
    }
}

pub open spec fn visual_rect_in_range(a: TextAnnotationView, b: TextPixelBounds) -> bool {
    &&& in_i32(a.global_pos.0 + b.offset_x)
    &&& in_i32(a.global_pos.1 + b.offset_y)
}

pub fn annotation_visual_rect(annotation: &TextAnnotation, bounds: TextPixelBounds) -> (r: DesktopRect)
    requires
        visual_rect_in_range(annotation@, bounds),
    ensures
        r == spec_visual_rect(annotation@, bounds),
{
    DesktopRect::from_origin_size(
        (annotation.global_pos.0 + bounds.offset_x, annotation.global_pos.1 + bounds.offset_y),
        (bounds.width, bounds.height),
    )
}

/// The focus box: the text's extent from the annotation position, padded
/// on every side.
pub open spec fn spec_box_rect(a: TextAnnotationView, b: TextPixelBounds) -> DesktopRect {
    let pad = TEXT_BORDER_PADDING_PIXELS as int;
    DesktopRect {
        x: (a.global_pos.0 - pad) as i32,
        y: (a.global_pos.1 - pad) as i32,
        width: spec_max(b.width + 2 * pad, 0) as i32,
        height: spec_max(b.height + 2 * pad, 0) as i32,
    }
}

pub open spec fn box_rect_in_range(a: TextAnnotationView, b: TextPixelBounds) -> bool {
    let pad = TEXT_BORDER_PADDING_PIXELS as int;
    &&& in_i32(a.global_pos.0 - pad)
    &&& in_i32(a.global_pos.1 - pad)
    &&& in_i32(b.width + 2 * pad)
    &&& in_i32(b.height + 2 * pad)
}

pub fn text_annotation_box_rect(annotation: &TextAnnotation, bounds: TextPixelBounds) -> (r: DesktopRect)
    requires
        box_rect_in_range(annotation@, bounds),
    ensures
        r == spec_box_rect(annotation@, bounds),
{
    DesktopRect::from_origin_size(
        (
            annotation.global_pos.0 - TEXT_BORDER_PADDING_PIXELS,
            annotation.global_pos.1 - TEXT_BORDER_PADDING_PIXELS,
        ),
        (
            bounds.width + TEXT_BORDER_PADDING_PIXELS * 2,
            bounds.height + TEXT_BORDER_PADDING_PIXELS * 2,
        ),
    )
}

/// The focus box without its border.
pub open spec fn spec_inner_rect(outer: DesktopRect) -> DesktopRect {
    let t = TEXT_BORDER_THICKNESS_PIXELS as int;
    DesktopRect {
        x: (outer.x + t) as i32,
        y: (outer.y + t) as i32,
        width: spec_max(outer.width - 2 * t, 0) as i32,
        height: spec_max(outer.height - 2 * t, 0) as i32,
    }
}

/// Every rectangle a hit test may compute for `a` is representable.
pub open spec fn hit_rects_in_range(a: TextAnnotationView, b: TextPixelBounds, focused: bool) -> bool {
    if focused {
        let outer = spec_box_rect(a, b);
        let t = TEXT_BORDER_THICKNESS_PIXELS as int;
        &&& box_rect_in_range(a, b)
        &&& outer.edges_in_range()
        &&& in_i32(outer.x + t)
        &&& in_i32(outer.y + t)
        &&& spec_inner_rect(outer).edges_in_range()
    } else {
        &&& visual_rect_in_range(a, b)
        &&& spec_visual_rect(a, b).edges_in_range()
    }
}

/// Whether every rectangle a hit test may compute for `annotation`, whose
/// text measures `bounds`, fits in `i32`.
pub fn hit_rects_fit(annotation: &TextAnnotation, bounds: TextPixelBounds, focused: bool) -> (r: bool)
    ensures
        r == hit_rects_in_range(annotation@, bounds, focused),
{
    let (gx, gy) = (annotation.global_pos.0 as i64, annotation.global_pos.1 as i64);
    if focused {
        let pad = TEXT_BORDER_PADDING_PIXELS as i64;
        let t = TEXT_BORDER_THICKNESS_PIXELS as i64;
        let (ox, oy) = (gx - pad, gy - pad);
        let (w, h) = (bounds.width as i64 + 2 * pad, bounds.height as i64 + 2 * pad);
        if !(fits_i32(ox) && fits_i32(oy) && fits_i32(w) && fits_i32(h)) {
            return false;
        }
        let ow = if w >= 0 { w } else { 0 };
        let oh = if h >= 0 { h } else { 0 };
        let iw = if ow - 2 * t >= 0 { ow - 2 * t } else { 0 };
        let ih = if oh - 2 * t >= 0 { oh - 2 * t } else { 0 };
        fits_i32(ox + ow) && fits_i32(oy + oh) && fits_i32(ox + t) && fits_i32(oy + t) && fits_i32(
            ox + t + iw,
        ) && fits_i32(oy + t + ih)
    } else {
        let (vx, vy) = (gx + bounds.offset_x as i64, gy + bounds.offset_y as i64);
        let vw = if bounds.width >= 0 { bounds.width as i64 } else { 0 };
        let vh = if bounds.height >= 0 { bounds.height as i64 } else { 0 };
        fits_i32(vx) && fits_i32(vy) && fits_i32(vx + vw) && fits_i32(vy + vh)
    }
}

/// Whether a hit test over `annotations`, whose texts measure `bounds`, can
/// be computed in `i32`.
pub fn hit_test_fits(annotations: &[TextAnnotation], bounds: &[TextPixelBounds], focused_id: Option<u64>) -> (r: bool)
    ensures
        r == hit_test_in_range(annotation_views(annotations@), bounds@, focused_id),
{
    let ghost anns = annotation_views(annotations@);
    if bounds.len() != annotations.len() {
        return false;
    }
    let mut i: usize = 0;
    while i < annotations.len()
        invariant
            i <= annotations.len(),
            bounds@.len() == annotations@.len(),
            anns == annotation_views(annotations@),
            forall|j: int|
                0 <= j < i ==> hit_rects_in_range(
                    #[trigger] anns[j],
                    bounds@[j],
                    focused_id == Some(anns[j].id),
                ),
        decreases annotations.len() - i,
    {
        let focused = match focused_id {
            Some(id) => id == annotations[i].id,
            None => false,
        };
        assert(anns[i as int] == annotations@[i as int]@);
        if !hit_rects_fit(&annotations[i], bounds[i], focused) {
            return false;
        }
        i += 1;
    }
    true
}

pub open spec fn hit_test_in_range(
    anns: Seq<TextAnnotationView>,
    bounds: Seq<TextPixelBounds>,
    focused_id: Option<u64>,
) -> bool {
    &&& bounds.len() == anns.len()
    &&& forall|i: int|
        0 <= i < anns.len() ==> hit_rects_in_range(
            #[trigger] anns[i],
            bounds[i],
            focused_id == Some(anns[i].id),
        )
}

/// The focused annotation (the first carrying `focused_id`) has its focus
/// box under the pointer.
pub open spec fn focused_box_hit(
    anns: Seq<TextAnnotationView>,
    bounds: Seq<TextPixelBounds>,
    focused_id: Option<u64>,
    p: (int, int),
) -> bool {
    match focused_id {
        Some(id) => has_id(anns, id) && spec_box_rect(
            anns[first_with_id(anns, id)],
            bounds[first_with_id(anns, id)],
        ).has_point(p),
        None => false,
    }
}

/// Some unfocused annotation has its text under the pointer.
pub open spec fn other_text_hit(
    anns: Seq<TextAnnotationView>,
    bounds: Seq<TextPixelBounds>,
    focused_id: Option<u64>,
    p: (int, int),
) -> bool {
    exists|i: int|
        0 <= i < anns.len() && focused_id != Some(anns[i].id) && #[trigger] spec_visual_rect(
            anns[i],
            bounds[i],
        ).has_point(p)
}

/// What the pointer is over: on the focused annotation's focus box, its
/// border or its inside; otherwise the text of another annotation, or
/// nothing. Without a usable font nothing is hit.
pub open spec fn spec_cursor_hit_test(
    anns: Seq<TextAnnotationView>,
    bounds: Seq<TextPixelBounds>,
    fonts_available: bool,
    focused_id: Option<u64>,
    point: (i32, i32),
) -> Option<TextAnnotationCursorHit> {
    let p = (point.0 as int, point.1 as int);
    if !fonts_available {
        None
    } else if focused_box_hit(anns, bounds, focused_id, p) {
        let i = first_with_id(anns, focused_id->0);
        if spec_inner_rect(spec_box_rect(anns[i], bounds[i])).has_point(p) {
            Some(TextAnnotationCursorHit::Text)
        } else {
            Some(TextAnnotationCursorHit::Border)
        }
    } else if other_text_hit(anns, bounds, focused_id, p) {
        Some(TextAnnotationCursorHit::Text)
    } else {
        None
    }
}

fn is_focused(focused_id: Option<u64>, id: u64) -> (r: bool)
    ensures
        r == (focused_id == Some(id)),
{
    match focused_id {
        Some(f) => f == id,
        None => false,
    }
}

/// Hit-tests the pointer against the text annotations, whose measured
/// bounds (of their text, or of the placeholder when empty) are `bounds`.
pub fn cursor_hit_test(
    annotations: &[TextAnnotation],
    bounds: &[TextPixelBounds],
    fonts_available: bool,
    focused_id: Option<u64>,
    point: (i32, i32),
) -> (r: Option<TextAnnotationCursorHit>)
    requires
        hit_test_in_range(annotation_views(annotations@), bounds@, focused_id),
    ensures
        r == spec_cursor_hit_test(
            annotation_views(annotations@),
            bounds@,
            fonts_available,
            focused_id,
            point,
        ),
{
    let ghost anns = annotation_views(annotations@);
    let ghost p = (point.0 as int, point.1 as int);
    if !fonts_available {
        return None;
    }
    if let Some(id) = focused_id {
        match find_text_annotation(annotations, id) {
            Some(i) => {
                proof {
                    lemma_first_with_id(anns, id, i as int);
                    assert(hit_rects_in_range(anns[i as int], bounds@[i as int], true));
                }
                let outer = text_annotation_box_rect(&annotations[i], bounds[i]);
                if outer.contains_point(point) {
                    let inner = DesktopRect::from_origin_size(
                        (
                            outer.x + TEXT_BORDER_THICKNESS_PIXELS,
                            outer.y + TEXT_BORDER_THICKNESS_PIXELS,
                        ),
                        (
                            outer.width - TEXT_BORDER_THICKNESS_PIXELS * 2,
                            outer.height - TEXT_BORDER_THICKNESS_PIXELS * 2,
                        ),
                    );
                    return if inner.contains_point(point) {
                        Some(TextAnnotationCursorHit::Text)
                    } else {
                        Some(TextAnnotationCursorHit::Border)
                    };
                }
            },
            None => {},
        }
    }
    let mut i: usize = 0;
    while i < annotations.len()
        invariant
            i <= annotations@.len(),
            anns == annotation_views(annotations@),
            p == (point.0 as int, point.1 as int),
            fonts_available,
            !focused_box_hit(anns, bounds@, focused_id, p),
            hit_test_in_range(anns, bounds@, focused_id),
            forall|j: int|
                0 <= j < i && focused_id != Some(anns[j].id) ==> !#[trigger] spec_visual_rect(
                    anns[j],
                    bounds@[j],
                ).has_point(p),
        decreases annotations.len() - i,
    {
        if !is_focused(focused_id, annotations[i].id) {
            proof {
                assert(hit_rects_in_range(anns[i as int], bounds@[i as int], false));
            }
            let rect = annotation_visual_rect(&annotations[i], bounds[i]);
            if rect.contains_point(point) {
                assert(other_text_hit(anns, bounds@, focused_id, p));
                return Some(TextAnnotationCursorHit::Text);
            }
        }
        i += 1;
    }
    None
}

/// The pointer is on the border of the focus box of the annotation `focused_id`.
pub fn border_hit_test(
    annotations: &[TextAnnotation],
    bounds: &[TextPixelBounds],
    fonts_available: bool,
    focused_id: u64,
    point: (i32, i32),
) -> (r: bool)
    requires
        hit_test_in_range(annotation_views(annotations@), bounds@, Some(focused_id)),
    ensures
        r == (spec_cursor_hit_test(
            annotation_views(annotations@),
            bounds@,
            fonts_available,
            Some(focused_id),
            point,
        ) == Some(TextAnnotationCursorHit::Border)),
{
    match cursor_hit_test(annotations, bounds, fonts_available, Some(focused_id), point) {
        Some(TextAnnotationCursorHit::Border) => true,
        _ => false,
    }
}


// ---------------------------------------------------------------------------
// Lines, selection and caret
// ---------------------------------------------------------------------------

/// Number of line breaks in `s`.
pub open spec fn count_newlines(s: Seq<char>) -> nat
    decreases s.len(),
{
    if s.len() == 0 {
        0
    } else {
        count_newlines(s.drop_last()) + if s.last() == '\n' {
            1nat
        } else {
            0nat
        }
    }
}

proof fn lemma_count_newlines_bound(s: Seq<char>)
    ensures
        count_newlines(s) <= s.len(),
    decreases s.len(),
{
    if s.len() > 0 {
        lemma_count_newlines_bound(s.drop_last());
    }
}

/// Number of lines of the annotation's text: one more than its line breaks.
pub fn annotation_line_count(annotation: &TextAnnotation) -> (r: usize)
    requires
        annotation@.text.len() < usize::MAX,
    ensures
        r == count_newlines(annotation@.text) + 1,
{
    let text = annotation.text.as_str();
    let ghost s = text@;
    let n = text.unicode_len();
    let mut count: usize = 0;
    let mut i: usize = 0;
    while i < n
        invariant
            i <= n,
            n == s.len(),
            s == annotation@.text,
            s == text@,
            s.len() < usize::MAX,
            count == count_newlines(s.subrange(0, i as int)),
        decreases n - i,
    {
        proof {
            assert(s.subrange(0, i as int + 1).drop_last() =~= s.subrange(0, i as int));
            assert(s.subrange(0, i as int + 1).last() == s[i as int]);
            lemma_count_newlines_bound(s.subrange(0, i as int));
        }
        if text.get_char(i) == '\n' {
            count += 1;
        }
        i += 1;
    }
    proof {
        assert(s.subrange(0, n as int) =~= s);
        lemma_count_newlines_bound(s);
    }
    count + 1
}

/// The selection as `(start, end)` in characters: caret and anchor clamped
/// to the text and put in order.
pub open spec fn spec_sorted_selection_range(a: TextAnnotationView) -> (usize, usize) {
    let n = a.text.len();
    let caret = spec_min(a.caret as int, n as int);
    let anchor = spec_min(a.anchor as int, n as int);
    (spec_min(caret, anchor) as usize, spec_max(caret, anchor) as usize)
}

pub fn sorted_selection_range(annotation: &TextAnnotation) -> (r: (usize, usize))
    ensures
        r == spec_sorted_selection_range(annotation@),
{
    let char_count = annotation.text.as_str().unicode_len();
    let caret = if annotation.caret_char_index <= char_count {
        annotation.caret_char_index
    } else {
        char_count
    };
    let anchor = if annotation.selection_anchor_char_index <= char_count {
        annotation.selection_anchor_char_index
    } else {
        char_count
    };
    if caret <= anchor {
        (caret, anchor)
    } else {
        (anchor, caret)
    }
}

/// One line of a text: characters `[start_char, end_char)`, which are
/// `text`, on line `line_index`.
#[derive(Debug, Clone, Copy)]
pub struct TextLineSegment<'a> {
    pub start_char: usize,
    pub end_char: usize,
    pub line_index: usize,
    pub text: &'a str,
}

/// `segs` splits `s` at its line breaks: consecutive lines, each ending
/// right before a line break (the last one at the end of `s`), none
/// containing a line break.
pub open spec fn splits_into_lines(s: Seq<char>, segs: Seq<TextLineSegment>) -> bool {
    &&& segs.len() >= 1
    &&& segs[0].start_char == 0
    &&& segs.last().end_char == s.len()
    &&& forall|k: int|
        0 <= k < segs.len() ==> {
            &&& (#[trigger] segs[k]).line_index == k
            &&& segs[k].start_char <= segs[k].end_char <= s.len()
            &&& segs[k].text@ == s.subrange(segs[k].start_char as int, segs[k].end_char as int)
            &&& forall|j: int| segs[k].start_char <= j < segs[k].end_char ==> s[j] != '\n'
        }
    &&& forall|k: int|
        0 <= k < segs.len() - 1 ==> {
            &&& s[(#[trigger] segs[k]).end_char as int] == '\n'
            &&& segs[k + 1].start_char == segs[k].end_char + 1
        }
}

/// The lines of `text`, split at its line breaks.
pub fn text_line_segments<'a>(text: &'a str) -> (r: Vec<TextLineSegment<'a>>)
    ensures
        splits_into_lines(text@, r@),
{
    let ghost s = text@;
    let n = text.unicode_len();
    let mut segments: Vec<TextLineSegment<'a>> = Vec::new();
    let mut start_char: usize = 0;
    let mut char_index: usize = 0;
    while char_index < n
        invariant
            char_index <= n,
            n == s.len(),
            s == text@,
            start_char <= char_index,
            forall|j: int| start_char <= j < char_index ==> s[j] != '\n',
            segments@.len() <= start_char,
            segments@.len() == 0 ==> start_char == 0,
            segments@.len() > 0 ==> segments@.last().end_char + 1 == start_char
                && s[segments@.last().end_char as int] == '\n',
            forall|k: int|
                0 <= k < segments@.len() ==> {
                    &&& (#[trigger] segments@[k]).line_index == k
                    &&& segments@[k].start_char <= segments@[k].end_char < s.len()
                    &&& segments@[k].text@ == s.subrange(
                        segments@[k].start_char as int,
                        segments@[k].end_char as int,
                    )
                    &&& forall|j: int|
                        segments@[k].start_char <= j < segments@[k].end_char ==> s[j] != '\n'
                },
            segments@.len() > 0 ==> segments@[0].start_char == 0,
            forall|k: int|
                0 <= k < segments@.len() - 1 ==> {
                    &&& s[(#[trigger] segments@[k]).end_char as int] == '\n'
                    &&& segments@[k + 1].start_char == segments@[k].end_char + 1
                },
        decreases n - char_index,
    {
        if text.get_char(char_index) == '\n' {
            let line_index = segments.len();
            let segment = TextLineSegment {
                start_char,
                end_char: char_index,
                line_index,
                text: text.substring_char(start_char, char_index),
            };
            segments.push(segment);
            char_index += 1;
            start_char = char_index;
        } else {
            char_index += 1;
        }
    }
    let line_index = segments.len();
    segments.push(
        TextLineSegment {
            start_char,
            end_char: char_index,
            line_index,
            text: text.substring_char(start_char, char_index),
        },
    );
    segments
}

/// The first `char_index` characters of `text` (all of it when shorter).
pub fn text_prefix_by_chars(text: &str, char_index: usize) -> (r: &str)
    ensures
        r@ == text@.subrange(0, spec_min(char_index as int, text@.len() as int)),
{
    let n = text.unicode_len();
    let end = if char_index <= n { char_index } else { n };
    text.substring_char(0, end)
}

/// The caret is shown during the first half of every blink period counted
/// from the Unix epoch, and always when the clock is before the epoch.
pub open spec fn spec_caret_visible(elapsed_millis: Option<u128>) -> bool {
    match elapsed_millis {
        Some(ms) => ms % TEXT_CARET_BLINK_PERIOD_MS < TEXT_CARET_BLINK_PERIOD_MS / 2,
        None => true,
    }
}

pub fn text_caret_visible_at(elapsed_millis: Option<u128>) -> (r: bool)
    ensures
        r == spec_caret_visible(elapsed_millis),
{
    match elapsed_millis {
        Some(ms) => ms % TEXT_CARET_BLINK_PERIOD_MS < TEXT_CARET_BLINK_PERIOD_MS / 2,
        None => true,
    }
}


/// What is measured for an annotation: its text, or the placeholder shown
/// while it is empty.
pub fn annotation_measure_text(annotation: &TextAnnotation) -> (r: &str)
    ensures
        r@ == if annotation@.text.len() == 0 {
            "Type text..."@
        } else {
            annotation@.text
        },
{
    let text = annotation.text.as_str();
    if text.unicode_len() == 0 {
        "Type text..."
    } else {
        text
    }
}

// ---------------------------------------------------------------------------
// Drawing the focus box, caret and selection onto a window frame
// ---------------------------------------------------------------------------

/// The global pixel `(gx, gy)` is on the border of the focus box `b` and
/// inside the window `w`.
pub open spec fn on_text_border_at(w: DesktopRect, b: DesktopRect, gx: int, gy: int) -> bool {
    let t = TEXT_BORDER_THICKNESS_PIXELS as int;
    &&& b.has_point((gx, gy))
    &&& w.has_point((gx, gy))
    &&& (gx - b.x < t || b.spec_right() - gx <= t || gy - b.y < t || b.spec_bottom() - gy <= t)
}

pub open spec fn text_border_region(
    origin: (i32, i32),
    window_rect: DesktopRect,
    border_rect: DesktopRect,
) -> spec_fn(int, int) -> bool {
    |lx: int, ly: int| on_text_border_at(window_rect, border_rect, lx + origin.0, ly + origin.1)
}

/// `(gx, gy)` comes before `(cx, cy)` in row-major order.
pub open spec fn visited_before(cx: int, cy: int, gx: int, gy: int) -> bool {
    gy < cy || (gy == cy && gx < cx)
}

/// Paints the border of the focus box `border_rect` where it lies inside
/// the window `window_rect`, whose top-left pixel is `window_origin`.
pub fn draw_text_annotation_border(
    frame: &mut [u32],
    frame_size: (u32, u32),
    window_origin: (i32, i32),
    window_rect: DesktopRect,
    border_rect: DesktopRect,
)
    requires
        frame_fits(old(frame)@.len(), frame_size),
        window_rect.edges_in_range(),
        border_rect.edges_in_range(),
    ensures
        frame_painted(
            old(frame)@,
            final(frame)@,
            frame_size,
            text_border_region(window_origin, window_rect, border_rect),
            fill_with(TEXT_BORDER_COLOR),
        ),
{
    let ghost start = frame@;
    let ghost size = frame_size;
    let (ox, oy) = (window_origin.0 as i64, window_origin.1 as i64);
    let b_right = border_rect.right() as i64;
    let b_bottom = border_rect.bottom() as i64;
    let bx = border_rect.x as i64;
    let by = border_rect.y as i64;
    let left = if bx >= window_rect.x as i64 { bx } else { window_rect.x as i64 };
    let right = if b_right <= window_rect.right() as i64 { b_right } else { window_rect.right() as i64 };
    let top = if by >= window_rect.y as i64 { by } else { window_rect.y as i64 };
    let bottom = if b_bottom <= window_rect.bottom() as i64 { b_bottom } else { window_rect.bottom() as i64 };
    let t = TEXT_BORDER_THICKNESS_PIXELS as i64;
    let mut gy = if top < bottom { top } else { bottom };
    while gy < bottom
        invariant
            size == frame_size,
            frame_fits(frame@.len(), size),
            frame@.len() == start.len(),
            gy <= bottom,
            (ox, oy) == (window_origin.0 as i64, window_origin.1 as i64),
            bx == border_rect.x,
            by == border_rect.y,
            b_right == border_rect.spec_right(),
            b_bottom == border_rect.spec_bottom(),
            left == spec_max(bx as int, window_rect.x as int),
            right == spec_min(b_right as int, window_rect.spec_right()),
            top == spec_max(by as int, window_rect.y as int),
            bottom == spec_min(b_bottom as int, window_rect.spec_bottom()),
            top <= gy || gy == bottom,
            i32::MIN <= top <= i32::MAX,
            i32::MIN <= bottom <= i32::MAX,
            i32::MIN <= left <= i32::MAX,
            i32::MIN <= right <= i32::MAX,
            t == TEXT_BORDER_THICKNESS_PIXELS,
            window_rect.edges_in_range(),
            border_rect.edges_in_range(),
            forall|i: int| size.0 * size.1 <= i < start.len() ==> frame@[i] == start[i],
            forall|lx: int, ly: int|
                #![trigger pixel_index(size, lx, ly)]
                in_frame(size, lx, ly) ==> frame@[pixel_index(size, lx, ly)] == if on_text_border_at(
                    window_rect,
                    border_rect,
                    lx + ox,
                    ly + oy,
                ) && ly + oy < gy {
                    TEXT_BORDER_COLOR
                } else {
                    start[pixel_index(size, lx, ly)]
                },
        decreases bottom - gy,
    {
        let mut gx = if left < right { left } else { right };
        while gx < right
            invariant
                size == frame_size,
                frame_fits(frame@.len(), size),
                frame@.len() == start.len(),
                gx <= right,
                top <= gy < bottom,
                (ox, oy) == (window_origin.0 as i64, window_origin.1 as i64),
                bx == border_rect.x,
            by == border_rect.y,
            b_right == border_rect.spec_right(),
            b_bottom == border_rect.spec_bottom(),
                left == spec_max(bx as int, window_rect.x as int),
                right == spec_min(b_right as int, window_rect.spec_right()),
                top == spec_max(by as int, window_rect.y as int),
                bottom == spec_min(b_bottom as int, window_rect.spec_bottom()),
                left <= gx || gx == right,
                i32::MIN <= left <= i32::MAX,
                i32::MIN <= right <= i32::MAX,
                t == TEXT_BORDER_THICKNESS_PIXELS,
                window_rect.edges_in_range(),
                border_rect.edges_in_range(),
                forall|i: int| size.0 * size.1 <= i < start.len() ==> frame@[i] == start[i],
                forall|lx: int, ly: int|
                    #![trigger pixel_index(size, lx, ly)]
                    in_frame(size, lx, ly) ==> frame@[pixel_index(size, lx, ly)]
                        == if on_text_border_at(window_rect, border_rect, lx + ox, ly + oy)
                        && visited_before(gx as int, gy as int, lx + ox, ly + oy) {
                        TEXT_BORDER_COLOR
                    } else {
                        start[pixel_index(size, lx, ly)]
                    },
            decreases right - gx,
        {
            let on_border = gx - bx < t || b_right - gx <= t || gy - by < t || b_bottom - gy <= t;
            let local_x = gx - ox;
            let local_y = gy - oy;
            let paint = on_border && 0 <= local_x && local_x < frame_size.0 as i64 && 0 <= local_y
                && local_y < frame_size.1 as i64;
            if paint {
                set_frame_pixel(frame, frame_size, local_x as i32, local_y as i32, TEXT_BORDER_COLOR);
            }
            proof {
                assert forall|lx: int, ly: int|
                    #![trigger pixel_index(size, lx, ly)]
                    in_frame(size, lx, ly) implies frame@[pixel_index(size, lx, ly)]
                        == if on_text_border_at(window_rect, border_rect, lx + ox, ly + oy)
                        && visited_before(gx + 1, gy as int, lx + ox, ly + oy) {
                        TEXT_BORDER_COLOR
                    } else {
                        start[pixel_index(size, lx, ly)]
                    } by {
                    lemma_pixel_index_bounds(size, lx, ly);
                    if paint && pixel_index(size, lx, ly) == pixel_index(
                        size,
                        local_x as int,
                        local_y as int,
                    ) {
                        lemma_pixel_index_injective(size, lx, ly, local_x as int, local_y as int);
                    }
                }
            }
            gx += 1;
        }
        gy += 1;
    }
}

/// The caret: a one-pixel column at global `(caret_x, caret_y)`, `caret_height`
/// pixels tall, shown only when its top pixel is inside the window and cut
/// at the window's bottom.
pub open spec fn text_caret_region(
    origin: (i32, i32),
    window_rect: DesktopRect,
    caret_x: i32,
    caret_y: i32,
    caret_height: i32,
) -> spec_fn(int, int) -> bool {
    |lx: int, ly: int|
        {
            &&& caret_height > 0
            &&& window_rect.has_point((caret_x as int, caret_y as int))
            &&& lx == caret_x - origin.0
            &&& spec_max(caret_y - origin.1, 0) <= ly
            &&& ly < spec_max(
                spec_min(caret_y + caret_height, window_rect.spec_bottom()) - origin.1,
                0,
            )
        }
}

/// The caret covers the frame pixel `(lx, ly)` of a window at `origin`
/// exactly when the global pixel `(lx + origin.0, ly + origin.1)` lies on the
/// caret's column `caret_x`, from its top `caret_y` down, less than
/// `caret_height` pixels and above the window's bottom, with the caret's
/// top pixel inside the window (and the frame row not above the frame).
pub proof fn lemma_caret_covers_its_global_column(
    origin: (i32, i32),
    window_rect: DesktopRect,
    caret_x: i32,
    caret_y: i32,
    caret_height: i32,
    lx: int,
    ly: int,
)
    ensures
        text_caret_region(origin, window_rect, caret_x, caret_y, caret_height)(lx, ly) <==> {
            &&& caret_height > 0
            &&& window_rect.has_point((caret_x as int, caret_y as int))
            &&& lx + origin.0 == caret_x
            &&& 0 <= ly
            &&& caret_y <= ly + origin.1
            &&& ly + origin.1 < caret_y + caret_height
            &&& ly + origin.1 < window_rect.spec_bottom()
        },
{
}

/// A caret drawn in a window at `origin` covers the same global pixels as
/// the same caret drawn in a window at `(0, 0)` with the same desktop
/// rectangle, wherever both frames have the pixel (its rows not above
/// either frame).
pub proof fn lemma_caret_is_window_independent(
    origin: (i32, i32),
    window_rect: DesktopRect,
    caret_x: i32,
    caret_y: i32,
    caret_height: i32,
    gx: int,
    gy: int,
)
    requires
        0 <= gy,
        origin.1 <= gy,
    ensures
        text_caret_region(origin, window_rect, caret_x, caret_y, caret_height)(gx - origin.0, gy
            - origin.1) == text_caret_region((0, 0), window_rect, caret_x, caret_y, caret_height)(
            gx,
            gy,
        ),
{
    lemma_caret_covers_its_global_column(origin, window_rect, caret_x, caret_y, caret_height, gx - origin.0, gy - origin.1);
    lemma_caret_covers_its_global_column((0, 0), window_rect, caret_x, caret_y, caret_height, gx, gy);
}

/// Paints the caret in white.
pub fn draw_text_caret(
    frame: &mut [u32],
    frame_size: (u32, u32),
    window_origin: (i32, i32),
    window_rect: DesktopRect,
    caret_x: i32,
    caret_y: i32,
    caret_height: i32,
)
    requires
        frame_fits(old(frame)@.len(), frame_size),
        window_rect.edges_in_range(),
    ensures
        frame_painted(
            old(frame)@,
            final(frame)@,
            frame_size,
            text_caret_region(window_origin, window_rect, caret_x, caret_y, caret_height),
            fill_with(TEXT_CARET_COLOR),
        ),
{
    let ghost start = frame@;
    let ghost size = frame_size;
    if caret_height <= 0 || !window_rect.contains_point((caret_x, caret_y)) {
        return;
    }
    let local_x = caret_x as i64 - window_origin.0 as i64;
    let local_top = caret_y as i64 - window_origin.1 as i64;
    let lower = caret_y as i64 + caret_height as i64;
    let clipped = if lower <= window_rect.bottom() as i64 { lower } else { window_rect.bottom() as i64 };
    let local_bottom = clipped - window_origin.1 as i64;
    if local_x < 0 || local_x >= frame_size.0 as i64 {
        return;
    }
    let end = if local_bottom > 0 { local_bottom } else { 0 };
    let mut local_y = if local_top > 0 { local_top } else { 0 };
    if local_y > end {
        local_y = end;
    }
    let ghost y_first = local_y;
    while local_y < end && local_y < frame_size.1 as i64
        invariant
            size == frame_size,
            frame_fits(frame@.len(), size),
            frame@.len() == start.len(),
            0 <= local_x < size.0,
            local_y <= end,
            0 <= y_first <= local_y,
            y_first == spec_min(spec_max(local_top as int, 0), end as int),
            forall|i: int| size.0 * size.1 <= i < start.len() ==> frame@[i] == start[i],
            forall|lx: int, ly: int|
                #![trigger pixel_index(size, lx, ly)]
                in_frame(size, lx, ly) ==> frame@[pixel_index(size, lx, ly)] == if lx == local_x
                    && y_first <= ly < local_y {
                    TEXT_CARET_COLOR
                } else {
                    start[pixel_index(size, lx, ly)]
                },
        decreases end - local_y,
    {
        set_frame_pixel(frame, frame_size, local_x as i32, local_y as i32, TEXT_CARET_COLOR);
        proof {
            assert forall|lx: int, ly: int|
                #![trigger pixel_index(size, lx, ly)]
                in_frame(size, lx, ly) implies frame@[pixel_index(size, lx, ly)] == if lx == local_x
                    && y_first <= ly < local_y + 1 {
                    TEXT_CARET_COLOR
                } else {
                    start[pixel_index(size, lx, ly)]
                } by {
                lemma_pixel_index_bounds(size, lx, ly);
                if pixel_index(size, lx, ly) == pixel_index(size, local_x as int, local_y as int) {
                    lemma_pixel_index_injective(size, lx, ly, local_x as int, local_y as int);
                }
            }
        }
        local_y += 1;
    }
}

/// One channel of the selection highlight: 55% of `s` over 45% of `d`,
/// rounded to the nearest integer (halves up).
pub open spec fn blend_channel(s: u8, d: u8) -> u8 {
    ((55 * s + 45 * d + 50) / 100) as u8
}

/// A pixel under the selection highlight, blue `(40, 120, 255)` at 55%.
pub open spec fn spec_blend_selection_pixel(dst: u32) -> u32 {
    let (r, g, b) = spec_unpack(dst);
    spec_pack_rgb(blend_channel(40, r), blend_channel(120, g), blend_channel(255, b))
}

pub open spec fn selection_blend() -> spec_fn(u32) -> u32 {
    |p: u32| spec_blend_selection_pixel(p)
}

fn blend_channel_exec(s: u8, d: u8) -> (r: u8)
    ensures
        r == blend_channel(s, d),
{
    ((55 * s as u32 + 45 * d as u32 + 50) / 100) as u8
}

pub fn blend_selection_pixel(dst: u32) -> (r: u32)
    ensures
        r == spec_blend_selection_pixel(dst),
{
    let (dr, dg, db) = unpack_rgb(dst);
    pack_rgb(blend_channel_exec(40, dr), blend_channel_exec(120, dg), blend_channel_exec(255, db))
}

/// The highlighted block of a selection on one line: between the two
/// horizontal ends, from `selection_y` down `selection_height` pixels,
/// clipped to the window.
pub open spec fn in_text_selection_at(
    window_rect: DesktopRect,
    x0: i32,
    x1: i32,
    y: i32,
    height: i32,
    gx: int,
    gy: int,
) -> bool {
    &&& height > 0
    &&& x0 != x1
    &&& spec_max(spec_min(x0 as int, x1 as int), window_rect.x as int) <= gx
    &&& gx < spec_min(spec_max(x0 as int, x1 as int), window_rect.spec_right())
    &&& spec_max(y as int, window_rect.y as int) <= gy
    &&& gy < spec_min(y + height, window_rect.spec_bottom())
}

pub open spec fn text_selection_region(
    origin: (i32, i32),
    window_rect: DesktopRect,
    x0: i32,
    x1: i32,
    y: i32,
    height: i32,
) -> spec_fn(int, int) -> bool {
    |lx: int, ly: int| in_text_selection_at(window_rect, x0, x1, y, height, lx + origin.0, ly + origin.1)
}

/// Blends the selection highlight over one line's selected block.
pub fn draw_text_selection(
    frame: &mut [u32],
    frame_size: (u32, u32),
    window_origin: (i32, i32),
    window_rect: DesktopRect,
    selection_x0: i32,
    selection_x1: i32,
    selection_y: i32,
    selection_height: i32,
)
    requires
        frame_fits(old(frame)@.len(), frame_size),
        window_rect.edges_in_range(),
    ensures
        frame_painted(
            old(frame)@,
            final(frame)@,
            frame_size,
            text_selection_region(
                window_origin,
                window_rect,
                selection_x0,
                selection_x1,
                selection_y,
                selection_height,
            ),
            selection_blend(),
        ),
{
    let ghost start = frame@;
    let ghost size = frame_size;
    let ghost f = selection_blend();
    if selection_height <= 0 || selection_x0 == selection_x1 {
        return;
    }
    let (ox, oy) = (window_origin.0 as i64, window_origin.1 as i64);
    let lo = if selection_x0 <= selection_x1 { selection_x0 } else { selection_x1 } as i64;
    let hi = if selection_x0 <= selection_x1 { selection_x1 } else { selection_x0 } as i64;
    let left = if lo >= window_rect.x as i64 { lo } else { window_rect.x as i64 };
    let right = if hi <= window_rect.right() as i64 { hi } else { window_rect.right() as i64 };
    let top = if selection_y as i64 >= window_rect.y as i64 { selection_y as i64 } else { window_rect.y as i64 };
    let lower = selection_y as i64 + selection_height as i64;
    let bottom = if lower <= window_rect.bottom() as i64 { lower } else { window_rect.bottom() as i64 };
    let mut gy = if top < bottom { top } else { bottom };
    while gy < bottom
        invariant
            size == frame_size,
            f == selection_blend(),
            frame_fits(frame@.len(), size),
            frame@.len() == start.len(),
            gy <= bottom,
            top <= gy || gy == bottom,
            i32::MIN <= top <= i32::MAX,
            i32::MIN <= bottom <= i32::MAX,
            i32::MIN <= left <= i32::MAX,
            i32::MIN <= right <= i32::MAX,
            (ox, oy) == (window_origin.0 as i64, window_origin.1 as i64),
            selection_height > 0,
            selection_x0 != selection_x1,
            left == spec_max(spec_min(selection_x0 as int, selection_x1 as int), window_rect.x as int),
            right == spec_min(spec_max(selection_x0 as int, selection_x1 as int), window_rect.spec_right()),
            top == spec_max(selection_y as int, window_rect.y as int),
            bottom == spec_min(selection_y + selection_height, window_rect.spec_bottom()),
            forall|i: int| size.0 * size.1 <= i < start.len() ==> frame@[i] == start[i],
            forall|lx: int, ly: int|
                #![trigger pixel_index(size, lx, ly)]
                in_frame(size, lx, ly) ==> frame@[pixel_index(size, lx, ly)] == if in_text_selection_at(
                    window_rect,
                    selection_x0,
                    selection_x1,
                    selection_y,
                    selection_height,
                    lx + ox,
                    ly + oy,
                ) && ly + oy < gy {
                    f(start[pixel_index(size, lx, ly)])
                } else {
                    start[pixel_index(size, lx, ly)]
                },
        decreases bottom - gy,
    {
        let local_y = gy - oy;
        if 0 <= local_y && local_y < frame_size.1 as i64 {
            let mut gx = if left < right { left } else { right };
            while gx < right
                invariant
                    size == frame_size,
                    f == selection_blend(),
                    frame_fits(frame@.len(), size),
                    frame@.len() == start.len(),
                    gx <= right,
                    left <= gx || gx == right,
                i32::MIN <= left <= i32::MAX,
                i32::MIN <= right <= i32::MAX,
                    top <= gy < bottom,
                    local_y == gy - oy,
                    0 <= local_y < size.1,
                    (ox, oy) == (window_origin.0 as i64, window_origin.1 as i64),
                    selection_height > 0,
                    selection_x0 != selection_x1,
                    left == spec_max(spec_min(selection_x0 as int, selection_x1 as int), window_rect.x as int),
                    right == spec_min(spec_max(selection_x0 as int, selection_x1 as int), window_rect.spec_right()),
                    top == spec_max(selection_y as int, window_rect.y as int),
                    bottom == spec_min(selection_y + selection_height, window_rect.spec_bottom()),
                    forall|i: int| size.0 * size.1 <= i < start.len() ==> frame@[i] == start[i],
                    forall|lx: int, ly: int|
                        #![trigger pixel_index(size, lx, ly)]
                        in_frame(size, lx, ly) ==> frame@[pixel_index(size, lx, ly)]
                            == if in_text_selection_at(
                            window_rect,
                            selection_x0,
                            selection_x1,
                            selection_y,
                            selection_height,
                            lx + ox,
                            ly + oy,
                        ) && visited_before(gx as int, gy as int, lx + ox, ly + oy) {
                            f(start[pixel_index(size, lx, ly)])
                        } else {
                            start[pixel_index(size, lx, ly)]
                        },
                decreases right - gx,
            {
                let local_x = gx - ox;
                let paint = 0 <= local_x && local_x < frame_size.0 as i64;
                if paint {
                    let current = get_frame_pixel(frame, frame_size, local_x as i32, local_y as i32);
                    set_frame_pixel(
                        frame,
                        frame_size,
                        local_x as i32,
                        local_y as i32,
                        blend_selection_pixel(current),
                    );
                }
                proof {
                    assert forall|lx: int, ly: int|
                        #![trigger pixel_index(size, lx, ly)]
                        in_frame(size, lx, ly) implies frame@[pixel_index(size, lx, ly)]
                            == if in_text_selection_at(
                            window_rect,
                            selection_x0,
                            selection_x1,
                            selection_y,
                            selection_height,
                            lx + ox,
                            ly + oy,
                        ) && visited_before(gx + 1, gy as int, lx + ox, ly + oy) {
                            f(start[pixel_index(size, lx, ly)])
                        } else {
                            start[pixel_index(size, lx, ly)]
                        } by {
                        lemma_pixel_index_bounds(size, lx, ly);
                        if paint && pixel_index(size, lx, ly) == pixel_index(
                            size,
                            local_x as int,
                            local_y as int,
                        ) {
                            lemma_pixel_index_injective(size, lx, ly, local_x as int, local_y as int);
                        }
                    }
                }
                gx += 1;
            }
        }
        gy += 1;
    }
}

proof fn lemma_count_step(s: Seq<char>, i: int)
    requires
        0 <= i < s.len(),
    ensures
        count_newlines(s.take(i + 1)) == count_newlines(s.take(i)) + if s[i] == '\n' {
            1nat
        } else {
            0nat
        },
{
    assert(s.take(i + 1).drop_last() =~= s.take(i));
}

proof fn lemma_count_without_newlines(s: Seq<char>, a: int, b: int)
    requires
        0 <= a <= b <= s.len(),
        forall|j: int| a <= j < b ==> s[j] != '\n',
    ensures
        count_newlines(s.take(b)) == count_newlines(s.take(a)),
    decreases b - a,
{
    if b > a {
        lemma_count_step(s, b - 1);
        lemma_count_without_newlines(s, a, b - 1);
    }
}

proof fn lemma_newlines_before_segment_end(s: Seq<char>, segs: Seq<TextLineSegment>, k: int)
    requires
        splits_into_lines(s, segs),
        0 <= k < segs.len(),
    ensures
        count_newlines(s.take(segs[k].end_char as int)) == k,
    decreases k,
{
    let seg = segs[k];
    if k == 0 {
        lemma_count_without_newlines(s, 0, seg.end_char as int);
        assert(s.take(0) =~= Seq::<char>::empty());
    } else {
        let prev = segs[k - 1];
        lemma_newlines_before_segment_end(s, segs, k - 1);
        lemma_count_step(s, prev.end_char as int);
        lemma_count_without_newlines(s, seg.start_char as int, seg.end_char as int);
    }
}

/// A text has one line more than it has line breaks: its line segments
/// number its line count.
pub proof fn lemma_segments_match_line_count(s: Seq<char>, segs: Seq<TextLineSegment>)
    requires
        splits_into_lines(s, segs),
    ensures
        segs.len() == count_newlines(s) + 1,
{
    lemma_newlines_before_segment_end(s, segs, segs.len() - 1);
    assert(s.take(s.len() as int) =~= s);
}

/// The caret blinks with a period of one blink cycle.
pub proof fn lemma_caret_blink_is_periodic(ms: u128)
    requires
        ms + TEXT_CARET_BLINK_PERIOD_MS <= u128::MAX,
    ensures
        spec_caret_visible(Some(ms)) == spec_caret_visible(
            Some((ms + TEXT_CARET_BLINK_PERIOD_MS) as u128),
        ),
{
    assert((ms + 1000) % 1000 == ms % 1000) by (nonlinear_arith);
}


// ---------------------------------------------------------------------------
// Positions within the text
// ---------------------------------------------------------------------------

/// `(line, column)` of character position `c` of `s`: the line breaks
/// before it, and the characters since the last of them.
pub open spec fn spec_line_and_column(s: Seq<char>, c: int) -> (nat, nat)
    decreases c,
{
    if c <= 0 {
        (0, 0)
    } else {
        let prev = spec_line_and_column(s, c - 1);
        if s[c - 1] == '\n' {
            (prev.0 + 1, 0)
        } else {
            (prev.0, prev.1 + 1)
        }
    }
}

proof fn lemma_line_and_column_bounds(s: Seq<char>, c: int)
    requires
        0 <= c,
    ensures
        spec_line_and_column(s, c).0 + spec_line_and_column(s, c).1 <= c,
    decreases c,
{
    if c > 0 {
        lemma_line_and_column_bounds(s, c - 1);
    }
}

/// Line and column of the character position `char_index` of `text`,
/// clamped to the end of the text; the caret is drawn there.
pub fn text_position_in_lines(text: &str, char_index: usize) -> (r: (usize, usize))
    ensures
        r.0 == spec_line_and_column(text@, spec_min(char_index as int, text@.len() as int)).0,
        r.1 == spec_line_and_column(text@, spec_min(char_index as int, text@.len() as int)).1,
{
    let n = text.unicode_len();
    let end = if char_index <= n { char_index } else { n };
    let mut line: usize = 0;
    let mut column: usize = 0;
    let mut i: usize = 0;
    while i < end
        invariant
            i <= end,
            end <= n,
            n == text@.len(),
            line == spec_line_and_column(text@, i as int).0,
            column == spec_line_and_column(text@, i as int).1,
        decreases end - i,
    {
        proof {
            lemma_line_and_column_bounds(text@, i as int);
        }
        if text.get_char(i) == '\n' {
            line += 1;
            column = 0;
        } else {
            column += 1;
        }
        i += 1;
    }
    (line, column)
}

/// The part of one line that a selection covers, in characters of that line.
#[derive(Debug, Clone, Copy, PartialEq, Eq, Structural)]
pub struct SelectedSpan {
    pub line_index: usize,
    pub start_local: usize,
    pub end_local: usize,
}

/// The non-empty parts of the selection `[selection_start, selection_end)`
/// on the lines `segs`, in line order.
pub open spec fn spec_selected_spans(segs: Seq<TextLineSegment>, selection_start: usize, selection_end: usize) -> Seq<SelectedSpan>
    decreases segs.len(),
{
    if segs.len() == 0 {
        seq![]
    } else {
        let before = spec_selected_spans(segs.drop_last(), selection_start, selection_end);
        let seg = segs.last();
        let start = spec_max(selection_start as int, seg.start_char as int);
        let end = spec_min(selection_end as int, seg.end_char as int);
        if start >= end {
            before
        } else {
            before.push(
                SelectedSpan {
                    line_index: seg.line_index,
                    start_local: (start - seg.start_char) as usize,
                    end_local: (end - seg.start_char) as usize,
                },
            )
        }
    }
}

/// Where the selection is highlighted, line by line.
pub fn selected_line_spans(
    segments: &[TextLineSegment],
    selection_start: usize,
    selection_end: usize,
) -> (r: Vec<SelectedSpan>)
    ensures
        r@ == spec_selected_spans(segments@, selection_start, selection_end),
{
    let mut spans: Vec<SelectedSpan> = Vec::new();
    let mut k: usize = 0;
    while k < segments.len()
        invariant
            k <= segments@.len(),
            spans@ == spec_selected_spans(segments@.take(k as int), selection_start, selection_end),
        decreases segments@.len() - k,
    {
        proof {
            assert(segments@.take(k as int + 1).drop_last() =~= segments@.take(k as int));
        }
        let seg = segments[k];
        let start = if selection_start >= seg.start_char { selection_start } else { seg.start_char };
        let end = if selection_end <= seg.end_char { selection_end } else { seg.end_char };
        if start < end {
            spans.push(
                SelectedSpan {
                    line_index: seg.line_index,
                    start_local: start - seg.start_char,
                    end_local: end - seg.start_char,
                },
            );
        }
        k += 1;
    }
    proof {
        assert(segments@.take(segments@.len() as int) =~= segments@);
    }
    spans
}

// ---------------------------------------------------------------------------
// Choosing a font for a character
// ---------------------------------------------------------------------------

/// A Unicode control character (general category `Cc`), which is what
/// `char::is_control` answers: the code points U+0000 to U+001F and U+007F
/// to U+009F.
pub open spec fn is_control_char(c: char) -> bool {
    ||| (c as int) <= 0x1F
    ||| 0x7F <= (c as int) <= 0x9F
}

/// Whether `c` is a control character.
fn char_is_control(c: char) -> (r: bool)
    ensures
        r == is_control_char(c),
{
    let code = c as u32;
    code <= 0x1F || (0x7F <= code && code <= 0x9F)
}

/// The font drawing `ch`, given which fonts of the fallback stack have a
/// glyph for it: control characters other than tab use the first font;
/// others the first font having a glyph, else the first font.
pub open spec fn spec_font_for_char(ch: char, has_glyph: Seq<bool>) -> Option<usize> {
    if has_glyph.len() == 0 {
        None
    } else if is_control_char(ch) && ch != '\t' {
        Some(0)
    } else if exists|i: int| 0 <= i < has_glyph.len() && has_glyph[i] {
        Some(
            (choose|i: int|
                0 <= i < has_glyph.len() && has_glyph[i] && forall|j: int|
                    0 <= j < i ==> !#[trigger] has_glyph[j]) as usize,
        )
    } else {
        Some(0)
    }
}

pub fn font_for_char(ch: char, has_glyph: &[bool]) -> (r: Option<usize>)
    ensures
        r == spec_font_for_char(ch, has_glyph@),
{
    if has_glyph.len() == 0 {
        return None;
    }
    if char_is_control(ch) && ch != '\t' {
        return Some(0);
    }
    let mut i: usize = 0;
    while i < has_glyph.len()
        invariant
            i <= has_glyph@.len(),
            has_glyph@.len() > 0,
            !(is_control_char(ch) && ch != '\t'),
            forall|j: int| 0 <= j < i ==> !#[trigger] has_glyph@[j],
        decreases has_glyph@.len() - i,
    {
        if has_glyph[i] {
            proof {
                let w = choose|k: int|
                    0 <= k < has_glyph@.len() && has_glyph@[k] && forall|j: int|
                        0 <= j < k ==> !#[trigger] has_glyph@[j];
                assert(0 <= i < has_glyph@.len() && has_glyph@[i as int] && forall|j: int|
                    0 <= j < i ==> !#[trigger] has_glyph@[j]);
                if w < i {
                    assert(!has_glyph@[w]);
                } else if w > i {
                    assert(!has_glyph@[i as int]);
                }
            }
            return Some(i);
        }
        i += 1;
    }
    Some(0)
}


// ---------------------------------------------------------------------------
// What the preview of one annotation shows
// ---------------------------------------------------------------------------

/// What a window's preview draws for one text annotation, besides its text
/// (or the placeholder, in grey, while a focused annotation is empty): the
/// focus box around `border_rect`, the highlight of the selected characters
/// `selection`, and the caret.
#[derive(Debug, Clone, Copy, PartialEq, Eq)]
pub struct TextPreviewPlan {
    pub placeholder: bool,
    pub draw_border: bool,
    pub border_rect: DesktopRect,
    pub selection: Option<(usize, usize)>,
    pub draw_caret: bool,
}

/// The preview of an annotation whose shown text measures `bounds`: an
/// empty annotation shows only while focused; one whose text and focus box
/// both miss the window is skipped; the focused one gets its focus box, the
/// highlight of a non-empty selection of its (non-empty) text, and the caret
/// while it is in its visible blink phase.
pub open spec fn spec_text_preview_plan(
    a: TextAnnotationView,
    bounds: TextPixelBounds,
    window_rect: DesktopRect,
    focused_id: Option<u64>,
    caret_visible: bool,
) -> Option<TextPreviewPlan> {
    let is_focused = focused_id == Some(a.id);
    let empty = a.text.len() == 0;
    let visual = spec_visual_rect(a, bounds);
    let border = spec_box_rect(a, bounds);
    let range = spec_sorted_selection_range(a);
    if empty && !is_focused {
        None
    } else if !visual.spec_intersects(window_rect) && !border.spec_intersects(window_rect) {
        None
    } else {
        Some(
            TextPreviewPlan {
                placeholder: empty,
                draw_border: is_focused,
                border_rect: border,
                selection: if is_focused && !empty && range.0 < range.1 {
                    Some(range)
                } else {
                    None
                },
                draw_caret: is_focused && caret_visible,
            },
        )
    }
}

/// Whether planning the preview of `annotation`, whose shown text measures
/// `bounds`, in `window_rect` stays within `i32`.
pub fn preview_plan_args_fit(annotation: &TextAnnotation, bounds: TextPixelBounds, window_rect: DesktopRect) -> (r: bool)
    ensures
        r == ({
            &&& visual_rect_in_range(annotation@, bounds)
            &&& spec_visual_rect(annotation@, bounds).edges_in_range()
            &&& box_rect_in_range(annotation@, bounds)
            &&& spec_box_rect(annotation@, bounds).edges_in_range()
            &&& window_rect.edges_in_range()
        }),
{
    let (gx, gy) = (annotation.global_pos.0 as i64, annotation.global_pos.1 as i64);
    let (vx, vy) = (gx + bounds.offset_x as i64, gy + bounds.offset_y as i64);
    let vw = if bounds.width >= 0 { bounds.width as i64 } else { 0 };
    let vh = if bounds.height >= 0 { bounds.height as i64 } else { 0 };
    let visual_fits = fits_i32(vx) && fits_i32(vy) && fits_i32(vx + vw) && fits_i32(vy + vh);
    let pad = TEXT_BORDER_PADDING_PIXELS as i64;
    let (ox, oy) = (gx - pad, gy - pad);
    let (w, h) = (bounds.width as i64 + 2 * pad, bounds.height as i64 + 2 * pad);
    let ow = if w >= 0 { w } else { 0 };
    let oh = if h >= 0 { h } else { 0 };
    let box_fits = fits_i32(ox) && fits_i32(oy) && fits_i32(w) && fits_i32(h) && fits_i32(ox + ow)
        && fits_i32(oy + oh);
    let window_fits = fits_i32(window_rect.x as i64 + window_rect.width as i64) && fits_i32(
        window_rect.y as i64 + window_rect.height as i64,
    );
    visual_fits && box_fits && window_fits
}

pub fn plan_text_preview(
    annotation: &TextAnnotation,
    bounds: TextPixelBounds,
    window_rect: DesktopRect,
    focused_id: Option<u64>,
    caret_visible: bool,
) -> (r: Option<TextPreviewPlan>)
    requires
        visual_rect_in_range(annotation@, bounds),
        spec_visual_rect(annotation@, bounds).edges_in_range(),
        box_rect_in_range(annotation@, bounds),
        spec_box_rect(annotation@, bounds).edges_in_range(),
        window_rect.edges_in_range(),
    ensures
        r == spec_text_preview_plan(annotation@, bounds, window_rect, focused_id, caret_visible),
{
    let is_focused = is_focused(focused_id, annotation.id);
    let empty = annotation.text.as_str().unicode_len() == 0;
    if empty && !is_focused {
        return None;
    }
    let visual = annotation_visual_rect(annotation, bounds);
    let border = text_annotation_box_rect(annotation, bounds);
    if !visual.intersects(window_rect) && !border.intersects(window_rect) {
        return None;
    }
    let selection = if is_focused && !empty {
        let (start, end) = sorted_selection_range(annotation);
        if start < end {
            Some((start, end))
        } else {
            None
        }
    } else {
        None
    };
    Some(
        TextPreviewPlan {
            placeholder: empty,
            draw_border: is_focused,
            border_rect: border,
            selection,
            draw_caret: is_focused && caret_visible,
        },
    )
}


// ---------------------------------------------------------------------------
// Which annotations an exported selection shows
// ---------------------------------------------------------------------------

/// A character with the Unicode `White_Space` property, which is what
/// `char::is_whitespace` answers: U+0009 to U+000D, U+0020, U+0085, U+00A0,
/// U+1680, U+2000 to U+200A, U+2028, U+2029, U+202F, U+205F and U+3000.
pub open spec fn is_whitespace_char(c: char) -> bool {
    let n = c as int;
    ||| 0x9 <= n <= 0xD
    ||| n == 0x20
    ||| n == 0x85
    ||| n == 0xA0
    ||| n == 0x1680
    ||| 0x2000 <= n <= 0x200A
    ||| n == 0x2028
    ||| n == 0x2029
    ||| n == 0x202F
    ||| n == 0x205F
    ||| n == 0x3000
}

/// Whether `c` is whitespace.
fn char_is_whitespace(c: char) -> (r: bool)
    ensures
        r == is_whitespace_char(c),
{
    let n = c as u32;
    (0x9 <= n && n <= 0xD) || n == 0x20 || n == 0x85 || n == 0xA0 || n == 0x1680 || (0x2000 <= n
        && n <= 0x200A) || n == 0x2028 || n == 0x2029 || n == 0x202F || n == 0x205F || n == 0x3000
}

/// Blank text: every character is whitespace, so nothing is left once the
/// whitespace at both ends is trimmed.
pub open spec fn spec_is_blank(s: Seq<char>) -> bool {
    forall|i: int| 0 <= i < s.len() ==> is_whitespace_char(#[trigger] s[i])
}

pub fn text_is_blank(text: &str) -> (r: bool)
    ensures
        r == spec_is_blank(text@),
{
    let n = text.unicode_len();
    let mut i: usize = 0;
    while i < n
        invariant
            i <= n,
            n == text@.len(),
            forall|j: int| 0 <= j < i ==> is_whitespace_char(#[trigger] text@[j]),
        decreases n - i,
    {
        if !char_is_whitespace(text.get_char(i)) {
            return false;
        }
        i += 1;
    }
    true
}

/// The exported selection `(x, y, width, height)` as a desktop rectangle, a
/// negative extent counting as none.
pub open spec fn export_rect(rect: (i32, i32, i32, i32)) -> DesktopRect {
    DesktopRect {
        x: rect.0,
        y: rect.1,
        width: spec_max(rect.2 as int, 0) as i32,
        height: spec_max(rect.3 as int, 0) as i32,
    }
}

/// An annotation whose text measures `bounds` is burned into the image
/// exported for the selection `rect` when its text is not blank and its
/// rendered text overlaps the selection.
pub open spec fn spec_shown_in_export(
    a: TextAnnotationView,
    bounds: TextPixelBounds,
    rect: (i32, i32, i32, i32),
) -> bool {
    !spec_is_blank(a.text) && spec_visual_rect(a, bounds).spec_intersects(export_rect(rect))
}

pub fn text_shown_in_export(
    annotation: &TextAnnotation,
    bounds: TextPixelBounds,
    rect: (i32, i32, i32, i32),
) -> (r: bool)
    requires
        export_rect(rect).edges_in_range(),
        !spec_is_blank(annotation@.text) ==> {
            &&& visual_rect_in_range(annotation@, bounds)
            &&& spec_visual_rect(annotation@, bounds).edges_in_range()
        },
    ensures
        r == spec_shown_in_export(annotation@, bounds, rect),
{
    if text_is_blank(annotation.text.as_str()) {
        return false;
    }
    let selection = DesktopRect::from_origin_size((rect.0, rect.1), (rect.2, rect.3));
    let visual = annotation_visual_rect(annotation, bounds);
    visual.intersects(selection)
}

// ---------------------------------------------------------------------------
// The text editor over an annotation
// ---------------------------------------------------------------------------

/// Whether the editor of annotation `id` is to take the keyboard focus now:
/// exactly when that focus was requested for it, and the request is then
/// consumed.
pub fn take_pending_focus(pending_focus_id: &mut Option<u64>, id: u64) -> (r: bool)
    ensures
        r == (*old(pending_focus_id) == Some(id)),
        *final(pending_focus_id) == if r {
            None
        } else {
            *old(pending_focus_id)
        },
{
    let wants = match *pending_focus_id {
        Some(focus_id) => focus_id == id,
        None => false,
    };
    if wants {
        *pending_focus_id = None;
    }
    wants
}

impl TextAnnotation {
    /// Records the editor's cursor: the caret at `primary` and the other end
    /// of the selection at `secondary`, both clamped to the text.
    pub fn set_cursor_range(&mut self, primary: usize, secondary: usize)
        ensures
            final(self)@ == (TextAnnotationView {
                caret: spec_min(primary as int, old(self)@.text.len() as int) as usize,
                anchor: spec_min(secondary as int, old(self)@.text.len() as int) as usize,
                ..old(self)@
            }),
    {
        let char_count = self.text.as_str().unicode_len();
        self.caret_char_index = if primary <= char_count { primary } else { char_count };
        self.selection_anchor_char_index = if secondary <= char_count {
            secondary
        } else {
            char_count
        };
    }
}

} // verus!
