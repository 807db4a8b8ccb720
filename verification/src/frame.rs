use vstd::prelude::*;

verus! {

/// A frame buffer of `size.0 x size.1` pixels, row-major, packed as
/// `0x00RRGGBB`, can be addressed with `u32` arithmetic and is long enough.
pub open spec fn frame_fits(len: nat, size: (u32, u32)) -> bool {
    &&& size.0 <= i32::MAX
    &&& size.1 <= i32::MAX
    &&& size.0 * size.1 <= len
    &&& size.0 * size.1 <= 0x1_0000_0000
}

/// Whether a frame of `len` pixels can be drawn as `size`.
pub fn frame_fits_len(len: usize, size: (u32, u32)) -> (r: bool)
    ensures
        r == frame_fits(len as nat, size),
{
    let (w, h) = (size.0 as u64, size.1 as u64);
    assert(w * h <= 0xffff_ffffu64 * 0xffff_ffffu64) by (nonlinear_arith)
        requires
            w <= 0xffff_ffffu64,
            h <= 0xffff_ffffu64,
    ;
    let area = w * h;
    size.0 <= i32::MAX as u32 && size.1 <= i32::MAX as u32 && area <= len as u64 && area
        <= 0x1_0000_0000u64
}

pub open spec fn in_frame(size: (u32, u32), lx: int, ly: int) -> bool {
    0 <= lx < size.0 && 0 <= ly < size.1
}

pub open spec fn pixel_index(size: (u32, u32), lx: int, ly: int) -> int {
    ly * size.0 + lx
}

/// `new` is `old` with `f` applied to every pixel of the `size.0 x size.1`
/// grid in `region`; all other pixels, and anything past the grid, are
/// unchanged.
pub open spec fn frame_painted<T>(
    old: Seq<T>,
    new: Seq<T>,
    size: (u32, u32),
    region: spec_fn(int, int) -> bool,
    f: spec_fn(T) -> T,
) -> bool {
    &&& new.len() == old.len()
    &&& forall|lx: int, ly: int|
        #![trigger pixel_index(size, lx, ly)]
        in_frame(size, lx, ly) ==> new[pixel_index(size, lx, ly)] == if region(lx, ly) {
            f(old[pixel_index(size, lx, ly)])
        } else {
            old[pixel_index(size, lx, ly)]
        }
    &&& forall|i: int| size.0 * size.1 <= i < old.len() ==> new[i] == old[i]
}

pub proof fn lemma_pixel_index_bounds(size: (u32, u32), lx: int, ly: int)
    requires
        in_frame(size, lx, ly),
    ensures
        0 <= pixel_index(size, lx, ly) < size.0 * size.1,
{
    assert(0 <= ly * size.0 + lx < size.0 * size.1) by (nonlinear_arith)
        requires
            0 <= lx < size.0,
            0 <= ly < size.1,
    ;
}

pub proof fn lemma_pixel_index_injective(size: (u32, u32), a: int, b: int, c: int, d: int)
    requires
        in_frame(size, a, b),
        in_frame(size, c, d),
        pixel_index(size, a, b) == pixel_index(size, c, d),
    ensures
        a == c && b == d,
{
    assert(b == d) by (nonlinear_arith)
        requires
            0 <= a < size.0,
            0 <= c < size.0,
            0 <= b,
            0 <= d,
            b * size.0 + a == d * size.0 + c,
    {
        if b < d {
            assert(b * size.0 + size.0 <= d * size.0);
        } else if d < b {
            assert(d * size.0 + size.0 <= b * size.0);
        }
    }
}

/// Nothing painted yet.
pub proof fn lemma_painted_nothing<T>(
    old: Seq<T>,
    size: (u32, u32),
    region: spec_fn(int, int) -> bool,
    f: spec_fn(T) -> T,
)
    requires
        forall|lx: int, ly: int| !#[trigger] region(lx, ly),
    ensures
        frame_painted(old, old, size, region, f),
{
}

/// A painting described by one region is described by any region that
/// agrees with it on the frame.
pub proof fn lemma_painted_same_region<T>(
    old: Seq<T>,
    new: Seq<T>,
    size: (u32, u32),
    r1: spec_fn(int, int) -> bool,
    r2: spec_fn(int, int) -> bool,
    f: spec_fn(T) -> T,
)
    requires
        frame_painted(old, new, size, r1, f),
        forall|lx: int, ly: int| in_frame(size, lx, ly) ==> #[trigger] r1(lx, ly) == r2(lx, ly),
    ensures
        frame_painted(old, new, size, r2, f),
{
    assert forall|lx: int, ly: int|
        #![trigger pixel_index(size, lx, ly)]
        in_frame(size, lx, ly) implies new[pixel_index(size, lx, ly)] == if r2(lx, ly) {
            f(old[pixel_index(size, lx, ly)])
        } else {
            old[pixel_index(size, lx, ly)]
        } by {
        assert(r1(lx, ly) == r2(lx, ly));
    }
}

/// Painting one more pixel `(a, b)` (not painted yet, or painted with a
/// constant colour) extends the painted region by that pixel.
pub proof fn lemma_paint_one_more<T>(
    old: Seq<T>,
    cur: Seq<T>,
    size: (u32, u32),
    region: spec_fn(int, int) -> bool,
    f: spec_fn(T) -> T,
    a: int,
    b: int,
    grown: spec_fn(int, int) -> bool,
)
    requires
        size.0 * size.1 <= old.len(),
        frame_painted(old, cur, size, region, f),
        in_frame(size, a, b),
        !region(a, b) || f(cur[pixel_index(size, a, b)]) == cur[pixel_index(size, a, b)]
            && f(old[pixel_index(size, a, b)]) == cur[pixel_index(size, a, b)],
        forall|lx: int, ly: int| #[trigger] grown(lx, ly) == (region(lx, ly) || (lx == a && ly == b)),
    ensures
        frame_painted(
            old,
            cur.update(pixel_index(size, a, b), f(old[pixel_index(size, a, b)])),
            size,
            grown,
            f,
        ),
{
    lemma_pixel_index_bounds(size, a, b);
    let new = cur.update(pixel_index(size, a, b), f(old[pixel_index(size, a, b)]));
    assert forall|lx: int, ly: int|
        #![trigger pixel_index(size, lx, ly)]
        in_frame(size, lx, ly) implies new[pixel_index(size, lx, ly)] == if grown(lx, ly) {
            f(old[pixel_index(size, lx, ly)])
        } else {
            old[pixel_index(size, lx, ly)]
        } by {
        lemma_pixel_index_bounds(size, lx, ly);
        if pixel_index(size, lx, ly) == pixel_index(size, a, b) {
            lemma_pixel_index_injective(size, lx, ly, a, b);
        }
    }
}

/// Painting with the constant `value`.
pub open spec fn fill_with<T>(value: T) -> spec_fn(T) -> T {
    |p: T| value
}

/// Two paintings with the same constant colour make one painting of the
/// union of their regions.
pub proof fn lemma_painted_compose_const<T>(
    a: Seq<T>,
    b: Seq<T>,
    c: Seq<T>,
    size: (u32, u32),
    r1: spec_fn(int, int) -> bool,
    r2: spec_fn(int, int) -> bool,
    value: T,
    both: spec_fn(int, int) -> bool,
)
    requires
        frame_painted(a, b, size, r1, fill_with(value)),
        frame_painted(b, c, size, r2, fill_with(value)),
        forall|lx: int, ly: int| #[trigger] both(lx, ly) == (r1(lx, ly) || r2(lx, ly)),
    ensures
        frame_painted(a, c, size, both, fill_with(value)),
{
}

/// Writes `value` at pixel `(lx, ly)` of the frame.
pub fn set_frame_pixel(frame: &mut [u32], size: (u32, u32), lx: i32, ly: i32, value: u32)
    requires
        frame_fits(old(frame)@.len(), size),
        in_frame(size, lx as int, ly as int),
    ensures
        final(frame)@ == old(frame)@.update(pixel_index(size, lx as int, ly as int), value),
        final(frame)@.len() == old(frame)@.len(),
        0 <= pixel_index(size, lx as int, ly as int) < size.0 * size.1,
{
    proof {
        lemma_pixel_index_bounds(size, lx as int, ly as int);
    }
    let idx = (ly as u32 * size.0 + lx as u32) as usize;
    frame[idx] = value;
}

/// Reads pixel `(lx, ly)` of the frame.
pub fn get_frame_pixel(frame: &[u32], size: (u32, u32), lx: i32, ly: i32) -> (r: u32)
    requires
        frame_fits(frame@.len(), size),
        in_frame(size, lx as int, ly as int),
    ensures
        r == frame@[pixel_index(size, lx as int, ly as int)],
        0 <= pixel_index(size, lx as int, ly as int) < size.0 * size.1,
{
    proof {
        lemma_pixel_index_bounds(size, lx as int, ly as int);
    }
    let idx = (ly as u32 * size.0 + lx as u32) as usize;
    frame[idx]
}

/// Packs an RGB triple as `0x00RRGGBB`.
pub open spec fn spec_pack_rgb(r: u8, g: u8, b: u8) -> u32 {
    ((r as u32) * 0x10000 + (g as u32) * 0x100 + (b as u32)) as u32
}

pub fn pack_rgb(r: u8, g: u8, b: u8) -> (out: u32)
    ensures
        out == spec_pack_rgb(r, g, b),
{
    let out = ((r as u32) << 16) | ((g as u32) << 8) | b as u32;
    assert(((r as u32) << 16) | ((g as u32) << 8) | b as u32 == (r as u32) * 0x10000 + (g as u32)
        * 0x100 + (b as u32)) by (bit_vector);
    out
}

/// The red, green and blue bytes of a packed pixel.
pub open spec fn spec_unpack(p: u32) -> (u8, u8, u8) {
    (((p / 0x10000) % 0x100) as u8, ((p / 0x100) % 0x100) as u8, (p % 0x100) as u8)
}

pub fn unpack_rgb(p: u32) -> (r: (u8, u8, u8))
    ensures
        r == spec_unpack(p),
{
    let red = ((p >> 16) & 0xFF) as u8;
    let green = ((p >> 8) & 0xFF) as u8;
    let blue = (p & 0xFF) as u8;
    assert((p >> 16) & 0xFF == (p / 0x10000) % 0x100) by (bit_vector);
    assert((p >> 8) & 0xFF == (p / 0x100) % 0x100) by (bit_vector);
    assert(p & 0xFF == p % 0x100) by (bit_vector);
    (red, green, blue)
}

} // verus!
