//! The pixel work of the glyph atlas: where each glyph's cell goes, how big
//! the texture is, how a rasterised pixel is written, and the dilation that
//! thickens the glyphs.

use vstd::arithmetic::power2::{lemma2_to64, lemma_pow2_strictly_increases, lemma_pow2_unfold, pow2};
use vstd::prelude::*;

verus! {

/// Glyph cells per atlas row.
pub const ATLAS_COLUMNS: u32 = 16;
/// The smallest side an atlas texture gets.
pub const MIN_ATLAS_SIDE: u32 = 256;
/// The largest power of two a `u32` holds.
pub const MAX_POW2_U32: u32 = 0x8000_0000;

/// `n` is a power of two.
pub open spec fn is_power_of_two(n: int) -> bool {
    exists|e: nat| #[trigger] pow2(e) == n
}

/// The smallest power of two at or above `x`: the power of two `r` with
/// `r >= x` whose half (if it has one) is below `x`.
pub fn next_power_of_two(x: u32) -> (r: u32)
    requires
        x <= MAX_POW2_U32,
    ensures
        is_power_of_two(r as int),
        r >= x,
        r == 1 || r / 2 < x,
{
    let mut r: u32 = 1;
    let ghost mut e: nat = 0;
    proof {
        lemma2_to64();
    }
    while r < x
        invariant
            r == pow2(e),
            e <= 31,
            x <= MAX_POW2_U32,
            r == 1 || r / 2 < x,
        decreases 31 - e,
    {
        proof {
            lemma2_to64();
            if e >= 31 {
                if e > 31 {
                    lemma_pow2_strictly_increases(31, e);
                }
                assert(r >= MAX_POW2_U32);
            }
            lemma_pow2_unfold(e + 1);
        }
        r = r * 2;
        proof {
            e = e + 1;
        }
    }
    assert(pow2(e) == r as int);
    r
}

/// `side` is the atlas side for a content `need` pixels long: the smallest
/// power of two at or above both `need` and `MIN_ATLAS_SIDE`.
pub open spec fn is_atlas_side(need: int, side: int) -> bool {
    &&& is_power_of_two(side)
    &&& side >= need
    &&& side >= MIN_ATLAS_SIDE
    &&& (side == MIN_ATLAS_SIDE || side / 2 < need)
}

/// The width of a glyph cell `cell_h` pixels high: three fifths of its
/// height, rounded down.
pub fn cell_width_for(cell_h: u32) -> (w: u32)
    requires
        cell_h <= u32::MAX / 3,
    ensures
        w == cell_h * 3 / 5,
{
    cell_h * 3 / 5
}

/// The side of an atlas texture for `need` pixels of content.
pub fn atlas_side(need: u32) -> (side: u32)
    requires
        need <= MAX_POW2_U32,
    ensures
        is_atlas_side(need as int, side as int),
{
    let r = next_power_of_two(need);
    if r > MIN_ATLAS_SIDE {
        r
    } else {
        proof {
            lemma2_to64();
            assert(pow2(8) == MIN_ATLAS_SIDE);
        }
        MIN_ATLAS_SIDE
    }
}

/// The width and height of the atlas for `n_chars` glyph cells of
/// `cell_w` by `cell_h` pixels, `ATLAS_COLUMNS` cells to a row.
pub fn atlas_size(n_chars: u32, cell_w: u32, cell_h: u32) -> (wh: (u32, u32))
    requires
        n_chars <= u32::MAX - ATLAS_COLUMNS,
        ATLAS_COLUMNS * cell_w <= MAX_POW2_U32,
        ((n_chars + ATLAS_COLUMNS - 1) / (ATLAS_COLUMNS as int)) * cell_h <= MAX_POW2_U32,
    ensures
        is_atlas_side(ATLAS_COLUMNS * cell_w, wh.0 as int),
        is_atlas_side(((n_chars + ATLAS_COLUMNS - 1) / (ATLAS_COLUMNS as int)) * cell_h, wh.1 as int),
{
    let rows = (n_chars + ATLAS_COLUMNS - 1) / ATLAS_COLUMNS;
    let w = atlas_side(ATLAS_COLUMNS * cell_w);
    let h = atlas_side(rows * cell_h);
    (w, h)
}

/// The top-left pixel of the cell of glyph `i`: cells fill the atlas row by
/// row, `ATLAS_COLUMNS` to a row.
pub fn glyph_origin(i: u32, cell_w: u32, cell_h: u32) -> (xy: (u32, u32))
    requires
        (ATLAS_COLUMNS - 1) * cell_w <= u32::MAX,
        (i / ATLAS_COLUMNS) * cell_h <= u32::MAX,
    ensures
        xy.0 == (i % ATLAS_COLUMNS) * cell_w,
        xy.1 == (i / ATLAS_COLUMNS) * cell_h,
{
    let col = i % ATLAS_COLUMNS;
    let row = i / ATLAS_COLUMNS;
    assert(col * cell_w <= (ATLAS_COLUMNS - 1) * cell_w) by (nonlinear_arith)
        requires
            col <= ATLAS_COLUMNS - 1,
    ;
    (col * cell_w, row * cell_h)
}

/// Where pixel (`x`, `y`) of an atlas `w` pixels wide starts in its RGBA bytes.
pub open spec fn px_index(w: int, x: int, y: int) -> int {
    (y * w + x) * 4
}

/// The alpha of pixel (`x`, `y`).
pub open spec fn alpha_of(p: Seq<u8>, w: int, x: int, y: int) -> int {
    p[px_index(w, x, y) + 3] as int
}

pub open spec fn max2(a: int, b: int) -> int {
    if a >= b { a } else { b }
}

/// The largest alpha among pixel (`x`, `y`) and its eight neighbours.
pub open spec fn neighbourhood_max(p: Seq<u8>, w: int, x: int, y: int) -> int {
    let top = max2(max2(alpha_of(p, w, x - 1, y - 1), alpha_of(p, w, x, y - 1)), alpha_of(p, w, x + 1, y - 1));
    let mid = max2(max2(alpha_of(p, w, x - 1, y), alpha_of(p, w, x, y)), alpha_of(p, w, x + 1, y));
    let bot = max2(max2(alpha_of(p, w, x - 1, y + 1), alpha_of(p, w, x, y + 1)), alpha_of(p, w, x + 1, y + 1));
    max2(max2(top, mid), bot)
}

/// Six tenths of the neighbourhood's largest alpha plus four tenths of the
/// pixel's own, rounded down.
pub open spec fn blend(m: int, a: int) -> int {
    (m * 6 + a * 4) / 10
}

/// Pixel (`x`, `y`) is not on the border of a `w` by `h` atlas.
pub open spec fn is_inner(w: int, h: int, x: int, y: int) -> bool {
    &&& 1 <= x < w - 1
    &&& 1 <= y < h - 1
}

/// Byte `c` (red, green, blue, alpha) of pixel (`x`, `y`) after dilation: an
/// inner pixel's alpha becomes the blend of its neighbourhood's largest
/// alpha and its own, and a pixel whose new alpha is not zero turns white;
/// border pixels and the colour of pixels that stay clear are kept.
pub open spec fn dilated(p: Seq<u8>, w: int, h: int, x: int, y: int, c: int) -> u8 {
    if is_inner(w, h, x, y) {
        let b = blend(neighbourhood_max(p, w, x, y), alpha_of(p, w, x, y));
        if c == 3 {
            b as u8
        } else if b > 0 {
            255u8
        } else {
            p[px_index(w, x, y) + c]
        }
    } else {
        p[px_index(w, x, y) + c]
    }
}

/// The bytes of pixel (`x`, `y`) lie inside an atlas of `w * h` pixels.
proof fn lemma_index_in_bounds(w: int, h: int, x: int, y: int, c: int)
    requires
        0 <= x < w,
        0 <= y < h,
        0 <= c < 4,
    ensures
        0 <= px_index(w, x, y) + c < w * h * 4,
{
    assert(0 <= y * w + x < w * h) by (nonlinear_arith)
        requires
            0 <= x < w,
            0 <= y < h,
    ;
}

/// Different pixels, or different bytes of a pixel, have different indices.
proof fn lemma_index_injective(w: int, x: int, y: int, c: int, x2: int, y2: int, c2: int)
    requires
        0 <= x < w,
        0 <= x2 < w,
        0 <= y,
        0 <= y2,
        0 <= c < 4,
        0 <= c2 < 4,
        px_index(w, x, y) + c == px_index(w, x2, y2) + c2,
    ensures
        x == x2,
        y == y2,
        c == c2,
{
    let n = y * w + x;
    let n2 = y2 * w + x2;
    vstd::arithmetic::div_mod::lemma_fundamental_div_mod_converse(n * 4 + c, 4, n, c);
    vstd::arithmetic::div_mod::lemma_fundamental_div_mod_converse(n2 * 4 + c2, 4, n2, c2);
    vstd::arithmetic::div_mod::lemma_fundamental_div_mod_converse(n, w, y, x);
    vstd::arithmetic::div_mod::lemma_fundamental_div_mod_converse(n2, w, y2, x2);
}

/// Every pixel of a `w` by `h` RGBA atlas whose alpha is not zero is white:
/// glyphs live in the alpha channel only.
pub open spec fn opaque_is_white(p: Seq<u8>, w: int, h: int) -> bool {
    forall|x: int, y: int|
        0 <= x < w && 0 <= y < h && #[trigger] p[px_index(w, x, y) + 3] > 0 ==> {
            &&& p[px_index(w, x, y)] == 255
            &&& p[px_index(w, x, y) + 1] == 255
            &&& p[px_index(w, x, y) + 2] == 255
        }
}

/// A blank atlas (every byte zero) has no opaque pixel, so its opaque
/// pixels are white.
pub proof fn lemma_blank_atlas_is_white(p: Seq<u8>, w: int, h: int)
    requires
        p.len() == w * h * 4,
        forall|k: int| 0 <= k < p.len() ==> #[trigger] p[k] == 0,
    ensures
        opaque_is_white(p, w, h),
{
    assert forall|x: int, y: int| 0 <= x < w && 0 <= y < h && #[trigger] p[px_index(w, x, y) + 3] > 0 implies {
        &&& p[px_index(w, x, y)] == 255
        &&& p[px_index(w, x, y) + 1] == 255
        &&& p[px_index(w, x, y) + 2] == 255
    } by {
        lemma_index_in_bounds(w, h, x, y, 3);
    }
}

/// Writes a rasterised pixel at (`px`, `py`): white with alpha `alpha`. A
/// pixel outside the `w` by `h` atlas is dropped. An atlas whose opaque
/// pixels are white stays so.
pub fn plot(pixels: &mut Vec<u8>, w: u32, h: u32, px: i32, py: i32, alpha: u8) -> (written: bool)
    requires
        old(pixels)@.len() == w * h * 4,
        w * h * 4 <= u32::MAX,
    ensures
        (0 <= px < w && 0 <= py < h) ==> {
            let i = px_index(w as int, px as int, py as int);
            final(pixels)@ == old(pixels)@.update(i, 255).update(i + 1, 255).update(i + 2, 255).update(i + 3, alpha)
        },
        !(0 <= px < w && 0 <= py < h) ==> final(pixels)@ == old(pixels)@,
        opaque_is_white(old(pixels)@, w as int, h as int) ==> opaque_is_white(final(pixels)@, w as int, h as int),
        written == (0 <= px < w && 0 <= py < h),
{
    let ghost before = pixels@;
    if px >= 0 && py >= 0 && (px as u32) < w && (py as u32) < h {
        proof {
            lemma_index_in_bounds(w as int, h as int, px as int, py as int, 3);
        }
        let i = ((py as u32 * w + px as u32) * 4) as usize;
        pixels.set(i, 255);
        pixels.set(i + 1, 255);
        pixels.set(i + 2, 255);
        pixels.set(i + 3, alpha);
        proof {
            if opaque_is_white(before, w as int, h as int) {
                assert forall|x: int, y: int|
                    0 <= x < w && 0 <= y < h && #[trigger] pixels@[px_index(w as int, x, y) + 3] > 0 implies {
                    &&& pixels@[px_index(w as int, x, y)] == 255
                    &&& pixels@[px_index(w as int, x, y) + 1] == 255
                    &&& pixels@[px_index(w as int, x, y) + 2] == 255
                } by {
                    lemma_index_in_bounds(w as int, h as int, x, y, 3);
                    if x != px || y != py {
                        let b = px_index(w as int, x, y);
                        let i0 = px_index(w as int, px as int, py as int);
                        if i0 <= b + 0 < i0 + 4 {
                            lemma_index_injective(w as int, x, y, 0, px as int, py as int, b + 0 - i0);
                        }
                        assert(pixels@[b + 0] == before[b + 0]);
                        if i0 <= b + 1 < i0 + 4 {
                            lemma_index_injective(w as int, x, y, 1, px as int, py as int, b + 1 - i0);
                        }
                        assert(pixels@[b + 1] == before[b + 1]);
                        if i0 <= b + 2 < i0 + 4 {
                            lemma_index_injective(w as int, x, y, 2, px as int, py as int, b + 2 - i0);
                        }
                        assert(pixels@[b + 2] == before[b + 2]);
                        if i0 <= b + 3 < i0 + 4 {
                            lemma_index_injective(w as int, x, y, 3, px as int, py as int, b + 3 - i0);
                        }
                        assert(pixels@[b + 3] == before[b + 3]);
                        assert(before[b + 3] > 0);
                        assert(before[b + 3] == before[px_index(w as int, x, y) + 3]);
                    }
                }
            }
        }
        true
    } else {
        false
    }
}

/// The bytes of a `w` by `h` RGBA atlas after pixel (`px`, `py`) is written
/// white with alpha `alpha`; unchanged where the pixel lies outside.
pub open spec fn plotted(p: Seq<u8>, w: int, h: int, px: int, py: int, alpha: u8) -> Seq<u8> {
    if 0 <= px < w && 0 <= py < h {
        let i = px_index(w, px, py);
        p.update(i, 255).update(i + 1, 255).update(i + 2, 255).update(i + 3, alpha)
    } else {
        p
    }
}

/// One rasterised pixel of a glyph: the glyph's index, where the pixel
/// falls in the atlas, and its coverage as an alpha.
#[derive(Clone, Copy, Debug)]
pub struct Coverage {
    pub glyph: usize,
    pub x: i32,
    pub y: i32,
    pub alpha: u8,
}

/// A blank `w` by `h` atlas with the first `k` rasterised pixels of `cov`
/// written in order.
pub open spec fn painted(w: int, h: int, cov: Seq<Coverage>, k: int) -> Seq<u8>
    decreases k,
{
    if k <= 0 {
        Seq::new((w * h * 4) as nat, |j: int| 0u8)
    } else {
        let c = cov[k - 1];
        plotted(painted(w, h, cov, k - 1), w, h, c.x as int, c.y as int, c.alpha)
    }
}

/// Whether one of the first `k` rasterised pixels of `cov` belongs to glyph
/// `g`, falls inside the `w` by `h` atlas and is not transparent.
pub open spec fn glyph_inked(w: int, h: int, cov: Seq<Coverage>, g: int, k: int) -> bool {
    exists|j: int|
        0 <= j < k && #[trigger] cov[j].glyph == g && 0 <= cov[j].x < w && 0 <= cov[j].y < h
            && cov[j].alpha > 0
}

/// Builds a `w` by `h` RGBA atlas from the rasterised pixels `cov` of
/// `n_glyphs` glyphs: writes each pixel in order into a blank atlas, then
/// thickens the glyphs; and says which glyphs left ink. Every opaque pixel of
/// the atlas is white.
pub fn build_atlas(w: u32, h: u32, n_glyphs: usize, cov: &Vec<Coverage>) -> (r: (Vec<u8>, Vec<bool>))
    requires
        w * h * 4 <= u32::MAX,
        w >= 1,
        h >= 1,
        forall|k: int| 0 <= k < cov@.len() ==> #[trigger] cov@[k].glyph < n_glyphs,
    ensures
        r.0@.len() == w * h * 4,
        forall|x: int, y: int, c: int|
            0 <= x < w && 0 <= y < h && 0 <= c < 4 ==> #[trigger] r.0@[px_index(w as int, x, y) + c] == dilated(
                painted(w as int, h as int, cov@, cov@.len() as int),
                w as int,
                h as int,
                x,
                y,
                c,
            ),
        opaque_is_white(r.0@, w as int, h as int),
        r.1@.len() == n_glyphs,
        forall|g: int| 0 <= g < n_glyphs ==> #[trigger] r.1@[g] == glyph_inked(w as int, h as int, cov@, g, cov@.len() as int),
{
    let n_bytes: usize = (w * h * 4) as usize;
    let mut pixels: Vec<u8> = Vec::new();
    let mut j: usize = 0;
    while j < n_bytes
        invariant
            j <= n_bytes,
            n_bytes == w * h * 4,
            pixels@ == Seq::new(j as nat, |k: int| 0u8),
        decreases n_bytes - j,
    {
        pixels.push(0);
        j = j + 1;
        assert(pixels@ =~= Seq::new(j as nat, |k: int| 0u8));
    }
    let mut inked: Vec<bool> = Vec::new();
    let mut g: usize = 0;
    while g < n_glyphs
        invariant
            g <= n_glyphs,
            forall|q: int| 0 <= q < g ==> #[trigger] inked@[q] == false,
            inked@.len() == g,
        decreases n_glyphs - g,
    {
        inked.push(false);
        g = g + 1;
    }
    proof {
        lemma_blank_atlas_is_white(pixels@, w as int, h as int);
        assert(pixels@ == painted(w as int, h as int, cov@, 0));
    }
    let mut k: usize = 0;
    while k < cov.len()
        invariant
            k <= cov@.len(),
            w * h * 4 <= u32::MAX,
            pixels@.len() == w * h * 4,
            pixels@ == painted(w as int, h as int, cov@, k as int),
            opaque_is_white(pixels@, w as int, h as int),
            inked@.len() == n_glyphs,
            forall|q: int| 0 <= q < cov@.len() ==> #[trigger] cov@[q].glyph < n_glyphs,
            forall|q: int| 0 <= q < n_glyphs ==> #[trigger] inked@[q] == glyph_inked(w as int, h as int, cov@, q, k as int),
        decreases cov@.len() - k,
    {
        let c = cov[k];
        let written = plot(&mut pixels, w, h, c.x, c.y, c.alpha);
        proof {
            if written {
                lemma_index_in_bounds(w as int, h as int, c.x as int, c.y as int, 3);
            }
        }
        if written && c.alpha > 0 {
            inked.set(c.glyph, true);
        }
        proof {
            assert forall|q: int| 0 <= q < n_glyphs implies #[trigger] inked@[q] == glyph_inked(
                w as int,
                h as int,
                cov@,
                q,
                k + 1,
            ) by {
                if glyph_inked(w as int, h as int, cov@, q, k as int) {
                    let j0 = choose|j: int|
                        0 <= j < k && #[trigger] cov@[j].glyph == q && 0 <= cov@[j].x < w && 0 <= cov@[j].y < h
                            && cov@[j].alpha > 0;
                    assert(cov@[j0].glyph == q);
                }
                if q == c.glyph && written && c.alpha > 0 {
                    assert(cov@[k as int].glyph == q);
                }
            }
        }
        k = k + 1;
    }
    let out = dilate(&pixels, w, h);
    (out, inked)
}

/// Dilating an atlas whose opaque pixels are white gives one whose opaque
/// pixels are white: an inner pixel turns white whenever its new alpha is not
/// zero, and a border pixel keeps its bytes.
pub proof fn lemma_dilated_white(p: Seq<u8>, w: int, h: int)
    requires
        p.len() == w * h * 4,
        opaque_is_white(p, w, h),
    ensures
        forall|x: int, y: int|
            0 <= x < w && 0 <= y < h && #[trigger] dilated(p, w, h, x, y, 3) > 0 ==> {
                &&& dilated(p, w, h, x, y, 0) == 255
                &&& dilated(p, w, h, x, y, 1) == 255
                &&& dilated(p, w, h, x, y, 2) == 255
            },
{
    assert forall|x: int, y: int| 0 <= x < w && 0 <= y < h && #[trigger] dilated(p, w, h, x, y, 3) > 0 implies {
        &&& dilated(p, w, h, x, y, 0) == 255
        &&& dilated(p, w, h, x, y, 1) == 255
        &&& dilated(p, w, h, x, y, 2) == 255
    } by {
        lemma_index_in_bounds(w, h, x, y, 3);
        lemma_index_in_bounds(w, h, x, y, 0);
        if is_inner(w, h, x, y) {
            lemma_index_in_bounds(w, h, x - 1, y - 1, 3);
            lemma_index_in_bounds(w, h, x + 1, y + 1, 3);
            let m = neighbourhood_max(p, w, x, y);
            let a = alpha_of(p, w, x, y);
            assert(0 <= a <= m <= 255);
            assert(0 <= blend(m, a) <= 255);
        } else {
            assert(p[px_index(w, x, y) + 3] > 0);
        }
    }
}

/// A copy of the bytes of `v`.
pub fn copy_bytes(v: &Vec<u8>) -> (r: Vec<u8>)
    ensures
        r@ == v@,
{
    let mut r: Vec<u8> = Vec::new();
    let mut i: usize = 0;
    while i < v.len()
        invariant
            i <= v@.len(),
            r@ == v@.take(i as int),
        decreases v@.len() - i,
    {
        let b = v[i];
        r.push(b);
        assert(v@.take(i + 1) =~= v@.take(i as int).push(b));
        i = i + 1;
    }
    assert(v@.take(v@.len() as int) =~= v@);
    r
}

/// The alpha of pixel (`x`, `y`).
fn alpha_at(p: &Vec<u8>, w: u32, h: u32, x: u32, y: u32) -> (a: u8)
    requires
        p@.len() == w * h * 4,
        w * h * 4 <= u32::MAX,
        x < w,
        y < h,
    ensures
        a == alpha_of(p@, w as int, x as int, y as int),
{
    proof {
        lemma_index_in_bounds(w as int, h as int, x as int, y as int, 3);
    }
    p[((y * w + x) * 4 + 3) as usize]
}

fn max_u8(a: u8, b: u8) -> (m: u8)
    ensures
        m == max2(a as int, b as int),
{
    if a >= b { a } else { b }
}

/// The largest alpha among pixel (`x`, `y`) and its eight neighbours.
fn neighbourhood_alpha(p: &Vec<u8>, w: u32, h: u32, x: u32, y: u32) -> (m: u8)
    requires
        p@.len() == w * h * 4,
        w * h * 4 <= u32::MAX,
        is_inner(w as int, h as int, x as int, y as int),
    ensures
        m == neighbourhood_max(p@, w as int, x as int, y as int),
{
    let top = max_u8(max_u8(alpha_at(p, w, h, x - 1, y - 1), alpha_at(p, w, h, x, y - 1)), alpha_at(p, w, h, x + 1, y - 1));
    let mid = max_u8(max_u8(alpha_at(p, w, h, x - 1, y), alpha_at(p, w, h, x, y)), alpha_at(p, w, h, x + 1, y));
    let bot = max_u8(max_u8(alpha_at(p, w, h, x - 1, y + 1), alpha_at(p, w, h, x, y + 1)), alpha_at(p, w, h, x + 1, y + 1));
    max_u8(max_u8(top, mid), bot)
}

/// Thickens the glyphs of a `w` by `h` RGBA atlas: every inner pixel's alpha
/// becomes six tenths of the largest alpha around it plus four tenths of its
/// own, and a pixel whose new alpha is not zero turns white, all read from
/// the atlas as it was. The border stays as it is.
pub fn dilate(pixels: &Vec<u8>, w: u32, h: u32) -> (out: Vec<u8>)
    requires
        pixels@.len() == w * h * 4,
        w * h * 4 <= u32::MAX,
        w >= 1,
        h >= 1,
    ensures
        out@.len() == pixels@.len(),
        forall|x: int, y: int, c: int|
            0 <= x < w && 0 <= y < h && 0 <= c < 4 ==> #[trigger] out@[px_index(w as int, x, y) + c] == dilated(
                pixels@,
                w as int,
                h as int,
                x,
                y,
                c,
            ),
        opaque_is_white(pixels@, w as int, h as int) ==> opaque_is_white(out@, w as int, h as int),
{
    let ghost p = pixels@;
    let mut out = copy_bytes(pixels);
    let mut y: u32 = 1;
    while y < h - 1
        invariant
            1 <= y <= h,
            p == pixels@,
            p.len() == w * h * 4,
            w * h * 4 <= u32::MAX,
            w >= 1,
            out@.len() == p.len(),
            forall|x2: int, y2: int, c: int|
                0 <= x2 < w && 0 <= y2 < h && 0 <= c < 4 ==> #[trigger] out@[px_index(w as int, x2, y2) + c] == (
                if y2 < y {
                    dilated(p, w as int, h as int, x2, y2, c)
                } else {
                    p[px_index(w as int, x2, y2) + c]
                }),
        decreases h - y,
    {
        let mut x: u32 = 1;
        while x < w - 1
            invariant
                1 <= x <= w,
                1 <= y,
                y < h - 1,
                w >= 1,
                p == pixels@,
                p.len() == w * h * 4,
                w * h * 4 <= u32::MAX,
                out@.len() == p.len(),
                forall|x2: int, y2: int, c: int|
                    0 <= x2 < w && 0 <= y2 < h && 0 <= c < 4 ==> #[trigger] out@[px_index(w as int, x2, y2) + c] == (
                    if y2 < y || (y2 == y && x2 < x) {
                        dilated(p, w as int, h as int, x2, y2, c)
                    } else {
                        p[px_index(w as int, x2, y2) + c]
                    }),
            decreases w - x,
        {
            let m = neighbourhood_alpha(pixels, w, h, x, y);
            let a = alpha_at(pixels, w, h, x, y);
            assert(m >= a);
            let b = ((m as u16 * 6 + a as u16 * 4) / 10) as u8;
            proof {
                lemma_index_in_bounds(w as int, h as int, x as int, y as int, 3);
            }
            let base = ((y * w + x) * 4) as usize;
            let ghost before = out@;
            out.set(base + 3, b);
            if b > 0 {
                out.set(base, 255);
                out.set(base + 1, 255);
                out.set(base + 2, 255);
            }
            proof {
                assert forall|x2: int, y2: int, c: int|
                    0 <= x2 < w && 0 <= y2 < h && 0 <= c < 4 implies #[trigger] out@[px_index(w as int, x2, y2) + c] == (
                    if y2 < y || (y2 == y && x2 < x + 1) {
                        dilated(p, w as int, h as int, x2, y2, c)
                    } else {
                        p[px_index(w as int, x2, y2) + c]
                    }) by {
                    lemma_index_in_bounds(w as int, h as int, x2, y2, c);
                    if x2 == x && y2 == y {
                        assert(px_index(w as int, x2, y2) + c == base + c);
                    } else {
                        let k = px_index(w as int, x2, y2) + c;
                        if base <= k < base + 4 {
                            lemma_index_injective(w as int, x2, y2, c, x as int, y as int, k - base);
                        }
                        assert(out@[px_index(w as int, x2, y2) + c] == before[px_index(w as int, x2, y2) + c]);
                    }
                }
            }
            x = x + 1;
        }
        proof {
            assert forall|x2: int, y2: int, c: int|
                0 <= x2 < w && 0 <= y2 < h && 0 <= c < 4 implies #[trigger] out@[px_index(w as int, x2, y2) + c] == (
                if y2 < y + 1 {
                    dilated(p, w as int, h as int, x2, y2, c)
                } else {
                    p[px_index(w as int, x2, y2) + c]
                }) by {
                if y2 == y && x2 >= x {
                    assert(!is_inner(w as int, h as int, x2, y2));
                }
            }
        }
        y = y + 1;
    }
    proof {
        if opaque_is_white(p, w as int, h as int) {
            lemma_dilated_white(p, w as int, h as int);
        }
        assert forall|x2: int, y2: int, c: int|
            0 <= x2 < w && 0 <= y2 < h && 0 <= c < 4 implies #[trigger] out@[px_index(w as int, x2, y2) + c] == dilated(
            p,
            w as int,
            h as int,
            x2,
            y2,
            c,
        ) by {
            if y2 >= y {
                assert(!is_inner(w as int, h as int, x2, y2));
            }
        }
    }
    out
}

/// Dilation spreads a glyph to all eight neighbours of each of its pixels:
/// an inner pixel's new alpha is at least six tenths of the alpha of every
/// pixel of the three by three block around it, above, beside and below,
/// and the pixel turns white whenever that share is not zero. A pixel whose
/// whole block is clear stays clear.
pub proof fn lemma_dilation_spreads_to_every_neighbour(p: Seq<u8>, w: int, h: int, x: int, y: int, dx: int, dy: int)
    requires
        is_inner(w, h, x, y),
        -1 <= dx <= 1,
        -1 <= dy <= 1,
    ensures
        dilated(p, w, h, x, y, 3) >= (6 * alpha_of(p, w, x + dx, y + dy)) / 10,
        (6 * alpha_of(p, w, x + dx, y + dy)) / 10 > 0 ==> {
            &&& dilated(p, w, h, x, y, 0) == 255
            &&& dilated(p, w, h, x, y, 1) == 255
            &&& dilated(p, w, h, x, y, 2) == 255
        },
        (forall|i: int, j: int| -1 <= i <= 1 && -1 <= j <= 1 ==> #[trigger] alpha_of(p, w, x + i, y + j) == 0)
            ==> dilated(p, w, h, x, y, 3) == 0,
{
    let a = alpha_of(p, w, x + dx, y + dy);
    let m = neighbourhood_max(p, w, x, y);
    let own = alpha_of(p, w, x, y);
    assert(a <= m);
    assert(0 <= own <= 255 && 0 <= m <= 255);
    assert((6 * a) / 10 <= (m * 6 + own * 4) / 10) by (nonlinear_arith)
        requires
            0 <= a <= m,
            0 <= own,
    ;
    if forall|i: int, j: int| -1 <= i <= 1 && -1 <= j <= 1 ==> #[trigger] alpha_of(p, w, x + i, y + j) == 0 {
        assert(alpha_of(p, w, x + -1, y + -1) == 0);
        assert(alpha_of(p, w, x + 0, y + -1) == 0);
        assert(alpha_of(p, w, x + 1, y + -1) == 0);
        assert(alpha_of(p, w, x + -1, y + 0) == 0);
        assert(alpha_of(p, w, x + 0, y + 0) == 0);
        assert(alpha_of(p, w, x + 1, y + 0) == 0);
        assert(alpha_of(p, w, x + -1, y + 1) == 0);
        assert(alpha_of(p, w, x + 0, y + 1) == 0);
        assert(alpha_of(p, w, x + 1, y + 1) == 0);
    }
}

/// Dilation never thins a glyph: no pixel's alpha goes down, and the
/// border of the atlas is left as it was.
pub proof fn lemma_dilation_never_thins(p: Seq<u8>, w: int, h: int, x: int, y: int)
    requires
        0 <= x < w,
        0 <= y < h,
    ensures
        dilated(p, w, h, x, y, 3) >= alpha_of(p, w, x, y),
        !is_inner(w, h, x, y) ==> forall|c: int| 0 <= c < 4 ==> #[trigger] dilated(p, w, h, x, y, c) == p[px_index(w, x, y) + c],
{
    if is_inner(w, h, x, y) {
        let m = neighbourhood_max(p, w, x, y);
        let a = alpha_of(p, w, x, y);
        assert(0 <= a <= m <= 255);
        assert(a <= blend(m, a) <= 255);
    }
}

/// The characters of `chars` below `upto` whose glyph left ink in the
/// atlas (`inked`), in order.
pub open spec fn inked_chars(chars: Seq<char>, inked: Seq<bool>, upto: int) -> Seq<char>
    decreases upto,
{
    if upto <= 0 {
        seq![]
    } else if inked[upto - 1] {
        inked_chars(chars, inked, upto - 1).push(chars[upto - 1])
    } else {
        inked_chars(chars, inked, upto - 1)
    }
}

/// The characters whose glyph left ink in the atlas, in order: the ones the
/// rain can show.
pub fn chars_with_ink(chars: &Vec<char>, inked: &Vec<bool>) -> (kept: Vec<char>)
    requires
        chars@.len() == inked@.len(),
    ensures
        kept@ == inked_chars(chars@, inked@, chars@.len() as int),
{
    let mut kept: Vec<char> = Vec::new();
    let mut i: usize = 0;
    while i < chars.len()
        invariant
            i <= chars@.len(),
            chars@.len() == inked@.len(),
            kept@ == inked_chars(chars@, inked@, i as int),
        decreases chars@.len() - i,
    {
        if inked[i] {
            kept.push(chars[i]);
        }
        i = i + 1;
    }
    kept
}

} // verus!