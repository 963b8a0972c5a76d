//! Terrain sampling and colour classification over raw pixel buffers.

use vstd::prelude::*;
use vstd::arithmetic::div_mod::lemma_div_is_ordered;
use vstd::arithmetic::mul::{lemma_mul_inequality, lemma_mul_is_distributive_add};

verus! {

/// Material code of water.
pub const WATER: u8 = 0;
/// Material code of sand.
pub const SAND: u8 = 1;
/// Material code of roads, structures and vegetation (the default).
pub const ROAD: u8 = 2;
/// Material code of rock and cliffs.
pub const ROCK: u8 = 3;

pub open spec fn max3(r: int, g: int, b: int) -> int {
    if r >= g && r >= b { r } else if g >= b { g } else { b }
}

pub open spec fn min3(r: int, g: int, b: int) -> int {
    if r <= g && r <= b { r } else if g <= b { g } else { b }
}

/// Blue clearly dominates: water.
pub open spec fn is_water_color(r: u8, g: u8, b: u8) -> bool {
    b > r && b > g && b - r > 12
}

/// Dark and nearly grey: rock or cliff.
pub open spec fn is_rock_color(r: u8, g: u8, b: u8) -> bool {
    max3(r as int, g as int, b as int) - min3(r as int, g as int, b as int) < 28 && r < 120
}

/// Bright and warm (red >= green >= blue): sand.
pub open spec fn is_sand_color(r: u8, g: u8, b: u8) -> bool {
    r > 150 && g > 120 && r >= g && g >= b
}

/// The material a map colour stands for; the tests are tried in the order
/// water, rock, sand, and anything else is road.
pub open spec fn color_material(r: u8, g: u8, b: u8) -> u8 {
    if is_water_color(r, g, b) {
        WATER
    } else if is_rock_color(r, g, b) {
        ROCK
    } else if is_sand_color(r, g, b) {
        SAND
    } else {
        ROAD
    }
}

/// Classify a map-pixel colour as a discrete material code
/// (0 water, 1 sand, 2 road, 3 rock).
pub fn material_code(r: u8, g: u8, b: u8) -> (code: u8)
    ensures
        code == color_material(r, g, b),
{
    let (r, g, b) = (r as i32, g as i32, b as i32);
    let mx = if r >= g && r >= b { r } else if g >= b { g } else { b };
    let mn = if r <= g && r <= b { r } else if g <= b { g } else { b };
    if b > r && b > g && b - r > 12 {
        WATER
    } else if mx - mn < 28 && r < 120 {
        ROCK
    } else if r > 150 && g > 120 && r >= g && g >= b {
        SAND
    } else {
        ROAD
    }
}


/// The nearest source pixel for grid coordinate `g` of `gn` grid points over
/// `n` source pixels: `min(n - 1, floor(g * (n - 1) / (gn - 1)))`, and 0 when
/// the grid has a single point or none.
pub open spec fn spec_src_index(g: int, gn: int, n: int) -> int {
    if gn <= 1 {
        0
    } else if g * (n - 1) / (gn - 1) < n - 1 {
        g * (n - 1) / (gn - 1)
    } else {
        n - 1
    }
}

/// Law: the grid spans the whole image: its first point samples the first
/// pixel and its last point the last pixel.
pub proof fn lemma_src_index_spans_image(gn: int, n: int)
    requires
        gn > 1,
        n >= 1,
    ensures
        spec_src_index(0, gn, n) == 0,
        spec_src_index(gn - 1, gn, n) == n - 1,
{
    assert((gn - 1) * (n - 1) / (gn - 1) == n - 1) by (nonlinear_arith)
        requires
            gn > 1,
            n >= 1,
    ;
}

/// Law: resampling picks the nearest pixel at or before the grid point's
/// exact position: for a grid of `gn > 1` points over `n >= 1` pixels, grid
/// point `g` lands on pixel `p` with `p / (n - 1) <= g / (gn - 1) < (p + 1) / (n - 1)`,
/// or on the last pixel once its position reaches it.
pub proof fn lemma_src_index_is_floor(g: int, gn: int, n: int)
    requires
        gn > 1,
        n >= 1,
        0 <= g,
    ensures
        ({
            let p = spec_src_index(g, gn, n);
            &&& 0 <= p <= n - 1
            &&& (gn - 1) * p <= g * (n - 1)
            &&& (p < n - 1 ==> g * (n - 1) < (gn - 1) * (p + 1))
        }),
{
    let x = g * (n - 1);
    let d = gn - 1;
    assert(g * (n - 1) >= 0) by (nonlinear_arith)
        requires
            g >= 0,
            n >= 1,
    ;
    vstd::arithmetic::div_mod::lemma_fundamental_div_mod(x, d);
    vstd::arithmetic::div_mod::lemma_mod_bound(x, d);
    let q = x / d;
    assert(x == d * q + x % d);
    assert(q >= 0) by {
        lemma_div_is_ordered(0, x, d);
    }
    if q < n - 1 {
        assert((gn - 1) * (q + 1) == (gn - 1) * q + (gn - 1)) by (nonlinear_arith);
    } else {
        assert((gn - 1) * (n - 1) <= (gn - 1) * q) by (nonlinear_arith)
            requires
                q >= n - 1,
                gn - 1 > 0,
        ;
    }
}

proof fn lemma_product_fits(a: usize, b: usize)
    ensures
        0 <= (a as int) * (b as int) <= u128::MAX,
{
    assert(0 <= (a as int) * (b as int) <= (usize::MAX as int) * (usize::MAX as int)) by (nonlinear_arith)
        requires
            0 <= a <= usize::MAX,
            0 <= b <= usize::MAX,
    ;
}

/// Nearest-pixel image-to-grid index: grid point `g` of `gn` maps to source
/// pixel `floor(g / (gn - 1) * (n - 1))`, clamped to the last pixel.
pub fn src_index(g: usize, gn: usize, n: usize) -> (p: usize)
    requires
        gn <= 1 || n >= 1,
    ensures
        p == spec_src_index(g as int, gn as int, n as int),
        gn > 1 ==> p < n,
        gn > 1 ==> (gn - 1) * p <= g * (n - 1),
        gn > 1 && p < n - 1 ==> g * (n - 1) < (gn - 1) * (p + 1),
{
    proof {
        if gn > 1 {
            lemma_src_index_is_floor(g as int, gn as int, n as int);
        }
    }
    if gn <= 1 {
        return 0;
    }
    let last = n - 1;
    proof {
        lemma_product_fits(g, last);
    }
    let q = (g as u128) * (last as u128) / ((gn - 1) as u128);
    if q < last as u128 {
        q as usize
    } else {
        last
    }
}


/// Law: rock means dark and nearly grey. A colour with red at or above 120
/// is never rock, and a rock colour has channels within 28 of each other.
pub proof fn lemma_rock_is_dark_grey(r: u8, g: u8, b: u8)
    ensures
        r >= 120 ==> color_material(r, g, b) != ROCK,
        color_material(r, g, b) == ROCK ==> {
            &&& r < 120
            &&& (r as int) - (g as int) < 28 && (g as int) - (r as int) < 28
            &&& (r as int) - (b as int) < 28 && (b as int) - (r as int) < 28
            &&& (g as int) - (b as int) < 28 && (b as int) - (g as int) < 28
        },
{
}

/// Law: pure greys classify by brightness: dark greys (below 120) are rock,
/// mid greys (120 to 150) are road, light greys (above 150) are sand.
pub proof fn lemma_greys_by_brightness(v: u8)
    ensures
        v < 120 ==> color_material(v, v, v) == ROCK,
        120 <= v <= 150 ==> color_material(v, v, v) == ROAD,
        v > 150 ==> color_material(v, v, v) == SAND,
{
}

/// Law: a colour whose blue exceeds both red and green, and red by more than
/// 12, is water; no other colour is.
pub proof fn lemma_water_is_blue(r: u8, g: u8, b: u8)
    ensures
        color_material(r, g, b) == WATER <==> (b > r && b > g && b > r + 12),
{
}

/// A decoded pixel buffer: `data` is row-major with `channels` bytes per pixel.
pub struct PixelBuf<'a> {
    pub data: &'a [u8],
    pub w: usize,
    pub h: usize,
    pub channels: usize,
}

/// Position of cell `(gx, gy)` in a row-major grid `gw` cells wide.
pub open spec fn grid_index(gw: int, gx: int, gy: int) -> int {
    gy * gw + gx
}

/// Index (in pixels) of the source pixel that grid cell `(gx, gy)` of a
/// `gw x gh` grid samples.
pub open spec fn pixel_index(src: &PixelBuf, gw: int, gh: int, gx: int, gy: int) -> int {
    spec_src_index(gy, gh, src.h as int) * src.w + spec_src_index(gx, gw, src.w as int)
}

/// Byte offset in `src.data` of the pixel that grid cell `(gx, gy)` samples.
pub open spec fn pixel_offset(src: &PixelBuf, gw: int, gh: int, gx: int, gy: int) -> int {
    pixel_index(src, gw, gh, gx, gy) * src.channels
}

/// Sampling a `gw x gh` grid reads `k` bytes at every cell's pixel offset. This
/// holds when the grid's cell count fits a `usize`, the source has a pixel to
/// map to along each axis the grid spans, and the last cell (whose pixel is the
/// furthest one) has an index that fits a `usize` and a read that ends inside
/// `data`.
pub open spec fn samples_in_bounds(src: &PixelBuf, gw: int, gh: int, k: int) -> bool {
    &&& gw * gh <= usize::MAX
    &&& gw * gh > 0 ==> {
        &&& (gw > 1 ==> src.w >= 1)
        &&& (gh > 1 ==> src.h >= 1)
        &&& pixel_index(src, gw, gh, gw - 1, gh - 1) <= usize::MAX
        &&& pixel_offset(src, gw, gh, gw - 1, gh - 1) + k <= src.data@.len()
    }
}

/// The material of the colour that cell `(gx, gy)` samples (first three channels).
pub open spec fn cell_material(src: &PixelBuf, gw: int, gh: int, gx: int, gy: int) -> u8 {
    let i = pixel_offset(src, gw, gh, gx, gy);
    color_material(src.data@[i], src.data@[i + 1], src.data@[i + 2])
}

/// The first-channel byte that cell `(gx, gy)` samples.
pub open spec fn cell_luma(src: &PixelBuf, gw: int, gh: int, gx: int, gy: int) -> u8 {
    src.data@[pixel_offset(src, gw, gh, gx, gy)]
}

/// Law: resampling keeps order: a later grid point never maps to an earlier
/// source pixel, and every grid point maps to a pixel of the image.
pub proof fn lemma_src_index_mono(g1: int, g2: int, gn: int, n: int)
    requires
        0 <= g1 <= g2,
        gn > 1,
        n >= 1,
    ensures
        0 <= spec_src_index(g1, gn, n) <= spec_src_index(g2, gn, n) <= n - 1,
{
    lemma_mul_inequality(g1, g2, n - 1);
    lemma_div_is_ordered(g1 * (n - 1), g2 * (n - 1), gn - 1);
    lemma_mul_inequality(0, g1, n - 1);
    lemma_div_is_ordered(0, g1 * (n - 1), gn - 1);
}

proof fn lemma_offset_bound(src: &PixelBuf, gw: int, gh: int, gx: int, gy: int)
    requires
        0 <= gx < gw,
        0 <= gy < gh,
        gw > 1 ==> src.w >= 1,
        gh > 1 ==> src.h >= 1,
    ensures
        0 <= spec_src_index(gy, gh, src.h as int) * src.w <= pixel_index(src, gw, gh, gx, gy),
        pixel_index(src, gw, gh, gx, gy) <= pixel_index(src, gw, gh, gw - 1, gh - 1),
        0 <= pixel_offset(src, gw, gh, gx, gy) <= pixel_offset(src, gw, gh, gw - 1, gh - 1),
{
    let px = spec_src_index(gx, gw, src.w as int);
    let pxm = spec_src_index(gw - 1, gw, src.w as int);
    let py = spec_src_index(gy, gh, src.h as int);
    let pym = spec_src_index(gh - 1, gh, src.h as int);
    if gw > 1 {
        lemma_src_index_mono(gx, gw - 1, gw, src.w as int);
    }
    if gh > 1 {
        lemma_src_index_mono(gy, gh - 1, gh, src.h as int);
    }
    assert(0 <= px <= pxm);
    assert(0 <= py <= pym);
    lemma_mul_inequality(py, pym, src.w as int);
    lemma_mul_inequality(0, py, src.w as int);
    lemma_mul_inequality(py * src.w + px, pym * src.w + pxm, src.channels as int);
    lemma_mul_inequality(0, py * src.w + px, src.channels as int);
}

/// Byte offset of the pixel that cell `(gx, gy)` samples.
fn pixel_at(src: &PixelBuf, gw: usize, gh: usize, gx: usize, gy: usize, Ghost(k): Ghost<int>) -> (i: usize)
    requires
        samples_in_bounds(src, gw as int, gh as int, k),
        k >= 1,
        gx < gw,
        gy < gh,
    ensures
        i == pixel_offset(src, gw as int, gh as int, gx as int, gy as int),
        i + k <= src.data@.len(),
{
    proof {
        lemma_mul_inequality(1, gw as int, gh as int);
        lemma_offset_bound(src, gw as int, gh as int, gx as int, gy as int);
    }
    let py = src_index(gy, gh, src.h);
    let px = src_index(gx, gw, src.w);
    assert(gw as int * gh as int > 0);
    proof {
        broadcast use vstd::slice::axiom_spec_len;
        assert(vstd::slice::spec_slice_len(src.data) == src.data@.len());
    }
    let row = py * src.w;
    let pix = row + px;
    pix * src.channels
}


/// Whether sampling a `gw x gh` grid over `src`, reading `k` bytes per cell,
/// stays in bounds (see `samples_in_bounds`): the check a caller makes before
/// `classify_material` (`k` = 3) or `sample_luma` (`k` = 1).
pub fn fits_samples(src: &PixelBuf, gw: usize, gh: usize, k: usize) -> (b: bool)
    ensures
        b == samples_in_bounds(src, gw as int, gh as int, k as int),
{
    let len = src.data.len();
    proof {
        broadcast use vstd::slice::axiom_spec_len;
        assert(len == src.data@.len());
    }
    let cells = gw.checked_mul(gh);
    match cells {
        None => {
            return false;
        },
        Some(0) => {
            return true;
        },
        Some(_) => {},
    }
    proof {
        lemma_mul_inequality(1, gw as int, gh as int);
        assert(gw as int * gh as int > 0);
        if gw == 0 || gh == 0 {
            assert(gw as int * gh as int == 0) by (nonlinear_arith) requires gw == 0 || gh == 0;
        }
    }
    if gw > 1 && src.w == 0 {
        return false;
    }
    if gh > 1 && src.h == 0 {
        return false;
    }
    let py = src_index(gh - 1, gh, src.h);
    let px = src_index(gw - 1, gw, src.w);
    let row = match py.checked_mul(src.w) {
        Some(v) => v,
        None => {
            return false;
        },
    };
    let pix = match row.checked_add(px) {
        Some(v) => v,
        None => {
            return false;
        },
    };
    let off = match pix.checked_mul(src.channels) {
        Some(v) => v,
        None => {
            proof {
                assert(pix as int * src.channels as int + k > len);
            }
            return false;
        },
    };
    match off.checked_add(k) {
        Some(end) => end <= len,
        None => false,
    }
}

proof fn lemma_next_row(gw: int, gy: int, gh: int)
    requires
        0 <= gy < gh,
        0 <= gw,
    ensures
        gy * gw + gw == (gy + 1) * gw,
        (gy + 1) * gw <= gh * gw,
        gh * gw == gw * gh,
        0 <= gy * gw,
{
    assert(gy * gw + gw == (gy + 1) * gw) by (nonlinear_arith);
    assert(gh * gw == gw * gh) by (nonlinear_arith);
    lemma_mul_inequality(gy + 1, gh, gw);
    lemma_mul_inequality(0, gy, gw);
}

/// Classify each cell of a `gw x gh` grid laid over the texture `src` into a
/// material code (0 water, 1 sand, 2 road, 3 rock), row-major: cell `(gx, gy)`
/// gets the material of its nearest source pixel's colour.
pub fn classify_material(src: &PixelBuf, gw: usize, gh: usize) -> (mat: Vec<u8>)
    requires
        samples_in_bounds(src, gw as int, gh as int, 3),
    ensures
        mat@.len() == gw * gh,
        forall|gx: int, gy: int|
            0 <= gx < gw && 0 <= gy < gh ==> #[trigger] mat@[grid_index(gw as int, gx, gy)]
                == cell_material(src, gw as int, gh as int, gx, gy),
{
    let mut mat: Vec<u8> = Vec::new();
    let mut gy: usize = 0;
    while gy < gh
        invariant
            samples_in_bounds(src, gw as int, gh as int, 3),
            gy <= gh,
            mat@.len() == gy * gw,
            forall|gx: int, y: int|
                0 <= gx < gw && 0 <= y < gy ==> #[trigger] mat@[grid_index(gw as int, gx, y)]
                    == cell_material(src, gw as int, gh as int, gx, y),
        decreases gh - gy,
    {
        proof {
            lemma_next_row(gw as int, gy as int, gh as int);
        }
        let mut gx: usize = 0;
        while gx < gw
            invariant
                samples_in_bounds(src, gw as int, gh as int, 3),
                gy < gh,
                gx <= gw,
                0 <= gy * gw,
                mat@.len() == gy * gw + gx,
                forall|x: int, y: int|
                    0 <= x < gw && 0 <= y < gh && (y < gy || (y == gy && x < gx))
                        ==> #[trigger] mat@[grid_index(gw as int, x, y)]
                        == cell_material(src, gw as int, gh as int, x, y),
            decreases gw - gx,
        {
            let i = pixel_at(src, gw, gh, gx, gy, Ghost(3));
            let code = material_code(src.data[i], src.data[i + 1], src.data[i + 2]);
            proof {
                assert forall|x: int, y: int|
                    0 <= x < gw && 0 <= y < gh && (y < gy || (y == gy && x < gx))
                    implies grid_index(gw as int, x, y) < mat@.len() by {
                    if y < gy {
                        lemma_mul_inequality(y + 1, gy as int, gw as int);
                        lemma_mul_is_distributive_add(gw as int, y, 1);
                    }
                }
            }
            mat.push(code);
            gx = gx + 1;
        }
        gy = gy + 1;
    }
    proof {
        if gh > 0 {
            lemma_next_row(gw as int, (gh - 1) as int, gh as int);
        } else {
            assert(gw as int * gh as int == 0) by (nonlinear_arith) requires gh == 0;
        }
    }
    mat
}

/// Resample the first channel of `src` (a luminance heightmap) onto a
/// `gw x gh` grid, row-major: cell `(gx, gy)` gets the byte of its nearest
/// source pixel. Scaled by 1/255 this is the relief-free height in `0..1`.
pub fn sample_luma(src: &PixelBuf, gw: usize, gh: usize) -> (luma: Vec<u8>)
    requires
        samples_in_bounds(src, gw as int, gh as int, 1),
    ensures
        luma@.len() == gw * gh,
        forall|gx: int, gy: int|
            0 <= gx < gw && 0 <= gy < gh ==> #[trigger] luma@[grid_index(gw as int, gx, gy)]
                == cell_luma(src, gw as int, gh as int, gx, gy),
{
    let mut luma: Vec<u8> = Vec::new();
    let mut gy: usize = 0;
    while gy < gh
        invariant
            samples_in_bounds(src, gw as int, gh as int, 1),
            gy <= gh,
            luma@.len() == gy * gw,
            forall|gx: int, y: int|
                0 <= gx < gw && 0 <= y < gy ==> #[trigger] luma@[grid_index(gw as int, gx, y)]
                    == cell_luma(src, gw as int, gh as int, gx, y),
        decreases gh - gy,
    {
        proof {
            lemma_next_row(gw as int, gy as int, gh as int);
        }
        let mut gx: usize = 0;
        while gx < gw
            invariant
                samples_in_bounds(src, gw as int, gh as int, 1),
                gy < gh,
                gx <= gw,
                0 <= gy * gw,
                luma@.len() == gy * gw + gx,
                forall|x: int, y: int|
                    0 <= x < gw && 0 <= y < gh && (y < gy || (y == gy && x < gx))
                        ==> #[trigger] luma@[grid_index(gw as int, x, y)]
                        == cell_luma(src, gw as int, gh as int, x, y),
            decreases gw - gx,
        {
            let i = pixel_at(src, gw, gh, gx, gy, Ghost(1));
            let code = src.data[i];
            proof {
                assert forall|x: int, y: int|
                    0 <= x < gw && 0 <= y < gh && (y < gy || (y == gy && x < gx))
                    implies grid_index(gw as int, x, y) < luma@.len() by {
                    if y < gy {
                        lemma_mul_inequality(y + 1, gy as int, gw as int);
                        lemma_mul_is_distributive_add(gw as int, y, 1);
                    }
                }
            }
            luma.push(code);
            gx = gx + 1;
        }
        gy = gy + 1;
    }
    proof {
        if gh > 0 {
            lemma_next_row(gw as int, (gh - 1) as int, gh as int);
        } else {
            assert(gw as int * gh as int == 0) by (nonlinear_arith) requires gh == 0;
        }
    }
    luma
}

/// How `bake` fills the height grid before blurring it.
#[derive(Clone, Copy, Debug, PartialEq, Eq, Structural)]
pub enum HeightSource {
    /// Sample the luminance heightmap.
    Luminance,
    /// Infer relief from the texture colours.
    TextureColor,
    /// No source at all: a flat grid of zeros.
    Flat,
}

/// The integer decisions of a bake: grid size, where heights come from and how
/// many blur passes smooth them.
#[derive(Clone, Copy, Debug)]
pub struct BakePlan {
    /// grid width: `seg_x + 1`
    pub gw: usize,
    /// grid height: `seg_y + 1`
    pub gh: usize,
    pub heights: HeightSource,
    /// 3 passes for a real heightmap (anti-aliasing only), 8 for the colour
    /// fallback (heavy smoothing of speckled rock).
    pub blur_passes: usize,
}

/// Plan a bake of `seg_x x seg_y` plane subdivisions. Relief comes from the
/// heightmap when there is one, else from the texture colours, else is flat;
/// whenever there is no heightmap the grid is smoothed as a colour fallback.
pub fn plan_bake(seg_x: usize, seg_y: usize, has_height: bool, has_texture: bool) -> (plan: BakePlan)
    requires
        seg_x < usize::MAX,
        seg_y < usize::MAX,
    ensures
        plan.gw == seg_x + 1,
        plan.gh == seg_y + 1,
        plan.heights == (if has_height {
            HeightSource::Luminance
        } else if has_texture {
            HeightSource::TextureColor
        } else {
            HeightSource::Flat
        }),
        plan.blur_passes == (if has_height { 3usize } else { 8usize }),
{
    let heights = if has_height {
        HeightSource::Luminance
    } else if has_texture {
        HeightSource::TextureColor
    } else {
        HeightSource::Flat
    };
    BakePlan { gw: seg_x + 1, gh: seg_y + 1, heights, blur_passes: if has_height { 3 } else { 8 } }
}

/// The material layer of a bake: the texture classified cell by cell, or all
/// road when there is no texture.
pub fn bake_material(texture: Option<&PixelBuf>, gw: usize, gh: usize) -> (mat: Vec<u8>)
    requires
        gw * gh <= usize::MAX,
        texture matches Some(t) ==> samples_in_bounds(t, gw as int, gh as int, 3),
    ensures
        mat@.len() == gw * gh,
        forall|gx: int, gy: int|
            0 <= gx < gw && 0 <= gy < gh ==> #[trigger] mat@[grid_index(gw as int, gx, gy)]
                == match texture {
                Some(t) => cell_material(t, gw as int, gh as int, gx, gy),
                None => ROAD,
            },
{
    match texture {
        Some(t) => classify_material(t, gw, gh),
        None => {
            let mat = vec![ROAD; gw * gh];
            proof {
                assert forall|gx: int, gy: int| 0 <= gx < gw && 0 <= gy < gh implies
                    0 <= #[trigger] grid_index(gw as int, gx, gy) < gw * gh by {
                    lemma_next_row(gw as int, gy, gh as int);
                }
            }
            mat
        }
    }
}

} // verus!
