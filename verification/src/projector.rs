//! The integer half of projection: from a splat's pixel footprint to the
//! block of tiles that it overlaps.

use vstd::prelude::*;
use vstd::arithmetic::div_mod::lemma_div_is_ordered;
use vstd::arithmetic::div_mod::lemma_div_plus_one;
use vstd::arithmetic::div_mod::lemma_div_pos_is_pos;
use crate::config::PipelineConfig;
use crate::config::ceil_div;
use crate::keys::depth_key;
use crate::keys::spec_depth_key;

verus! {

/// The pixels that a projected splat may touch: the inclusive bounding
/// rectangle of its center plus and minus its radius. `visible` is false for
/// a splat that projection has culled (behind the near plane, outside the
/// guard band, without opacity or without extent).
#[derive(Clone, Copy, Debug, PartialEq, Eq, Structural)]
pub struct Footprint {
    pub visible: bool,
    pub min_x: i64,
    pub min_y: i64,
    pub max_x: i64,
    pub max_y: i64,
}

/// A block of tiles, columns `min_tx..=max_tx` and rows `min_ty..=max_ty`,
/// with the number of tiles in it. A count of zero stands for no tile at all.
#[derive(Clone, Copy, Debug, PartialEq, Eq, Structural)]
pub struct TileBox {
    pub min_tx: u32,
    pub min_ty: u32,
    pub max_tx: u32,
    pub max_ty: u32,
    pub count: u32,
}

/// What the later passes need of a projected splat: its tile block and the
/// sortable key of its depth.
#[derive(Clone, Copy, Debug, PartialEq, Eq, Structural)]
pub struct Splat {
    pub tiles: TileBox,
    pub depth: u32,
}

impl Footprint {
    /// The footprint is visible, not empty, and shares a pixel with the screen.
    pub open spec fn on_screen(&self, config: &PipelineConfig) -> bool {
        &&& self.visible
        &&& self.min_x <= self.max_x
        &&& self.min_y <= self.max_y
        &&& self.max_x >= 0
        &&& self.max_y >= 0
        &&& self.min_x < config.width
        &&& self.min_y < config.height
    }

    /// The pixel lies in the footprint and on the screen.
    pub open spec fn touches(&self, config: &PipelineConfig, px: int, py: int) -> bool {
        &&& self.visible
        &&& self.min_x <= px <= self.max_x
        &&& self.min_y <= py <= self.max_y
        &&& 0 <= px < config.width
        &&& 0 <= py < config.height
    }
}

/// The lower of two numbers.
pub open spec fn lower(a: int, b: int) -> int {
    if a <= b {
        a
    } else {
        b
    }
}

/// The higher of two numbers.
pub open spec fn higher(a: int, b: int) -> int {
    if a >= b {
        a
    } else {
        b
    }
}

/// The tile block of a footprint: the footprint clamped to the screen and
/// divided by the tile size, or the empty block for a footprint off screen.
pub open spec fn spec_tile_box(config: &PipelineConfig, fp: &Footprint) -> TileBox {
    if !fp.on_screen(config) {
        TileBox { min_tx: 0, min_ty: 0, max_tx: 0, max_ty: 0, count: 0 }
    } else {
        let t = config.tile_size as int;
        let min_tx = higher(fp.min_x as int, 0) / t;
        let max_tx = lower(fp.max_x as int, config.width - 1) / t;
        let min_ty = higher(fp.min_y as int, 0) / t;
        let max_ty = lower(fp.max_y as int, config.height - 1) / t;
        TileBox {
            min_tx: min_tx as u32,
            min_ty: min_ty as u32,
            max_tx: max_tx as u32,
            max_ty: max_ty as u32,
            count: ((max_tx - min_tx + 1) * (max_ty - min_ty + 1)) as u32,
        }
    }
}

impl TileBox {
    /// Number of tile columns of the block.
    pub open spec fn spec_cols(&self) -> int {
        self.max_tx - self.min_tx + 1
    }

    /// Number of tile rows of the block.
    pub open spec fn spec_rows(&self) -> int {
        self.max_ty - self.min_ty + 1
    }

    /// The block lies in the tile grid, and its count is zero or the number
    /// of its tiles.
    pub open spec fn wf(&self, config: &PipelineConfig) -> bool {
        &&& self.min_tx <= self.max_tx < config.spec_tiles_x()
        &&& self.min_ty <= self.max_ty < config.spec_tiles_y()
        &&& (self.count == 0 || self.count == self.spec_cols() * self.spec_rows())
    }

    /// The tile in column `tx` and row `ty` belongs to the block.
    pub open spec fn holds(&self, tx: int, ty: int) -> bool {
        &&& self.count > 0
        &&& self.min_tx <= tx <= self.max_tx
        &&& self.min_ty <= ty <= self.max_ty
    }
}

/// A pixel coordinate on the screen falls into a tile of the grid, and tiles
/// keep the order of pixels.
proof fn lemma_pixel_tile(extent: int, t: int, lo: int, hi: int)
    requires
        t >= 1,
        0 <= lo <= hi < extent,
    ensures
        0 <= lo / t <= hi / t < ceil_div(extent, t),
        hi / t <= hi,
{
    lemma_div_is_ordered(lo, hi, t);
    lemma_div_is_ordered(hi, extent - 1, t);
    lemma_div_plus_one(extent - 1, t);
    lemma_div_pos_is_pos(lo, t);
    assert(hi / t <= hi) by (nonlinear_arith)
        requires
            hi >= 0,
            t >= 1,
    ;
}

/// The tile block of a well-formed configuration lies in its grid.
pub proof fn lemma_tile_box_wf(config: &PipelineConfig, fp: &Footprint)
    requires
        config.wf(),
    ensures
        spec_tile_box(config, fp).wf(config),
        spec_tile_box(config, fp).count == 0 <==> !fp.on_screen(config),
        fp.on_screen(config) ==> spec_tile_box(config, fp).count == spec_tile_box(
            config,
            fp,
        ).spec_cols() * spec_tile_box(config, fp).spec_rows(),
{
    config.lemma_grid_bounds();
    if fp.on_screen(config) {
        let t = config.tile_size as int;
        let lo_x = higher(fp.min_x as int, 0);
        let hi_x = lower(fp.max_x as int, config.width - 1);
        let lo_y = higher(fp.min_y as int, 0);
        let hi_y = lower(fp.max_y as int, config.height - 1);
        lemma_pixel_tile(config.width as int, t, lo_x, hi_x);
        lemma_pixel_tile(config.height as int, t, lo_y, hi_y);
        let cols = hi_x / t - lo_x / t + 1;
        let rows = hi_y / t - lo_y / t + 1;
        let gx = config.spec_tiles_x();
        let gy = config.spec_tiles_y();
        assert(1 <= cols * rows <= gx * gy) by (nonlinear_arith)
            requires
                1 <= cols <= gx,
                1 <= rows <= gy,
        ;
    }
}

/// The tile block that a footprint overlaps. A culled footprint, an empty one
/// and one that lies off screen get the empty block.
pub fn tile_box(config: &PipelineConfig, fp: &Footprint) -> (tb: TileBox)
    requires
        config.wf(),
    ensures
        tb == spec_tile_box(config, fp),
        tb.wf(config),
        tb.count == 0 <==> !fp.on_screen(config),
{
    proof {
        lemma_tile_box_wf(config, fp);
        config.lemma_grid_bounds();
    }
    if !fp.visible || fp.min_x > fp.max_x || fp.min_y > fp.max_y || fp.max_x < 0 || fp.max_y < 0
        || fp.min_x >= config.width as i64 || fp.min_y >= config.height as i64 {
        return TileBox { min_tx: 0, min_ty: 0, max_tx: 0, max_ty: 0, count: 0 };
    }
    let t: u64 = config.tile_size as u64;
    let lo_x: u64 = if fp.min_x < 0 {
        0
    } else {
        fp.min_x as u64
    };
    let lo_y: u64 = if fp.min_y < 0 {
        0
    } else {
        fp.min_y as u64
    };
    let hi_x: u64 = if fp.max_x > config.width as i64 - 1 {
        config.width as u64 - 1
    } else {
        fp.max_x as u64
    };
    let hi_y: u64 = if fp.max_y > config.height as i64 - 1 {
        config.height as u64 - 1
    } else {
        fp.max_y as u64
    };
    proof {
        lemma_pixel_tile(config.width as int, t as int, lo_x as int, hi_x as int);
        lemma_pixel_tile(config.height as int, t as int, lo_y as int, hi_y as int);
    }
    let min_tx: u64 = lo_x / t;
    let max_tx: u64 = hi_x / t;
    let min_ty: u64 = lo_y / t;
    let max_ty: u64 = hi_y / t;
    let cols: u64 = max_tx - min_tx + 1;
    let rows: u64 = max_ty - min_ty + 1;
    assert(cols * rows == spec_tile_box(config, fp).count);
    TileBox {
        min_tx: min_tx as u32,
        min_ty: min_ty as u32,
        max_tx: max_tx as u32,
        max_ty: max_ty as u32,
        count: (cols * rows) as u32,
    }
}

/// The splat of a footprint and a depth, the depth given by the bit pattern
/// of a single-precision number: its tile block and its depth key.
pub fn project(config: &PipelineConfig, fp: &Footprint, depth_bits: u32) -> (splat: Splat)
    requires
        config.wf(),
    ensures
        splat.tiles == spec_tile_box(config, fp),
        splat.depth == spec_depth_key(depth_bits),
        splat.tiles.wf(config),
        splat.tiles.count == 0 <==> !fp.on_screen(config),
{
    Splat { tiles: tile_box(config, fp), depth: depth_key(depth_bits) }
}

/// Culling: a footprint that is not visible, or that shares no pixel with the
/// screen, overlaps no tile.
pub proof fn lemma_culled_has_no_tiles(config: &PipelineConfig, fp: &Footprint)
    requires
        config.wf(),
        !fp.visible || fp.max_x < 0 || fp.max_y < 0 || fp.min_x >= config.width || fp.min_y
            >= config.height,
    ensures
        spec_tile_box(config, fp).count == 0,
        forall|tx: int, ty: int| !spec_tile_box(config, fp).holds(tx, ty),
{
}

/// Coverage: the tile of every pixel that the footprint touches on the screen
/// belongs to its tile block.
pub proof fn lemma_tile_box_covers(config: &PipelineConfig, fp: &Footprint, px: int, py: int)
    requires
        config.wf(),
        fp.touches(config, px, py),
    ensures
        spec_tile_box(config, fp).holds(px / (config.tile_size as int), py / (config.tile_size as int)),
{
    lemma_tile_box_wf(config, fp);
    let t = config.tile_size as int;
    let lo_x = higher(fp.min_x as int, 0);
    let hi_x = lower(fp.max_x as int, config.width - 1);
    let lo_y = higher(fp.min_y as int, 0);
    let hi_y = lower(fp.max_y as int, config.height - 1);
    lemma_div_is_ordered(lo_x, px, t);
    lemma_div_is_ordered(px, hi_x, t);
    lemma_div_is_ordered(lo_y, py, t);
    lemma_div_is_ordered(py, hi_y, t);
    lemma_pixel_tile(config.width as int, t, lo_x, hi_x);
    lemma_pixel_tile(config.height as int, t, lo_y, hi_y);
}

/// The first coordinate at or after `lo` that falls into block `b` of size
/// `t`, for a block between those of `lo` and `hi`.
proof fn lemma_block_has_coordinate(lo: int, hi: int, t: int, b: int) -> (p: int)
    requires
        t >= 1,
        0 <= lo <= hi,
        lo / t <= b <= hi / t,
    ensures
        lo <= p <= hi,
        p / t == b,
{
    vstd::arithmetic::div_mod::lemma_fundamental_div_mod(lo, t);
    vstd::arithmetic::div_mod::lemma_fundamental_div_mod(hi, t);
    if b == lo / t {
        lo
    } else {
        let p = b * t;
        assert(p > lo && p <= hi) by (nonlinear_arith)
            requires
                p == b * t,
                t >= 1,
                lo / t < b <= hi / t,
                lo == t * (lo / t) + lo % t,
                hi == t * (hi / t) + hi % t,
                0 <= lo % t < t,
                0 <= hi % t < t,
        ;
        vstd::arithmetic::div_mod::lemma_fundamental_div_mod_converse(p, t, b, 0);
        p
    }
}

/// Tightness: every tile of the tile block holds a pixel that the footprint
/// touches on the screen. The pixel is returned.
pub proof fn lemma_tile_box_tight(config: &PipelineConfig, fp: &Footprint, tx: int, ty: int) -> (pixel:
    (int, int))
    requires
        config.wf(),
        spec_tile_box(config, fp).holds(tx, ty),
    ensures
        fp.touches(config, pixel.0, pixel.1),
        pixel.0 / (config.tile_size as int) == tx,
        pixel.1 / (config.tile_size as int) == ty,
{
    lemma_tile_box_wf(config, fp);
    let t = config.tile_size as int;
    let lo_x = higher(fp.min_x as int, 0);
    let hi_x = lower(fp.max_x as int, config.width - 1);
    let lo_y = higher(fp.min_y as int, 0);
    let hi_y = lower(fp.max_y as int, config.height - 1);
    lemma_pixel_tile(config.width as int, t, lo_x, hi_x);
    lemma_pixel_tile(config.height as int, t, lo_y, hi_y);
    let px = lemma_block_has_coordinate(lo_x, hi_x, t, tx);
    let py = lemma_block_has_coordinate(lo_y, hi_y, t, ty);
    (px, py)
}

} // verus!
