//! Pipeline configuration and the tile grid derived from it.

use vstd::prelude::*;

verus! {

/// Edge length of a screen tile in pixels.
pub const TILE_SZ: u32 = 8;

/// Bytes of one projected splat record.
pub const SPLAT_SIZE: u64 = 64;

/// Default upper bound on the number of tile instances of one frame.
pub const NUM_SPLAT_CAP: u32 = 1200000;

/// Default number of work items in one work group.
pub const WG_SIZE: u32 = 64;

/// Bytes of one output pixel (four 32-bit channels).
pub const PIXEL_SIZE: u64 = 16;

/// 32-bit words reserved per tile in the range buffer.
pub const RANGE_WORDS_PER_TILE: u64 = 8;

/// Largest buffer the device is asked to allow, in bytes.
pub const MAX_BUFFER_SIZE: u64 = 2147483640;

/// The least number of blocks of `b` items that hold `a` items.
pub open spec fn ceil_div(a: int, b: int) -> int {
    (a + b - 1) / b
}

/// `ceil_div(a, b)` blocks hold `a` items, and one block fewer does not.
pub proof fn lemma_ceil_div_is_least(a: int, b: int)
    requires
        a >= 0,
        b >= 1,
    ensures
        ceil_div(a, b) * b >= a,
        (ceil_div(a, b) - 1) * b < a,
        0 <= ceil_div(a, b) <= a,
        a >= 1 ==> ceil_div(a, b) >= 1,
{
    let q = (a + b - 1) / b;
    let r = (a + b - 1) % b;
    assert(a + b - 1 == q * b + r && 0 <= r < b) by (nonlinear_arith)
        requires
            q == (a + b - 1) / b,
            r == (a + b - 1) % b,
            b >= 1,
    ;
    assert(q * b >= a);
    assert((q - 1) * b == q * b - b) by (nonlinear_arith);
    assert(q >= 0) by (nonlinear_arith)
        requires
            q * b >= a,
            a >= 0,
            b >= 1,
    ;
    assert(q <= a) by (nonlinear_arith)
        requires
            (q - 1) * b < a,
            a >= 0,
            b >= 1,
            q >= 0,
    ;
    assert(a >= 1 ==> q >= 1) by (nonlinear_arith)
        requires
            q * b >= a,
            b >= 1,
    ;
}

/// Why a configuration was turned down.
#[derive(Clone, Copy, Debug, PartialEq, Eq, Structural)]
pub enum ConfigError {
    /// Width or height is zero.
    EmptyScreen,
    /// The tile edge is zero.
    ZeroTileSize,
    /// The instance capacity is zero.
    ZeroCapacity,
    /// The work-group size is zero.
    ZeroWorkgroupSize,
    /// The tile grid has more tiles than a 32-bit tile id can name.
    TileGridTooLarge,
}

/// Resolution, tile size, instance capacity and work-group size of one pipeline.
#[derive(Clone, Copy, Debug, PartialEq, Eq, Structural)]
pub struct PipelineConfig {
    pub width: u32,
    pub height: u32,
    pub tile_size: u32,
    pub capacity: u32,
    pub workgroup_size: u32,
}

/// The verdict on five raw parameters: `None` when they form a valid
/// configuration, else the first rule they break.
pub open spec fn config_fault(
    width: u32,
    height: u32,
    tile_size: u32,
    capacity: u32,
    workgroup_size: u32,
) -> Option<ConfigError> {
    if width == 0 || height == 0 {
        Some(ConfigError::EmptyScreen)
    } else if tile_size == 0 {
        Some(ConfigError::ZeroTileSize)
    } else if capacity == 0 {
        Some(ConfigError::ZeroCapacity)
    } else if workgroup_size == 0 {
        Some(ConfigError::ZeroWorkgroupSize)
    } else if ceil_div(width as int, tile_size as int) * ceil_div(height as int, tile_size as int)
        > u32::MAX {
        Some(ConfigError::TileGridTooLarge)
    } else {
        None
    }
}

impl PipelineConfig {
    /// Number of tile columns: the columns of `tile_size` pixels that cover the width.
    pub open spec fn spec_tiles_x(&self) -> int {
        ceil_div(self.width as int, self.tile_size as int)
    }

    /// Number of tile rows.
    pub open spec fn spec_tiles_y(&self) -> int {
        ceil_div(self.height as int, self.tile_size as int)
    }

    /// Number of tiles of the screen.
    pub open spec fn spec_num_tiles(&self) -> int {
        self.spec_tiles_x() * self.spec_tiles_y()
    }

    /// A configuration is well formed when no rule of `config_fault` is broken.
    pub open spec fn wf(&self) -> bool {
        config_fault(self.width, self.height, self.tile_size, self.capacity, self.workgroup_size)
            is None
    }

    /// In a well-formed configuration the grid has at least one tile in each
    /// direction, no more columns than pixels, and a tile count that fits 32 bits.
    pub proof fn lemma_grid_bounds(&self)
        requires
            self.wf(),
        ensures
            1 <= self.spec_tiles_x() <= self.width,
            1 <= self.spec_tiles_y() <= self.height,
            1 <= self.spec_num_tiles() <= u32::MAX,
            self.spec_tiles_x() <= self.spec_num_tiles(),
            self.spec_tiles_y() <= self.spec_num_tiles(),
    {
        lemma_ceil_div_is_least(self.width as int, self.tile_size as int);
        lemma_ceil_div_is_least(self.height as int, self.tile_size as int);
        let x = self.spec_tiles_x();
        let y = self.spec_tiles_y();
        assert(x * y >= x && x * y >= y && x * y >= 1) by (nonlinear_arith)
            requires
                x >= 1,
                y >= 1,
        ;
    }

    /// A configuration with the given parameters, or the first rule they break.
    pub fn configure(
        width: u32,
        height: u32,
        tile_size: u32,
        capacity: u32,
        workgroup_size: u32,
    ) -> (res: Result<PipelineConfig, ConfigError>)
        ensures
            match res {
                Ok(c) => c.wf() && c.width == width && c.height == height && c.tile_size
                    == tile_size && c.capacity == capacity && c.workgroup_size == workgroup_size,
                Err(e) => config_fault(width, height, tile_size, capacity, workgroup_size)
                    == Some(e),
            },
    {
        if width == 0 || height == 0 {
            return Err(ConfigError::EmptyScreen);
        }
        if tile_size == 0 {
            return Err(ConfigError::ZeroTileSize);
        }
        if capacity == 0 {
            return Err(ConfigError::ZeroCapacity);
        }
        if workgroup_size == 0 {
            return Err(ConfigError::ZeroWorkgroupSize);
        }
        proof {
            lemma_ceil_div_is_least(width as int, tile_size as int);
            lemma_ceil_div_is_least(height as int, tile_size as int);
        }
        let tx: u64 = (width as u64 + tile_size as u64 - 1) / (tile_size as u64);
        let ty: u64 = (height as u64 + tile_size as u64 - 1) / (tile_size as u64);
        assert(tx * ty <= 0xffff_ffff * 0xffff_ffff) by (nonlinear_arith)
            requires
                0 <= tx <= 0xffff_ffff,
                0 <= ty <= 0xffff_ffff,
        ;
        if tx * ty > 0xffff_ffff {
            return Err(ConfigError::TileGridTooLarge);
        }
        Ok(PipelineConfig { width, height, tile_size, capacity, workgroup_size })
    }

    /// The configuration for a screen of the given size with the default tile
    /// size, capacity and work-group size.
    pub fn new(width: u32, height: u32) -> (res: Result<PipelineConfig, ConfigError>)
        ensures
            match res {
                Ok(c) => c.wf() && c.width == width && c.height == height && c.tile_size
                    == TILE_SZ && c.capacity == NUM_SPLAT_CAP && c.workgroup_size == WG_SIZE,
                Err(e) => config_fault(width, height, TILE_SZ, NUM_SPLAT_CAP, WG_SIZE) == Some(e),
            },
    {
        PipelineConfig::configure(width, height, TILE_SZ, NUM_SPLAT_CAP, WG_SIZE)
    }

    /// Number of tile columns.
    pub fn tiles_x(&self) -> (n: u32)
        requires
            self.wf(),
        ensures
            n == self.spec_tiles_x(),
            n >= 1,
    {
        proof {
            self.lemma_grid_bounds();
        }
        ((self.width as u64 + self.tile_size as u64 - 1) / (self.tile_size as u64)) as u32
    }

    /// Number of tile rows.
    pub fn tiles_y(&self) -> (n: u32)
        requires
            self.wf(),
        ensures
            n == self.spec_tiles_y(),
            n >= 1,
    {
        proof {
            self.lemma_grid_bounds();
        }
        ((self.height as u64 + self.tile_size as u64 - 1) / (self.tile_size as u64)) as u32
    }

    /// Number of tiles of the screen.
    pub fn num_tiles(&self) -> (n: u32)
        requires
            self.wf(),
        ensures
            n == self.spec_num_tiles(),
            n >= 1,
    {
        proof {
            self.lemma_grid_bounds();
        }
        let x: u32 = self.tiles_x();
        let y: u32 = self.tiles_y();
        ((x as u64) * (y as u64)) as u32
    }

    /// The row-major id of the tile in column `tx` and row `ty`.
    pub open spec fn spec_tile_id(&self, tx: int, ty: int) -> int {
        ty * self.spec_tiles_x() + tx
    }

    /// Distinct tiles of the grid have distinct ids, all below the tile count.
    pub proof fn lemma_tile_id_injective(&self, tx1: int, ty1: int, tx2: int, ty2: int)
        requires
            self.wf(),
            0 <= tx1 < self.spec_tiles_x(),
            0 <= tx2 < self.spec_tiles_x(),
            0 <= ty1 < self.spec_tiles_y(),
            0 <= ty2 < self.spec_tiles_y(),
        ensures
            0 <= self.spec_tile_id(tx1, ty1) < self.spec_num_tiles(),
            self.spec_tile_id(tx1, ty1) == self.spec_tile_id(tx2, ty2) ==> tx1 == tx2 && ty1
                == ty2,
    {
        let w = self.spec_tiles_x();
        let h = self.spec_tiles_y();
        assert(ty1 * w + tx1 < w * h && ty1 * w >= 0) by (nonlinear_arith)
            requires
                0 <= tx1 < w,
                0 <= ty1 < h,
        ;
        assert(ty1 * w + tx1 == ty2 * w + tx2 ==> ty1 == ty2) by (nonlinear_arith)
            requires
                0 <= tx1 < w,
                0 <= tx2 < w,
                0 <= ty1,
                0 <= ty2,
        ;
    }

    /// The row-major id of the tile in column `tx` and row `ty`.
    pub fn tile_id(&self, tx: u32, ty: u32) -> (id: u32)
        requires
            self.wf(),
            tx < self.spec_tiles_x(),
            ty < self.spec_tiles_y(),
        ensures
            id == self.spec_tile_id(tx as int, ty as int),
            id < self.spec_num_tiles(),
    {
        proof {
            self.lemma_grid_bounds();
            self.lemma_tile_id_injective(tx as int, ty as int, tx as int, ty as int);
            let w = self.spec_tiles_x();
            assert(ty * w >= 0) by (nonlinear_arith)
                requires
                    ty >= 0,
                    w >= 0,
            ;
        }
        let w: u32 = self.tiles_x();
        ((ty as u64) * (w as u64) + (tx as u64)) as u32
    }
}

} // verus!
