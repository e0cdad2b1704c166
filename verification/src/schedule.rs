//! Frame planning: buffer sizes, the order of the passes, the size of each
//! dispatch, and the verdict on the instance total that the device reports.

use vstd::prelude::*;
use crate::config::MAX_BUFFER_SIZE;
use crate::config::PIXEL_SIZE;
use crate::config::PipelineConfig;
use crate::config::RANGE_WORDS_PER_TILE;
use crate::config::SPLAT_SIZE;
use crate::config::ceil_div;
use crate::config::lemma_ceil_div_is_least;

verus! {

/// The passes of one frame.
#[derive(Clone, Copy, Debug, PartialEq, Eq, Structural)]
pub enum Pass {
    /// Projects every Gaussian to a splat and counts its tiles.
    Preprocess,
    /// Scans the tile counts inside each group.
    PrefixSum,
    /// Scans the group totals and writes the instance total.
    FinishPrefixSum,
    /// Writes one key and value per splat and tile.
    CopyKeyValue,
    /// Sorts the instances by key.
    Sort,
    /// Finds the range of every tile.
    Range,
    /// Composites the instances of every tile.
    Rasterize,
    /// Draws the output buffer to the surface.
    Present,
}

/// How much work a pass is launched with.
#[derive(Clone, Copy, Debug, PartialEq, Eq, Structural)]
pub enum Dispatch {
    /// A grid of work groups whose size the host knows.
    Groups { x: u32, y: u32, z: u32 },
    /// A launch whose size the device reads from the instance total.
    Indirect,
    /// A draw of `vertices` vertices, `instances` times.
    Draw { vertices: u32, instances: u32 },
}

/// The place of a pass in the frame.
pub open spec fn pass_rank(pass: Pass) -> int {
    match pass {
        Pass::Preprocess => 0,
        Pass::PrefixSum => 1,
        Pass::FinishPrefixSum => 2,
        Pass::CopyKeyValue => 3,
        Pass::Sort => 4,
        Pass::Range => 5,
        Pass::Rasterize => 6,
        Pass::Present => 7,
    }
}

/// The pass that a frame starts with.
pub fn first_pass() -> (pass: Pass)
    ensures
        pass_rank(pass) == 0,
{
    Pass::Preprocess
}

/// The pass that follows `pass`, or `None` after the last one.
pub fn next_pass(pass: Pass) -> (next: Option<Pass>)
    ensures
        match next {
            Some(q) => pass_rank(q) == pass_rank(pass) + 1,
            None => pass_rank(pass) == 7,
        },
{
    match pass {
        Pass::Preprocess => Some(Pass::PrefixSum),
        Pass::PrefixSum => Some(Pass::FinishPrefixSum),
        Pass::FinishPrefixSum => Some(Pass::CopyKeyValue),
        Pass::CopyKeyValue => Some(Pass::Sort),
        Pass::Sort => Some(Pass::Range),
        Pass::Range => Some(Pass::Rasterize),
        Pass::Rasterize => Some(Pass::Present),
        Pass::Present => None,
    }
}

/// A pass is determined by its place: the passes form one strict sequence.
pub proof fn lemma_pass_rank_injective(p: Pass, q: Pass)
    ensures
        0 <= pass_rank(p) <= 7,
        pass_rank(p) == pass_rank(q) ==> p == q,
{
}

/// The buffer sizes and dispatch sizes of one frame.
#[derive(Clone, Copy, Debug, PartialEq, Eq, Structural)]
pub struct FramePlan {
    /// Number of Gaussians of the scene.
    pub num_gaussian: u64,
    /// Bytes of the splat buffer.
    pub splat_buffer_bytes: u64,
    /// Bytes of the buffer of write offsets.
    pub prefix_sum_buffer_bytes: u64,
    /// Bytes of the output buffer.
    pub output_buffer_bytes: u64,
    /// 32-bit words of the range buffer.
    pub range_buffer_words: u64,
    /// Work groups with one item per Gaussian.
    pub splat_groups: u32,
    /// Work groups of the scan, each over two work groups' worth of counts.
    pub scan_groups: u32,
    /// Columns of the tile grid.
    pub tiles_x: u32,
    /// Rows of the tile grid.
    pub tiles_y: u32,
}

/// A buffer of the frame would be larger than the device allows.
#[derive(Clone, Copy, Debug, PartialEq, Eq, Structural)]
pub enum PlanError {
    /// The splat buffer.
    SplatBufferTooLarge,
    /// The output buffer.
    OutputBufferTooLarge,
    /// The range buffer.
    RangeBufferTooLarge,
}

/// The first buffer that is over the limit, if any.
pub open spec fn plan_fault(config: &PipelineConfig, num_gaussian: u64) -> Option<PlanError> {
    if num_gaussian * SPLAT_SIZE > MAX_BUFFER_SIZE {
        Some(PlanError::SplatBufferTooLarge)
    } else if config.width * config.height * PIXEL_SIZE > MAX_BUFFER_SIZE {
        Some(PlanError::OutputBufferTooLarge)
    } else if config.spec_num_tiles() * RANGE_WORDS_PER_TILE * 4 > MAX_BUFFER_SIZE {
        Some(PlanError::RangeBufferTooLarge)
    } else {
        None
    }
}

/// The plan of a frame with `num_gaussian` Gaussians.
pub open spec fn spec_plan(config: &PipelineConfig, num_gaussian: u64) -> FramePlan {
    FramePlan {
        num_gaussian,
        splat_buffer_bytes: (num_gaussian * SPLAT_SIZE) as u64,
        prefix_sum_buffer_bytes: (num_gaussian * 4) as u64,
        output_buffer_bytes: (config.width * config.height * PIXEL_SIZE) as u64,
        range_buffer_words: (config.spec_num_tiles() * RANGE_WORDS_PER_TILE) as u64,
        splat_groups: ceil_div(num_gaussian as int, config.workgroup_size as int) as u32,
        scan_groups: ceil_div(num_gaussian as int, 2 * config.workgroup_size) as u32,
        tiles_x: config.spec_tiles_x() as u32,
        tiles_y: config.spec_tiles_y() as u32,
    }
}

/// Sizes the buffers and dispatches of a frame, or names the first buffer
/// that the device limit does not allow.
pub fn plan_frame(config: &PipelineConfig, num_gaussian: u64) -> (res: Result<FramePlan, PlanError>)
    requires
        config.wf(),
    ensures
        match res {
            Ok(plan) => plan_fault(config, num_gaussian) is None && plan == spec_plan(
                config,
                num_gaussian,
            ),
            Err(e) => plan_fault(config, num_gaussian) == Some(e),
        },
{
    proof {
        config.lemma_grid_bounds();
    }
    if num_gaussian > MAX_BUFFER_SIZE / SPLAT_SIZE {
        return Err(PlanError::SplatBufferTooLarge);
    }
    assert(config.width * config.height <= 0xffff_ffff * 0xffff_ffff) by (nonlinear_arith)
        requires
            config.width <= 0xffff_ffff,
            config.height <= 0xffff_ffff,
    ;
    let pixels: u64 = (config.width as u64) * (config.height as u64);
    if pixels > MAX_BUFFER_SIZE / PIXEL_SIZE {
        return Err(PlanError::OutputBufferTooLarge);
    }
    let tiles: u64 = config.num_tiles() as u64;
    if tiles > MAX_BUFFER_SIZE / (RANGE_WORDS_PER_TILE * 4) {
        return Err(PlanError::RangeBufferTooLarge);
    }
    let wg: u64 = config.workgroup_size as u64;
    proof {
        lemma_ceil_div_is_least(num_gaussian as int, wg as int);
        lemma_ceil_div_is_least(num_gaussian as int, 2 * wg);
    }
    let splat_groups: u64 = (num_gaussian + wg - 1) / wg;
    let scan_groups: u64 = (num_gaussian + 2 * wg - 1) / (2 * wg);
    Ok(
        FramePlan {
            num_gaussian,
            splat_buffer_bytes: num_gaussian * SPLAT_SIZE,
            prefix_sum_buffer_bytes: num_gaussian * 4,
            output_buffer_bytes: pixels * PIXEL_SIZE,
            range_buffer_words: tiles * RANGE_WORDS_PER_TILE,
            splat_groups: splat_groups as u32,
            scan_groups: scan_groups as u32,
            tiles_x: config.tiles_x(),
            tiles_y: config.tiles_y(),
        },
    )
}

/// The launch of each pass under a plan.
pub open spec fn spec_dispatch(plan: &FramePlan, pass: Pass) -> Dispatch {
    match pass {
        Pass::Preprocess => Dispatch::Groups { x: plan.splat_groups, y: 1, z: 1 },
        Pass::PrefixSum => Dispatch::Groups { x: plan.scan_groups, y: 1, z: 1 },
        Pass::FinishPrefixSum => Dispatch::Groups { x: 1, y: 1, z: 1 },
        Pass::CopyKeyValue => Dispatch::Groups { x: plan.splat_groups, y: 1, z: 1 },
        Pass::Sort => Dispatch::Indirect,
        Pass::Range => Dispatch::Groups { x: plan.tiles_x, y: plan.tiles_y, z: 1 },
        Pass::Rasterize => Dispatch::Groups { x: plan.tiles_x, y: plan.tiles_y, z: 1 },
        Pass::Present => Dispatch::Draw { vertices: 6, instances: 1 },
    }
}

/// The launch of a pass: per Gaussian for projection and scatter, per pair of
/// work groups for the scan, one group for the final scan, sized by the
/// device for the sort, and one group per tile for ranges and compositing.
pub fn dispatch_for(plan: &FramePlan, pass: Pass) -> (d: Dispatch)
    ensures
        d == spec_dispatch(plan, pass),
{
    match pass {
        Pass::Preprocess => Dispatch::Groups { x: plan.splat_groups, y: 1, z: 1 },
        Pass::PrefixSum => Dispatch::Groups { x: plan.scan_groups, y: 1, z: 1 },
        Pass::FinishPrefixSum => Dispatch::Groups { x: 1, y: 1, z: 1 },
        Pass::CopyKeyValue => Dispatch::Groups { x: plan.splat_groups, y: 1, z: 1 },
        Pass::Sort => Dispatch::Indirect,
        Pass::Range => Dispatch::Groups { x: plan.tiles_x, y: plan.tiles_y, z: 1 },
        Pass::Rasterize => Dispatch::Groups { x: plan.tiles_x, y: plan.tiles_y, z: 1 },
        Pass::Present => Dispatch::Draw { vertices: 6, instances: 1 },
    }
}

/// The groups of a planned frame cover every Gaussian: the per-Gaussian
/// passes have at least one work item for each, and the scan at least one
/// pair of items.
pub proof fn lemma_plan_covers(config: &PipelineConfig, num_gaussian: u64)
    requires
        config.wf(),
        plan_fault(config, num_gaussian) is None,
    ensures
        spec_plan(config, num_gaussian).splat_groups * config.workgroup_size >= num_gaussian,
        spec_plan(config, num_gaussian).scan_groups * (2 * config.workgroup_size) >= num_gaussian,
        spec_plan(config, num_gaussian).tiles_x * spec_plan(config, num_gaussian).tiles_y
            == config.spec_num_tiles(),
{
    config.lemma_grid_bounds();
    lemma_ceil_div_is_least(num_gaussian as int, config.workgroup_size as int);
    lemma_ceil_div_is_least(num_gaussian as int, 2 * config.workgroup_size);
}

/// Number of keys that one work group of the device sorter takes.
pub const SORT_BLOCK: u32 = 3840;

/// The arguments of an indirect launch, as the device reads them.
#[derive(Clone, Copy, Debug, PartialEq, Eq, Structural)]
pub struct IndirectArgs {
    pub x: u32,
    pub y: u32,
    pub z: u32,
}

/// Reads `wgpu_sort::HISTO_BLOCK_KVS`, the number of keys per work group of
/// the sorter's first stage. The sorter declares it as 256 threads times 15
/// rows; the contract claims that product.
#[verifier::external_body]
fn sorter_block() -> (keys: u32)
    ensures
        keys == SORT_BLOCK,
{
    wgpu_sort::HISTO_BLOCK_KVS
}

/// The instances that the passes after the scan may touch: the total, cut
/// off at the capacity.
pub open spec fn spec_kept(capacity: u32, total: u32) -> u32 {
    if total <= capacity {
        total
    } else {
        capacity
    }
}

/// The launch of the sort for a total: one work group per block of kept
/// instances, in one row and one layer.
pub open spec fn spec_sort_args(capacity: u32, total: u32) -> IndirectArgs {
    IndirectArgs {
        x: ceil_div(spec_kept(capacity, total) as int, SORT_BLOCK as int) as u32,
        y: 1,
        z: 1,
    }
}

/// The arguments that the sort is launched with once the instance total is
/// known: they follow from the total alone, never past the capacity.
pub fn sort_dispatch_args(config: &PipelineConfig, total: u32) -> (args: IndirectArgs)
    ensures
        args == spec_sort_args(config.capacity, total),
        args.x * SORT_BLOCK >= spec_kept(config.capacity, total),
        args.x >= 1 <==> total >= 1 && config.capacity >= 1,
{
    let kept: u32 = if total <= config.capacity {
        total
    } else {
        config.capacity
    };
    let block: u32 = sorter_block();
    proof {
        lemma_ceil_div_is_least(kept as int, block as int);
    }
    let x: u64 = (kept as u64 + block as u64 - 1) / (block as u64);
    IndirectArgs { x: x as u32, y: 1, z: 1 }
}

/// What became of a frame, judged by the instance total of the device.
#[derive(Clone, Copy, Debug, PartialEq, Eq, Structural)]
pub enum FrameOutcome {
    /// All instances fit; `unused` places of the capacity stayed free.
    Complete { instances: u32, unused: u32 },
    /// The scene needs `excess` more places than the capacity has; only
    /// `kept` instances could be sorted and composited.
    Overflow { kept: u32, excess: u32 },
}

/// The verdict on a total under a capacity.
pub open spec fn spec_outcome(capacity: u32, total: u32) -> FrameOutcome {
    if total <= capacity {
        FrameOutcome::Complete { instances: total, unused: (capacity - total) as u32 }
    } else {
        FrameOutcome::Overflow { kept: capacity, excess: (total - capacity) as u32 }
    }
}

/// Judges the instance total that the device reports for a frame: complete
/// when it is within the capacity, overflow when it is not.
pub fn frame_outcome(config: &PipelineConfig, total: u32) -> (outcome: FrameOutcome)
    ensures
        outcome == spec_outcome(config.capacity, total),
        outcome is Overflow <==> total > config.capacity,
{
    if total <= config.capacity {
        FrameOutcome::Complete { instances: total, unused: config.capacity - total }
    } else {
        FrameOutcome::Overflow { kept: config.capacity, excess: total - config.capacity }
    }
}

} // verus!
