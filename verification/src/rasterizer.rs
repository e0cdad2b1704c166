//! The work list of compositing: for a pixel, the tile that it lies in, and
//! for a tile, the splats to composite in the order of the sorted instances.

use vstd::prelude::*;
use crate::config::PipelineConfig;
use crate::frame::Frame;
use crate::frame::frame_of;
use crate::frame::lemma_frame_complete;
use crate::keys::Instance;
use crate::materializer::MAX_SPLATS;
use crate::materializer::splats_wf;
use crate::projector::Footprint;
use crate::projector::Splat;
use crate::projector::lemma_tile_box_covers;
use crate::projector::lemma_tile_box_wf;
use crate::projector::spec_tile_box;
use crate::ranges::TileRange;

verus! {

/// The id of the tile that a pixel lies in.
pub open spec fn spec_pixel_tile(config: &PipelineConfig, px: int, py: int) -> int {
    config.spec_tile_id(px / (config.tile_size as int), py / (config.tile_size as int))
}

/// The id of the tile that the pixel in column `px` and row `py` lies in.
pub fn pixel_tile(config: &PipelineConfig, px: u32, py: u32) -> (id: u32)
    requires
        config.wf(),
        px < config.width,
        py < config.height,
    ensures
        id == spec_pixel_tile(config, px as int, py as int),
        id < config.spec_num_tiles(),
{
    proof {
        let fp = Footprint {
            visible: true,
            min_x: px as i64,
            min_y: py as i64,
            max_x: px as i64,
            max_y: py as i64,
        };
        lemma_tile_box_wf(config, &fp);
        lemma_tile_box_covers(config, &fp, px as int, py as int);
    }
    config.tile_id(px / config.tile_size, py / config.tile_size)
}

/// The splats of the instances in a range, in the order of the instances.
pub open spec fn spec_tile_work(instances: Seq<Instance>, range: TileRange) -> Seq<u32> {
    Seq::new((range.end - range.start) as nat, |k: int| instances[range.start + k].splat)
}

/// Every range of the frame lies inside the instance list.
pub open spec fn ranges_in_bounds(instances: Seq<Instance>, ranges: Seq<TileRange>) -> bool {
    forall|t: int|
        0 <= t < ranges.len() ==> (#[trigger] ranges[t]).start <= ranges[t].end
            <= instances.len()
}

/// The splats to composite for a tile, nearest first. A tile outside the
/// grid has none.
pub fn tile_work(frame: &Frame, tile: u32) -> (work: Vec<u32>)
    requires
        ranges_in_bounds(frame.instances@, frame.ranges@),
    ensures
        tile < frame.ranges@.len() ==> work@ == spec_tile_work(
            frame.instances@,
            frame.ranges@[tile as int],
        ),
        tile >= frame.ranges@.len() ==> work@.len() == 0,
{
    let mut work: Vec<u32> = Vec::new();
    if (tile as usize) < frame.ranges.len() {
        let range: TileRange = frame.ranges[tile as usize];
        let mut k: usize = range.start as usize;
        while k < range.end as usize
            invariant
                range.start <= k <= range.end <= frame.instances@.len(),
                work@.len() == k - range.start,
                forall|j: int|
                    0 <= j < work@.len() ==> work@[j] == frame.instances@[range.start + j].splat,
            decreases range.end - k,
        {
            work.push(frame.instances[k].splat);
            k += 1;
        }
        assert(work@ =~= spec_tile_work(frame.instances@, range));
    }
    work
}

/// The ranges of a frame built from splats lie inside its instance list.
pub proof fn lemma_frame_ranges_in_bounds(
    config: &PipelineConfig,
    splats: Seq<Splat>,
    instances: Seq<Instance>,
    ranges: Seq<TileRange>,
)
    requires
        frame_of(config, splats, instances, ranges),
    ensures
        ranges_in_bounds(instances, ranges),
{
    assert forall|t: int| 0 <= t < ranges.len() implies (#[trigger] ranges[t]).start
        <= ranges[t].end <= instances.len() by {
        assert(crate::ranges::range_exact(instances, t, ranges[t]));
    }
}

/// A splat whose footprint touches a pixel is in the work list of the tile
/// of that pixel.
pub proof fn lemma_touching_splat_is_listed(
    config: &PipelineConfig,
    splats: Seq<Splat>,
    instances: Seq<Instance>,
    ranges: Seq<TileRange>,
    i: int,
    fp: &Footprint,
    px: int,
    py: int,
)
    requires
        config.wf(),
        splats_wf(config, splats),
        splats.len() <= MAX_SPLATS,
        frame_of(config, splats, instances, ranges),
        0 <= i < splats.len(),
        splats[i].tiles == spec_tile_box(config, fp),
        fp.touches(config, px, py),
    ensures
        0 <= spec_pixel_tile(config, px, py) < ranges.len(),
        spec_tile_work(instances, ranges[spec_pixel_tile(config, px, py)]).contains(i as u32),
{
    let t = config.tile_size as int;
    lemma_tile_box_covers(config, fp, px, py);
    let k = lemma_frame_complete(config, splats, instances, ranges, i, px / t, py / t);
    let range = ranges[spec_pixel_tile(config, px, py)];
    let work = spec_tile_work(instances, range);
    assert(work[k - range.start] == instances[k].splat);
}

} // verus!
