//! The whole host-side frame: instances, sorted, with the range of every tile.

use vstd::prelude::*;
use crate::bucket::prefix_total;
use crate::config::PipelineConfig;
use crate::keys::Instance;
use crate::keys::keys_sorted;
use crate::keys::lemma_sorted_groups_by_tile;
use crate::keys::spec_key_depth;
use crate::keys::spec_key_tile;
use crate::materializer::MAX_SPLATS;
use crate::materializer::MaterializeError;
use crate::materializer::all_entries;
use crate::materializer::build_instances;
use crate::materializer::lemma_entry_at_offset;
use crate::materializer::lemma_entry_in_block;
use crate::materializer::lemma_entry_owner;
use crate::materializer::spec_entry;
use crate::materializer::splat_counts;
use crate::materializer::splats_wf;
use crate::projector::Splat;
use crate::ranges::TileRange;
use crate::ranges::extract_ranges;
use crate::ranges::range_exact;
use crate::ranges::ranges_exact;
use crate::ranges::tile_at;
use crate::sorter::is_stable_sort;
use crate::sorter::sort_instances;

verus! {

/// What the compositing pass reads: the sorted instances and, for every tile,
/// the range of its instances.
#[derive(Debug)]
pub struct Frame {
    pub instances: Vec<Instance>,
    pub ranges: Vec<TileRange>,
}

/// The instances are the stable sort of the instance list of the splats, and
/// the ranges are exact for every tile of the grid.
pub open spec fn frame_of(
    config: &PipelineConfig,
    splats: Seq<Splat>,
    instances: Seq<Instance>,
    ranges: Seq<TileRange>,
) -> bool {
    let unsorted = all_entries(config, splats, splats.len() as int);
    &&& keys_sorted(instances)
    &&& instances.to_multiset() == unsorted.to_multiset()
    &&& exists|origin: Seq<int>| is_stable_sort(unsorted, instances, origin)
    &&& ranges.len() == config.spec_num_tiles()
    &&& ranges_exact(instances, ranges)
}

/// Builds the frame of the splats: counts buckets, writes the instances,
/// sorts them and finds the range of every tile. Fails, and says why, when
/// there are too many splats or more instances than the capacity.
pub fn build_frame(config: &PipelineConfig, splats: &Vec<Splat>) -> (res: Result<
    Frame,
    MaterializeError,
>)
    requires
        config.wf(),
        splats_wf(config, splats@),
    ensures
        res is Ok <==> splats@.len() <= MAX_SPLATS && prefix_total(
            splat_counts(splats@),
            splats@.len() as int,
        ) <= config.capacity,
        match res {
            Ok(frame) => frame_of(config, splats@, frame.instances@, frame.ranges@),
            Err(MaterializeError::TooManySplats) => splats@.len() > MAX_SPLATS,
            Err(MaterializeError::Capacity(e)) => splats@.len() <= MAX_SPLATS && e.splat
                < splats@.len() && prefix_total(splat_counts(splats@), e.splat as int)
                <= config.capacity < prefix_total(splat_counts(splats@), e.splat + 1),
        },
{
    match build_instances(config, splats) {
        Ok(list) => {
            proof {
                crate::materializer::lemma_entries_len(config, splats@, splats@.len() as int);
            }
            let instances: Vec<Instance> = sort_instances(list);
            proof {
                instances@.to_multiset_ensures();
                list@.to_multiset_ensures();
            }
            let ranges: Vec<TileRange> = extract_ranges(config, &instances);
            Ok(Frame { instances, ranges })
        },
        Err(e) => Err(e),
    }
}

/// Soundness of a frame: every instance in the range of a tile comes from a
/// splat whose tile block holds that tile, and carries that splat's depth.
pub proof fn lemma_frame_sound(
    config: &PipelineConfig,
    splats: Seq<Splat>,
    instances: Seq<Instance>,
    ranges: Seq<TileRange>,
    t: int,
    k: int,
)
    requires
        config.wf(),
        splats_wf(config, splats),
        splats.len() <= MAX_SPLATS,
        frame_of(config, splats, instances, ranges),
        0 <= t < config.spec_num_tiles(),
        ranges[t].start <= k < ranges[t].end,
    ensures
        0 <= k < instances.len(),
        instances[k].splat < splats.len(),
        spec_key_tile(instances[k].key) == t,
        spec_key_depth(instances[k].key) == splats[instances[k].splat as int].depth,
        splats[instances[k].splat as int].tiles.holds(
            t % config.spec_tiles_x(),
            t / config.spec_tiles_x(),
        ),
{
    let n = splats.len() as int;
    let unsorted = all_entries(config, splats, n);
    assert(range_exact(instances, t, ranges[t]));
    assert(tile_at(instances, k) == t);
    let origin = choose|origin: Seq<int>| is_stable_sort(unsorted, instances, origin);
    let p = origin[k];
    let (i, r) = lemma_entry_owner(config, splats, n, p);
    lemma_entry_in_block(config, splats[i], i, r);
}

/// Completeness of a frame: a splat whose tile block holds a tile has an
/// instance in the range of that tile.
pub proof fn lemma_frame_complete(
    config: &PipelineConfig,
    splats: Seq<Splat>,
    instances: Seq<Instance>,
    ranges: Seq<TileRange>,
    i: int,
    tx: int,
    ty: int,
) -> (k: int)
    requires
        config.wf(),
        splats_wf(config, splats),
        splats.len() <= MAX_SPLATS,
        frame_of(config, splats, instances, ranges),
        0 <= i < splats.len(),
        splats[i].tiles.holds(tx, ty),
    ensures
        0 <= config.spec_tile_id(tx, ty) < ranges.len(),
        ranges[config.spec_tile_id(tx, ty)].start <= k < ranges[config.spec_tile_id(tx, ty)].end,
        k < instances.len(),
        instances[k].splat == i,
        spec_key_depth(instances[k].key) == splats[i].depth,
{
    let n = splats.len() as int;
    let unsorted = all_entries(config, splats, n);
    let tb = splats[i].tiles;
    let cols = tb.spec_cols();
    let rows = tb.spec_rows();
    let dx = tx - tb.min_tx;
    let dy = ty - tb.min_ty;
    let r = dy * cols + dx;
    assert(0 <= r < cols * rows && r % cols == dx && r / cols == dy) by (nonlinear_arith)
        requires
            0 <= dx < cols,
            0 <= dy < rows,
            r == dy * cols + dx,
    ;
    config.lemma_tile_id_injective(tx, ty, tx, ty);
    let t = config.spec_tile_id(tx, ty);
    lemma_entry_at_offset(config, splats, n, i, r);
    lemma_entry_in_block(config, splats[i], i, r);
    let e = spec_entry(config, splats[i], i, r);
    let p = prefix_total(splat_counts(splats), i) + r;
    crate::bucket::lemma_prefix_total_monotonic(splat_counts(splats), 0, i);
    assert(unsorted[p] == e);
    assert(unsorted.contains(e));
    unsorted.to_multiset_ensures();
    instances.to_multiset_ensures();
    assert(unsorted.to_multiset().count(e) > 0);
    assert(instances.to_multiset().count(e) > 0);
    assert(instances.contains(e));
    let k = choose|k: int| 0 <= k < instances.len() && instances[k] == e;
    assert(tile_at(instances, k) == t);
    assert(range_exact(instances, t, ranges[t]));
    k
}

/// Culling of a frame: a splat that overlaps no tile has no instance at all.
pub proof fn lemma_culled_splat_absent(
    config: &PipelineConfig,
    splats: Seq<Splat>,
    instances: Seq<Instance>,
    ranges: Seq<TileRange>,
    i: int,
    k: int,
)
    requires
        config.wf(),
        splats_wf(config, splats),
        splats.len() <= MAX_SPLATS,
        frame_of(config, splats, instances, ranges),
        0 <= i < splats.len(),
        splats[i].tiles.count == 0,
        0 <= k < instances.len(),
    ensures
        instances[k].splat != i,
{
    let n = splats.len() as int;
    let unsorted = all_entries(config, splats, n);
    let origin = choose|origin: Seq<int>| is_stable_sort(unsorted, instances, origin);
    let (owner, r) = lemma_entry_owner(config, splats, n, origin[k]);
    lemma_entry_in_block(config, splats[owner], owner, r);
}

/// Depth order of a frame: within the range of one tile the depth keys never
/// decrease, so the instances are met from the nearest to the farthest.
pub proof fn lemma_frame_depth_ordered(
    config: &PipelineConfig,
    splats: Seq<Splat>,
    instances: Seq<Instance>,
    ranges: Seq<TileRange>,
    t: int,
    a: int,
    b: int,
)
    requires
        frame_of(config, splats, instances, ranges),
        0 <= t < config.spec_num_tiles(),
        ranges[t].start <= a <= b < ranges[t].end,
    ensures
        spec_key_depth(instances[a].key) <= spec_key_depth(instances[b].key),
{
    assert(range_exact(instances, t, ranges[t]));
    assert(tile_at(instances, a) == t);
    assert(tile_at(instances, b) == t);
    lemma_sorted_groups_by_tile(instances, a, b);
}

/// Order among ties: two instances of a frame with the same key, so in the
/// same tile and at the same depth, stand in the order of their splats.
pub proof fn lemma_ties_keep_splat_order(
    config: &PipelineConfig,
    splats: Seq<Splat>,
    instances: Seq<Instance>,
    ranges: Seq<TileRange>,
    a: int,
    b: int,
)
    requires
        config.wf(),
        splats_wf(config, splats),
        splats.len() <= MAX_SPLATS,
        frame_of(config, splats, instances, ranges),
        0 <= a < b < instances.len(),
        instances[a].key == instances[b].key,
    ensures
        instances[a].splat < instances[b].splat,
{
    let n = splats.len() as int;
    let counts = splat_counts(splats);
    let unsorted = all_entries(config, splats, n);
    let origin = choose|origin: Seq<int>| is_stable_sort(unsorted, instances, origin);
    assert(origin[a] < origin[b]);
    let (i1, r1) = lemma_entry_owner(config, splats, n, origin[a]);
    let (i2, r2) = lemma_entry_owner(config, splats, n, origin[b]);
    lemma_entry_in_block(config, splats[i1], i1, r1);
    lemma_entry_in_block(config, splats[i2], i2, r2);
    if i1 > i2 {
        crate::bucket::lemma_write_ranges_disjoint(counts, i2, i1);
    } else if i1 == i2 {
        let tb = splats[i1].tiles;
        let cols = tb.spec_cols();
        config.lemma_tile_id_injective(
            tb.min_tx + r1 % cols,
            tb.min_ty + r1 / cols,
            tb.min_tx + r2 % cols,
            tb.min_ty + r2 / cols,
        );
        vstd::arithmetic::div_mod::lemma_fundamental_div_mod(r1, cols);
        vstd::arithmetic::div_mod::lemma_fundamental_div_mod(r2, cols);
    }
}

/// A scene without splats has no instance, and every tile has the empty range.
pub proof fn lemma_empty_scene(
    config: &PipelineConfig,
    instances: Seq<Instance>,
    ranges: Seq<TileRange>,
    t: int,
)
    requires
        frame_of(config, Seq::<Splat>::empty(), instances, ranges),
        0 <= t < config.spec_num_tiles(),
    ensures
        instances.len() == 0,
        ranges[t].start == 0,
        ranges[t].end == 0,
{
    instances.to_multiset_ensures();
    all_entries(config, Seq::<Splat>::empty(), 0).to_multiset_ensures();
    assert(range_exact(instances, t, ranges[t]));
}

} // verus!
