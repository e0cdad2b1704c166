//! Key-value materialization: every splat is expanded into one instance per
//! tile of its block, written at the splat's offset.

use vstd::prelude::*;
use crate::bucket::BucketCounts;
use crate::bucket::CapacityOverflow;
use crate::bucket::scan_in_groups;
use crate::bucket::lemma_prefix_total_monotonic;
use crate::bucket::prefix_total;
use crate::config::PipelineConfig;
use crate::keys::Instance;
use crate::keys::pack_key;
use crate::keys::spec_key_depth;
use crate::keys::spec_key_tile;
use crate::keys::spec_pack_key;
use crate::projector::Splat;

verus! {

/// Why no instance list was built.
#[derive(Clone, Copy, Debug, PartialEq, Eq, Structural)]
pub enum MaterializeError {
    /// There are more splats than a 32-bit index can name.
    TooManySplats,
    /// The instances do not fit the configured capacity.
    Capacity(CapacityOverflow),
}

/// Largest number of splats that 32-bit indices can name.
pub const MAX_SPLATS: u64 = 0x1_0000_0000;

/// The tile counts of the splats, in their order.
pub open spec fn splat_counts(splats: Seq<Splat>) -> Seq<u32> {
    Seq::new(splats.len(), |i: int| splats[i].tiles.count)
}

/// All splats have tile blocks inside the grid.
pub open spec fn splats_wf(config: &PipelineConfig, splats: Seq<Splat>) -> bool {
    forall|i: int| 0 <= i < splats.len() ==> (#[trigger] splats[i]).tiles.wf(config)
}

/// The `r`-th instance of a splat: the tiles of its block are walked row by
/// row, and each gets the key of its tile id and the splat's depth.
pub open spec fn spec_entry(config: &PipelineConfig, splat: Splat, index: int, r: int) -> Instance {
    let cols = splat.tiles.spec_cols();
    let tx = splat.tiles.min_tx + r % cols;
    let ty = splat.tiles.min_ty + r / cols;
    Instance { key: spec_pack_key(config.spec_tile_id(tx, ty) as u32, splat.depth), splat: index as u32 }
}

/// The instances of one splat, in the order of its tiles.
pub open spec fn splat_entries(config: &PipelineConfig, splat: Splat, index: int) -> Seq<Instance> {
    Seq::new(splat.tiles.count as nat, |r: int| spec_entry(config, splat, index, r))
}

/// The instance list of the first `n` splats: the instances of each, one
/// splat after the other.
pub open spec fn all_entries(config: &PipelineConfig, splats: Seq<Splat>, n: int) -> Seq<Instance>
    decreases n,
{
    if n <= 0 {
        Seq::empty()
    } else {
        all_entries(config, splats, n - 1) + splat_entries(config, splats[n - 1], n - 1)
    }
}

/// The instance list of the first `n` splats is as long as the sum of their
/// tile counts.
pub proof fn lemma_entries_len(config: &PipelineConfig, splats: Seq<Splat>, n: int)
    requires
        0 <= n <= splats.len(),
    ensures
        all_entries(config, splats, n).len() == prefix_total(splat_counts(splats), n),
    decreases n,
{
    if n > 0 {
        lemma_entries_len(config, splats, n - 1);
    }
}

/// The `r`-th instance of splat `i` stands at the splat's offset plus `r`.
pub proof fn lemma_entry_at_offset(
    config: &PipelineConfig,
    splats: Seq<Splat>,
    n: int,
    i: int,
    r: int,
)
    requires
        0 <= i < n <= splats.len(),
        0 <= r < splats[i].tiles.count,
    ensures
        prefix_total(splat_counts(splats), i) + r < all_entries(config, splats, n).len(),
        all_entries(config, splats, n)[prefix_total(splat_counts(splats), i) + r] == spec_entry(
            config,
            splats[i],
            i,
            r,
        ),
    decreases n,
{
    lemma_entries_len(config, splats, n - 1);
    lemma_entries_len(config, splats, n);
    lemma_prefix_total_monotonic(splat_counts(splats), 0, i);
    if i < n - 1 {
        lemma_entry_at_offset(config, splats, n - 1, i, r);
    }
}

/// The `r`-th instance of splat `i` stands in the list at the splat's
/// offset plus `r`.
pub open spec fn entry_at_offset(
    config: &PipelineConfig,
    splats: Seq<Splat>,
    offsets: Seq<u32>,
    list: Seq<Instance>,
    i: int,
    r: int,
) -> bool {
    &&& 0 <= offsets[i] + r < list.len()
    &&& list[offsets[i] + r] == spec_entry(config, splats[i], i, r)
}

/// Every instance of every splat stands at the splat's offset plus its
/// number among the splat's instances.
pub open spec fn entries_at_offsets(
    config: &PipelineConfig,
    splats: Seq<Splat>,
    offsets: Seq<u32>,
    list: Seq<Instance>,
) -> bool {
    forall|i: int, r: int|
        0 <= i < splats.len() && 0 <= r < splats[i].tiles.count ==> #[trigger] entry_at_offset(
            config,
            splats,
            offsets,
            list,
            i,
            r,
        )
}

/// A position inside a block of `cols` by `rows` tiles splits into a column
/// and a row of the block.
proof fn lemma_block_position(r: int, cols: int, rows: int)
    requires
        cols >= 1,
        rows >= 1,
        0 <= r < cols * rows,
    ensures
        0 <= r % cols < cols,
        0 <= r / cols < rows,
{
    assert(0 <= r % cols < cols && r == cols * (r / cols) + r % cols) by (nonlinear_arith)
        requires
            cols >= 1,
    ;
    let q = r / cols;
    assert(0 <= q < rows) by (nonlinear_arith)
        requires
            cols >= 1,
            rows >= 1,
            0 <= r < cols * rows,
            r == cols * q + r % cols,
            0 <= r % cols < cols,
    ;
}

/// The `r`-th instance of a splat carries the splat's index and depth, and
/// the id of a tile of the grid that belongs to the splat's block.
pub proof fn lemma_entry_in_block(config: &PipelineConfig, splat: Splat, index: int, r: int)
    requires
        config.wf(),
        splat.tiles.wf(config),
        0 <= r < splat.tiles.count,
        0 <= index < MAX_SPLATS,
    ensures
        0 <= r % splat.tiles.spec_cols() < splat.tiles.spec_cols(),
        0 <= r / splat.tiles.spec_cols() < splat.tiles.spec_rows(),
        spec_entry(config, splat, index, r).splat == index,
        spec_key_depth(spec_entry(config, splat, index, r).key) == splat.depth,
        spec_key_tile(spec_entry(config, splat, index, r).key) < config.spec_num_tiles(),
        spec_key_tile(spec_entry(config, splat, index, r).key) == config.spec_tile_id(
            splat.tiles.min_tx + r % splat.tiles.spec_cols(),
            splat.tiles.min_ty + r / splat.tiles.spec_cols(),
        ),
        splat.tiles.holds(
            (spec_key_tile(spec_entry(config, splat, index, r).key) as int)
                % config.spec_tiles_x(),
            (spec_key_tile(spec_entry(config, splat, index, r).key) as int)
                / config.spec_tiles_x(),
        ),
{
    config.lemma_grid_bounds();
    lemma_block_position(r, splat.tiles.spec_cols(), splat.tiles.spec_rows());
    let tx = splat.tiles.min_tx + r % splat.tiles.spec_cols();
    let ty = splat.tiles.min_ty + r / splat.tiles.spec_cols();
    config.lemma_tile_id_injective(tx, ty, tx, ty);
    let w = config.spec_tiles_x();
    assert((ty * w + tx) % w == tx && (ty * w + tx) / w == ty) by (nonlinear_arith)
        requires
            0 <= tx < w,
            0 <= ty,
    ;
}

/// The `r`-th instance of splat number `index`.
pub fn entry(config: &PipelineConfig, splat: &Splat, index: u32, r: u32) -> (e: Instance)
    requires
        config.wf(),
        splat.tiles.wf(config),
        r < splat.tiles.count,
    ensures
        e == spec_entry(config, *splat, index as int, r as int),
{
    proof {
        config.lemma_grid_bounds();
        lemma_block_position(r as int, splat.tiles.spec_cols(), splat.tiles.spec_rows());
    }
    let cols: u32 = splat.tiles.max_tx - splat.tiles.min_tx + 1;
    let tx: u32 = splat.tiles.min_tx + r % cols;
    let ty: u32 = splat.tiles.min_ty + r / cols;
    let id: u32 = config.tile_id(tx, ty);
    Instance { key: pack_key(id, splat.depth), splat: index }
}

/// Every instance of the list of the first `n` splats is the `r`-th instance
/// of some splat `i` among them; the pair `(i, r)` is returned.
pub proof fn lemma_entry_owner(config: &PipelineConfig, splats: Seq<Splat>, n: int, p: int) -> (owner:
    (int, int))
    requires
        0 <= n <= splats.len(),
        0 <= p < all_entries(config, splats, n).len(),
    ensures
        0 <= owner.0 < n,
        0 <= owner.1 < splats[owner.0].tiles.count,
        p == prefix_total(splat_counts(splats), owner.0) + owner.1,
        all_entries(config, splats, n)[p] == spec_entry(config, splats[owner.0], owner.0, owner.1),
    decreases n,
{
    lemma_entries_len(config, splats, n - 1);
    let before = all_entries(config, splats, n - 1);
    if p < before.len() {
        lemma_entry_owner(config, splats, n - 1, p)
    } else {
        (n - 1, p - before.len())
    }
}

/// Writes the instances of every splat at the splat's offset.
pub fn materialize(config: &PipelineConfig, splats: &Vec<Splat>, buckets: &BucketCounts) -> (list:
    Vec<Instance>)
    requires
        config.wf(),
        splats_wf(config, splats@),
        splats@.len() <= MAX_SPLATS,
        buckets.matches(splat_counts(splats@)),
    ensures
        list@ == all_entries(config, splats@, splats@.len() as int),
        list@.len() == buckets.total,
        entries_at_offsets(config, splats@, buckets.offsets@, list@),
{
    let ghost counts = splat_counts(splats@);
    let ghost n = splats@.len() as int;
    let total: usize = buckets.total as usize;
    let mut list: Vec<Instance> = Vec::new();
    let mut k: usize = 0;
    while k < total
        invariant
            k <= total,
            list@.len() == k,
        decreases total - k,
    {
        list.push(Instance { key: 0, splat: 0 });
        k += 1;
    }
    let mut i: usize = 0;
    while i < splats.len()
        invariant
            config.wf(),
            splats_wf(config, splats@),
            splats@.len() <= MAX_SPLATS,
            buckets.matches(counts),
            counts == splat_counts(splats@),
            n == splats@.len(),
            i <= n,
            list@.len() == buckets.total,
            list@.take(prefix_total(counts, i as int)) =~= all_entries(config, splats@, i as int),
        decreases splats.len() - i,
    {
        let splat: Splat = splats[i];
        let base: u32 = buckets.offsets[i];
        proof {
            lemma_prefix_total_monotonic(counts, 0, i as int);
            lemma_prefix_total_monotonic(counts, i + 1, n);
            assert(prefix_total(counts, i + 1) == base + splat.tiles.count);
        }
        let mut r: u32 = 0;
        while r < splat.tiles.count
            invariant
                config.wf(),
                splat.tiles.wf(config),
                splat == splats@[i as int],
                i < n,
                n == splats@.len(),
                n <= MAX_SPLATS,
                base == prefix_total(counts, i as int),
                base + splat.tiles.count <= buckets.total,
                r <= splat.tiles.count,
                list@.len() == buckets.total,
                list@.take(base + r) =~= all_entries(config, splats@, i as int) + splat_entries(
                    config,
                    splat,
                    i as int,
                ).take(r as int),
            decreases splat.tiles.count - r,
        {
            let e: Instance = entry(config, &splat, i as u32, r);
            let ghost before = list@;
            list.set((base + r) as usize, e);
            proof {
                let p = base + r;
                assert(list@.take(p + 1) =~= before.take(p).push(e));
                assert(splat_entries(config, splat, i as int).take(r + 1) =~= splat_entries(
                    config,
                    splat,
                    i as int,
                ).take(r as int).push(e));
            }
            r += 1;
        }
        proof {
            let own = splat_entries(config, splat, i as int);
            assert(own.take(splat.tiles.count as int) =~= own);
        }
        i += 1;
    }
    proof {
        lemma_entries_len(config, splats@, n);
        assert(list@.take(buckets.total as int) =~= list@);
        assert forall|i: int, r: int|
            0 <= i < splats@.len() && 0 <= r < splats@[i].tiles.count implies #[trigger] entry_at_offset(
            config,
            splats@,
            buckets.offsets@,
            list@,
            i,
            r,
        ) by {
            lemma_entry_at_offset(config, splats@, n, i, r);
        }
    }
    list
}

/// The tile counts of the splats, in their order.
pub fn tile_counts(splats: &Vec<Splat>) -> (counts: Vec<u32>)
    ensures
        counts@ == splat_counts(splats@),
{
    let mut counts: Vec<u32> = Vec::new();
    let mut i: usize = 0;
    while i < splats.len()
        invariant
            i <= splats@.len(),
            counts@.len() == i,
            forall|k: int| 0 <= k < i ==> counts@[k] == splats@[k].tiles.count,
        decreases splats.len() - i,
    {
        counts.push(splats[i].tiles.count);
        i += 1;
    }
    assert(counts@ =~= splat_counts(splats@));
    counts
}

/// Scans the tile counts of the splats, in groups of two work groups, and
/// writes their instance list, or says why there is none: too many splats,
/// or more instances than the capacity.
pub fn build_instances(config: &PipelineConfig, splats: &Vec<Splat>) -> (res: Result<
    Vec<Instance>,
    MaterializeError,
>)
    requires
        config.wf(),
        splats_wf(config, splats@),
    ensures
        res is Ok <==> splats@.len() <= MAX_SPLATS && prefix_total(
            splat_counts(splats@),
            splats@.len() as int,
        ) <= config.capacity,
        match res {
            Ok(list) => list@ == all_entries(config, splats@, splats@.len() as int),
            Err(MaterializeError::TooManySplats) => splats@.len() > MAX_SPLATS,
            Err(MaterializeError::Capacity(e)) => splats@.len() <= MAX_SPLATS && e.splat
                < splats@.len() && prefix_total(splat_counts(splats@), e.splat as int)
                <= config.capacity < prefix_total(splat_counts(splats@), e.splat + 1),
        },
{
    if splats.len() as u64 > MAX_SPLATS {
        return Err(MaterializeError::TooManySplats);
    }
    let counts: Vec<u32> = tile_counts(splats);
    let wide: u64 = 2 * (config.workgroup_size as u64);
    let group: usize = if wide > usize::MAX as u64 {
        usize::MAX
    } else {
        wide as usize
    };
    match scan_in_groups(&counts, group, config.capacity) {
        Ok(buckets) => Ok(materialize(config, splats, &buckets)),
        Err(e) => Err(MaterializeError::Capacity(e)),
    }
}

} // verus!
