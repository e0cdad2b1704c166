//! Range extraction: for every tile, the stretch of the sorted instance list
//! that belongs to it.

use vstd::prelude::*;
use crate::config::PipelineConfig;
use crate::keys::Instance;
use crate::keys::is_sorted;
use crate::keys::key_tile;
use crate::keys::keys_sorted;
use crate::keys::spec_key_tile;

verus! {

/// The instances `start..end` of the sorted list.
#[derive(Clone, Copy, Debug, PartialEq, Eq, Structural)]
pub struct TileRange {
    pub start: u32,
    pub end: u32,
}

/// The tile id of the `k`-th instance.
pub open spec fn tile_at(list: Seq<Instance>, k: int) -> u32 {
    spec_key_tile(list[k].key)
}

/// Among the first `n` instances, those of tile `t` are exactly the ones in
/// the range; a tile without any has the range from 0 to 0.
pub open spec fn range_exact_upto(list: Seq<Instance>, n: int, t: int, r: TileRange) -> bool {
    &&& r.start <= r.end <= n
    &&& forall|k: int| 0 <= k < n ==> ((r.start <= k < r.end) <==> #[trigger] tile_at(list, k) == t)
    &&& (r.start == r.end ==> r.start == 0)
}

/// The instances of tile `t` are exactly the ones in the range: each instance
/// in it has tile id `t`, and no instance outside it has.
pub open spec fn range_exact(list: Seq<Instance>, t: int, r: TileRange) -> bool {
    range_exact_upto(list, list.len() as int, t, r)
}

/// In a sorted list the tile ids never decrease.
pub proof fn lemma_tiles_ordered(list: Seq<Instance>, a: int, b: int)
    requires
        keys_sorted(list),
        0 <= a <= b < list.len(),
    ensures
        tile_at(list, a) <= tile_at(list, b),
{
    assert(list[a].key <= list[b].key);
}

/// Finds the range of every tile in a sorted instance list.
pub fn extract_ranges(config: &PipelineConfig, list: &Vec<Instance>) -> (ranges: Vec<TileRange>)
    requires
        config.wf(),
        keys_sorted(list@),
        list@.len() <= u32::MAX,
    ensures
        ranges@.len() == config.spec_num_tiles(),
        forall|t: int| 0 <= t < ranges@.len() ==> range_exact(list@, t, #[trigger] ranges@[t]),
{
    let num: usize = config.num_tiles() as usize;
    let n: usize = list.len();
    let mut ranges: Vec<TileRange> = Vec::new();
    let mut t: usize = 0;
    while t < num
        invariant
            t <= num,
            ranges@.len() == t,
            forall|u: int| 0 <= u < t ==> #[trigger] ranges@[u] == (TileRange { start: 0, end: 0 }),
        decreases num - t,
    {
        ranges.push(TileRange { start: 0, end: 0 });
        t += 1;
    }
    let mut i: usize = 0;
    while i < n
        invariant
            keys_sorted(list@),
            n == list@.len(),
            n <= u32::MAX,
            i <= n,
            ranges@.len() == num,
            0 < i < n ==> tile_at(list@, i - 1) != tile_at(list@, i as int),
            forall|u: int|
                0 <= u < num ==> range_exact_upto(list@, i as int, u, #[trigger] ranges@[u]),
        decreases n - i,
    {
        let tile: u32 = key_tile(list[i].key);
        let mut j: usize = i + 1;
        while j < n && key_tile(list[j].key) == tile
            invariant
                n == list@.len(),
                i < j <= n,
                tile == tile_at(list@, i as int),
                forall|k: int| i <= k < j ==> #[trigger] tile_at(list@, k) == tile,
            decreases n - j,
        {
            j += 1;
        }
        proof {
            assert forall|k: int| 0 <= k < i implies #[trigger] tile_at(list@, k) != tile by {
                lemma_tiles_ordered(list@, k, i - 1);
                lemma_tiles_ordered(list@, i - 1, i as int);
            }
        }
        let ghost before = ranges@;
        if (tile as usize) < num {
            ranges.set(tile as usize, TileRange { start: i as u32, end: j as u32 });
        }
        proof {
            assert forall|u: int| 0 <= u < num implies range_exact_upto(
                list@,
                j as int,
                u,
                #[trigger] ranges@[u],
            ) by {
                assert(range_exact_upto(list@, i as int, u, before[u]));
                if u == tile {
                } else {
                    assert(ranges@[u] == before[u]);
                }
            }
        }
        i = j;
    }
    ranges
}

/// Finds the range of every tile if the list is sorted and short enough for
/// 32-bit indices, and gives `None` otherwise.
pub fn checked_ranges(config: &PipelineConfig, list: &Vec<Instance>) -> (res: Option<
    Vec<TileRange>,
>)
    requires
        config.wf(),
    ensures
        res is Some <==> keys_sorted(list@) && list@.len() <= u32::MAX,
        match res {
            Some(ranges) => ranges@.len() == config.spec_num_tiles() && ranges_exact(
                list@,
                ranges@,
            ),
            None => true,
        },
{
    if list.len() as u64 > 0xffff_ffff || !is_sorted(list) {
        return None;
    }
    Some(extract_ranges(config, list))
}

/// Whether the range lists, for every tile, exactly the instances of that tile.
pub open spec fn ranges_exact(list: Seq<Instance>, ranges: Seq<TileRange>) -> bool {
    forall|t: int| 0 <= t < ranges.len() ==> range_exact(list, t, #[trigger] ranges[t])
}

/// Exact ranges of different tiles share no instance.
pub proof fn lemma_ranges_disjoint(list: Seq<Instance>, ranges: Seq<TileRange>, s: int, t: int)
    requires
        ranges_exact(list, ranges),
        0 <= s < ranges.len(),
        0 <= t < ranges.len(),
        s != t,
    ensures
        ranges[s].end <= ranges[t].start || ranges[t].end <= ranges[s].start || ranges[s].start
            == ranges[s].end || ranges[t].start == ranges[t].end,
{
    assert(range_exact(list, s, ranges[s]));
    assert(range_exact(list, t, ranges[t]));
    if ranges[s].start < ranges[s].end && ranges[t].start < ranges[t].end {
        if ranges[s].start <= ranges[t].start {
            if ranges[t].start < ranges[s].end {
                assert(tile_at(list, ranges[t].start as int) == t);
                assert(tile_at(list, ranges[t].start as int) == s);
            }
        } else {
            if ranges[s].start < ranges[t].end {
                assert(tile_at(list, ranges[s].start as int) == s);
                assert(tile_at(list, ranges[s].start as int) == t);
            }
        }
    }
}

} // verus!
