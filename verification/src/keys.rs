//! Sort keys: a tile id and a depth packed into one 64-bit number.

use vstd::prelude::*;

verus! {

/// Number of depth values below each tile id in a key.
pub const DEPTH_SPAN: u64 = 0x1_0000_0000;

/// One entry of the instance list: a splat seen in one tile.
#[derive(Clone, Copy, Debug, PartialEq, Eq, Structural)]
pub struct Instance {
    /// Tile id in the high half, depth key in the low half.
    pub key: u64,
    /// Index of the splat that the entry came from.
    pub splat: u32,
}

/// The key of a tile and a depth: the tile id counts in units of `DEPTH_SPAN`.
pub open spec fn spec_pack_key(tile: u32, depth: u32) -> u64 {
    (tile * 0x1_0000_0000 + depth) as u64
}

/// The tile id held in a key.
pub open spec fn spec_key_tile(key: u64) -> u32 {
    (key / 0x1_0000_0000) as u32
}

/// The depth key held in a key.
pub open spec fn spec_key_depth(key: u64) -> u32 {
    (key % 0x1_0000_0000) as u32
}

/// Packs a tile id and a depth key.
pub fn pack_key(tile: u32, depth: u32) -> (key: u64)
    ensures
        key == spec_pack_key(tile, depth),
        spec_key_tile(key) == tile,
        spec_key_depth(key) == depth,
{
    (tile as u64) * DEPTH_SPAN + (depth as u64)
}

/// The tile id held in a key.
pub fn key_tile(key: u64) -> (tile: u32)
    ensures
        tile == spec_key_tile(key),
{
    (key / DEPTH_SPAN) as u32
}

/// The depth key held in a key.
pub fn key_depth(key: u64) -> (depth: u32)
    ensures
        depth == spec_key_depth(key),
{
    (key % DEPTH_SPAN) as u32
}

/// Every key is the packing of its own tile id and depth key.
pub proof fn lemma_pack_unpack(key: u64)
    ensures
        spec_pack_key(spec_key_tile(key), spec_key_depth(key)) == key,
{
}

/// Keys order by tile id first and by depth key within one tile.
pub proof fn lemma_key_order(t1: u32, d1: u32, t2: u32, d2: u32)
    ensures
        spec_pack_key(t1, d1) < spec_pack_key(t2, d2) <==> (t1 < t2 || (t1 == t2 && d1 < d2)),
        spec_pack_key(t1, d1) == spec_pack_key(t2, d2) <==> (t1 == t2 && d1 == d2),
{
}

/// The sortable key of a depth given by the bit pattern of a single-precision
/// number: patterns with the sign bit set are mirrored below the others.
pub open spec fn spec_depth_key(bits: u32) -> u32 {
    if bits >= 0x8000_0000 {
        (0xffff_ffff - bits) as u32
    } else {
        (bits + 0x8000_0000) as u32
    }
}

/// The sign-and-magnitude reading of a bit pattern. Finite single-precision
/// numbers are ordered as their readings are.
pub open spec fn spec_depth_reading(bits: u32) -> int {
    if bits >= 0x8000_0000 {
        -(bits - 0x8000_0000)
    } else {
        bits as int
    }
}

/// The sortable key of a depth given by its bit pattern.
pub fn depth_key(bits: u32) -> (key: u32)
    ensures
        key == spec_depth_key(bits),
{
    if bits >= 0x8000_0000 {
        0xffff_ffff - bits
    } else {
        bits + 0x8000_0000
    }
}

/// The depth key is monotonic: a smaller reading never gets a larger key, and
/// distinct bit patterns get distinct keys.
pub proof fn lemma_depth_key_monotonic(a: u32, b: u32)
    ensures
        spec_depth_reading(a) < spec_depth_reading(b) ==> spec_depth_key(a) < spec_depth_key(b),
        spec_depth_key(a) < spec_depth_key(b) ==> spec_depth_reading(a) <= spec_depth_reading(b),
        spec_depth_key(a) == spec_depth_key(b) <==> a == b,
{
}

/// The keys of a list never decrease from one entry to the next.
pub open spec fn keys_sorted(list: Seq<Instance>) -> bool {
    forall|i: int, j: int| 0 <= i <= j < list.len() ==> list[i].key <= list[j].key
}

/// Whether the keys of a list never decrease.
pub fn is_sorted(list: &Vec<Instance>) -> (ok: bool)
    ensures
        ok == keys_sorted(list@),
{
    if list.len() < 2 {
        return true;
    }
    let mut i: usize = 1;
    while i < list.len()
        invariant
            1 <= i <= list.len(),
            keys_sorted(list@.take(i as int)),
        decreases list.len() - i,
    {
        if list[i - 1].key > list[i].key {
            return false;
        }
        proof {
            let before = list@.take(i as int);
            let after = list@.take(i + 1);
            assert forall|a: int, b: int| 0 <= a <= b < after.len() implies after[a].key
                <= after[b].key by {
                if b < i {
                    assert(before[a].key <= before[b].key);
                } else if a < i {
                    assert(before[a].key <= before[i - 1].key);
                }
            }
        }
        i += 1;
    }
    assert(list@.take(i as int) =~= list@);
    true
}

/// In a sorted list the tile ids never decrease, the entries of one tile are
/// contiguous, and within one tile the depth keys never decrease.
pub proof fn lemma_sorted_groups_by_tile(list: Seq<Instance>, i: int, j: int)
    requires
        keys_sorted(list),
        0 <= i <= j < list.len(),
    ensures
        spec_key_tile(list[i].key) <= spec_key_tile(list[j].key),
        spec_key_tile(list[i].key) == spec_key_tile(list[j].key) ==> spec_key_depth(list[i].key)
            <= spec_key_depth(list[j].key),
        forall|k: int|
            i <= k <= j && spec_key_tile(list[i].key) == spec_key_tile(list[j].key)
                ==> spec_key_tile(#[trigger] list[k].key) == spec_key_tile(list[i].key),
{
    assert(list[i].key <= list[j].key);
    assert forall|k: int|
        i <= k <= j && spec_key_tile(list[i].key) == spec_key_tile(
            list[j].key,
        ) implies spec_key_tile(#[trigger] list[k].key) == spec_key_tile(list[i].key) by {
        assert(list[i].key <= list[k].key);
        assert(list[k].key <= list[j].key);
    }
}

} // verus!
