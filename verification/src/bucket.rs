//! Bucket counting: an exclusive prefix sum over the per-splat tile counts.

use vstd::prelude::*;

verus! {

/// The sum of the first `n` counts.
pub open spec fn prefix_total(counts: Seq<u32>, n: int) -> int
    decreases n,
{
    if n <= 0 {
        0
    } else {
        prefix_total(counts, n - 1) + counts[n - 1]
    }
}

/// Write offsets of the splats and the number of instances of the frame.
#[derive(Debug)]
pub struct BucketCounts {
    /// For each splat, the place of its first instance.
    pub offsets: Vec<u32>,
    /// The number of instances of all splats.
    pub total: u32,
}

/// The instances of a frame do not fit the capacity.
#[derive(Clone, Copy, Debug, PartialEq, Eq, Structural)]
pub struct CapacityOverflow {
    /// The first splat whose instances no longer fit.
    pub splat: usize,
}

impl BucketCounts {
    /// The offsets are the exclusive prefix sums of `counts`, and the total is
    /// the sum of all of them.
    pub open spec fn matches(&self, counts: Seq<u32>) -> bool {
        &&& self.offsets@.len() == counts.len()
        &&& self.total == prefix_total(counts, counts.len() as int)
        &&& forall|i: int|
            0 <= i < counts.len() ==> #[trigger] self.offsets@[i] == prefix_total(counts, i)
    }
}

/// Prefix sums never decrease.
pub proof fn lemma_prefix_total_monotonic(counts: Seq<u32>, i: int, j: int)
    requires
        0 <= i <= j,
    ensures
        0 <= prefix_total(counts, i) <= prefix_total(counts, j),
    decreases j,
{
    if j > 0 {
        if i < j {
            lemma_prefix_total_monotonic(counts, i, j - 1);
        } else {
            lemma_prefix_total_monotonic(counts, i - 1, j - 1);
        }
    }
}

/// The write ranges of two different splats, each starting at the splat's
/// prefix sum and as long as its count, do not overlap.
pub proof fn lemma_write_ranges_disjoint(counts: Seq<u32>, i: int, j: int)
    requires
        0 <= i < j < counts.len(),
    ensures
        prefix_total(counts, i) + counts[i] <= prefix_total(counts, j),
{
    assert(prefix_total(counts, i + 1) == prefix_total(counts, i) + counts[i]);
    lemma_prefix_total_monotonic(counts, i + 1, j);
}

/// The last offset and the last count add up to the total.
pub proof fn lemma_last_offset_reaches_total(counts: Seq<u32>)
    requires
        counts.len() > 0,
    ensures
        prefix_total(counts, counts.len() - 1) + counts[counts.len() - 1] == prefix_total(
            counts,
            counts.len() as int,
        ),
{
}

/// Computes the write offset of every splat and the total instance count, or
/// reports the first splat at which the running total passes `capacity`.
pub fn count_buckets(counts: &Vec<u32>, capacity: u32) -> (res: Result<
    BucketCounts,
    CapacityOverflow,
>)
    ensures
        res is Ok <==> prefix_total(counts@, counts@.len() as int) <= capacity,
        match res {
            Ok(b) => b.matches(counts@),
            Err(e) => e.splat < counts@.len() && prefix_total(counts@, e.splat as int) <= capacity
                < prefix_total(counts@, e.splat + 1),
        },
{
    let mut offsets: Vec<u32> = Vec::new();
    let mut running: u32 = 0;
    let mut i: usize = 0;
    while i < counts.len()
        invariant
            i <= counts.len(),
            offsets@.len() == i,
            running == prefix_total(counts@, i as int),
            running <= capacity,
            forall|k: int| 0 <= k < i ==> #[trigger] offsets@[k] == prefix_total(counts@, k),
        decreases counts.len() - i,
    {
        let c: u32 = counts[i];
        if c > capacity - running {
            proof {
                lemma_prefix_total_monotonic(counts@, i + 1, counts@.len() as int);
            }
            return Err(CapacityOverflow { splat: i });
        }
        offsets.push(running);
        running = running + c;
        i += 1;
    }
    Ok(BucketCounts { offsets, total: running })
}

/// The start of the group that index `i` belongs to.
spec fn group_start(i: int, group: int) -> int {
    (i / group) * group
}

/// The end of group `g`: the start of the next group, or the end of the
/// counts where the last group is short.
spec fn group_end(g: int, group: int, n: int) -> int {
    if (g + 1) * group <= n {
        (g + 1) * group
    } else {
        n
    }
}

/// Every offset inside a group is the sum of the counts of the group before it.
spec fn locals_match(counts: Seq<u32>, local: Seq<u32>, group: int) -> bool {
    forall|i: int|
        0 <= i < local.len() ==> #[trigger] local[i] == prefix_total(counts, i) - prefix_total(
            counts,
            group_start(i, group),
        )
}

/// Group `g` starts inside the counts, and its total is the sum of its counts.
spec fn total_matches_at(counts: Seq<u32>, totals: Seq<u32>, group: int, g: int) -> bool {
    &&& g * group < counts.len()
    &&& totals[g] == prefix_total(counts, group_end(g, group, counts.len() as int)) - prefix_total(
        counts,
        g * group,
    )
}

/// Every group total is the sum of the counts of its group.
spec fn totals_match(counts: Seq<u32>, totals: Seq<u32>, group: int) -> bool {
    forall|g: int|
        0 <= g < totals.len() ==> #[trigger] total_matches_at(counts, totals, group, g)
}

/// Every group offset is the sum of the counts before the group.
spec fn bases_match(counts: Seq<u32>, bases: Seq<u32>, group: int) -> bool {
    forall|g: int| 0 <= g < bases.len() ==> #[trigger] bases[g] == prefix_total(counts, g * group)
}

/// An index between the start of group `g` and the start of the next one
/// belongs to group `g`, and the next group starts `group` places on.
proof fn lemma_group_index(i: int, g: int, group: int)
    requires
        group >= 1,
        g >= 0,
        g * group <= i < g * group + group,
    ensures
        i / group == g,
        group_start(i, group) == g * group,
        (g + 1) * group == g * group + group,
        g * group >= 0,
{
    assert((g + 1) * group == g * group + group && g * group >= 0) by (nonlinear_arith)
        requires
            g >= 0,
            group >= 1,
    ;
    vstd::arithmetic::div_mod::lemma_fundamental_div_mod_converse(i, group, g, i - g * group);
}

/// The first phase of the scan in groups: the offset of every splat inside
/// its group, and the total of every group. `None` when the counts of one
/// group alone pass the capacity.
fn scan_locally(counts: &Vec<u32>, group: usize, capacity: u32) -> (res: Option<
    (Vec<u32>, Vec<u32>),
>)
    requires
        group >= 1,
    ensures
        match res {
            Some((local, totals)) => {
                &&& local@.len() == counts@.len()
                &&& counts@.len() <= totals@.len() * group
                &&& locals_match(counts@, local@, group as int)
                &&& totals_match(counts@, totals@, group as int)
            },
            None => prefix_total(counts@, counts@.len() as int) > capacity,
        },
{
    let n: usize = counts.len();
    let mut local: Vec<u32> = Vec::new();
    let mut totals: Vec<u32> = Vec::new();
    let mut start: usize = 0;
    while start < n
        invariant
            group >= 1,
            n == counts@.len(),
            start <= n,
            local@.len() == start,
            start == totals@.len() * group || start == n,
            start <= totals@.len() * group,
            locals_match(counts@, local@, group as int),
            totals_match(counts@, totals@, group as int),
        decreases n - start,
    {
        let ghost g = totals@.len() as int;
        let end: usize = if n - start > group {
            start + group
        } else {
            n
        };
        proof {
            lemma_group_index(start as int, g, group as int);
        }
        let mut sum: u32 = 0;
        let mut i: usize = start;
        while i < end
            invariant
                group >= 1,
                n == counts@.len(),
                g == totals@.len(),
                start == g * group,
                (g + 1) * group == g * group + group,
                start <= i <= end <= n,
                start < end,
                end == group_end(g, group as int, n as int),
                local@.len() == i,
                sum <= capacity,
                sum == prefix_total(counts@, i as int) - prefix_total(counts@, start as int),
                locals_match(counts@, local@, group as int),
                totals_match(counts@, totals@, group as int),
            decreases end - i,
        {
            let c: u32 = counts[i];
            if c > capacity - sum {
                proof {
                    lemma_prefix_total_monotonic(counts@, 0, start as int);
                    lemma_prefix_total_monotonic(counts@, i + 1, n as int);
                }
                return None;
            }
            proof {
                lemma_group_index(i as int, g, group as int);
            }
            local.push(sum);
            sum = sum + c;
            i += 1;
        }
        let ghost earlier = totals@;
        totals.push(sum);
        proof {
            assert forall|h: int| 0 <= h < totals@.len() implies #[trigger] total_matches_at(
                counts@,
                totals@,
                group as int,
                h,
            ) by {
                if h < g {
                    assert(total_matches_at(counts@, earlier, group as int, h));
                }
            }
        }
        start = end;
    }
    Some((local, totals))
}

/// The second phase of the scan in groups: the offset of every group, and
/// the total of all. `None` when the total passes the capacity.
fn scan_totals(counts: &Vec<u32>, totals: &Vec<u32>, group: usize, capacity: u32) -> (res: Option<
    (Vec<u32>, u32),
>)
    requires
        group >= 1,
        counts@.len() <= totals@.len() * group,
        totals_match(counts@, totals@, group as int),
    ensures
        match res {
            Some((bases, total)) => {
                &&& bases@.len() == totals@.len()
                &&& bases_match(counts@, bases@, group as int)
                &&& total == prefix_total(counts@, counts@.len() as int)
                &&& total <= capacity
            },
            None => prefix_total(counts@, counts@.len() as int) > capacity,
        },
{
    let ghost n = counts@.len() as int;
    let groups: usize = totals.len();
    let mut bases: Vec<u32> = Vec::new();
    let mut running: u32 = 0;
    let mut g: usize = 0;
    while g < groups
        invariant
            group >= 1,
            n == counts@.len(),
            groups == totals@.len(),
            n <= groups * group,
            g <= groups,
            bases@.len() == g,
            running <= capacity,
            g == 0 ==> running == 0,
            g > 0 ==> running == prefix_total(counts@, group_end(g - 1, group as int, n)),
            bases_match(counts@, bases@, group as int),
            totals_match(counts@, totals@, group as int),
        decreases groups - g,
    {
        let t: u32 = totals[g];
        proof {
            lemma_group_index(g * group, g as int, group as int);
            if g > 0 {
                lemma_group_index((g - 1) * group, g - 1, group as int);
            }
            assert(total_matches_at(counts@, totals@, group as int, g as int));
            if g > 0 {
                assert(total_matches_at(counts@, totals@, group as int, g - 1));
            }
            assert(running == prefix_total(counts@, g * group));
        }
        if t > capacity - running {
            proof {
                lemma_prefix_total_monotonic(counts@, group_end(g as int, group as int, n), n);
            }
            return None;
        }
        bases.push(running);
        running = running + t;
        g += 1;
    }
    proof {
        if groups > 0 {
            lemma_group_index((groups - 1) * group, groups - 1, group as int);
            assert(group_end(groups - 1, group as int, n) == n);
        } else {
            assert(groups * group == 0) by (nonlinear_arith)
                requires
                    groups == 0,
            ;
        }
    }
    Some((bases, running))
}

/// The scan in groups: first the counts of every group of `group` splats are
/// scanned on their own, then the totals of the groups are scanned, and last
/// every splat adds the offset of its group to its offset inside the group.
/// The result is that of `count_buckets`.
pub fn scan_in_groups(counts: &Vec<u32>, group: usize, capacity: u32) -> (res: Result<
    BucketCounts,
    CapacityOverflow,
>)
    ensures
        res is Ok <==> prefix_total(counts@, counts@.len() as int) <= capacity,
        match res {
            Ok(b) => b.matches(counts@),
            Err(e) => e.splat < counts@.len() && prefix_total(counts@, e.splat as int) <= capacity
                < prefix_total(counts@, e.splat + 1),
        },
{
    if group == 0 {
        return count_buckets(counts, capacity);
    }
    let n: usize = counts.len();
    let (local, totals) = match scan_locally(counts, group, capacity) {
        Some(pair) => pair,
        None => {
            return count_buckets(counts, capacity);
        },
    };
    let (bases, total) = match scan_totals(counts, &totals, group, capacity) {
        Some(pair) => pair,
        None => {
            return count_buckets(counts, capacity);
        },
    };
    let mut offsets: Vec<u32> = Vec::new();
    let mut i: usize = 0;
    while i < n
        invariant
            group >= 1,
            n == counts@.len(),
            n <= bases@.len() * group,
            i <= n,
            local@.len() == n,
            offsets@.len() == i,
            total == prefix_total(counts@, n as int),
            forall|k: int| 0 <= k < i ==> #[trigger] offsets@[k] == prefix_total(counts@, k),
            bases_match(counts@, bases@, group as int),
            locals_match(counts@, local@, group as int),
        decreases n - i,
    {
        let own: usize = i / group;
        proof {
            let q = i as int / group as int;
            let m = bases@.len() as int;
            assert(q * group <= i && 0 <= q) by (nonlinear_arith)
                requires
                    q == i as int / group as int,
                    i >= 0,
                    group >= 1,
            ;
            assert(q < m) by (nonlinear_arith)
                requires
                    q * group <= i,
                    i < m * group,
                    group >= 1,
            ;
            assert(bases@[q] == prefix_total(counts@, q * group));
            assert(local@[i as int] == prefix_total(counts@, i as int) - prefix_total(
                counts@,
                group_start(i as int, group as int),
            ));
            lemma_prefix_total_monotonic(counts@, i as int, n as int);
        }
        offsets.push(bases[own] + local[i]);
        i += 1;
    }
    Ok(BucketCounts { offsets, total })
}

} // verus!
