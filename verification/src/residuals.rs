//! Residual grouping: points that share an x bit pattern form one group.
//!
//! The residual chart shows one entry per distinct x value: the mean of the
//! y values observed at that x, minus the fitted line there. Which points
//! share a group, how many groups there are and in what order they are
//! reported is decided here, bit pattern for bit pattern, and proved; the
//! caller averages each group's y values in floating point afterwards.
//! Groups are reported in order of each x value's first occurrence, which is
//! one of the stable orders the pipeline permits.

use vstd::prelude::*;
use crate::Point;

verus! {

/// The distinct x bit patterns of a point set, in order of first occurrence.
pub open spec fn distinct_xs(points: Seq<Point>) -> Seq<u64>
    decreases points.len(),
{
    if points.len() == 0 {
        Seq::empty()
    } else {
        let rest = distinct_xs(points.drop_last());
        if rest.contains(points.last().x_bits) {
            rest
        } else {
            rest.push(points.last().x_bits)
        }
    }
}

/// The y bit patterns of the points whose x equals `x`, in input order.
pub open spec fn group_ys(points: Seq<Point>, x: u64) -> Seq<u64>
    decreases points.len(),
{
    if points.len() == 0 {
        Seq::empty()
    } else {
        let rest = group_ys(points.drop_last(), x);
        if points.last().x_bits == x {
            rest.push(points.last().y_bits)
        } else {
            rest
        }
    }
}

/// Whether some point of the set has this x bit pattern.
pub open spec fn has_x(points: Seq<Point>, x: u64) -> bool {
    exists|i: int| 0 <= i < points.len() && points[i].x_bits == x
}

/// One residual group per distinct x value: `xs[k]` is the group's x bit
/// pattern and `ys[k]` the y bit patterns observed at it, position for
/// position.
pub struct ResidualGroups {
    pub xs: Vec<u64>,
    pub ys: Vec<Vec<u64>>,
}

/// The distinct-x sequence of a point set repeats no value, holds only x
/// values that occur in the set, and holds every x value that occurs.
pub proof fn lemma_distinct_xs_sound(points: Seq<Point>)
    ensures
        forall|i: int, j: int|
            0 <= i < j < distinct_xs(points).len() ==> distinct_xs(points)[i] != distinct_xs(
                points,
            )[j],
        forall|k: int| 0 <= k < distinct_xs(points).len() ==> has_x(points, distinct_xs(points)[k]),
        forall|i: int| 0 <= i < points.len() ==> distinct_xs(points).contains(points[i].x_bits),
    decreases points.len(),
{
    if points.len() == 0 {
    } else {
        let prefix = points.drop_last();
        lemma_distinct_xs_sound(prefix);
        assert(forall|k: int|
            0 <= k < distinct_xs(prefix).len() && has_x(prefix, distinct_xs(prefix)[k]) ==> has_x(
                points,
                distinct_xs(prefix)[k],
            ));
        assert(forall|i: int| 0 <= i < prefix.len() ==> points[i] == prefix[i]);
        let d = distinct_xs(prefix);
        let x = points.last().x_bits;
        assert forall|i: int| 0 <= i < points.len() implies distinct_xs(points).contains(
            points[i].x_bits,
        ) by {
            if i < prefix.len() {
                assert(d.contains(prefix[i].x_bits));
                let w = choose|w: int| 0 <= w < d.len() && d[w] == prefix[i].x_bits;
                assert(distinct_xs(points)[w] == points[i].x_bits);
            } else {
                if d.contains(x) {
                    let w = choose|w: int| 0 <= w < d.len() && d[w] == x;
                    assert(distinct_xs(points)[w] == x);
                } else {
                    assert(distinct_xs(points)[d.len() as int] == x);
                }
            }
        }
    }
}

/// The set of x values occurring in a point set.
pub open spec fn x_values(points: Seq<Point>) -> Set<u64> {
    Set::new(|x: u64| has_x(points, x))
}

/// There is exactly one residual group per distinct x value: the group
/// sequence is as long as the set of x values occurring in the input is
/// large.
pub proof fn lemma_one_group_per_distinct_x(points: Seq<Point>)
    ensures
        x_values(points).finite(),
        distinct_xs(points).len() == x_values(points).len(),
{
    broadcast use vstd::seq_lib::seq_to_set_is_finite;

    lemma_distinct_xs_sound(points);
    let d = distinct_xs(points);
    assert(d.no_duplicates());
    d.unique_seq_to_set();
    assert forall|x: u64| d.to_set().contains(x) implies x_values(points).contains(x) by {
        let k = choose|k: int| 0 <= k < d.len() && d[k] == x;
        assert(has_x(points, d[k]));
    }
    assert forall|x: u64| x_values(points).contains(x) implies d.to_set().contains(x) by {
        let i = choose|i: int| 0 <= i < points.len() && points[i].x_bits == x;
        assert(d.contains(points[i].x_bits));
    }
    assert(d.to_set() =~= x_values(points));
}

/// The combined size of the groups at the x values listed in `xs`.
pub open spec fn total_group_len(points: Seq<Point>, xs: Seq<u64>) -> int
    decreases xs.len(),
{
    if xs.len() == 0 {
        0
    } else {
        total_group_len(points, xs.drop_last()) + group_ys(points, xs.last()).len()
    }
}

/// How often `x` occurs in `xs`.
spec fn count_of(xs: Seq<u64>, x: u64) -> int
    decreases xs.len(),
{
    if xs.len() == 0 {
        0
    } else {
        count_of(xs.drop_last(), x) + if xs.last() == x {
            1 as int
        } else {
            0 as int
        }
    }
}

/// Appending one point grows the combined group size by the number of times
/// its x value is listed.
proof fn lemma_total_group_len_push(points: Seq<Point>, p: Point, xs: Seq<u64>)
    ensures
        total_group_len(points.push(p), xs) == total_group_len(points, xs) + count_of(
            xs,
            p.x_bits,
        ),
    decreases xs.len(),
{
    assert(points.push(p).drop_last() =~= points);
    if xs.len() == 0 {
    } else {
        lemma_total_group_len_push(points, p, xs.drop_last());
    }
}

/// In a sequence without repeats, a value listed once is counted once and a
/// value not listed is counted not at all.
proof fn lemma_count_of_distinct(xs: Seq<u64>, x: u64)
    requires
        forall|i: int, j: int| 0 <= i < j < xs.len() ==> xs[i] != xs[j],
    ensures
        xs.contains(x) ==> count_of(xs, x) == 1,
        !xs.contains(x) ==> count_of(xs, x) == 0,
    decreases xs.len(),
{
    if xs.len() == 0 {
    } else {
        let prefix = xs.drop_last();
        assert(forall|i: int| 0 <= i < prefix.len() ==> prefix[i] == xs[i]);
        lemma_count_of_distinct(prefix, x);
        if xs.last() == x {
            assert(!prefix.contains(x));
            assert(xs[xs.len() - 1] == x);
        } else {
            if prefix.contains(x) {
                let w = choose|w: int| 0 <= w < prefix.len() && prefix[w] == x;
                assert(xs[w] == x);
            }
            if xs.contains(x) {
                let w = choose|w: int| 0 <= w < xs.len() && xs[w] == x;
                assert(prefix[w] == x);
            }
        }
    }
}

/// An x value that occurs nowhere in the set has an empty group.
proof fn lemma_group_ys_absent(points: Seq<Point>, x: u64)
    requires
        !has_x(points, x),
    ensures
        group_ys(points, x).len() == 0,
    decreases points.len(),
{
    if points.len() == 0 {
    } else {
        let prefix = points.drop_last();
        assert(forall|i: int| 0 <= i < prefix.len() ==> prefix[i] == points[i]);
        assert(points[points.len() - 1].x_bits != x);
        lemma_group_ys_absent(prefix, x);
    }
}

/// Every point of the set lands in exactly one residual group: over the
/// distinct x values, the group sizes add up to the size of the point set.
pub proof fn lemma_groups_partition(points: Seq<Point>)
    ensures
        total_group_len(points, distinct_xs(points)) == points.len(),
    decreases points.len(),
{
    if points.len() == 0 {
    } else {
        let prefix = points.drop_last();
        let p = points.last();
        assert(prefix.push(p) =~= points);
        lemma_groups_partition(prefix);
        lemma_distinct_xs_sound(prefix);
        let d = distinct_xs(prefix);
        lemma_count_of_distinct(d, p.x_bits);
        lemma_total_group_len_push(prefix, p, d);
        if d.contains(p.x_bits) {
            assert(distinct_xs(points) == d);
        } else {
            assert(distinct_xs(points) == d.push(p.x_bits));
            assert(d.push(p.x_bits).drop_last() =~= d);
            if has_x(prefix, p.x_bits) {
                let w = choose|w: int| 0 <= w < prefix.len() && prefix[w].x_bits == p.x_bits;
                assert(d.contains(prefix[w].x_bits));
                assert(false);
            }
            lemma_group_ys_absent(prefix, p.x_bits);
            assert(group_ys(points, p.x_bits).len() == 1);
        }
    }
}

/// An x value that occurs in the set has a non-empty group.
pub proof fn lemma_group_ys_nonempty(points: Seq<Point>, x: u64)
    requires
        has_x(points, x),
    ensures
        group_ys(points, x).len() >= 1,
    decreases points.len(),
{
    if points.last().x_bits == x {
    } else {
        let i = choose|i: int| 0 <= i < points.len() && points[i].x_bits == x;
        assert(points.drop_last()[i] == points[i]);
        lemma_group_ys_nonempty(points.drop_last(), x);
    }
}

/// Collects the distinct x values, first occurrence first.
fn distinct_x_values(points: &Vec<Point>) -> (xs: Vec<u64>)
    ensures
        xs@ == distinct_xs(points@),
{
    let mut xs: Vec<u64> = Vec::new();
    let mut i: usize = 0;
    while i < points.len()
        invariant
            i <= points@.len(),
            xs@ == distinct_xs(points@.take(i as int)),
        decreases points@.len() - i,
    {
        proof {
            assert(points@.take(i + 1).drop_last() =~= points@.take(i as int));
        }
        let x: u64 = points[i].x_bits;
        let mut found: bool = false;
        let mut j: usize = 0;
        while j < xs.len()
            invariant
                j <= xs@.len(),
                found <==> exists|k: int| 0 <= k < j && xs@[k] == x,
            decreases xs@.len() - j,
        {
            if xs[j] == x {
                found = true;
            }
            j = j + 1;
        }
        if !found {
            xs.push(x);
        }
        i = i + 1;
    }
    proof {
        assert(points@.take(points@.len() as int) =~= points@);
    }
    xs
}

/// Collects the y values observed at one x, in input order.
fn collect_group(points: &Vec<Point>, x: u64) -> (group: Vec<u64>)
    ensures
        group@ == group_ys(points@, x),
{
    let mut group: Vec<u64> = Vec::new();
    let mut i: usize = 0;
    while i < points.len()
        invariant
            i <= points@.len(),
            group@ == group_ys(points@.take(i as int), x),
        decreases points@.len() - i,
    {
        proof {
            assert(points@.take(i + 1).drop_last() =~= points@.take(i as int));
        }
        if points[i].x_bits == x {
            group.push(points[i].y_bits);
        }
        i = i + 1;
    }
    proof {
        assert(points@.take(points@.len() as int) =~= points@);
    }
    group
}

/// Groups a point set by exact x bit pattern. One entry per distinct x, in
/// first-occurrence order; each group lists, in input order, the y values of
/// exactly the points carrying that x, and no group is empty.
pub fn group_by_x(points: &Vec<Point>) -> (r: ResidualGroups)
    ensures
        r.xs@.len() == r.ys@.len(),
        r.xs@ == distinct_xs(points@),
        forall|k: int| 0 <= k < r.xs@.len() ==> r.ys@[k]@ == group_ys(points@, r.xs@[k]),
        forall|k: int| 0 <= k < r.xs@.len() ==> r.ys@[k]@.len() >= 1,
{
    let xs = distinct_x_values(points);
    let mut ys: Vec<Vec<u64>> = Vec::new();
    let mut k: usize = 0;
    while k < xs.len()
        invariant
            k <= xs@.len(),
            ys@.len() == k,
            xs@ == distinct_xs(points@),
            forall|t: int| 0 <= t < k ==> ys@[t]@ == group_ys(points@, xs@[t]),
        decreases xs@.len() - k,
    {
        let group = collect_group(points, xs[k]);
        ys.push(group);
        k = k + 1;
    }
    proof {
        lemma_distinct_xs_sound(points@);
        assert forall|t: int| 0 <= t < xs@.len() implies ys@[t]@.len() >= 1 by {
            lemma_group_ys_nonempty(points@, xs@[t]);
        }
    }
    ResidualGroups { xs, ys }
}

} // verus!
