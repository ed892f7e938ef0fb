//! A bounding volume hierarchy over the scene's objects.
//!
//! Construction follows the bucketed surface-area heuristic: the longest axis
//! of the range's bounding box is split at the cheapest of eleven bucket
//! boundaries, falling back to a median split for tiny ranges and to a leaf
//! when splitting would cost more than scanning. Nodes live in a flat array;
//! children are created before their parent, so every child index is smaller
//! than its parent's, which also bounds the traversal recursion.

use vstd::prelude::*;
use vstd::pervasive::VecAdditionalExecFns;

use crate::alighned_box::AlighnedBox;
use crate::alighned_box::BOX_MAX;
use crate::alighned_box::center_spec;
use crate::alighned_box::union_spec;
use crate::geometry::Axis;
use crate::geometry::Intersection;
use crate::object::Object;
use crate::point::Point;
use crate::point::pv;
use crate::ray::Ray;
use crate::object::shape_intersect_spec;
use crate::scene::all_objects_wf;
use crate::scene::hit_sound;
use crate::vector::ninf;

verus! {

/// Number of SAH buckets along the split axis.
pub const SAH_BUCKETS: usize = 12;

/// Fixed traversal cost added to every split's SAH cost (0.125 units).
pub const SAH_TRAVERSAL_COST: i64 = 1250;

/// Largest object count the SAH cost arithmetic is specified for.
pub const MAX_OBJECTS: usize = 100_000_000;

/// One node of the flat tree. A node with `start != end` is a leaf owning the
/// objects in `[start, end)` of the reordered array; otherwise it is internal
/// and both children are present.
pub struct BVHNode {
    pub index: usize,
    pub bounding_box: AlighnedBox,
    pub left: Option<usize>,
    pub right: Option<usize>,
    pub split_axis: Option<Axis>,
    pub start: usize,
    pub end: usize,
}

/// Per-object data the builder works on: the object's slot in the input
/// array, its bounding box and the box's centroid.
pub struct BVHObjectInfo {
    pub index: usize,
    pub bounding_box: AlighnedBox,
    pub position: Point,
}

pub struct BVHTree {
    pub data: Vec<Object>,
    pub nodes: Vec<BVHNode>,
    pub max_primitives_in_node: usize,
    pub root: Option<usize>,
}

/// What every node of a well-formed tree satisfies at position `k`: its box
/// is real; a leaf's range lies within the object array and its box contains
/// the bounding box of every object it owns; an internal node's children come
/// before it and its box is exactly the union of theirs.
pub open spec fn node_wf(nodes: Seq<BVHNode>, k: int, objects: Seq<Object>) -> bool {
    let n = nodes[k];
    &&& n.bounding_box.proper()
    &&& n.index == k
    &&& if n.start != n.end {
        &&& n.start < n.end <= objects.len()
        &&& n.bounding_box == union_of_objects(objects, n.start as int, n.end as int)
        &&& forall|i: int|
            n.start <= i < n.end ==> crate::alighned_box::box_contains_spec(
                n.bounding_box,
                crate::object::shape_bounding_box_spec((#[trigger] objects[i]).shape),
            )
    } else {
        &&& (n.left matches Some(l) && (l as int) < k) && (n.right matches Some(r) && (r as int)
            < k)
        &&& n.bounding_box == union_spec(
            nodes[n.left->0 as int].bounding_box,
            nodes[n.right->0 as int].bounding_box,
        )
    }
}

pub open spec fn info_entry_wf(e: BVHObjectInfo, data: Seq<Object>) -> bool {
    &&& (e.index as int) < data.len()
    &&& e.bounding_box == crate::object::shape_bounding_box_spec(data[e.index as int].shape)
    &&& e.bounding_box.proper()
    &&& ninf(pv(e.position)) <= BOX_MAX as int
}

pub open spec fn info_range_wf(s: Seq<BVHObjectInfo>, start: int, end: int, data: Seq<Object>) -> bool {
    forall|k: int| start <= k < end ==> #[trigger] info_entry_wf(s[k], data)
}

/// The left fold of the bounding boxes of the info entries in `[start, end)`,
/// exactly as the builder accumulates them.
pub open spec fn union_of_infos(infos: Seq<BVHObjectInfo>, start: int, end: int) -> AlighnedBox
    decreases end - start,
{
    if end <= start + 1 {
        infos[start].bounding_box
    } else {
        union_spec(union_of_infos(infos, start, end - 1), infos[end - 1].bounding_box)
    }
}

/// The left fold of the bounding boxes of the objects in `[start, end)`.
pub open spec fn union_of_objects(objects: Seq<Object>, start: int, end: int) -> AlighnedBox
    decreases end - start,
{
    if end <= start + 1 {
        crate::object::shape_bounding_box_spec(objects[start].shape)
    } else {
        union_spec(
            union_of_objects(objects, start, end - 1),
            crate::object::shape_bounding_box_spec(objects[end - 1].shape),
        )
    }
}

/// Two box folds over ranges whose boxes agree pointwise are equal.
pub proof fn lemma_union_folds_agree(
    objects: Seq<Object>,
    ls: int,
    infos: Seq<BVHObjectInfo>,
    is_: int,
    n: int,
)
    requires
        1 <= n,
        forall|j: int|
            0 <= j < n ==> crate::object::shape_bounding_box_spec(
                (#[trigger] objects[ls + j]).shape,
            ) == infos[is_ + j].bounding_box,
    ensures
        union_of_objects(objects, ls, ls + n) == union_of_infos(infos, is_, is_ + n),
    decreases n,
{
    assert(crate::object::shape_bounding_box_spec(objects[ls + (n - 1)].shape) == infos[is_ + (n
        - 1)].bounding_box);
    if n == 1 {
        assert(union_of_objects(objects, ls, ls + 1) == crate::object::shape_bounding_box_spec(
            objects[ls].shape,
        ));
        assert(union_of_infos(infos, is_, is_ + 1) == infos[is_].bounding_box);
        assert(objects[ls + 0] == objects[ls] && infos[is_ + 0] == infos[is_]);
    } else {
        lemma_union_folds_agree(objects, ls, infos, is_, n - 1);
        assert(union_of_objects(objects, ls, ls + n) == union_spec(
            union_of_objects(objects, ls, ls + n - 1),
            crate::object::shape_bounding_box_spec(objects[ls + n - 1].shape),
        ));
        assert(union_of_infos(infos, is_, is_ + n) == union_spec(
            union_of_infos(infos, is_, is_ + n - 1),
            infos[is_ + n - 1].bounding_box,
        ));
    }
}

/// A box fold splits at any interior point into the union of the two parts.
pub proof fn lemma_union_of_objects_split(objects: Seq<Object>, start: int, mid: int, end: int)
    requires
        start < mid < end,
    ensures
        union_of_objects(objects, start, end) == union_spec(
            union_of_objects(objects, start, mid),
            union_of_objects(objects, mid, end),
        ),
    decreases end - mid,
{
    if end == mid + 1 {
    } else {
        lemma_union_of_objects_split(objects, start, mid, end - 1);
        crate::alighned_box::lemma_union_associative(
            union_of_objects(objects, start, mid),
            union_of_objects(objects, mid, end - 1),
            crate::object::shape_bounding_box_spec(objects[end - 1].shape),
        );
    }
}

/// A box fold reads only the range it folds over.
pub proof fn lemma_union_of_objects_stable(o1: Seq<Object>, o2: Seq<Object>, start: int, end: int)
    requires
        start < end,
        forall|k: int| start <= k < end ==> #[trigger] o1[k] == o2[k],
    ensures
        union_of_objects(o1, start, end) == union_of_objects(o2, start, end),
    decreases end - start,
{
    if end > start + 1 {
        lemma_union_of_objects_stable(o1, o2, start, end - 1);
    }
}

/// The contiguous object range a subtree owns: a leaf's own range; for an
/// internal node, from its left subtree's first slot to its right subtree's
/// last.
pub open spec fn subtree_range(nodes: Seq<BVHNode>, k: int) -> (int, int)
    decreases k,
{
    if !(0 <= k < nodes.len()) {
        (0, 0)
    } else {
        let n = nodes[k];
        if n.start != n.end {
            (n.start as int, n.end as int)
        } else {
            match (n.left, n.right) {
                (Some(l), Some(rc)) => if (l as int) < k && (rc as int) < k {
                    (subtree_range(nodes, l as int).0, subtree_range(nodes, rc as int).1)
                } else {
                    (0, 0)
                },
                _ => (0, 0),
            }
        }
    }
}

/// An internal node's children own abutting ranges, so together they own
/// exactly the parent's range: the leaf ranges beneath any node are pairwise
/// disjoint and cover the node's range without gaps.
pub open spec fn node_ranges_wf(nodes: Seq<BVHNode>, k: int) -> bool {
    let n = nodes[k];
    n.start == n.end ==> subtree_range(nodes, n.left->0 as int).1 == subtree_range(
        nodes,
        n.right->0 as int,
    ).0
}

/// A subtree's range depends only on the node array up to its root.
pub proof fn lemma_subtree_range_stable(nodes1: Seq<BVHNode>, nodes2: Seq<BVHNode>, k: int)
    requires
        0 <= k < nodes1.len() <= nodes2.len(),
        forall|j: int| 0 <= j <= k ==> #[trigger] nodes2[j] == nodes1[j],
    ensures
        subtree_range(nodes2, k) == subtree_range(nodes1, k),
    decreases k,
{
    let n = nodes1[k];
    if n.start == n.end {
        match (n.left, n.right) {
            (Some(l), Some(rc)) => {
                if (l as int) < k && (rc as int) < k {
                    lemma_subtree_range_stable(nodes1, nodes2, l as int);
                    lemma_subtree_range_stable(nodes1, nodes2, rc as int);
                }
            },
            _ => {},
        }
    }
}

/// The centroid bounding box of the entries in `[start, i)`: the fold of
/// point unions from the default box, as the builder accumulates it.
pub open spec fn centroid_box_spec(infos: Seq<BVHObjectInfo>, start: int, i: int) -> AlighnedBox
    decreases i - start,
{
    if i <= start {
        crate::alighned_box::default_box_spec()
    } else {
        union_spec(
            AlighnedBox { min: infos[i - 1].position, max: infos[i - 1].position },
            centroid_box_spec(infos, start, i - 1),
        )
    }
}

/// The SAH bucket of a centroid: its fractional offset within the centroid
/// box along the axis, scaled to `max` buckets and clamped.
pub open spec fn bucket_of_spec(cb: AlighnedBox, p: Point, axis: Axis, max: int) -> int {
    let v = crate::vector::vcomp(crate::alighned_box::offset_spec(cb, p), axis);
    if v <= 0 {
        0
    } else {
        let b = (v * max) / (crate::fixed::SCALE as int);
        if b < max {
            b
        } else {
            max
        }
    }
}

/// Counts and box unions of the entries of `[start, i)` at or below the split
/// bucket (first pair) and above it (second pair), as the builder scans them.
pub open spec fn sah_stats_spec(
    infos: Seq<BVHObjectInfo>,
    start: int,
    i: int,
    cb: AlighnedBox,
    axis: Axis,
    split: int,
) -> (int, AlighnedBox, int, AlighnedBox)
    decreases i - start,
{
    if i <= start {
        (
            0int,
            crate::alighned_box::default_box_spec(),
            0int,
            crate::alighned_box::default_box_spec(),
        )
    } else {
        let prev = sah_stats_spec(infos, start, i - 1, cb, axis, split);
        if bucket_of_spec(cb, infos[i - 1].position, axis, SAH_BUCKETS - 1 as int) <= split {
            (prev.0 + 1, union_spec(prev.1, infos[i - 1].bounding_box), prev.2, prev.3)
        } else {
            (prev.0, prev.1, prev.2 + 1, union_spec(prev.3, infos[i - 1].bounding_box))
        }
    }
}

/// The SAH cost of one candidate split, exactly as computed: the sides'
/// surface areas weighted by their counts, rescaled and divided by the total
/// area (left undivided when the total area is zero), plus the traversal cost.
pub open spec fn sah_cost_spec(
    infos: Seq<BVHObjectInfo>,
    start: int,
    end: int,
    cb: AlighnedBox,
    axis: Axis,
    split: int,
    sa_total: int,
) -> int {
    let st = sah_stats_spec(infos, start, end, cb, axis, split);
    let num = crate::alighned_box::surface_area_spec(st.1) * st.0
        + crate::alighned_box::surface_area_spec(st.3) * st.2;
    if sa_total > 0 {
        (num * crate::fixed::SCALE) / sa_total + SAH_TRAVERSAL_COST as int
    } else {
        num * crate::fixed::SCALE + SAH_TRAVERSAL_COST as int
    }
}

/// The first cost-minimizing split boundary among the first `k` candidates,
/// with the cost it attains.
pub open spec fn best_split_spec(
    infos: Seq<BVHObjectInfo>,
    start: int,
    end: int,
    cb: AlighnedBox,
    axis: Axis,
    sa_total: int,
    k: int,
) -> (int, int)
    decreases k,
{
    if k <= 0 {
        (0int, i128::MAX as int)
    } else {
        let prev = best_split_spec(infos, start, end, cb, axis, sa_total, k - 1);
        let c = sah_cost_spec(infos, start, end, cb, axis, k - 1, sa_total);
        if c < prev.1 {
            (k - 1, c)
        } else {
            prev
        }
    }
}

/// What the bucketed SAH step decides for a range: whether a leaf is emitted
/// (exactly when the range fits the per-leaf cap and scanning it costs no
/// more than the best split) and, otherwise, the chosen split bucket.
pub open spec fn sah_decision_spec(
    infos: Seq<BVHObjectInfo>,
    start: int,
    end: int,
    cb: AlighnedBox,
    axis: Axis,
    max_per_leaf: int,
) -> (bool, int) {
    let sa_total = crate::alighned_box::surface_area_spec(union_of_infos(infos, start, end));
    let best = best_split_spec(infos, start, end, cb, axis, sa_total, SAH_BUCKETS - 1 as int);
    let leaf = !(end - start > max_per_leaf || best.1 < (end - start)
        * (crate::fixed::SCALE as int));
    (leaf, best.0)
}

/// The entries of `[start, i)` whose centroid bucket lies above the split,
/// in scan order.
pub open spec fn entries_above(
    infos: Seq<BVHObjectInfo>,
    start: int,
    i: int,
    cb: AlighnedBox,
    axis: Axis,
    split: int,
) -> Seq<BVHObjectInfo>
    decreases i - start,
{
    if i <= start {
        Seq::empty()
    } else {
        let prev = entries_above(infos, start, i - 1, cb, axis, split);
        if bucket_of_spec(cb, infos[i - 1].position, axis, SAH_BUCKETS - 1 as int) > split {
            prev.push(infos[i - 1])
        } else {
            prev
        }
    }
}

/// The entries of `[start, i)` whose centroid bucket lies at or below the
/// split, in scan order.
pub open spec fn entries_at_or_below(
    infos: Seq<BVHObjectInfo>,
    start: int,
    i: int,
    cb: AlighnedBox,
    axis: Axis,
    split: int,
) -> Seq<BVHObjectInfo>
    decreases i - start,
{
    if i <= start {
        Seq::empty()
    } else {
        let prev = entries_at_or_below(infos, start, i - 1, cb, axis, split);
        if bucket_of_spec(cb, infos[i - 1].position, axis, SAH_BUCKETS - 1 as int) <= split {
            prev.push(infos[i - 1])
        } else {
            prev
        }
    }
}

/// The two filtered sequences of a range together hold all its entries.
pub proof fn lemma_entries_split_len(
    infos: Seq<BVHObjectInfo>,
    start: int,
    i: int,
    cb: AlighnedBox,
    axis: Axis,
    split: int,
)
    requires
        start <= i,
    ensures
        entries_above(infos, start, i, cb, axis, split).len() + entries_at_or_below(
            infos,
            start,
            i,
            cb,
            axis,
            split,
        ).len() == i - start,
    decreases i - start,
{
    if i > start {
        lemma_entries_split_len(infos, start, i - 1, cb, axis, split);
    }
}

/// Composing per-half multiset preservation across two permutation steps
/// preserves the whole range's multiset.
pub proof fn lemma_range_multiset_composition(
    info1: Seq<BVHObjectInfo>,
    info2: Seq<BVHObjectInfo>,
    fin: Seq<BVHObjectInfo>,
    start: int,
    mid: int,
    end: int,
)
    requires
        0 <= start <= mid <= end,
        end <= info1.len() && end <= info2.len() && end <= fin.len(),
        info2.subrange(start, mid).to_multiset() == info1.subrange(start, mid).to_multiset(),
        fin.subrange(mid, end).to_multiset() == info2.subrange(mid, end).to_multiset(),
        fin.subrange(start, mid) == info2.subrange(start, mid),
        info2.subrange(mid, end) == info1.subrange(mid, end),
    ensures
        fin.subrange(start, end).to_multiset() == info1.subrange(start, end).to_multiset(),
{
    assert(fin.subrange(start, end) =~= fin.subrange(start, mid) + fin.subrange(mid, end));
    vstd::seq_lib::lemma_multiset_commutative(fin.subrange(start, mid), fin.subrange(mid, end));
    assert(info1.subrange(start, end) =~= info1.subrange(start, mid) + info1.subrange(mid, end));
    vstd::seq_lib::lemma_multiset_commutative(
        info1.subrange(start, mid),
        info1.subrange(mid, end),
    );
}

/// After a stable partition laid the range out as `above ++ below` and each
/// half was only permuted further, the halves' multisets survive at the
/// partition boundary — also when the boundary was degenerate and a median
/// split recursed instead.
pub proof fn lemma_sah_halves(
    info1: Seq<BVHObjectInfo>,
    fin: Seq<BVHObjectInfo>,
    start: int,
    mid: int,
    end: int,
    above: Seq<BVHObjectInfo>,
    below: Seq<BVHObjectInfo>,
)
    requires
        0 <= start <= mid <= end,
        end <= info1.len() && end <= fin.len(),
        above.len() + below.len() == end - start,
        info1.subrange(start, end) == above + below,
        mid == start + above.len() || above.len() == 0 || above.len() == end - start,
        fin.subrange(start, mid).to_multiset() == info1.subrange(start, mid).to_multiset(),
        fin.subrange(mid, end).to_multiset() == info1.subrange(mid, end).to_multiset(),
        fin.subrange(start, end).to_multiset() == info1.subrange(start, end).to_multiset(),
    ensures
        fin.subrange(start, start + above.len() as int).to_multiset() == above.to_multiset(),
        fin.subrange(start + above.len() as int, end).to_multiset() == below.to_multiset(),
{
    let alen = above.len() as int;
    if mid == start + alen {
        assert(info1.subrange(start, mid) =~= above) by {
            assert forall|j: int| 0 <= j < alen implies info1.subrange(start, mid)[j]
                == above[j] by {
                assert(info1.subrange(start, end)[j] == (above + below)[j]);
            }
        }
        assert(info1.subrange(mid, end) =~= below) by {
            assert forall|j: int| 0 <= j < end - mid implies info1.subrange(mid, end)[j]
                == below[j] by {
                assert(info1.subrange(mid, end)[j] == info1[mid + j]);
                assert(info1.subrange(start, end)[alen + j] == info1[mid + j]);
                assert(info1.subrange(start, end)[alen + j] == (above + below)[alen + j]);
                assert((above + below)[alen + j] == below[j]);
            }
        }
    } else if alen == 0 {
        assert(above =~= Seq::<BVHObjectInfo>::empty());
        assert(fin.subrange(start, start) =~= Seq::<BVHObjectInfo>::empty());
        assert(info1.subrange(start, end) =~= below);
    } else {
        assert(alen == end - start);
        assert(below =~= Seq::<BVHObjectInfo>::empty());
        assert(fin.subrange(start + alen, end) =~= Seq::<BVHObjectInfo>::empty());
        assert(info1.subrange(start, end) =~= above);
    }
}

/// The hits found by scanning the objects of one leaf range in order.
pub open spec fn leaf_hits(data: Seq<Object>, r: Ray, start: int, end: int) -> Seq<
    (usize, Intersection),
>
    decreases end - start,
{
    if start >= end {
        Seq::empty()
    } else {
        let rest = leaf_hits(data, r, start, end - 1);
        match shape_intersect_spec(data[end - 1].shape, r) {
            Some(inter) => rest.push(((end - 1) as usize, inter)),
            None => rest,
        }
    }
}

/// The hits the traversal records under node `k`: nothing when the ray's
/// parameter line misses the node's box (the subtree is pruned), the leaf
/// scan for a leaf, and both children's hits in order for an internal node.
pub open spec fn subtree_hits(nodes: Seq<BVHNode>, data: Seq<Object>, k: int, r: Ray) -> Seq<
    (usize, Intersection),
>
    decreases k,
{
    if !(0 <= k < nodes.len()) {
        Seq::empty()
    } else {
        let n = nodes[k];
        if !crate::alighned_box::box_overlap_spec(n.bounding_box, r) {
            Seq::empty()
        } else if n.start != n.end {
            leaf_hits(data, r, n.start as int, n.end as int)
        } else {
            match (n.left, n.right) {
                (Some(l), Some(rc)) => if (l as int) < k && (rc as int) < k {
                    subtree_hits(nodes, data, l as int, r) + subtree_hits(nodes, data, rc as int, r)
                } else {
                    Seq::empty()
                },
                _ => Seq::empty(),
            }
        }
    }
}

/// The first minimum-distance entry among the first `n` recorded hits.
pub open spec fn best_hit_prefix(s: Seq<(usize, Intersection)>, n: int) -> Option<
    (usize, Intersection),
>
    decreases n,
{
    if n <= 0 {
        None
    } else {
        let prev = best_hit_prefix(s, n - 1);
        match prev {
            None => Some(s[n - 1]),
            Some((bi, binter)) => if s[n - 1].1.distance_spec() < binter.distance_spec() {
                Some(s[n - 1])
            } else {
                Some((bi, binter))
            },
        }
    }
}

/// What the tree traversal returns: the first minimum-distance hit among
/// everything recorded under the root, or nothing for an empty tree.
pub open spec fn bvh_trace_spec(t: BVHTree, r: Ray) -> Option<(usize, Intersection)> {
    match t.root {
        None => None,
        Some(root) => {
            let hits = subtree_hits(t.nodes@, t.data@, root as int, r);
            best_hit_prefix(hits, hits.len() as int)
        },
    }
}

/// Every ray that hits the object also meets the object's bounding box under
/// the widened pruning test. This is the one geometric fact the floored
/// fixed-point arithmetic does not let the intersection contracts derive: a
/// hit parameter can be floored across a box face. The nearest-hit law below
/// takes it as its hypothesis.
pub open spec fn object_box_covers(o: Object) -> bool {
    forall|r: Ray|
        r.wf() && (#[trigger] shape_intersect_spec(o.shape, r)) is Some
            ==> crate::alighned_box::box_overlap_spec(
            crate::object::shape_bounding_box_spec(o.shape),
            r,
        )
}

/// A pruned subtree holds no object the ray hits: the hit would imply overlap
/// of the object's box, hence of every enclosing node box up the chain.
pub proof fn lemma_pruned_subtree_misses(
    nodes: Seq<BVHNode>,
    objects: Seq<Object>,
    k: int,
    r: Ray,
    j: int,
)
    requires
        forall|q: int| 0 <= q < nodes.len() ==> #[trigger] node_wf(nodes, q, objects),
        forall|q: int| 0 <= q < nodes.len() ==> #[trigger] node_ranges_wf(nodes, q),
        all_objects_wf(objects),
        forall|i: int| 0 <= i < objects.len() ==> object_box_covers(#[trigger] objects[i]),
        0 <= k < nodes.len(),
        r.wf(),
        !crate::alighned_box::box_overlap_spec(nodes[k].bounding_box, r),
        subtree_range(nodes, k).0 <= j < subtree_range(nodes, k).1,
    ensures
        shape_intersect_spec(objects[j].shape, r) is None,
    decreases k,
{
    assert(node_wf(nodes, k, objects));
    let n = nodes[k];
    if n.start != n.end {
        if shape_intersect_spec(objects[j].shape, r) is Some {
            assert(object_box_covers(objects[j]));
            assert(objects[j].wf());
            crate::object::lemma_shape_bbox_proper(objects[j].shape);
            crate::alighned_box::lemma_overlap_monotone(
                crate::object::shape_bounding_box_spec(objects[j].shape),
                n.bounding_box,
                r,
            );
            assert(false);
        }
    } else {
        let l = n.left->0 as int;
        let rc = n.right->0 as int;
        assert(node_wf(nodes, l, objects));
        assert(node_wf(nodes, rc, objects));
        crate::alighned_box::lemma_union_contains(
            nodes[l].bounding_box,
            nodes[rc].bounding_box,
        );
        if crate::alighned_box::box_overlap_spec(nodes[l].bounding_box, r) {
            crate::alighned_box::lemma_overlap_monotone(
                nodes[l].bounding_box,
                n.bounding_box,
                r,
            );
        }
        if crate::alighned_box::box_overlap_spec(nodes[rc].bounding_box, r) {
            crate::alighned_box::lemma_overlap_monotone(
                nodes[rc].bounding_box,
                n.bounding_box,
                r,
            );
        }
        assert(node_ranges_wf(nodes, k));
        if j < subtree_range(nodes, l).1 {
            lemma_pruned_subtree_misses(nodes, objects, l, r, j);
        } else {
            lemma_pruned_subtree_misses(nodes, objects, rc, r, j);
        }
    }
}

/// Every hit within a leaf's range is recorded by the leaf scan.
pub proof fn lemma_leaf_hits_complete(data: Seq<Object>, r: Ray, start: int, end: int, j: int)
    requires
        start <= j < end,
        shape_intersect_spec(data[j].shape, r) is Some,
    ensures
        leaf_hits(data, r, start, end).contains(
            (j as usize, shape_intersect_spec(data[j].shape, r)->0),
        ),
    decreases end - start,
{
    let inter = shape_intersect_spec(data[j].shape, r)->0;
    if j == end - 1 {
        let rest = leaf_hits(data, r, start, end - 1);
        assert(leaf_hits(data, r, start, end)[rest.len() as int] == (j as usize, inter));
    } else {
        lemma_leaf_hits_complete(data, r, start, end - 1, j);
        let rest = leaf_hits(data, r, start, end - 1);
        let w = choose|w: int| 0 <= w < rest.len() && rest[w] == (j as usize, inter);
        assert(leaf_hits(data, r, start, end)[w] == (j as usize, inter));
    }
}

/// Every hit within an unpruned subtree's range is recorded by the traversal.
pub proof fn lemma_subtree_hits_complete(
    nodes: Seq<BVHNode>,
    objects: Seq<Object>,
    k: int,
    r: Ray,
    j: int,
)
    requires
        forall|q: int| 0 <= q < nodes.len() ==> #[trigger] node_wf(nodes, q, objects),
        forall|q: int| 0 <= q < nodes.len() ==> #[trigger] node_ranges_wf(nodes, q),
        all_objects_wf(objects),
        forall|i: int| 0 <= i < objects.len() ==> object_box_covers(#[trigger] objects[i]),
        0 <= k < nodes.len(),
        r.wf(),
        subtree_range(nodes, k).0 <= j < subtree_range(nodes, k).1,
        shape_intersect_spec(objects[j].shape, r) is Some,
    ensures
        subtree_hits(nodes, objects, k, r).contains(
            (j as usize, shape_intersect_spec(objects[j].shape, r)->0),
        ),
    decreases k,
{
    let inter = shape_intersect_spec(objects[j].shape, r)->0;
    assert(node_wf(nodes, k, objects));
    let n = nodes[k];
    if !crate::alighned_box::box_overlap_spec(n.bounding_box, r) {
        lemma_pruned_subtree_misses(nodes, objects, k, r, j);
        assert(false);
    } else if n.start != n.end {
        lemma_leaf_hits_complete(objects, r, n.start as int, n.end as int, j);
    } else {
        let l = n.left->0 as int;
        let rc = n.right->0 as int;
        assert(node_ranges_wf(nodes, k));
        let left_hits = subtree_hits(nodes, objects, l, r);
        let right_hits = subtree_hits(nodes, objects, rc, r);
        if j < subtree_range(nodes, l).1 {
            lemma_subtree_hits_complete(nodes, objects, l, r, j);
            let w = choose|w: int|
                0 <= w < left_hits.len() && left_hits[w] == (j as usize, inter);
            assert(subtree_hits(nodes, objects, k, r)[w] == (j as usize, inter));
        } else {
            lemma_subtree_hits_complete(nodes, objects, rc, r, j);
            let w = choose|w: int|
                0 <= w < right_hits.len() && right_hits[w] == (j as usize, inter);
            assert(subtree_hits(nodes, objects, k, r)[left_hits.len() + w] == (
                j as usize,
                inter,
            ));
        }
    }
}

/// A recorded-hit list is sound for a range: each entry is a real hit of its
/// object, object indices lie within the range and ascend strictly.
pub open spec fn hits_sound_in(
    hits: Seq<(usize, Intersection)>,
    objects: Seq<Object>,
    r: Ray,
    lo: int,
    hi: int,
) -> bool {
    &&& forall|p: int|
        0 <= p < hits.len() ==> lo <= (#[trigger] hits[p]).0 < hi && shape_intersect_spec(
            objects[hits[p].0 as int].shape,
            r,
        ) == Some(hits[p].1)
    &&& forall|p: int, q: int|
        0 <= p < q < hits.len() ==> (#[trigger] hits[p]).0 < (#[trigger] hits[q]).0
}

/// A subtree's range is ordered and lies within the object array.
pub proof fn lemma_subtree_range_ordered(nodes: Seq<BVHNode>, objects: Seq<Object>, k: int)
    requires
        forall|q: int| 0 <= q < nodes.len() ==> #[trigger] node_wf(nodes, q, objects),
        forall|q: int| 0 <= q < nodes.len() ==> #[trigger] node_ranges_wf(nodes, q),
        0 <= k < nodes.len(),
    ensures
        0 <= subtree_range(nodes, k).0 <= subtree_range(nodes, k).1 <= objects.len(),
    decreases k,
{
    assert(node_wf(nodes, k, objects));
    let n = nodes[k];
    if n.start == n.end {
        lemma_subtree_range_ordered(nodes, objects, n.left->0 as int);
        lemma_subtree_range_ordered(nodes, objects, n.right->0 as int);
        assert(node_ranges_wf(nodes, k));
    }
}

/// The leaf scan's records are sound for the scanned range.
pub proof fn lemma_leaf_hits_sound(data: Seq<Object>, r: Ray, start: int, end: int)
    requires
        0 <= start <= end <= data.len(),
        end <= usize::MAX,
    ensures
        hits_sound_in(leaf_hits(data, r, start, end), data, r, start, end),
    decreases end - start,
{
    if start < end {
        lemma_leaf_hits_sound(data, r, start, end - 1);
        let rest = leaf_hits(data, r, start, end - 1);
        let hits = leaf_hits(data, r, start, end);
        match shape_intersect_spec(data[end - 1].shape, r) {
            Some(inter) => {
                assert(hits == rest.push(((end - 1) as usize, inter)));
                assert forall|p: int|
                    0 <= p < hits.len() implies start <= (#[trigger] hits[p]).0 < end
                    && shape_intersect_spec(data[hits[p].0 as int].shape, r) == Some(
                    hits[p].1,
                ) by {
                    if p < rest.len() {
                        assert(hits[p] == rest[p]);
                    } else {
                        assert(hits[p] == ((end - 1) as usize, inter));
                    }
                }
                assert forall|p: int, q: int|
                    0 <= p < q < hits.len() implies (#[trigger] hits[p]).0 < (
                #[trigger] hits[q]).0 by {
                    assert(hits[p] == rest[p]);
                    if q < rest.len() {
                        assert(hits[q] == rest[q]);
                    } else {
                        assert(hits[q] == ((end - 1) as usize, inter));
                    }
                }
            },
            None => {
                assert(hits == rest);
            },
        }
    }
}

/// The traversal's records under a node are sound for the node's range.
pub proof fn lemma_subtree_hits_sound(
    nodes: Seq<BVHNode>,
    objects: Seq<Object>,
    k: int,
    r: Ray,
)
    requires
        forall|q: int| 0 <= q < nodes.len() ==> #[trigger] node_wf(nodes, q, objects),
        forall|q: int| 0 <= q < nodes.len() ==> #[trigger] node_ranges_wf(nodes, q),
        0 <= k < nodes.len(),
    ensures
        hits_sound_in(
            subtree_hits(nodes, objects, k, r),
            objects,
            r,
            subtree_range(nodes, k).0,
            subtree_range(nodes, k).1,
        ),
    decreases k,
{
    assert(node_wf(nodes, k, objects));
    let n = nodes[k];
    let hits = subtree_hits(nodes, objects, k, r);
    if !crate::alighned_box::box_overlap_spec(n.bounding_box, r) {
    } else if n.start != n.end {
        lemma_leaf_hits_sound(objects, r, n.start as int, n.end as int);
    } else {
        let l = n.left->0 as int;
        let rc = n.right->0 as int;
        lemma_subtree_hits_sound(nodes, objects, l, r);
        lemma_subtree_hits_sound(nodes, objects, rc, r);
        lemma_subtree_range_ordered(nodes, objects, l);
        lemma_subtree_range_ordered(nodes, objects, rc);
        assert(node_ranges_wf(nodes, k));
        let left_hits = subtree_hits(nodes, objects, l, r);
        let right_hits = subtree_hits(nodes, objects, rc, r);
        let lo = subtree_range(nodes, k).0;
        let hi = subtree_range(nodes, k).1;
        assert forall|p: int|
            0 <= p < hits.len() implies lo <= (#[trigger] hits[p]).0 < hi
            && shape_intersect_spec(objects[hits[p].0 as int].shape, r) == Some(hits[p].1) by {
            if p < left_hits.len() {
                assert(hits[p] == left_hits[p]);
            } else {
                assert(hits[p] == right_hits[p - left_hits.len()]);
            }
        }
        assert forall|p: int, q: int|
            0 <= p < q < hits.len() implies (#[trigger] hits[p]).0 < (#[trigger] hits[q]).0 by {
            if q < left_hits.len() {
                assert(hits[p] == left_hits[p]);
                assert(hits[q] == left_hits[q]);
            } else if p >= left_hits.len() {
                assert(hits[p] == right_hits[p - left_hits.len()]);
                assert(hits[q] == right_hits[q - left_hits.len()]);
            } else {
                assert(hits[p] == left_hits[p]);
                assert(hits[q] == right_hits[q - left_hits.len()]);
            }
        }
    }
}

/// The first minimum of a recorded-hit prefix: present exactly when the
/// prefix is nonempty, no recorded distance beats it, and everything recorded
/// before it is strictly farther.
pub proof fn lemma_best_hit_props(s: Seq<(usize, Intersection)>, n: int)
    requires
        0 <= n <= s.len(),
    ensures
        best_hit_prefix(s, n) is Some <==> n > 0,
        best_hit_prefix(s, n) matches Some(b) ==> exists|w: int|
            0 <= w < n && #[trigger] s[w] == b && (forall|p: int|
                0 <= p < w ==> (#[trigger] s[p]).1.distance_spec() > b.1.distance_spec()) && (
            forall|p: int|
                0 <= p < n ==> (#[trigger] s[p]).1.distance_spec() >= b.1.distance_spec()),
    decreases n,
{
    if n > 0 {
        lemma_best_hit_props(s, n - 1);
        let b = best_hit_prefix(s, n)->0;
        if n == 1 {
            assert(s[0] == b && (forall|p: int|
                0 <= p < 0 ==> (#[trigger] s[p]).1.distance_spec() > b.1.distance_spec()) && (
            forall|p: int|
                0 <= p < n ==> (#[trigger] s[p]).1.distance_spec() >= b.1.distance_spec()));
        } else {
            let prev = best_hit_prefix(s, n - 1)->0;
            let w0 = choose|w: int|
                0 <= w < n - 1 && #[trigger] s[w] == prev && (forall|p: int|
                    0 <= p < w ==> (#[trigger] s[p]).1.distance_spec()
                        > prev.1.distance_spec()) && (forall|p: int|
                    0 <= p < n - 1 ==> (#[trigger] s[p]).1.distance_spec()
                        >= prev.1.distance_spec());
            if s[n - 1].1.distance_spec() < prev.1.distance_spec() {
                assert(s[n - 1] == b && (forall|p: int|
                    0 <= p < n - 1 ==> (#[trigger] s[p]).1.distance_spec()
                        > b.1.distance_spec()) && (forall|p: int|
                    0 <= p < n ==> (#[trigger] s[p]).1.distance_spec() >= b.1.distance_spec()));
            } else {
                assert(s[w0] == b && (forall|p: int|
                    0 <= p < w0 ==> (#[trigger] s[p]).1.distance_spec() > b.1.distance_spec())
                    && (forall|p: int|
                    0 <= p < n ==> (#[trigger] s[p]).1.distance_spec() >= b.1.distance_spec()));
            }
        }
    }
}

/// The nearest-hit law for the tree traversal: over a well-formed, nonempty
/// tree whose every object's hits imply overlap of the object's bounding box
/// ([`object_box_covers`]), the traversal returns exactly the nearest hit,
/// ties to the lowest object slot — the same promise the linear tracer's
/// contract makes. The covering hypothesis is the one geometric fact the
/// floored fixed-point arithmetic leaves open; [`BVHTree::new`] establishes
/// every other hypothesis.
pub proof fn lemma_bvh_trace_nearest(t: BVHTree, r: Ray)
    requires
        t.wf(),
        forall|i: int| 0 <= i < t.data@.len() ==> object_box_covers(#[trigger] t.data@[i]),
        r.wf(),
        t.root is Some || t.data@.len() == 0,
    ensures
        crate::scene::hit_nearest(t.data@, r, bvh_trace_spec(t, r)),
{
    let nodes = t.nodes@;
    let objects = t.data@;
    match t.root {
        None => {
        },
        Some(root) => {
            let k = root as int;
            let hits = subtree_hits(nodes, objects, k, r);
            let n = hits.len() as int;
            lemma_subtree_hits_sound(nodes, objects, k, r);
            lemma_best_hit_props(hits, n);
            match best_hit_prefix(hits, n) {
                None => {
                    assert forall|j: int|
                        0 <= j < objects.len() implies #[trigger] shape_intersect_spec(
                        objects[j].shape,
                        r,
                    ) is None by {
                        if shape_intersect_spec(objects[j].shape, r) is Some {
                            lemma_subtree_hits_complete(nodes, objects, k, r, j);
                        }
                    }
                },
                Some((bi, binter)) => {
                    let b = (bi, binter);
                    let w = choose|w: int|
                        0 <= w < n && #[trigger] hits[w] == b && (forall|p: int|
                            0 <= p < w ==> (#[trigger] hits[p]).1.distance_spec()
                                > b.1.distance_spec()) && (forall|p: int|
                            0 <= p < n ==> (#[trigger] hits[p]).1.distance_spec()
                                >= b.1.distance_spec());
                    assert forall|j: int|
                        0 <= j < objects.len() implies match #[trigger] shape_intersect_spec(
                        objects[j].shape,
                        r,
                    ) {
                        Some(x) => x.distance_spec() >= binter.distance_spec(),
                        None => true,
                    } by {
                        if shape_intersect_spec(objects[j].shape, r) is Some {
                            lemma_subtree_hits_complete(nodes, objects, k, r, j);
                            let inter = shape_intersect_spec(objects[j].shape, r)->0;
                            let p = choose|p: int|
                                0 <= p < hits.len() && hits[p] == (j as usize, inter);
                            assert(hits[p].1.distance_spec() >= binter.distance_spec());
                        }
                    }
                    assert forall|j: int|
                        0 <= j < bi implies match #[trigger] shape_intersect_spec(
                        objects[j].shape,
                        r,
                    ) {
                        Some(x) => x.distance_spec() > binter.distance_spec(),
                        None => true,
                    } by {
                        if shape_intersect_spec(objects[j].shape, r) is Some {
                            lemma_subtree_hits_complete(nodes, objects, k, r, j);
                            let inter = shape_intersect_spec(objects[j].shape, r)->0;
                            let p = choose|p: int|
                                0 <= p < hits.len() && hits[p] == (j as usize, inter);
                            // indices ascend strictly, so the entry for `j`
                            // comes before the winner's
                            if p > w {
                                assert(hits[w].0 < hits[p].0);
                                assert(false);
                            } else if p == w {
                                assert(false);
                            }
                            assert(hits[p].1.distance_spec() > binter.distance_spec());
                        }
                    }
                },
            }
        },
    }
}

/// The objects the info entries stand for, in entry order.
pub open spec fn objs_of(data: Seq<Object>, infos: Seq<BVHObjectInfo>) -> Seq<Object> {
    infos.map_values(|e: BVHObjectInfo| data[e.index as int])
}

/// Reordering info entries reorders the objects they stand for: the object
/// multisets agree whenever the entry multisets do.
pub proof fn lemma_objs_of_permutation(
    data: Seq<Object>,
    s1: Seq<BVHObjectInfo>,
    s2: Seq<BVHObjectInfo>,
)
    requires
        s1.to_multiset() == s2.to_multiset(),
    ensures
        objs_of(data, s1).to_multiset() == objs_of(data, s2).to_multiset(),
    decreases s1.len(),
{
    broadcast use vstd::seq_lib::group_to_multiset_ensures;

    s1.to_multiset_ensures();
    s2.to_multiset_ensures();
    if s1.len() == 0 {
        assert(s1.to_multiset().len() == 0);
        assert(s2.len() == s2.to_multiset().len());
        assert(s2.len() == 0);
        assert(objs_of(data, s1) =~= objs_of(data, s2));
    } else {
        let e = s1.last();
        let s1p = s1.drop_last();
        assert(s1 =~= s1p.push(e));
        assert(s1.to_multiset() =~= s1p.to_multiset().insert(e));
        assert(s1.contains(e));
        assert(s2.to_multiset().count(e) > 0);
        assert(s2.contains(e));
        let j = choose|j: int| 0 <= j < s2.len() && s2[j] == e;
        let s2p = s2.remove(j);
        assert(s2p.to_multiset() =~= s2.to_multiset().remove(e));
        assert(s1p.to_multiset() =~= s2p.to_multiset()) by {
            assert(s1p.to_multiset() =~= s1.to_multiset().remove(e));
        }
        lemma_objs_of_permutation(data, s1p, s2p);
        assert(objs_of(data, s1) =~= objs_of(data, s1p).push(data[e.index as int]));
        assert(objs_of(data, s1).to_multiset() =~= objs_of(data, s1p).to_multiset().insert(
            data[e.index as int],
        ));
        assert(objs_of(data, s2p) =~= objs_of(data, s2).remove(j));
        assert(objs_of(data, s2).remove(j).to_multiset() =~= objs_of(data, s2).to_multiset().remove(
            objs_of(data, s2)[j],
        )) by {
            vstd::seq_lib::to_multiset_remove(objs_of(data, s2), j);
        }
        assert(objs_of(data, s2)[j] == data[e.index as int]);
        assert(objs_of(data, s2).to_multiset().contains(data[e.index as int]));
        assert(objs_of(data, s1).to_multiset() =~= objs_of(data, s2).to_multiset());
    }
}

impl BVHObjectInfo {
    pub fn new(index: usize, bounding_box: AlighnedBox) -> (r: BVHObjectInfo)
        requires
            bounding_box.proper(),
        ensures
            r.index == index,
            r.bounding_box == bounding_box,
            r.position == center_spec(bounding_box),
            ninf(pv(r.position)) <= BOX_MAX as int,
    {
        let position: Point = bounding_box.center();
        BVHObjectInfo { index, bounding_box, position }
    }
}

impl BVHNode {
    /// A leaf owning `[start, end)`.
    pub fn new(index: usize, bounding_box: AlighnedBox, start: usize, end: usize) -> (r: BVHNode)
        ensures
            r.index == index,
            r.bounding_box == bounding_box,
            r.left is None && r.right is None && r.split_axis is None,
            r.start == start && r.end == end,
    {
        BVHNode { index, bounding_box, left: None, right: None, split_axis: None, start, end }
    }

    /// An internal node over two already-built children.
    pub fn from_childrens(left: &BVHNode, right: &BVHNode, axis: Axis, index: usize) -> (r: BVHNode)
        ensures
            r.index == index,
            r.bounding_box == union_spec(left.bounding_box, right.bounding_box),
            r.left == Some(left.index) && r.right == Some(right.index),
            r.split_axis == Some(axis),
            r.start == 0 && r.end == 0,
    {
        BVHNode {
            index,
            bounding_box: left.bounding_box.union(&right.bounding_box),
            left: Some(left.index),
            right: Some(right.index),
            split_axis: Some(axis),
            start: 0,
            end: 0,
        }
    }
}

impl BVHTree {
    pub open spec fn wf(self) -> bool {
        &&& all_objects_wf(self.data@)
        &&& forall|k: int|
            0 <= k < self.nodes@.len() ==> #[trigger] node_wf(self.nodes@, k, self.data@)
        &&& forall|k: int| 0 <= k < self.nodes@.len() ==> #[trigger] node_ranges_wf(self.nodes@, k)
        &&& self.root matches Some(r) ==> (r as int) < self.nodes@.len() && subtree_range(
            self.nodes@,
            r as int,
        ) == (0int, self.data@.len() as int)
    }

    /// Build the tree: per-object info first, then the recursive split, which
    /// reorders the objects into leaf-contiguous slots.
    #[verifier::loop_isolation(false)]
    pub fn new(objects: Vec<Object>, max_primitives_in_node: usize) -> (r: BVHTree)
        requires
            all_objects_wf(objects@),
            objects@.len() <= MAX_OBJECTS,
        ensures
            r.wf(),
            r.data@.len() == objects@.len(),
            r.data@.to_multiset() == objects@.to_multiset(),
            objects@.len() > 0 ==> r.root is Some,
    {
        let len: usize = objects.len();
        let mut info: Vec<BVHObjectInfo> = Vec::new();
        let mut i: usize = 0;
        while i < len
            invariant
                0 <= i <= len,
                len == objects@.len() <= MAX_OBJECTS,
                all_objects_wf(objects@),
                info@.len() == i,
                info_range_wf(info@, 0, i as int, objects@),
                forall|k: int| 0 <= k < i ==> (#[trigger] info@[k]).index == k,
            decreases len - i,
        {
            proof {
                assert(objects@[i as int].wf());
            }
            let entry: BVHObjectInfo = BVHObjectInfo::new(i, objects[i].bounding_box());
            info.push(entry);
            i += 1;
        }
        let mut tree: BVHTree = BVHTree {
            data: objects,
            nodes: Vec::new(),
            max_primitives_in_node,
            root: None,
        };
        let ghost info0 = info@;
        let mut reordered: Vec<Object> = Vec::new();
        let root: Option<usize> = tree.recursive_build(&mut info, &mut reordered, 0, len);
        proof {
            assert(reordered@.subrange(0, reordered@.len() as int) =~= reordered@);
            assert(info0.subrange(0, len as int) =~= info0);
            assert(objs_of(tree.data@, info0) =~= tree.data@);
        }
        tree.root = root;
        tree.data = reordered;
        tree
    }

    /// Split `[start, end)` of the info array into a subtree, appending the
    /// objects of each emitted leaf to `objects` so that leaves own contiguous
    /// ranges of the reordered array.
    #[verifier::loop_isolation(false)]
    #[verifier::rlimit(100)]
    fn recursive_build(
        &mut self,
        info: &mut Vec<BVHObjectInfo>,
        objects: &mut Vec<Object>,
        start: usize,
        end: usize,
    ) -> (res: Option<usize>)
        requires
            start <= end <= old(info)@.len(),
            end - start <= MAX_OBJECTS,
            old(objects)@.len() + (end - start) <= usize::MAX,
            all_objects_wf(old(self).data@),
            info_range_wf(old(info)@, start as int, end as int, old(self).data@),
            forall|k: int|
                0 <= k < old(self).nodes@.len() ==> #[trigger] node_wf(
                    old(self).nodes@,
                    k,
                    old(objects)@,
                ),
            forall|k: int|
                0 <= k < old(self).nodes@.len() ==> #[trigger] node_ranges_wf(
                    old(self).nodes@,
                    k,
                ),
            all_objects_wf(old(objects)@),
        ensures
            final(self).data == old(self).data,
            final(self).max_primitives_in_node == old(self).max_primitives_in_node,
            final(self).root == old(self).root,
            final(info)@.len() == old(info)@.len(),
            forall|k: int|
                0 <= k < old(info)@.len() && !(start <= k < end) ==> final(info)@[k] == old(
                    info,
                )@[k],
            final(info)@.subrange(start as int, end as int).to_multiset() == old(info)@.subrange(
                start as int,
                end as int,
            ).to_multiset(),
            info_range_wf(final(info)@, start as int, end as int, old(self).data@),
            final(objects)@.len() == old(objects)@.len() + (end - start),
            forall|k: int| 0 <= k < old(objects)@.len() ==> final(objects)@[k] == old(objects)@[k],
            all_objects_wf(final(objects)@),
            final(objects)@.subrange(
                old(objects)@.len() as int,
                final(objects)@.len() as int,
            ).to_multiset() == objs_of(
                old(self).data@,
                old(info)@.subrange(start as int, end as int),
            ).to_multiset(),
            old(self).nodes@.len() <= final(self).nodes@.len(),
            forall|k: int|
                0 <= k < old(self).nodes@.len() ==> final(self).nodes@[k] == old(self).nodes@[k],
            forall|k: int|
                0 <= k < final(self).nodes@.len() ==> #[trigger] node_wf(
                    final(self).nodes@,
                    k,
                    final(objects)@,
                ),
            forall|k: int|
                0 <= k < final(self).nodes@.len() ==> #[trigger] node_ranges_wf(
                    final(self).nodes@,
                    k,
                ),
            res matches Some(idx) ==> subtree_range(final(self).nodes@, idx as int) == (
                old(objects)@.len() as int,
                final(objects)@.len() as int,
            ),
            res matches Some(idx) ==> final(self).nodes@[idx as int].bounding_box
                == union_of_objects(
                final(objects)@,
                old(objects)@.len() as int,
                final(objects)@.len() as int,
            ),
            ({
                let bound0 = union_of_infos(old(info)@, start as int, end as int);
                let axis0 = crate::alighned_box::longest_axis_spec(bound0);
                let cb0 = centroid_box_spec(old(info)@, start as int, end as int);
                (end - start > 4 && crate::vector::vcomp(pv(cb0.min), axis0)
                    != crate::vector::vcomp(pv(cb0.max), axis0)) ==> ({
                    let d = sah_decision_spec(
                        old(info)@,
                        start as int,
                        end as int,
                        cb0,
                        axis0,
                        old(self).max_primitives_in_node as int,
                    );
                    let above = entries_above(
                        old(info)@,
                        start as int,
                        end as int,
                        cb0,
                        axis0,
                        d.1,
                    );
                    let below = entries_at_or_below(
                        old(info)@,
                        start as int,
                        end as int,
                        cb0,
                        axis0,
                        d.1,
                    );
                    res matches Some(idx) && if d.0 {
                        final(self).nodes@[idx as int].start != final(self).nodes@[idx as int].end
                    } else {
                        final(self).nodes@[idx as int].start == final(self).nodes@[idx as int].end
                            && final(info)@.subrange(
                            start as int,
                            start + above.len() as int,
                        ).to_multiset() == above.to_multiset() && final(info)@.subrange(
                            start + above.len() as int,
                            end as int,
                        ).to_multiset() == below.to_multiset()
                    }
                })
            }),
            if start < end {
                res matches Some(idx) && old(self).nodes@.len() <= idx as int && (idx as int)
                    < final(self).nodes@.len()
            } else {
                res is None
            },
        decreases end - start,
    {
        if start >= end {
            proof {
                assert(objects@.subrange(objects@.len() as int, objects@.len() as int) =~= objs_of(
                    self.data@,
                    info@.subrange(start as int, end as int),
                ));
            }
            return None;
        }
        let n: usize = end - start;
        let bound: AlighnedBox = bound_of_range(info, start, end, Ghost(self.data@));
        if n == 1 {
            let idx: usize = self.push_leaf(bound, info, objects, start, end);
            proof {
                assert(objects@.subrange(old(objects)@.len() as int, objects@.len() as int)
                    =~= objs_of(self.data@, info@.subrange(start as int, end as int)));
                assert(info@.subrange(start as int, end as int) =~= old(info)@.subrange(
                    start as int,
                    end as int,
                ));
            }
            return Some(idx);
        }
        let axis: Axis = bound.longest_axis();
        let centroid_box: AlighnedBox = centroid_box_of_range(info, start, end, Ghost(self.data@));
        let mut mid: usize = start + n / 2;
        proof {
            assert(centroid_box == centroid_box_spec(old(info)@, start as int, end as int));
            assert(bound == union_of_infos(old(info)@, start as int, end as int));
        }
        if centroid_box.min.index(axis) == centroid_box.max.index(axis) {
            let idx: usize = self.push_leaf(bound, info, objects, start, end);
            proof {
                assert(objects@.subrange(old(objects)@.len() as int, objects@.len() as int)
                    =~= objs_of(self.data@, info@.subrange(start as int, end as int)));
                assert(info@.subrange(start as int, end as int) =~= old(info)@.subrange(
                    start as int,
                    end as int,
                ));
            }
            return Some(idx);
        }
        if n <= 4 {
            sort_by_centroid(info, start, end, axis, Ghost(self.data@));
        } else {
            let (best_bucket, best_cost): (usize, i128) = choose_sah_bucket(
                info,
                start,
                end,
                &centroid_box,
                axis,
                &bound,
                Ghost(self.data@),
            );
            let leaf_cost: i128 = (n as i128) * (crate::fixed::SCALE as i128);
            proof {
                let d = sah_decision_spec(
                    old(info)@,
                    start as int,
                    end as int,
                    centroid_box,
                    axis,
                    self.max_primitives_in_node as int,
                );
                assert(d.1 == best_bucket as int && d.0 == !(n > self.max_primitives_in_node
                    || best_cost < leaf_cost));
            }
            if n > self.max_primitives_in_node || best_cost < leaf_cost {
                mid = partition_by_bucket(
                    info,
                    start,
                    end,
                    &centroid_box,
                    axis,
                    best_bucket,
                    Ghost(self.data@),
                );
                proof {
                    lemma_entries_split_len(
                        old(info)@,
                        start as int,
                        end as int,
                        centroid_box,
                        axis,
                        best_bucket as int,
                    );
                }
                if mid == start || mid == end {
                    // All centroids landed on one side of the chosen boundary;
                    // fall back to a median split so both halves shrink.
                    mid = start + n / 2;
                }
            } else {
                let idx: usize = self.push_leaf(bound, info, objects, start, end);
                proof {
                    assert(objects@.subrange(old(objects)@.len() as int, objects@.len() as int)
                        =~= objs_of(self.data@, info@.subrange(start as int, end as int)));
                    assert(info@.subrange(start as int, end as int) =~= old(info)@.subrange(
                        start as int,
                        end as int,
                    ));
                    assert(self.nodes@[idx as int].start != self.nodes@[idx as int].end);
                }
                return Some(idx);
            }
        }
        proof {
            vstd::arithmetic::div_mod::lemma_fundamental_div_mod(n as int, 2);
            vstd::arithmetic::div_mod::lemma_mod_bound(n as int, 2);
        }
        let ghost info1 = info@;
        let ghost objs0_len = objects@.len() as int;
        let left: Option<usize> = self.recursive_build(info, objects, start, mid);
        let ghost info2 = info@;
        let ghost objs1 = objects@;
        let ghost nodes_after_left = self.nodes@;
        let right: Option<usize> = self.recursive_build(info, objects, mid, end);
        let ghost nodes_after_right = self.nodes@;
        proof {
            let data = self.data@;
            let lo = old(objects)@.len() as int;
            let suffix_l = objs1.subrange(lo, objs1.len() as int);
            let suffix_r = objects@.subrange(objs1.len() as int, objects@.len() as int);
            assert(info2.subrange(mid as int, end as int) =~= info1.subrange(
                mid as int,
                end as int,
            ));
            assert(objects@.subrange(lo, objects@.len() as int) =~= suffix_l + suffix_r);
            vstd::seq_lib::lemma_multiset_commutative(suffix_l, suffix_r);
            assert(objs_of(data, info1.subrange(start as int, end as int)) =~= objs_of(
                data,
                info1.subrange(start as int, mid as int),
            ) + objs_of(data, info1.subrange(mid as int, end as int)));
            vstd::seq_lib::lemma_multiset_commutative(
                objs_of(data, info1.subrange(start as int, mid as int)),
                objs_of(data, info1.subrange(mid as int, end as int)),
            );
            lemma_objs_of_permutation(
                data,
                info1.subrange(start as int, end as int),
                old(info)@.subrange(start as int, end as int),
            );
        }
        let index: usize = self.nodes.len();
        let (li, ri): (usize, usize) = match (left, right) {
            (Some(l), Some(r)) => (l, r),
            _ => {
                proof {
                    assert(false);
                }
                (0, 0)
            },
        };
        proof {
            assert(node_wf(self.nodes@, li as int, objects@));
            assert(node_wf(self.nodes@, ri as int, objects@));
            crate::alighned_box::lemma_union_proper(
                self.nodes@[li as int].bounding_box,
                self.nodes@[ri as int].bounding_box,
            );
        }
        let ghost nodes_before = self.nodes@;
        let node: BVHNode = BVHNode::from_childrens(&self.nodes[li], &self.nodes[ri], axis, index);
        self.nodes.push(node);
        proof {
            assert forall|k: int| 0 <= k < self.nodes@.len() implies #[trigger] node_wf(
                self.nodes@,
                k,
                objects@,
            ) by {
                if k < self.nodes@.len() - 1 {
                    assert(node_wf(nodes_before, k, objects@));
                    assert(self.nodes@[k] == nodes_before[k]);
                }
            }
            // The children's ranges survive the right call and the parent push.
            lemma_subtree_range_stable(nodes_after_left, nodes_after_right, li as int);
            lemma_subtree_range_stable(nodes_after_right, self.nodes@, li as int);
            lemma_subtree_range_stable(nodes_after_right, self.nodes@, ri as int);
            assert(subtree_range(self.nodes@, li as int) == (objs0_len, objs1.len() as int));
            assert(subtree_range(self.nodes@, ri as int) == (
                objs1.len() as int,
                objects@.len() as int,
            ));
            assert(subtree_range(self.nodes@, index as int) == (
                objs0_len,
                objects@.len() as int,
            ));
            assert(node_ranges_wf(self.nodes@, index as int));
            assert forall|k: int| 0 <= k < self.nodes@.len() implies #[trigger] node_ranges_wf(
                self.nodes@,
                k,
            ) by {
                if k < self.nodes@.len() - 1 {
                    assert(node_ranges_wf(nodes_before, k));
                    assert(node_wf(nodes_before, k, objects@));
                    let n = nodes_before[k];
                    if n.start == n.end {
                        lemma_subtree_range_stable(nodes_before, self.nodes@, n.left->0 as int);
                        lemma_subtree_range_stable(nodes_before, self.nodes@, n.right->0 as int);
                    }
                }
            }
            // The parent's box is the union over everything its subtree owns:
            // each child's box is the union over its half, and the halves abut.
            assert(nodes_after_left[li as int].bounding_box == union_of_objects(
                objs1,
                objs0_len,
                objs1.len() as int,
            ));
            lemma_union_of_objects_stable(
                objs1,
                objects@,
                objs0_len,
                objs1.len() as int,
            );
            assert(self.nodes@[index as int].bounding_box == union_spec(
                union_of_objects(objects@, objs0_len, objs1.len() as int),
                union_of_objects(objects@, objs1.len() as int, objects@.len() as int),
            ));
            lemma_union_of_objects_split(
                objects@,
                objs0_len,
                objs1.len() as int,
                objects@.len() as int,
            );
            // The range's entries were only permuted: compose both halves'
            // multiset preservation across the two recursive calls.
            assert(info@.subrange(start as int, mid as int) =~= info2.subrange(
                start as int,
                mid as int,
            ));
            lemma_range_multiset_composition(
                info1,
                info2,
                info@,
                start as int,
                mid as int,
                end as int,
            );
            // The bucketed SAH clause, when its guard holds: the partition
            // placed the above-the-split entries first, and each half's
            // multiset then survived its recursion.
            let bound0 = union_of_infos(old(info)@, start as int, end as int);
            let axis0 = crate::alighned_box::longest_axis_spec(bound0);
            let cb0 = centroid_box_spec(old(info)@, start as int, end as int);
            if end - start > 4 && crate::vector::vcomp(pv(cb0.min), axis0)
                != crate::vector::vcomp(pv(cb0.max), axis0) {
                let d = sah_decision_spec(
                    old(info)@,
                    start as int,
                    end as int,
                    cb0,
                    axis0,
                    old(self).max_primitives_in_node as int,
                );
                let above = entries_above(old(info)@, start as int, end as int, cb0, axis0, d.1);
                let below = entries_at_or_below(
                    old(info)@,
                    start as int,
                    end as int,
                    cb0,
                    axis0,
                    d.1,
                );
                lemma_entries_split_len(old(info)@, start as int, end as int, cb0, axis0, d.1);
                assert(info1.subrange(start as int, end as int) == above + below);
                assert(mid as int == start + above.len() || above.len() == 0 || above.len() == end
                    - start);
                lemma_sah_halves(
                    info1,
                    info@,
                    start as int,
                    mid as int,
                    end as int,
                    above,
                    below,
                );
            }
        }
        Some(index)
    }

    /// Append a leaf node owning the objects of `[start, end)`, copied into
    /// the reordered array in info order.
    #[verifier::loop_isolation(false)]
    #[verifier::rlimit(100)]
    fn push_leaf(
        &mut self,
        bound: AlighnedBox,
        info: &Vec<BVHObjectInfo>,
        objects: &mut Vec<Object>,
        start: usize,
        end: usize,
    ) -> (res: usize)
        requires
            start < end <= info@.len(),
            old(objects)@.len() + (end - start) <= usize::MAX,
            bound.proper(),
            bound == union_of_infos(info@, start as int, end as int),
            forall|i: int|
                start <= i < end ==> crate::alighned_box::box_contains_spec(
                    bound,
                    (#[trigger] info@[i]).bounding_box,
                ),
            all_objects_wf(old(self).data@),
            info_range_wf(info@, start as int, end as int, old(self).data@),
            forall|k: int|
                0 <= k < old(self).nodes@.len() ==> #[trigger] node_wf(
                    old(self).nodes@,
                    k,
                    old(objects)@,
                ),
            forall|k: int|
                0 <= k < old(self).nodes@.len() ==> #[trigger] node_ranges_wf(
                    old(self).nodes@,
                    k,
                ),
            all_objects_wf(old(objects)@),
        ensures
            final(self).data == old(self).data,
            final(self).max_primitives_in_node == old(self).max_primitives_in_node,
            final(self).root == old(self).root,
            final(objects)@.len() == old(objects)@.len() + (end - start),
            forall|k: int| 0 <= k < old(objects)@.len() ==> final(objects)@[k] == old(objects)@[k],
            final(objects)@ == old(objects)@ + objs_of(
                old(self).data@,
                info@.subrange(start as int, end as int),
            ),
            all_objects_wf(final(objects)@),
            final(self).nodes@.len() == old(self).nodes@.len() + 1,
            forall|k: int|
                0 <= k < old(self).nodes@.len() ==> final(self).nodes@[k] == old(self).nodes@[k],
            forall|k: int|
                0 <= k < final(self).nodes@.len() ==> #[trigger] node_wf(
                    final(self).nodes@,
                    k,
                    final(objects)@,
                ),
            forall|k: int|
                0 <= k < final(self).nodes@.len() ==> #[trigger] node_ranges_wf(
                    final(self).nodes@,
                    k,
                ),
            subtree_range(final(self).nodes@, res as int) == (
                old(objects)@.len() as int,
                final(objects)@.len() as int,
            ),
            final(self).nodes@[res as int].start as int == old(objects)@.len(),
            final(self).nodes@[res as int].end as int == final(objects)@.len(),
            final(self).nodes@[res as int].bounding_box == union_of_objects(
                final(objects)@,
                old(objects)@.len() as int,
                final(objects)@.len() as int,
            ),
            res as int == old(self).nodes@.len(),
    {
        let index: usize = self.nodes.len();
        let node: BVHNode = BVHNode::new(index, bound, objects.len(), objects.len() + (end
            - start));
        let mut i: usize = start;
        while i < end
            invariant
                start <= i <= end <= info@.len(),
                all_objects_wf(self.data@),
                info_range_wf(info@, start as int, end as int, self.data@),
                objects@.len() == old(objects)@.len() + (i - start),
                forall|k: int| 0 <= k < old(objects)@.len() ==> objects@[k] == old(objects)@[k],
                objects@ == old(objects)@ + objs_of(
                    self.data@,
                    info@.subrange(start as int, i as int),
                ),
                all_objects_wf(objects@),
            decreases end - i,
        {
            proof {
                assert(info_entry_wf(info@[i as int], self.data@));
                assert(info@.subrange(start as int, i as int + 1) =~= info@.subrange(
                    start as int,
                    i as int,
                ).push(info@[i as int]));
            }
            let slot: usize = info[i].index;
            objects.push(self.data[slot].clone());
            proof {
                assert(objects@ =~= old(objects)@ + objs_of(
                    self.data@,
                    info@.subrange(start as int, i as int + 1),
                ));
            }
            i += 1;
        }
        self.nodes.push(node);
        proof {
            assert forall|i: int|
                node.start <= i < node.end implies crate::alighned_box::box_contains_spec(
                node.bounding_box,
                crate::object::shape_bounding_box_spec((#[trigger] objects@[i]).shape),
            ) by {
                let j = i - old(objects)@.len();
                assert(objects@[i] == objs_of(
                    self.data@,
                    info@.subrange(start as int, end as int),
                )[j]);
                assert(objects@[i] == self.data@[info@[start + j].index as int]);
                assert(info_entry_wf(info@[start + j], self.data@));
            }
            assert forall|j: int|
                0 <= j < end - start implies crate::object::shape_bounding_box_spec(
                (#[trigger] objects@[node.start + j]).shape,
            ) == info@[start + j].bounding_box by {
                assert(objects@[node.start + j] == objs_of(
                    self.data@,
                    info@.subrange(start as int, end as int),
                )[j]);
                assert(objects@[node.start + j] == self.data@[info@[start + j].index as int]);
                assert(info_entry_wf(info@[start + j], self.data@));
            }
            lemma_union_folds_agree(
                objects@,
                node.start as int,
                info@,
                start as int,
                (end - start) as int,
            );
            assert(node.bounding_box == union_of_objects(
                objects@,
                node.start as int,
                node.end as int,
            ));
            assert forall|k: int| 0 <= k < self.nodes@.len() implies #[trigger] node_wf(
                self.nodes@,
                k,
                objects@,
            ) by {
                if k < self.nodes@.len() - 1 {
                    assert(node_wf(old(self).nodes@, k, old(objects)@));
                    assert(self.nodes@[k] == old(self).nodes@[k]);
                    let n = old(self).nodes@[k];
                    if n.start != n.end {
                        lemma_union_of_objects_stable(
                            old(objects)@,
                            objects@,
                            n.start as int,
                            n.end as int,
                        );
                    }
                }
            }
            assert forall|k: int| 0 <= k < self.nodes@.len() implies #[trigger] node_ranges_wf(
                self.nodes@,
                k,
            ) by {
                if k < self.nodes@.len() - 1 {
                    assert(node_ranges_wf(old(self).nodes@, k));
                    assert(node_wf(old(self).nodes@, k, old(objects)@));
                    let n = old(self).nodes@[k];
                    if n.start == n.end {
                        lemma_subtree_range_stable(
                            old(self).nodes@,
                            self.nodes@,
                            n.left->0 as int,
                        );
                        lemma_subtree_range_stable(
                            old(self).nodes@,
                            self.nodes@,
                            n.right->0 as int,
                        );
                    }
                }
            }
            assert(subtree_range(self.nodes@, index as int) == (
                old(objects)@.len() as int,
                objects@.len() as int,
            ));
        }
        index
    }

    /// Walk the subtree at `idx`, appending every hit found in reachable
    /// leaves whose boxes the ray enters.
    #[verifier::loop_isolation(false)]
    fn trace_node(&self, idx: usize, ray: &Ray, hits: &mut Vec<(usize, Intersection)>)
        requires
            self.wf(),
            ray.wf(),
            (idx as int) < self.nodes@.len(),
            forall|k: int|
                0 <= k < old(hits)@.len() ==> hit_sound(
                    self.data@,
                    *ray,
                    Some(#[trigger] old(hits)@[k]),
                ),
        ensures
            final(hits)@ == old(hits)@ + subtree_hits(self.nodes@, self.data@, idx as int, *ray),
            forall|k: int|
                0 <= k < final(hits)@.len() ==> hit_sound(
                    self.data@,
                    *ray,
                    Some(#[trigger] final(hits)@[k]),
                ),
        decreases idx,
    {
        proof {
            assert(node_wf(self.nodes@, idx as int, self.data@));
        }
        let node: &BVHNode = &self.nodes[idx];
        if node.bounding_box.ray_overlaps(ray) {
            if node.end != node.start {
                let mut i: usize = node.start;
                while i < node.end
                    invariant
                        self.wf(),
                        ray.wf(),
                        node.start <= i <= node.end <= self.data@.len(),
                        hits@ == old(hits)@ + leaf_hits(
                            self.data@,
                            *ray,
                            node.start as int,
                            i as int,
                        ),
                        forall|k: int|
                            0 <= k < hits@.len() ==> hit_sound(
                                self.data@,
                                *ray,
                                Some(#[trigger] hits@[k]),
                            ),
                    decreases node.end - i,
                {
                    proof {
                        assert(self.data@[i as int].wf());
                    }
                    if let Some(intersection) = self.data[i].intersect(ray) {
                        hits.push((i, intersection));
                    }
                    proof {
                        assert(hits@ =~= old(hits)@ + leaf_hits(
                            self.data@,
                            *ray,
                            node.start as int,
                            i as int + 1,
                        ));
                    }
                    i += 1;
                }
                proof {
                    assert(subtree_hits(self.nodes@, self.data@, idx as int, *ray) == leaf_hits(
                        self.data@,
                        *ray,
                        node.start as int,
                        node.end as int,
                    ));
                }
            } else {
                let (l, rc): (usize, usize) = match (node.left, node.right) {
                    (Some(l), Some(rc)) => (l, rc),
                    _ => {
                        proof {
                            assert(false);
                        }
                        (0, 0)
                    },
                };
                self.trace_node(l, ray, hits);
                self.trace_node(rc, ray, hits);
                proof {
                    assert(subtree_hits(self.nodes@, self.data@, idx as int, *ray) == subtree_hits(
                        self.nodes@,
                        self.data@,
                        l as int,
                        *ray,
                    ) + subtree_hits(self.nodes@, self.data@, rc as int, *ray));
                    assert(hits@ =~= old(hits)@ + subtree_hits(
                        self.nodes@,
                        self.data@,
                        idx as int,
                        *ray,
                    ));
                }
            }
        } else {
            proof {
                assert(subtree_hits(self.nodes@, self.data@, idx as int, *ray) =~= Seq::<
                    (usize, Intersection),
                >::empty());
                assert(hits@ =~= old(hits)@ + subtree_hits(
                    self.nodes@,
                    self.data@,
                    idx as int,
                    *ray,
                ));
            }
        }
    }

    /// Trace the ray through the tree: prune subtrees whose boxes the ray's
    /// parameter line misses, scan reachable leaves, and return the first
    /// minimum-distance recorded hit — exactly [`bvh_trace_spec`]. In
    /// particular every reported hit is a real hit of the reported object,
    /// and an empty tree reports nothing.
    ///
    /// The contract pins the traversal's result completely. The global
    /// nearest-hit guarantee is [`lemma_bvh_trace_nearest`]: it holds under
    /// the one hypothesis the floored fixed-point arithmetic leaves open,
    /// that every hit of an object meets the object's bounding box under the
    /// slack-widened pruning test ([`object_box_covers`]). Agreement with the
    /// linear tracer is additionally exercised by tests.
    #[verifier::loop_isolation(false)]
    pub fn trace(&self, ray: &Ray) -> (res: Option<(usize, Intersection)>)
        requires
            self.wf(),
            ray.wf(),
        ensures
            res == bvh_trace_spec(*self, *ray),
            hit_sound(self.data@, *ray, res),
    {
        let root: usize = match self.root {
            Some(r) => r,
            None => {
                return None;
            },
        };
        let mut hits: Vec<(usize, Intersection)> = Vec::new();
        self.trace_node(root, ray, &mut hits);
        proof {
            assert(hits@ =~= subtree_hits(self.nodes@, self.data@, root as int, *ray));
        }
        let mut best: Option<(usize, Intersection)> = None;
        let mut i: usize = 0;
        while i < hits.len()
            invariant
                0 <= i <= hits@.len(),
                best == best_hit_prefix(hits@, i as int),
                forall|k: int|
                    0 <= k < hits@.len() ==> hit_sound(self.data@, *ray, Some(#[trigger] hits@[k])),
                hit_sound(self.data@, *ray, best),
            decreases hits@.len() - i,
        {
            let (obj, inter): (usize, Intersection) = hits[i];
            match best {
                None => {
                    best = Some((obj, inter));
                },
                Some((_, prev)) => {
                    if inter.distance() < prev.distance() {
                        best = Some((obj, inter));
                    }
                },
            }
            i += 1;
        }
        best
    }

    pub fn object_by_index(&self, index: usize) -> (r: &Object)
        requires
            index < self.data@.len(),
        ensures
            *r == self.data@[index as int],
    {
        &self.data[index]
    }
}

/// Which SAH bucket the point falls in along the axis, by its fractional
/// offset within the centroid box.
#[verifier::loop_isolation(false)]
fn calculate_index(
    centroid: &AlighnedBox,
    point: Point,
    axis: Axis,
    max_value: usize,
) -> (res: usize)
    requires
        centroid.proper(),
        ninf(pv(point)) <= BOX_MAX as int,
        max_value <= 100,
    ensures
        res as int == bucket_of_spec(*centroid, point, axis, max_value as int),
        res <= max_value,
{
    proof {
        crate::alighned_box::lemma_offset_bound(*centroid, point);
    }
    let o: crate::vector::Vector = centroid.offset(point);
    let v: i64 = o.index(axis);
    if v <= 0 {
        0
    } else {
        proof {
            crate::fixed::lemma_abs_mul(v as int, max_value as int, 5_000_000_000_000int, 100int);
            vstd::arithmetic::mul::lemma_mul_nonnegative(v as int, max_value as int);
            vstd::arithmetic::div_mod::lemma_div_pos_is_pos(
                (v as int) * (max_value as int),
                crate::fixed::SCALE as int,
            );
            crate::fixed::lemma_div_stays_in_range(
                (v as int) * (max_value as int),
                crate::fixed::SCALE as int,
            );
        }
        let b: i64 = (v * (max_value as i64)) / crate::fixed::SCALE;
        if b < max_value as i64 {
            b as usize
        } else {
            max_value
        }
    }
}

/// The bounding box of the range's entries: their boxes' left fold.
#[verifier::loop_isolation(false)]
fn bound_of_range(
    info: &Vec<BVHObjectInfo>,
    start: usize,
    end: usize,
    data: Ghost<Seq<Object>>,
) -> (bound: AlighnedBox)
    requires
        start < end <= info@.len(),
        info_range_wf(info@, start as int, end as int, data@),
    ensures
        bound == union_of_infos(info@, start as int, end as int),
        bound.proper(),
        forall|j: int|
            start <= j < end ==> crate::alighned_box::box_contains_spec(
                bound,
                (#[trigger] info@[j]).bounding_box,
            ),
{
    proof {
        assert(info_entry_wf(info@[start as int], data@));
    }
    let mut bound: AlighnedBox = info[start].bounding_box;
    let mut i: usize = start + 1;
    while i < end
        invariant
            start + 1 <= i <= end,
            bound.proper(),
            bound == union_of_infos(info@, start as int, i as int),
            forall|j: int|
                start <= j < i ==> crate::alighned_box::box_contains_spec(
                    bound,
                    (#[trigger] info@[j]).bounding_box,
                ),
        decreases end - i,
    {
        proof {
            assert(info_entry_wf(info@[i as int], data@));
            crate::alighned_box::lemma_union_proper(bound, info@[i as int].bounding_box);
            crate::alighned_box::lemma_union_contains(bound, info@[i as int].bounding_box);
        }
        bound = bound.union(&info[i].bounding_box);
        i += 1;
    }
    bound
}

/// The centroid bounding box of the range's entries.
#[verifier::loop_isolation(false)]
fn centroid_box_of_range(
    info: &Vec<BVHObjectInfo>,
    start: usize,
    end: usize,
    data: Ghost<Seq<Object>>,
) -> (cb: AlighnedBox)
    requires
        start <= end <= info@.len(),
        info_range_wf(info@, start as int, end as int, data@),
    ensures
        cb == centroid_box_spec(info@, start as int, end as int),
        start < end ==> cb.proper(),
{
    let mut centroid_box: AlighnedBox = AlighnedBox::default();
    let mut i2: usize = start;
    while i2 < end
        invariant
            start <= i2 <= end,
            centroid_box == centroid_box_spec(info@, start as int, i2 as int),
            centroid_box == crate::alighned_box::default_box_spec() || centroid_box.proper(),
            i2 > start ==> centroid_box.proper(),
        decreases end - i2,
    {
        proof {
            assert(info_entry_wf(info@[i2 as int], data@));
            let pt = info@[i2 as int].position;
            crate::alighned_box::lemma_union_accumulate(
                centroid_box,
                AlighnedBox { min: pt, max: pt },
            );
        }
        centroid_box = centroid_box.union_point(info[i2].position);
        i2 += 1;
    }
    centroid_box
}

/// Score all candidate split boundaries and return the first cost-minimizing
/// bucket with its cost; see [`best_split_spec`].
#[verifier::loop_isolation(false)]
fn choose_sah_bucket(
    info: &Vec<BVHObjectInfo>,
    start: usize,
    end: usize,
    centroid_box: &AlighnedBox,
    axis: Axis,
    bound: &AlighnedBox,
    data: Ghost<Seq<Object>>,
) -> (res: (usize, i128))
    requires
        start < end <= info@.len(),
        end - start <= MAX_OBJECTS,
        centroid_box.proper(),
        bound.wf(),
        info_range_wf(info@, start as int, end as int, data@),
    ensures
        (res.0 as int, res.1 as int) == best_split_spec(
            info@,
            start as int,
            end as int,
            *centroid_box,
            axis,
            crate::alighned_box::surface_area_spec(*bound),
            SAH_BUCKETS - 1 as int,
        ),
        res.0 < SAH_BUCKETS - 1,
{
    let mut best_bucket: usize = 0;
    let mut best_cost: i128 = i128::MAX;
    let mut split: usize = 0;
    while split < SAH_BUCKETS - 1
        invariant
            0 <= split <= SAH_BUCKETS - 1,
            best_bucket < SAH_BUCKETS - 1,
            start < end <= info@.len(),
            end - start <= MAX_OBJECTS,
            centroid_box.proper(),
            bound.wf(),
            info_range_wf(info@, start as int, end as int, data@),
            (best_bucket as int, best_cost as int) == best_split_spec(
                info@,
                start as int,
                end as int,
                *centroid_box,
                axis,
                crate::alighned_box::surface_area_spec(*bound),
                split as int,
            ),
        decreases SAH_BUCKETS - split,
    {
        let (count0, b0, count1, b1): (usize, AlighnedBox, usize, AlighnedBox) = split_stats(
            info,
            start,
            end,
            centroid_box,
            axis,
            split,
            data,
        );
        let sa0: i64 = b0.surface_area();
        let sa1: i64 = b1.surface_area();
        let sa_total: i64 = bound.surface_area();
        proof {
            crate::fixed::lemma_abs_mul(
                sa0 as int,
                count0 as int,
                crate::alighned_box::AREA_INF as int,
                MAX_OBJECTS as int,
            );
            crate::fixed::lemma_abs_mul(
                sa1 as int,
                count1 as int,
                crate::alighned_box::AREA_INF as int,
                MAX_OBJECTS as int,
            );
        }
        let num: i128 = (sa0 as i128) * (count0 as i128) + (sa1 as i128) * (count1 as i128);
        proof {
            crate::fixed::lemma_abs_mul(
                num as int,
                crate::fixed::SCALE as int,
                200_000_000_000_000_000_000_000int,
                crate::fixed::SCALE as int,
            );
        }
        let scaled: i128 = num * (crate::fixed::SCALE as i128);
        let cost: i128 = if sa_total > 0 {
            crate::fixed::div_floor_i128(scaled, sa_total as i128) + SAH_TRAVERSAL_COST as i128
        } else {
            scaled + SAH_TRAVERSAL_COST as i128
        };
        if cost < best_cost {
            best_cost = cost;
            best_bucket = split;
        }
        split += 1;
    }
    (best_bucket, best_cost)
}

/// Counts and bounding boxes of the objects at or below the split bucket and
/// above it.
#[verifier::loop_isolation(false)]
fn split_stats(
    info: &Vec<BVHObjectInfo>,
    start: usize,
    end: usize,
    centroid_box: &AlighnedBox,
    axis: Axis,
    split: usize,
    data: Ghost<Seq<Object>>,
) -> (res: (usize, AlighnedBox, usize, AlighnedBox))
    requires
        start <= end <= info@.len(),
        centroid_box.proper(),
        split < 100,
        info_range_wf(info@, start as int, end as int, data@),
    ensures
        ({
            let st = sah_stats_spec(info@, start as int, end as int, *centroid_box, axis,
            split as int);
            res.0 as int == st.0 && res.1 == st.1 && res.2 as int == st.2 && res.3 == st.3
        }),
        res.0 <= end - start,
        res.2 <= end - start,
        res.1.wf(),
        res.3.wf(),
{
    let mut count0: usize = 0;
    let mut b0: AlighnedBox = AlighnedBox::default();
    let mut count1: usize = 0;
    let mut b1: AlighnedBox = AlighnedBox::default();
    let mut i: usize = start;
    while i < end
        invariant
            start <= i <= end <= info@.len(),
            count0 + count1 == i - start,
            ({
                let st = sah_stats_spec(info@, start as int, i as int, *centroid_box, axis,
                split as int);
                count0 as int == st.0 && b0 == st.1 && count1 as int == st.2 && b1 == st.3
            }),
            b0 == crate::alighned_box::default_box_spec() || b0.proper(),
            b1 == crate::alighned_box::default_box_spec() || b1.proper(),
        decreases end - i,
    {
        proof {
            assert(info_entry_wf(info@[i as int], data@));
        }
        let bucket: usize = calculate_index(centroid_box, info[i].position, axis, SAH_BUCKETS - 1);
        if bucket <= split {
            count0 += 1;
            proof {
                crate::alighned_box::lemma_union_accumulate(b0, info@[i as int].bounding_box);
            }
            b0 = b0.union(&info[i].bounding_box);
        } else {
            count1 += 1;
            proof {
                crate::alighned_box::lemma_union_accumulate(b1, info@[i as int].bounding_box);
            }
            b1 = b1.union(&info[i].bounding_box);
        }
        i += 1;
    }
    proof {
        if b0 == crate::alighned_box::default_box_spec() {
            assert(b0.wf());
        }
        if b1 == crate::alighned_box::default_box_spec() {
            assert(b1.wf());
        }
    }
    (count0, b0, count1, b1)
}

/// Stable partition of `[start, end)`: objects past the split bucket first,
/// the rest after them; the boundary index is returned.
#[verifier::loop_isolation(false)]
fn partition_by_bucket(
    info: &mut Vec<BVHObjectInfo>,
    start: usize,
    end: usize,
    centroid_box: &AlighnedBox,
    axis: Axis,
    split: usize,
    data: Ghost<Seq<Object>>,
) -> (mid: usize)
    requires
        start <= end <= old(info)@.len(),
        centroid_box.proper(),
        split < 100,
        info_range_wf(old(info)@, start as int, end as int, data@),
    ensures
        start <= mid <= end,
        final(info)@.len() == old(info)@.len(),
        forall|k: int|
            0 <= k < old(info)@.len() && !(start <= k < end) ==> final(info)@[k] == old(info)@[k],
        info_range_wf(final(info)@, start as int, end as int, data@),
        final(info)@.subrange(start as int, end as int).to_multiset() == old(info)@.subrange(
            start as int,
            end as int,
        ).to_multiset(),
        final(info)@.subrange(start as int, end as int) == entries_above(
            old(info)@,
            start as int,
            end as int,
            *centroid_box,
            axis,
            split as int,
        ) + entries_at_or_below(
            old(info)@,
            start as int,
            end as int,
            *centroid_box,
            axis,
            split as int,
        ),
        mid as int == start + entries_above(
            old(info)@,
            start as int,
            end as int,
            *centroid_box,
            axis,
            split as int,
        ).len(),
{
    broadcast use vstd::seq_lib::group_to_multiset_ensures;

    let mut far: Vec<BVHObjectInfo> = Vec::new();
    let mut near: Vec<BVHObjectInfo> = Vec::new();
    let mut i: usize = start;
    while i < end
        invariant
            start <= i <= end <= info@.len(),
            far@.len() + near@.len() == i - start,
            far@ == entries_above(info@, start as int, i as int, *centroid_box, axis, split as int),
            near@ == entries_at_or_below(
                info@,
                start as int,
                i as int,
                *centroid_box,
                axis,
                split as int,
            ),
            far@.to_multiset().add(near@.to_multiset()) == info@.subrange(
                start as int,
                i as int,
            ).to_multiset(),
            forall|k: int| 0 <= k < far@.len() ==> #[trigger] info_entry_wf(far@[k], data@),
            forall|k: int| 0 <= k < near@.len() ==> #[trigger] info_entry_wf(near@[k], data@),
        decreases end - i,
    {
        proof {
            assert(info_entry_wf(info@[i as int], data@));
        }
        let bucket: usize = calculate_index(centroid_box, info[i].position, axis, SAH_BUCKETS - 1);
        let entry: BVHObjectInfo = BVHObjectInfo {
            index: info[i].index,
            bounding_box: info[i].bounding_box,
            position: info[i].position,
        };
        proof {
            assert(entry == info@[i as int]);
            assert(info@.subrange(start as int, i as int + 1) =~= info@.subrange(
                start as int,
                i as int,
            ).push(info@[i as int]));
            broadcast use vstd::multiset::group_multiset_axioms;

        }
        if bucket > split {
            far.push(entry);
            proof {
                assert(far@.to_multiset().add(near@.to_multiset()) =~= info@.subrange(
                    start as int,
                    i as int + 1,
                ).to_multiset());
            }
        } else {
            near.push(entry);
            proof {
                assert(far@.to_multiset().add(near@.to_multiset()) =~= info@.subrange(
                    start as int,
                    i as int + 1,
                ).to_multiset());
            }
        }
        i += 1;
    }
    let mid: usize = start + far.len();
    write_back(info, start, &far, data);
    write_back(info, mid, &near, data);
    proof {
        assert(info@.subrange(start as int, mid as int) =~= far@);
        assert(info@.subrange(mid as int, end as int) =~= near@);
        assert(info@.subrange(start as int, end as int) =~= far@ + near@);
        vstd::seq_lib::lemma_multiset_commutative(far@, near@);
    }
    mid
}

/// Copy `entries` into `info` starting at `at`.
#[verifier::loop_isolation(false)]
fn write_back(
    info: &mut Vec<BVHObjectInfo>,
    at: usize,
    entries: &Vec<BVHObjectInfo>,
    data: Ghost<Seq<Object>>,
)
    requires
        at + entries@.len() <= old(info)@.len(),
        at + entries@.len() <= usize::MAX,
        forall|k: int| 0 <= k < entries@.len() ==> #[trigger] info_entry_wf(entries@[k], data@),
    ensures
        final(info)@.len() == old(info)@.len(),
        forall|k: int|
            0 <= k < old(info)@.len() && !(at <= k < at + entries@.len()) ==> final(info)@[k]
                == old(info)@[k],
        forall|k: int| at <= k < at + entries@.len() ==> final(info)@[k] == entries@[k - at],
        forall|k: int|
            at <= k < at + entries@.len() ==> #[trigger] info_entry_wf(final(info)@[k], data@),
{
    let mut k: usize = 0;
    while k < entries.len()
        invariant
            0 <= k <= entries@.len(),
            info@.len() == old(info)@.len(),
            forall|j: int|
                0 <= j < info@.len() && !(at <= j < at + k) ==> info@[j] == old(info)@[j],
            forall|j: int| at <= j < at + k ==> info@[j] == entries@[j - at],
            forall|j: int| at <= j < at + k ==> #[trigger] info_entry_wf(info@[j], data@),
        decreases entries@.len() - k,
    {
        let entry: BVHObjectInfo = BVHObjectInfo {
            index: entries[k].index,
            bounding_box: entries[k].bounding_box,
            position: entries[k].position,
        };
        info.set(at + k, entry);
        k += 1;
    }
}

/// Stable insertion sort of `[start, end)` by the centroid coordinate on the
/// axis, used for small ranges where a median split is taken.
#[verifier::loop_isolation(false)]
fn sort_by_centroid(
    info: &mut Vec<BVHObjectInfo>,
    start: usize,
    end: usize,
    axis: Axis,
    data: Ghost<Seq<Object>>,
)
    requires
        start <= end <= old(info)@.len(),
        info_range_wf(old(info)@, start as int, end as int, data@),
    ensures
        final(info)@.len() == old(info)@.len(),
        forall|k: int|
            0 <= k < old(info)@.len() && !(start <= k < end) ==> final(info)@[k] == old(info)@[k],
        info_range_wf(final(info)@, start as int, end as int, data@),
        final(info)@.subrange(start as int, end as int).to_multiset() == old(info)@.subrange(
            start as int,
            end as int,
        ).to_multiset(),
{
    broadcast use vstd::seq_lib::group_to_multiset_ensures;

    let mut sorted: Vec<BVHObjectInfo> = Vec::new();
    let mut i: usize = start;
    while i < end
        invariant
            start <= i <= end <= info@.len(),
            info_range_wf(info@, start as int, end as int, data@),
            sorted@.len() == i - start,
            sorted@.to_multiset() == info@.subrange(start as int, i as int).to_multiset(),
            forall|k: int| 0 <= k < sorted@.len() ==> #[trigger] info_entry_wf(sorted@[k], data@),
        decreases end - i,
    {
        proof {
            assert(info_entry_wf(info@[i as int], data@));
        }
        let entry: BVHObjectInfo = BVHObjectInfo {
            index: info[i].index,
            bounding_box: info[i].bounding_box,
            position: info[i].position,
        };
        let key: i64 = entry.position.index(axis);
        let mut j: usize = 0;
        while j < sorted.len() && sorted[j].position.index(axis) <= key
            invariant
                0 <= j <= sorted@.len(),
                forall|k: int|
                    0 <= k < sorted@.len() ==> #[trigger] info_entry_wf(sorted@[k], data@),
            decreases sorted@.len() - j,
        {
            j += 1;
        }
        proof {
            assert(entry == info@[i as int]);
            assert(info@.subrange(start as int, i as int + 1) =~= info@.subrange(
                start as int,
                i as int,
            ).push(info@[i as int]));
            vstd::seq_lib::to_multiset_insert(sorted@, j as int, entry);
        }
        sorted.insert(j, entry);
        i += 1;
    }
    write_back(info, start, &sorted, data);
    proof {
        assert(info@.subrange(start as int, end as int) =~= sorted@);
    }
}

} // verus!
