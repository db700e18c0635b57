//! The generation-time voxel graph: a strict ownership tree whose child
//! slots may also be back-references to ancestors or empty.
//!
//! Node ids are assigned post-order while the tree is built: the subtree
//! rooted at a node whose first unused id is `lo` occupies exactly the ids
//! `lo .. lo + count_voxels(v)`, and the node itself carries the largest of
//! them.  Compaction places the node with id `id` at flat index
//! `total - id`, so the root (id `total`) always lands at index 0.

use vstd::prelude::*;

use crate::flat::{Colour, FlatRec, FLAG_COLOUR, FLAG_COMPLEX, FLAG_MIRROR, FLAG_PORTAL,
    NULL_VOXEL_INDEX};

verus! {

/// The kind of a voxel node.
#[derive(Clone, Copy, PartialEq, Eq, Structural, Debug)]
pub enum VoxelType {
    Complex,
    Colour,
    Portal,
    Mirror,
}

/// The record tag that stands for each voxel kind.
pub open spec fn flag_of(t: VoxelType) -> u32 {
    match t {
        VoxelType::Complex => FLAG_COMPLEX,
        VoxelType::Colour => FLAG_COLOUR,
        VoxelType::Portal => FLAG_PORTAL,
        VoxelType::Mirror => FLAG_MIRROR,
    }
}

/// Executable form of [`flag_of`].
pub fn type_flags(t: VoxelType) -> (f: u32)
    ensures
        f == flag_of(t),
{
    match t {
        VoxelType::Complex => FLAG_COMPLEX,
        VoxelType::Colour => FLAG_COLOUR,
        VoxelType::Portal => FLAG_PORTAL,
        VoxelType::Mirror => FLAG_MIRROR,
    }
}

/// One child slot of a voxel node.
pub enum GraphRef {
    /// An exclusively owned child subtree.
    Ref(Box<Voxel>),
    /// A back-reference `n` levels up from the immediate parent
    /// (`Recurse(0)` points back at the node itself).
    Recurse(u32),
    /// No child.
    Empty,
}

/// A voxel node of the generation-time graph.
pub struct Voxel {
    pub average_colour: Colour,
    pub children: Vec<GraphRef>,
    pub vtype: VoxelType,
    pub id: u32,
}

/// Number of nodes owned by the subtree rooted at `v`, itself included.
pub open spec fn count_voxels(v: Voxel) -> nat
    decreases v,
{
    1 + count_refs(v.children@)
}

/// Number of nodes owned below a sequence of child slots.
pub open spec fn count_refs(cs: Seq<GraphRef>) -> nat
    decreases cs,
{
    if cs.len() == 0 {
        0
    } else {
        count_refs(cs.drop_last()) + ref_count(cs.last())
    }
}

/// Number of nodes owned through one child slot.
pub open spec fn ref_count(r: GraphRef) -> nat
    decreases r,
{
    match r {
        GraphRef::Ref(b) => count_voxels(*b),
        GraphRef::Recurse(_) => 0,
        GraphRef::Empty => 0,
    }
}

/// Well-formedness of a subtree whose lowest id is `lo`: the node has one
/// slot per octant, its owned children occupy consecutive id blocks
/// starting at `lo`, and the node itself carries the block's last id.
pub open spec fn wf_voxel(v: Voxel, lo: int) -> bool
    decreases v,
{
    &&& v.children@.len() == 8
    &&& wf_refs(v.children@, lo)
    &&& v.id == lo + count_refs(v.children@)
}

/// Well-formedness of a sequence of child slots whose owned subtrees take
/// consecutive id blocks starting at `lo`.
pub open spec fn wf_refs(cs: Seq<GraphRef>, lo: int) -> bool
    decreases cs,
{
    if cs.len() == 0 {
        true
    } else {
        wf_refs(cs.drop_last(), lo) && match cs.last() {
            GraphRef::Ref(b) => wf_voxel(*b, lo + count_refs(cs.drop_last())),
            GraphRef::Recurse(_) => true,
            GraphRef::Empty => true,
        }
    }
}

/// The flat index that a child slot resolves to during compaction:
/// nothing for an empty slot, the node's own index for `Recurse(0)`, the
/// recorded index of the n-th ancestor for deeper back-references (the
/// root index 0 when the jump exceeds the recorded ancestors), and the
/// id-derived index for an owned child.
pub open spec fn resolve_ref(r: GraphRef, self_index: u32, pl: Seq<u32>, total: int) -> u32 {
    match r {
        GraphRef::Empty => NULL_VOXEL_INDEX,
        GraphRef::Recurse(n) => if n == 0 {
            self_index
        } else if n <= pl.len() {
            pl[pl.len() - n]
        } else {
            0
        },
        GraphRef::Ref(b) => (total - b.id) as u32,
    }
}

/// The compacted record of one node, given the indices of its ancestors
/// (root first) in `pl`.
pub open spec fn rec_of(v: Voxel, total: int, pl: Seq<u32>) -> FlatRec {
    FlatRec {
        average_colour: v.average_colour,
        children: Seq::new(8, |j: int| resolve_ref(v.children@[j], (total - v.id) as u32, pl, total)),
        flags: flag_of(v.vtype),
    }
}

/// The full contents of the flat array contributed by the subtree at `v`:
/// a map from flat index to record.  `pl` holds the indices of `v`'s
/// ancestors, root first.
pub open spec fn flat_of(v: Voxel, total: int, pl: Seq<u32>) -> Map<int, FlatRec>
    decreases v,
{
    let idx = total - v.id;
    refs_flat(v.children@, total, pl.push(idx as u32)).insert(idx, rec_of(v, total, pl))
}

/// The flat-array contents contributed below a sequence of child slots.
pub open spec fn refs_flat(cs: Seq<GraphRef>, total: int, plc: Seq<u32>) -> Map<int, FlatRec>
    decreases cs,
{
    if cs.len() == 0 {
        Map::empty()
    } else {
        refs_flat(cs.drop_last(), total, plc).union_prefer_right(ref_flat(cs.last(), total, plc))
    }
}

/// The flat-array contents contributed through one child slot.
pub open spec fn ref_flat(r: GraphRef, total: int, plc: Seq<u32>) -> Map<int, FlatRec>
    decreases r,
{
    match r {
        GraphRef::Ref(b) => flat_of(*b, total, plc),
        GraphRef::Recurse(_) => Map::empty(),
        GraphRef::Empty => Map::empty(),
    }
}

/// The set of flat indices taken by a block of `cnt` ids starting at `lo`.
pub open spec fn idx_dom(total: int, lo: int, cnt: int) -> Set<int> {
    Set::new(|i: int| total - lo - cnt < i <= total - lo)
}

pub proof fn lemma_count_refs_push(cs: Seq<GraphRef>, r: GraphRef)
    ensures
        count_refs(cs.push(r)) == count_refs(cs) + ref_count(r),
{
    assert(cs.push(r).drop_last() =~= cs);
    assert(cs.push(r).last() == r);
}

pub proof fn lemma_wf_refs_push(cs: Seq<GraphRef>, r: GraphRef, lo: int)
    ensures
        wf_refs(cs.push(r), lo) <==> (wf_refs(cs, lo) && match r {
            GraphRef::Ref(b) => wf_voxel(*b, lo + count_refs(cs)),
            GraphRef::Recurse(_) => true,
            GraphRef::Empty => true,
        }),
{
    assert(cs.push(r).drop_last() =~= cs);
    assert(cs.push(r).last() == r);
}

pub proof fn lemma_count_refs_take_step(cs: Seq<GraphRef>, j: int)
    requires
        0 <= j < cs.len(),
    ensures
        count_refs(cs.take(j + 1)) == count_refs(cs.take(j)) + ref_count(cs[j]),
{
    assert(cs.take(j + 1).drop_last() =~= cs.take(j));
    assert(cs.take(j + 1).last() == cs[j]);
}

pub proof fn lemma_count_refs_take_le(cs: Seq<GraphRef>, j: int)
    requires
        0 <= j <= cs.len(),
    ensures
        count_refs(cs.take(j)) <= count_refs(cs),
    decreases cs.len() - j,
{
    if j == cs.len() {
        assert(cs.take(j) =~= cs);
    } else {
        lemma_count_refs_take_step(cs, j);
        lemma_count_refs_take_le(cs, j + 1);
    }
}

pub proof fn lemma_wf_refs_take(cs: Seq<GraphRef>, lo: int, j: int)
    requires
        wf_refs(cs, lo),
        0 <= j <= cs.len(),
    ensures
        wf_refs(cs.take(j), lo),
    decreases cs.len() - j,
{
    if j == cs.len() {
        assert(cs.take(j) =~= cs);
    } else {
        lemma_wf_refs_take(cs, lo, j + 1);
        assert(cs.take(j + 1).drop_last() =~= cs.take(j));
    }
}

/// The owned child in slot `j` is itself well formed, with its id block
/// starting after the blocks of the owned children before it.
pub proof fn lemma_wf_refs_child(cs: Seq<GraphRef>, lo: int, j: int)
    requires
        wf_refs(cs, lo),
        0 <= j < cs.len(),
    ensures
        match cs[j] {
            GraphRef::Ref(b) => wf_voxel(*b, lo + count_refs(cs.take(j))),
            GraphRef::Recurse(_) => true,
            GraphRef::Empty => true,
        },
{
    lemma_wf_refs_take(cs, lo, j + 1);
    assert(cs.take(j + 1).drop_last() =~= cs.take(j));
    assert(cs.take(j + 1).last() == cs[j]);
}

pub proof fn lemma_refs_flat_take_step(cs: Seq<GraphRef>, total: int, plc: Seq<u32>, j: int)
    requires
        0 <= j < cs.len(),
    ensures
        refs_flat(cs.take(j + 1), total, plc) == refs_flat(cs.take(j), total, plc)
            .union_prefer_right(ref_flat(cs[j], total, plc)),
{
    assert(cs.take(j + 1).drop_last() =~= cs.take(j));
    assert(cs.take(j + 1).last() == cs[j]);
}

/// The flat indices contributed by a subtree are exactly the block of its
/// ids, reflected through `total`.
pub proof fn lemma_flat_dom(v: Voxel, total: int, pl: Seq<u32>, lo: int)
    requires
        wf_voxel(v, lo),
    ensures
        flat_of(v, total, pl).dom() == idx_dom(total, lo, count_voxels(v) as int),
    decreases v,
{
    broadcast use vstd::map_lib::lemma_union_dom;

    let idx = total - v.id;
    lemma_refs_dom(v.children@, total, pl.push(idx as u32), lo);
    assert(flat_of(v, total, pl).dom() =~= idx_dom(total, lo, count_voxels(v) as int));
}

/// Compaction has no gaps and no double assignments: the subtrees of a
/// well-formed tree with ids `1..=total` contribute exactly one record for
/// each flat index in `0..total`.
pub proof fn lemma_flat_covers_all(root: Voxel, total: int, pl: Seq<u32>)
    requires
        wf_voxel(root, 1),
        count_voxels(root) == total,
    ensures
        flat_of(root, total, pl).dom() == Set::new(|i: int| 0 <= i < total),
{
    lemma_flat_dom(root, total, pl, 1);
    assert(idx_dom(total, 1, total) =~= Set::new(|i: int| 0 <= i < total));
}

pub proof fn lemma_refs_dom(cs: Seq<GraphRef>, total: int, plc: Seq<u32>, lo: int)
    requires
        wf_refs(cs, lo),
    ensures
        refs_flat(cs, total, plc).dom() == idx_dom(total, lo, count_refs(cs) as int),
    decreases cs,
{
    broadcast use vstd::map_lib::lemma_union_dom;

    if cs.len() == 0 {
        assert(refs_flat(cs, total, plc).dom() =~= idx_dom(total, lo, 0));
    } else {
        let rest = cs.drop_last();
        let left = refs_flat(rest, total, plc);
        let right = ref_flat(cs.last(), total, plc);
        lemma_refs_dom(rest, total, plc, lo);
        vstd::map_lib::lemma_union_dom(left, right);
        match cs.last() {
            GraphRef::Ref(b) => {
                lemma_flat_dom(*b, total, plc, lo + count_refs(rest));
                assert(right.dom() == idx_dom(total, lo + count_refs(rest),
                    count_voxels(*b) as int));
                assert(ref_count(cs.last()) == count_voxels(*b));
            }
            GraphRef::Recurse(_) => {
                assert(right.dom() =~= Set::<int>::empty());
            }
            GraphRef::Empty => {
                assert(right.dom() =~= Set::<int>::empty());
            }
        }
        assert(count_refs(cs) == count_refs(rest) + ref_count(cs.last()));
        assert(refs_flat(cs, total, plc).dom() =~= idx_dom(total, lo, count_refs(cs) as int));
    }
}

/// The map contributed through the owned child in slot `j` is contained in
/// the map contributed by the whole slot sequence.
pub proof fn lemma_refs_flat_child_submap(cs: Seq<GraphRef>, total: int, plc: Seq<u32>, lo: int, j: int)
    requires
        wf_refs(cs, lo),
        0 <= j < cs.len(),
    ensures
        match cs[j] {
            GraphRef::Ref(b) => flat_of(*b, total, plc).submap_of(refs_flat(cs, total, plc)),
            GraphRef::Recurse(_) => true,
            GraphRef::Empty => true,
        },
    decreases cs,
{
    let rest = cs.drop_last();
    let left = refs_flat(rest, total, plc);
    let right = ref_flat(cs.last(), total, plc);
    lemma_refs_dom(rest, total, plc, lo);
    match cs.last() {
        GraphRef::Ref(b) => {
            lemma_flat_dom(*b, total, plc, lo + count_refs(rest));
        }
        GraphRef::Recurse(_) => {}
        GraphRef::Empty => {}
    }
    assert(left.dom().disjoint(right.dom()));
    if j == cs.len() - 1 {
        assert(right.submap_of(refs_flat(cs, total, plc)));
    } else {
        lemma_refs_flat_child_submap(rest, total, plc, lo, j);
        assert(rest[j] == cs[j]);
        assert(left.submap_of(refs_flat(cs, total, plc)));
        match cs[j] {
            GraphRef::Ref(b) => {
                vstd::map_lib::lemma_submap_of_trans(flat_of(*b, total, plc), left,
                    refs_flat(cs, total, plc));
            }
            GraphRef::Recurse(_) => {}
            GraphRef::Empty => {}
        }
    }
}

/// Every record held by a well-placed subtree's map has eight children,
/// each the null sentinel or an index below `total`.
pub open spec fn all_recs_ok(m: Map<int, FlatRec>, total: int) -> bool {
    forall|i: int| m.dom().contains(i) ==> (#[trigger] m[i]).children.len() == 8
        && crate::flat::child_indices_ok(m[i], total)
}

/// Resolving the child slots of a node within bounds yields only null or
/// in-range indices.
pub proof fn lemma_rec_of_ok(v: Voxel, total: int, pl: Seq<u32>, lo: int)
    requires
        wf_voxel(v, lo),
        1 <= lo,
        lo + count_voxels(v) <= total + 1,
        total <= u32::MAX,
        forall|k: int| 0 <= k < pl.len() ==> pl[k] < total,
    ensures
        rec_of(v, total, pl).children.len() == 8,
        crate::flat::child_indices_ok(rec_of(v, total, pl), total),
{
    let cs = v.children@;
    let r = rec_of(v, total, pl);
    assert forall|j: int| 0 <= j < r.children.len() implies r.children[j] == NULL_VOXEL_INDEX
        || (#[trigger] r.children[j]) < total by {
        lemma_wf_refs_child(cs, lo, j);
        lemma_count_refs_take_step(cs, j);
        lemma_count_refs_take_le(cs, j + 1);
        match cs[j] {
            GraphRef::Ref(b) => {
                assert(1 <= b.id <= total);
            }
            GraphRef::Recurse(_) => {}
            GraphRef::Empty => {}
        }
    }
}

/// All records contributed by a well-placed subtree are well formed.
pub proof fn lemma_flat_recs_ok(v: Voxel, total: int, pl: Seq<u32>, lo: int)
    requires
        wf_voxel(v, lo),
        1 <= lo,
        lo + count_voxels(v) <= total + 1,
        total <= u32::MAX,
        forall|k: int| 0 <= k < pl.len() ==> pl[k] < total,
    ensures
        all_recs_ok(flat_of(v, total, pl), total),
    decreases v,
{
    let idx = total - v.id;
    let plc = pl.push(idx as u32);
    lemma_rec_of_ok(v, total, pl, lo);
    assert(forall|k: int| 0 <= k < plc.len() ==> plc[k] < total);
    lemma_refs_recs_ok(v.children@, total, plc, lo);
    assert forall|i: int| flat_of(v, total, pl).dom().contains(i)
        implies (#[trigger] flat_of(v, total, pl)[i]).children.len() == 8
        && crate::flat::child_indices_ok(flat_of(v, total, pl)[i], total) by {
        if i != idx {
            assert(refs_flat(v.children@, total, plc).dom().contains(i));
        }
    }
}

pub proof fn lemma_refs_recs_ok(cs: Seq<GraphRef>, total: int, plc: Seq<u32>, lo: int)
    requires
        wf_refs(cs, lo),
        1 <= lo,
        lo + count_refs(cs) <= total + 1,
        total <= u32::MAX,
        forall|k: int| 0 <= k < plc.len() ==> plc[k] < total,
    ensures
        all_recs_ok(refs_flat(cs, total, plc), total),
    decreases cs,
{
    if cs.len() == 0 {
    } else {
        let rest = cs.drop_last();
        lemma_refs_recs_ok(rest, total, plc, lo);
        let left = refs_flat(rest, total, plc);
        let right = ref_flat(cs.last(), total, plc);
        assert(count_refs(cs) == count_refs(rest) + ref_count(cs.last()));
        match cs.last() {
            GraphRef::Ref(b) => {
                assert(ref_count(cs.last()) == count_voxels(*b));
                lemma_flat_recs_ok(*b, total, plc, lo + count_refs(rest));
            }
            GraphRef::Recurse(_) => {}
            GraphRef::Empty => {}
        }
        assert forall|i: int| refs_flat(cs, total, plc).dom().contains(i)
            implies (#[trigger] refs_flat(cs, total, plc)[i]).children.len() == 8
            && crate::flat::child_indices_ok(refs_flat(cs, total, plc)[i], total) by {
            if right.dom().contains(i) {
                assert(refs_flat(cs, total, plc)[i] == right[i]);
            } else {
                assert(refs_flat(cs, total, plc)[i] == left[i]);
            }
        }
    }
}

} // verus!
