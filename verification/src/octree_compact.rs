//! Compaction of a voxel graph into the flat array form.
//!
//! The worklist walk assigns the node with id `id` to flat index
//! `total - id` and resolves every child slot to an index: owned children
//! to their own id-derived index, back-references through the list of
//! ancestor indices carried with each worklist entry.  The result is
//! proved equal, index by index, to the functional description
//! [`flat_of`] of the whole tree.

use vstd::prelude::*;

use crate::flat::{child_indices_ok, wf_octree, FlatRec, VoxelCompact, NULL_VOXEL_INDEX};
use crate::graph::{all_recs_ok, count_refs, count_voxels, flat_of, idx_dom,
    lemma_count_refs_take_le, lemma_count_refs_take_step, lemma_flat_dom, lemma_flat_recs_ok,
    lemma_refs_dom, lemma_refs_flat_child_submap, lemma_refs_flat_take_step, lemma_wf_refs_child,
    rec_of, ref_flat, refs_flat, resolve_ref, type_flags, wf_refs, wf_voxel, GraphRef, Voxel};

verus! {

/// One worklist entry: an owned subtree, the flat indices of its ancestors
/// (root first), and, for the proof, the first id of its block.
struct BfsVoxel {
    voxel: Voxel,
    parent_list: Vec<u32>,
    low: Ghost<int>,
}

/// The part of the flat array that one worklist entry will produce.
spec fn entry_map(e: BfsVoxel, total: int) -> Map<int, FlatRec> {
    flat_of(e.voxel, total, e.parent_list@)
}

/// What the worklist loop maintains of each entry: a well-formed subtree
/// sitting in an id block inside `1..=total`, whose output is part of the
/// full flat map.
spec fn entry_inv(e: BfsVoxel, total: int, full: Map<int, FlatRec>) -> bool {
    &&& wf_voxel(e.voxel, e.low@)
    &&& 1 <= e.low@
    &&& e.low@ + count_voxels(e.voxel) <= total + 1
    &&& entry_map(e, total).submap_of(full)
}

/// `i` is still owed by some worklist entry.
spec fn covered(stack: Seq<BfsVoxel>, total: int, i: int) -> bool {
    exists|j: int| 0 <= j < stack.len() && (#[trigger] entry_map(stack[j], total)).dom().contains(i)
}

/// Total number of nodes still to be written by the worklist.
spec fn stack_count(stack: Seq<BfsVoxel>) -> nat
    decreases stack,
{
    if stack.len() == 0 {
        0
    } else {
        stack_count(stack.drop_last()) + count_voxels(stack.last().voxel)
    }
}

proof fn lemma_stack_count_push(stack: Seq<BfsVoxel>, e: BfsVoxel)
    ensures
        stack_count(stack.push(e)) == stack_count(stack) + count_voxels(e.voxel),
{
    assert(stack.push(e).drop_last() =~= stack);
    assert(stack.push(e).last() == e);
}

/// Compact the finished graph rooted at `root_voxel`, whose nodes carry the
/// dense post-order ids `1..=voxel_count`, into a flat array of exactly
/// `voxel_count` records.
///
/// Every index of the result holds the record that [`flat_of`] assigns to
/// it: in particular the root lands at index 0 and every child entry is
/// either [`NULL_VOXEL_INDEX`] or an in-range index, so the result is a
/// well-formed octree.
#[verifier::loop_isolation(false)]
#[verifier::rlimit(50)]
pub fn compact_octree_from_root(root_voxel: Voxel, voxel_count: u32) -> (acc: Vec<VoxelCompact>)
    requires
        wf_voxel(root_voxel, 1),
        count_voxels(root_voxel) == voxel_count,
    ensures
        acc@.len() == voxel_count,
        forall|i: int| 0 <= i < voxel_count ==>
            #[trigger] acc@[i]@ == flat_of(root_voxel, voxel_count as int, Seq::empty())[i],
        wf_octree(acc@),
        acc@[0]@ == rec_of(root_voxel, voxel_count as int, Seq::empty()),
{
    let ghost total = voxel_count as int;
    let ghost full = flat_of(root_voxel, total, Seq::empty());
    proof {
        lemma_flat_dom(root_voxel, total, Seq::empty(), 1);
        lemma_flat_recs_ok(root_voxel, total, Seq::empty(), 1);
        assert(full.dom() == idx_dom(total, 1, total));
        assert(root_voxel.id == total);
        assert(full[0] == rec_of(root_voxel, total, Seq::empty()));
    }

    let mut acc: Vec<VoxelCompact> = Vec::new();
    let mut i: usize = 0;
    while i < voxel_count as usize
        invariant
            i <= voxel_count,
            acc@.len() == i,
        decreases voxel_count - i,
    {
        acc.push(VoxelCompact::default());
        i = i + 1;
    }

    let mut to_explore: Vec<BfsVoxel> = Vec::new();
    let root_parents: Vec<u32> = Vec::new();
    proof {
        assert(root_parents@ =~= Seq::<u32>::empty());
    }
    to_explore.push(BfsVoxel { voxel: root_voxel, parent_list: root_parents, low: Ghost(1int) });
    proof {
        let stack0 = to_explore@;
        assert(entry_map(stack0[0], total) == full);
        assert(entry_inv(stack0[0], total, full));
        assert forall|i2: int| 0 <= i2 < total implies covered(stack0, total, i2) by {
            assert(full.dom().contains(i2));
            assert(entry_map(stack0[0], total).dom().contains(i2));
        }
    }

    while to_explore.len() > 0
        invariant
            acc@.len() == total,
            forall|j: int| 0 <= j < to_explore@.len() ==>
                entry_inv(#[trigger] to_explore@[j], total, full),
            forall|i2: int| 0 <= i2 < total && !covered(to_explore@, total, i2)
                ==> #[trigger] acc@[i2]@ == full[i2],
        decreases stack_count(to_explore@),
    {
        let ghost old_stack = to_explore@;
        let e = to_explore.pop().unwrap();
        let ghost popped_index = old_stack.len() - 1;
        assert(e == old_stack[popped_index]);
        assert(entry_inv(e, total, full));
        let ghost ge = e;
        let BfsVoxel { voxel, parent_list, low } = e;
        let ghost pl = parent_list@;
        let ghost cs = voxel.children@;
        proof {
            assert(ge.voxel == voxel && ge.parent_list@ == pl && ge.low == low);
            assert(flat_of(voxel, total, pl).submap_of(full));
        }

        // The node's own flat index, from its id.
        assert(1 <= voxel.id <= total);
        let self_index: u32 = voxel_count - voxel.id;
        let ghost idxv = total - voxel.id;
        let ghost plc = pl.push(self_index);

        proof {
            lemma_refs_dom(cs, total, plc, low@);
            assert(!refs_flat(cs, total, plc).dom().contains(idxv));
            assert(flat_of(voxel, total, pl)
                == refs_flat(cs, total, plc).insert(idxv, rec_of(voxel, total, pl)));
            assert(flat_of(voxel, total, pl)[idxv] == rec_of(voxel, total, pl));
            assert(flat_of(voxel, total, pl).dom().contains(idxv));
            assert(full[idxv] == rec_of(voxel, total, pl));
            assert forall|x: int| refs_flat(cs, total, plc).dom().contains(x)
                implies full.dom().contains(x)
                && full[x] == refs_flat(cs, total, plc)[x] by {
                assert(x != idxv);
                assert(flat_of(voxel, total, pl).dom().contains(x));
                assert(flat_of(voxel, total, pl)[x] == refs_flat(cs, total, plc)[x]);
                assert(full.dom().contains(x));
                assert(full[x] == flat_of(voxel, total, pl)[x]);
            }
            assert(refs_flat(cs, total, plc).submap_of(full));
            lemma_stack_count_push(old_stack.drop_last(), old_stack.last());
            assert(old_stack.drop_last().push(old_stack.last()) =~= old_stack);
        }

        let ghost base = to_explore@;
        let mut kids = voxel.children;
        let mut children: Vec<u32> = Vec::new();
        let mut k: usize = 0;
        while k < 8
            invariant
                k <= 8,
                kids@ == cs.skip(k as int),
                children@.len() == k,
                forall|m: int| 0 <= m < k ==> #[trigger] children@[m]
                    == resolve_ref(cs[m], self_index, pl, total),
                to_explore@.len() >= base.len(),
                to_explore@.subrange(0, base.len() as int) == base,
                forall|j: int| base.len() <= j < to_explore@.len() ==>
                    entry_inv(#[trigger] to_explore@[j], total, full),
                forall|x: int| refs_flat(cs.take(k as int), total, plc).dom().contains(x)
                    ==> exists|j: int| base.len() <= j < to_explore@.len()
                        && (#[trigger] entry_map(to_explore@[j], total)).dom().contains(x),
                stack_count(to_explore@) == stack_count(base) + count_refs(cs.take(k as int)),
            decreases 8 - k,
        {
            proof {
                lemma_wf_refs_child(cs, low@, k as int);
                lemma_count_refs_take_step(cs, k as int);
                lemma_count_refs_take_le(cs, k as int + 1);
                lemma_refs_flat_take_step(cs, total, plc, k as int);
            }
            let ghost old_explore = to_explore@;
            assert(kids@[0] == cs[k as int]);
            let r = kids.remove(0);
            assert(kids@ =~= cs.skip(k as int + 1));
            match r {
                GraphRef::Empty => {
                    children.push(NULL_VOXEL_INDEX);
                }
                GraphRef::Recurse(n) => {
                    let idx = if n == 0 {
                        self_index
                    } else if n as usize <= parent_list.len() {
                        parent_list[parent_list.len() - n as usize]
                    } else {
                        0
                    };
                    children.push(idx);
                }
                GraphRef::Ref(b) => {
                    let child: Voxel = *b;
                    let ghost low_k = low@ + count_refs(cs.take(k as int));
                    proof {
                        assert(wf_voxel(child, low_k));
                        assert(child.id == low_k + count_refs(child.children@));
                        assert(count_refs(cs.take(k as int)) + count_voxels(child)
                            <= count_refs(cs));
                        assert(1 <= child.id <= total);
                    }
                    let index: u32 = voxel_count - child.id;
                    let mut parents: Vec<u32> = Vec::new();
                    let mut t: usize = 0;
                    while t < parent_list.len()
                        invariant
                            t <= parent_list.len(),
                            parents@ =~= pl.take(t as int),
                        decreases parent_list.len() - t,
                    {
                        parents.push(parent_list[t]);
                        t = t + 1;
                    }
                    assert(parents@ =~= pl);
                    parents.push(self_index);
                    assert(parents@ =~= plc);
                    proof {
                        lemma_refs_flat_child_submap(cs, total, plc, low@, k as int);
                        vstd::map_lib::lemma_submap_of_trans(flat_of(child, total, plc),
                            refs_flat(cs, total, plc), full);
                    }
                    let entry = BfsVoxel { voxel: child, parent_list: parents, low: Ghost(low_k) };
                    proof {
                        assert(entry_inv(entry, total, full));
                        lemma_stack_count_push(to_explore@, entry);
                    }
                    to_explore.push(entry);
                    children.push(index);
                }
            }
            k = k + 1;
            proof {
                broadcast use vstd::map_lib::lemma_union_dom;

                assert(to_explore@.subrange(0, base.len() as int) =~= base);
                assert forall|x: int| refs_flat(cs.take(k as int), total, plc).dom().contains(x)
                    implies exists|j: int| base.len() <= j < to_explore@.len()
                        && (#[trigger] entry_map(to_explore@[j], total)).dom().contains(x) by {
                    let prev = refs_flat(cs.take(k as int - 1), total, plc);
                    if prev.dom().contains(x) {
                        let j0 = choose|j: int| base.len() <= j < old_explore.len()
                            && (#[trigger] entry_map(old_explore[j], total)).dom().contains(x);
                        assert(to_explore@[j0] == old_explore[j0]);
                    } else {
                        assert(ref_flat(cs[k as int - 1], total, plc).dom().contains(x));
                        assert(entry_map(to_explore@[to_explore@.len() - 1], total).dom()
                            .contains(x));
                    }
                }
            }
        }

        assert(cs.take(8) =~= cs);
        proof {
            assert forall|j: int| 0 <= j < to_explore@.len()
                implies entry_inv(#[trigger] to_explore@[j], total, full) by {
                if j < base.len() {
                    assert(to_explore@.subrange(0, base.len() as int)[j] == to_explore@[j]);
                    assert(base[j] == old_stack[j]);
                    assert(entry_inv(old_stack[j], total, full));
                }
            }
            assert(old_stack.last() == ge);
            assert(stack_count(to_explore@) == stack_count(base) + count_refs(cs));
            assert(stack_count(old_stack) == stack_count(base) + count_voxels(voxel));
        }
        let rec = VoxelCompact::new(voxel.average_colour, children, type_flags(voxel.vtype));
        proof {
            assert(rec@.children =~= rec_of(voxel, total, pl).children);
            assert(rec@ =~= rec_of(voxel, total, pl));
        }
        let ghost old_acc = acc@;
        acc[self_index as usize] = rec;
        proof {
            assert(acc@ =~= old_acc.update(idxv, rec));
            assert(acc@[idxv]@ == full[idxv]);
            assert forall|i2: int| 0 <= i2 < total && !covered(to_explore@, total, i2)
                implies #[trigger] acc@[i2]@ == full[i2] by {
                if i2 == idxv {
                } else {
                    assert(acc@[i2] == old_acc[i2]);
                    if covered(old_stack, total, i2) {
                        let j0 = choose|j: int| 0 <= j < old_stack.len()
                            && (#[trigger] entry_map(old_stack[j], total)).dom().contains(i2);
                        if j0 < popped_index {
                            assert(to_explore@[j0] == old_stack[j0]);
                            assert(covered(to_explore@, total, i2));
                        } else {
                            assert(entry_map(old_stack[popped_index], total)
                                == refs_flat(cs, total, plc).insert(idxv, rec_of(voxel, total, pl)));
                            assert(refs_flat(cs, total, plc).dom().contains(i2));
                            assert(covered(to_explore@, total, i2));
                        }
                    }
                }
            }
        }
    }

    proof {
        assert forall|i2: int| 0 <= i2 < total implies #[trigger] acc@[i2]@ == full[i2] by {
            assert(!covered(to_explore@, total, i2));
        }
        assert(wf_octree(acc@)) by {
            assert forall|i2: int| 0 <= i2 < acc@.len()
                implies (#[trigger] acc@[i2]).wf() && child_indices_ok(acc@[i2]@, acc@.len() as int) by {
                assert(full.dom().contains(i2));
                assert(acc@[i2]@ == full[i2]);
            }
        }
    }
    acc
}

} // verus!
