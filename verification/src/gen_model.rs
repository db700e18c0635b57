//! A ghost model of world generation.
//!
//! [`spec_roll`] mirrors the executable generator step for step as a pure
//! function of the random source's model, so that the generated tree, the
//! statistics and the advanced source state are all functions of the seed
//! and of how much of the streams had been consumed.  Determinism of
//! generation is then a statement about these functions, which
//! [`lemma_generation_deterministic`] proves.

use vstd::prelude::*;

use crate::flat::{Colour, FlatRec, COLOUR_ONE, MAXIMUM_VOXEL_DEPTH, MINIMUM_GOAL_DEPTH,
    NULL_VOXEL_INDEX};
use crate::graph::{flag_of, flat_of, rec_of, refs_flat, resolve_ref, GraphRef, Voxel, VoxelType};
use crate::random_source::{leaf_stream, unit_stream, SourceModel};
use crate::voxel_gen::OctreeStats;

verus! {

/// The ghost form of a generated voxel node.
pub ghost struct GVoxel {
    pub average_colour: Colour,
    pub children: Seq<GRef>,
    pub vtype: VoxelType,
    pub id: u32,
}

/// The ghost form of one child slot.
pub ghost enum GRef {
    Owned(Box<GVoxel>),
    Back(u32),
    Free,
}

/// The ghost value of an executable tree.
pub open spec fn gview(v: Voxel) -> GVoxel
    decreases v,
{
    GVoxel {
        average_colour: v.average_colour,
        children: grefs_view(v.children@),
        vtype: v.vtype,
        id: v.id,
    }
}

pub open spec fn grefs_view(cs: Seq<GraphRef>) -> Seq<GRef>
    decreases cs,
{
    if cs.len() == 0 {
        Seq::empty()
    } else {
        grefs_view(cs.drop_last()).push(gref_view(cs.last()))
    }
}

pub open spec fn gref_view(r: GraphRef) -> GRef
    decreases r,
{
    match r {
        GraphRef::Ref(b) => GRef::Owned(Box::new(gview(*b))),
        GraphRef::Recurse(n) => GRef::Back(n),
        GraphRef::Empty => GRef::Free,
    }
}

pub proof fn lemma_grefs_view_index(cs: Seq<GraphRef>)
    ensures
        grefs_view(cs).len() == cs.len(),
        forall|i: int| 0 <= i < cs.len() ==> grefs_view(cs)[i] == gref_view(cs[i]),
    decreases cs,
{
    if cs.len() > 0 {
        lemma_grefs_view_index(cs.drop_last());
        assert forall|i: int| 0 <= i < cs.len() implies grefs_view(cs)[i] == gref_view(cs[i]) by {
            if i < cs.len() - 1 {
                assert(cs.drop_last()[i] == cs[i]);
            }
        }
    }
}

pub proof fn lemma_grefs_view_push(cs: Seq<GraphRef>, r: GraphRef)
    ensures
        grefs_view(cs.push(r)) == grefs_view(cs).push(gref_view(r)),
{
    assert(cs.push(r).drop_last() =~= cs);
    assert(cs.push(r).last() == r);
}

/// The flat-index resolution of a ghost child slot: identical to
/// [`resolve_ref`] on the executable form.
pub open spec fn gresolve_ref(r: GRef, self_index: u32, pl: Seq<u32>, total: int) -> u32 {
    match r {
        GRef::Free => NULL_VOXEL_INDEX,
        GRef::Back(n) => if n == 0 {
            self_index
        } else if n <= pl.len() {
            pl[pl.len() - n]
        } else {
            0
        },
        GRef::Owned(b) => (total - b.id) as u32,
    }
}

/// The compacted record of a ghost node.
pub open spec fn grec_of(g: GVoxel, total: int, pl: Seq<u32>) -> FlatRec {
    FlatRec {
        average_colour: g.average_colour,
        children: Seq::new(8, |j: int| gresolve_ref(g.children[j], (total - g.id) as u32, pl, total)),
        flags: flag_of(g.vtype),
    }
}

/// The flat contents contributed by a ghost subtree: identical in shape to
/// [`flat_of`] on the executable tree.
pub open spec fn gflat_of(g: GVoxel, total: int, pl: Seq<u32>) -> Map<int, FlatRec>
    decreases g,
{
    let idx = total - g.id;
    grefs_flat(g.children, total, pl.push(idx as u32)).insert(idx, grec_of(g, total, pl))
}

pub open spec fn grefs_flat(cs: Seq<GRef>, total: int, plc: Seq<u32>) -> Map<int, FlatRec>
    decreases cs,
{
    if cs.len() == 0 {
        Map::empty()
    } else {
        grefs_flat(cs.drop_last(), total, plc).union_prefer_right(gref_flat(cs.last(), total, plc))
    }
}

pub open spec fn gref_flat(r: GRef, total: int, plc: Seq<u32>) -> Map<int, FlatRec>
    decreases r,
{
    match r {
        GRef::Owned(b) => gflat_of(*b, total, plc),
        GRef::Back(_) => Map::empty(),
        GRef::Free => Map::empty(),
    }
}

/// The ghost view of a tree produces exactly the flat contents of the tree.
pub proof fn lemma_flat_of_view(v: Voxel, total: int, pl: Seq<u32>, lo: int)
    requires
        crate::graph::wf_voxel(v, lo),
    ensures
        gflat_of(gview(v), total, pl) == flat_of(v, total, pl),
    decreases v,
{
    let idx = total - v.id;
    lemma_refs_flat_view(v.children@, total, pl.push(idx as u32), lo);
    lemma_grefs_view_index(v.children@);
    assert(grec_of(gview(v), total, pl).children =~= rec_of(v, total, pl).children) by {
        assert forall|j: int| 0 <= j < 8 implies grec_of(gview(v), total, pl).children[j]
            == rec_of(v, total, pl).children[j] by {
            assert(grefs_view(v.children@)[j] == gref_view(v.children@[j]));
            assert(gresolve_ref(gref_view(v.children@[j]), idx as u32, pl, total)
                == resolve_ref(v.children@[j], idx as u32, pl, total));
        }
    }
    assert(grec_of(gview(v), total, pl) =~= rec_of(v, total, pl));
}

pub proof fn lemma_refs_flat_view(cs: Seq<GraphRef>, total: int, plc: Seq<u32>, lo: int)
    requires
        crate::graph::wf_refs(cs, lo),
    ensures
        grefs_flat(grefs_view(cs), total, plc) == refs_flat(cs, total, plc),
    decreases cs,
{
    if cs.len() == 0 {
    } else {
        lemma_refs_flat_view(cs.drop_last(), total, plc, lo);
        let gcs = grefs_view(cs);
        assert(gcs.drop_last() =~= grefs_view(cs.drop_last()));
        assert(gcs.last() == gref_view(cs.last()));
        assert(gcs.len() == grefs_view(cs.drop_last()).len() + 1);
        match cs.last() {
            GraphRef::Ref(b) => {
                lemma_flat_of_view(*b, total, plc,
                    lo + crate::graph::count_refs(cs.drop_last()));
                assert(gcs.last() == GRef::Owned(Box::new(gview(*b))));
                assert(gref_flat(gcs.last(), total, plc) == gflat_of(gview(*b), total, plc));
                assert(crate::graph::ref_flat(cs.last(), total, plc)
                    == flat_of(*b, total, plc));
            }
            GraphRef::Recurse(_) => {
                assert(gref_flat(gcs.last(), total, plc) =~= Map::<int, FlatRec>::empty());
            }
            GraphRef::Empty => {
                assert(gref_flat(gcs.last(), total, plc) =~= Map::<int, FlatRec>::empty());
            }
        }
        assert(grefs_flat(gcs.drop_last(), total, plc) == refs_flat(cs.drop_last(), total, plc));
        assert(gref_flat(gcs.last(), total, plc) == crate::graph::ref_flat(cs.last(), total, plc));
        assert(grefs_flat(gcs, total, plc) == grefs_flat(gcs.drop_last(), total, plc)
            .union_prefer_right(gref_flat(gcs.last(), total, plc)));
        assert(refs_flat(cs, total, plc) == refs_flat(cs.drop_last(), total, plc)
            .union_prefer_right(crate::graph::ref_flat(cs.last(), total, plc)));
        assert(grefs_flat(gcs, total, plc) == refs_flat(cs, total, plc));
    }
}

/// The uniform sample drawn next from a source in state `m`, and the state
/// after drawing it.
pub open spec fn spec_sample(m: SourceModel) -> (u32, SourceModel) {
    (unit_stream(m.seed, m.drawn), SourceModel { drawn: m.drawn + 1, ..m })
}

/// The colour rolled from three uniform samples.
pub open spec fn spec_colour(m: SourceModel) -> (Colour, SourceModel) {
    let (red, m1) = spec_sample(m);
    let (green, m2) = spec_sample(m1);
    let (blue, m3) = spec_sample(m2);
    (Colour { red: red >> 16, green: green >> 16, blue: blue >> 16, alpha: COLOUR_ONE }, m3)
}

/// The clamped exponential jump length computed from the fixed-point
/// sample remainder `w`, continuing at level `k`.
pub open spec fn jump_from(w: int, k: u32, max_depth: u32) -> u32
    decreases max_depth - k when k <= max_depth
{
    if k < max_depth && w <= 0x8000_0000 {
        jump_from(w * 2, (k + 1) as u32, max_depth)
    } else {
        k
    }
}

/// The back-reference jump drawn next from state `m`.
pub open spec fn spec_jump(m: SourceModel, max_depth: u32) -> (u32, SourceModel) {
    let (s, m1) = spec_sample(m);
    (jump_from(0x1_0000_0000 - s, 0, max_depth), m1)
}

/// The leaf kind standing for a sampled index.
pub open spec fn spec_leaf_kind(index: usize, deep: bool) -> VoxelType {
    if index == 0 {
        VoxelType::Colour
    } else if deep && index == 1 {
        VoxelType::Portal
    } else {
        VoxelType::Mirror
    }
}

/// The leaf node rolled next from state `m` at `depth`, with the
/// statistics after it.
pub open spec fn spec_leaf(m: SourceModel, depth: u32, stats: OctreeStats) -> (GVoxel, SourceModel, OctreeStats) {
    let (colour, m1) = spec_colour(m);
    let id = (stats.voxel_count + 1) as u32;
    let deep = depth >= MINIMUM_GOAL_DEPTH;
    let index = leaf_stream(m1.seed, m1.history, deep);
    let m2 = SourceModel { history: m1.history.push(deep), ..m1 };
    let vtype = spec_leaf_kind(index, deep);
    let goals = if vtype == VoxelType::Portal {
        (stats.goal_count + 1) as u32
    } else {
        stats.goal_count
    };
    (
        GVoxel {
            average_colour: colour,
            children: Seq::new(8, |j: int| GRef::Back(0)),
            vtype,
            id,
        },
        m2,
        OctreeStats { goal_count: goals, voxel_count: id },
    )
}

/// The running state of rolling one node's child slots.
pub ghost struct ChildrenRoll {
    pub children: Seq<GRef>,
    pub model: SourceModel,
    pub stats: OctreeStats,
    pub sum_red: int,
    pub sum_green: int,
    pub sum_blue: int,
    pub sum_alpha: int,
    pub sum_count: u32,
}

/// The state after rolling the first `k` child slots of a node at `depth`,
/// starting from source state `m` and statistics `stats`: one uniform
/// sample classifies each slot as empty, leaf, branch or back-reference,
/// with leaves and branches suppressed at the node-count cap and branches
/// also suppressed at the depth cap.
pub open spec fn spec_children(m: SourceModel, depth: u32, stats: OctreeStats, k: int) -> ChildrenRoll
    decreases MAXIMUM_VOXEL_DEPTH - depth, 0int, k when depth <= MAXIMUM_VOXEL_DEPTH && k >= 0
{
    if k <= 0 {
        ChildrenRoll {
            children: Seq::empty(),
            model: m,
            stats,
            sum_red: 0,
            sum_green: 0,
            sum_blue: 0,
            sum_alpha: 0,
            sum_count: 0,
        }
    } else {
        let st = spec_children(m, depth, stats, k - 1);
        let (sample, m1) = spec_sample(st.model);
        if sample < crate::voxel_gen::EMPTY_THRESHOLD {
            ChildrenRoll { children: st.children.push(GRef::Free), model: m1, ..st }
        } else if sample < leaf_threshold_spec(depth) {
            if st.stats.voxel_count < crate::voxel_gen::MAXIMUM_VOXEL_COUNT {
                let (leaf, m2, stats2) = spec_leaf(m1, depth, st.stats);
                ChildrenRoll {
                    children: st.children.push(GRef::Owned(Box::new(leaf))),
                    model: m2,
                    stats: stats2,
                    sum_red: st.sum_red + leaf.average_colour.red,
                    sum_green: st.sum_green + leaf.average_colour.green,
                    sum_blue: st.sum_blue + leaf.average_colour.blue,
                    sum_alpha: st.sum_alpha + leaf.average_colour.alpha,
                    sum_count: (st.sum_count + 1) as u32,
                }
            } else {
                ChildrenRoll { children: st.children.push(GRef::Free), model: m1, ..st }
            }
        } else if sample < branch_threshold_spec(depth) {
            if depth < MAXIMUM_VOXEL_DEPTH
                && st.stats.voxel_count < crate::voxel_gen::MAXIMUM_VOXEL_COUNT {
                let (sub, m2, stats2) = spec_roll((depth + 1) as u32, m1, st.stats);
                ChildrenRoll {
                    children: st.children.push(GRef::Owned(Box::new(sub))),
                    model: m2,
                    stats: stats2,
                    sum_red: st.sum_red + sub.average_colour.red,
                    sum_green: st.sum_green + sub.average_colour.green,
                    sum_blue: st.sum_blue + sub.average_colour.blue,
                    sum_alpha: st.sum_alpha + sub.average_colour.alpha,
                    sum_count: (st.sum_count + 1) as u32,
                }
            } else if st.stats.voxel_count < crate::voxel_gen::MAXIMUM_VOXEL_COUNT {
                let (leaf, m2, stats2) = spec_leaf(m1, depth, st.stats);
                ChildrenRoll {
                    children: st.children.push(GRef::Owned(Box::new(leaf))),
                    model: m2,
                    stats: stats2,
                    sum_red: st.sum_red + leaf.average_colour.red,
                    sum_green: st.sum_green + leaf.average_colour.green,
                    sum_blue: st.sum_blue + leaf.average_colour.blue,
                    sum_alpha: st.sum_alpha + leaf.average_colour.alpha,
                    sum_count: (st.sum_count + 1) as u32,
                }
            } else {
                ChildrenRoll { children: st.children.push(GRef::Free), model: m1, ..st }
            }
        } else {
            let (jump, m2) = spec_jump(m1, depth);
            ChildrenRoll { children: st.children.push(GRef::Back(jump)), model: m2, ..st }
        }
    }
}

/// The interior node rolled at `depth` from source state `m`: its eight
/// child slots, then its own id and the mean of its owned children's
/// colours.
pub open spec fn spec_roll(depth: u32, m: SourceModel, stats: OctreeStats) -> (GVoxel, SourceModel, OctreeStats)
    decreases MAXIMUM_VOXEL_DEPTH - depth, 1int, 0int when depth <= MAXIMUM_VOXEL_DEPTH
{
    let st = spec_children(m, depth, stats, 8);
    let den = if st.sum_count > 0 {
        st.sum_count as int
    } else {
        1
    };
    let id = (st.stats.voxel_count + 1) as u32;
    (
        GVoxel {
            average_colour: Colour {
                red: (st.sum_red / den) as u32,
                green: (st.sum_green / den) as u32,
                blue: (st.sum_blue / den) as u32,
                alpha: (st.sum_alpha / den) as u32,
            },
            children: st.children,
            vtype: VoxelType::Complex,
            id,
        },
        st.model,
        OctreeStats { goal_count: st.stats.goal_count, voxel_count: id },
    )
}

/// Attempts after which the sampling loop gives up and keeps its last
/// tree: in practice unreachable, it only bounds the loop formally.
pub const ATTEMPT_LIMIT: u64 = 0xFFFF_FFFF_FFFF_FFFE;

/// The `a`-th whole-tree attempt made from initial source state `m0`:
/// each attempt rolls a fresh root at depth 0 with zeroed statistics,
/// continuing with the source state the previous attempt left behind.
pub open spec fn attempt(m0: SourceModel, a: nat) -> (GVoxel, SourceModel, OctreeStats)
    decreases a,
{
    if a == 0 {
        spec_roll(0, m0, OctreeStats { goal_count: 0, voxel_count: 0 })
    } else {
        spec_roll(0, attempt(m0, (a - 1) as nat).1, OctreeStats { goal_count: 0, voxel_count: 0 })
    }
}

/// Whether the `a`-th attempt meets both generation targets.
pub open spec fn succeeds(m0: SourceModel, n: u32, p: u32, a: nat) -> bool {
    attempt(m0, a).2.voxel_count >= n && attempt(m0, a).2.goal_count >= p
}

/// The first attempt at or past `k` that meets the targets, or the
/// give-up attempt if none does.
pub open spec fn first_success_from(m0: SourceModel, n: u32, p: u32, k: u64) -> u64
    decreases ATTEMPT_LIMIT - k when k <= ATTEMPT_LIMIT
{
    if k >= ATTEMPT_LIMIT {
        ATTEMPT_LIMIT
    } else if succeeds(m0, n, p, k as nat) {
        k
    } else {
        first_success_from(m0, n, p, (k + 1) as u64)
    }
}

/// The attempt whose tree the generator returns for initial state `m0`.
pub open spec fn chosen_attempt(m0: SourceModel, n: u32, p: u32) -> u64 {
    first_success_from(m0, n, p, 0)
}

/// The records of a flat array, as mathematical values.
pub open spec fn recs_of(s: Seq<crate::flat::VoxelCompact>) -> Seq<FlatRec> {
    s.map_values(|v: crate::flat::VoxelCompact| v@)
}

/// The generator's outcome for initial source state `m0` and targets `n`
/// voxels / `p` portals: the statistics, the final source state and every
/// record of the flat array are those of the chosen attempt.
pub open spec fn generated_world(
    m0: SourceModel,
    n: u32,
    p: u32,
    w: Seq<FlatRec>,
    s: OctreeStats,
    m_end: SourceModel,
) -> bool {
    let a = chosen_attempt(m0, n, p) as nat;
    &&& s == attempt(m0, a).2
    &&& m_end == attempt(m0, a).1
    &&& w.len() == s.voxel_count
    &&& forall|i: int| 0 <= i < w.len() ==> w[i] == gflat_of(attempt(m0, a).0,
        s.voxel_count as int, Seq::empty())[i]
}

/// Determinism of generation: two worlds generated from sources in the
/// same state, with the same targets, are identical, record for record,
/// along with their statistics and the source state they leave behind.
pub proof fn lemma_generation_deterministic(
    m0: SourceModel,
    n: u32,
    p: u32,
    w1: Seq<FlatRec>,
    s1: OctreeStats,
    e1: SourceModel,
    w2: Seq<FlatRec>,
    s2: OctreeStats,
    e2: SourceModel,
)
    requires
        generated_world(m0, n, p, w1, s1, e1),
        generated_world(m0, n, p, w2, s2, e2),
    ensures
        w1 == w2,
        s1 == s2,
        e1 == e2,
{
    assert(w1 =~= w2);
}

/// The leaf-classification threshold table, as the executable
/// [`crate::voxel_gen`] carries it.
pub open spec fn leaf_threshold_spec(depth: u32) -> u32 {
    if depth == 0 { 1932735283 }
    else if depth == 1 { 2647193130 }
    else if depth == 2 { 3035167710 }
    else if depth == 3 { 3276459327 }
    else if depth == 4 { 3440566876 }
    else if depth == 5 { 3559285338 }
    else if depth == 6 { 3649109578 }
    else if depth == 7 { 3719423489 }
    else if depth == 8 { 3775951398 }
    else if depth == 9 { 3822380799 }
    else if depth == 10 { 3861193173 }
    else if depth == 11 { 3894119273 }
    else if depth == 12 { 3922402818 }
    else if depth == 13 { 3946960433 }
    else if depth == 14 { 3968482473 }
    else { 3987498752 }
}

/// The branch-classification threshold table, as the executable
/// [`crate::voxel_gen`] carries it.
pub open spec fn branch_threshold_spec(depth: u32) -> u32 {
    if depth == 0 { 3543348019 }
    else if depth == 1 { 3731349030 }
    else if depth == 2 { 3831053628 }
    else if depth == 3 { 3894662405 }
    else if depth == 4 { 3939509065 }
    else if depth == 5 { 3973188239 }
    else if depth == 6 { 3999608707 }
    else if depth == 7 { 4021008933 }
    else if depth == 8 { 4038772739 }
    else if depth == 9 { 4053806409 }
    else if depth == 10 { 4066730885 }
    else if depth == 11 { 4077987343 }
    else if depth == 12 { 4087898753 }
    else if depth == 13 { 4096707540 }
    else if depth == 14 { 4104599588 }
    else { 4111720061 }
}

proof fn lemma_first_success_finds(m0: SourceModel, n: u32, p: u32, k: u64, a: u64)
    requires
        k <= a < ATTEMPT_LIMIT,
        succeeds(m0, n, p, a as nat),
    ensures
        first_success_from(m0, n, p, k) <= a,
        succeeds(m0, n, p, first_success_from(m0, n, p, k) as nat),
    decreases a - k,
{
    if succeeds(m0, n, p, k as nat) {
    } else {
        lemma_first_success_finds(m0, n, p, (k + 1) as u64, a);
    }
}

/// Success is kept whenever it is reachable: if any attempt within the
/// bound meets both targets, the statistics of the generated world meet
/// them too (the generator returns the first such attempt).
pub proof fn lemma_targets_met_when_reachable(
    m0: SourceModel,
    n: u32,
    p: u32,
    w: Seq<FlatRec>,
    s: OctreeStats,
    m_end: SourceModel,
    a: u64,
)
    requires
        generated_world(m0, n, p, w, s, m_end),
        a < ATTEMPT_LIMIT,
        succeeds(m0, n, p, a as nat),
    ensures
        s.voxel_count >= n,
        s.goal_count >= p,
{
    lemma_first_success_finds(m0, n, p, 0, a);
}

/// The qualitative shape of the classification bands: the empty chance is
/// depth-independent (below the leaf threshold at every depth), the leaf
/// band only widens with depth, and the branch band only narrows with
/// depth until it reaches its floor.
pub proof fn lemma_threshold_shape(d: u32)
    requires
        d < u32::MAX,
    ensures
        crate::voxel_gen::EMPTY_THRESHOLD <= leaf_threshold_spec(d),
        leaf_threshold_spec(d) <= branch_threshold_spec(d),
        leaf_threshold_spec(d) <= leaf_threshold_spec((d + 1) as u32),
        branch_threshold_spec((d + 1) as u32) - leaf_threshold_spec((d + 1) as u32)
            <= branch_threshold_spec(d) - leaf_threshold_spec(d),
{
}

} // verus!
