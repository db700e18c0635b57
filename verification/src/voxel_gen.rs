//! Random generation of a voxel world.
//!
//! An attempt rolls a random tree depth-first: each of a node's eight
//! child slots is classified by one uniform sample as empty, a leaf, a
//! branch (recurse one level) or a back-reference, with depth-dependent
//! fixed-point thresholds: the empty probability is constant, the leaf
//! band widens with depth and the branch band narrows with depth.
//! Attempts are repeated until the accepted tree meets the desired voxel
//! and portal counts; the accepted tree is compacted into the flat form.
//! Every step is pinned to the ghost mirror in [`crate::gen_model`], so
//! the generated world is a function of the random source's seed.
//!
//! Two bounds keep every run finite where the design would otherwise
//! rely on probability alone: generation does not branch past the query's
//! maximum depth, and stops producing leaves past a node-count cap far
//! above any count the thresholds can realistically reach.

use vstd::prelude::*;

use crate::flat::{wf_octree, Colour, VoxelCompact, COLOUR_ONE, FLAG_COMPLEX,
    MAXIMUM_VOXEL_DEPTH, MINIMUM_GOAL_DEPTH};
use crate::gen_model::{attempt, branch_threshold_spec, chosen_attempt, first_success_from,
    generated_world, gflat_of, gview, jump_from, leaf_threshold_spec, lemma_flat_of_view,
    lemma_grefs_view_index, lemma_grefs_view_push, recs_of, spec_children, spec_colour,
    spec_jump, spec_leaf, spec_leaf_kind, spec_roll, spec_sample, ChildrenRoll, GRef,
    ATTEMPT_LIMIT};
use crate::graph::{count_refs, count_voxels, lemma_count_refs_push, lemma_wf_refs_push, rec_of,
    wf_refs, wf_voxel, GraphRef, Voxel, VoxelType};
use crate::octree_compact::compact_octree_from_root;
use crate::random_source::RandomFloats;

verus! {

/// Hard cap on the nodes of one attempt, far above what the thresholds
/// can realistically produce: past it, child slots no longer grow leaves
/// or branches, so ids always fit comfortably in 32 bits.
pub const MAXIMUM_VOXEL_COUNT: u32 = 0x0100_0000;

/// Fixed-point probability threshold (fraction of 2^32) under which a
/// sample means an empty child: 0.45, independent of depth.
pub const EMPTY_THRESHOLD: u32 = 1932735283;

/// Counters accumulated while one world is generated.
#[derive(Clone, Copy, PartialEq, Eq, Structural, Debug)]
pub struct OctreeStats {
    pub goal_count: u32,
    pub voxel_count: u32,
}

impl Default for OctreeStats {
    fn default() -> (s: OctreeStats)
        ensures
            s == (OctreeStats { goal_count: 0, voxel_count: 0 }),
    {
        OctreeStats { goal_count: 0, voxel_count: 0 }
    }
}

/// Threshold under which a sample means a leaf: 0.45 to the power
/// 1/(0.65 d + 1), precomputed in fixed point.  It grows with depth, so
/// leaves get likelier the deeper the node.
fn leaf_threshold(depth: u32) -> (t: u32)
    ensures
        t == leaf_threshold_spec(depth),
{
    match depth {
        0 => 1932735283,
        1 => 2647193130,
        2 => 3035167710,
        3 => 3276459327,
        4 => 3440566876,
        5 => 3559285338,
        6 => 3649109578,
        7 => 3719423489,
        8 => 3775951398,
        9 => 3822380799,
        10 => 3861193173,
        11 => 3894119273,
        12 => 3922402818,
        13 => 3946960433,
        14 => 3968482473,
        _ => 3987498752,
    }
}

/// Threshold under which a sample means a branch: 0.825 to the power
/// (1/(0.65 d + 1))^0.625, precomputed in fixed point.  The band between
/// the leaf and branch thresholds narrows with depth, so branching gets
/// rarer the deeper the node.
fn branch_threshold(depth: u32) -> (t: u32)
    ensures
        t == branch_threshold_spec(depth),
{
    match depth {
        0 => 3543348019,
        1 => 3731349030,
        2 => 3831053628,
        3 => 3894662405,
        4 => 3939509065,
        5 => 3973188239,
        6 => 3999608707,
        7 => 4021008933,
        8 => 4038772739,
        9 => 4053806409,
        10 => 4066730885,
        11 => 4077987343,
        12 => 4087898753,
        13 => 4096707540,
        14 => 4104599588,
        _ => 4111720061,
    }
}

/// All channels of a colour at or below the fixed-point one.
pub open spec fn colour_bounded(c: Colour) -> bool {
    c.red <= COLOUR_ONE && c.green <= COLOUR_ONE && c.blue <= COLOUR_ONE && c.alpha <= COLOUR_ONE
}

/// A uniform random colour with full opacity.
fn random_colour(random: &mut RandomFloats) -> (c: Colour)
    ensures
        (c, final(random)@) == spec_colour(old(random)@),
        colour_bounded(c),
        c.alpha == COLOUR_ONE,
{
    let red = random.samplef();
    let green = random.samplef();
    let blue = random.samplef();
    assert(red >> 16 <= 0xFFFFu32) by (bit_vector);
    assert(green >> 16 <= 0xFFFFu32) by (bit_vector);
    assert(blue >> 16 <= 0xFFFFu32) by (bit_vector);
    Colour { red: red >> 16, green: green >> 16, blue: blue >> 16, alpha: COLOUR_ONE }
}

/// How many ancestor levels a back-reference jumps: an exponential-shaped
/// draw (each further level is half as likely), clamped to the current
/// depth.
pub fn random_recurse(random: &mut RandomFloats, max_depth: u32) -> (j: u32)
    ensures
        (j, final(random)@) == spec_jump(old(random)@, max_depth),
        j <= max_depth,
{
    let s = random.samplef();
    let v: u64 = 0x1_0000_0000u64 - (s as u64);
    let mut k: u32 = 0;
    let mut w: u64 = v;
    while k < max_depth && w <= 0x8000_0000u64
        invariant
            1 <= w <= 0x1_0000_0000u64,
            k <= max_depth,
            jump_from(v as int, 0, max_depth) == jump_from(w as int, k, max_depth),
        decreases max_depth - k,
    {
        w = w * 2;
        k = k + 1;
    }
    k
}

/// The eight child slots of a leaf: all back-references to the leaf
/// itself, so a leaf cell repeats its own geometry at every finer scale.
fn leaf_children() -> (v: Vec<GraphRef>)
    ensures
        v@.len() == 8,
        count_refs(v@) == 0,
        forall|lo: int| wf_refs(v@, lo),
        forall|i: int| 0 <= i < 8 ==> v@[i] == GraphRef::Recurse(0),
{
    let mut v: Vec<GraphRef> = Vec::new();
    let mut k: usize = 0;
    while k < 8
        invariant
            k <= 8,
            v@.len() == k,
            count_refs(v@) == 0,
            forall|lo: int| wf_refs(v@, lo),
            forall|i: int| 0 <= i < k ==> v@[i] == GraphRef::Recurse(0),
        decreases 8 - k,
    {
        let ghost oldv = v@;
        v.push(GraphRef::Recurse(0));
        proof {
            lemma_count_refs_push(oldv, GraphRef::Recurse(0));
            assert forall|lo: int| wf_refs(v@, lo) by {
                lemma_wf_refs_push(oldv, GraphRef::Recurse(0), lo);
            }
        }
        k = k + 1;
    }
    v
}

/// Roll one random leaf: colour, portal or mirror, with portals possible
/// only at or past the minimum goal depth.  The leaf takes the next
/// sequential id.
fn random_leaf(random: &mut RandomFloats, depth: u32, stats: &mut OctreeStats) -> (v: Voxel)
    requires
        old(stats).voxel_count < MAXIMUM_VOXEL_COUNT,
        old(stats).goal_count <= old(stats).voxel_count,
    ensures
        (gview(v), final(random)@, *final(stats)) == spec_leaf(old(random)@, depth, *old(stats)),
        final(stats).voxel_count == old(stats).voxel_count + 1,
        old(stats).goal_count <= final(stats).goal_count <= final(stats).voxel_count,
        final(stats).goal_count == old(stats).goal_count
            + (if v.vtype == VoxelType::Portal { 1int } else { 0 }),
        wf_voxel(v, old(stats).voxel_count + 1),
        count_voxels(v) == 1,
        v.id == final(stats).voxel_count,
        v.vtype != VoxelType::Complex,
        v.vtype == VoxelType::Portal ==> depth >= MINIMUM_GOAL_DEPTH,
        colour_bounded(v.average_colour),
{
    let colour = random_colour(random);
    stats.voxel_count = stats.voxel_count + 1;
    let id = stats.voxel_count;
    let deep = depth >= MINIMUM_GOAL_DEPTH;
    let kind_index = random.sample_leaf_index(deep);
    let vtype = if kind_index == 0 {
        VoxelType::Colour
    } else if deep && kind_index == 1 {
        VoxelType::Portal
    } else {
        VoxelType::Mirror
    };
    proof {
        assert(vtype == spec_leaf_kind(kind_index, deep));
    }
    if matches!(vtype, VoxelType::Portal) {
        stats.goal_count = stats.goal_count + 1;
    }
    let children = leaf_children();
    proof {
        assert(wf_refs(children@, old(stats).voxel_count + 1));
        assert(count_refs(children@) == 0);
        lemma_grefs_view_index(children@);
        assert(crate::gen_model::grefs_view(children@) =~= Seq::new(8, |j: int| GRef::Back(0)));
    }
    let v = Voxel { average_colour: colour, children, vtype, id };
    proof {
        assert(gview(v) == spec_leaf(old(random)@, depth, *old(stats)).0);
    }
    v
}

/// Roll the subtree of one interior node, depth-first: classify each of
/// the eight child slots from one uniform sample, then take the node's
/// own id after all children, so ids are dense and post-order.  The
/// node's colour is the arithmetic mean of its owned children's colours
/// (black when it owns none).
pub fn roll_voxel_graph(random: &mut RandomFloats, depth: u32, stats: &mut OctreeStats) -> (v: Voxel)
    requires
        depth <= MAXIMUM_VOXEL_DEPTH,
        old(stats).voxel_count < MAXIMUM_VOXEL_COUNT,
        old(stats).goal_count <= old(stats).voxel_count,
    ensures
        (gview(v), final(random)@, *final(stats)) == spec_roll(depth, old(random)@, *old(stats)),
        wf_voxel(v, old(stats).voxel_count + 1),
        count_voxels(v) == final(stats).voxel_count - old(stats).voxel_count,
        v.id == final(stats).voxel_count,
        old(stats).voxel_count < final(stats).voxel_count,
        final(stats).voxel_count <= MAXIMUM_VOXEL_COUNT + 1 + (MAXIMUM_VOXEL_DEPTH - depth),
        old(stats).goal_count <= final(stats).goal_count <= final(stats).voxel_count,
        v.vtype == VoxelType::Complex,
        colour_bounded(v.average_colour),
    decreases MAXIMUM_VOXEL_DEPTH - depth,
{
    let ghost c0 = stats.voxel_count;
    let ghost m0 = random@;
    let ghost st0 = *stats;
    let mut sum_red: u32 = 0;
    let mut sum_green: u32 = 0;
    let mut sum_blue: u32 = 0;
    let mut sum_alpha: u32 = 0;
    let mut sum_count: u32 = 0;
    let mut children: Vec<GraphRef> = Vec::new();
    let mut k: usize = 0;
    while k < 8
        invariant
            k <= 8,
            children@.len() == k,
            wf_refs(children@, c0 + 1),
            count_refs(children@) == stats.voxel_count - c0,
            c0 <= stats.voxel_count,
            c0 == st0.voxel_count,
            depth <= MAXIMUM_VOXEL_DEPTH,
            stats.voxel_count <= MAXIMUM_VOXEL_COUNT + (MAXIMUM_VOXEL_DEPTH - depth),
            old(stats).goal_count <= stats.goal_count <= stats.voxel_count,
            st0.goal_count == old(stats).goal_count,
            sum_count <= k,
            sum_red <= sum_count * COLOUR_ONE,
            sum_green <= sum_count * COLOUR_ONE,
            sum_blue <= sum_count * COLOUR_ONE,
            sum_alpha <= sum_count * COLOUR_ONE,
            spec_children(m0, depth, st0, k as int) == (ChildrenRoll {
                children: crate::gen_model::grefs_view(children@),
                model: random@,
                stats: *stats,
                sum_red: sum_red as int,
                sum_green: sum_green as int,
                sum_blue: sum_blue as int,
                sum_alpha: sum_alpha as int,
                sum_count: sum_count,
            }),
        decreases 8 - k,
    {
        let ghost co_prev = spec_children(m0, depth, st0, k as int);
        let sample = random.samplef();
        proof {
            assert((sample, random@) == spec_sample(co_prev.model));
        }
        let child: GraphRef;
        if sample < EMPTY_THRESHOLD {
            child = GraphRef::Empty;
        } else if sample < leaf_threshold(depth) {
            if stats.voxel_count < MAXIMUM_VOXEL_COUNT {
                let leaf = random_leaf(random, depth, stats);
                sum_red = sum_red + leaf.average_colour.red;
                sum_green = sum_green + leaf.average_colour.green;
                sum_blue = sum_blue + leaf.average_colour.blue;
                sum_alpha = sum_alpha + leaf.average_colour.alpha;
                sum_count = sum_count + 1;
                child = GraphRef::Ref(Box::new(leaf));
            } else {
                child = GraphRef::Empty;
            }
        } else if sample < branch_threshold(depth) {
            if depth < MAXIMUM_VOXEL_DEPTH && stats.voxel_count < MAXIMUM_VOXEL_COUNT {
                let sub = roll_voxel_graph(random, depth + 1, stats);
                sum_red = sum_red + sub.average_colour.red;
                sum_green = sum_green + sub.average_colour.green;
                sum_blue = sum_blue + sub.average_colour.blue;
                sum_alpha = sum_alpha + sub.average_colour.alpha;
                sum_count = sum_count + 1;
                child = GraphRef::Ref(Box::new(sub));
            } else if stats.voxel_count < MAXIMUM_VOXEL_COUNT {
                let leaf = random_leaf(random, depth, stats);
                sum_red = sum_red + leaf.average_colour.red;
                sum_green = sum_green + leaf.average_colour.green;
                sum_blue = sum_blue + leaf.average_colour.blue;
                sum_alpha = sum_alpha + leaf.average_colour.alpha;
                sum_count = sum_count + 1;
                child = GraphRef::Ref(Box::new(leaf));
            } else {
                child = GraphRef::Empty;
            }
        } else {
            child = GraphRef::Recurse(random_recurse(random, depth));
        }
        let ghost oldc = children@;
        proof {
            lemma_count_refs_push(oldc, child);
            lemma_wf_refs_push(oldc, child, c0 + 1);
            lemma_grefs_view_push(oldc, child);
        }
        children.push(child);
        k = k + 1;
        proof {
            let co = spec_children(m0, depth, st0, k as int);
            assert(co == (ChildrenRoll {
                children: crate::gen_model::grefs_view(children@),
                model: random@,
                stats: *stats,
                sum_red: sum_red as int,
                sum_green: sum_green as int,
                sum_blue: sum_blue as int,
                sum_alpha: sum_alpha as int,
                sum_count: sum_count,
            }));
        }
    }
    let ghost co = spec_children(m0, depth, st0, 8);
    let den: u32 = if sum_count > 0 {
        sum_count
    } else {
        1
    };
    assert(sum_red / den <= COLOUR_ONE && sum_green / den <= COLOUR_ONE
        && sum_blue / den <= COLOUR_ONE && sum_alpha / den <= COLOUR_ONE) by (nonlinear_arith)
        requires
            sum_count <= 8,
            den == (if sum_count > 0 { sum_count } else { 1u32 }),
            sum_red <= sum_count * COLOUR_ONE,
            sum_green <= sum_count * COLOUR_ONE,
            sum_blue <= sum_count * COLOUR_ONE,
            sum_alpha <= sum_count * COLOUR_ONE,
    ;
    let average_colour = Colour {
        red: sum_red / den,
        green: sum_green / den,
        blue: sum_blue / den,
        alpha: sum_alpha / den,
    };
    stats.voxel_count = stats.voxel_count + 1;
    let v = Voxel { average_colour, children, vtype: VoxelType::Complex, id: stats.voxel_count };
    proof {
        assert(gview(v) == spec_roll(depth, m0, st0).0);
        assert((*stats) == spec_roll(depth, m0, st0).2);
    }
    v
}

/// Generate a random voxel world: roll whole trees until one meets both
/// the desired voxel count and the desired portal count, then compact it.
///
/// The result is pinned to [`generated_world`]: the array, the statistics
/// and the advanced source state are all those of the first attempt that
/// meets the targets, a function of the source's state alone, which is
/// what makes worlds reproducible from a seed.  The array's length always
/// equals the voxel count, the record at index 0 is the root (an interior
/// node), and every child index in every record is in range, so the
/// result may be queried directly.  The sampling loop gives up after an
/// astronomically large number of attempts and then returns its last
/// attempt even if that attempt missed the targets, so the target counts
/// themselves are read from the returned statistics, not promised
/// unconditionally.
pub fn generate_recursive_voxel_octree(
    random: &mut RandomFloats,
    desired_voxel_count: u32,
    desired_portal_count: u32,
) -> (r: (Vec<VoxelCompact>, OctreeStats))
    ensures
        generated_world(old(random)@, desired_voxel_count, desired_portal_count,
            recs_of(r.0@), r.1, final(random)@),
        r.0@.len() == r.1.voxel_count,
        1 <= r.1.voxel_count,
        r.1.goal_count <= r.1.voxel_count,
        wf_octree(r.0@),
        r.0@[0]@.flags == FLAG_COMPLEX,
{
    let ghost m0 = old(random)@;
    let mut tries: u64 = 0;
    loop
        invariant
            m0 == old(random)@,
            tries <= ATTEMPT_LIMIT,
            random@ == (if tries == 0 { m0 } else { attempt(m0, (tries - 1) as nat).1 }),
            first_success_from(m0, desired_voxel_count, desired_portal_count, tries)
                == chosen_attempt(m0, desired_voxel_count, desired_portal_count),
        decreases ATTEMPT_LIMIT - tries,
    {
        let mut stats = OctreeStats::default();
        let v = roll_voxel_graph(random, 0, &mut stats);
        proof {
            assert((gview(v), random@, stats) == attempt(m0, tries as nat));
        }
        if (stats.voxel_count >= desired_voxel_count && stats.goal_count >= desired_portal_count)
            || tries >= ATTEMPT_LIMIT {
            proof {
                assert(first_success_from(m0, desired_voxel_count, desired_portal_count, tries)
                    == tries);
            }
            let ghost total = stats.voxel_count as int;
            let octree = compact_octree_from_root(v, stats.voxel_count);
            proof {
                assert(octree@[0]@ == rec_of(v, total, Seq::empty()));
                lemma_flat_of_view(v, total, Seq::empty(), 1);
                let a = chosen_attempt(m0, desired_voxel_count, desired_portal_count) as nat;
                assert(a == tries as nat);
                assert(stats == attempt(m0, a).2);
                assert(random@ == attempt(m0, a).1);
                assert(gview(v) == attempt(m0, a).0);
                assert(recs_of(octree@).len() == octree@.len());
                assert forall|i: int| 0 <= i < octree@.len()
                    implies recs_of(octree@)[i] == gflat_of(attempt(m0, a).0,
                        total, Seq::empty())[i] by {
                    assert(recs_of(octree@)[i] == octree@[i]@);
                    assert(octree@[i]@ == crate::graph::flat_of(v, total, Seq::empty())[i]);
                    assert(crate::graph::flat_of(v, total, Seq::empty())
                        == gflat_of(gview(v), total, Seq::empty()));
                }
                assert(generated_world(m0, desired_voxel_count, desired_portal_count,
                    recs_of(octree@), stats, random@));
            }
            return (octree, stats);
        }
        tries = tries + 1;
    }
}

} // verus!
