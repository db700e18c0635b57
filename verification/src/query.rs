//! Point location against a compacted voxel world.
//!
//! Positions live in a root-centred frame in which the root voxel spans
//! [-UNIT, UNIT] on each axis; [`UNIT`] is the fixed-point value of 1.0.
//! Descending one octree level recentres the point on the chosen octant and
//! doubles it, so coordinates never leave that range.  The scale factor of
//! the query doubles per level and is therefore carried as a power of two.

use vstd::prelude::*;

use crate::flat::{child_indices_ok, wf_octree, VoxelCompact, FLAG_MIRROR, FLAG_PORTAL,
    MAXIMUM_VOXEL_DEPTH, NULL_VOXEL_INDEX};

verus! {

/// Fixed-point unit for positions: this value stands for 1.0.
pub const UNIT: i64 = 0x4000_0000;

/// Squared distance from an octant centre under which a portal is taken,
/// in squared position units: 0.75 * UNIT * UNIT.
pub const GOAL_RADIUS_SQUARED: i64 = 3 * 0x2000_0000 * 0x2000_0000;

/// A position in the root-centred fixed-point frame.
#[derive(Clone, Copy, PartialEq, Eq, Structural, Debug)]
pub struct Position {
    pub x: i64,
    pub y: i64,
    pub z: i64,
}

impl Position {
    /// All coordinates within the cube the current voxel spans.
    pub open spec fn in_root(self) -> bool {
        -UNIT <= self.x <= UNIT && -UNIT <= self.y <= UNIT && -UNIT <= self.z <= UNIT
    }
}

/// The classification of a queried point.
///
/// `Empty` carries the base-2 logarithm of the scale reached (the number of
/// levels descended), standing for the scale factor 2^n.  `Portal` carries
/// the portal depth used for scoring.
#[derive(Clone, Copy, PartialEq, Eq, Structural, Debug)]
pub enum Intersection {
    Empty(u32),
    Collision,
    Portal(u32),
}

/// The octant containing `p`: one bit per axis, matching the octant
/// enumeration used when the world was generated.
pub open spec fn octant_of(p: Position) -> int {
    (if p.z > 0 { 4int } else { 0int }) + (if p.y <= 0 { 2int } else { 0int })
        + (if p.x > 0 { 1int } else { 0int })
}

/// `p` recentred on the centre of its octant and doubled: the same point
/// expressed in the frame of the child voxel.
pub open spec fn recentre(p: Position) -> Position {
    Position {
        x: (if p.x > 0 { 2 * p.x - UNIT } else { 2 * p.x + UNIT }) as i64,
        y: (if p.y > 0 { 2 * p.y - UNIT } else { 2 * p.y + UNIT }) as i64,
        z: (if p.z > 0 { 2 * p.z - UNIT } else { 2 * p.z + UNIT }) as i64,
    }
}

/// Squared distance of `p` from the origin, in squared position units.
pub open spec fn dist_squared(p: Position) -> int {
    p.x * p.x + p.y * p.y + p.z * p.z
}

/// The portal depth reported for a portal reached after `iter` levels:
/// one less than the level count, floored at zero.
pub open spec fn portal_depth(iter: u32) -> u32 {
    if iter >= 1 { (iter - 1) as u32 } else { 0 }
}

/// The result of descending the flat octree from `index` with `iter` levels
/// already descended.  This is the functional mirror of the executable
/// search: collision past the depth bound, empty on a null child, a tag
/// match on the record otherwise.
pub open spec fn search_spec(octree: Seq<VoxelCompact>, p: Position, index: u32, iter: u32) -> Intersection
    decreases MAXIMUM_VOXEL_DEPTH + 1 - iter,
{
    if iter > MAXIMUM_VOXEL_DEPTH {
        Intersection::Collision
    } else if index == NULL_VOXEL_INDEX {
        Intersection::Empty(iter)
    } else {
        let voxel = octree[index as int];
        if voxel.flags == FLAG_MIRROR {
            Intersection::Collision
        } else if voxel.flags == FLAG_PORTAL {
            if dist_squared(p) <= GOAL_RADIUS_SQUARED {
                Intersection::Portal(portal_depth(iter))
            } else {
                Intersection::Empty(iter)
            }
        } else {
            search_spec(octree, recentre(p), voxel.children@[octant_of(p)], (iter + 1) as u32)
        }
    }
}

/// What the public query returns: anything outside the root cube is empty
/// space at scale 1, everything else descends from the root record.
pub open spec fn locate_spec(octree: Seq<VoxelCompact>, p: Position) -> Intersection {
    if !p.in_root() {
        Intersection::Empty(0)
    } else {
        search_spec(octree, p, 0, 0)
    }
}

fn search_graph(iter: u32, p: Position, index: u32, octree: &Vec<VoxelCompact>) -> (r: Intersection)
    requires
        wf_octree(octree@),
        p.in_root(),
        index == NULL_VOXEL_INDEX || index < octree@.len(),
    ensures
        r == search_spec(octree@, p, index, iter),
    decreases MAXIMUM_VOXEL_DEPTH + 1 - iter,
{
    if iter > MAXIMUM_VOXEL_DEPTH {
        Intersection::Collision
    } else if index == NULL_VOXEL_INDEX {
        Intersection::Empty(iter)
    } else {
        let voxel = &octree[index as usize];
        if voxel.flags == FLAG_MIRROR {
            Intersection::Collision
        } else if voxel.flags == FLAG_PORTAL {
            let dx = p.x;
            let dy = p.y;
            let dz = p.z;
            assert(0 <= dx * dx <= UNIT * UNIT && 0 <= dy * dy <= UNIT * UNIT
                && 0 <= dz * dz <= UNIT * UNIT) by (nonlinear_arith)
                requires
                    -UNIT <= dx <= UNIT,
                    -UNIT <= dy <= UNIT,
                    -UNIT <= dz <= UNIT,
            ;
            if dx * dx + dy * dy + dz * dz <= GOAL_RADIUS_SQUARED {
                Intersection::Portal(if iter >= 1 { iter - 1 } else { 0 })
            } else {
                Intersection::Empty(iter)
            }
        } else {
            let octant: usize = (if p.z > 0 { 4 } else { 0 }) + (if p.y <= 0 { 2 } else { 0 })
                + (if p.x > 0 { 1 } else { 0 });
            let child = voxel.children[octant];
            assert(child_indices_ok(octree@[index as int]@, octree@.len() as int));
            assert(child == octree@[index as int]@.children[octant as int]);
            assert(child == NULL_VOXEL_INDEX || child < octree@.len());
            let next = Position {
                x: if p.x > 0 { 2 * p.x - UNIT } else { 2 * p.x + UNIT },
                y: if p.y > 0 { 2 * p.y - UNIT } else { 2 * p.y + UNIT },
                z: if p.z > 0 { 2 * p.z - UNIT } else { 2 * p.z + UNIT },
            };
            search_graph(iter + 1, next, child, octree)
        }
    }
}

/// Classify `position` against the compacted world `octree`.
///
/// The answer is exactly [`locate_spec`]: a point outside the root cube is
/// empty space at scale 1; otherwise the flat octree is descended from the
/// root, doubling the scale per level, for at most
/// [`MAXIMUM_VOXEL_DEPTH`] + 1 levels, so cycles in the flat array cannot
/// make the query run unboundedly.
pub fn octree_scale_and_collision_of_point(position: Position, octree: &Vec<VoxelCompact>) -> (r: Intersection)
    requires
        position.in_root() ==> wf_octree(octree@),
    ensures
        r == locate_spec(octree@, position),
        !position.in_root() ==> r == Intersection::Empty(0),
{
    if position.x > UNIT || position.x < -UNIT || position.y > UNIT || position.y < -UNIT
        || position.z > UNIT || position.z < -UNIT {
        Intersection::Empty(0)
    } else {
        search_graph(0, position, 0, octree)
    }
}

/// A point on some axis strictly outside the root cube is always empty
/// space at scale 1, whatever the flat array holds.
pub proof fn lemma_outside_root_is_empty(octree: Seq<VoxelCompact>, p: Position)
    requires
        !p.in_root(),
    ensures
        locate_spec(octree, p) == Intersection::Empty(0),
{
}

/// Reaching a portal record exactly at its centre (distance zero) yields a
/// portal whose depth is one less than the number of levels descended,
/// floored at zero: with scale 2^iter this is floor(max(log2(scale) - 1, 0)).
pub proof fn lemma_portal_at_centre(octree: Seq<VoxelCompact>, index: u32, iter: u32)
    requires
        iter <= MAXIMUM_VOXEL_DEPTH,
        index != NULL_VOXEL_INDEX,
        0 <= index < octree.len(),
        octree[index as int].flags == FLAG_PORTAL,
    ensures
        search_spec(octree, Position { x: 0, y: 0, z: 0 }, index, iter)
            == Intersection::Portal(portal_depth(iter)),
        iter >= 1 ==> portal_depth(iter) == iter - 1,
{
}

} // verus!
