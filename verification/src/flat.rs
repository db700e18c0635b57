//! The compacted, flat form of a voxel world: fixed-stride records holding a
//! colour, eight child indices and a type tag.

use vstd::prelude::*;

verus! {

/// Depth at or past which leaves may become portals or mirrors.
pub const MINIMUM_GOAL_DEPTH: u32 = 6;

/// Maximum number of levels the point-location query will descend.
pub const MAXIMUM_VOXEL_DEPTH: u32 = 15;

/// Deepest level at which a portal can be reached by a query.
pub const MAXIMUM_GOAL_DEPTH: u32 = MAXIMUM_VOXEL_DEPTH - 1;

/// Sentinel child index meaning "no child".
pub const NULL_VOXEL_INDEX: u32 = 0xFFFF_FFFF;

/// Fixed-point unit for colour channels: this value stands for 1.0.
pub const COLOUR_ONE: u32 = 65536;

/// Record tag: an interior node whose children are traversed.
pub const FLAG_COMPLEX: u32 = 0;

/// Record tag: an inert colour leaf.
pub const FLAG_COLOUR: u32 = 1;

/// Record tag: a portal leaf; reaching its centre ends the world.
pub const FLAG_PORTAL: u32 = 2;

/// Record tag: a solid, collidable leaf.
pub const FLAG_MIRROR: u32 = 3;

/// An RGBA colour with fixed-point channels ([`COLOUR_ONE`] is 1.0).
#[derive(Clone, Copy, PartialEq, Eq, Structural, Debug)]
pub struct Colour {
    pub red: u32,
    pub green: u32,
    pub blue: u32,
    pub alpha: u32,
}

impl Colour {
    /// The all-zero colour (transparent black).
    pub fn black() -> (c: Colour)
        ensures
            c == (Colour { red: 0, green: 0, blue: 0, alpha: 0 }),
    {
        Colour { red: 0, green: 0, blue: 0, alpha: 0 }
    }
}

/// The mathematical value of one compacted record.
#[verifier::ext_equal]
pub ghost struct FlatRec {
    pub average_colour: Colour,
    pub children: Seq<u32>,
    pub flags: u32,
}

/// One compacted voxel record: the only form that leaves this subsystem.
///
/// `children` always holds exactly eight entries, one per octant; an entry is
/// either an index into the same flat array or [`NULL_VOXEL_INDEX`].
#[derive(Debug)]
pub struct VoxelCompact {
    pub average_colour: Colour,
    pub children: Vec<u32>,
    pub flags: u32,
}

impl View for VoxelCompact {
    type V = FlatRec;

    open spec fn view(&self) -> FlatRec {
        FlatRec {
            average_colour: self.average_colour,
            children: self.children@,
            flags: self.flags,
        }
    }
}

impl VoxelCompact {
    /// A record is well formed when it has one child slot per octant.
    pub open spec fn wf(self) -> bool {
        self.children@.len() == 8
    }

    pub fn new(average_colour: Colour, children: Vec<u32>, flags: u32) -> (v: VoxelCompact)
        requires
            children@.len() == 8,
        ensures
            v@ == (FlatRec { average_colour, children: children@, flags }),
            v.wf(),
    {
        VoxelCompact { average_colour, children, flags }
    }
}

impl Default for VoxelCompact {
    /// An empty record: black, no children, tagged as an interior node.
    fn default() -> (v: VoxelCompact)
        ensures
            v.wf(),
            v.flags == FLAG_COMPLEX,
            forall|j: int| 0 <= j < 8 ==> v.children@[j] == NULL_VOXEL_INDEX,
    {
        let mut children: Vec<u32> = Vec::new();
        let mut j: usize = 0;
        while j < 8
            invariant
                j <= 8,
                children@.len() == j,
                forall|k: int| 0 <= k < j ==> children@[k] == NULL_VOXEL_INDEX,
            decreases 8 - j,
        {
            children.push(NULL_VOXEL_INDEX);
            j = j + 1;
        }
        VoxelCompact { average_colour: Colour::black(), children, flags: FLAG_COMPLEX }
    }
}

/// Every child entry of `v` is either the null sentinel or an index below `len`.
pub open spec fn child_indices_ok(v: FlatRec, len: int) -> bool {
    forall|j: int| 0 <= j < v.children.len() ==> v.children[j] == NULL_VOXEL_INDEX || (#[trigger] v.children[j]) < len
}

/// A flat array is well formed when it is non-empty and every record has
/// eight children, each null or in bounds.  The point-location query relies
/// on this to never index out of range.
pub open spec fn wf_octree(s: Seq<VoxelCompact>) -> bool {
    &&& s.len() >= 1
    &&& s.len() <= u32::MAX
    &&& forall|i: int| 0 <= i < s.len() ==> (#[trigger] s[i]).wf() && child_indices_ok(s[i]@, s.len() as int)
}

} // verus!
