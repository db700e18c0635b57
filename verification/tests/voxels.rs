use voxel_flight_simulator::flat::{Colour, VoxelCompact, FLAG_COMPLEX, FLAG_MIRROR, FLAG_PORTAL,
    NULL_VOXEL_INDEX};
use voxel_flight_simulator::graph::{GraphRef, Voxel, VoxelType};
use voxel_flight_simulator::octree_compact::compact_octree_from_root;
use voxel_flight_simulator::query::{octree_scale_and_collision_of_point, Intersection, Position,
    UNIT};
use voxel_flight_simulator::random_source::RandomFloats;
use voxel_flight_simulator::voxel_gen::generate_recursive_voxel_octree;

fn grey(level: u32) -> Colour {
    Colour { red: level, green: level, blue: level, alpha: 65536 }
}

fn self_referencing_children() -> Vec<GraphRef> {
    let mut v = Vec::new();
    for _ in 0..8 {
        v.push(GraphRef::Recurse(0));
    }
    v
}

fn leaf(colour: Colour, vtype: VoxelType, id: u32) -> Voxel {
    Voxel { average_colour: colour, children: self_referencing_children(), vtype, id }
}

// Same seed, same worlds, bit for bit.
#[test]
fn same_seed_gives_identical_worlds() {
    let mut first = RandomFloats::new(42);
    let mut second = RandomFloats::new(42);
    let (world_a, stats_a) = generate_recursive_voxel_octree(&mut first, 64, 2);
    let (world_b, stats_b) = generate_recursive_voxel_octree(&mut second, 64, 2);
    assert_eq!(stats_a, stats_b);
    assert_eq!(world_a.len(), world_b.len());
    for (a, b) in world_a.iter().zip(world_b.iter()) {
        assert_eq!(a.average_colour, b.average_colour);
        assert_eq!(a.children, b.children);
        assert_eq!(a.flags, b.flags);
    }
}

// Distinct seed offsets give deterministic but different worlds.
#[test]
fn seed_offsets_give_distinct_deterministic_worlds() {
    let base: u64 = 9000;
    let mut worlds = Vec::new();
    for offset in 0..3u64 {
        let mut random = RandomFloats::new(base + offset);
        let (world, _) = generate_recursive_voxel_octree(&mut random, 64, 2);
        let mut again = RandomFloats::new(base + offset);
        let (world2, _) = generate_recursive_voxel_octree(&mut again, 64, 2);
        assert_eq!(world.len(), world2.len());
        for (a, b) in world.iter().zip(world2.iter()) {
            assert_eq!(a.children, b.children);
            assert_eq!(a.flags, b.flags);
        }
        worlds.push(world);
    }
    // Different offsets should not reproduce the same flat array.
    let same_01 = worlds[0].len() == worlds[1].len()
        && worlds[0].iter().zip(worlds[1].iter()).all(|(a, b)| a.children == b.children);
    let same_12 = worlds[1].len() == worlds[2].len()
        && worlds[1].iter().zip(worlds[2].iter()).all(|(a, b)| a.children == b.children);
    assert!(!same_01);
    assert!(!same_12);
}

// End to end: the generator meets its targets and reports the array length.
#[test]
fn end_to_end_generation_targets() {
    let mut random = RandomFloats::new(7);
    let (world, stats) = generate_recursive_voxel_octree(&mut random, 256, 10);
    assert!(stats.voxel_count >= 256);
    assert!(stats.goal_count >= 10);
    assert_eq!(world.len(), stats.voxel_count as usize);
}

// Every child index of every record is null or in range.
#[test]
fn generated_world_is_closed() {
    let mut random = RandomFloats::new(11);
    let (world, _) = generate_recursive_voxel_octree(&mut random, 256, 10);
    for record in &world {
        assert_eq!(record.children.len(), 8);
        for &child in &record.children {
            assert!(child == NULL_VOXEL_INDEX || (child as usize) < world.len());
        }
    }
}

// The root record lands at flat index 0.
#[test]
fn root_is_at_index_zero() {
    let mut random = RandomFloats::new(3);
    let (world, _) = generate_recursive_voxel_octree(&mut random, 64, 2);
    assert_eq!(world[0].flags, FLAG_COMPLEX);
}

// A hand-built two-node graph compacts to the expected records.
#[test]
fn compact_two_node_graph() {
    let child = leaf(grey(7), VoxelType::Mirror, 1);
    let mut slots = vec![GraphRef::Ref(Box::new(child))];
    for _ in 0..7 {
        slots.push(GraphRef::Empty);
    }
    let root = Voxel { average_colour: grey(7), children: slots, vtype: VoxelType::Complex, id: 2 };
    let world = compact_octree_from_root(root, 2);
    assert_eq!(world.len(), 2);
    assert_eq!(world[0].flags, FLAG_COMPLEX);
    assert_eq!(world[0].children[0], 1);
    for octant in 1..8 {
        assert_eq!(world[0].children[octant], NULL_VOXEL_INDEX);
    }
    // The leaf's self-references resolve to its own index.
    assert_eq!(world[1].flags, FLAG_MIRROR);
    for octant in 0..8 {
        assert_eq!(world[1].children[octant], 1);
    }
}

// Back-references past the recorded ancestors fall back to the root index.
#[test]
fn deep_back_reference_falls_back_to_root() {
    let mut slots = vec![GraphRef::Recurse(5)];
    for _ in 0..7 {
        slots.push(GraphRef::Empty);
    }
    let root = Voxel { average_colour: grey(0), children: slots, vtype: VoxelType::Complex, id: 1 };
    let world = compact_octree_from_root(root, 1);
    assert_eq!(world.len(), 1);
    assert_eq!(world[0].children[0], 0);
}

// A flat array whose root points at itself cannot make the query spin:
// the depth bound turns it into a collision.
#[test]
fn cyclic_root_terminates_as_collision() {
    let cyclic = vec![VoxelCompact::new(grey(0), vec![0u32; 8], FLAG_COMPLEX)];
    let hit = octree_scale_and_collision_of_point(
        Position { x: UNIT / 2, y: UNIT / 2, z: UNIT / 2 },
        &cyclic,
    );
    assert!(matches!(hit, Intersection::Collision));
}

// Outside the root cube on any axis: empty space at scale 1.
#[test]
fn outside_positions_are_empty_at_scale_one() {
    let world = vec![VoxelCompact::new(grey(0), vec![NULL_VOXEL_INDEX; 8], FLAG_MIRROR)];
    let outside = [
        Position { x: UNIT + 1, y: 0, z: 0 },
        Position { x: -UNIT - 1, y: 0, z: 0 },
        Position { x: 0, y: UNIT + 1, z: 0 },
        Position { x: 0, y: 0, z: -UNIT - 1 },
    ];
    for p in outside {
        assert!(matches!(octree_scale_and_collision_of_point(p, &world), Intersection::Empty(0)));
    }
}

// A portal queried at its exact centre reports the depth derived from the
// scale reached: floor(max(log2(scale) - 1, 0)).
#[test]
fn portal_at_centre_reports_depth() {
    // Portal as the root: scale 1, depth 0.
    let portal_root = vec![VoxelCompact::new(grey(9), vec![NULL_VOXEL_INDEX; 8], FLAG_PORTAL)];
    let hit = octree_scale_and_collision_of_point(Position { x: 0, y: 0, z: 0 }, &portal_root);
    assert!(matches!(hit, Intersection::Portal(0)));

    // Portal two levels down (scale 4): depth 1.
    let mut root_children = vec![NULL_VOXEL_INDEX; 8];
    root_children[0] = 1;
    let mut mid_children = vec![NULL_VOXEL_INDEX; 8];
    mid_children[0] = 2;
    let world = vec![
        VoxelCompact::new(grey(0), root_children, FLAG_COMPLEX),
        VoxelCompact::new(grey(0), mid_children, FLAG_COMPLEX),
        VoxelCompact::new(grey(9), vec![NULL_VOXEL_INDEX; 8], FLAG_PORTAL),
    ];
    // Octant 0 is x <= 0, y > 0, z <= 0; descend into it twice and land on
    // the portal's centre.
    let p = Position { x: -3 * (UNIT / 4), y: 3 * (UNIT / 4), z: -3 * (UNIT / 4) };
    let hit = octree_scale_and_collision_of_point(p, &world);
    assert!(matches!(hit, Intersection::Portal(1)));
}

// A near miss of a small portal counts as empty space, not a hit.
#[test]
fn portal_near_miss_is_empty() {
    let portal_root = vec![VoxelCompact::new(grey(9), vec![NULL_VOXEL_INDEX; 8], FLAG_PORTAL)];
    let hit = octree_scale_and_collision_of_point(
        Position { x: UNIT, y: UNIT, z: UNIT },
        &portal_root,
    );
    assert!(matches!(hit, Intersection::Empty(0)));
}

// The synthetic two-record world: octant 0 collides, every other octant is
// empty one level down (scale doubled once).
#[test]
fn two_record_world_collides_only_in_octant_zero() {
    let mut root_children = vec![NULL_VOXEL_INDEX; 8];
    root_children[0] = 1;
    let world = vec![
        VoxelCompact::new(grey(0), root_children, FLAG_COMPLEX),
        VoxelCompact::new(grey(5), vec![NULL_VOXEL_INDEX; 8], FLAG_MIRROR),
    ];
    // Octant 0 (x <= 0, y > 0, z <= 0): the mirror leaf.
    let hit = octree_scale_and_collision_of_point(
        Position { x: -UNIT / 2, y: UNIT / 2, z: -UNIT / 2 },
        &world,
    );
    assert!(matches!(hit, Intersection::Collision));
    // Every other octant: empty at scale 2 (one doubling).
    let half = UNIT / 2;
    for octant in 1..8u32 {
        let p = Position {
            x: if octant & 1 != 0 { half } else { -half },
            y: if octant & 2 != 0 { -half } else { half },
            z: if octant & 4 != 0 { half } else { -half },
        };
        let hit = octree_scale_and_collision_of_point(p, &world);
        assert!(matches!(hit, Intersection::Empty(1)), "octant {octant}");
    }
}

// The seeded sample stream is deterministic and actually advances.
#[test]
fn sample_stream_is_deterministic() {
    let mut first = RandomFloats::new(1234);
    let mut second = RandomFloats::new(1234);
    let a = (first.samplef(), first.samplef(), first.samplef());
    let b = (second.samplef(), second.samplef(), second.samplef());
    assert_eq!(a, b);
    assert!(a.0 != a.1 || a.1 != a.2);
    let mut other = RandomFloats::new(4321);
    let c = (other.samplef(), other.samplef(), other.samplef());
    assert_ne!(a, c);
}

// Back-reference jumps never exceed the current depth.
#[test]
fn back_reference_jump_is_clamped() {
    let mut random = RandomFloats::new(77);
    for depth in 0..6u32 {
        for _ in 0..20 {
            let jump = voxel_flight_simulator::voxel_gen::random_recurse(&mut random, depth);
            assert!(jump <= depth);
        }
    }
    assert_eq!(voxel_flight_simulator::voxel_gen::random_recurse(&mut random, 0), 0);
}

// A time-seeded source still produces a usable world.
#[test]
fn default_source_generates() {
    let mut random = RandomFloats::default();
    let (world, stats) = generate_recursive_voxel_octree(&mut random, 16, 0);
    assert_eq!(world.len(), stats.voxel_count as usize);
    assert!(stats.voxel_count >= 16);
}
