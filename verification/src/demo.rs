//! The demonstration region generator that the server ships with.
use vstd::prelude::*;

use crate::ids::BlockId;
use crate::index::Vec3;
use crate::voxel_volume::{Bounded, VoxelVolume};

verus! {

/// The block the demonstration generator lays down.
pub const DEMO_BLOCK: u32 = 100;

/// Whether `p` lies on the floor of the region of `vol`: in the region, at its lowest height.
pub open spec fn on_floor(vol: &VoxelVolume<Bounded>, p: Vec3) -> bool {
    vol.in_region(p) && p.y == vol.region().lo().y
}

/// Lays the demonstration block on the whole floor of the volume's region (its lowest layer),
/// leaving every other voxel as it was.
pub fn demo_generate(vol: &mut VoxelVolume<Bounded>)
    requires
        old(vol).wf(),
        old(vol).bounds_fit(),
    ensures
        final(vol).wf(),
        final(vol).region() == old(vol).region(),
        forall|p: Vec3| #[trigger]
            final(vol).voxel(p) == if on_floor(old(vol), p) {
                Some(BlockId(DEMO_BLOCK))
            } else {
                old(vol).voxel(p)
            },
{
    let bb = vol.bounding_box();
    let min = bb.min();
    let max = bb.max();
    let ghost region = vol.region();
    let ghost start = *vol;
    let mut x = min.x;
    while x < max.x
        invariant
            vol.wf(),
            vol.bounds_fit(),
            vol.region() == region,
            region == start.region(),
            region.lo().y <= region.hi().y,
            region.lo().z <= region.hi().z,
            min == region.lo(),
            max.x == region.hi().x + 1,
            max.z == region.hi().z + 1,
            min.x <= x <= max.x,
            forall|p: Vec3| #[trigger]
                vol.voxel(p) == if on_floor(&start, p) && p.x < x {
                    Some(BlockId(DEMO_BLOCK))
                } else {
                    start.voxel(p)
                },
        decreases max.x - x,
    {
        let mut z = min.z;
        while z < max.z
            invariant
                vol.wf(),
                vol.bounds_fit(),
                vol.region() == region,
                region == start.region(),
                region.lo().y <= region.hi().y,
                region.lo().z <= region.hi().z,
                min == region.lo(),
                max.x == region.hi().x + 1,
                max.z == region.hi().z + 1,
                min.x <= x < max.x,
                min.z <= z <= max.z,
                forall|p: Vec3| #[trigger]
                    vol.voxel(p) == if on_floor(&start, p) && (p.x < x || (p.x == x && p.z < z)) {
                        Some(BlockId(DEMO_BLOCK))
                    } else {
                        start.voxel(p)
                    },
            decreases max.z - z,
        {
            let p = Vec3 { x, y: min.y, z };
            let ghost before = *vol;
            let _ = vol.set(p, BlockId(DEMO_BLOCK));
            proof {
                assert(before.in_region(p));
            }
            z = z + 1;
        }
        x = x + 1;
    }
}

} // verus!
