use procgen::bounds::BoundingBox;
use procgen::ids::BlockId;
use procgen::index::Vec3;
use procgen::voxel::{Chunk, Positioned, Unpositioned, VoxelDecodeError, VoxelSlot, POSITION_KEY, STORAGE_KEY};
use procgen::voxel_volume::{Bounded, Unbounded, VoxelVolume};

#[test]
fn bounded_voxel_volume() {
    let bounds: BoundingBox = BoundingBox::from_range(Vec3::new(-560, 136, 209), Vec3::new(-619, 153, 169));
    let mut volume = VoxelVolume::<Bounded>::new(bounds);

    let min = bounds.min();
    let max = bounds.max();

    for x in min.x..max.x {
        for y in min.y..max.y {
            for z in min.z..max.z {
                let pos = Vec3::new(x, y, z);
                assert!(volume.set(pos, 1.into()));
            }
        }
    }
}

#[test]
fn bounded_voxel_volume_single_chunk() {
    let bounds: BoundingBox = BoundingBox::from_range(Vec3::new(-561, 66, 112), Vec3::new(-576, 79, 127));
    let mut volume = VoxelVolume::<Bounded>::new(bounds);

    let min = bounds.min();
    let max = bounds.max();

    for x in min.x..max.x {
        for y in min.y..max.y {
            for z in min.z..max.z {
                let pos = Vec3::new(x, y, z);
                assert!(volume.set(pos, 1.into()));
            }
        }
    }

    let chunks = volume.into_chunks();

    for chunk in chunks.iter() {
        println!("{:?}", chunk.pos());
    }

    assert_eq!(chunks.len(), 1);
}

/// The serialized form of an unpositioned chunk: its voxels in voxel-sequence order.
fn encode_unpositioned(c: &Chunk<Unpositioned>) -> Vec<u8> {
    let voxels: Vec<Option<u32>> = c.voxel_sequence().iter().map(|v| v.map(|b| b.0)).collect();
    bincode::serialize(&voxels).unwrap()
}

fn decode_unpositioned(bytes: &[u8]) -> Chunk<Unpositioned> {
    let voxels: Vec<Option<u32>> = bincode::deserialize(bytes).unwrap();
    let voxels: Vec<Option<BlockId>> = voxels.into_iter().map(|v| v.map(BlockId)).collect();
    Chunk::<Unpositioned>::from_voxel_sequence(&voxels).unwrap()
}

#[test]
fn parity_unpositioned() {
    let mut cs = Chunk::<Unpositioned>::new();
    assert!(cs.set(Vec3::new(5, 5, 5), 202.into()));

    let bincode_cs = encode_unpositioned(&cs);
    let deser_cs = decode_unpositioned(&bincode_cs);

    assert_eq!(deser_cs, cs);
}

type PositionedEncoding = ((u8, (i64, i64, i64)), (u8, Vec<Option<u32>>));

#[test]
fn parity_positioned() {
    let mut cs = Chunk::<Positioned>::new(Vec3::new(10, 11, 12));
    assert!(cs.set(Vec3::new(165, 181, 197), 202.into()));

    let p = cs.pos();
    let voxels: Vec<Option<u32>> = cs.voxel_sequence().iter().map(|v| v.map(|b| b.0)).collect();
    let encoded: PositionedEncoding = ((POSITION_KEY, (p.x, p.y, p.z)), (STORAGE_KEY, voxels));
    let bincode_cs = bincode::serialize(&encoded).unwrap();

    let ((pk, (x, y, z)), (sk, voxels)): PositionedEncoding = bincode::deserialize(&bincode_cs).unwrap();
    let voxels: Vec<Option<BlockId>> = voxels.into_iter().map(|v| v.map(BlockId)).collect();
    let storage = Chunk::<Unpositioned>::from_voxel_sequence(&voxels).unwrap();
    let deser_cs = Chunk::<Positioned>::from_entries(Some((pk, Vec3::new(x, y, z))), Some((sk, storage))).unwrap();

    assert_eq!(deser_cs, cs);
}

#[test]
fn positioned_chunk_locates_worldspace() {
    let mut c = Chunk::<Positioned>::new(Vec3::new(-1, 0, 2));
    assert!(c.set(Vec3::new(-16, 0, 32), BlockId(3)));
    assert!(!c.set(Vec3::new(0, 0, 32), BlockId(3)));
    assert_eq!(c.get(Vec3::new(-16, 0, 32)), VoxelSlot::Occupied(BlockId(3)));
    assert_eq!(c.get(Vec3::new(-15, 0, 32)), VoxelSlot::Empty);
    assert_eq!(c.get(Vec3::new(-17, 0, 32)), VoxelSlot::OutOfBounds);
    let bb = c.bounding_box();
    assert_eq!(bb.min(), Vec3::new(-16, 0, 32));
    assert_eq!(bb.max(), Vec3::new(0, 16, 48));
    assert_eq!(Option::<BlockId>::from(VoxelSlot::Occupied(BlockId(9))), Some(BlockId(9)));
    assert_eq!(Option::<BlockId>::from(VoxelSlot::Empty), None);
}

#[test]
fn voxel_decode_errors() {
    let short: Vec<Option<BlockId>> = vec![None; 4095];
    assert_eq!(
        Chunk::<Unpositioned>::from_voxel_sequence(&short).err(),
        Some(VoxelDecodeError::VoxelsTerminatedPrematurely)
    );
    let long: Vec<Option<BlockId>> = vec![None; 4097];
    assert_eq!(
        Chunk::<Unpositioned>::from_voxel_sequence(&long).err(),
        Some(VoxelDecodeError::SequenceTooLong)
    );
    let ok: Vec<Option<BlockId>> = vec![None; 4096];
    let s = Chunk::<Unpositioned>::from_voxel_sequence(&ok).unwrap();
    assert_eq!(
        Chunk::<Positioned>::from_entries(Some((1, Vec3::new(0, 0, 0))), None).err(),
        Some(VoxelDecodeError::PositionKeyMismatch)
    );
    assert_eq!(
        Chunk::<Positioned>::from_entries(None, Some((1, s))).err(),
        Some(VoxelDecodeError::MalformedPositionedChunk)
    );
    let s = Chunk::<Unpositioned>::from_voxel_sequence(&ok).unwrap();
    assert_eq!(
        Chunk::<Positioned>::from_entries(Some((0, Vec3::new(0, 0, 0))), Some((0, s))).err(),
        Some(VoxelDecodeError::StorageKeyMismatch)
    );
}

#[test]
fn unbounded_read_after_write() {
    let mut v = VoxelVolume::<Unbounded>::new();
    assert!(v.set(Vec3::new(-1, -17, 33), BlockId(4)));
    assert!(v.set(Vec3::new(15, 0, 0), BlockId(5)));
    assert_eq!(v.get(Vec3::new(-1, -17, 33)), Some(BlockId(4)));
    assert_eq!(v.get(Vec3::new(15, 0, 0)), Some(BlockId(5)));
    assert_eq!(v.get(Vec3::new(-1, -17, 34)), None);
    assert_eq!(v.get(Vec3::new(16, 0, 0)), None);
    let bb = v.bounding_box();
    assert_eq!(bb.min(), Vec3::new(i64::MIN, i64::MIN, i64::MIN));
    assert_eq!(bb.max(), Vec3::new(i64::MAX, i64::MAX, i64::MAX));
    let chunks = v.into_chunks();
    assert_eq!(chunks.len(), 2);
    let mut positions: Vec<(i64, i64, i64)> = chunks.iter().map(|c| (c.pos().x, c.pos().y, c.pos().z)).collect();
    positions.sort();
    assert_eq!(positions, vec![(-1, -2, 2), (0, 0, 0)]);
    let c = chunks.iter().find(|c| c.pos() == Vec3::new(-1, -2, 2)).unwrap();
    assert_eq!(c.get(Vec3::new(-1, -17, 33)), VoxelSlot::Occupied(BlockId(4)));
}

#[test]
fn bounded_get_and_set_respect_bounds() {
    let mut v = VoxelVolume::<Bounded>::new(BoundingBox::new(Vec3::new(0, 0, 0), Vec3::new(3, 3, 3)));
    assert!(v.set(Vec3::new(3, 3, 3), BlockId(1)));
    assert!(!v.set(Vec3::new(4, 3, 3), BlockId(1)));
    assert!(!v.set(Vec3::new(-1, 0, 0), BlockId(1)));
    assert_eq!(v.get(Vec3::new(3, 3, 3)), VoxelSlot::Occupied(BlockId(1)));
    assert_eq!(v.get(Vec3::new(2, 3, 3)), VoxelSlot::Empty);
    assert_eq!(v.get(Vec3::new(4, 3, 3)), VoxelSlot::OutOfBounds);
    let bb = v.bounding_box();
    assert_eq!(bb.min(), Vec3::new(0, 0, 0));
    assert_eq!(bb.max(), Vec3::new(4, 4, 4));
}

#[test]
fn add_chunk_replaces_chunk() {
    let mut v = VoxelVolume::<Unbounded>::default();
    let mut c = Chunk::<Positioned>::new(Vec3::new(1, 1, 1));
    assert!(c.set(Vec3::new(16, 16, 16), BlockId(8)));
    v.add_chunk(c);
    assert_eq!(v.get(Vec3::new(16, 16, 16)), Some(BlockId(8)));
    v.add_chunk(Chunk::<Positioned>::new(Vec3::new(1, 1, 1)));
    assert_eq!(v.get(Vec3::new(16, 16, 16)), None);
}

#[test]
fn positioned_chunk_is_addressed_in_worldspace() {
    let mut cs = Chunk::<Positioned>::new(Vec3::new(10, 11, 12));
    assert!(!cs.set(Vec3::new(5, 5, 5), BlockId(202)));
    assert_eq!(cs.get(Vec3::new(5, 5, 5)), VoxelSlot::OutOfBounds);
    assert!(cs.set(Vec3::new(165, 181, 197), BlockId(202)));
    assert_eq!(cs.get(Vec3::new(165, 181, 197)), VoxelSlot::Occupied(BlockId(202)));
}
