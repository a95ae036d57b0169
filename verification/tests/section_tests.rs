use procgen::ids::BlockId;
use procgen::section::{ChunkSection, SectionDecodeError};

fn section_indexing_case() {
    let default_id: BlockId = BlockId::new(5);

    let mut section = ChunkSection::new_uninitialized(default_id);

    assert_eq!(section.get([7i32, 7, 7]), Some(&default_id));
    assert_eq!(section.get([0i32, 0, 0]), Some(&default_id));
    assert_eq!(section.get([16i32, 16, 16]), None);
    assert_eq!(section.get([-1i32, -1, -1]), None);

    assert_eq!(section.swap([7i32, 7, 7], BlockId::new(42)), Some(default_id));
    assert_eq!(section.get([7i32, 7, 7]), Some(&BlockId::new(42)));
}

fn section_bounds_case() {
    let default_id: BlockId = BlockId::new(5);

    let section = ChunkSection::new_uninitialized(default_id);

    assert!(section.contains([0i32, 0, 0]));
    assert!(section.contains([15i32, 15, 15]));

    assert!(!section.contains([-1i32, -1, -1]));
    assert!(!section.contains([16i32, 16, 16]));
}

#[test]
fn tests_chunk_section_indexing() {
    section_indexing_case();
}

#[test]
fn section_chunk_section_indexing() {
    section_indexing_case();
}

#[test]
fn tests_chunk_section_bounds() {
    section_bounds_case();
}

#[test]
fn section_chunk_section_bounds() {
    section_bounds_case();
}

/// The serialized form of a section: default block ID, initialization status, then the
/// blocks of an initialized section.
fn encode(cs: &ChunkSection) -> Vec<u8> {
    let blocks: Vec<u32> = cs.voxel_sequence().iter().map(|b| b.0).collect();
    bincode::serialize(&(cs.default_id().0, cs.is_initialized(), blocks)).unwrap()
}

fn decode(bytes: &[u8]) -> ChunkSection {
    let (default, initialized, blocks): (u32, bool, Vec<u32>) = bincode::deserialize(bytes).unwrap();
    let blocks: Vec<BlockId> = blocks.into_iter().map(BlockId).collect();
    ChunkSection::from_sequence(Some(BlockId(default)), Some(initialized), &blocks).unwrap()
}

#[test]
fn init_chunk_section_bincode_mirror() {
    let mut cs = ChunkSection::new_initialized(BlockId::new(50));
    cs.set([8i32, 8, 8], BlockId::new(12));
    cs.set([10i32, 4, 7], BlockId::new(61));

    let cs_copy: ChunkSection = decode(&encode(&cs));

    assert_eq!(cs_copy.is_initialized(), cs.is_initialized());
    assert_eq!(cs_copy.default_id(), cs.default_id());

    for z in 0..16i32 {
        for y in 0..16i32 {
            for x in 0..16i32 {
                let idx = [x, y, z];

                assert_eq!(cs.get(idx), cs_copy.get(idx));
            }
        }
    }
}

#[test]
fn uninit_chunk_section_bincode_mirror() {
    let cs = ChunkSection::new_uninitialized(BlockId::new(50));

    let cs_copy: ChunkSection = decode(&encode(&cs));

    assert_eq!(cs_copy.is_initialized(), cs.is_initialized());
    assert_eq!(cs_copy.default_id(), cs.default_id());
}

#[test]
fn section_sequence_lengths() {
    let cs = ChunkSection::new_uninitialized(BlockId::new(3));
    assert!(cs.voxel_sequence().is_empty());
    let cs = ChunkSection::new_initialized(BlockId::new(3));
    assert_eq!(cs.voxel_sequence().len(), 4096);
    assert_eq!(cs.voxel_sequence()[0], BlockId::new(3));
}

#[test]
fn section_decode_errors() {
    let short: Vec<BlockId> = vec![BlockId(1); 4095];
    let long: Vec<BlockId> = vec![BlockId(1); 4097];
    assert_eq!(
        ChunkSection::from_sequence(None, Some(true), &short).err(),
        Some(SectionDecodeError::MissingDefaultId)
    );
    assert_eq!(
        ChunkSection::from_sequence(Some(BlockId(1)), None, &short).err(),
        Some(SectionDecodeError::MissingInitialization)
    );
    assert_eq!(
        ChunkSection::from_sequence(Some(BlockId(1)), Some(true), &short).err(),
        Some(SectionDecodeError::VoxelsTerminatedPrematurely)
    );
    assert_eq!(
        ChunkSection::from_sequence(Some(BlockId(1)), Some(true), &long).err(),
        Some(SectionDecodeError::SequenceTooLong)
    );
    let uninit = ChunkSection::from_sequence(Some(BlockId(7)), Some(false), &long).unwrap();
    assert!(!uninit.is_initialized());
    assert_eq!(uninit.get([1usize, 2, 3]), Some(&BlockId(7)));
}

#[test]
fn section_equality_ignores_initialization() {
    let a = ChunkSection::new_uninitialized(BlockId(9));
    let b = ChunkSection::new_initialized(BlockId(9));
    assert!(a == b);
    let mut c = ChunkSection::new_initialized(BlockId(9));
    c.set([0usize, 0, 0], BlockId(1));
    assert!(a != c);
}
