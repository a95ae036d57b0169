use procgen::chunk::{chunk_sections_for_height, Chunk, ChunkAccessError, ChunkDecodeError, Spaces};
use procgen::ids::BlockId;
use procgen::index::{Vec2, Vec3};
use procgen::section::{ChunkSection, CHUNK_SIZE};

fn chunk_indexing_case() {
    let default_id: BlockId = BlockId::new(10);

    let mut chunk = Chunk::new(default_id, Vec2::new(2, 2), -64, 320);
    let offset = [2 * CHUNK_SIZE, 0, 2 * CHUNK_SIZE];
    let ws = [3i32 + offset[0], 3 + offset[1], 8 + offset[2]];

    assert_eq!(chunk.get(Spaces::Ws([3i32, 3, 8])), None);
    assert_eq!(chunk.get(Spaces::Ws(ws)), Some(&default_id));

    assert_eq!(chunk.get(Spaces::Ls([u64::MAX, 0, 0])), None);
    assert_eq!(chunk.get(Spaces::Ls([-100i32, 50, -10])), None);

    assert_eq!(chunk.swap(Spaces::Ws(ws), BlockId::new(42)), Some(default_id));
    assert_eq!(chunk.get(Spaces::Ws(ws)), Some(&BlockId::new(42)));

    assert_eq!(chunk.get(Spaces::Cs([3i32, 3, 8])), Some(&BlockId::new(42)));
}

#[test]
fn tests_chunk_indexing() {
    chunk_indexing_case();
}

#[test]
fn basic_chunk_indexing() {
    chunk_indexing_case();
}

type Encoded = ((i32, i32), i32, i32, Vec<(u32, bool, Vec<u32>)>);

fn encode(chunk: &Chunk) -> Vec<u8> {
    let mut sections = Vec::new();
    for i in 0..chunk.section_count() {
        let s = chunk.section(i);
        let blocks: Vec<u32> = s.voxel_sequence().iter().map(|b| b.0).collect();
        sections.push((s.default_id().0, s.is_initialized(), blocks));
    }
    let pos = chunk.position();
    let encoded: Encoded = ((pos.x, pos.z), chunk.min_height(), chunk.max_height(), sections);
    bincode::serialize(&encoded).unwrap()
}

fn decode(bytes: &[u8]) -> Chunk {
    let ((x, z), min, max, sections): Encoded = bincode::deserialize(bytes).unwrap();
    let sections: Vec<ChunkSection> = sections
        .into_iter()
        .map(|(d, init, blocks)| {
            let blocks: Vec<BlockId> = blocks.into_iter().map(BlockId).collect();
            ChunkSection::from_sequence(Some(BlockId(d)), Some(init), &blocks).unwrap()
        })
        .collect();
    Chunk::from_sequence(Some(Vec2::new(x, z)), Some(min), Some(max), sections).unwrap()
}

#[test]
fn chunk_bincode_mirror() {
    let mut chunk = Chunk::new(BlockId::new(10), Vec2::new(4, 4), -64, 320);

    chunk.set(Spaces::Cs([8i32, 0, 8]), BlockId::new(42));
    chunk.set(Spaces::Cs([5i32, -43, 9]), BlockId::new(12));

    let chunk_copy: Chunk = decode(&encode(&chunk));

    assert_eq!(chunk_copy.default_id(), chunk.default_id());
    assert_eq!(chunk_copy.bounding_box(), chunk.bounding_box());

    let min = chunk.bounding_box().min();
    let max = chunk.bounding_box().max();

    for z in min.z..max.z {
        for y in min.y..max.y {
            for x in min.x..max.x {
                let idx = [x, y, z];

                assert_eq!(chunk_copy.get(Spaces::Ls(idx)), chunk.get(Spaces::Ls(idx)));
            }
        }
    }
}

#[test]
fn sections_for_height() {
    assert_eq!(chunk_sections_for_height(0), 0);
    assert_eq!(chunk_sections_for_height(1), 1);
    assert_eq!(chunk_sections_for_height(16), 1);
    assert_eq!(chunk_sections_for_height(17), 2);
    assert_eq!(chunk_sections_for_height(384), 24);
}

#[test]
fn chunk_new_orders_heights() {
    let chunk = Chunk::new(BlockId(1), Vec2::new(-3, 5), 320, -64);
    assert_eq!(chunk.min_height(), -64);
    assert_eq!(chunk.max_height(), 320);
    assert_eq!(chunk.section_count(), 24);
    let bb = chunk.bounding_box();
    assert_eq!(bb.min(), Vec3::new(-48, -64, 80));
    assert_eq!(bb.max(), Vec3::new(-32, 320, 96));
}

#[test]
fn checked_access_errors() {
    let mut chunk = Chunk::new(BlockId(10), Vec2::new(0, 0), 0, 32);
    assert_eq!(chunk.try_get([0i32, 0, 0]).err(), Some(ChunkAccessError::UninitializedSection));
    assert_eq!(chunk.try_get([16i32, 0, 0]).err(), Some(ChunkAccessError::IndexVectorOutOfBounds));
    assert_eq!(chunk.try_get([0i32, 32, 0]).err(), Some(ChunkAccessError::IndexVectorOutOfBounds));
    assert_eq!(chunk.init_section(5).err(), Some(ChunkAccessError::SectionIndexOutOfBounds));
    let section = chunk.init_section(1).unwrap();
    assert!(section.is_initialized());
    assert_eq!(section.get([3usize, 4, 3]), Some(&BlockId(10)));
    section.set([3usize, 4, 3], BlockId(6));
    assert_eq!(chunk.try_get([3i32, 20, 3]), Ok(&BlockId(6)));
    chunk.try_set([3i32, 20, 3], BlockId(10)).unwrap();
    assert_eq!(chunk.init_section(1).err(), Some(ChunkAccessError::SectionAlreadyInitialized));
    assert_eq!(chunk.try_get([3i32, 20, 3]), Ok(&BlockId(10)));
    assert_eq!(chunk.set_manual([3i32, 5, 3], BlockId(2)).err(), Some(ChunkAccessError::UninitializedSection));
    assert_eq!(chunk.try_set([3i32, 5, 3], BlockId(2)), Ok(BlockId(10)));
    assert_eq!(chunk.try_get([3i32, 5, 3]), Ok(&BlockId(2)));
    assert_eq!(chunk.set_manual([3i32, 5, 3], BlockId(4)), Ok(BlockId(2)));
    assert_eq!(chunk.try_set([3i32, 40, 3], BlockId(2)).err(), Some(ChunkAccessError::IndexVectorOutOfBounds));
}

#[test]
fn chunk_decode_errors() {
    let sections = vec![ChunkSection::new_uninitialized(BlockId(1))];
    assert_eq!(
        Chunk::from_sequence(None, Some(0), Some(16), sections).err(),
        Some(ChunkDecodeError::MissingPosition)
    );
    let sections = vec![ChunkSection::new_uninitialized(BlockId(1))];
    assert_eq!(
        Chunk::from_sequence(Some(Vec2::new(0, 0)), None, Some(16), sections).err(),
        Some(ChunkDecodeError::MissingMinHeight)
    );
    let sections = vec![ChunkSection::new_uninitialized(BlockId(1))];
    assert_eq!(
        Chunk::from_sequence(Some(Vec2::new(0, 0)), Some(0), None, sections).err(),
        Some(ChunkDecodeError::MissingMaxHeight)
    );
    let sections = vec![ChunkSection::new_uninitialized(BlockId(1))];
    assert_eq!(
        Chunk::from_sequence(Some(Vec2::new(0, 0)), Some(0), Some(32), sections).err(),
        Some(ChunkDecodeError::MissingSections)
    );
    let sections = vec![
        ChunkSection::new_uninitialized(BlockId(1)),
        ChunkSection::new_uninitialized(BlockId(1)),
    ];
    assert_eq!(
        Chunk::from_sequence(Some(Vec2::new(0, 0)), Some(0), Some(16), sections).err(),
        Some(ChunkDecodeError::SequenceTooLong)
    );
}

#[test]
fn chunk_contains_spaces() {
    let chunk = Chunk::new(BlockId(1), Vec2::new(1, 0), 0, 16);
    assert!(chunk.contains(Spaces::Ls([0i32, 0, 0])));
    assert!(!chunk.contains(Spaces::Ls([0i32, 16, 0])));
    assert!(chunk.contains(Spaces::Ws([16i32, 0, 0])));
    assert!(chunk.contains(Spaces::Ws([31i32, 15, 15])));
    assert!(!chunk.contains(Spaces::Ws([32i32, 0, 0])));
    assert!(!chunk.contains(Spaces::Ws([0i32, 0, 0])));
}

#[test]
fn contains_agrees_with_get() {
    let chunk = Chunk::new(BlockId::new(10), Vec2::new(2, 2), -64, 320);
    for idx in [[3i32, 3, 8], [35, 3, 40], [35, -70, 40], [16, 3, 8], [3, 383, 8], [3, 384, 8]] {
        assert_eq!(chunk.contains(Spaces::Ws(idx)), chunk.get(Spaces::Ws(idx)).is_some());
        assert_eq!(chunk.contains(Spaces::Cs(idx)), chunk.get(Spaces::Cs(idx)).is_some());
        assert_eq!(chunk.contains(Spaces::Ls(idx)), chunk.get(Spaces::Ls(idx)).is_some());
    }
    assert!(chunk.contains(Spaces::Ws([35i32, 3, 40])));
    assert!(chunk.contains(Spaces::Cs([3i32, 3, 8])));
}

#[test]
fn contains_and_get_differ_above_a_partial_top_section() {
    // Heights 0..20 take two sections; world heights 20..32 lie in the second one.
    let chunk = Chunk::new(BlockId::new(10), Vec2::new(2, 2), 0, 20);
    assert!(!chunk.contains(Spaces::Ws([35i32, 25, 40])));
    assert_eq!(chunk.get(Spaces::Ws([35i32, 25, 40])), Some(&BlockId::new(10)));
    assert!(chunk.contains(Spaces::Ws([35i32, 19, 40])));
    assert!(!chunk.contains(Spaces::Ws([35i32, 32, 40])));
    assert_eq!(chunk.get(Spaces::Ws([35i32, 32, 40])), None);
}

#[test]
fn try_set_on_chunk_without_sections() {
    let mut chunk = Chunk::new(BlockId(1), Vec2::new(0, 0), 5, 5);
    assert_eq!(chunk.section_count(), 0);
    assert_eq!(chunk.try_set([0i32, 0, 0], BlockId(2)).err(), Some(ChunkAccessError::IndexVectorOutOfBounds));
}
