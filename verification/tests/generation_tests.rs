use procgen::chunk::Spaces;
use procgen::generation::{
    prepare_chunk, range_contains_range_inclusive, ChunkPreparationError, FactoryRegistry,
    GenerationError, GeneratorArgs, GeneratorExists, GeneratorManager, Parameters, VerticalBound,
};
use procgen::ids::BlockId;
use procgen::index::{Vec2, Vec3};
use procgen::bounds::BoundingBox;
use procgen::demo::demo_generate;
use procgen::generation::ManagerSubmitError;
use procgen::ids::GeneratorId;
use procgen::generation::HasGeneratorId;
use procgen::voxel::VoxelSlot;
use procgen::voxel_volume::{Bounded, VoxelVolume};

#[test]
fn test_range_contains_range_inclusive() {
    assert!(range_contains_range_inclusive(&(-5..5), &(-5..4)));
    assert!(!range_contains_range_inclusive(&(-5..4), &(-5..5)));
    assert!(range_contains_range_inclusive(&(-5..5), &(-5..5)));
    assert!(range_contains_range_inclusive(&(-5..5), &(-4..5)));
    assert!(!range_contains_range_inclusive(&(-5..5), &(-6..5)));
    assert!(!range_contains_range_inclusive(&(-4..4), &(-5..4)));
}

#[test]
fn range_ends_in_either_order() {
    assert!(range_contains_range_inclusive(&(5..-5), &(-4..4)));
    assert!(range_contains_range_inclusive(&(-5..5), &(4..-4)));
}

#[test]
fn generator_args_bounds() {
    let args = GeneratorArgs::new(Vec2::new(1, 2), VerticalBound::Included(-64), VerticalBound::Included(319));
    assert_eq!(args.bounds(), -64..320);
    assert_eq!(args.min_y(), -64);
    assert_eq!(args.max_y(), 320);
    assert_eq!(args.pos(), Vec2::new(1, 2));
    let args = GeneratorArgs::new(Vec2::new(0, 0), VerticalBound::Excluded(-1), VerticalBound::Excluded(16));
    assert_eq!(args.bounds(), 0..16);
}

#[test]
fn prepare_chunk_checks_heights() {
    let args = GeneratorArgs::new(Vec2::new(3, -2), VerticalBound::Included(0), VerticalBound::Excluded(64));
    assert_eq!(
        prepare_chunk(&(0..32), BlockId(1), &args).err(),
        Some(ChunkPreparationError::UnsupportedHeight)
    );
    let chunk = prepare_chunk(&(-64..320), BlockId(7), &args).unwrap();
    assert_eq!(chunk.position(), Vec2::new(3, -2));
    assert_eq!(chunk.min_height(), 0);
    assert_eq!(chunk.max_height(), 64);
    assert_eq!(chunk.section_count(), 4);
    assert_eq!(chunk.get(Spaces::Cs([0i32, 10, 0])), Some(&BlockId(7)));
    let far = GeneratorArgs::new(Vec2::new(i32::MAX, 0), VerticalBound::Included(0), VerticalBound::Excluded(16));
    assert_eq!(
        prepare_chunk(&(0..16), BlockId(1), &far).err(),
        Some(ChunkPreparationError::ChunkInitFailed)
    );
}

#[test]
fn generator_ids_are_unique() {
    let mut manager: GeneratorManager<&'static str> = GeneratorManager::new();
    assert_eq!(manager.add_generator(7, "first"), Ok(()));
    assert_eq!(manager.add_generator(7, "second"), Err(GeneratorExists(7)));
    assert_eq!(manager.generator(7), Some(&"first"));
    assert_eq!(manager.generator(8), None);
    let id = loop {
        if let Some(id) = manager.try_random_id() {
            break id;
        }
    };
    assert_ne!(id, 7);
    assert_eq!(manager.add_generator(id, "third"), Ok(()));
}

#[test]
fn factory_registry_lookup() {
    let mut registry: FactoryRegistry<u32> = FactoryRegistry::new();
    registry.insert("caves".to_string(), 1);
    registry.insert("hills".to_string(), 2);
    registry.insert("caves".to_string(), 3);
    assert_eq!(registry.get("caves"), Some(&3));
    assert_eq!(registry.get("hills"), Some(&2));
    assert_eq!(registry.get("cave"), None);
    let params = Parameters { generator_name: "hills".to_string() };
    assert_eq!(params.generator_name(), "hills");
    assert_eq!(registry.find(&params), Ok(&2));
    let missing = Parameters { generator_name: "lakes".to_string() };
    assert_eq!(
        registry.find(&missing),
        Err(GenerationError::GeneratorNotFound("lakes".to_string()))
    );
}

#[test]
fn submit_chunk_names_unknown_generator() {
    let mut manager: GeneratorManager<u8> = GeneratorManager::new();
    assert_eq!(manager.add_generator(3, 30), Ok(()));
    assert_eq!(manager.submit_chunk(GeneratorId(3)), Ok(&30));
    assert_eq!(manager.submit_chunk(GeneratorId(4)), Err(ManagerSubmitError(GeneratorId(4))));
}

#[test]
fn demo_generator_paves_the_floor() {
    let mut vol = VoxelVolume::<Bounded>::new(BoundingBox::new(Vec3::new(-2, 5, -2), Vec3::new(17, 9, 3)));
    demo_generate(&mut vol);
    assert_eq!(vol.get(Vec3::new(-2, 5, -2)), VoxelSlot::Occupied(BlockId(100)));
    assert_eq!(vol.get(Vec3::new(17, 5, 3)), VoxelSlot::Occupied(BlockId(100)));
    assert_eq!(vol.get(Vec3::new(17, 6, 3)), VoxelSlot::Empty);
    assert_eq!(vol.get(Vec3::new(18, 5, 3)), VoxelSlot::OutOfBounds);
    assert_eq!(vol.into_chunks().len(), 6);
}

#[test]
fn free_id_checks_taken_ids() {
    let mut manager: GeneratorManager<u8> = GeneratorManager::new();
    assert_eq!(manager.free_id(5), Some(5));
    assert_eq!(manager.add_generator(5, 1), Ok(()));
    assert_eq!(manager.free_id(5), None);
    assert_eq!(manager.free_id(6), Some(6));
    let fresh: GeneratorManager<u8> = GeneratorManager::new();
    assert!(fresh.try_random_id().is_some());
}

struct FixedGenerator(u8);

impl HasGeneratorId for FixedGenerator {
    const GENERATOR_ID: GeneratorId = GeneratorId(77);
}

#[test]
fn identified_generators_register_under_their_own_id() {
    let mut manager: GeneratorManager<FixedGenerator> = GeneratorManager::new();
    assert!(manager.add_identified(FixedGenerator(1)).is_ok());
    assert_eq!(manager.generator(77).map(|g| g.0), Some(1));
    assert_eq!(manager.add_identified(FixedGenerator(2)).err(), Some(GeneratorExists(77)));
    assert_eq!(manager.generator(77).map(|g| g.0), Some(1));
}
