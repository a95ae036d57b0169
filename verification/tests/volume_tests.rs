use procgen::volume::{stitch, Axis, StitchError, Volume, VolumeIdxIterator};

fn default_constructor_case() {
    let volume: Volume<i32, 32, 32, 32> = Default::default();

    assert_eq!(*volume.at([3, 6, 10]), i32::default())
}

fn filled_constructor_case() {
    let volume: Volume<i32, 32, 32, 32> = Volume::new_filled(42);

    for x in 0..32usize {
        for y in 0..32usize {
            for z in 0..32usize {
                assert_eq!(*volume.at([x, y, z]), 42)
            }
        }
    }
}

fn indexing_case() {
    let volume: Volume<i32, 32, 32, 32> = Volume::new_filled(42);
    let idx = [10usize, 5, 22];

    assert_eq!(*volume.at(idx), 42);
}

fn mutable_indexing_case() {
    let mut volume: Volume<i32, 32, 32, 32> = Volume::new_filled(42);
    let idx = [10usize, 5, 22];

    assert_eq!(*volume.at(idx), 42);

    volume.set(idx, 100);

    assert_eq!(*volume.at(idx), 100);
}

fn iterating_case() {
    let volume: Volume<i32, 32, 32, 32> = Volume::new_filled(42);

    let mut iter = volume.iter();
    while let Some(element) = iter.next() {
        assert_eq!(element, &42);
    }
}

fn iterating_indices_case() {
    let mut volume: Volume<i32, 32, 32, 32> = Volume::new_filled(42);

    let mut iter = volume.iter();
    while let Some(element) = iter.next() {
        assert_eq!(element, &42);
    }

    let mut indices = volume.iter_indices();
    while let Some(idx) = indices.next() {
        let v = *volume.at(idx);
        volume.set(idx, v + 1);
    }

    let mut iter = volume.iter();
    while let Some(element) = iter.next() {
        assert_eq!(element, &43);
    }
}

fn iterator_size_hint_case() {
    let volume: Volume<i32, 10, 54, 3> = Default::default();

    let mut iterator = volume.iter();
    let (lower, upper) = iterator.size_hint();

    let mut count: usize = 0;
    while iterator.next().is_some() {
        count += 1;
    }

    assert_eq!(count, lower);
    assert_eq!(Some(count), upper);
}

fn idx_iterator_size_hint_case() {
    let volume: Volume<i32, 10, 54, 3> = Default::default();

    let mut iterator = volume.iter_indices();
    let (lower, upper) = iterator.size_hint();

    let mut count: usize = 0;
    while iterator.next().is_some() {
        count += 1;
    }

    assert_eq!(count, lower);
    assert_eq!(Some(count), upper);
}

fn stitching_case() {
    let mut vol1: Volume<i32, 16, 10, 16> = Default::default();
    let mut vol2: Volume<i32, 16, 24, 16> = Default::default();

    let vol1_anomaly = [6usize, 6, 6];
    let vol2_anomaly = [9usize, 21, 10];

    vol1.set(vol1_anomaly, 42);
    vol2.set(vol2_anomaly, 64);

    let stitched_volume: Volume<i32, 16, 34, 16> = stitch(&vol1, &vol2, Axis::Y).unwrap();

    assert_eq!(*stitched_volume.at(vol1_anomaly), 42);
    assert_eq!(
        *stitched_volume.at([vol2_anomaly[0], 10 + vol2_anomaly[1], vol2_anomaly[2]]),
        64
    );
}

fn fallible_indexing_case() {
    let volume: Volume<i32, 10, 10, 10> = Default::default();

    let valid_idx = [7i32, 7, 7];
    let invalid_idx = [16i32, 7, 7];

    assert_eq!(volume.get(valid_idx), Some(&i32::default()));
    assert_eq!(volume.get(invalid_idx), None);
}

fn mutable_fallible_indexing_case() {
    let mut volume: Volume<i32, 10, 10, 10> = Default::default();

    let valid_idx = [7i32, 7, 7];
    let invalid_idx = [16i32, 7, 7];

    assert_eq!(volume.get_mut(valid_idx), Some(&mut i32::default()));
    assert_eq!(volume.get_mut(invalid_idx), None);

    // Try to mutate here
    let slot = volume.get_mut(valid_idx).unwrap();
    *slot = 42;

    assert_eq!(volume.get(valid_idx), Some(&42))
}

fn equality_case() {
    let mut vol1: Volume<i32, 16, 24, 16> = Default::default();
    let mut vol2: Volume<i32, 16, 24, 16> = Default::default();
    let mut vol3: Volume<i32, 16, 24, 16> = Default::default();

    let anomaly = [9usize, 21, 10];

    vol1.set(anomaly, 42);
    vol2.set(anomaly, 64);
    vol3.set(anomaly, 42);

    assert!(vol1 != vol2);
    assert!(vol2 != vol3);
    assert!(vol1 == vol3);

    vol2.set(anomaly, 42);

    assert!(vol1 == vol2);
    assert!(vol2 == vol3);
    assert!(vol1 == vol3);
}

#[test]
fn volume_default_constructor() {
    default_constructor_case();
}

#[test]
fn mod_default_constructor() {
    default_constructor_case();
}

#[test]
fn volume_filled_constructor() {
    filled_constructor_case();
}

#[test]
fn mod_filled_constructor() {
    filled_constructor_case();
}

#[test]
fn volume_indexing() {
    indexing_case();
}

#[test]
fn mod_indexing() {
    indexing_case();
}

#[test]
fn volume_mutable_indexing() {
    mutable_indexing_case();
}

#[test]
fn mod_mutable_indexing() {
    mutable_indexing_case();
}

#[test]
fn volume_iterating() {
    iterating_case();
}

#[test]
fn mod_iterating() {
    iterating_case();
}

#[test]
fn volume_iterating_indices() {
    iterating_indices_case();
}

#[test]
fn mod_iterating_indices() {
    iterating_indices_case();
}

#[test]
fn volume_iterator_size_hint() {
    iterator_size_hint_case();
}

#[test]
fn mod_iterator_size_hint() {
    iterator_size_hint_case();
}

#[test]
fn volume_idx_iterator_size_hint() {
    idx_iterator_size_hint_case();
}

#[test]
fn mod_idx_iterator_size_hint() {
    idx_iterator_size_hint_case();
}

#[test]
fn volume_stitching() {
    stitching_case();
}

#[test]
fn mod_stitching() {
    stitching_case();
}

#[test]
fn fallible_stitching() {
    let vol1: Volume<i32, 16, 10, 16> = Default::default();
    let vol2: Volume<i32, 16, 16, 24> = Default::default();

    let stitched_volume: Result<Volume<i32, 16, 34, 16>, StitchError> = stitch(&vol1, &vol2, Axis::Y);

    if stitched_volume.is_ok() {
        panic!()
    }

    let vol1: Volume<i32, 16, 10, 16> = Default::default();
    let vol2: Volume<i32, 16, 24, 16> = Default::default();

    let stitched_volume: Result<Volume<i32, 16, 80, 16>, StitchError> = stitch(&vol1, &vol2, Axis::Y);

    if stitched_volume.is_ok() {
        panic!()
    }
}

#[test]
fn volume_fallible_indexing() {
    fallible_indexing_case();
}

#[test]
fn mod_fallible_indexing() {
    fallible_indexing_case();
}

#[test]
fn volume_mutable_fallible_indexing() {
    mutable_fallible_indexing_case();
}

#[test]
fn mod_mutable_fallible_indexing() {
    mutable_fallible_indexing_case();
}

#[test]
fn volume_equality() {
    equality_case();
}

#[test]
fn mod_equality() {
    equality_case();
}

#[test]
fn stitch_errors_name_the_cause() {
    let vol1: Volume<i32, 4, 2, 4> = Volume::new_filled(1);
    let vol2: Volume<i32, 4, 3, 5> = Volume::new_filled(2);
    let r: Result<Volume<i32, 4, 5, 4>, StitchError> = stitch(&vol1, &vol2, Axis::Y);
    assert_eq!(r.err(), Some(StitchError::MismatchedFaces));
    let vol3: Volume<i32, 4, 3, 4> = Volume::new_filled(2);
    let r: Result<Volume<i32, 4, 6, 4>, StitchError> = stitch(&vol1, &vol3, Axis::Y);
    assert_eq!(r.err(), Some(StitchError::MismatchedCapacity));
}

#[test]
fn stitch_along_x_and_z() {
    let a: Volume<i32, 2, 2, 2> = Volume::new_filled(1);
    let b: Volume<i32, 3, 2, 2> = Volume::new_filled(2);
    let x: Volume<i32, 5, 2, 2> = a.stitch_x(&b).unwrap();
    assert_eq!(*x.at([1, 1, 1]), 1);
    assert_eq!(*x.at([2, 0, 0]), 2);
    assert_eq!(*x.at([4, 1, 1]), 2);
    let c: Volume<i32, 2, 2, 3> = Volume::new_filled(3);
    let z: Volume<i32, 2, 2, 5> = a.stitch_z(&c).unwrap();
    assert_eq!(*z.at([0, 0, 1]), 1);
    assert_eq!(*z.at([0, 0, 2]), 3);
}

#[test]
fn within_bounds_and_capacity() {
    assert_eq!(Volume::<i32, 10, 54, 3>::capacity(), 1620);
    assert!(Volume::<i32, 10, 54, 3>::within_bounds([9i32, 53, 2]));
    assert!(!Volume::<i32, 10, 54, 3>::within_bounds([-1i32, 0, 0]));
    assert!(!Volume::<i32, 10, 54, 3>::within_bounds([0u64, 54, 0]));
}

#[test]
fn iteration_order_is_x_fastest() {
    let volume: Volume<i32, 2, 2, 2> = Volume::new_filled(0);
    let mut indices = volume.iter_indices();
    assert_eq!(indices.next(), Some([0, 0, 0]));
    assert_eq!(indices.next(), Some([1, 0, 0]));
    assert_eq!(indices.next(), Some([0, 1, 0]));
}

#[test]
fn index_iteration_without_x_extent() {
    let mut indices: VolumeIdxIterator<0, 2, 2> = VolumeIdxIterator::new();
    assert_eq!(indices.next(), Some([0, 0, 0]));
    assert_eq!(indices.next(), Some([0, 1, 0]));
    assert_eq!(indices.next(), Some([0, 0, 1]));
    assert_eq!(indices.next(), Some([0, 1, 1]));
    assert_eq!(indices.next(), None);
}
