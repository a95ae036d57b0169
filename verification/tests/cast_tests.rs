use procgen::index::cast_ivec3;

#[test]
fn basic_casts() {
    let v1 = [500, 400, 300i32];

    let _ = cast_ivec3::<u16, [i32; 3]>(v1).unwrap();
    let _ = cast_ivec3::<u32, [i32; 3]>(v1).unwrap();
    let _ = cast_ivec3::<usize, [i32; 3]>(v1).unwrap();
    let _ = cast_ivec3::<isize, [i32; 3]>(v1).unwrap();
    let _ = cast_ivec3::<i16, [i32; 3]>(v1).unwrap();
    let _ = cast_ivec3::<i64, [i32; 3]>(v1).unwrap();
    let _ = cast_ivec3::<u64, [i32; 3]>(v1).unwrap();
}

#[test]
#[should_panic]
fn casting_to_undersized_type() {
    let v1 = [500, 400, 300i32];

    // v1 contains numbers that cannot fit into 8 bits!
    let _ = cast_ivec3::<u8, [i32; 3]>(v1).unwrap();
}

#[test]
#[should_panic]
fn casting_negative_number_to_unsigned_type() {
    let v1 = [-500, 300, 300i32];

    // v1 has -500 component, and u32 cannot hold negative numbers!
    let _ = cast_ivec3::<u32, [i32; 3]>(v1).unwrap();
}

#[test]
fn cast_values_are_kept() {
    assert_eq!(cast_ivec3::<u16, [i32; 3]>([500, 400, 300]), Some([500u16, 400, 300]));
    assert_eq!(cast_ivec3::<i8, [u64; 3]>([1, 2, 128]), None);
    assert_eq!(cast_ivec3::<i8, [i64; 3]>([-128, 0, 127]), Some([-128i8, 0, 127]));
}
