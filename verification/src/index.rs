//! Index vectors accepted by the voxel containers.
use vstd::prelude::*;

verus! {

/// Something that can be read as a three-component integer index.
///
/// Implemented for three-element arrays of the common integer types and for [`Vec3`],
/// so containers accept `[7i32, 7, 7]`, `[x, y, z]` of `usize`, and so on.
pub trait VolumeIdx {
    /// The index as three mathematical integers.
    spec fn coords(&self) -> (int, int, int);

    /// The index, widened to `i128` (which holds every value of the implementing types).
    fn xyz(&self) -> (r: (i128, i128, i128))
        ensures
            r.0 as int == self.coords().0,
            r.1 as int == self.coords().1,
            r.2 as int == self.coords().2,
    ;
}

impl VolumeIdx for [i32; 3] {
    open spec fn coords(&self) -> (int, int, int) {
        (self@[0] as int, self@[1] as int, self@[2] as int)
    }

    fn xyz(&self) -> (r: (i128, i128, i128)) {
        (self[0] as i128, self[1] as i128, self[2] as i128)
    }
}

impl VolumeIdx for [i64; 3] {
    open spec fn coords(&self) -> (int, int, int) {
        (self@[0] as int, self@[1] as int, self@[2] as int)
    }

    fn xyz(&self) -> (r: (i128, i128, i128)) {
        (self[0] as i128, self[1] as i128, self[2] as i128)
    }
}

impl VolumeIdx for [u64; 3] {
    open spec fn coords(&self) -> (int, int, int) {
        (self@[0] as int, self@[1] as int, self@[2] as int)
    }

    fn xyz(&self) -> (r: (i128, i128, i128)) {
        (self[0] as i128, self[1] as i128, self[2] as i128)
    }
}

impl VolumeIdx for [usize; 3] {
    open spec fn coords(&self) -> (int, int, int) {
        (self@[0] as int, self@[1] as int, self@[2] as int)
    }

    fn xyz(&self) -> (r: (i128, i128, i128)) {
        (self[0] as i128, self[1] as i128, self[2] as i128)
    }
}

/// A position in three-dimensional integer space.
#[derive(Debug, Clone, Copy, PartialEq, Eq, Structural, Hash)]
pub struct Vec3 {
    pub x: i64,
    pub y: i64,
    pub z: i64,
}

impl Vec3 {
    /// Builds a vector from its components.
    pub fn new(x: i64, y: i64, z: i64) -> (r: Vec3)
        ensures
            r == (Vec3 { x, y, z }),
    {
        Vec3 { x, y, z }
    }
}

impl VolumeIdx for Vec3 {
    open spec fn coords(&self) -> (int, int, int) {
        (self.x as int, self.y as int, self.z as int)
    }

    fn xyz(&self) -> (r: (i128, i128, i128)) {
        (self.x as i128, self.y as i128, self.z as i128)
    }
}

/// A position in two-dimensional integer space (a chunk column position).
#[derive(Debug, Clone, Copy, PartialEq, Eq, Structural, Hash)]
pub struct Vec2 {
    pub x: i32,
    pub z: i32,
}

impl Vec2 {
    /// Builds a vector from its components.
    pub fn new(x: i32, z: i32) -> (r: Vec2)
        ensures
            r == (Vec2 { x, z }),
    {
        Vec2 { x, z }
    }
}

/// An integer type that values of other integer types can be converted to, when they fit.
pub trait CheckedCast: Sized + Copy {
    /// The smallest value of the type.
    spec fn lowest() -> int;

    /// The largest value of the type.
    spec fn highest() -> int;

    /// The value as a mathematical integer.
    spec fn value(self) -> int;

    /// `v` as a value of this type, or `None` if it does not fit.
    fn try_from_wide(v: i128) -> (r: Option<Self>)
        ensures
            match r {
                Some(t) => t.value() == v,
                None => !(Self::lowest() <= v <= Self::highest()),
            },
    ;
}

impl CheckedCast for u8 {
    open spec fn lowest() -> int {
        0 as int
    }

    open spec fn highest() -> int {
        u8::MAX as int
    }

    open spec fn value(self) -> int {
        self as int
    }

    fn try_from_wide(v: i128) -> (r: Option<u8>) {
        if (0 as i128) <= v && v <= (u8::MAX as i128) {
            Some(v as u8)
        } else {
            None
        }
    }
}

impl CheckedCast for u16 {
    open spec fn lowest() -> int {
        0 as int
    }

    open spec fn highest() -> int {
        u16::MAX as int
    }

    open spec fn value(self) -> int {
        self as int
    }

    fn try_from_wide(v: i128) -> (r: Option<u16>) {
        if (0 as i128) <= v && v <= (u16::MAX as i128) {
            Some(v as u16)
        } else {
            None
        }
    }
}

impl CheckedCast for u32 {
    open spec fn lowest() -> int {
        0 as int
    }

    open spec fn highest() -> int {
        u32::MAX as int
    }

    open spec fn value(self) -> int {
        self as int
    }

    fn try_from_wide(v: i128) -> (r: Option<u32>) {
        if (0 as i128) <= v && v <= (u32::MAX as i128) {
            Some(v as u32)
        } else {
            None
        }
    }
}

impl CheckedCast for u64 {
    open spec fn lowest() -> int {
        0 as int
    }

    open spec fn highest() -> int {
        u64::MAX as int
    }

    open spec fn value(self) -> int {
        self as int
    }

    fn try_from_wide(v: i128) -> (r: Option<u64>) {
        if (0 as i128) <= v && v <= (u64::MAX as i128) {
            Some(v as u64)
        } else {
            None
        }
    }
}

impl CheckedCast for usize {
    open spec fn lowest() -> int {
        0 as int
    }

    open spec fn highest() -> int {
        usize::MAX as int
    }

    open spec fn value(self) -> int {
        self as int
    }

    fn try_from_wide(v: i128) -> (r: Option<usize>) {
        if (0 as i128) <= v && v <= (usize::MAX as i128) {
            Some(v as usize)
        } else {
            None
        }
    }
}

impl CheckedCast for i8 {
    open spec fn lowest() -> int {
        i8::MIN as int
    }

    open spec fn highest() -> int {
        i8::MAX as int
    }

    open spec fn value(self) -> int {
        self as int
    }

    fn try_from_wide(v: i128) -> (r: Option<i8>) {
        if (i8::MIN as i128) <= v && v <= (i8::MAX as i128) {
            Some(v as i8)
        } else {
            None
        }
    }
}

impl CheckedCast for i16 {
    open spec fn lowest() -> int {
        i16::MIN as int
    }

    open spec fn highest() -> int {
        i16::MAX as int
    }

    open spec fn value(self) -> int {
        self as int
    }

    fn try_from_wide(v: i128) -> (r: Option<i16>) {
        if (i16::MIN as i128) <= v && v <= (i16::MAX as i128) {
            Some(v as i16)
        } else {
            None
        }
    }
}

impl CheckedCast for i32 {
    open spec fn lowest() -> int {
        i32::MIN as int
    }

    open spec fn highest() -> int {
        i32::MAX as int
    }

    open spec fn value(self) -> int {
        self as int
    }

    fn try_from_wide(v: i128) -> (r: Option<i32>) {
        if (i32::MIN as i128) <= v && v <= (i32::MAX as i128) {
            Some(v as i32)
        } else {
            None
        }
    }
}

impl CheckedCast for i64 {
    open spec fn lowest() -> int {
        i64::MIN as int
    }

    open spec fn highest() -> int {
        i64::MAX as int
    }

    open spec fn value(self) -> int {
        self as int
    }

    fn try_from_wide(v: i128) -> (r: Option<i64>) {
        if (i64::MIN as i128) <= v && v <= (i64::MAX as i128) {
            Some(v as i64)
        } else {
            None
        }
    }
}

impl CheckedCast for isize {
    open spec fn lowest() -> int {
        isize::MIN as int
    }

    open spec fn highest() -> int {
        isize::MAX as int
    }

    open spec fn value(self) -> int {
        self as int
    }

    fn try_from_wide(v: i128) -> (r: Option<isize>) {
        if (isize::MIN as i128) <= v && v <= (isize::MAX as i128) {
            Some(v as isize)
        } else {
            None
        }
    }
}

/// The index `v` with each component converted to `T`, or `None` if some component does not
/// fit in `T`.
pub fn cast_ivec3<T: CheckedCast, I: VolumeIdx>(v: I) -> (r: Option<[T; 3]>)
    ensures
        match r {
            Some(a) => a@[0].value() == v.coords().0 && a@[1].value() == v.coords().1
                && a@[2].value() == v.coords().2,
            None => !(T::lowest() <= v.coords().0 <= T::highest() && T::lowest() <= v.coords().1
                <= T::highest() && T::lowest() <= v.coords().2 <= T::highest()),
        },
{
    let (x, y, z) = v.xyz();
    let x = match T::try_from_wide(x) {
        Some(x) => x,
        None => return None,
    };
    let y = match T::try_from_wide(y) {
        Some(y) => y,
        None => return None,
    };
    let z = match T::try_from_wide(z) {
        Some(z) => z,
        None => return None,
    };
    Some([x, y, z])
}

} // verus!
