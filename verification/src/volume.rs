//! Fixed-size three-dimensional arrays of voxels.
use vstd::prelude::*;
use vstd::std_specs::cmp::PartialEqSpec;
use vstd::arithmetic::div_mod::lemma_fundamental_div_mod_converse;

use crate::index::VolumeIdx;

verus! {

/// Position of the cell `(x, y, z)` in the x-major, z-minor flat layout of a volume whose
/// Y and Z extents are `dy` and `dz`.
pub open spec fn flat_index(dy: int, dz: int, x: int, y: int, z: int) -> int {
    x * (dy * dz) + y * dz + z
}

/// The flat position of an in-bounds cell is a valid position of the flat layout.
pub proof fn lemma_flat_index_in_range(dx: int, dy: int, dz: int, x: int, y: int, z: int)
    requires
        0 <= x < dx,
        0 <= y < dy,
        0 <= z < dz,
    ensures
        0 <= flat_index(dy, dz, x, y, z) < dx * dy * dz,
{
    assert(0 <= y * dz + z < dy * dz) by (nonlinear_arith)
        requires
            0 <= y < dy,
            0 <= z < dz,
    ;
    assert(0 <= x * (dy * dz) + (y * dz + z) < dx * (dy * dz)) by (nonlinear_arith)
        requires
            0 <= x < dx,
            0 <= y * dz + z < dy * dz,
    ;
    assert(dx * (dy * dz) == dx * dy * dz) by (nonlinear_arith);
}

/// Distinct in-bounds cells have distinct flat positions.
pub proof fn lemma_flat_index_injective(
    dy: int,
    dz: int,
    x1: int,
    y1: int,
    z1: int,
    x2: int,
    y2: int,
    z2: int,
)
    requires
        0 <= x1,
        0 <= y1 < dy,
        0 <= z1 < dz,
        0 <= x2,
        0 <= y2 < dy,
        0 <= z2 < dz,
        flat_index(dy, dz, x1, y1, z1) == flat_index(dy, dz, x2, y2, z2),
    ensures
        x1 == x2 && y1 == y2 && z1 == z2,
{
    let k = flat_index(dy, dz, x1, y1, z1);
    assert(0 <= y1 * dz + z1 < dy * dz) by (nonlinear_arith)
        requires
            0 <= y1 < dy,
            0 <= z1 < dz,
    ;
    assert(0 <= y2 * dz + z2 < dy * dz) by (nonlinear_arith)
        requires
            0 <= y2 < dy,
            0 <= z2 < dz,
    ;
    lemma_fundamental_div_mod_converse(k, dy * dz, x1, y1 * dz + z1);
    lemma_fundamental_div_mod_converse(k, dy * dz, x2, y2 * dz + z2);
    lemma_fundamental_div_mod_converse(y1 * dz + z1, dz, y1, z1);
    lemma_fundamental_div_mod_converse(y2 * dz + z2, dz, y2, z2);
}

/// Stepping `z` past the end of a row lands on the start of the next row.
pub proof fn lemma_flat_index_row(dy: int, dz: int, x: int, y: int)
    ensures
        flat_index(dy, dz, x, y, dz) == flat_index(dy, dz, x, y + 1, 0),
        flat_index(dy, dz, x, dy, 0) == flat_index(dy, dz, x + 1, 0, 0),
{
    assert(y * dz + dz == (y + 1) * dz) by (nonlinear_arith);
    assert(x * (dy * dz) + dy * dz == (x + 1) * (dy * dz)) by (nonlinear_arith);
}

/// Linear position of the iteration cursor `(x, y, z)` (x fastest, then y, then z).
pub open spec fn iteration_position(dx: int, dy: int, x: int, y: int, z: int) -> int {
    x + y * dx + z * (dx * dy)
}

/// The cursor that follows `(x, y, z)` in iteration order over a `dx` by `dy` layer.
pub open spec fn step_cursor(dx: int, dy: int, x: int, y: int, z: int) -> (int, int, int) {
    if x + 1 >= dx {
        if y + 1 >= dy {
            (0, 0, z + 1)
        } else {
            (0, y + 1, z)
        }
    } else {
        (x + 1, y, z)
    }
}

/// Stepping the cursor advances the linear position by one and keeps `x` and `y` in range.
pub proof fn lemma_step_cursor(dx: int, dy: int, x: int, y: int, z: int)
    requires
        0 <= x < dx,
        0 <= y < dy,
        0 <= z,
    ensures
        ({
            let (a, b, c) = step_cursor(dx, dy, x, y, z);
            &&& 0 <= a < dx
            &&& 0 <= b < dy
            &&& c == z || c == z + 1
            &&& iteration_position(dx, dy, a, b, c) == iteration_position(dx, dy, x, y, z) + 1
        }),
{
    assert((y + 1) * dx == y * dx + dx) by (nonlinear_arith);
    assert((z + 1) * (dx * dy) == z * (dx * dy) + dx * dy) by (nonlinear_arith);
    assert((dy - 1) * dx + dx == dx * dy) by (nonlinear_arith);
    if x + 1 >= dx {
        assert(x == dx - 1);
        if y + 1 >= dy {
            assert(y == dy - 1);
            assert(iteration_position(dx, dy, x, y, z) + 1 == dx * dy + z * (dx * dy));
        } else {
            assert(iteration_position(dx, dy, 0, y + 1, z) == (y + 1) * dx + z * (dx * dy));
        }
    }
}

/// Decoding a linear position gives back the cursor, and the position is below
/// `dx * dy * dz` exactly when `z < dz`.
pub proof fn lemma_iteration_position_decode(dx: int, dy: int, dz: int, x: int, y: int, z: int)
    requires
        0 <= x < dx,
        0 <= y < dy,
        0 <= z,
    ensures
        iteration_position(dx, dy, x, y, z) % dx == x,
        (iteration_position(dx, dy, x, y, z) / dx) % dy == y,
        iteration_position(dx, dy, x, y, z) / (dx * dy) == z,
        (iteration_position(dx, dy, x, y, z) < dx * dy * dz) == (z < dz),
{
    let p = iteration_position(dx, dy, x, y, z);
    assert(p == (y + z * dy) * dx + x) by (nonlinear_arith)
        requires
            p == x + y * dx + z * (dx * dy),
    ;
    assert(0 <= y + z * dy) by (nonlinear_arith)
        requires
            0 <= y,
            0 <= z,
            0 < dy,
    ;
    lemma_fundamental_div_mod_converse(p, dx, y + z * dy, x);
    lemma_fundamental_div_mod_converse(y + z * dy, dy, z, y);
    assert(0 <= x + y * dx < dx * dy) by (nonlinear_arith)
        requires
            0 <= x < dx,
            0 <= y < dy,
    ;
    assert(p == z * (dx * dy) + (x + y * dx));
    lemma_fundamental_div_mod_converse(p, dx * dy, z, x + y * dx);
    assert(dx * dy * dz == dz * (dx * dy)) by (nonlinear_arith);
    if z < dz {
        assert(z * (dx * dy) + dx * dy <= dz * (dx * dy)) by (nonlinear_arith)
            requires
                z < dz,
                dx * dy > 0,
        ;
        assert(p < dz * (dx * dy)) by (nonlinear_arith)
            requires
                z * (dx * dy) + dx * dy <= dz * (dx * dy),
                p == z * (dx * dy) + (x + y * dx),
                x + y * dx < dx * dy,
                z < dz,
        ;
    } else {
        assert(z * (dx * dy) >= dz * (dx * dy)) by (nonlinear_arith)
            requires
                z >= dz,
                dx * dy > 0,
        ;
        assert(p >= dz * (dx * dy)) by (nonlinear_arith)
            requires
                z * (dx * dy) >= dz * (dx * dy),
                p == z * (dx * dy) + (x + y * dx),
                0 <= x + y * dx,
                z >= dz,
                dx * dy > 0,
        ;
    }
}

/// An axis of three-dimensional space.
#[derive(Debug, Clone, Copy, PartialEq, Eq, Structural)]
pub enum Axis {
    X,
    Y,
    Z,
}

/// 3D volume: a fixed-size `X_SIZE` by `Y_SIZE` by `Z_SIZE` grid of cells.
///
/// Cells are addressed by `[x, y, z]` with `0 <= x < X_SIZE` and so on.
#[derive(Debug)]
pub struct Volume<T, const X_SIZE: usize, const Y_SIZE: usize, const Z_SIZE: usize> {
    data: Vec<T>,
}

impl<T, const X_SIZE: usize, const Y_SIZE: usize, const Z_SIZE: usize> Volume<
    T,
    X_SIZE,
    Y_SIZE,
    Z_SIZE,
> {
    /// The number of cells of a volume of this type.
    pub open spec fn size() -> int {
        X_SIZE as int * Y_SIZE as int * Z_SIZE as int
    }

    /// Whether `(x, y, z)` addresses a cell of a volume of this type.
    pub open spec fn in_bounds(x: int, y: int, z: int) -> bool {
        &&& 0 <= x < X_SIZE
        &&& 0 <= y < Y_SIZE
        &&& 0 <= z < Z_SIZE
    }

    /// Position of the cell `(x, y, z)` in the flat layout.
    pub open spec fn flat(x: int, y: int, z: int) -> int {
        flat_index(Y_SIZE as int, Z_SIZE as int, x, y, z)
    }

    /// The cells in flat (x-major, z-minor) order.
    pub closed spec fn cells(&self) -> Seq<T> {
        self.data@
    }

    /// Well-formedness: the volume holds exactly one value per cell.
    pub open spec fn wf(&self) -> bool {
        self.cells().len() == Self::size()
    }

    /// The value stored in the cell `(x, y, z)`.
    pub open spec fn cell(&self, x: int, y: int, z: int) -> T {
        self.cells()[Self::flat(x, y, z)]
    }

    /// The value of the `n`-th cell in iteration order (x fastest, then y, then z).
    pub open spec fn nth_in_iteration(&self, n: int) -> T {
        self.cell(
            n % (X_SIZE as int),
            (n / (X_SIZE as int)) % (Y_SIZE as int),
            n / ((X_SIZE as int) * (Y_SIZE as int)),
        )
    }

    proof fn lemma_cell_in_range(&self, x: int, y: int, z: int)
        requires
            self.wf(),
            Self::in_bounds(x, y, z),
        ensures
            0 <= Self::flat(x, y, z) < self.cells().len(),
    {
        lemma_flat_index_in_range(X_SIZE as int, Y_SIZE as int, Z_SIZE as int, x, y, z);
    }

    /// The flat position of an in-bounds cell of a volume with `len` cells.
    fn flat_usize(x: usize, y: usize, z: usize, len: usize) -> (k: usize)
        requires
            len == Self::size(),
            Self::in_bounds(x as int, y as int, z as int),
        ensures
            k == Self::flat(x as int, y as int, z as int),
            k < len,
    {
        proof {
            lemma_flat_index_in_range(X_SIZE as int, Y_SIZE as int, Z_SIZE as int, x as int, y as int, z as int);
            assert(Y_SIZE as int * Z_SIZE as int <= Self::size()) by (nonlinear_arith)
                requires
                    X_SIZE >= 1,
                    Y_SIZE >= 1,
                    Z_SIZE >= 1,
            ;
            assert(x as int * (Y_SIZE as int * Z_SIZE as int) <= Self::flat(x as int, y as int, z as int)) by (nonlinear_arith)
                requires
                    y >= 0, z >= 0, Z_SIZE >= 1,
            ;
            assert(y as int * Z_SIZE as int <= Y_SIZE as int * Z_SIZE as int) by (nonlinear_arith)
                requires
                    y < Y_SIZE, Z_SIZE >= 1,
            ;
        }
        x * (Y_SIZE * Z_SIZE) + y * Z_SIZE + z
    }

    /// The number of cells in this type of volume.
    pub fn capacity() -> (r: usize)
        requires
            X_SIZE as int * Y_SIZE as int <= usize::MAX,
            Self::size() <= usize::MAX,
        ensures
            r == Self::size(),
    {
        X_SIZE * Y_SIZE * Z_SIZE
    }

    /// This volume's dimensions, `[X_SIZE, Y_SIZE, Z_SIZE]`.
    pub fn dimensions(&self) -> (r: [usize; 3])
        ensures
            r@ == seq![X_SIZE, Y_SIZE, Z_SIZE],
    {
        let r = [X_SIZE, Y_SIZE, Z_SIZE];
        assert(r@ =~= seq![X_SIZE, Y_SIZE, Z_SIZE]);
        r
    }

    /// Returns whether or not a vector is a valid index into this volume (i.e., not out of bounds).
    pub fn within_bounds<I: VolumeIdx>(idx: I) -> (r: bool)
        ensures
            r == Self::in_bounds(idx.coords().0, idx.coords().1, idx.coords().2),
    {
        let (x, y, z) = idx.xyz();
        0 <= x && x < X_SIZE as i128 && 0 <= y && y < Y_SIZE as i128 && 0 <= z && z
            < Z_SIZE as i128
    }

    /// Borrow of the cell at `idx`, which must be in bounds.
    pub fn at(&self, idx: [usize; 3]) -> (r: &T)
        requires
            self.wf(),
            Self::in_bounds(idx@[0] as int, idx@[1] as int, idx@[2] as int),
        ensures
            *r == self.cell(idx@[0] as int, idx@[1] as int, idx@[2] as int),
    {
        let k = Self::flat_usize(idx[0], idx[1], idx[2], self.data.len());
        &self.data[k]
    }

    /// Gets a borrow of the element at the specified index if the index is valid, if not then
    /// the function returns None.
    pub fn get<I: VolumeIdx>(&self, idx: I) -> (r: Option<&T>)
        requires
            self.wf(),
        ensures
            match r {
                Some(v) => Self::in_bounds(idx.coords().0, idx.coords().1, idx.coords().2) && *v
                    == self.cell(idx.coords().0, idx.coords().1, idx.coords().2),
                None => !Self::in_bounds(idx.coords().0, idx.coords().1, idx.coords().2),
            },
    {
        let (x, y, z) = idx.xyz();
        if Self::within_bounds(idx) {
            Some(self.at([x as usize, y as usize, z as usize]))
        } else {
            None
        }
    }
}


impl<T, const X_SIZE: usize, const Y_SIZE: usize, const Z_SIZE: usize> Volume<
    T,
    X_SIZE,
    Y_SIZE,
    Z_SIZE,
> {
    /// Gets a mutable borrow of the element at the specified index if the index is valid, if
    /// not then the function returns None.
    pub fn get_mut<I: VolumeIdx>(&mut self, idx: I) -> (r: Option<&mut T>)
        requires
            old(self).wf(),
        ensures
            match r {
                Some(v) => {
                    &&& Self::in_bounds(idx.coords().0, idx.coords().1, idx.coords().2)
                    &&& *v == old(self).cell(idx.coords().0, idx.coords().1, idx.coords().2)
                    &&& final(self).cells() == old(self).cells().update(
                        Self::flat(idx.coords().0, idx.coords().1, idx.coords().2),
                        *final(v),
                    )
                },
                None => {
                    &&& !Self::in_bounds(idx.coords().0, idx.coords().1, idx.coords().2)
                    &&& *final(self) == *old(self)
                },
            },
    {
        let (x, y, z) = idx.xyz();
        if Self::within_bounds(idx) {
            let k = Self::flat_usize(x as usize, y as usize, z as usize, self.data.len());
            Some(&mut self.data[k])
        } else {
            None
        }
    }

    /// Make new volume by copying `value` into every cell.
    pub fn new_filled(value: T) -> (r: Self)
        where
            T: Copy,
        ensures
            r.wf(),
            forall|x: int, y: int, z: int|
                Self::in_bounds(x, y, z) ==> #[trigger] r.cell(x, y, z) == value,
    {
        let mut data: Vec<T> = Vec::new();
        let mut x: usize = 0;
        while x < X_SIZE
            invariant
                x <= X_SIZE,
                data@.len() == Self::flat(x as int, 0, 0),
                forall|i: int| 0 <= i < data@.len() ==> #[trigger] data@[i] == value,
            decreases X_SIZE - x,
        {
            let mut y: usize = 0;
            while y < Y_SIZE
                invariant
                    x < X_SIZE,
                    y <= Y_SIZE,
                    data@.len() == Self::flat(x as int, y as int, 0),
                    forall|i: int| 0 <= i < data@.len() ==> #[trigger] data@[i] == value,
                decreases Y_SIZE - y,
            {
                let mut z: usize = 0;
                while z < Z_SIZE
                    invariant
                        x < X_SIZE,
                        y < Y_SIZE,
                        z <= Z_SIZE,
                        data@.len() == Self::flat(x as int, y as int, z as int),
                        forall|i: int| 0 <= i < data@.len() ==> #[trigger] data@[i] == value,
                    decreases Z_SIZE - z,
                {
                    data.push(value);
                    z = z + 1;
                }
                proof {
                    lemma_flat_index_row(Y_SIZE as int, Z_SIZE as int, x as int, y as int);
                }
                y = y + 1;
            }
            proof {
                lemma_flat_index_row(Y_SIZE as int, Z_SIZE as int, x as int, y as int);
            }
            x = x + 1;
        }
        assert(Self::flat(X_SIZE as int, 0, 0) == Self::size()) by (nonlinear_arith);
        let r = Volume { data };
        assert forall|x: int, y: int, z: int| Self::in_bounds(x, y, z) implies #[trigger] r.cell(
            x,
            y,
            z,
        ) == value by {
            r.lemma_cell_in_range(x, y, z);
        }
        r
    }

    /// Stores `value` in the cell at `idx`, which must be in bounds.
    pub fn set(&mut self, idx: [usize; 3], value: T)
        requires
            old(self).wf(),
            Self::in_bounds(idx@[0] as int, idx@[1] as int, idx@[2] as int),
        ensures
            final(self).wf(),
            final(self).cells() == old(self).cells().update(
                Self::flat(idx@[0] as int, idx@[1] as int, idx@[2] as int),
                value,
            ),
            forall|a: int, b: int, c: int|
                Self::in_bounds(a, b, c) ==> #[trigger] final(self).cell(a, b, c) == if a
                    == idx@[0] && b == idx@[1] && c == idx@[2] {
                    value
                } else {
                    old(self).cell(a, b, c)
                },
    {
        let k = Self::flat_usize(idx[0], idx[1], idx[2], self.data.len());
        self.data.set(k, value);
        proof {
            Self::lemma_set_cell(
                *old(self),
                *self,
                idx@[0] as int,
                idx@[1] as int,
                idx@[2] as int,
                value,
            );
        }
    }

    /// Stitch `rhs` after this volume along the X axis (see [`stitch`]).
    pub fn stitch_x<
        const RHS_X_SIZE: usize,
        const RHS_Y_SIZE: usize,
        const RHS_Z_SIZE: usize,
        const RESULT_X_SIZE: usize,
        const RESULT_Y_SIZE: usize,
        const RESULT_Z_SIZE: usize,
    >(&self, rhs: &Volume<T, RHS_X_SIZE, RHS_Y_SIZE, RHS_Z_SIZE>) -> (r: Result<
        Volume<T, RESULT_X_SIZE, RESULT_Y_SIZE, RESULT_Z_SIZE>,
        StitchError,
    >)
        where
            T: Copy,
        requires
            self.wf(),
            rhs.wf(),
            stitch_arith_fits(
                Axis::X,
                (X_SIZE as int, Y_SIZE as int, Z_SIZE as int),
                (RHS_X_SIZE as int, RHS_Y_SIZE as int, RHS_Z_SIZE as int),
                (RESULT_X_SIZE as int, RESULT_Y_SIZE as int, RESULT_Z_SIZE as int),
            ),
            faces_match(
                Axis::X,
                (X_SIZE as int, Y_SIZE as int, Z_SIZE as int),
                (RHS_X_SIZE as int, RHS_Y_SIZE as int, RHS_Z_SIZE as int),
            ) && volume_of((RESULT_X_SIZE as int, RESULT_Y_SIZE as int, RESULT_Z_SIZE as int))
                == volume_of(
                stitched_dims(
                    Axis::X,
                    (X_SIZE as int, Y_SIZE as int, Z_SIZE as int),
                    (RHS_X_SIZE as int, RHS_Y_SIZE as int, RHS_Z_SIZE as int),
                ),
            ) ==> {
                &&& (RESULT_X_SIZE as int, RESULT_Y_SIZE as int, RESULT_Z_SIZE as int)
                    == stitched_dims(
                    Axis::X,
                    (X_SIZE as int, Y_SIZE as int, Z_SIZE as int),
                    (RHS_X_SIZE as int, RHS_Y_SIZE as int, RHS_Z_SIZE as int),
                )
                &&& X_SIZE > 0 && Y_SIZE > 0 && Z_SIZE > 0
            },
        ensures
            stitch_spec(*self, *rhs, Axis::X, r),
    {
        stitch(self, rhs, Axis::X)
    }

    /// Stitch `rhs` after this volume along the Y axis (see [`stitch`]).
    pub fn stitch_y<
        const RHS_X_SIZE: usize,
        const RHS_Y_SIZE: usize,
        const RHS_Z_SIZE: usize,
        const RESULT_X_SIZE: usize,
        const RESULT_Y_SIZE: usize,
        const RESULT_Z_SIZE: usize,
    >(&self, rhs: &Volume<T, RHS_X_SIZE, RHS_Y_SIZE, RHS_Z_SIZE>) -> (r: Result<
        Volume<T, RESULT_X_SIZE, RESULT_Y_SIZE, RESULT_Z_SIZE>,
        StitchError,
    >)
        where
            T: Copy,
        requires
            self.wf(),
            rhs.wf(),
            stitch_arith_fits(
                Axis::Y,
                (X_SIZE as int, Y_SIZE as int, Z_SIZE as int),
                (RHS_X_SIZE as int, RHS_Y_SIZE as int, RHS_Z_SIZE as int),
                (RESULT_X_SIZE as int, RESULT_Y_SIZE as int, RESULT_Z_SIZE as int),
            ),
            faces_match(
                Axis::Y,
                (X_SIZE as int, Y_SIZE as int, Z_SIZE as int),
                (RHS_X_SIZE as int, RHS_Y_SIZE as int, RHS_Z_SIZE as int),
            ) && volume_of((RESULT_X_SIZE as int, RESULT_Y_SIZE as int, RESULT_Z_SIZE as int))
                == volume_of(
                stitched_dims(
                    Axis::Y,
                    (X_SIZE as int, Y_SIZE as int, Z_SIZE as int),
                    (RHS_X_SIZE as int, RHS_Y_SIZE as int, RHS_Z_SIZE as int),
                ),
            ) ==> {
                &&& (RESULT_X_SIZE as int, RESULT_Y_SIZE as int, RESULT_Z_SIZE as int)
                    == stitched_dims(
                    Axis::Y,
                    (X_SIZE as int, Y_SIZE as int, Z_SIZE as int),
                    (RHS_X_SIZE as int, RHS_Y_SIZE as int, RHS_Z_SIZE as int),
                )
                &&& X_SIZE > 0 && Y_SIZE > 0 && Z_SIZE > 0
            },
        ensures
            stitch_spec(*self, *rhs, Axis::Y, r),
    {
        stitch(self, rhs, Axis::Y)
    }

    /// Stitch `rhs` after this volume along the Z axis (see [`stitch`]).
    pub fn stitch_z<
        const RHS_X_SIZE: usize,
        const RHS_Y_SIZE: usize,
        const RHS_Z_SIZE: usize,
        const RESULT_X_SIZE: usize,
        const RESULT_Y_SIZE: usize,
        const RESULT_Z_SIZE: usize,
    >(&self, rhs: &Volume<T, RHS_X_SIZE, RHS_Y_SIZE, RHS_Z_SIZE>) -> (r: Result<
        Volume<T, RESULT_X_SIZE, RESULT_Y_SIZE, RESULT_Z_SIZE>,
        StitchError,
    >)
        where
            T: Copy,
        requires
            self.wf(),
            rhs.wf(),
            stitch_arith_fits(
                Axis::Z,
                (X_SIZE as int, Y_SIZE as int, Z_SIZE as int),
                (RHS_X_SIZE as int, RHS_Y_SIZE as int, RHS_Z_SIZE as int),
                (RESULT_X_SIZE as int, RESULT_Y_SIZE as int, RESULT_Z_SIZE as int),
            ),
            faces_match(
                Axis::Z,
                (X_SIZE as int, Y_SIZE as int, Z_SIZE as int),
                (RHS_X_SIZE as int, RHS_Y_SIZE as int, RHS_Z_SIZE as int),
            ) && volume_of((RESULT_X_SIZE as int, RESULT_Y_SIZE as int, RESULT_Z_SIZE as int))
                == volume_of(
                stitched_dims(
                    Axis::Z,
                    (X_SIZE as int, Y_SIZE as int, Z_SIZE as int),
                    (RHS_X_SIZE as int, RHS_Y_SIZE as int, RHS_Z_SIZE as int),
                ),
            ) ==> {
                &&& (RESULT_X_SIZE as int, RESULT_Y_SIZE as int, RESULT_Z_SIZE as int)
                    == stitched_dims(
                    Axis::Z,
                    (X_SIZE as int, Y_SIZE as int, Z_SIZE as int),
                    (RHS_X_SIZE as int, RHS_Y_SIZE as int, RHS_Z_SIZE as int),
                )
                &&& X_SIZE > 0 && Y_SIZE > 0 && Z_SIZE > 0
            },
        ensures
            stitch_spec(*self, *rhs, Axis::Z, r),
    {
        stitch(self, rhs, Axis::Z)
    }

    /// Make new volume holding `T::default()` in every cell.
    pub fn new_default() -> (r: Self)
        where
            T: Default + Copy,
        ensures
            r.wf(),
            forall|x1: int, y1: int, z1: int, x2: int, y2: int, z2: int|
                Self::in_bounds(x1, y1, z1) && Self::in_bounds(x2, y2, z2) ==> #[trigger] r.cell(
                    x1,
                    y1,
                    z1,
                ) == #[trigger] r.cell(x2, y2, z2),
            forall|x: int, y: int, z: int|
                Self::in_bounds(x, y, z) ==> call_ensures(T::default, (), #[trigger] r.cell(x, y, z)),
    {
        let d = T::default();
        Self::new_filled(d)
    }

    /// Writing one cell leaves every other cell unchanged.
    pub proof fn lemma_set_cell(
        old_vol: Self,
        new_vol: Self,
        x: int,
        y: int,
        z: int,
        value: T,
    )
        requires
            old_vol.wf(),
            Self::in_bounds(x, y, z),
            new_vol.cells() == old_vol.cells().update(Self::flat(x, y, z), value),
        ensures
            new_vol.wf(),
            forall|a: int, b: int, c: int|
                Self::in_bounds(a, b, c) ==> #[trigger] new_vol.cell(a, b, c) == if a == x && b
                    == y && c == z {
                    value
                } else {
                    old_vol.cell(a, b, c)
                },
    {
        old_vol.lemma_cell_in_range(x, y, z);
        assert forall|a: int, b: int, c: int| Self::in_bounds(a, b, c) implies #[trigger] new_vol.cell(
            a,
            b,
            c,
        ) == if a == x && b == y && c == z {
            value
        } else {
            old_vol.cell(a, b, c)
        } by {
            old_vol.lemma_cell_in_range(a, b, c);
            if Self::flat(a, b, c) == Self::flat(x, y, z) {
                lemma_flat_index_injective(Y_SIZE as int, Z_SIZE as int, a, b, c, x, y, z);
            }
        }
    }
}


/// Iterator over references to a volume's cells, x fastest, then y, then z.
pub struct VolumeIterator<'a, T, const X_SIZE: usize, const Y_SIZE: usize, const Z_SIZE: usize> {
    pub volume: &'a Volume<T, X_SIZE, Y_SIZE, Z_SIZE>,
    x: usize,
    y: usize,
    z: usize,
}

impl<'a, T, const X_SIZE: usize, const Y_SIZE: usize, const Z_SIZE: usize> VolumeIterator<
    'a,
    T,
    X_SIZE,
    Y_SIZE,
    Z_SIZE,
> {
    /// The cell the iterator reads next.
    pub closed spec fn cursor(&self) -> (int, int, int) {
        (self.x as int, self.y as int, self.z as int)
    }

    /// The volume being iterated over.
    pub closed spec fn source(&self) -> Volume<T, X_SIZE, Y_SIZE, Z_SIZE> {
        *self.volume
    }

    /// How many cells the iterator has handed out.
    pub open spec fn position(&self) -> int {
        iteration_position(
            X_SIZE as int,
            Y_SIZE as int,
            self.cursor().0,
            self.cursor().1,
            self.cursor().2,
        )
    }

    /// Whether the iterator has handed out every cell.
    pub open spec fn exhausted(&self) -> bool {
        self.cursor().2 >= Z_SIZE
    }

    /// The iterator's invariant.
    pub open spec fn wf(&self) -> bool {
        &&& self.source().wf()
        &&& 0 <= self.cursor().2 <= Z_SIZE
        &&& 0 <= self.cursor().0
        &&& 0 <= self.cursor().1
        &&& !self.exhausted() && X_SIZE > 0 && Y_SIZE > 0 ==> self.cursor().0 < X_SIZE
            && self.cursor().1 < Y_SIZE
        &&& self.exhausted() ==> self.cursor().0 == 0 && self.cursor().1 == 0
    }

    /// An iterator over `volume` that starts at cell `[0, 0, 0]`.
    pub fn new(volume: &'a Volume<T, X_SIZE, Y_SIZE, Z_SIZE>) -> (r: Self)
        requires
            volume.wf(),
        ensures
            r.source() == *volume,
            r.cursor() == (0int, 0int, 0int),
            r.position() == 0,
            r.wf(),
    {
        VolumeIterator { volume, x: 0, y: 0, z: 0 }
    }

    /// The next cell, or `None` once every cell has been handed out.
    pub fn next(&mut self) -> (r: Option<&'a T>)
        requires
            old(self).wf(),
            !old(self).exhausted() ==> X_SIZE > 0 && Y_SIZE > 0,
        ensures
            final(self).wf(),
            final(self).source() == old(self).source(),
            old(self).exhausted() ==> r is None && *final(self) == *old(self),
            !old(self).exhausted() ==> {
                &&& r matches Some(v) && *v == old(self).source().cell(
                    old(self).cursor().0,
                    old(self).cursor().1,
                    old(self).cursor().2,
                ) && *v == old(self).source().nth_in_iteration(old(self).position())
                &&& final(self).cursor() == step_cursor(
                    X_SIZE as int,
                    Y_SIZE as int,
                    old(self).cursor().0,
                    old(self).cursor().1,
                    old(self).cursor().2,
                )
                &&& final(self).position() == old(self).position() + 1
            },
    {
        if self.z >= Z_SIZE {
            return None;
        }
        proof {
            lemma_step_cursor(
                X_SIZE as int,
                Y_SIZE as int,
                self.x as int,
                self.y as int,
                self.z as int,
            );
            lemma_iteration_position_decode(
                X_SIZE as int,
                Y_SIZE as int,
                Z_SIZE as int,
                self.x as int,
                self.y as int,
                self.z as int,
            );
        }
        let out = self.volume.at([self.x, self.y, self.z]);
        if self.x + 1 >= X_SIZE {
            self.x = 0;
            if self.y + 1 >= Y_SIZE {
                self.y = 0;
                self.z = self.z + 1;
            } else {
                self.y = self.y + 1;
            }
        } else {
            self.x = self.x + 1;
        }
        Some(out)
    }

    /// The number of cells in the volume, as both bounds.
    pub fn size_hint(&self) -> (r: (usize, Option<usize>))
        requires
            X_SIZE as int * Y_SIZE as int <= usize::MAX,
            Volume::<T, X_SIZE, Y_SIZE, Z_SIZE>::size() <= usize::MAX,
        ensures
            r.0 == Volume::<T, X_SIZE, Y_SIZE, Z_SIZE>::size(),
            r.1 == Some(r.0),
    {
        let n = Volume::<T, X_SIZE, Y_SIZE, Z_SIZE>::capacity();
        (n, Some(n))
    }
}

/// Counting law of iteration: an iterator has handed out between none and all of the
/// volume's cells, and it is exhausted exactly when it has handed out all of them. With
/// `new` starting at position 0 and each `next` that yields a cell advancing the position by
/// one, an iterator yields exactly as many cells as `capacity()` gives.
pub proof fn lemma_iteration_count<'a, T, const X_SIZE: usize, const Y_SIZE: usize, const Z_SIZE: usize>(
    it: VolumeIterator<'a, T, X_SIZE, Y_SIZE, Z_SIZE>,
)
    requires
        it.wf(),
        X_SIZE > 0,
        Y_SIZE > 0,
    ensures
        0 <= it.position() <= Volume::<T, X_SIZE, Y_SIZE, Z_SIZE>::size(),
        it.exhausted() == (it.position() == Volume::<T, X_SIZE, Y_SIZE, Z_SIZE>::size()),
{
    let (x, y, z) = it.cursor();
    assert(0 <= y * (X_SIZE as int)) by (nonlinear_arith)
        requires
            0 <= y,
    ;
    assert(0 <= z * ((X_SIZE as int) * (Y_SIZE as int))) by (nonlinear_arith)
        requires
            0 <= z,
    ;
    assert(Z_SIZE as int * (X_SIZE as int * Y_SIZE as int) == Volume::<
        T,
        X_SIZE,
        Y_SIZE,
        Z_SIZE,
    >::size()) by (nonlinear_arith);
    if it.exhausted() {
        assert(it.position() == Z_SIZE as int * (X_SIZE as int * Y_SIZE as int));
    } else {
        lemma_iteration_position_decode(X_SIZE as int, Y_SIZE as int, Z_SIZE as int, x, y, z);
    }
}

/// Iterator over the indices `[x, y, z]` of a volume's cells, x fastest, then y, then z.
pub struct VolumeIdxIterator<const X_SIZE: usize, const Y_SIZE: usize, const Z_SIZE: usize> {
    x: usize,
    y: usize,
    z: usize,
}

impl<const X_SIZE: usize, const Y_SIZE: usize, const Z_SIZE: usize> VolumeIdxIterator<
    X_SIZE,
    Y_SIZE,
    Z_SIZE,
> {
    /// The index the iterator hands out next.
    pub closed spec fn cursor(&self) -> (int, int, int) {
        (self.x as int, self.y as int, self.z as int)
    }

    /// How many indices the iterator has handed out.
    pub open spec fn position(&self) -> int {
        iteration_position(
            X_SIZE as int,
            Y_SIZE as int,
            self.cursor().0,
            self.cursor().1,
            self.cursor().2,
        )
    }

    /// Whether the iterator has handed out every index.
    pub open spec fn exhausted(&self) -> bool {
        self.cursor().2 >= Z_SIZE
    }

    /// The iterator's invariant (an extent of zero along x or y counts as one there).
    pub open spec fn wf(&self) -> bool {
        &&& 0 <= self.cursor().2 <= Z_SIZE
        &&& 0 <= self.cursor().0
        &&& 0 <= self.cursor().1
        &&& !self.exhausted() ==> (self.cursor().0 < X_SIZE || self.cursor().0 == 0) && (
        self.cursor().1 < Y_SIZE || self.cursor().1 == 0)
        &&& self.exhausted() ==> self.cursor().0 == 0 && self.cursor().1 == 0
    }

    /// An iterator that starts at index `[0, 0, 0]`.
    pub fn new() -> (r: Self)
        ensures
            r.cursor() == (0int, 0int, 0int),
            r.position() == 0,
            r.wf(),
    {
        VolumeIdxIterator { x: 0, y: 0, z: 0 }
    }

    /// The next index, or `None` once every index has been handed out. (With no extent along
    /// x or y, each layer yields the single index `[0, 0, z]`.)
    pub fn next(&mut self) -> (r: Option<[usize; 3]>)
        requires
            old(self).wf(),
        ensures
            final(self).wf(),
            old(self).exhausted() ==> r is None && *final(self) == *old(self),
            !old(self).exhausted() ==> {
                &&& r matches Some(v) && v@ == seq![
                    old(self).cursor().0 as usize,
                    old(self).cursor().1 as usize,
                    old(self).cursor().2 as usize,
                ]
                &&& final(self).cursor() == step_cursor(
                    X_SIZE as int,
                    Y_SIZE as int,
                    old(self).cursor().0,
                    old(self).cursor().1,
                    old(self).cursor().2,
                )
            },
            !old(self).exhausted() && X_SIZE > 0 && Y_SIZE > 0 ==> {
                &&& old(self).cursor().0 == old(self).position() % (X_SIZE as int)
                &&& old(self).cursor().1 == (old(self).position() / (X_SIZE as int)) % (
                Y_SIZE as int)
                &&& old(self).cursor().2 == old(self).position() / ((X_SIZE as int) * (
                Y_SIZE as int))
                &&& final(self).cursor() == step_cursor(
                    X_SIZE as int,
                    Y_SIZE as int,
                    old(self).cursor().0,
                    old(self).cursor().1,
                    old(self).cursor().2,
                )
                &&& final(self).position() == old(self).position() + 1
            },
    {
        if self.z >= Z_SIZE {
            return None;
        }
        if X_SIZE > 0 && Y_SIZE > 0 {
            proof {
                lemma_step_cursor(
                    X_SIZE as int,
                    Y_SIZE as int,
                    self.x as int,
                    self.y as int,
                    self.z as int,
                );
                lemma_iteration_position_decode(
                    X_SIZE as int,
                    Y_SIZE as int,
                    Z_SIZE as int,
                    self.x as int,
                    self.y as int,
                    self.z as int,
                );
            }
        }
        let out = [self.x, self.y, self.z];
        if self.x + 1 >= X_SIZE {
            self.x = 0;
            if self.y + 1 >= Y_SIZE {
                self.y = 0;
                self.z = self.z + 1;
            } else {
                self.y = self.y + 1;
            }
        } else {
            self.x = self.x + 1;
        }
        assert(out@ =~= seq![self.x, self.y, self.z].update(0, out[0]).update(1, out[1]).update(2, out[2]));
        Some(out)
    }

    /// The number of cells of the volume, as both bounds.
    pub fn size_hint(&self) -> (r: (usize, Option<usize>))
        requires
            X_SIZE as int * Y_SIZE as int <= usize::MAX,
            X_SIZE as int * Y_SIZE as int * Z_SIZE as int <= usize::MAX,
        ensures
            r.0 == X_SIZE as int * Y_SIZE as int * Z_SIZE as int,
            r.1 == Some(r.0),
    {
        let n = X_SIZE * Y_SIZE * Z_SIZE;
        (n, Some(n))
    }
}

/// Counting law of index iteration: the index iterator has handed out between none and all of
/// the `X_SIZE * Y_SIZE * Z_SIZE` indices, and it is exhausted exactly when it has handed out
/// all of them (for volumes with an extent along x and y).
pub proof fn lemma_index_iteration_count<const X_SIZE: usize, const Y_SIZE: usize, const Z_SIZE: usize>(
    it: VolumeIdxIterator<X_SIZE, Y_SIZE, Z_SIZE>,
)
    requires
        it.wf(),
        X_SIZE > 0,
        Y_SIZE > 0,
    ensures
        0 <= it.position() <= X_SIZE as int * Y_SIZE as int * Z_SIZE as int,
        it.exhausted() == (it.position() == X_SIZE as int * Y_SIZE as int * Z_SIZE as int),
{
    let (x, y, z) = it.cursor();
    assert(0 <= y * (X_SIZE as int)) by (nonlinear_arith)
        requires
            0 <= y,
    ;
    assert(0 <= z * ((X_SIZE as int) * (Y_SIZE as int))) by (nonlinear_arith)
        requires
            0 <= z,
    ;
    assert(Z_SIZE as int * (X_SIZE as int * Y_SIZE as int) == X_SIZE as int * Y_SIZE as int
        * Z_SIZE as int) by (nonlinear_arith);
    if it.exhausted() {
        assert(it.position() == Z_SIZE as int * (X_SIZE as int * Y_SIZE as int));
    } else {
        lemma_iteration_position_decode(X_SIZE as int, Y_SIZE as int, Z_SIZE as int, x, y, z);
    }
}

impl<const X_SIZE: usize, const Y_SIZE: usize, const Z_SIZE: usize> Default for VolumeIdxIterator<
    X_SIZE,
    Y_SIZE,
    Z_SIZE,
> {
    /// An iterator that starts at index `[0, 0, 0]`.
    fn default() -> (r: Self)
        ensures
            r.cursor() == (0int, 0int, 0int),
            r.wf(),
    {
        Self::new()
    }
}

impl<T, const X_SIZE: usize, const Y_SIZE: usize, const Z_SIZE: usize> Volume<
    T,
    X_SIZE,
    Y_SIZE,
    Z_SIZE,
> {
    /// An iterator over references to this volume's cells.
    pub fn iter(&self) -> (r: VolumeIterator<'_, T, X_SIZE, Y_SIZE, Z_SIZE>)
        requires
            self.wf(),
        ensures
            r.source() == *self,
            r.position() == 0,
            r.wf(),
    {
        VolumeIterator::new(self)
    }

    /// An iterator over this volume's indices.
    pub fn iter_indices(&self) -> (r: VolumeIdxIterator<X_SIZE, Y_SIZE, Z_SIZE>)
        ensures
            r.position() == 0,
            r.wf(),
    {
        VolumeIdxIterator::new()
    }
}

/// Why two volumes cannot be stitched into the requested result.
#[derive(Debug, Clone, Copy, PartialEq, Eq, Structural)]
pub enum StitchError {
    /// The faces that would touch along the axis have different dimensions.
    MismatchedFaces,
    /// The result volume does not hold as many cells as the two volumes together.
    MismatchedCapacity,
}

/// Whether the faces of an `l`-sized and an `r`-sized volume that touch along `axis` agree.
pub open spec fn faces_match(axis: Axis, l: (int, int, int), r: (int, int, int)) -> bool {
    match axis {
        Axis::X => l.1 == r.1 && l.2 == r.2,
        Axis::Y => l.0 == r.0 && l.2 == r.2,
        Axis::Z => l.0 == r.0 && l.1 == r.1,
    }
}

/// The dimensions of the volume made by stacking an `r`-sized volume after an `l`-sized one
/// along `axis`.
pub open spec fn stitched_dims(axis: Axis, l: (int, int, int), r: (int, int, int)) -> (
    int,
    int,
    int,
) {
    match axis {
        Axis::X => (l.0 + r.0, l.1, l.2),
        Axis::Y => (l.0, l.1 + r.1, l.2),
        Axis::Z => (l.0, l.1, l.2 + r.2),
    }
}

/// Product of three dimensions.
pub open spec fn volume_of(d: (int, int, int)) -> int {
    d.0 * d.1 * d.2
}

/// The machine-integer computations of [`stitch`] on these dimensions do not overflow.
pub open spec fn stitch_arith_fits(
    axis: Axis,
    l: (int, int, int),
    r: (int, int, int),
    out: (int, int, int),
) -> bool {
    &&& out.0 * out.1 <= usize::MAX
    &&& volume_of(out) <= usize::MAX
    &&& faces_match(axis, l, r) ==> {
        let s = stitched_dims(axis, l, r);
        &&& s.0 <= usize::MAX
        &&& s.1 <= usize::MAX
        &&& s.2 <= usize::MAX
        &&& s.0 * s.1 <= usize::MAX
        &&& volume_of(s) <= usize::MAX
    }
}

/// The value at `(x, y, z)` of `lhs` and `rhs` stitched along `axis`: `lhs` sits at the origin
/// and `rhs` right after it along the axis.
pub open spec fn stitched_cell<
    T,
    const LX: usize,
    const LY: usize,
    const LZ: usize,
    const RX: usize,
    const RY: usize,
    const RZ: usize,
>(lhs: Volume<T, LX, LY, LZ>, rhs: Volume<T, RX, RY, RZ>, axis: Axis, x: int, y: int, z: int) -> T {
    match axis {
        Axis::X => if x < LX {
            lhs.cell(x, y, z)
        } else {
            rhs.cell(x - LX, y, z)
        },
        Axis::Y => if y < LY {
            lhs.cell(x, y, z)
        } else {
            rhs.cell(x, y - LY, z)
        },
        Axis::Z => if z < LZ {
            lhs.cell(x, y, z)
        } else {
            rhs.cell(x, y, z - LZ)
        },
    }
}

/// Whether `v` is exactly the stitching of `lhs` and `rhs` along `axis`.
pub open spec fn is_stitching<
    T,
    const LX: usize,
    const LY: usize,
    const LZ: usize,
    const RX: usize,
    const RY: usize,
    const RZ: usize,
    const OX: usize,
    const OY: usize,
    const OZ: usize,
>(
    lhs: Volume<T, LX, LY, LZ>,
    rhs: Volume<T, RX, RY, RZ>,
    axis: Axis,
    v: Volume<T, OX, OY, OZ>,
) -> bool {
    &&& v.wf()
    &&& forall|x: int, y: int, z: int|
        Volume::<T, OX, OY, OZ>::in_bounds(x, y, z) ==> #[trigger] v.cell(x, y, z)
            == stitched_cell(lhs, rhs, axis, x, y, z)
}

/// What [`stitch`] returns: an error when the faces or the capacities disagree, else the
/// volume whose cells are those of `lhs` followed by those of `rhs`.
pub open spec fn stitch_spec<
    T,
    const LX: usize,
    const LY: usize,
    const LZ: usize,
    const RX: usize,
    const RY: usize,
    const RZ: usize,
    const OX: usize,
    const OY: usize,
    const OZ: usize,
>(
    lhs: Volume<T, LX, LY, LZ>,
    rhs: Volume<T, RX, RY, RZ>,
    axis: Axis,
    r: Result<Volume<T, OX, OY, OZ>, StitchError>,
) -> bool {
    if !faces_match(axis, (LX as int, LY as int, LZ as int), (RX as int, RY as int, RZ as int)) {
        r == Err::<Volume<T, OX, OY, OZ>, StitchError>(StitchError::MismatchedFaces)
    } else if volume_of((OX as int, OY as int, OZ as int)) != volume_of(
        stitched_dims(axis, (LX as int, LY as int, LZ as int), (RX as int, RY as int, RZ as int)),
    ) {
        r == Err::<Volume<T, OX, OY, OZ>, StitchError>(StitchError::MismatchedCapacity)
    } else {
        r matches Ok(v) && is_stitching(lhs, rhs, axis, v)
    }
}

/// Stitch 2 volumes together along an axis.
///
/// Think of volumes like boxes: stitching stacks `rhs` on top of `lhs` along `axis`, so the
/// faces that touch must have the same dimensions ([`StitchError::MismatchedFaces`] otherwise),
/// and the result must hold as many cells as the two volumes together
/// ([`StitchError::MismatchedCapacity`] otherwise).
pub fn stitch<
    T: Copy,
    const LX: usize,
    const LY: usize,
    const LZ: usize,
    const RX: usize,
    const RY: usize,
    const RZ: usize,
    const OX: usize,
    const OY: usize,
    const OZ: usize,
>(lhs: &Volume<T, LX, LY, LZ>, rhs: &Volume<T, RX, RY, RZ>, axis: Axis) -> (r: Result<
    Volume<T, OX, OY, OZ>,
    StitchError,
>)
    requires
        lhs.wf(),
        rhs.wf(),
        stitch_arith_fits(
            axis,
            (LX as int, LY as int, LZ as int),
            (RX as int, RY as int, RZ as int),
            (OX as int, OY as int, OZ as int),
        ),
        faces_match(axis, (LX as int, LY as int, LZ as int), (RX as int, RY as int, RZ as int))
            && volume_of((OX as int, OY as int, OZ as int)) == volume_of(
            stitched_dims(
                axis,
                (LX as int, LY as int, LZ as int),
                (RX as int, RY as int, RZ as int),
            ),
        ) ==> {
            &&& (OX as int, OY as int, OZ as int) == stitched_dims(
                axis,
                (LX as int, LY as int, LZ as int),
                (RX as int, RY as int, RZ as int),
            )
            &&& LX > 0 && LY > 0 && LZ > 0
        },
    ensures
        stitch_spec(*lhs, *rhs, axis, r),
{
    let required_capacity = OX * OY * OZ;
    let actual_capacity = match axis {
        Axis::X => {
            if LY != RY || LZ != RZ {
                return Err(StitchError::MismatchedFaces);
            }
            (LX + RX) * LY * LZ
        },
        Axis::Y => {
            if LX != RX || LZ != RZ {
                return Err(StitchError::MismatchedFaces);
            }
            LX * (LY + RY) * LZ
        },
        Axis::Z => {
            if LX != RX || LY != RY {
                return Err(StitchError::MismatchedFaces);
            }
            LX * LY * (LZ + RZ)
        },
    };
    if required_capacity != actual_capacity {
        return Err(StitchError::MismatchedCapacity);
    }
    Ok(stitch_fill(lhs, rhs, axis))
}

/// Builds the stitched volume once the dimensions are known to agree.
fn stitch_fill<
    T: Copy,
    const LX: usize,
    const LY: usize,
    const LZ: usize,
    const RX: usize,
    const RY: usize,
    const RZ: usize,
    const OX: usize,
    const OY: usize,
    const OZ: usize,
>(lhs: &Volume<T, LX, LY, LZ>, rhs: &Volume<T, RX, RY, RZ>, axis: Axis) -> (v: Volume<
    T,
    OX,
    OY,
    OZ,
>)
    requires
        lhs.wf(),
        rhs.wf(),
        faces_match(axis, (LX as int, LY as int, LZ as int), (RX as int, RY as int, RZ as int)),
        (OX as int, OY as int, OZ as int) == stitched_dims(
            axis,
            (LX as int, LY as int, LZ as int),
            (RX as int, RY as int, RZ as int),
        ),
    ensures
        v.wf(),
        forall|x: int, y: int, z: int|
            Volume::<T, OX, OY, OZ>::in_bounds(x, y, z) ==> #[trigger] v.cell(x, y, z)
                == stitched_cell(*lhs, *rhs, axis, x, y, z),
{
    let mut data: Vec<T> = Vec::new();
    let mut x: usize = 0;
    while x < OX
        invariant
            lhs.wf(),
            rhs.wf(),
            faces_match(axis, (LX as int, LY as int, LZ as int), (RX as int, RY as int, RZ as int)),
            (OX as int, OY as int, OZ as int) == stitched_dims(
                axis,
                (LX as int, LY as int, LZ as int),
                (RX as int, RY as int, RZ as int),
            ),
            x <= OX,
            data@.len() == Volume::<T, OX, OY, OZ>::flat(x as int, 0, 0),
            forall|a: int, b: int, c: int|
                Volume::<T, OX, OY, OZ>::in_bounds(a, b, c) && Volume::<T, OX, OY, OZ>::flat(
                    a,
                    b,
                    c,
                ) < data@.len() ==> #[trigger] data@[Volume::<T, OX, OY, OZ>::flat(a, b, c)]
                    == stitched_cell(*lhs, *rhs, axis, a, b, c),
        decreases OX - x,
    {
        let mut y: usize = 0;
        while y < OY
            invariant
                lhs.wf(),
                rhs.wf(),
                faces_match(axis, (LX as int, LY as int, LZ as int), (RX as int, RY as int, RZ as int)),
                (OX as int, OY as int, OZ as int) == stitched_dims(
                    axis,
                    (LX as int, LY as int, LZ as int),
                    (RX as int, RY as int, RZ as int),
                ),
                x < OX,
                y <= OY,
                data@.len() == Volume::<T, OX, OY, OZ>::flat(x as int, y as int, 0),
                forall|a: int, b: int, c: int|
                    Volume::<T, OX, OY, OZ>::in_bounds(a, b, c) && Volume::<T, OX, OY, OZ>::flat(
                        a,
                        b,
                        c,
                    ) < data@.len() ==> #[trigger] data@[Volume::<T, OX, OY, OZ>::flat(a, b, c)]
                        == stitched_cell(*lhs, *rhs, axis, a, b, c),
            decreases OY - y,
        {
            let mut z: usize = 0;
            while z < OZ
                invariant
                    lhs.wf(),
                    rhs.wf(),
                    faces_match(axis, (LX as int, LY as int, LZ as int), (RX as int, RY as int, RZ as int)),
                    (OX as int, OY as int, OZ as int) == stitched_dims(
                        axis,
                        (LX as int, LY as int, LZ as int),
                        (RX as int, RY as int, RZ as int),
                    ),
                    x < OX,
                    y < OY,
                    z <= OZ,
                    data@.len() == Volume::<T, OX, OY, OZ>::flat(x as int, y as int, z as int),
                    forall|a: int, b: int, c: int|
                        Volume::<T, OX, OY, OZ>::in_bounds(a, b, c) && Volume::<
                            T,
                            OX,
                            OY,
                            OZ,
                        >::flat(a, b, c) < data@.len() ==> #[trigger] data@[Volume::<
                            T,
                            OX,
                            OY,
                            OZ,
                        >::flat(a, b, c)] == stitched_cell(*lhs, *rhs, axis, a, b, c),
                decreases OZ - z,
            {
                let value = match axis {
                    Axis::X => if x < LX {
                        *lhs.at([x, y, z])
                    } else {
                        *rhs.at([x - LX, y, z])
                    },
                    Axis::Y => if y < LY {
                        *lhs.at([x, y, z])
                    } else {
                        *rhs.at([x, y - LY, z])
                    },
                    Axis::Z => if z < LZ {
                        *lhs.at([x, y, z])
                    } else {
                        *rhs.at([x, y, z - LZ])
                    },
                };
                let ghost old_data = data@;
                data.push(value);
                proof {
                    assert forall|a: int, b: int, c: int|
                        Volume::<T, OX, OY, OZ>::in_bounds(a, b, c) && Volume::<
                            T,
                            OX,
                            OY,
                            OZ,
                        >::flat(a, b, c) < data@.len() implies #[trigger] data@[Volume::<
                            T,
                            OX,
                            OY,
                            OZ,
                        >::flat(a, b, c)] == stitched_cell(*lhs, *rhs, axis, a, b, c) by {
                        if Volume::<T, OX, OY, OZ>::flat(a, b, c) == old_data.len() {
                            lemma_flat_index_injective(
                                OY as int,
                                OZ as int,
                                a,
                                b,
                                c,
                                x as int,
                                y as int,
                                z as int,
                            );
                        }
                    }
                }
                z = z + 1;
            }
            proof {
                lemma_flat_index_row(OY as int, OZ as int, x as int, y as int);
            }
            y = y + 1;
        }
        proof {
            lemma_flat_index_row(OY as int, OZ as int, x as int, y as int);
        }
        x = x + 1;
    }
    assert(Volume::<T, OX, OY, OZ>::flat(OX as int, 0, 0) == Volume::<T, OX, OY, OZ>::size())
        by (nonlinear_arith);
    let v = Volume { data };
    assert forall|a: int, b: int, c: int|
        Volume::<T, OX, OY, OZ>::in_bounds(a, b, c) implies #[trigger] v.cell(a, b, c)
            == stitched_cell(*lhs, *rhs, axis, a, b, c) by {
        v.lemma_cell_in_range(a, b, c);
    }
    v
}

impl<T: Copy, const X_SIZE: usize, const Y_SIZE: usize, const Z_SIZE: usize> Clone for Volume<
    T,
    X_SIZE,
    Y_SIZE,
    Z_SIZE,
> {
    /// A volume with the same cells.
    fn clone(&self) -> (r: Self)
        ensures
            r.cells() == self.cells(),
    {
        let mut data: Vec<T> = Vec::new();
        let mut i: usize = 0;
        while i < self.data.len()
            invariant
                i <= self.data@.len(),
                data@ == self.data@.subrange(0, i as int),
            decreases self.data@.len() - i,
        {
            data.push(self.data[i]);
            i = i + 1;
            assert(data@ =~= self.data@.subrange(0, i as int));
        }
        assert(data@ =~= self.data@);
        Volume { data }
    }
}

impl<T: Default + Copy, const X_SIZE: usize, const Y_SIZE: usize, const Z_SIZE: usize> Default for Volume<
    T,
    X_SIZE,
    Y_SIZE,
    Z_SIZE,
> {
    /// A volume holding `T::default()` in every cell.
    fn default() -> (r: Self)
        ensures
            r.wf(),
            forall|x1: int, y1: int, z1: int, x2: int, y2: int, z2: int|
                Self::in_bounds(x1, y1, z1) && Self::in_bounds(x2, y2, z2) ==> #[trigger] r.cell(
                    x1,
                    y1,
                    z1,
                ) == #[trigger] r.cell(x2, y2, z2),
            forall|x: int, y: int, z: int|
                Self::in_bounds(x, y, z) ==> call_ensures(T::default, (), #[trigger] r.cell(x, y, z)),
    {
        Self::new_default()
    }
}


impl<T: PartialEq, const X_SIZE: usize, const Y_SIZE: usize, const Z_SIZE: usize> PartialEq for Volume<
    T,
    X_SIZE,
    Y_SIZE,
    Z_SIZE,
> {
    /// Two volumes are equal when every cell of one equals the same cell of the other.
    fn eq(&self, other: &Self) -> (r: bool) {
        if self.data.len() != other.data.len() {
            return false;
        }
        let mut i: usize = 0;
        while i < self.data.len()
            invariant
                i <= self.data@.len(),
                self.data@.len() == other.data@.len(),
                T::obeys_eq_spec() ==> forall|k: int|
                    0 <= k < i ==> #[trigger] self.data@[k].eq_spec(&other.data@[k]),
            decreases self.data@.len() - i,
        {
            if !(self.data[i] == other.data[i]) {
                return false;
            }
            i = i + 1;
        }
        true
    }
}

impl<T: PartialEq, const X_SIZE: usize, const Y_SIZE: usize, const Z_SIZE: usize> vstd::std_specs::cmp::PartialEqSpecImpl for Volume<
    T,
    X_SIZE,
    Y_SIZE,
    Z_SIZE,
> {
    open spec fn obeys_eq_spec() -> bool {
        T::obeys_eq_spec()
    }

    open spec fn eq_spec(&self, other: &Self) -> bool {
        &&& self.cells().len() == other.cells().len()
        &&& forall|k: int|
            0 <= k < self.cells().len() ==> #[trigger] self.cells()[k].eq_spec(&other.cells()[k])
    }
}

/// Stitching keeps both volumes whole and in their own order: when the faces match and the
/// result has the stitched dimensions, the result exists, `lhs` keeps every cell where it was,
/// and `rhs` is moved (translated, never mirrored or turned) to sit right after `lhs` along
/// the axis: its cell `(a, b, c)` lands at `(a + LX, b, c)` along X, at `(a, b + LY, c)` along
/// Y and at `(a, b, c + LZ)` along Z.
pub proof fn lemma_stitch_translates<
    T,
    const LX: usize,
    const LY: usize,
    const LZ: usize,
    const RX: usize,
    const RY: usize,
    const RZ: usize,
    const OX: usize,
    const OY: usize,
    const OZ: usize,
>(
    lhs: Volume<T, LX, LY, LZ>,
    rhs: Volume<T, RX, RY, RZ>,
    axis: Axis,
    r: Result<Volume<T, OX, OY, OZ>, StitchError>,
)
    requires
        faces_match(axis, (LX as int, LY as int, LZ as int), (RX as int, RY as int, RZ as int)),
        (OX as int, OY as int, OZ as int) == stitched_dims(
            axis,
            (LX as int, LY as int, LZ as int),
            (RX as int, RY as int, RZ as int),
        ),
        stitch_spec(lhs, rhs, axis, r),
    ensures
        r is Ok,
        forall|a: int, b: int, c: int|
            Volume::<T, LX, LY, LZ>::in_bounds(a, b, c) ==> r->Ok_0.cell(a, b, c)
                == #[trigger] lhs.cell(a, b, c),
        forall|a: int, b: int, c: int|
            Volume::<T, RX, RY, RZ>::in_bounds(a, b, c) ==> match axis {
                Axis::X => r->Ok_0.cell(a + LX, b, c),
                Axis::Y => r->Ok_0.cell(a, b + LY, c),
                Axis::Z => r->Ok_0.cell(a, b, c + LZ),
            } == #[trigger] rhs.cell(a, b, c),
{
    let v = r->Ok_0;
    assert forall|a: int, b: int, c: int|
        Volume::<T, LX, LY, LZ>::in_bounds(a, b, c) implies v.cell(a, b, c)
            == #[trigger] lhs.cell(a, b, c) by {
        assert(Volume::<T, OX, OY, OZ>::in_bounds(a, b, c));
    }
    assert forall|a: int, b: int, c: int|
        Volume::<T, RX, RY, RZ>::in_bounds(a, b, c) implies match axis {
            Axis::X => v.cell(a + LX, b, c),
            Axis::Y => v.cell(a, b + LY, c),
            Axis::Z => v.cell(a, b, c + LZ),
        } == #[trigger] rhs.cell(a, b, c) by {
        match axis {
            Axis::X => assert(Volume::<T, OX, OY, OZ>::in_bounds(a + LX, b, c)),
            Axis::Y => assert(Volume::<T, OX, OY, OZ>::in_bounds(a, b + LY, c)),
            Axis::Z => assert(Volume::<T, OX, OY, OZ>::in_bounds(a, b, c + LZ)),
        }
    }
}

} // verus!
