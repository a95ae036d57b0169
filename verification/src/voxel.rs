//! Sparse 16x16x16 chunks of voxels, positioned or not.
use vstd::prelude::*;
use vstd::std_specs::cmp::PartialEqSpec;

use crate::bounds::BoundingBox;
use crate::chunk::fits_i64;
use crate::ids::BlockId;
use crate::index::Vec3;
use crate::section::{lemma_section_position, lemma_section_position_of, section_in_bounds, section_position};
use crate::volume::Volume;

verus! {

/// What a position of a voxel container holds.
#[derive(Copy, Clone, Debug, PartialEq, Eq, Structural)]
pub enum VoxelSlot {
    /// The position lies outside the container.
    OutOfBounds,
    /// The position lies inside the container but holds no voxel.
    Empty,
    /// The position holds this voxel.
    Occupied(BlockId),
}

impl VoxelSlot {
    /// The voxel held, if any.
    pub open spec fn voxel(self) -> Option<BlockId> {
        match self {
            VoxelSlot::Occupied(v) => Some(v),
            _ => None,
        }
    }
}

impl From<VoxelSlot> for Option<BlockId> {
    /// The voxel held, if any.
    fn from(slot: VoxelSlot) -> (r: Option<BlockId>) {
        match slot {
            VoxelSlot::Occupied(voxel) => Some(voxel),
            _ => None,
        }
    }
}

impl vstd::std_specs::convert::FromSpecImpl<VoxelSlot> for Option<BlockId> {
    open spec fn obeys_from_spec() -> bool {
        true
    }

    open spec fn from_spec(slot: VoxelSlot) -> Option<BlockId> {
        slot.voxel()
    }
}

/// Why voxel data could not be rebuilt from its serialized elements.
#[derive(Debug, Clone, Copy, PartialEq, Eq, Structural)]
pub enum VoxelDecodeError {
    /// The voxel sequence terminated prematurely.
    VoxelsTerminatedPrematurely,
    /// The sequence was too long.
    SequenceTooLong,
    /// The key of the position entry was not 0.
    PositionKeyMismatch,
    /// The key of the storage entry was not 1.
    StorageKeyMismatch,
    /// The positioned chunk data was malformed (an entry was missing).
    MalformedPositionedChunk,
}

/// Key of the position entry of a serialized positioned chunk.
pub const POSITION_KEY: u8 = 0;

/// Key of the storage entry of a serialized positioned chunk.
pub const STORAGE_KEY: u8 = 1;

/// Whether a chunk knows its position.
pub trait PositionStatus {
    /// The position of the chunk, in chunk units (`[0, 0, 0]` if it has none).
    spec fn position_spec(&self) -> Vec3;

    /// The position of the chunk, in chunk units (`[0, 0, 0]` if it has none).
    fn position(&self) -> (r: Vec3)
        ensures
            r == self.position_spec(),
    ;
}

/// The position of a positioned chunk, in chunk units.
#[derive(Copy, Clone, Debug, PartialEq, Eq, Structural)]
pub struct Positioned(pub Vec3);

impl PositionStatus for Positioned {
    open spec fn position_spec(&self) -> Vec3 {
        self.0
    }

    fn position(&self) -> (r: Vec3) {
        self.0
    }
}

/// Marker of a chunk without a position.
#[derive(Copy, Clone, Debug, PartialEq, Eq, Structural)]
pub struct Unpositioned;

impl PositionStatus for Unpositioned {
    open spec fn position_spec(&self) -> Vec3 {
        Vec3 { x: 0, y: 0, z: 0 }
    }

    fn position(&self) -> (r: Vec3) {
        Vec3 { x: 0, y: 0, z: 0 }
    }
}

/// The voxels of a chunk: one slot per position of a 16x16x16 cube, empty or holding a block.
pub type ChunkStorage = Volume<Option<BlockId>, 16, 16, 16>;

impl Volume<Option<BlockId>, 16, 16, 16> {
    /// Storage with every slot empty.
    pub fn empty() -> (r: ChunkStorage)
        ensures
            r.wf(),
            forall|x: int, y: int, z: int|
                section_in_bounds(x, y, z) ==> #[trigger] r.cell(x, y, z) is None,
    {
        Volume::new_filled(None)
    }
}

/// A 16x16x16 cube of voxels (each position empty or holding a block).
#[derive(Debug)]
pub struct Chunk<P: PositionStatus> {
    storage: ChunkStorage,
    pos: P,
}

impl<P: PositionStatus> Chunk<P> {
    /// The edge length of a chunk.
    pub const SIZE: i64 = 16;

    /// The chunk's position marker.
    pub closed spec fn pos_status(&self) -> P {
        self.pos
    }

    /// The voxel at the localspace position `(x, y, z)`.
    pub closed spec fn voxel(&self, x: int, y: int, z: int) -> Option<BlockId> {
        self.storage.cell(x, y, z)
    }

    /// Whether the storages of the two chunks are equal cell by cell (as their cell type
    /// compares values).
    pub closed spec fn same_storage<Q: PositionStatus>(&self, other: &Chunk<Q>) -> bool {
        self.storage.eq_spec(&other.storage)
    }

    /// Well-formedness: the chunk stores one slot per position.
    pub closed spec fn wf(&self) -> bool {
        self.storage.wf()
    }

    /// All voxels of the chunk, in voxel-sequence order (x fastest, then y, then z).
    pub open spec fn voxels(&self) -> Seq<Option<BlockId>> {
        Seq::new(4096, |i: int| self.voxel(i % 16, (i / 16) % 16, i / 256))
    }

    /// The worldspace position of the chunk's lowest corner.
    pub open spec fn origin(&self) -> (int, int, int) {
        (
            16 * self.pos_status().position_spec().x,
            16 * self.pos_status().position_spec().y,
            16 * self.pos_status().position_spec().z,
        )
    }

    /// Whether the arithmetic that locates `idx` relative to this chunk fits in `i64`.
    pub open spec fn locates(&self, idx: Vec3) -> bool {
        &&& fits_i64(self.origin().0)
        &&& fits_i64(self.origin().1)
        &&& fits_i64(self.origin().2)
        &&& fits_i64(self.origin().0 + 16)
        &&& fits_i64(self.origin().1 + 16)
        &&& fits_i64(self.origin().2 + 16)
        &&& fits_i64(idx.x - self.origin().0)
        &&& fits_i64(idx.y - self.origin().1)
        &&& fits_i64(idx.z - self.origin().2)
    }

    /// What is at the worldspace position `idx`.
    pub open spec fn slot(&self, idx: Vec3) -> VoxelSlot {
        let (x, y, z) = (
            idx.x - self.origin().0,
            idx.y - self.origin().1,
            idx.z - self.origin().2,
        );
        if section_in_bounds(x, y, z) {
            match self.voxel(x, y, z) {
                Some(v) => VoxelSlot::Occupied(v),
                None => VoxelSlot::Empty,
            }
        } else {
            VoxelSlot::OutOfBounds
        }
    }

    fn offset(&self, idx: Vec3) -> (r: (i64, i64, i64))
        requires
            self.locates(idx),
        ensures
            r.0 == idx.x - self.origin().0,
            r.1 == idx.y - self.origin().1,
            r.2 == idx.z - self.origin().2,
    {
        let p = self.pos.position();
        (idx.x - p.x * 16, idx.y - p.y * 16, idx.z - p.z * 16)
    }

    /// Whether `after` is `before` once `item` has been stored at the worldspace position `idx`
    /// with the outcome `r`: `r` tells whether `idx` lies in the chunk, the voxel at `idx`'s
    /// offset from the origin holds `item` if it does, and every other voxel (and the position)
    /// is unchanged.
    pub open spec fn stored(before: Self, after: Self, idx: Vec3, item: BlockId, r: bool) -> bool {
        &&& after.pos_status() == before.pos_status()
        &&& r == (before.slot(idx) != VoxelSlot::OutOfBounds)
        &&& forall|x: int, y: int, z: int|
            section_in_bounds(x, y, z) ==> #[trigger] after.voxel(x, y, z) == if r && x == idx.x
                - before.origin().0 && y == idx.y - before.origin().1 && z == idx.z
                - before.origin().2 {
                Some(item)
            } else {
                before.voxel(x, y, z)
            }
    }

    /// Stores `item` at the worldspace position `idx`; returns whether `idx` lies in the chunk
    /// (nothing is stored otherwise).
    pub fn set(&mut self, idx: Vec3, item: BlockId) -> (r: bool)
        requires
            old(self).wf(),
            old(self).locates(idx),
        ensures
            final(self).wf(),
            Self::stored(*old(self), *final(self), idx, item, r),
    {
        let (x, y, z) = self.offset(idx);
        if 0 <= x && x < 16 && 0 <= y && y < 16 && 0 <= z && z < 16 {
            self.storage.set([x as usize, y as usize, z as usize], Some(item));
            true
        } else {
            false
        }
    }

    /// What is at the worldspace position `idx`.
    pub fn get(&self, idx: Vec3) -> (r: VoxelSlot)
        requires
            self.wf(),
            self.locates(idx),
        ensures
            r == self.slot(idx),
    {
        let (x, y, z) = self.offset(idx);
        match self.storage.get([x, y, z]) {
            Some(block) => match block {
                Some(voxel) => VoxelSlot::Occupied(*voxel),
                None => VoxelSlot::Empty,
            },
            None => VoxelSlot::OutOfBounds,
        }
    }

    /// The chunk's bounds: the 16x16x16 box at its origin.
    pub fn bounding_box(&self) -> (r: BoundingBox)
        requires
            self.locates(Vec3 { x: 0, y: 0, z: 0 }),
        ensures
            r.lo() == (Vec3 {
                x: self.origin().0 as i64,
                y: self.origin().1 as i64,
                z: self.origin().2 as i64,
            }),
            r.hi() == (Vec3 {
                x: (self.origin().0 + 16) as i64,
                y: (self.origin().1 + 16) as i64,
                z: (self.origin().2 + 16) as i64,
            }),
    {
        let p = self.pos.position();
        let lo = Vec3 { x: p.x * 16, y: p.y * 16, z: p.z * 16 };
        BoundingBox::new(lo, Vec3 { x: lo.x + 16, y: lo.y + 16, z: lo.z + 16 })
    }

    /// The voxel at the position `i` of the voxel sequence.
    fn voxel_at_position(&self, i: usize) -> (r: Option<BlockId>)
        requires
            self.wf(),
            i < 4096,
        ensures
            r == self.voxels()[i as int],
    {
        proof {
            lemma_section_position_of(i as int);
        }
        *self.storage.at([i % 16, (i / 16) % 16, i / 256])
    }

    /// The chunk's voxels in serialized order (x fastest, then y, then z).
    pub fn voxel_sequence(&self) -> (r: Vec<Option<BlockId>>)
        requires
            self.wf(),
        ensures
            r@ == self.voxels(),
    {
        let mut out: Vec<Option<BlockId>> = Vec::new();
        let mut i: usize = 0;
        while i < 4096
            invariant
                self.wf(),
                i <= 4096,
                out@ == self.voxels().subrange(0, i as int),
            decreases 4096 - i,
        {
            out.push(self.voxel_at_position(i));
            i = i + 1;
            assert(out@ =~= self.voxels().subrange(0, i as int));
        }
        assert(out@ =~= self.voxels());
        out
    }

    /// Storage holding exactly `voxels` (4096 of them, in voxel-sequence order).
    fn storage_from(voxels: &Vec<Option<BlockId>>) -> (r: Volume<Option<BlockId>, 16, 16, 16>)
        requires
            voxels@.len() == 4096,
        ensures
            r.wf(),
            forall|x: int, y: int, z: int|
                section_in_bounds(x, y, z) ==> #[trigger] r.cell(x, y, z) == voxels@[section_position(
                    x,
                    y,
                    z,
                )],
    {
        let mut storage = Volume::<Option<BlockId>, 16, 16, 16>::new_filled(None);
        let mut i: usize = 0;
        while i < 4096
            invariant
                i <= 4096,
                voxels@.len() == 4096,
                storage.wf(),
                forall|a: int, b: int, c: int|
                    section_in_bounds(a, b, c) ==> #[trigger] storage.cell(a, b, c) == if section_position(
                        a,
                        b,
                        c,
                    ) < i {
                        voxels@[section_position(a, b, c)]
                    } else {
                        None
                    },
            decreases 4096 - i,
        {
            let x = i % 16;
            let y = (i / 16) % 16;
            let z = i / 256;
            proof {
                lemma_section_position_of(i as int);
                assert forall|a: int, b: int, c: int|
                    section_in_bounds(a, b, c) && section_position(a, b, c) == i implies a == x
                        && b == y && c == z by {
                    lemma_section_position(a, b, c);
                }
            }
            storage.set([x, y, z], voxels[i]);
            i = i + 1;
        }
        storage
    }
}

/// Whether `r` is what rebuilding voxel storage from the serialized `voxels` gives: an error
/// unless there are exactly 4096 of them, else a chunk holding them.
pub open spec fn storage_decodes_to<P: PositionStatus>(
    voxels: Seq<Option<BlockId>>,
    r: Result<Chunk<P>, VoxelDecodeError>,
) -> bool {
    if voxels.len() < 4096 {
        r == Err::<Chunk<P>, VoxelDecodeError>(VoxelDecodeError::VoxelsTerminatedPrematurely)
    } else if voxels.len() > 4096 {
        r == Err::<Chunk<P>, VoxelDecodeError>(VoxelDecodeError::SequenceTooLong)
    } else {
        r matches Ok(c) && c.wf() && c.voxels() == voxels
    }
}

impl Chunk<Unpositioned> {
    /// An empty chunk without a position.
    pub fn new() -> (r: Self)
        ensures
            r.wf(),
            forall|x: int, y: int, z: int|
                section_in_bounds(x, y, z) ==> #[trigger] r.voxel(x, y, z) is None,
    {
        Chunk { storage: ChunkStorage::empty(), pos: Unpositioned }
    }

    /// The same voxels, placed at `position` (in chunk units).
    pub fn to_positioned(self, position: Vec3) -> (r: Chunk<Positioned>)
        ensures
            r.pos_status() == Positioned(position),
            r.wf() == self.wf(),
            forall|x: int, y: int, z: int| #[trigger] r.voxel(x, y, z) == self.voxel(x, y, z),
    {
        Chunk { storage: self.storage, pos: Positioned(position) }
    }

    /// Rebuilds a chunk from its serialized voxels (exactly 4096, in voxel-sequence order).
    pub fn from_voxel_sequence(voxels: &Vec<Option<BlockId>>) -> (r: Result<
        Chunk<Unpositioned>,
        VoxelDecodeError,
    >)
        ensures
            storage_decodes_to(voxels@, r),
    {
        if voxels.len() < 4096 {
            return Err(VoxelDecodeError::VoxelsTerminatedPrematurely);
        }
        if voxels.len() > 4096 {
            return Err(VoxelDecodeError::SequenceTooLong);
        }
        let c = Chunk { storage: Self::storage_from(voxels), pos: Unpositioned };
        assert forall|k: int| 0 <= k < 4096 implies #[trigger] c.voxels()[k] == voxels@[k] by {
            lemma_section_position_of(k);
        }
        assert(c.voxels() =~= voxels@);
        Ok(c)
    }
}

impl Chunk<Positioned> {
    /// An empty chunk at `pos` (in chunk units).
    pub fn new(pos: Vec3) -> (r: Self)
        ensures
            r.wf(),
            r.pos_status() == Positioned(pos),
            forall|x: int, y: int, z: int|
                section_in_bounds(x, y, z) ==> #[trigger] r.voxel(x, y, z) is None,
    {
        Chunk { storage: ChunkStorage::empty(), pos: Positioned(pos) }
    }

    /// The same voxels, without a position.
    pub fn to_unpositioned(self) -> (r: Chunk<Unpositioned>)
        ensures
            r.wf() == self.wf(),
            forall|x: int, y: int, z: int| #[trigger] r.voxel(x, y, z) == self.voxel(x, y, z),
    {
        Chunk { storage: self.storage, pos: Unpositioned }
    }

    /// The chunk's position, in chunk units.
    pub fn pos(&self) -> (r: Vec3)
        ensures
            Positioned(r) == self.pos_status(),
    {
        self.pos.0
    }

    /// Rebuilds a positioned chunk from its serialized entries: the position entry (which
    /// must have key [`POSITION_KEY`]) and the storage entry (which must have key
    /// [`STORAGE_KEY`]).
    pub fn from_entries(
        position: Option<(u8, Vec3)>,
        storage: Option<(u8, Chunk<Unpositioned>)>,
    ) -> (r: Result<Chunk<Positioned>, VoxelDecodeError>)
        ensures
            match position {
                None => r == Err::<Chunk<Positioned>, VoxelDecodeError>(
                    VoxelDecodeError::MalformedPositionedChunk,
                ),
                Some((pk, p)) => if pk != POSITION_KEY {
                    r == Err::<Chunk<Positioned>, VoxelDecodeError>(
                        VoxelDecodeError::PositionKeyMismatch,
                    )
                } else {
                    match storage {
                        None => r == Err::<Chunk<Positioned>, VoxelDecodeError>(
                            VoxelDecodeError::MalformedPositionedChunk,
                        ),
                        Some((sk, s)) => if sk != STORAGE_KEY {
                            r == Err::<Chunk<Positioned>, VoxelDecodeError>(
                                VoxelDecodeError::StorageKeyMismatch,
                            )
                        } else {
                            r matches Ok(c) && c.pos_status() == Positioned(p) && c.wf()
                                == s.wf() && forall|x: int, y: int, z: int| #[trigger] c.voxel(
                                    x,
                                    y,
                                    z,
                                ) == s.voxel(x, y, z)
                        },
                    }
                },
            },
    {
        match position {
            None => Err(VoxelDecodeError::MalformedPositionedChunk),
            Some((key, p)) => {
                if key != POSITION_KEY {
                    return Err(VoxelDecodeError::PositionKeyMismatch);
                }
                match storage {
                    None => Err(VoxelDecodeError::MalformedPositionedChunk),
                    Some((key, s)) => {
                        if key != STORAGE_KEY {
                            return Err(VoxelDecodeError::StorageKeyMismatch);
                        }
                        Ok(s.to_positioned(p))
                    },
                }
            },
        }
    }
}

/// Whether comparing chunk storages with `==` follows their specification.
pub open spec fn storage_obeys_eq() -> bool {
    <Volume<Option<BlockId>, 16, 16, 16> as PartialEqSpec>::obeys_eq_spec()
}

impl PartialEq for Chunk<Unpositioned> {
    /// Two chunks are equal when their storages hold equal voxels, cell by cell.
    fn eq(&self, other: &Self) -> (r: bool) {
        self.storage == other.storage
    }
}

impl vstd::std_specs::cmp::PartialEqSpecImpl for Chunk<Unpositioned> {
    open spec fn obeys_eq_spec() -> bool {
        storage_obeys_eq()
    }

    open spec fn eq_spec(&self, other: &Self) -> bool {
        self.same_storage(other)
    }
}

impl PartialEq for Chunk<Positioned> {
    /// Two positioned chunks are equal when they have the same position and their storages
    /// hold equal voxels, cell by cell.
    fn eq(&self, other: &Self) -> (r: bool) {
        self.pos.0 == other.pos.0 && self.storage == other.storage
    }
}

impl vstd::std_specs::cmp::PartialEqSpecImpl for Chunk<Positioned> {
    open spec fn obeys_eq_spec() -> bool {
        storage_obeys_eq()
    }

    open spec fn eq_spec(&self, other: &Self) -> bool {
        self.pos_status() == other.pos_status() && self.same_storage(other)
    }
}

/// Serializing a chunk's voxels and rebuilding a chunk from them gives back the same voxels.
pub proof fn lemma_voxel_sequence_roundtrip(
    c: Chunk<Unpositioned>,
    r: Result<Chunk<Unpositioned>, VoxelDecodeError>,
)
    requires
        c.wf(),
        storage_decodes_to(c.voxels(), r),
    ensures
        r matches Ok(d) && d.wf() && forall|x: int, y: int, z: int|
            section_in_bounds(x, y, z) ==> #[trigger] d.voxel(x, y, z) == c.voxel(x, y, z),
{
    let d = r.unwrap();
    assert forall|x: int, y: int, z: int| section_in_bounds(x, y, z) implies #[trigger] d.voxel(
        x,
        y,
        z,
    ) == c.voxel(x, y, z) by {
        lemma_section_position(x, y, z);
        assert(d.voxels()[section_position(x, y, z)] == c.voxels()[section_position(x, y, z)]);
    }
}

/// Read after write on a sparse chunk: when [`Chunk::set`] turns `before` into `after` by
/// storing `item` at the worldspace position `idx` (returning `r`), then if `idx` lies in the
/// chunk (`r` is `true`) [`Chunk::get`] at `idx` gives `Occupied(item)`, and every other
/// worldspace position `q` reads in `after` as it did in `before`; if `idx` lies outside the
/// chunk, nothing reads differently.
pub proof fn lemma_chunk_read_after_set<P: PositionStatus>(
    before: Chunk<P>,
    after: Chunk<P>,
    idx: Vec3,
    item: BlockId,
    r: bool,
    q: Vec3,
)
    requires
        Chunk::stored(before, after, idx, item, r),
    ensures
        r ==> after.slot(idx) == VoxelSlot::Occupied(item),
        q != idx || !r ==> after.slot(q) == before.slot(q),
{
    let (x, y, z) = (q.x - before.origin().0, q.y - before.origin().1, q.z - before.origin().2);
    if section_in_bounds(x, y, z) {
        assert(after.voxel(x, y, z) == if r && x == idx.x - before.origin().0 && y == idx.y
            - before.origin().1 && z == idx.z - before.origin().2 {
            Some(item)
        } else {
            before.voxel(x, y, z)
        });
    }
    let (a, b, c) = (idx.x - before.origin().0, idx.y - before.origin().1, idx.z - before.origin().2);
    if r {
        assert(after.voxel(a, b, c) == Some(item));
    }
}

} // verus!
