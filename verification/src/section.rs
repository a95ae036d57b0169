//! Chunk sections: 16x16x16 cubes of blocks that only allocate storage once written to.
use vstd::prelude::*;

use crate::ids::BlockId;
use crate::index::VolumeIdx;
use crate::volume::{iteration_position, lemma_iteration_position_decode, Volume};

verus! {

/// X and Z dimensions of chunks, and the edge length of a chunk section (taken from Minecraft).
pub const CHUNK_SIZE: i32 = 16;

/// The number of blocks in a chunk section.
pub const SECTION_VOLUME: usize = 4096;

/// Storage of an initialized section.
pub type SectionStorage = Volume<BlockId, 16, 16, 16>;

/// Whether `(x, y, z)` addresses a block of a section.
pub open spec fn section_in_bounds(x: int, y: int, z: int) -> bool {
    &&& 0 <= x < 16
    &&& 0 <= y < 16
    &&& 0 <= z < 16
}

/// Position of the block `(x, y, z)` in a section's voxel sequence (x fastest, then y, then z).
pub open spec fn section_position(x: int, y: int, z: int) -> int {
    iteration_position(16, 16, x, y, z)
}

/// Decoding a position of a section's voxel sequence into the block it names.
pub proof fn lemma_section_position(x: int, y: int, z: int)
    requires
        section_in_bounds(x, y, z),
    ensures
        0 <= section_position(x, y, z) < 4096,
        section_position(x, y, z) % 16 == x,
        (section_position(x, y, z) / 16) % 16 == y,
        section_position(x, y, z) / 256 == z,
{
    lemma_iteration_position_decode(16, 16, 16, x, y, z);
}

/// Why a section could not be rebuilt from its serialized elements.
#[derive(Debug, Clone, Copy, PartialEq, Eq, Structural)]
pub enum SectionDecodeError {
    /// The sequence was too short and did not contain the default block ID.
    MissingDefaultId,
    /// The sequence was too short and did not contain the section's initialization status.
    MissingInitialization,
    /// The voxel sequence terminated prematurely.
    VoxelsTerminatedPrematurely,
    /// The sequence was too long.
    SequenceTooLong,
}

/// A 16x16x16 cube of voxels/blocks.
///
/// An uninitialized section stores nothing and reads as its default block everywhere; it
/// allocates its storage (filled with the default block) the first time it is written to.
#[derive(Debug)]
pub struct ChunkSection {
    default: BlockId,
    volume: Option<SectionStorage>,
}

impl ChunkSection {
    #[verifier::type_invariant]
    spec fn storage_wf(self) -> bool {
        self.volume matches Some(v) ==> v.wf()
    }

    /// The block an uninitialized section reads as everywhere.
    pub closed spec fn default_block(&self) -> BlockId {
        self.default
    }

    /// Whether the section has allocated its storage.
    pub closed spec fn initialized(&self) -> bool {
        self.volume is Some
    }

    /// The block at `(x, y, z)`.
    pub closed spec fn block(&self, x: int, y: int, z: int) -> BlockId {
        match self.volume {
            Some(v) => v.cell(x, y, z),
            None => self.default,
        }
    }

    /// All blocks of the section, in voxel-sequence order (x fastest, then y, then z).
    pub open spec fn blocks(&self) -> Seq<BlockId> {
        Seq::new(4096, |i: int| self.block(i % 16, (i / 16) % 16, i / 256))
    }

    /// Whether `new` is `old` after writing `item` at `(x, y, z)`: initialized, with the same
    /// default block, and the block at `(x, y, z)` (if it lies in the section) replaced.
    pub open spec fn written(old: ChunkSection, new: ChunkSection, x: int, y: int, z: int, item: BlockId) -> bool {
        &&& new.initialized()
        &&& new.default_block() == old.default_block()
        &&& forall|a: int, b: int, c: int|
            section_in_bounds(a, b, c) ==> #[trigger] new.block(a, b, c) == if a == x && b == y
                && c == z {
                item
            } else {
                old.block(a, b, c)
            }
    }

    /// Whether two sections hold the same blocks.
    pub open spec fn same_blocks(&self, other: &ChunkSection) -> bool {
        forall|x: int, y: int, z: int|
            section_in_bounds(x, y, z) ==> #[trigger] self.block(x, y, z) == other.block(x, y, z)
    }

    /// A section that stores nothing and reads as `default` everywhere.
    pub fn new_uninitialized(default: BlockId) -> (r: Self)
        ensures
            r.default_block() == default,
            !r.initialized(),
            forall|x: int, y: int, z: int| #[trigger] r.block(x, y, z) == default,
    {
        ChunkSection { default, volume: None }
    }

    /// A section whose storage is allocated and filled with `default`.
    pub fn new_initialized(default: BlockId) -> (r: Self)
        ensures
            r.default_block() == default,
            r.initialized(),
            forall|x: int, y: int, z: int|
                section_in_bounds(x, y, z) ==> #[trigger] r.block(x, y, z) == default,
    {
        let mut new = Self::new_uninitialized(default);
        new.initialize();
        new
    }

    /// Allocates the storage, filled with the default block, unless it already exists
    /// (existing data is never wiped).
    fn initialize(&mut self)
        ensures
            final(self).initialized(),
            final(self).default_block() == old(self).default_block(),
            forall|x: int, y: int, z: int|
                section_in_bounds(x, y, z) ==> #[trigger] final(self).block(x, y, z) == old(
                    self,
                ).block(x, y, z),
    {
        if !self.is_initialized() {
            self.volume = Some(SectionStorage::new_filled(self.default));
        }
    }

    /// Whether the section has allocated its storage.
    pub fn is_initialized(&self) -> (r: bool)
        ensures
            r == self.initialized(),
    {
        self.volume.is_some()
    }

    /// The block an uninitialized section reads as everywhere.
    pub fn default_id(&self) -> (r: BlockId)
        ensures
            r == self.default_block(),
    {
        self.default
    }

    /// Whether `idx` addresses a block of the section.
    pub fn contains<I: VolumeIdx>(&self, idx: I) -> (r: bool)
        ensures
            r == section_in_bounds(idx.coords().0, idx.coords().1, idx.coords().2),
    {
        let (x, y, z) = idx.xyz();
        0 <= x && x < 16 && 0 <= y && y < 16 && 0 <= z && z < 16
    }

    /// The block at `idx`, or `None` if `idx` is outside the section.
    pub fn get<I: VolumeIdx>(&self, idx: I) -> (r: Option<&BlockId>)
        ensures
            match r {
                Some(b) => section_in_bounds(idx.coords().0, idx.coords().1, idx.coords().2)
                    && *b == self.block(idx.coords().0, idx.coords().1, idx.coords().2),
                None => !section_in_bounds(idx.coords().0, idx.coords().1, idx.coords().2),
            },
    {
        proof {
            use_type_invariant(self);
        }
        match &self.volume {
            Some(v) => v.get(idx),
            None => {
                if self.contains(idx) {
                    Some(&self.default)
                } else {
                    None
                }
            },
        }
    }

    /// Writes `item` at `idx` (nothing is written if `idx` is outside the section).
    /// The section is initialized afterwards.
    pub fn set<I: VolumeIdx>(&mut self, idx: I, item: BlockId)
        ensures
            Self::written(
                *old(self),
                *final(self),
                idx.coords().0,
                idx.coords().1,
                idx.coords().2,
                item,
            ),
    {
        let _ = self.swap(idx, item);
    }

    /// Writes `item` at `idx` and returns the block that was there, or returns `None` (and
    /// writes nothing) if `idx` is outside the section. The section is initialized afterwards.
    pub fn swap<I: VolumeIdx>(&mut self, idx: I, item: BlockId) -> (r: Option<BlockId>)
        ensures
            final(self).initialized(),
            final(self).default_block() == old(self).default_block(),
            r == if section_in_bounds(idx.coords().0, idx.coords().1, idx.coords().2) {
                Some(old(self).block(idx.coords().0, idx.coords().1, idx.coords().2))
            } else {
                None::<BlockId>
            },
            Self::written(
                *old(self),
                *final(self),
                idx.coords().0,
                idx.coords().1,
                idx.coords().2,
                item,
            ),
    {
        proof {
            use_type_invariant(&*self);
        }
        let (x, y, z) = idx.xyz();
        let in_bounds = self.contains(idx);
        let default = self.default;
        let mut taken = ChunkSection { default, volume: None };
        std::mem::swap(self, &mut taken);
        proof {
            use_type_invariant(&taken);
        }
        let ChunkSection { default: _, volume } = taken;
        let mut storage = match volume {
            Some(v) => v,
            None => SectionStorage::new_filled(default),
        };
        let result = if in_bounds {
            let pos = [x as usize, y as usize, z as usize];
            let previous = *storage.at(pos);
            storage.set(pos, item);
            Some(previous)
        } else {
            None
        };
        *self = ChunkSection { default, volume: Some(storage) };
        result
    }
}

impl ChunkSection {
    /// The elements that follow the default block ID and the initialization status in the
    /// section's serialized form: the blocks in voxel-sequence order when the section is
    /// initialized, nothing otherwise.
    pub open spec fn sequence_of(&self) -> Seq<BlockId> {
        if self.initialized() {
            self.blocks()
        } else {
            Seq::empty()
        }
    }

    /// What [`ChunkSection::from_sequence`] returns for these serialized elements.
    pub open spec fn decodes_to(
        default: Option<BlockId>,
        initialized: Option<bool>,
        voxels: Seq<BlockId>,
        r: Result<ChunkSection, SectionDecodeError>,
    ) -> bool {
        match default {
            None => r == Err::<ChunkSection, SectionDecodeError>(
                SectionDecodeError::MissingDefaultId,
            ),
            Some(d) => match initialized {
                None => r == Err::<ChunkSection, SectionDecodeError>(
                    SectionDecodeError::MissingInitialization,
                ),
                Some(false) => r matches Ok(s) && s.default_block() == d && !s.initialized()
                    && s.blocks() == Seq::new(4096, |i: int| d),
                Some(true) => if voxels.len() < 4096 {
                    r == Err::<ChunkSection, SectionDecodeError>(
                        SectionDecodeError::VoxelsTerminatedPrematurely,
                    )
                } else if voxels.len() > 4096 {
                    r == Err::<ChunkSection, SectionDecodeError>(
                        SectionDecodeError::SequenceTooLong,
                    )
                } else {
                    r matches Ok(s) && s.default_block() == d && s.initialized() && s.blocks()
                        == voxels
                },
            },
        }
    }

    /// The block at the position `i` of the voxel sequence.
    fn block_at_position(&self, i: usize) -> (r: BlockId)
        requires
            i < 4096,
        ensures
            r == self.blocks()[i as int],
    {
        let b = self.get([i % 16, (i / 16) % 16, i / 256]);
        match b {
            Some(b) => *b,
            None => self.default,
        }
    }

    /// The serialized elements that follow the default block ID and the initialization
    /// status (see [`ChunkSection::sequence_of`]).
    pub fn voxel_sequence(&self) -> (r: Vec<BlockId>)
        ensures
            r@ == self.sequence_of(),
    {
        let mut out: Vec<BlockId> = Vec::new();
        if !self.is_initialized() {
            assert(out@ =~= self.sequence_of());
            return out;
        }
        let mut i: usize = 0;
        while i < SECTION_VOLUME
            invariant
                i <= 4096,
                out@ == self.blocks().subrange(0, i as int),
            decreases 4096 - i,
        {
            out.push(self.block_at_position(i));
            i = i + 1;
            assert(out@ =~= self.blocks().subrange(0, i as int));
        }
        assert(out@ =~= self.blocks());
        out
    }

    /// Rebuilds a section from its serialized elements: the default block ID, the
    /// initialization status and, for an initialized section, exactly 4096 blocks in
    /// voxel-sequence order (see [`ChunkSection::decodes_to`]).
    pub fn from_sequence(
        default: Option<BlockId>,
        initialized: Option<bool>,
        voxels: &Vec<BlockId>,
    ) -> (r: Result<ChunkSection, SectionDecodeError>)
        ensures
            Self::decodes_to(default, initialized, voxels@, r),
    {
        let default = match default {
            Some(d) => d,
            None => return Err(SectionDecodeError::MissingDefaultId),
        };
        let initialized = match initialized {
            Some(i) => i,
            None => return Err(SectionDecodeError::MissingInitialization),
        };
        if !initialized {
            let s = ChunkSection::new_uninitialized(default);
            assert(s.blocks() =~= Seq::new(4096, |i: int| default));
            return Ok(s);
        }
        if voxels.len() < SECTION_VOLUME {
            return Err(SectionDecodeError::VoxelsTerminatedPrematurely);
        }
        if voxels.len() > SECTION_VOLUME {
            return Err(SectionDecodeError::SequenceTooLong);
        }
        let mut section = ChunkSection::new_initialized(default);
        let mut i: usize = 0;
        while i < SECTION_VOLUME
            invariant
                i <= 4096,
                voxels@.len() == 4096,
                section.initialized(),
                section.default_block() == default,
                forall|a: int, b: int, c: int|
                    section_in_bounds(a, b, c) ==> #[trigger] section.block(a, b, c) == if section_position(
                        a,
                        b,
                        c,
                    ) < i {
                        voxels@[section_position(a, b, c)]
                    } else {
                        default
                    },
            decreases 4096 - i,
        {
            let x = i % 16;
            let y = (i / 16) % 16;
            let z = i / 256;
            proof {
                lemma_section_position_of(i as int);
                assert forall|a: int, b: int, c: int|
                    section_in_bounds(a, b, c) && section_position(a, b, c) == i implies a == x
                        && b == y && c == z by {
                    lemma_section_position(a, b, c);
                }
            }
            section.set([x, y, z], voxels[i]);
            i = i + 1;
        }
        assert forall|k: int| 0 <= k < 4096 implies #[trigger] section.blocks()[k] == voxels@[k] by {
            lemma_section_position_of(k);
        }
        assert(section.blocks() =~= voxels@);
        Ok(section)
    }
}

/// The position `k` of the voxel sequence names a block whose position is `k`.
pub proof fn lemma_section_position_of(k: int)
    requires
        0 <= k < 4096,
    ensures
        section_in_bounds(k % 16, (k / 16) % 16, k / 256),
        section_position(k % 16, (k / 16) % 16, k / 256) == k,
{
    vstd::arithmetic::div_mod::lemma_fundamental_div_mod(k, 16);
    vstd::arithmetic::div_mod::lemma_fundamental_div_mod(k / 16, 16);
    vstd::arithmetic::div_mod::lemma_div_denominator(k, 16, 16);
}

/// Serializing a section and rebuilding it from the serialized elements gives back a section
/// with the same default block, initialization status and blocks.
pub proof fn lemma_section_sequence_roundtrip(s: ChunkSection, r: Result<ChunkSection, SectionDecodeError>)
    requires
        ChunkSection::decodes_to(
            Some(s.default_block()),
            Some(s.initialized()),
            s.sequence_of(),
            r,
        ),
    ensures
        r matches Ok(t) && t.default_block() == s.default_block() && t.initialized()
            == s.initialized() && t.blocks() == s.blocks(),
{
    if !s.initialized() {
        assert(s.blocks() =~= Seq::new(4096, |i: int| s.default_block()));
    }
}

impl PartialEq for ChunkSection {
    /// Two sections are equal when they hold the same blocks (the default block and the
    /// initialization status are not compared).
    fn eq(&self, other: &Self) -> (r: bool) {
        let mut i: usize = 0;
        while i < SECTION_VOLUME
            invariant
                i <= 4096,
                forall|k: int| 0 <= k < i ==> self.blocks()[k] == other.blocks()[k],
            decreases 4096 - i,
        {
            if self.block_at_position(i) != other.block_at_position(i) {
                proof {
                    lemma_section_position_of(i as int);
                }
                return false;
            }
            i = i + 1;
        }
        proof {
            assert forall|x: int, y: int, z: int| section_in_bounds(x, y, z) implies #[trigger] self.block(
                x,
                y,
                z,
            ) == other.block(x, y, z) by {
                lemma_section_position(x, y, z);
                assert(self.blocks()[section_position(x, y, z)] == other.blocks()[section_position(
                    x,
                    y,
                    z,
                )]);
            }
        }
        true
    }
}

impl vstd::std_specs::cmp::PartialEqSpecImpl for ChunkSection {
    open spec fn obeys_eq_spec() -> bool {
        true
    }

    open spec fn eq_spec(&self, other: &ChunkSection) -> bool {
        self.same_blocks(other)
    }
}

impl Clone for ChunkSection {
    /// A section with the same default, initialization status and blocks.
    fn clone(&self) -> (r: Self)
        ensures
            r.default_block() == self.default_block(),
            r.initialized() == self.initialized(),
            forall|x: int, y: int, z: int| #[trigger] r.block(x, y, z) == self.block(x, y, z),
    {
        proof {
            use_type_invariant(self);
        }
        let volume = match &self.volume {
            Some(v) => Some(v.clone()),
            None => None,
        };
        ChunkSection { default: self.default, volume }
    }
}

/// An uninitialized section reads as its default block everywhere.
pub proof fn lemma_uninitialized_reads_default(s: ChunkSection)
    requires
        !s.initialized(),
    ensures
        forall|x: int, y: int, z: int| #[trigger] s.block(x, y, z) == s.default_block(),
{
}

} // verus!
