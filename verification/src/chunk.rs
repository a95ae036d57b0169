//! Chunks: vertical columns of chunk sections.
use vstd::prelude::*;

use crate::bounds::BoundingBox;
use crate::ids::BlockId;
use crate::index::{Vec2, Vec3, VolumeIdx};
use crate::section::{section_in_bounds, ChunkSection};

verus! {

/// `ceil(h / 16)`: the number of sections a chunk of height `h` needs.
pub open spec fn ceil_div16(h: int) -> int {
    (h + 15) / 16
}

/// Whether `v` fits in an `i32`.
pub open spec fn fits_i32(v: int) -> bool {
    i32::MIN <= v <= i32::MAX
}

/// Whether `v` fits in an `i64`.
pub open spec fn fits_i64(v: int) -> bool {
    i64::MIN <= v <= i64::MAX
}

/// `y / 16` rounded toward zero (Rust's integer division).
pub open spec fn trunc_div16(y: int) -> int {
    if y >= 0 {
        y / 16
    } else {
        -((-y) / 16)
    }
}

/// The remainder of `y / 16` rounded toward zero (Rust's `%`): it has the sign of `y`.
pub open spec fn trunc_rem16(y: int) -> int {
    if y >= 0 {
        y % 16
    } else {
        -((-y) % 16)
    }
}

/// The number of chunk sections needed to hold `height` blocks (that is, `ceil(height / 16)`).
pub fn chunk_sections_for_height(height: i32) -> (r: usize)
    requires
        0 <= height <= i32::MAX - 16,
    ensures
        r == ceil_div16(height as int),
{
    // (height - 1).rem_euclid(16)
    let rem: i32 = if height >= 1 {
        (height - 1) % 16
    } else {
        15
    };
    proof {
        if height >= 1 {
            vstd::arithmetic::div_mod::lemma_fundamental_div_mod(height - 1, 16);
            let q = (height - 1) / 16;
            vstd::arithmetic::div_mod::lemma_fundamental_div_mod_converse(
                height + 16 - rem,
                16,
                q + 1,
                1,
            );
            vstd::arithmetic::div_mod::lemma_fundamental_div_mod_converse(
                height + 15,
                16,
                q + 1,
                rem as int,
            );
        }
    }
    ((height + 16 - rem) / 16) as usize
}

/// Which space an index vector is expressed in.
///
/// - `Ls` (localspace): relative to the chunk's lowest corner;
/// - `Cs` (chunkspace): x and z local, y absolute (as in the world);
/// - `Ws` (worldspace): absolute on every axis.
#[derive(Debug)]
pub enum Spaces<I> {
    Ls(I),
    Cs(I),
    Ws(I),
}

/// The localspace coordinates of `idx`, given the lowest corner `min` of the chunk.
pub open spec fn localspace<I: VolumeIdx>(idx: Spaces<I>, min: Vec3) -> (int, int, int) {
    match idx {
        Spaces::Ls(i) => i.coords(),
        Spaces::Cs(i) => (i.coords().0, i.coords().1 - min.y, i.coords().2),
        Spaces::Ws(i) => (i.coords().0 - min.x, i.coords().1 - min.y, i.coords().2 - min.z),
    }
}

/// Whether converting `idx` to localspace stays within `i64` arithmetic.
pub open spec fn localspace_fits<I: VolumeIdx>(idx: Spaces<I>, min: Vec3) -> bool {
    match idx {
        Spaces::Ls(_) => true,
        Spaces::Cs(i) => fits_i64(i.coords().0) && fits_i64(i.coords().1) && fits_i64(
            i.coords().2,
        ) && fits_i64(i.coords().1 - min.y),
        Spaces::Ws(i) => fits_i64(i.coords().0) && fits_i64(i.coords().1) && fits_i64(
            i.coords().2,
        ) && fits_i64(i.coords().0 - min.x) && fits_i64(i.coords().1 - min.y) && fits_i64(
            i.coords().2 - min.z,
        ),
    }
}

/// Whether `s` is an uninitialized section that reads as `default` everywhere.
pub open spec fn is_fresh_section(s: ChunkSection, default: BlockId) -> bool {
    &&& !s.initialized()
    &&& s.default_block() == default
    &&& forall|x: int, y: int, z: int| #[trigger] s.block(x, y, z) == default
}

/// Why a chunk could not be rebuilt from its serialized elements.
#[derive(Debug, Clone, Copy, PartialEq, Eq, Structural)]
pub enum ChunkDecodeError {
    /// The sequence did not contain the chunk's position.
    MissingPosition,
    /// The sequence did not contain the chunk's min height.
    MissingMinHeight,
    /// The sequence did not contain the chunk's max height.
    MissingMaxHeight,
    /// The sequence did not contain all sections.
    MissingSections,
    /// The sequence was longer than expected given the chunk's height.
    SequenceTooLong,
}

/// Errors of the checked chunkspace accessors.
#[derive(Debug, Clone, Copy, PartialEq, Eq, Structural)]
pub enum ChunkAccessError {
    /// Attempted access to a chunk section which is in-bounds, but not initialized.
    UninitializedSection,
    /// Index vector points to position outside of chunk bounds.
    IndexVectorOutOfBounds,
    /// Section index out of bounds.
    SectionIndexOutOfBounds,
    /// Section already initialized.
    SectionAlreadyInitialized,
}

/// A column of 16x16x16 chunk sections, spanning the heights `min_height..max_height` above
/// the chunk position `pos` (in chunk units: the column's lowest corner is at `16 * pos`).
#[derive(Debug)]
pub struct Chunk {
    sections: Vec<ChunkSection>,
    pos: Vec2,
    min_y: i32,
    max_y: i32,
}

impl Chunk {
    /// The chunk's sections, bottom to top.
    pub closed spec fn section_seq(&self) -> Seq<ChunkSection> {
        self.sections@
    }

    /// The chunk's position in chunk units.
    pub closed spec fn chunk_pos(&self) -> Vec2 {
        self.pos
    }

    /// The lowest height of the chunk.
    pub closed spec fn min_y(&self) -> int {
        self.min_y as int
    }

    /// The height just above the chunk.
    pub closed spec fn max_y(&self) -> int {
        self.max_y as int
    }

    /// The chunk's lowest corner, in worldspace.
    pub open spec fn corner(&self) -> Vec3 {
        Vec3 {
            x: (16 * self.chunk_pos().x) as i64,
            y: self.min_y() as i64,
            z: (16 * self.chunk_pos().z) as i64,
        }
    }

    /// Well-formedness: the heights fit in `i32` and are ordered, the corner fits in `i32`, and there is one
    /// section per 16 blocks of height (rounded up).
    pub open spec fn wf(&self) -> bool {
        &&& fits_i32(self.min_y())
        &&& fits_i32(self.max_y())
        &&& self.min_y() <= self.max_y()
        &&& self.max_y() - self.min_y() <= i32::MAX - 16
        &&& fits_i32(16 * self.chunk_pos().x)
        &&& fits_i32(16 * self.chunk_pos().z)
        &&& self.section_seq().len() == ceil_div16(self.max_y() - self.min_y())
    }

    /// The section that holds the localspace position `(x, y, z)`, if any.
    pub open spec fn ls_section_index(&self, x: int, y: int, z: int) -> Option<int> {
        if fits_i32(x) && fits_i32(y) && fits_i32(z) && 0 <= trunc_div16(y)
            < self.section_seq().len() {
            Some(trunc_div16(y))
        } else {
            None
        }
    }

    /// The block at the localspace position `(x, y, z)`, if any.
    pub open spec fn ls_block(&self, x: int, y: int, z: int) -> Option<BlockId> {
        match self.ls_section_index(x, y, z) {
            Some(s) => if section_in_bounds(x, trunc_rem16(y), z) {
                Some(self.section_seq()[s].block(x, trunc_rem16(y), z))
            } else {
                None
            },
            None => None,
        }
    }

    /// Whether the localspace position `(x, y, z)` lies in the chunk.
    pub open spec fn ls_contains(&self, x: int, y: int, z: int) -> bool {
        &&& 0 <= x < 16
        &&& 0 <= z < 16
        &&& 0 <= y <= usize::MAX
        &&& y / 16 < self.section_seq().len()
    }

    /// A chunk at `chunk_pos` spanning the heights between `min_height` and `max_height`
    /// (in either order), made of uninitialized sections that read as `default`.
    pub fn new(default: BlockId, chunk_pos: Vec2, min_height: i32, max_height: i32) -> (r: Self)
        requires
            fits_i32(16 * chunk_pos.x as int),
            fits_i32(16 * chunk_pos.z as int),
            0 <= (if min_height <= max_height {
                max_height - min_height
            } else {
                min_height - max_height
            }) <= i32::MAX - 16,
        ensures
            r.wf(),
            r.chunk_pos() == chunk_pos,
            r.min_y() == crate::bounds::min_i(min_height as int, max_height as int),
            r.max_y() == crate::bounds::max_i(min_height as int, max_height as int),
            forall|i: int|
                0 <= i < r.section_seq().len() ==> is_fresh_section(
                    #[trigger] r.section_seq()[i],
                    default,
                ),
    {
        let (lo, hi) = if min_height <= max_height {
            (min_height, max_height)
        } else {
            (max_height, min_height)
        };
        let capacity = chunk_sections_for_height(hi - lo);
        let mut sections: Vec<ChunkSection> = Vec::new();
        let mut i: usize = 0;
        while i < capacity
            invariant
                i <= capacity,
                sections@.len() == i,
                forall|k: int| 0 <= k < i ==> is_fresh_section(#[trigger] sections@[k], default),
            decreases capacity - i,
        {
            sections.push(ChunkSection::new_uninitialized(default));
            i = i + 1;
        }
        let r = Chunk { sections, pos: chunk_pos, min_y: lo, max_y: hi };
        assert(r.section_seq() == sections@);
        r
    }

    /// The chunk's bounds, in worldspace: 16 blocks wide along x and z from its lowest corner,
    /// and from its min height up to its max height.
    pub fn bounding_box(&self) -> (r: BoundingBox)
        requires
            self.wf(),
        ensures
            r.spans(
                self.corner(),
                Vec3 {
                    x: (self.corner().x + 16) as i64,
                    y: self.max_y() as i64,
                    z: (self.corner().z + 16) as i64,
                },
            ),
    {
        let x = (self.pos.x as i64) * 16;
        let z = (self.pos.z as i64) * 16;
        BoundingBox::new(
            Vec3 { x, y: self.min_y as i64, z },
            Vec3 { x: x + 16, y: self.max_y as i64, z: z + 16 },
        )
    }

    /// The default block of the bottom section.
    pub fn default_id(&self) -> (r: BlockId)
        requires
            self.section_seq().len() > 0,
        ensures
            r == self.section_seq()[0].default_block(),
    {
        self.sections[0].default_id()
    }

    /// The chunk's position in chunk units.
    pub fn position(&self) -> (r: Vec2)
        ensures
            r == self.chunk_pos(),
    {
        self.pos
    }

    /// The lowest height of the chunk.
    pub fn min_height(&self) -> (r: i32)
        ensures
            r == self.min_y(),
    {
        self.min_y
    }

    /// The height just above the chunk.
    pub fn max_height(&self) -> (r: i32)
        ensures
            r == self.max_y(),
    {
        self.max_y
    }

    /// The number of sections.
    pub fn section_count(&self) -> (r: usize)
        ensures
            r == self.section_seq().len(),
    {
        self.sections.len()
    }

    /// The `i`-th section from the bottom.
    pub fn section(&self, i: usize) -> (r: &ChunkSection)
        requires
            i < self.section_seq().len(),
        ensures
            *r == self.section_seq()[i as int],
    {
        &self.sections[i]
    }

    /// Splits a localspace position into its section index and its position in that section.
    fn ls_split(&self, x: i128, y: i128, z: i128) -> (r: Option<(usize, [i32; 3])>)
        ensures
            match r {
                Some((s, p)) => self.ls_section_index(x as int, y as int, z as int) == Some(
                    s as int,
                ) && p@[0] == x && p@[1] == trunc_rem16(y as int) && p@[2] == z,
                None => self.ls_section_index(x as int, y as int, z as int) is None,
            },
    {
        if x < i32::MIN as i128 || x > i32::MAX as i128 || y < i32::MIN as i128 || y
            > i32::MAX as i128 || z < i32::MIN as i128 || z > i32::MAX as i128 {
            return None;
        }
        let (section_idx, sectionspace_y) = if y >= 0 {
            (y / 16, y % 16)
        } else {
            (-((-y) / 16), -((-y) % 16))
        };
        if section_idx < 0 || section_idx >= self.sections.len() as i128 {
            return None;
        }
        Some((section_idx as usize, [x as i32, sectionspace_y as i32, z as i32]))
    }

    /// Converts an index in any space to localspace.
    fn to_localspace<I: VolumeIdx>(&self, idx: Spaces<I>) -> (r: (i128, i128, i128))
        requires
            self.wf(),
            localspace_fits(idx, self.corner()),
        ensures
            r.0 as int == localspace(idx, self.corner()).0,
            r.1 as int == localspace(idx, self.corner()).1,
            r.2 as int == localspace(idx, self.corner()).2,
    {
        match idx {
            Spaces::Ls(i) => i.xyz(),
            Spaces::Cs(i) => {
                let (x, y, z) = i.xyz();
                (x, y - self.min_y as i128, z)
            },
            Spaces::Ws(i) => {
                let (x, y, z) = i.xyz();
                (
                    x - (self.pos.x as i128) * 16,
                    y - self.min_y as i128,
                    z - (self.pos.z as i128) * 16,
                )
            },
        }
    }

    /// The block at `idx`, or `None` if `idx` does not address a block of the chunk.
    pub fn get<I: VolumeIdx>(&self, idx: Spaces<I>) -> (r: Option<&BlockId>)
        requires
            self.wf(),
            localspace_fits(idx, self.corner()),
        ensures
            match r {
                Some(b) => self.ls_block(
                    localspace(idx, self.corner()).0,
                    localspace(idx, self.corner()).1,
                    localspace(idx, self.corner()).2,
                ) == Some(*b),
                None => self.ls_block(
                    localspace(idx, self.corner()).0,
                    localspace(idx, self.corner()).1,
                    localspace(idx, self.corner()).2,
                ) is None,
            },
    {
        let (x, y, z) = self.to_localspace(idx);
        match self.ls_split(x, y, z) {
            Some((s, p)) => self.sections[s].get(p),
            None => None,
        }
    }

    /// Writes `item` at `idx`. The section holding `idx` (if any) is initialized, even when
    /// `idx` lies outside it along x or z; nothing happens if no section holds `idx`.
    pub fn set<I: VolumeIdx>(&mut self, idx: Spaces<I>, item: BlockId)
        requires
            old(self).wf(),
            localspace_fits(idx, old(self).corner()),
        ensures
            Self::written(
                *old(self),
                *final(self),
                localspace(idx, old(self).corner()).0,
                localspace(idx, old(self).corner()).1,
                localspace(idx, old(self).corner()).2,
                item,
            ),
    {
        let _ = self.swap(idx, item);
    }

    /// Whether `new` is `old` after writing `item` at the localspace position `(x, y, z)`.
    pub open spec fn written(old: Chunk, new: Chunk, x: int, y: int, z: int, item: BlockId) -> bool {
        &&& new.wf()
        &&& new.chunk_pos() == old.chunk_pos()
        &&& new.min_y() == old.min_y()
        &&& new.max_y() == old.max_y()
        &&& new.section_seq().len() == old.section_seq().len()
        &&& match old.ls_section_index(x, y, z) {
            Some(s) => {
                &&& ChunkSection::written(
                    old.section_seq()[s],
                    new.section_seq()[s],
                    x,
                    trunc_rem16(y),
                    z,
                    item,
                )
                &&& forall|t: int|
                    0 <= t < old.section_seq().len() && t != s ==> #[trigger] new.section_seq()[t]
                        == old.section_seq()[t]
            },
            None => new.section_seq() == old.section_seq(),
        }
    }

    /// Writes `item` at `idx` and returns the block that was there; returns `None` if `idx`
    /// does not address a block of the chunk (see [`Chunk::set`] for what is initialized).
    pub fn swap<I: VolumeIdx>(&mut self, idx: Spaces<I>, item: BlockId) -> (r: Option<BlockId>)
        requires
            old(self).wf(),
            localspace_fits(idx, old(self).corner()),
        ensures
            r == old(self).ls_block(
                localspace(idx, old(self).corner()).0,
                localspace(idx, old(self).corner()).1,
                localspace(idx, old(self).corner()).2,
            ),
            Self::written(
                *old(self),
                *final(self),
                localspace(idx, old(self).corner()).0,
                localspace(idx, old(self).corner()).1,
                localspace(idx, old(self).corner()).2,
                item,
            ),
    {
        let (x, y, z) = self.to_localspace(idx);
        match self.ls_split(x, y, z) {
            Some((s, p)) => {
                let ghost before = self.sections@;
                let r = self.sections[s].swap(p, item);
                assert forall|t: int| 0 <= t < before.len() && t != s implies #[trigger] self.sections@[t] == before[t] by {}
                r
            },
            None => None,
        }
    }

    /// Whether `idx` addresses a position of the chunk: a localspace or chunkspace index lies
    /// in one of the sections, a worldspace index in the chunk's bounding box.
    pub open spec fn addresses<I: VolumeIdx>(&self, idx: Spaces<I>) -> bool {
        match idx {
            Spaces::Ls(i) => self.ls_contains(i.coords().0, i.coords().1, i.coords().2),
            Spaces::Cs(i) => self.ls_contains(i.coords().0, i.coords().1 - self.min_y(), i.coords().2),
            Spaces::Ws(i) => {
                &&& self.corner().x <= i.coords().0 < self.corner().x + 16
                &&& self.min_y() <= i.coords().1 < self.max_y()
                &&& self.corner().z <= i.coords().2 < self.corner().z + 16
            },
        }
    }

    /// The block that [`Chunk::get`] reads at `idx`, if any.
    pub open spec fn block_at<I: VolumeIdx>(&self, idx: Spaces<I>) -> Option<BlockId> {
        self.ls_block(
            localspace(idx, self.corner()).0,
            localspace(idx, self.corner()).1,
            localspace(idx, self.corner()).2,
        )
    }

    /// Whether `idx` is a worldspace position over the chunk's column, at or above its top
    /// height but still inside its topmost section (possible only when the height of the
    /// chunk is not a multiple of 16).
    pub open spec fn above_top_in_section<I: VolumeIdx>(&self, idx: Spaces<I>) -> bool {
        match idx {
            Spaces::Ws(i) => {
                &&& self.corner().x <= i.coords().0 < self.corner().x + 16
                &&& self.max_y() <= i.coords().1 < self.min_y() + 16 * self.section_seq().len()
                &&& self.corner().z <= i.coords().2 < self.corner().z + 16
            },
            _ => false,
        }
    }

    /// Whether `idx` addresses a position of the chunk.
    ///
    /// Localspace and chunkspace positions are checked against the sections (a chunkspace
    /// position `[x, y, z]` is the localspace position `[x, y - min_height, z]`, as for
    /// [`Chunk::get`]); a worldspace position is checked against [`Chunk::bounding_box`].
    pub fn contains<I: VolumeIdx>(&self, idx: Spaces<I>) -> (r: bool)
        requires
            self.wf(),
        ensures
            r == self.addresses(idx),
    {
        match idx {
            Spaces::Ls(i) => {
                let (x, y, z) = i.xyz();
                self.contains_ls(x, y, z)
            },
            Spaces::Cs(i) => {
                let (x, y, z) = i.xyz();
                if y < i64::MIN as i128 || y > i64::MAX as i128 {
                    // Far below or above any height the chunk can span, so no section holds it.
                    false
                } else {
                    self.contains_ls(x, y - self.min_y as i128, z)
                }
            },
            Spaces::Ws(i) => {
                let (x, y, z) = i.xyz();
                let cx = (self.pos.x as i128) * 16;
                let cz = (self.pos.z as i128) * 16;
                cx <= x && x < cx + 16 && (self.min_y as i128) <= y && y < (self.max_y as i128)
                    && cz <= z && z < cz + 16
            },
        }
    }

    /// Whether decoding the serialized header `pos`, `min_height`, `max_height` followed by
    /// `sections` can proceed without overflowing (see [`Chunk::from_sequence`]).
    pub open spec fn decodable(
        pos: Option<Vec2>,
        min_height: Option<i32>,
        max_height: Option<i32>,
        sections: Seq<ChunkSection>,
    ) -> bool {
        match (pos, min_height, max_height) {
            (Some(p), Some(lo), Some(hi)) => {
                let h = if lo <= hi {
                    hi - lo
                } else {
                    lo - hi
                };
                &&& fits_i32(16 * p.x as int)
                &&& fits_i32(16 * p.z as int)
                &&& 0 <= h <= i32::MAX - 16
                &&& !(ceil_div16(h) == 0 && sections.len() == 0)
            },
            _ => true,
        }
    }

    /// What [`Chunk::from_sequence`] returns for these serialized elements.
    pub open spec fn decodes_to(
        pos: Option<Vec2>,
        min_height: Option<i32>,
        max_height: Option<i32>,
        sections: Seq<ChunkSection>,
        r: Result<Chunk, ChunkDecodeError>,
    ) -> bool {
        match pos {
            None => r == Err::<Chunk, ChunkDecodeError>(ChunkDecodeError::MissingPosition),
            Some(p) => match min_height {
                None => r == Err::<Chunk, ChunkDecodeError>(ChunkDecodeError::MissingMinHeight),
                Some(lo) => match max_height {
                    None => r == Err::<Chunk, ChunkDecodeError>(
                        ChunkDecodeError::MissingMaxHeight,
                    ),
                    Some(hi) => {
                        let n = ceil_div16(
                            if lo <= hi {
                                hi - lo
                            } else {
                                lo - hi
                            },
                        );
                        if sections.len() < n {
                            r == Err::<Chunk, ChunkDecodeError>(ChunkDecodeError::MissingSections)
                        } else if sections.len() > n {
                            r == Err::<Chunk, ChunkDecodeError>(ChunkDecodeError::SequenceTooLong)
                        } else {
                            r matches Ok(c) && c.wf() && c.chunk_pos() == p && c.min_y()
                                == crate::bounds::min_i(lo as int, hi as int) && c.max_y()
                                == crate::bounds::max_i(lo as int, hi as int) && c.section_seq()
                                == sections
                        }
                    },
                },
            },
        }
    }

    /// Rebuilds a chunk from its serialized elements: its position (in chunk units), its min
    /// and max heights, and exactly as many sections as its height needs.
    pub fn from_sequence(
        pos: Option<Vec2>,
        min_height: Option<i32>,
        max_height: Option<i32>,
        sections: Vec<ChunkSection>,
    ) -> (r: Result<Chunk, ChunkDecodeError>)
        requires
            Self::decodable(pos, min_height, max_height, sections@),
        ensures
            Self::decodes_to(pos, min_height, max_height, sections@, r),
    {
        let pos = match pos {
            Some(p) => p,
            None => return Err(ChunkDecodeError::MissingPosition),
        };
        let min_height = match min_height {
            Some(h) => h,
            None => return Err(ChunkDecodeError::MissingMinHeight),
        };
        let max_height = match max_height {
            Some(h) => h,
            None => return Err(ChunkDecodeError::MissingMaxHeight),
        };
        let height = if min_height <= max_height {
            max_height - min_height
        } else {
            min_height - max_height
        };
        let n_sections = chunk_sections_for_height(height);
        if sections.len() < n_sections {
            return Err(ChunkDecodeError::MissingSections);
        }
        if sections.len() > n_sections {
            return Err(ChunkDecodeError::SequenceTooLong);
        }
        let empty_chunk = Chunk::new(sections[0].default_id(), pos, min_height, max_height);
        let chunk = Chunk {
            sections,
            pos: empty_chunk.pos,
            min_y: empty_chunk.min_y,
            max_y: empty_chunk.max_y,
        };
        Ok(chunk)
    }

    /// Whether the chunkspace position `(x, y, z)` lies in the chunk: `x` and `z` in `0..16`,
    /// `y` between the min (inclusive) and max (exclusive) heights.
    pub open spec fn within_bounds_cs(&self, x: int, y: int, z: int) -> bool {
        &&& 0 <= x < 16
        &&& 0 <= z < 16
        &&& self.min_y() <= y < self.max_y()
    }

    /// The index of the section holding the chunkspace height `y`.
    pub open spec fn cs_section(&self, y: int) -> int {
        (y - self.min_y()) / 16
    }

    /// Splits an in-bounds chunkspace position into section index and sectionspace position.
    fn cs_split<I: VolumeIdx>(&self, v: &I) -> (r: Option<(usize, [usize; 3])>)
        requires
            self.wf(),
        ensures
            match r {
                Some((s, p)) => {
                    &&& self.within_bounds_cs(v.coords().0, v.coords().1, v.coords().2)
                    &&& s == self.cs_section(v.coords().1)
                    &&& s < self.section_seq().len()
                    &&& p@[0] == v.coords().0
                    &&& p@[1] == (v.coords().1 - self.min_y()) % 16
                    &&& p@[2] == v.coords().2
                },
                None => !self.within_bounds_cs(v.coords().0, v.coords().1, v.coords().2),
            },
    {
        let (x, y, z) = v.xyz();
        if !(0 <= x && x < 16 && 0 <= z && z < 16 && self.min_y as i128 <= y && y
            < self.max_y as i128) {
            return None;
        }
        let iy = (y - self.min_y as i128) as usize;
        proof {
            assert((y - self.min_y as i128) / 16 < ceil_div16(self.max_y() - self.min_y()))
                by (nonlinear_arith)
                requires
                    0 <= y - self.min_y() < self.max_y() - self.min_y(),
            ;
        }
        Some((iy / 16, [x as usize, iy % 16, z as usize]))
    }

    /// Initialize a chunk section at the given section index: it is replaced by a section
    /// filled with the chunk's default block, which is handed back for writing.
    /// Produces [`ChunkAccessError::SectionIndexOutOfBounds`] if the given index is out of
    /// bounds, and [`ChunkAccessError::SectionAlreadyInitialized`] if the section at the index
    /// is already initialized.
    pub fn init_section(&mut self, section_idx: usize) -> (r: Result<&mut ChunkSection, ChunkAccessError>)
        requires
            old(self).wf(),
            old(self).section_seq().len() > 0,
        ensures
            section_idx >= old(self).section_seq().len() ==> (r matches Err(e)
                && e == ChunkAccessError::SectionIndexOutOfBounds && *final(self) == *old(self)),
            section_idx < old(self).section_seq().len() && old(self).section_seq()[section_idx as int].initialized()
                ==> (r matches Err(e) && e == ChunkAccessError::SectionAlreadyInitialized
                && *final(self) == *old(self)),
            section_idx < old(self).section_seq().len() && !old(self).section_seq()[section_idx as int].initialized()
                ==> (r matches Ok(s) && s.initialized() && s.default_block()
                == old(self).section_seq()[0].default_block() && (forall|x: int, y: int, z: int|
                section_in_bounds(x, y, z) ==> #[trigger] s.block(x, y, z)
                == old(self).section_seq()[0].default_block())),
            r matches Ok(s) ==> (final(self).section_seq() == old(self).section_seq().update(
                section_idx as int,
                *final(s),
            ) && final(self).chunk_pos() == old(self).chunk_pos() && final(self).min_y()
                == old(self).min_y() && final(self).max_y() == old(self).max_y()),
            final(self).wf(),
    {
        let default_id = self.default_id();
        if section_idx >= self.sections.len() {
            return Err(ChunkAccessError::SectionIndexOutOfBounds);
        }
        if self.sections[section_idx].is_initialized() {
            return Err(ChunkAccessError::SectionAlreadyInitialized);
        }
        self.sections.set(section_idx, ChunkSection::new_initialized(default_id));
        Ok(&mut self.sections[section_idx])
    }

    /// Get the block at the given position (chunkspace), returns
    /// [`ChunkAccessError::IndexVectorOutOfBounds`] if the position is out of bounds for this
    /// chunk, or [`ChunkAccessError::UninitializedSection`] if the section containing this
    /// position is not initialized.
    pub fn try_get<I: VolumeIdx>(&self, v: I) -> (r: Result<&BlockId, ChunkAccessError>)
        requires
            self.wf(),
        ensures
            !self.within_bounds_cs(v.coords().0, v.coords().1, v.coords().2) ==> r == Err::<
                &BlockId,
                ChunkAccessError,
            >(ChunkAccessError::IndexVectorOutOfBounds),
            self.within_bounds_cs(v.coords().0, v.coords().1, v.coords().2) ==> {
                let s = self.section_seq()[self.cs_section(v.coords().1)];
                if s.initialized() {
                    r matches Ok(b) && *b == s.block(
                        v.coords().0,
                        (v.coords().1 - self.min_y()) % 16,
                        v.coords().2,
                    )
                } else {
                    r == Err::<&BlockId, ChunkAccessError>(ChunkAccessError::UninitializedSection)
                }
            },
    {
        match self.cs_split(&v) {
            None => Err(ChunkAccessError::IndexVectorOutOfBounds),
            Some((s, p)) => {
                if self.sections[s].is_initialized() {
                    match self.sections[s].get(p) {
                        Some(b) => Ok(b),
                        None => Err(ChunkAccessError::IndexVectorOutOfBounds),
                    }
                } else {
                    Err(ChunkAccessError::UninitializedSection)
                }
            },
        }
    }

    /// Sets the block ID at the given position (chunkspace) to the new block ID, and returns
    /// the old one. This method will return [`ChunkAccessError::IndexVectorOutOfBounds`] if the
    /// position is out of bounds, or [`ChunkAccessError::UninitializedSection`] if the section
    /// at the position is not initialized (in both cases the chunk is left unchanged).
    pub fn set_manual<I: VolumeIdx>(&mut self, v: I, id: BlockId) -> (r: Result<
        BlockId,
        ChunkAccessError,
    >)
        requires
            old(self).wf(),
        ensures
            !old(self).within_bounds_cs(v.coords().0, v.coords().1, v.coords().2) ==> r == Err::<
                BlockId,
                ChunkAccessError,
            >(ChunkAccessError::IndexVectorOutOfBounds) && *final(self) == *old(self),
            old(self).within_bounds_cs(v.coords().0, v.coords().1, v.coords().2) && !old(self).section_seq()[old(self).cs_section(v.coords().1)].initialized() ==> r == Err::<
                BlockId,
                ChunkAccessError,
            >(ChunkAccessError::UninitializedSection) && *final(self) == *old(self),
            old(self).within_bounds_cs(v.coords().0, v.coords().1, v.coords().2) && old(self).section_seq()[old(self).cs_section(v.coords().1)].initialized() ==> {
                let s = old(self).cs_section(v.coords().1);
                let sy = (v.coords().1 - old(self).min_y()) % 16;
                &&& r == Ok::<BlockId, ChunkAccessError>(
                    old(self).section_seq()[s].block(v.coords().0, sy, v.coords().2),
                )
                &&& Self::cs_written(*old(self), *final(self), s, v.coords().0, sy, v.coords().2, id)
            },
    {
        match self.cs_split(&v) {
            None => Err(ChunkAccessError::IndexVectorOutOfBounds),
            Some((s, p)) => {
                if self.sections[s].is_initialized() {
                    let ghost before = self.sections@;
                    let old_id = self.sections[s].swap(p, id);
                    assert forall|t: int| 0 <= t < before.len() && t != s implies #[trigger] self.sections@[t] == before[t] by {}
                    match old_id {
                        Some(b) => Ok(b),
                        None => Err(ChunkAccessError::IndexVectorOutOfBounds),
                    }
                } else {
                    Err(ChunkAccessError::UninitializedSection)
                }
            },
        }
    }

    /// Whether `new` is `old` after writing `item` at the position `(x, y, z)` of section `s`.
    pub open spec fn cs_written(old: Chunk, new: Chunk, s: int, x: int, y: int, z: int, item: BlockId) -> bool {
        &&& new.wf()
        &&& new.chunk_pos() == old.chunk_pos()
        &&& new.min_y() == old.min_y()
        &&& new.max_y() == old.max_y()
        &&& new.section_seq().len() == old.section_seq().len()
        &&& ChunkSection::written(old.section_seq()[s], new.section_seq()[s], x, y, z, item)
        &&& forall|t: int|
            0 <= t < old.section_seq().len() && t != s ==> #[trigger] new.section_seq()[t]
                == old.section_seq()[t]
    }

    /// Sets the block ID at the given position (chunkspace) to the new block ID, and returns
    /// the old one. This method will return [`ChunkAccessError::IndexVectorOutOfBounds`] if the
    /// position is out of bounds.
    ///
    /// This method will automatically initialize a new section at the position if one doesn't
    /// already exist. This section will be filled with the chunk's default block ID (except for
    /// the block ID at the given position). If a new section is created when calling this
    /// function it will return the default block ID.
    pub fn try_set<I: VolumeIdx>(&mut self, v: I, id: BlockId) -> (r: Result<
        BlockId,
        ChunkAccessError,
    >)
        requires
            old(self).wf(),
        ensures
            !old(self).within_bounds_cs(v.coords().0, v.coords().1, v.coords().2) ==> r == Err::<
                BlockId,
                ChunkAccessError,
            >(ChunkAccessError::IndexVectorOutOfBounds) && *final(self) == *old(self),
            old(self).within_bounds_cs(v.coords().0, v.coords().1, v.coords().2) ==> {
                let s = old(self).cs_section(v.coords().1);
                let sy = (v.coords().1 - old(self).min_y()) % 16;
                let before = old(self).section_seq()[s];
                let d = old(self).section_seq()[0].default_block();
                &&& r == Ok::<BlockId, ChunkAccessError>(
                    if before.initialized() {
                        before.block(v.coords().0, sy, v.coords().2)
                    } else {
                        d
                    },
                )
                &&& final(self).wf()
                &&& final(self).chunk_pos() == old(self).chunk_pos()
                &&& final(self).min_y() == old(self).min_y()
                &&& final(self).max_y() == old(self).max_y()
                &&& final(self).section_seq().len() == old(self).section_seq().len()
                &&& final(self).section_seq()[s].initialized()
                &&& forall|a: int, b: int, c: int|
                    section_in_bounds(a, b, c) ==> #[trigger] final(self).section_seq()[s].block(
                        a,
                        b,
                        c,
                    ) == if a == v.coords().0 && b == sy && c == v.coords().2 {
                        id
                    } else if before.initialized() {
                        before.block(a, b, c)
                    } else {
                        d
                    }
                &&& forall|t: int|
                    0 <= t < old(self).section_seq().len() && t != s ==> #[trigger] final(self).section_seq()[t] == old(self).section_seq()[t]
            },
    {
        match self.cs_split(&v) {
            None => Err(ChunkAccessError::IndexVectorOutOfBounds),
            Some((s, p)) => {
                if !self.sections[s].is_initialized() {
                    let _ = self.init_section(s);
                }
                let ghost before = self.sections@;
                let old_id = self.sections[s].swap(p, id);
                assert forall|t: int| 0 <= t < before.len() && t != s implies #[trigger] self.sections@[t] == before[t] by {}
                match old_id {
                    Some(b) => Ok(b),
                    None => Err(ChunkAccessError::IndexVectorOutOfBounds),
                }
            },
        }
    }

    fn contains_ls(&self, x: i128, y: i128, z: i128) -> (r: bool)
        ensures
            r == self.ls_contains(x as int, y as int, z as int),
    {
        0 <= x && x < 16 && 0 <= z && z < 16 && 0 <= y && y <= usize::MAX as i128 && y / 16
            < self.sections.len() as i128
    }
}

/// Serializing a chunk (its position, heights and sections) and rebuilding it from those
/// elements gives back a chunk with the same position, heights and sections.
pub proof fn lemma_chunk_sequence_roundtrip(c: Chunk, r: Result<Chunk, ChunkDecodeError>)
    requires
        c.wf(),
        c.section_seq().len() > 0,
        Chunk::decodes_to(
            Some(c.chunk_pos()),
            Some(c.min_y() as i32),
            Some(c.max_y() as i32),
            c.section_seq(),
            r,
        ),
    ensures
        Chunk::decodable(
            Some(c.chunk_pos()),
            Some(c.min_y() as i32),
            Some(c.max_y() as i32),
            c.section_seq(),
        ),
        r matches Ok(d) && d.wf() && d.chunk_pos() == c.chunk_pos() && d.min_y() == c.min_y()
            && d.max_y() == c.max_y() && d.section_seq() == c.section_seq(),
{
}

/// Reading a chunk after a write: the written position (if it addresses a block) holds the
/// written block, and every other position holds what it held before.
pub proof fn lemma_chunk_read_after_write(
    old: Chunk,
    new: Chunk,
    x: int,
    y: int,
    z: int,
    item: BlockId,
    a: int,
    b: int,
    c: int,
)
    requires
        old.wf(),
        Chunk::written(old, new, x, y, z, item),
    ensures
        new.ls_block(a, b, c) == if a == x && b == y && c == z && old.ls_block(x, y, z) is Some {
            Some(item)
        } else {
            old.ls_block(a, b, c)
        },
{
    vstd::arithmetic::div_mod::lemma_fundamental_div_mod(b, 16);
    vstd::arithmetic::div_mod::lemma_fundamental_div_mod(y, 16);
    assert(new.ls_section_index(a, b, c) == old.ls_section_index(a, b, c));
    if old.ls_section_index(a, b, c) is Some && old.ls_section_index(x, y, z) is Some {
        let s = old.ls_section_index(a, b, c).unwrap();
        let t = old.ls_section_index(x, y, z).unwrap();
        if s == t && section_in_bounds(a, trunc_rem16(b), c) && a == x && c == z && trunc_rem16(b)
            == trunc_rem16(y) {
            assert(b == y);
        }
    }
}

/// A localspace position lies in the chunk exactly when reading it gives a block: so
/// [`Chunk::contains`] and [`Chunk::get`] agree on localspace and chunkspace indices.
pub proof fn lemma_contains_agrees_with_get(c: Chunk, x: int, y: int, z: int)
    requires
        c.wf(),
    ensures
        c.ls_contains(x, y, z) == (c.ls_block(x, y, z) is Some),
{
    vstd::arithmetic::div_mod::lemma_fundamental_div_mod(y, 16);
    if y < 0 {
        vstd::arithmetic::div_mod::lemma_fundamental_div_mod(-y, 16);
    }
}

/// [`Chunk::contains`] says yes exactly where [`Chunk::get`] finds a block, in every space;
/// the one exception is a worldspace position above the chunk's top height that still falls
/// in its topmost, partly used section, where `get` finds a block and `contains` says no.
pub proof fn lemma_contains_iff_get<I: VolumeIdx>(c: Chunk, idx: Spaces<I>)
    requires
        c.wf(),
        !c.above_top_in_section(idx),
    ensures
        c.addresses(idx) == (c.block_at(idx) is Some),
{
    let (x, y, z) = localspace(idx, c.corner());
    lemma_contains_agrees_with_get(c, x, y, z);
    vstd::arithmetic::div_mod::lemma_fundamental_div_mod(y, 16);
    vstd::arithmetic::div_mod::lemma_fundamental_div_mod(c.max_y() - c.min_y(), 16);
}

/// Localspace access addresses section `y / 16` at `(x, y % 16, z)`: for a position inside
/// the chunk, [`Chunk::get`] reads exactly that block of that section, and after
/// [`Chunk::set`] writes `item` there, that section is initialized and holds `item` at that
/// very place (so it reads back as `item`).
pub proof fn lemma_localspace_block_in_section(c: Chunk, new: Chunk, x: int, y: int, z: int, item: BlockId)
    requires
        c.wf(),
        0 <= x < 16,
        0 <= z < 16,
        0 <= y,
        y / 16 < c.section_seq().len(),
    ensures
        c.ls_block(x, y, z) == Some(c.section_seq()[y / 16].block(x, y % 16, z)),
        Chunk::written(c, new, x, y, z, item) ==> {
            &&& new.section_seq()[y / 16].initialized()
            &&& new.section_seq()[y / 16].block(x, y % 16, z) == item
            &&& new.ls_block(x, y, z) == Some(item)
        },
{
    vstd::arithmetic::div_mod::lemma_fundamental_div_mod(y, 16);
    assert(y < 16 * c.section_seq().len());
    assert(section_in_bounds(x, y % 16, z));
}

/// Both ways of addressing a chunkspace position agree: through [`Chunk::get`] /
/// [`Chunk::set`] with `Spaces::Cs(v)`, and through [`Chunk::try_get`] / [`Chunk::try_set`]
/// with `v`. Inside the chunk, `get(Spaces::Cs(v))` reads the block of section
/// `(y - min_height) / 16` at `(x, (y - min_height) % 16, z)`, which `try_get(v)` gives on an
/// initialized section; and after `set(Spaces::Cs(v), item)` that section is initialized and
/// holds `item` there, so `try_get(v)` reads `item` back.
pub proof fn lemma_chunkspace_access_agrees<I: VolumeIdx>(c: Chunk, new: Chunk, v: I, item: BlockId)
    requires
        c.wf(),
        c.within_bounds_cs(v.coords().0, v.coords().1, v.coords().2),
    ensures
        c.block_at(Spaces::Cs(v)) == Some(
            c.section_seq()[c.cs_section(v.coords().1)].block(
                v.coords().0,
                (v.coords().1 - c.min_y()) % 16,
                v.coords().2,
            ),
        ),
        Chunk::written(
            c,
            new,
            localspace(Spaces::Cs(v), c.corner()).0,
            localspace(Spaces::Cs(v), c.corner()).1,
            localspace(Spaces::Cs(v), c.corner()).2,
            item,
        ) ==> {
            &&& new.section_seq()[c.cs_section(v.coords().1)].initialized()
            &&& new.section_seq()[c.cs_section(v.coords().1)].block(
                v.coords().0,
                (v.coords().1 - c.min_y()) % 16,
                v.coords().2,
            ) == item
        },
{
    let (x, y, z) = v.coords();
    let h = y - c.min_y();
    assert(localspace(Spaces::Cs(v), c.corner()) == (x, h, z));
    vstd::arithmetic::div_mod::lemma_fundamental_div_mod(h, 16);
    assert(h < 16 * c.section_seq().len());
    lemma_localspace_block_in_section(c, new, x, h, z, item);
}

/// The position of the chunk's sections that an index in any space addresses, as a section
/// index and a position inside that section: a localspace `(x, y, z)` is section `y / 16` at
/// `(x, y % 16, z)`; a chunkspace `(x, y, z)` is section `(y - min_height) / 16` at
/// `(x, (y - min_height) % 16, z)`; a worldspace `(x, y, z)` is section
/// `(y - min_height) / 16` at `(x - 16 * chunk_x, (y - min_height) % 16, z - 16 * chunk_z)`.
/// `None` if the index lies outside the column (or below it).
pub open spec fn addressed_section<I: VolumeIdx>(c: Chunk, idx: Spaces<I>) -> Option<(int, (int, int, int))> {
    let (x, y, z) = match idx {
        Spaces::Ls(i) => i.coords(),
        Spaces::Cs(i) => (i.coords().0, i.coords().1 - c.min_y(), i.coords().2),
        Spaces::Ws(i) => (
            i.coords().0 - 16 * c.chunk_pos().x,
            i.coords().1 - c.min_y(),
            i.coords().2 - 16 * c.chunk_pos().z,
        ),
    };
    if 0 <= x < 16 && 0 <= z < 16 && 0 <= y && y / 16 < c.section_seq().len() {
        Some((y / 16, (x, y % 16, z)))
    } else {
        None
    }
}

/// [`Chunk::get`], [`Chunk::set`] and [`Chunk::swap`] reach the block of the section that
/// the index addresses (see [`addressed_section`]), in every space: `get` reads that block,
/// and after `set` (or `swap`) writes `item` at the index, that section is initialized and
/// holds `item` at that place.
pub proof fn lemma_spaces_address_sections<I: VolumeIdx>(c: Chunk, new: Chunk, idx: Spaces<I>, item: BlockId)
    requires
        c.wf(),
        addressed_section(c, idx) is Some,
    ensures
        ({
            let (s, (x, y, z)) = addressed_section(c, idx).unwrap();
            &&& c.block_at(idx) == Some(c.section_seq()[s].block(x, y, z))
            &&& Chunk::written(
                c,
                new,
                localspace(idx, c.corner()).0,
                localspace(idx, c.corner()).1,
                localspace(idx, c.corner()).2,
                item,
            ) ==> new.section_seq()[s].initialized() && new.section_seq()[s].block(x, y, z) == item
        }),
{
    let l = localspace(idx, c.corner());
    assert(0 <= l.1);
    lemma_localspace_block_in_section(c, new, l.0, l.1, l.2, item);
}

} // verus!
