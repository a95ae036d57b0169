//! Sparse volumes of voxels: a map from chunk positions to 16x16x16 chunks, either unbounded
//! or clipped to a bounding box.
use vstd::prelude::*;
use vstd::arithmetic::div_mod::{lemma_fundamental_div_mod, lemma_fundamental_div_mod_converse};

use crate::bounds::BoundingBox;
use crate::ids::BlockId;
use crate::index::Vec3;
use crate::section::section_in_bounds;
use crate::voxel::{Chunk, Positioned, Unpositioned, VoxelSlot};

verus! {

/// The chunks of a voxel volume, keyed by their position in chunk units.
#[verifier::external_body]
pub struct ChunkMap {
    map: hashbrown::HashMap<(i64, i64, i64), Chunk<Unpositioned>>,
}

/// What a chunk map holds: for each chunk position, its chunk.
pub uninterp spec fn chunk_map_contents(m: ChunkMap) -> Map<(i64, i64, i64), Chunk<Unpositioned>>;

/// The map that holds no chunk.
pub open spec fn no_chunks() -> Map<(i64, i64, i64), Chunk<Unpositioned>> {
    Map::empty()
}

/// `hashbrown::HashMap::new`: a map that holds nothing.
#[verifier::external_body]
fn chunk_map_new() -> (r: ChunkMap)
    ensures
        chunk_map_contents(r) == no_chunks(),
{
    ChunkMap { map: hashbrown::HashMap::new() }
}

/// `hashbrown::HashMap::get`: the chunk stored under `key`, if there is one.
#[verifier::external_body]
fn chunk_map_get(m: &ChunkMap, key: (i64, i64, i64)) -> (r: Option<&Chunk<Unpositioned>>)
    ensures
        match r {
            Some(c) => chunk_map_contents(*m).dom().contains(key) && *c == chunk_map_contents(
                *m,
            )[key],
            None => !chunk_map_contents(*m).dom().contains(key),
        },
{
    m.map.get(&key)
}

/// `hashbrown::HashMap::get_mut`: a mutable borrow of the chunk stored under `key`, if there
/// is one; what is written through it is what the map then holds under `key`.
#[verifier::external_body]
fn chunk_map_get_mut(m: &mut ChunkMap, key: (i64, i64, i64)) -> (r: Option<
    &mut Chunk<Unpositioned>,
>)
    ensures
        match r {
            Some(c) => {
                &&& chunk_map_contents(*old(m)).dom().contains(key)
                &&& *c == chunk_map_contents(*old(m))[key]
                &&& chunk_map_contents(*final(m)) == chunk_map_contents(*old(m)).insert(
                    key,
                    *final(c),
                )
            },
            None => {
                &&& !chunk_map_contents(*old(m)).dom().contains(key)
                &&& chunk_map_contents(*final(m)) == chunk_map_contents(*old(m))
            },
        },
{
    m.map.get_mut(&key)
}

/// `hashbrown::HashMap::insert`: stores `value` under `key`, and hands back the chunk that was
/// stored there before, if any.
#[verifier::external_body]
fn chunk_map_insert(m: &mut ChunkMap, key: (i64, i64, i64), value: Chunk<Unpositioned>) -> (r:
    Option<Chunk<Unpositioned>>)
    ensures
        chunk_map_contents(*final(m)) == chunk_map_contents(*old(m)).insert(key, value),
        r == if chunk_map_contents(*old(m)).dom().contains(key) {
            Some(chunk_map_contents(*old(m))[key])
        } else {
            None
        },
{
    m.map.insert(key, value)
}

/// `hashbrown::HashMap::into_iter`, collected: every entry of the map exactly once, in an order
/// that the map does not promise.
#[verifier::external_body]
fn chunk_map_into_entries(m: ChunkMap) -> (r: Vec<((i64, i64, i64), Chunk<Unpositioned>)>)
    ensures
        forall|i: int|
            0 <= i < r@.len() ==> {
                &&& chunk_map_contents(m).dom().contains(#[trigger] r@[i].0)
                &&& r@[i].1 == chunk_map_contents(m)[r@[i].0]
            },
        forall|i: int, j: int| 0 <= i < j < r@.len() ==> r@[i].0 != r@[j].0,
        forall|k: (i64, i64, i64)|
            #[trigger] chunk_map_contents(m).dom().contains(k) ==> exists|i: int|
                0 <= i < r@.len() && #[trigger] r@[i].0 == k,
{
    m.map.into_iter().collect()
}

/// The position of the chunk that holds the voxel at `p`, in chunk units.
pub open spec fn section_key(p: Vec3) -> (i64, i64, i64) {
    ((p.x / 16) as i64, (p.y / 16) as i64, (p.z / 16) as i64)
}

/// The map key of a chunk position.
pub open spec fn key_of(p: Vec3) -> (i64, i64, i64) {
    (p.x, p.y, p.z)
}

/// Every coordinate splits into a chunk coordinate and an offset in `0..16`, and only one
/// such pair gives back the coordinate: `v == 16 * (v / 16) + v % 16`.
pub proof fn lemma_split16(v: int, q: int, r: int)
    ensures
        v == 16 * (v / 16) + v % 16,
        0 <= v % 16 < 16,
        0 <= r < 16 && v == 16 * q + r ==> q == v / 16 && r == v % 16,
{
    lemma_fundamental_div_mod(v, 16);
    if 0 <= r < 16 && v == 16 * q + r {
        lemma_fundamental_div_mod_converse(v, 16, q, r);
    }
}

/// Euclidean division of `v` by 16: the quotient and the remainder (in `0..16`).
fn split16(v: i64) -> (r: (i64, i64))
    ensures
        r.0 == v / 16,
        r.1 == (v as int) % 16,
{
    if v >= 0 {
        (v / 16, v % 16)
    } else {
        let n: i64 = -(v + 1);
        let q: i64 = -(n / 16) - 1;
        let m: i64 = 15 - n % 16;
        proof {
            lemma_fundamental_div_mod(n as int, 16);
            lemma_fundamental_div_mod_converse(v as int, 16, q as int, m as int);
        }
        (q, m)
    }
}

/// The position, in chunk units, of the chunk that holds the voxel at `idx`.
fn to_section_pos(idx: Vec3) -> (r: Vec3)
    ensures
        key_of(r) == section_key(idx),
{
    Vec3 { x: split16(idx.x).0, y: split16(idx.y).0, z: split16(idx.z).0 }
}

/// The position of the voxel at `idx` inside its chunk.
fn to_voxel_pos(idx: Vec3) -> (r: Vec3)
    ensures
        r.x == (idx.x as int) % 16,
        r.y == (idx.y as int) % 16,
        r.z == (idx.z as int) % 16,
{
    Vec3 { x: split16(idx.x).1, y: split16(idx.y).1, z: split16(idx.z).1 }
}

/// Whether a volume is clipped to a bounding box.
pub trait Boundness {

}

/// A volume that holds voxels at every position.
#[derive(Copy, Clone, Debug)]
pub struct Unbounded;

impl Boundness for Unbounded {

}

/// A volume that holds voxels only inside a box (both corners included).
#[derive(Copy, Clone, Debug)]
pub struct Bounded(BoundingBox);

impl Boundness for Bounded {

}

/// A sparse volume of voxels, stored as 16x16x16 chunks created when first written to.
pub struct VoxelVolume<B: Boundness> {
    bounded: B,
    sections: ChunkMap,
}

impl<B: Boundness> VoxelVolume<B> {
    /// The stored chunks, by position in chunk units.
    pub closed spec fn chunks(&self) -> Map<(i64, i64, i64), Chunk<Unpositioned>> {
        chunk_map_contents(self.sections)
    }

    /// Well-formedness: finitely many chunks, each well-formed.
    pub open spec fn wf(&self) -> bool {
        &&& self.chunks().dom().finite()
        &&& forall|k: (i64, i64, i64)| #[trigger]
            self.chunks().dom().contains(k) ==> self.chunks()[k].wf()
    }

    /// The voxel at `p`, if one was written there.
    pub open spec fn voxel(&self, p: Vec3) -> Option<BlockId> {
        if self.chunks().dom().contains(section_key(p)) {
            self.chunks()[section_key(p)].voxel((p.x as int) % 16, (p.y as int) % 16, (p.z as int) % 16)
        } else {
            None
        }
    }

    /// Whether `new` is `old` with the voxel at `idx` set to `item` and nothing else changed.
    pub open spec fn written(old: &Self, new: &Self, idx: Vec3, item: BlockId) -> bool {
        &&& new.chunks().dom() == old.chunks().dom().insert(section_key(idx))
        &&& forall|p: Vec3| #[trigger]
            new.voxel(p) == if p == idx {
                Some(item)
            } else {
                old.voxel(p)
            }
    }

    /// The chunks of the volume, each with its position (in an unspecified order).
    pub fn into_chunks(self) -> (r: Vec<Chunk<Positioned>>)
        requires
            self.wf(),
        ensures
            forall|i: int|
                0 <= i < r@.len() ==> {
                    let k = key_of(#[trigger] r@[i].pos_status().0);
                    &&& self.chunks().dom().contains(k)
                    &&& r@[i].wf()
                    &&& forall|x: int, y: int, z: int| #[trigger]
                        r@[i].voxel(x, y, z) == self.chunks()[k].voxel(x, y, z)
                },
            forall|i: int, j: int| 0 <= i < j < r@.len() ==> r@[i].pos_status() != r@[j].pos_status(),
            forall|k: (i64, i64, i64)| #[trigger]
                self.chunks().dom().contains(k) ==> exists|i: int|
                    0 <= i < r@.len() && key_of(#[trigger] r@[i].pos_status().0) == k,
    {
        let ghost chunks = self.chunks();
        let mut entries = chunk_map_into_entries(self.sections);
        let ghost all = entries@;
        let mut out: Vec<Chunk<Positioned>> = Vec::new();
        while entries.len() > 0
            invariant
                entries@ == all.subrange(0, entries@.len() as int),
                out@.len() + entries@.len() == all.len(),
                forall|i: int|
                    0 <= i < all.len() ==> {
                        &&& chunks.dom().contains(#[trigger] all[i].0)
                        &&& all[i].1 == chunks[all[i].0]
                    },
                forall|i: int, j: int| 0 <= i < j < all.len() ==> all[i].0 != all[j].0,
                forall|k: (i64, i64, i64)| #[trigger]
                    chunks.dom().contains(k) ==> chunks[k].wf(),
                forall|i: int|
                    0 <= i < out@.len() ==> {
                        let e = #[trigger] all[all.len() - 1 - i];
                        &&& key_of(out@[i].pos_status().0) == e.0
                        &&& out@[i].wf()
                        &&& forall|x: int, y: int, z: int| #[trigger]
                            out@[i].voxel(x, y, z) == e.1.voxel(x, y, z)
                    },
            decreases entries@.len(),
        {
            let (key, chunk) = entries.pop().unwrap();
            let ghost n = entries@.len();
            assert(all[n as int] == (key, chunk));
            let positioned = chunk.to_positioned(Vec3 { x: key.0, y: key.1, z: key.2 });
            out.push(positioned);
            proof {
                assert(all[all.len() - 1 - (out@.len() - 1)] == all[n as int]);
            }
        }
        proof {
            assert forall|i: int| 0 <= i < out@.len() implies {
                let k = key_of(#[trigger] out@[i].pos_status().0);
                &&& chunks.dom().contains(k)
                &&& out@[i].wf()
                &&& forall|x: int, y: int, z: int| #[trigger]
                    out@[i].voxel(x, y, z) == chunks[k].voxel(x, y, z)
            } by {
                let e = all[all.len() - 1 - i];
                assert(chunks.dom().contains(e.0));
            }
            assert forall|i: int, j: int| 0 <= i < j < out@.len() implies out@[i].pos_status()
                != out@[j].pos_status() by {
                let a = all[all.len() - 1 - i];
                let b = all[all.len() - 1 - j];
                assert(a.0 != b.0);
            }
            assert forall|k: (i64, i64, i64)| #[trigger] chunks.dom().contains(k) implies exists|
                i: int,
            | 0 <= i < out@.len() && key_of(#[trigger] out@[i].pos_status().0) == k by {
                let j = choose|j: int| 0 <= j < all.len() && #[trigger] all[j].0 == k;
                let i = all.len() - 1 - j;
                assert(all[all.len() - 1 - i] == all[j]);
                assert(key_of(out@[i].pos_status().0) == k);
            }
        }
        out
    }

    /// Stores `chunk` at its position, in place of any chunk there.
    pub fn add_chunk(&mut self, chunk: Chunk<Positioned>)
        requires
            old(self).wf(),
            chunk.wf(),
        ensures
            final(self).wf(),
            final(self).chunks().dom() == old(self).chunks().dom().insert(
                key_of(chunk.pos_status().0),
            ),
            forall|k: (i64, i64, i64)| #[trigger]
                old(self).chunks().dom().contains(k) && k != key_of(chunk.pos_status().0)
                    ==> final(self).chunks()[k] == old(self).chunks()[k],
            forall|x: int, y: int, z: int| #[trigger]
                final(self).chunks()[key_of(chunk.pos_status().0)].voxel(x, y, z) == chunk.voxel(
                    x,
                    y,
                    z,
                ),
    {
        let p = chunk.pos();
        let ghost k = key_of(p);
        let c = chunk.to_unpositioned();
        let _ = chunk_map_insert(&mut self.sections, (p.x, p.y, p.z), c);
        assert(self.chunks().dom() =~= old(self).chunks().dom().insert(k));
    }

    /// Sets the voxel at `idx` (which the caller has placed in the volume's bounds).
    fn write(&mut self, idx: Vec3, item: BlockId) -> (r: bool)
        requires
            old(self).wf(),
        ensures
            r,
            final(self).wf(),
            Self::written(old(self), final(self), idx, item),
            final(self).bounded == old(self).bounded,
    {
        let section_pos = to_section_pos(idx);
        let voxel_pos = to_voxel_pos(idx);
        let key = (section_pos.x, section_pos.y, section_pos.z);
        let ghost before = self.chunks();
        proof {
            lemma_split16(idx.x as int, 0, 0);
            lemma_split16(idx.y as int, 0, 0);
            lemma_split16(idx.z as int, 0, 0);
        }
        let r = match chunk_map_get_mut(&mut self.sections, key) {
            Some(chunk) => chunk.set(voxel_pos, item),
            None => {
                let mut chunk = Chunk::<Unpositioned>::new();
                let r = chunk.set(voxel_pos, item);
                let _ = chunk_map_insert(&mut self.sections, key, chunk);
                r
            },
        };
        proof {
            let after = self.chunks();
            assert(after.dom() =~= before.dom().insert(key));
            assert forall|p: Vec3| #[trigger]
                self.voxel(p) == if p == idx {
                    Some(item)
                } else {
                    old(self).voxel(p)
                } by {
                lemma_split16(p.x as int, 0, 0);
                lemma_split16(p.y as int, 0, 0);
                lemma_split16(p.z as int, 0, 0);
                if section_key(p) == key && p != idx {
                    if (p.x as int) % 16 == (idx.x as int) % 16 && (p.y as int) % 16 == (idx.y as int) % 16 && (p.z as int) % 16 == (idx.z as int) % 16 {
                        assert(p.x == idx.x && p.y == idx.y && p.z == idx.z);
                    }
                    assert(section_in_bounds((p.x as int) % 16, (p.y as int) % 16, (p.z as int) % 16));
                }
                if p == idx {
                    assert(section_in_bounds((p.x as int) % 16, (p.y as int) % 16, (p.z as int) % 16));
                }
            }
            assert forall|k: (i64, i64, i64)| #[trigger] after.dom().contains(k) implies after[k].wf() by {
                if k != key {
                    assert(before.dom().contains(k));
                }
            }
        }
        r
    }

    /// The voxel at `idx`, if one was written there.
    fn read(&self, idx: Vec3) -> (r: Option<BlockId>)
        requires
            self.wf(),
        ensures
            r == self.voxel(idx),
    {
        let section_pos = to_section_pos(idx);
        let voxel_pos = to_voxel_pos(idx);
        proof {
            lemma_split16(idx.x as int, 0, 0);
            lemma_split16(idx.y as int, 0, 0);
            lemma_split16(idx.z as int, 0, 0);
        }
        match chunk_map_get(&self.sections, (section_pos.x, section_pos.y, section_pos.z)) {
            Some(section) => Option::from(section.get(voxel_pos)),
            None => None,
        }
    }
}

impl VoxelVolume<Unbounded> {
    /// An unbounded volume that holds no voxel.
    pub fn new() -> (r: Self)
        ensures
            r.wf(),
            r.chunks() == no_chunks(),
    {
        VoxelVolume { bounded: Unbounded, sections: chunk_map_new() }
    }

    /// Sets the voxel at `idx` to `item`; every position lies in an unbounded volume, so this
    /// always succeeds and returns `true`.
    pub fn set(&mut self, idx: Vec3, item: BlockId) -> (r: bool)
        requires
            old(self).wf(),
        ensures
            r,
            final(self).wf(),
            Self::written(old(self), final(self), idx, item),
    {
        self.write(idx, item)
    }

    /// The voxel at `idx`, if one was written there.
    pub fn get(&self, idx: Vec3) -> (r: Option<BlockId>)
        requires
            self.wf(),
        ensures
            r == self.voxel(idx),
    {
        self.read(idx)
    }

    /// The bounds of an unbounded volume: the box from `i64::MIN` to `i64::MAX` on every axis.
    pub fn bounding_box(&self) -> (r: BoundingBox)
        ensures
            r.lo() == (Vec3 { x: i64::MIN, y: i64::MIN, z: i64::MIN }),
            r.hi() == (Vec3 { x: i64::MAX, y: i64::MAX, z: i64::MAX }),
    {
        BoundingBox::from_range(
            Vec3 { x: i64::MIN, y: i64::MIN, z: i64::MIN },
            Vec3 { x: i64::MAX, y: i64::MAX, z: i64::MAX },
        )
    }
}

impl Default for VoxelVolume<Unbounded> {
    /// An unbounded volume that holds no voxel.
    fn default() -> (r: Self)
        ensures
            r.wf(),
            r.chunks() == no_chunks(),
    {
        Self::new()
    }
}

impl VoxelVolume<Bounded> {
    /// The box the volume is clipped to (both corners included).
    pub closed spec fn region(&self) -> BoundingBox {
        self.bounded.0
    }

    /// Whether `p` lies in the volume's box, both corners included.
    pub open spec fn in_region(&self, p: Vec3) -> bool {
        &&& self.region().lo().x <= p.x <= self.region().hi().x
        &&& self.region().lo().y <= p.y <= self.region().hi().y
        &&& self.region().lo().z <= p.z <= self.region().hi().z
    }

    /// Whether the box's largest corner lies below `i64::MAX` on every axis, so that the
    /// exclusive bounding box can be formed.
    pub open spec fn bounds_fit(&self) -> bool {
        &&& self.region().hi().x < i64::MAX
        &&& self.region().hi().y < i64::MAX
        &&& self.region().hi().z < i64::MAX
    }

    /// A volume clipped to `bounds`, holding no voxel.
    pub fn new(bounds: BoundingBox) -> (r: Self)
        ensures
            r.wf(),
            r.chunks() == no_chunks(),
            r.region().lo() == bounds.lo(),
            r.region().hi() == bounds.hi(),
    {
        let region = BoundingBox::from_range(bounds.min(), bounds.max());
        VoxelVolume { bounded: Bounded(region), sections: chunk_map_new() }
    }

    /// The volume's bounds as a half-open box: from its box's smallest corner to one past its
    /// largest corner.
    pub fn bounding_box(&self) -> (r: BoundingBox)
        requires
            self.bounds_fit(),
        ensures
            r.lo() == self.region().lo(),
            r.hi() == (Vec3 {
                x: (self.region().hi().x + 1) as i64,
                y: (self.region().hi().y + 1) as i64,
                z: (self.region().hi().z + 1) as i64,
            }),
            self.region().lo().x <= self.region().hi().x,
            self.region().lo().y <= self.region().hi().y,
            self.region().lo().z <= self.region().hi().z,
    {
        let min = self.bounded.0.min();
        let max = self.bounded.0.max();
        BoundingBox::from_range(min, Vec3 { x: max.x + 1, y: max.y + 1, z: max.z + 1 })
    }

    /// Sets the voxel at `idx` to `item` if `idx` lies in the volume's box; returns whether it
    /// did (nothing changes otherwise).
    pub fn set(&mut self, idx: Vec3, item: BlockId) -> (r: bool)
        requires
            old(self).wf(),
            old(self).bounds_fit(),
        ensures
            final(self).wf(),
            final(self).region() == old(self).region(),
            r == old(self).in_region(idx),
            r ==> Self::written(old(self), final(self), idx, item),
            !r ==> final(self).chunks() == old(self).chunks(),
    {
        if !self.bounding_box().contains(idx) {
            return false;
        }
        self.write(idx, item)
    }

    /// What is at `idx`: `OutOfBounds` outside the volume's box, else the voxel written there
    /// or `Empty`.
    pub fn get(&self, idx: Vec3) -> (r: VoxelSlot)
        requires
            self.wf(),
            self.bounds_fit(),
        ensures
            r == if !self.in_region(idx) {
                VoxelSlot::OutOfBounds
            } else {
                match self.voxel(idx) {
                    Some(v) => VoxelSlot::Occupied(v),
                    None => VoxelSlot::Empty,
                }
            },
    {
        if !self.bounding_box().contains(idx) {
            return VoxelSlot::OutOfBounds;
        }
        match self.read(idx) {
            Some(v) => VoxelSlot::Occupied(v),
            None => VoxelSlot::Empty,
        }
    }
}

/// A volume's voxels are the voxels of its chunks, each chunk placed at its own position: for
/// a positioned chunk `c` standing at the chunk position that holds `p` and carrying the
/// voxels the volume keeps there (as [`VoxelVolume::into_chunks`] hands chunks out, and as
/// [`VoxelVolume::add_chunk`] stores them), what `c` holds at the worldspace position `p`
/// (what [`Chunk::get`] reads there) is the volume's voxel at `p`. So after `set(p, b)` the
/// chunk handed out for `p` reads `Occupied(b)` at `p`, and a chunk added with a voxel at some
/// worldspace position is read back by the volume at that same position.
pub proof fn lemma_volume_voxel_is_chunk_slot<B: Boundness>(
    v: VoxelVolume<B>,
    c: Chunk<Positioned>,
    p: Vec3,
)
    requires
        key_of(c.pos_status().0) == section_key(p),
        v.chunks().dom().contains(section_key(p)),
        forall|x: int, y: int, z: int| #[trigger]
            c.voxel(x, y, z) == v.chunks()[section_key(p)].voxel(x, y, z),
    ensures
        c.slot(p) == match v.voxel(p) {
            Some(b) => VoxelSlot::Occupied(b),
            None => VoxelSlot::Empty,
        },
{
    lemma_split16(p.x as int, 0, 0);
    lemma_split16(p.y as int, 0, 0);
    lemma_split16(p.z as int, 0, 0);
    let o = c.origin();
    assert(o.0 == 16 * ((p.x as int) / 16));
    assert(o.1 == 16 * ((p.y as int) / 16));
    assert(o.2 == 16 * ((p.z as int) / 16));
    assert(section_in_bounds(p.x - o.0, p.y - o.1, p.z - o.2));
}

} // verus!
