//! What generation requests carry, and the registries that resolve them to generators.
use vstd::prelude::*;
use std::collections::HashMap;
use std::ops::Range;

use crate::bounds::{max_i, min_i, BoundingBox};
use crate::chunk::{fits_i32, is_fresh_section, Chunk};
use crate::ids::{BlockId, GeneratorId};
use crate::index::{Vec2, Vec3};

verus! {

/// The arguments of a chunk generation: the chunk's position, in chunk units.
#[derive(Debug, Copy, Clone)]
pub struct GenerationArgs {
    pub pos: Vec2,
}

/// What a generator factory is given to build a generator.
#[derive(Debug, Copy, Clone)]
pub struct FactoryParameters {
    pub max_height: i32,
    pub min_height: i32,
    pub default: BlockId,
}

/// Why a generation parameter could not be read.
#[derive(Debug, Clone, PartialEq, Eq)]
pub enum ParameterError {
    /// No parameter with this name.
    DoesntExist(String),
    /// The parameter with this name (first field) could not be parsed from its raw data
    /// (second field); the third field gives the details.
    ParseError(String, String, String),
}

/// The parameters of a generation request.
#[derive(Debug, Clone, Default)]
pub struct Parameters {
    pub generator_name: String,
}

impl Parameters {
    /// The name of the generator the request asks for.
    pub fn generator_name(&self) -> (r: &str)
        ensures
            r@ == self.generator_name@,
    {
        self.generator_name.as_str()
    }
}

/// A request to generate voxels around a position (a "brush" stroke).
#[derive(Debug)]
pub struct GenBrushRequest {
    pub pos: Vec3,
    pub parameters: Parameters,
}

/// A request to generate the voxels of a region.
#[derive(Debug)]
pub struct GenRegionRequest {
    pub region: BoundingBox,
    pub parameters: Parameters,
}

/// Whether the span of `container` includes the span of `contained`, ends included; each range
/// is read without regard to the order of its ends.
pub open spec fn range_contains_spec(container: Range<i32>, contained: Range<i32>) -> bool {
    &&& max_i(container.start as int, container.end as int) >= max_i(
        contained.start as int,
        contained.end as int,
    )
    &&& min_i(container.start as int, container.end as int) <= min_i(
        contained.start as int,
        contained.end as int,
    )
}

/// Whether the span of `container` includes the span of `contained`, ends included: the
/// larger end of `container` is at least the larger end of `contained`, and its smaller end
/// at most the smaller end of `contained`.
pub fn range_contains_range_inclusive(container: &Range<i32>, contained: &Range<i32>) -> (r: bool)
    ensures
        r == range_contains_spec(*container, *contained),
{
    let ctr_max = if container.start <= container.end {
        container.end
    } else {
        container.start
    };
    let ctr_min = if container.start <= container.end {
        container.start
    } else {
        container.end
    };
    let ctd_max = if contained.start <= contained.end {
        contained.end
    } else {
        contained.start
    };
    let ctd_min = if contained.start <= contained.end {
        contained.start
    } else {
        contained.end
    };
    ctr_max >= ctd_max && ctr_min <= ctd_min
}

/// Every range includes itself, and inclusion carries over: a range that includes a second
/// one includes every range the second includes.
pub proof fn lemma_range_contains_order(a: Range<i32>, b: Range<i32>, c: Range<i32>)
    ensures
        range_contains_spec(a, a),
        range_contains_spec(a, b) && range_contains_spec(b, c) ==> range_contains_spec(a, c),
{
}

/// One end of a vertical range.
#[derive(Debug, Clone, Copy, PartialEq, Eq, Structural)]
pub enum VerticalBound {
    /// The end is this height, included.
    Included(i32),
    /// The end is this height, excluded.
    Excluded(i32),
    /// The range is open at this end.
    Unbounded,
}

/// The first height of a range that starts at `b`.
pub open spec fn start_height(b: VerticalBound) -> int {
    match b {
        VerticalBound::Included(n) => n as int,
        VerticalBound::Excluded(n) => n + 1,
        VerticalBound::Unbounded => 0,
    }
}

/// The height just past a range that ends at `b`.
pub open spec fn end_height(b: VerticalBound) -> int {
    match b {
        VerticalBound::Included(n) => n + 1,
        VerticalBound::Excluded(n) => n as int,
        VerticalBound::Unbounded => 0,
    }
}

/// Whether `start..end` is a range of heights that generator arguments accept: both ends
/// bounded, each fitting in `i32` once made half-open, and the start below the end.
pub open spec fn accepts_bounds(start: VerticalBound, end: VerticalBound) -> bool {
    &&& start !is Unbounded
    &&& end !is Unbounded
    &&& fits_i32(start_height(start))
    &&& fits_i32(end_height(end))
    &&& start_height(start) < end_height(end)
}

/// The arguments of a chunk generation: the column position and the half-open range of
/// heights to generate.
#[derive(Debug)]
pub struct GeneratorArgs {
    pos: Vec2,
    y_bounds: Range<i32>,
}

impl GeneratorArgs {
    /// The column position, in chunk units.
    pub closed spec fn pos_spec(&self) -> Vec2 {
        self.pos
    }

    /// The half-open range of heights.
    pub closed spec fn bounds_spec(&self) -> Range<i32> {
        self.y_bounds
    }

    /// Arguments for the column `pos` over the heights from `start` to `end`.
    pub fn new(pos: Vec2, start: VerticalBound, end: VerticalBound) -> (r: Self)
        requires
            accepts_bounds(start, end),
        ensures
            r.pos_spec() == pos,
            r.bounds_spec().start == start_height(start),
            r.bounds_spec().end == end_height(end),
    {
        let s: i32 = match start {
            VerticalBound::Excluded(n) => n + 1,
            VerticalBound::Included(n) => n,
            VerticalBound::Unbounded => 0,
        };
        let e: i32 = match end {
            VerticalBound::Excluded(n) => n,
            VerticalBound::Included(n) => n + 1,
            VerticalBound::Unbounded => 0,
        };
        GeneratorArgs { pos, y_bounds: Range { start: s, end: e } }
    }

    /// The half-open range of heights.
    pub fn bounds(&self) -> (r: Range<i32>)
        ensures
            r == self.bounds_spec(),
    {
        Range { start: self.y_bounds.start, end: self.y_bounds.end }
    }

    /// The larger end of the range of heights.
    pub fn max_y(&self) -> (r: i32)
        ensures
            r == max_i(self.bounds_spec().start as int, self.bounds_spec().end as int),
    {
        let b = self.bounds();
        if b.start <= b.end {
            b.end
        } else {
            b.start
        }
    }

    /// The smaller end of the range of heights.
    pub fn min_y(&self) -> (r: i32)
        ensures
            r == min_i(self.bounds_spec().start as int, self.bounds_spec().end as int),
    {
        let b = self.bounds();
        if b.start <= b.end {
            b.start
        } else {
            b.end
        }
    }

    /// The column position, in chunk units.
    pub fn pos(&self) -> (r: Vec2)
        ensures
            r == self.pos_spec(),
    {
        self.pos
    }
}

/// The ID of a generation in progress.
#[derive(Debug, Clone, Copy, PartialEq, Eq, Structural, Hash)]
pub struct GenerationId(pub u32);

/// Why a chunk could not be prepared for a generator.
#[derive(Debug, Clone, Copy, PartialEq, Eq, Structural)]
pub enum ChunkPreparationError {
    /// The generator does not support generating chunks of the requested vertical size.
    UnsupportedHeight,
    /// The chunk could not be initialized (its position or height does not fit).
    ChunkInitFailed,
    /// The generator covers no height at all.
    EmptyHeights,
}

/// Whether a chunk at `pos` spanning the heights between `lo` and `hi` can be built.
pub open spec fn chunk_fits(pos: Vec2, lo: int, hi: int) -> bool {
    &&& fits_i32(16 * pos.x as int)
    &&& fits_i32(16 * pos.z as int)
    &&& 0 <= hi - lo <= i32::MAX - 16
}

/// The empty chunk a generator whose heights are `generator_bounds` fills for `args`: refused
/// with `UnsupportedHeight` unless the generator's range includes the requested one, and with
/// `ChunkInitFailed` unless the chunk can be built; otherwise a chunk at the requested column,
/// over the requested heights, whose sections read as `default`.
pub fn prepare_chunk(generator_bounds: &Range<i32>, default: BlockId, args: &GeneratorArgs) -> (r:
    Result<Chunk, ChunkPreparationError>)
    ensures
        !range_contains_spec(*generator_bounds, args.bounds_spec()) ==> r == Err::<
            Chunk,
            ChunkPreparationError,
        >(ChunkPreparationError::UnsupportedHeight),
        range_contains_spec(*generator_bounds, args.bounds_spec()) && !chunk_fits(
            args.pos_spec(),
            min_i(args.bounds_spec().start as int, args.bounds_spec().end as int),
            max_i(args.bounds_spec().start as int, args.bounds_spec().end as int),
        ) ==> r == Err::<Chunk, ChunkPreparationError>(ChunkPreparationError::ChunkInitFailed),
        range_contains_spec(*generator_bounds, args.bounds_spec()) && chunk_fits(
            args.pos_spec(),
            min_i(args.bounds_spec().start as int, args.bounds_spec().end as int),
            max_i(args.bounds_spec().start as int, args.bounds_spec().end as int),
        ) ==> (r matches Ok(c) && c.wf() && c.chunk_pos() == args.pos_spec() && c.min_y()
            == min_i(args.bounds_spec().start as int, args.bounds_spec().end as int) && c.max_y()
            == max_i(args.bounds_spec().start as int, args.bounds_spec().end as int) && forall|
            i: int,
        |
            0 <= i < c.section_seq().len() ==> is_fresh_section(
                #[trigger] c.section_seq()[i],
                default,
            )),
{
    let requested = args.bounds();
    if !range_contains_range_inclusive(generator_bounds, &requested) {
        return Err(ChunkPreparationError::UnsupportedHeight);
    }
    let pos = args.pos();
    let lo = args.min_y();
    let hi = args.max_y();
    if pos.x < -134217728 || pos.x > 134217727 || pos.z < -134217728 || pos.z > 134217727 {
        return Err(ChunkPreparationError::ChunkInitFailed);
    }
    if (hi as i64) - (lo as i64) > (i32::MAX - 16) as i64 {
        return Err(ChunkPreparationError::ChunkInitFailed);
    }
    Ok(Chunk::new(default, pos, lo, hi))
}

/// `rand::random::<u32>()`: a random number from the thread-local generator; nothing is
/// stated of it.
#[verifier::external_body]
fn random_u32() -> (r: u32) {
    rand::random::<u32>()
}

/// Why a generator could not be registered.
#[derive(Debug, Clone, Copy, PartialEq, Eq, Structural)]
pub struct GeneratorExists(pub u32);

/// A generator type that carries its own generator ID.
pub trait HasGeneratorId {
    /// The ID under which generators of this type are registered.
    const GENERATOR_ID: GeneratorId;
}

impl<G: HasGeneratorId> GeneratorManager<G> {
    /// Registers `generator` under the ID of its type, unless a generator already has that ID
    /// (then nothing changes and the error names the ID).
    pub fn add_identified(&mut self, generator: G) -> (r: Result<(), GeneratorExists>)
        ensures
            old(self).generators().dom().contains(G::GENERATOR_ID.0) ==> r == Err::<
                (),
                GeneratorExists,
            >(GeneratorExists(G::GENERATOR_ID.0)) && final(self).generators()
                == old(self).generators(),
            !old(self).generators().dom().contains(G::GENERATOR_ID.0) ==> r is Ok
                && final(self).generators() == old(self).generators().insert(
                G::GENERATOR_ID.0,
                generator,
            ),
    {
        self.add_generator(G::GENERATOR_ID.0, generator)
    }
}

/// The chunk generators of a server, by generator ID.
#[derive(Debug)]
pub struct GeneratorManager<G> {
    generators: HashMap<u32, G>,
}

impl<G> GeneratorManager<G> {
    /// The registered generators, by ID.
    pub closed spec fn generators(&self) -> Map<u32, G> {
        self.generators@
    }

    /// A manager with no generator.
    pub fn new() -> (r: Self)
        ensures
            r.generators() == Map::<u32, G>::empty(),
    {
        GeneratorManager { generators: HashMap::new() }
    }

    /// Registers `generator` under `id`, unless a generator already has that ID (then nothing
    /// changes and the error names the ID).
    pub fn add_generator(&mut self, id: u32, generator: G) -> (r: Result<(), GeneratorExists>)
        ensures
            old(self).generators().dom().contains(id) ==> r == Err::<(), GeneratorExists>(
                GeneratorExists(id),
            ) && final(self).generators() == old(self).generators(),
            !old(self).generators().dom().contains(id) ==> r is Ok && final(self).generators()
                == old(self).generators().insert(id, generator),
    {
        broadcast use vstd::std_specs::hash::group_hash_axioms;
        if self.generators.contains_key(&id) {
            Err(GeneratorExists(id))
        } else {
            self.generators.insert(id, generator);
            Ok(())
        }
    }

    /// What a drawn ID `candidate` gives: the ID if no generator has it yet, else `None`.
    pub open spec fn candidate_outcome(&self, candidate: u32) -> Option<u32> {
        if self.generators().dom().contains(candidate) {
            None
        } else {
            Some(candidate)
        }
    }

    /// The ID `candidate` if no generator has it yet, else `None`.
    pub fn free_id(&self, candidate: u32) -> (r: Option<u32>)
        ensures
            r == self.candidate_outcome(candidate),
    {
        broadcast use vstd::std_specs::hash::group_hash_axioms;
        if self.generators.contains_key(&candidate) {
            None
        } else {
            Some(candidate)
        }
    }

    /// One draw of a random generator ID: the drawn ID if no generator has it yet, else
    /// `None` (the caller draws again). Which ID is drawn is left to chance.
    pub fn try_random_id(&self) -> (r: Option<u32>)
        ensures
            r matches Some(id) ==> !self.generators().dom().contains(id),
            exists|candidate: u32| r == #[trigger] self.candidate_outcome(candidate),
    {
        let candidate = random_u32();
        self.free_id(candidate)
    }

    /// The generator that a chunk submitted for `id` goes to, or `ManagerSubmitError` naming
    /// the ID if no generator is registered under it.
    pub fn submit_chunk(&self, id: GeneratorId) -> (r: Result<&G, ManagerSubmitError>)
        ensures
            match r {
                Ok(g) => self.generators().dom().contains(id.0) && *g == self.generators()[id.0],
                Err(e) => !self.generators().dom().contains(id.0) && e == ManagerSubmitError(id),
            },
    {
        match self.generator(id.0) {
            Some(g) => Ok(g),
            None => Err(ManagerSubmitError(id)),
        }
    }

    /// The generator registered under `id`, if any.
    pub fn generator(&self, id: u32) -> (r: Option<&G>)
        ensures
            match r {
                Some(g) => self.generators().dom().contains(id) && *g == self.generators()[id],
                None => !self.generators().dom().contains(id),
            },
    {
        broadcast use vstd::std_specs::hash::group_hash_axioms;
        self.generators.get(&id)
    }
}

/// Why a generation request could not be served.
#[derive(Debug, Clone, PartialEq, Eq)]
pub enum GenerationError {
    /// No generator factory has this name.
    GeneratorNotFound(String),
    /// The factory failed to build a generator; the details say why.
    InternalFactoryError(String),
}

/// A submission named a generator ID that nothing is registered under.
#[derive(Debug, Clone, Copy, PartialEq, Eq, Structural)]
pub struct ManagerSubmitError(pub GeneratorId);

/// Whether two strings hold the same characters.
fn str_eq(a: &str, b: &str) -> (r: bool)
    ensures
        r == (a@ == b@),
{
    let n = a.unicode_len();
    if n != b.unicode_len() {
        return false;
    }
    let mut i: usize = 0;
    while i < n
        invariant
            n == a@.len(),
            n == b@.len(),
            i <= n,
            forall|k: int| 0 <= k < i ==> a@[k] == b@[k],
        decreases n - i,
    {
        if a.get_char(i) != b.get_char(i) {
            return false;
        }
        i = i + 1;
    }
    assert(a@ =~= b@);
    true
}

/// Generator factories by name; adding a factory under a name already taken replaces the
/// factory registered there.
#[derive(Debug)]
pub struct FactoryRegistry<F> {
    entries: Vec<(String, F)>,
}

impl<F> FactoryRegistry<F> {
    /// The registered factories, as (name, factory) pairs with distinct names.
    pub closed spec fn entries(&self) -> Seq<(String, F)> {
        self.entries@
    }

    /// The names are distinct.
    pub open spec fn wf(&self) -> bool {
        forall|i: int, j: int|
            0 <= i < j < self.entries().len() ==> self.entries()[i].0@ != self.entries()[j].0@
    }

    /// The factories, by name.
    pub open spec fn factories(&self) -> Map<Seq<char>, F> {
        Map::new(
            |n: Seq<char>| exists|i: int| 0 <= i < self.entries().len() && self.entries()[i].0@ == n,
            |n: Seq<char>|
                self.entries()[choose|i: int|
                    0 <= i < self.entries().len() && self.entries()[i].0@ == n].1,
        )
    }

    /// A registry with no factory.
    pub fn new() -> (r: Self)
        ensures
            r.wf(),
            r.factories() == Map::<Seq<char>, F>::empty(),
    {
        let r = FactoryRegistry { entries: Vec::new() };
        assert(r.factories() =~= Map::<Seq<char>, F>::empty());
        r
    }

    /// The position of the entry named `name`, if any.
    fn position(&self, name: &str) -> (r: Option<usize>)
        ensures
            match r {
                Some(i) => i < self.entries().len() && self.entries()[i as int].0@ == name@,
                None => forall|i: int|
                    0 <= i < self.entries().len() ==> self.entries()[i].0@ != name@,
            },
    {
        let mut i: usize = 0;
        while i < self.entries.len()
            invariant
                i <= self.entries@.len(),
                forall|k: int| 0 <= k < i ==> self.entries@[k].0@ != name@,
            decreases self.entries@.len() - i,
        {
            if str_eq(self.entries[i].0.as_str(), name) {
                return Some(i);
            }
            i = i + 1;
        }
        None
    }

    /// Registers `factory` under `name`, replacing any factory registered under that name.
    pub fn insert(&mut self, name: String, factory: F)
        requires
            old(self).wf(),
        ensures
            final(self).wf(),
            final(self).factories() == old(self).factories().insert(name@, factory),
    {
        let ghost n = name@;
        match self.position(name.as_str()) {
            Some(i) => {
                let ghost before = self.entries@;
                self.entries.set(i, (name, factory));
                proof {
                    assert forall|a: int, b: int|
                        0 <= a < b < self.entries@.len() implies self.entries@[a].0@
                        != self.entries@[b].0@ by {
                        assert(before[a].0@ != before[b].0@);
                    }
                    assert(self.factories() =~= old(self).factories().insert(n, factory)) by {
                        assert forall|m: Seq<char>|
                            #[trigger] self.factories().dom().contains(m) implies m == n
                                || old(self).factories().dom().contains(m) by {
                            let k = choose|k: int|
                                0 <= k < self.entries@.len() && self.entries@[k].0@ == m;
                            if k != i {
                                assert(before[k].0@ == m);
                            }
                        }
                        assert forall|m: Seq<char>|
                            old(self).factories().dom().contains(m) implies #[trigger] self.factories().dom().contains(m) by {
                            let k = choose|k: int| 0 <= k < before.len() && before[k].0@ == m;
                            assert(self.entries@[k].0@ == m);
                        }
                        assert(self.entries@[i as int].0@ == n);
                        assert forall|m: Seq<char>|
                            #[trigger] self.factories().dom().contains(m) implies self.factories()[m]
                                == old(self).factories().insert(n, factory)[m] by {
                            let k = choose|k: int|
                                0 <= k < self.entries@.len() && self.entries@[k].0@ == m;
                            if m != n {
                                let j = choose|j: int| 0 <= j < before.len() && before[j].0@ == m;
                                assert(j == k);
                            } else {
                                assert(k == i);
                            }
                        }
                    }
                }
            },
            None => {
                let ghost before = self.entries@;
                self.entries.push((name, factory));
                proof {
                    let last = before.len() as int;
                    assert(self.entries@[last].0@ == n);
                    assert(self.factories() =~= old(self).factories().insert(n, factory)) by {
                        assert forall|m: Seq<char>|
                            #[trigger] self.factories().dom().contains(m) implies m == n
                                || old(self).factories().dom().contains(m) by {
                            let k = choose|k: int|
                                0 <= k < self.entries@.len() && self.entries@[k].0@ == m;
                            if k != last {
                                assert(before[k].0@ == m);
                            }
                        }
                        assert forall|m: Seq<char>|
                            old(self).factories().dom().contains(m) implies #[trigger] self.factories().dom().contains(m) by {
                            let k = choose|k: int| 0 <= k < before.len() && before[k].0@ == m;
                            assert(self.entries@[k].0@ == m);
                        }
                        assert forall|m: Seq<char>|
                            #[trigger] self.factories().dom().contains(m) implies self.factories()[m]
                                == old(self).factories().insert(n, factory)[m] by {
                            let k = choose|k: int|
                                0 <= k < self.entries@.len() && self.entries@[k].0@ == m;
                            if m != n {
                                let j = choose|j: int| 0 <= j < before.len() && before[j].0@ == m;
                                assert(self.entries@[j].0@ == m);
                                assert(j == k);
                            } else if k != last {
                                assert(old(self).entries()[k].0@ != n);
                            }
                        }
                    }
                }
            },
        }
    }

    /// The factory registered under `name`, if any.
    pub fn get(&self, name: &str) -> (r: Option<&F>)
        requires
            self.wf(),
        ensures
            match r {
                Some(f) => self.factories().dom().contains(name@) && *f == self.factories()[name@],
                None => !self.factories().dom().contains(name@),
            },
    {
        match self.position(name) {
            Some(i) => {
                proof {
                    let k = choose|k: int|
                        0 <= k < self.entries@.len() && self.entries@[k].0@ == name@;
                    assert(k == i);
                }
                Some(&self.entries[i].1)
            },
            None => None,
        }
    }

    /// The factory that a request with `parameters` asks for, or `GeneratorNotFound` with the
    /// requested name if none is registered under it.
    pub fn find(&self, parameters: &Parameters) -> (r: Result<&F, GenerationError>)
        requires
            self.wf(),
        ensures
            match r {
                Ok(f) => self.factories().dom().contains(parameters.generator_name@) && *f
                    == self.factories()[parameters.generator_name@],
                Err(e) => !self.factories().dom().contains(parameters.generator_name@) && (e matches GenerationError::GeneratorNotFound(n) && n@ == parameters.generator_name@),
            },
    {
        let name = parameters.generator_name();
        match self.get(name) {
            Some(f) => Ok(f),
            None => Err(GenerationError::GeneratorNotFound(parameters.generator_name.clone())),
        }
    }
}

} // verus!
