//! Plain identifiers shared by the protocol and the generators.
use vstd::prelude::*;

verus! {

/// The ID of a block (voxel) type.
#[derive(Debug, PartialEq, Eq, Structural, Copy, Clone, Default)]
pub struct BlockId(pub u32);

impl BlockId {
    /// Wraps a raw block ID.
    pub fn new(id: u32) -> (r: Self)
        ensures
            r.0 == id,
    {
        BlockId(id)
    }
}

impl From<u32> for BlockId {
    /// Wraps a raw block ID.
    fn from(id: u32) -> (r: BlockId) {
        BlockId(id)
    }
}

impl vstd::std_specs::convert::FromSpecImpl<u32> for BlockId {
    open spec fn obeys_from_spec() -> bool {
        true
    }

    open spec fn from_spec(id: u32) -> BlockId {
        BlockId(id)
    }
}

impl From<BlockId> for u32 {
    /// The raw block ID.
    fn from(id: BlockId) -> (r: u32) {
        id.0
    }
}

impl vstd::std_specs::convert::FromSpecImpl<BlockId> for u32 {
    open spec fn obeys_from_spec() -> bool {
        true
    }

    open spec fn from_spec(id: BlockId) -> u32 {
        id.0
    }
}

/// The ID of a request made by a client; replies carry the ID of the request they answer.
#[derive(Debug, PartialEq, Eq, Structural, Copy, Clone, Hash)]
pub struct RequestId(pub u32);

impl From<u32> for RequestId {
    /// Wraps a raw request ID.
    fn from(id: u32) -> (r: RequestId) {
        RequestId(id)
    }
}

impl vstd::std_specs::convert::FromSpecImpl<u32> for RequestId {
    open spec fn obeys_from_spec() -> bool {
        true
    }

    open spec fn from_spec(id: u32) -> RequestId {
        RequestId(id)
    }
}

impl From<RequestId> for u32 {
    /// The raw request ID.
    fn from(id: RequestId) -> (r: u32) {
        id.0
    }
}

impl vstd::std_specs::convert::FromSpecImpl<RequestId> for u32 {
    open spec fn obeys_from_spec() -> bool {
        true
    }

    open spec fn from_spec(id: RequestId) -> u32 {
        id.0
    }
}

/// The ID under which a generator was registered.
#[derive(Debug, PartialEq, Eq, Structural, Copy, Clone, Hash)]
pub struct GeneratorId(pub u32);

impl From<u32> for GeneratorId {
    /// Wraps a raw generator ID.
    fn from(id: u32) -> (r: GeneratorId) {
        GeneratorId(id)
    }
}

impl vstd::std_specs::convert::FromSpecImpl<u32> for GeneratorId {
    open spec fn obeys_from_spec() -> bool {
        true
    }

    open spec fn from_spec(id: u32) -> GeneratorId {
        GeneratorId(id)
    }
}

impl From<GeneratorId> for u32 {
    /// The raw generator ID.
    fn from(id: GeneratorId) -> (r: u32) {
        id.0
    }
}

impl vstd::std_specs::convert::FromSpecImpl<GeneratorId> for u32 {
    open spec fn obeys_from_spec() -> bool {
        true
    }

    open spec fn from_spec(id: GeneratorId) -> u32 {
        id.0
    }
}

} // verus!
