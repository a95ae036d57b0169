//! Packet buffers (a big-endian packet ID followed by the packet's serialized body) and the
//! packets of the protocol.
use vstd::prelude::*;

use crate::chunk::Chunk;
use crate::generation::{FactoryParameters, GenerationArgs};
use crate::ids::{BlockId, GeneratorId, RequestId};
use crate::index::Vec2;

verus! {

/// Why a packet buffer could not be built or read.
#[derive(Debug, Clone, Copy, PartialEq, Eq, Structural)]
pub enum PacketBufferError {
    /// The data was too short to hold a packet ID.
    PacketTooShort,
    /// The buffer holds a packet with the first ID, not the second (the one asked for).
    MismatchedPacketId(u16, u16),
    /// Reading the data failed.
    IoError,
}

/// A packet of the protocol, identified on the wire by its ID.
pub trait Packet {
    /// The packet's ID.
    spec fn spec_id() -> u16;

    /// The packet's ID.
    fn id() -> (r: u16)
        ensures
            r == Self::spec_id(),
    ;
}

/// The packet ID that the first two bytes of `bytes` spell, big-endian.
pub open spec fn packet_id_of(bytes: Seq<u8>) -> u16 {
    (bytes[0] as int * 256 + bytes[1] as int) as u16
}

/// The big-endian bytes of a packet ID.
pub open spec fn id_bytes(id: u16) -> Seq<u8> {
    seq![(id / 256) as u8, (id % 256) as u8]
}

/// Reading back the ID of a buffer that starts with an ID's bytes gives that ID, and the rest
/// of the buffer is what followed the ID.
pub proof fn lemma_id_bytes_roundtrip(id: u16, body: Seq<u8>)
    ensures
        (id_bytes(id) + body).len() == body.len() + 2,
        packet_id_of(id_bytes(id) + body) == id,
        (id_bytes(id) + body).subrange(2, body.len() + 2int) == body,
{
    let b = id_bytes(id) + body;
    assert(b[0] == (id / 256) as u8);
    assert(b[1] == (id % 256) as u8);
    assert(b.subrange(2, body.len() + 2int) =~= body);
}

/// `std::io::Read::read_to_end`: everything left in `reader`, or `None` if reading failed.
/// What it reads depends on the reader, so nothing is stated of it.
#[verifier::external_body]
fn read_to_end<R: std::io::Read>(reader: &mut R) -> (r: Option<Vec<u8>>) {
    let mut buf: Vec<u8> = Vec::new();
    match reader.read_to_end(&mut buf) {
        Ok(_) => Some(buf),
        Err(_) => None,
    }
}

/// A packet as raw data: its ID (two bytes, big-endian) followed by its serialized body.
#[derive(Debug)]
pub struct PacketBuffer {
    inner: Vec<u8>,
}

impl PacketBuffer {
    /// Every buffer holds at least the two bytes of an ID.
    #[verifier::type_invariant]
    spec fn holds_id(&self) -> bool {
        self.inner@.len() >= 2
    }

    /// The raw data: the ID's bytes, then the body.
    pub closed spec fn bytes(&self) -> Seq<u8> {
        self.inner@
    }

    /// The body: the data after the ID.
    pub open spec fn body(&self) -> Seq<u8> {
        self.bytes().subrange(2, self.bytes().len() as int)
    }

    /// A buffer holding `buf`, which must be at least two bytes long (the packet ID).
    pub fn from_bytes(buf: Vec<u8>) -> (r: Result<PacketBuffer, PacketBufferError>)
        ensures
            buf@.len() < 2 ==> r == Err::<PacketBuffer, PacketBufferError>(
                PacketBufferError::PacketTooShort,
            ),
            buf@.len() >= 2 ==> (r matches Ok(p) && p.bytes() == buf@),
    {
        if buf.len() < 2 {
            return Err(PacketBufferError::PacketTooShort);
        }
        Ok(PacketBuffer { inner: buf })
    }

    /// A buffer holding everything left in `reader`: `IoError` if reading fails, else as
    /// [`PacketBuffer::from_bytes`] with what was read.
    pub fn from_reader<R: std::io::Read>(reader: &mut R) -> (r: Result<PacketBuffer, PacketBufferError>)
        ensures
            r is Err ==> r == Err::<PacketBuffer, PacketBufferError>(PacketBufferError::IoError)
                || r == Err::<PacketBuffer, PacketBufferError>(PacketBufferError::PacketTooShort),
            r matches Ok(p) ==> p.bytes().len() >= 2,
    {
        match read_to_end(reader) {
            None => Err(PacketBufferError::IoError),
            Some(buf) => Self::from_bytes(buf),
        }
    }

    /// The packet ID: the first two bytes, big-endian.
    pub fn id(&self) -> (r: u16)
        ensures
            self.bytes().len() >= 2,
            r == packet_id_of(self.bytes()),
    {
        proof {
            use_type_invariant(self);
        }
        (self.inner[0] as u16) * 256 + (self.inner[1] as u16)
    }

    /// The length of the raw data, ID included.
    pub fn len(&self) -> (r: usize)
        ensures
            r == self.bytes().len(),
            r >= 2,
    {
        proof {
            use_type_invariant(self);
        }
        self.inner.len()
    }

    /// Whether the raw data is empty (never, since it holds an ID).
    pub fn is_empty(&self) -> (r: bool)
        ensures
            r == (self.bytes().len() == 0),
            !r,
    {
        proof {
            use_type_invariant(self);
        }
        self.inner.len() == 0
    }

    /// The buffer of a packet of type `P` whose serialized body is `body`.
    pub fn from_packet<P: Packet>(body: &[u8]) -> (r: PacketBuffer)
        requires
            body@.len() + 2 <= usize::MAX,
        ensures
            r.bytes() == id_bytes(P::spec_id()) + body@,
    {
        let id = P::id();
        let mut inner: Vec<u8> = Vec::new();
        inner.push((id / 256) as u8);
        inner.push((id % 256) as u8);
        let mut i: usize = 0;
        while i < body.len()
            invariant
                i <= body@.len(),
                inner@ == id_bytes(id) + body@.subrange(0, i as int),
            decreases body@.len() - i,
        {
            inner.push(body[i]);
            i = i + 1;
            assert(inner@ =~= id_bytes(id) + body@.subrange(0, i as int));
        }
        assert(body@.subrange(0, body@.len() as int) =~= body@);
        PacketBuffer { inner }
    }

    /// The serialized body of the packet, if the buffer holds a packet of type `P`; otherwise
    /// `MismatchedPacketId` with the buffer's ID and `P`'s.
    pub fn to_packet<P: Packet>(&self) -> (r: Result<Vec<u8>, PacketBufferError>)
        ensures
            packet_id_of(self.bytes()) != P::spec_id() ==> r == Err::<
                Vec<u8>,
                PacketBufferError,
            >(PacketBufferError::MismatchedPacketId(packet_id_of(self.bytes()), P::spec_id())),
            packet_id_of(self.bytes()) == P::spec_id() ==> (r matches Ok(b) && b@ == self.body()),
    {
        let id = self.id();
        let expected = P::id();
        if id != expected {
            return Err(PacketBufferError::MismatchedPacketId(id, expected));
        }
        Ok(self.body_vec())
    }

    /// The body: a copy of the data after the ID.
    pub fn body_vec(&self) -> (r: Vec<u8>)
        ensures
            r@ == self.body(),
    {
        proof {
            use_type_invariant(self);
        }
        let mut body: Vec<u8> = Vec::new();
        let mut i: usize = 2;
        while i < self.inner.len()
            invariant
                2 <= i <= self.inner@.len(),
                body@ == self.inner@.subrange(2, i as int),
            decreases self.inner@.len() - i,
        {
            body.push(self.inner[i]);
            i = i + 1;
            assert(body@ =~= self.inner@.subrange(2, i as int));
        }
        body
    }

    /// The raw data: the ID's bytes, then the body.
    pub fn as_bytes(&self) -> (r: &[u8])
        ensures
            r@ == self.bytes(),
    {
        self.inner.as_slice()
    }
}

impl PartialEq for PacketBuffer {
    /// Two buffers are equal when they hold the same bytes.
    fn eq(&self, other: &Self) -> (r: bool) {
        if self.inner.len() != other.inner.len() {
            return false;
        }
        let mut i: usize = 0;
        while i < self.inner.len()
            invariant
                i <= self.inner@.len(),
                self.inner@.len() == other.inner@.len(),
                forall|k: int| 0 <= k < i ==> self.inner@[k] == other.inner@[k],
            decreases self.inner@.len() - i,
        {
            if self.inner[i] != other.inner[i] {
                return false;
            }
            i = i + 1;
        }
        assert(self.inner@ =~= other.inner@);
        true
    }
}

impl vstd::std_specs::cmp::PartialEqSpecImpl for PacketBuffer {
    open spec fn obeys_eq_spec() -> bool {
        true
    }

    open spec fn eq_spec(&self, other: &PacketBuffer) -> bool {
        self.bytes() == other.bytes()
    }
}

/// Building the buffer of a packet and reading it back as a packet of the same type gives
/// back its body, and its ID is the packet type's; read as a packet of another type, it is
/// refused with both IDs.
pub proof fn lemma_packet_roundtrip<P: Packet, Q: Packet>(body: Seq<u8>, buf: PacketBuffer)
    requires
        buf.bytes() == id_bytes(P::spec_id()) + body,
    ensures
        packet_id_of(buf.bytes()) == P::spec_id(),
        buf.body() == body,
        Q::spec_id() != P::spec_id() ==> packet_id_of(buf.bytes()) != Q::spec_id(),
{
    lemma_id_bytes_roundtrip(P::spec_id(), body);
}

/// A request to generate the chunk column at `pos`.
#[derive(Debug)]
pub struct GenerateChunk {
    pub request_id: RequestId,
    pub generator_id: GeneratorId,
    pub pos: Vec2,
}

impl GenerateChunk {
    /// The generation arguments the request carries.
    pub fn args(&self) -> (r: GenerationArgs)
        ensures
            r.pos == self.pos,
    {
        GenerationArgs { pos: self.pos }
    }
}

impl Packet for GenerateChunk {
    open spec fn spec_id() -> u16 {
        0
    }

    fn id() -> (r: u16) {
        0
    }
}

/// The reply to a chunk generation request.
#[derive(Debug)]
pub struct ReplyChunk {
    pub request_id: RequestId,
    pub chunk: Chunk,
}

impl Packet for ReplyChunk {
    open spec fn spec_id() -> u16 {
        1
    }

    fn id() -> (r: u16) {
        1
    }
}

/// A request to register a generator.
#[derive(Debug)]
pub struct AddGenerator {
    pub request_id: RequestId,
    pub name: String,
    pub min_height: i32,
    pub max_height: i32,
    pub default_id: BlockId,
}

impl AddGenerator {
    /// The parameters the generator's factory is given.
    pub fn factory_params(&self) -> (r: FactoryParameters)
        ensures
            r.min_height == self.min_height,
            r.max_height == self.max_height,
            r.default == self.default_id,
    {
        FactoryParameters {
            min_height: self.min_height,
            max_height: self.max_height,
            default: self.default_id,
        }
    }
}

impl Packet for AddGenerator {
    open spec fn spec_id() -> u16 {
        2
    }

    fn id() -> (r: u16) {
        2
    }
}

/// The confirmation that a generator was registered, with its ID.
#[derive(Debug)]
pub struct ConfirmGeneratorAddition {
    pub request_id: RequestId,
    pub generator_id: GeneratorId,
}

impl ConfirmGeneratorAddition {
    /// The confirmation of `request_id`, naming the new generator's ID.
    pub fn new(request_id: RequestId, generator_id: GeneratorId) -> (r: Self)
        ensures
            r.request_id == request_id,
            r.generator_id == generator_id,
    {
        ConfirmGeneratorAddition { request_id, generator_id }
    }
}

impl Packet for ConfirmGeneratorAddition {
    open spec fn spec_id() -> u16 {
        3
    }

    fn id() -> (r: u16) {
        3
    }
}

/// What went wrong, as reported to the other side.
#[derive(Debug, Clone, PartialEq, Eq)]
#[non_exhaustive]
pub enum ProtocolErrorKind {
    Other { details: String },
    GeneratorNotFound { generator_id: GeneratorId, request_id: RequestId },
    ChunkGenerationFailure { generator_id: GeneratorId, request_id: RequestId, details: String },
    Terminated { details: String },
}

/// An error report; a fatal one ends the connection.
#[derive(Debug)]
pub struct ProtocolError {
    pub kind: ProtocolErrorKind,
    pub fatal: bool,
}

impl ProtocolError {
    /// A report of `kind` after which the connection goes on.
    pub fn gentle(kind: ProtocolErrorKind) -> (r: Self)
        ensures
            r.kind == kind,
            !r.fatal,
    {
        ProtocolError { kind, fatal: false }
    }

    /// A report of `kind` that ends the connection.
    pub fn fatal(kind: ProtocolErrorKind) -> (r: Self)
        ensures
            r.kind == kind,
            r.fatal,
    {
        ProtocolError { kind, fatal: true }
    }
}

impl Packet for ProtocolError {
    open spec fn spec_id() -> u16 {
        4
    }

    fn id() -> (r: u16) {
        4
    }
}

/// The packet types of the protocol.
#[derive(Debug, Clone, Copy, PartialEq, Eq, Structural)]
pub enum PacketKind {
    GenerateChunk,
    ReplyChunk,
    AddGenerator,
    ConfirmGeneratorAddition,
    ProtocolError,
}

/// The packet type with ID `id`, if any.
pub open spec fn kind_of_id(id: u16) -> Option<PacketKind> {
    if id == 0 {
        Some(PacketKind::GenerateChunk)
    } else if id == 1 {
        Some(PacketKind::ReplyChunk)
    } else if id == 2 {
        Some(PacketKind::AddGenerator)
    } else if id == 3 {
        Some(PacketKind::ConfirmGeneratorAddition)
    } else if id == 4 {
        Some(PacketKind::ProtocolError)
    } else {
        None
    }
}

/// Why a packet buffer could not be read as a packet.
#[derive(Debug, Clone, Copy, PartialEq, Eq, Structural)]
pub enum PacketParseError {
    /// No packet type has this ID.
    InvalidPacketId(u16),
}

/// A packet of a type known only when it is read: its type and its serialized body.
#[derive(Debug)]
pub struct DynPacket {
    pub kind: PacketKind,
    pub body: Vec<u8>,
}

/// Reads a buffer as a packet of whichever type its ID names: its type and body, or
/// `InvalidPacketId` if no packet type has that ID.
pub fn parse_dyn(buf: &PacketBuffer) -> (r: Result<DynPacket, PacketParseError>)
    ensures
        match kind_of_id(packet_id_of(buf.bytes())) {
            None => r == Err::<DynPacket, PacketParseError>(
                PacketParseError::InvalidPacketId(packet_id_of(buf.bytes())),
            ),
            Some(k) => r matches Ok(p) && p.kind == k && p.body@ == buf.body(),
        },
{
    let id = buf.id();
    let kind = if id == 0 {
        PacketKind::GenerateChunk
    } else if id == 1 {
        PacketKind::ReplyChunk
    } else if id == 2 {
        PacketKind::AddGenerator
    } else if id == 3 {
        PacketKind::ConfirmGeneratorAddition
    } else if id == 4 {
        PacketKind::ProtocolError
    } else {
        return Err(PacketParseError::InvalidPacketId(id));
    };
    let body = match kind {
        PacketKind::GenerateChunk => buf.to_packet::<GenerateChunk>(),
        PacketKind::ReplyChunk => buf.to_packet::<ReplyChunk>(),
        PacketKind::AddGenerator => buf.to_packet::<AddGenerator>(),
        PacketKind::ConfirmGeneratorAddition => buf.to_packet::<ConfirmGeneratorAddition>(),
        PacketKind::ProtocolError => buf.to_packet::<ProtocolError>(),
    };
    match body {
        Ok(body) => Ok(DynPacket { kind, body }),
        Err(_) => Err(PacketParseError::InvalidPacketId(id)),
    }
}

/// The version of the protocol spoken.
#[derive(Debug, Clone, Copy, PartialEq, Eq, Structural)]
#[non_exhaustive]
pub enum ProtocolVersion {
    V1,
}

impl Default for ProtocolVersion {
    /// The first version.
    fn default() -> (r: Self)
        ensures
            r == ProtocolVersion::V1,
    {
        ProtocolVersion::V1
    }
}

/// The code answering a request to register a generator.
#[derive(Debug, Clone, Copy, PartialEq, Eq, Structural)]
pub struct GeneratorResponseCode(pub u8);

/// A packet whose type is not known: its ID and its raw bytes.
#[derive(Debug)]
pub struct AnonymousPacket {
    pub id: u32,
    pub bytes: Vec<u8>,
}

/// Why a server could not start.
#[derive(Debug, Clone, Copy, PartialEq, Eq, Structural)]
#[non_exhaustive]
pub enum ServerError {
    /// The server does not have a set address.
    AddressNotBound,
}

/// Every packet type is recognised by its own ID: the kind that [`parse_dyn`] assigns to the
/// ID of a packet type is that very type.
pub proof fn lemma_packet_ids_name_their_types()
    ensures
        kind_of_id(<GenerateChunk as Packet>::spec_id()) == Some(PacketKind::GenerateChunk),
        kind_of_id(<ReplyChunk as Packet>::spec_id()) == Some(PacketKind::ReplyChunk),
        kind_of_id(<AddGenerator as Packet>::spec_id()) == Some(PacketKind::AddGenerator),
        kind_of_id(<ConfirmGeneratorAddition as Packet>::spec_id()) == Some(
            PacketKind::ConfirmGeneratorAddition,
        ),
        kind_of_id(<ProtocolError as Packet>::spec_id()) == Some(PacketKind::ProtocolError),
{
}

/// A buffer built for a packet of type `P` with the serialized body `body` (as
/// [`PacketBuffer::from_packet`] builds it) carries `P`'s ID and that body, so [`parse_dyn`]
/// reads it as a packet of the kind of `P`'s ID with `body` as its body.
pub proof fn lemma_built_buffer_parses_as_its_type<P: Packet>(buf: PacketBuffer, body: Seq<u8>)
    requires
        buf.bytes() == id_bytes(P::spec_id()) + body,
    ensures
        packet_id_of(buf.bytes()) == P::spec_id(),
        buf.body() == body,
{
    lemma_id_bytes_roundtrip(P::spec_id(), body);
}

} // verus!
