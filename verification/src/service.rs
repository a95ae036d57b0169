//! The server's decisions: which generator factory serves a request, what is sent back once a
//! generation finishes, what becomes of each frame read from a connection, and when a
//! connection may still send.
use vstd::prelude::*;
use vstd::string::*;

use std::ops::Range;

use crate::chunk::is_fresh_section;
use crate::framing::FrameError;
use crate::generation::{
    chunk_fits, prepare_chunk, ChunkPreparationError, FactoryRegistry, GeneratorArgs,
    GeneratorManager, Parameters, VerticalBound,
};
use crate::ids::{BlockId, GeneratorId, RequestId};
use crate::packets::{
    parse_dyn, ConfirmGeneratorAddition, DynPacket, GenerateChunk, PacketBuffer, PacketKind,
    ProtocolError, ProtocolErrorKind, ReplyChunk,
};
use crate::voxel::{Chunk, Positioned};
use crate::voxel_volume::{key_of, Boundness, VoxelVolume};

verus! {

/// A packet the server sends back to a client.
#[derive(Debug)]
pub enum Reply {
    /// One chunk of the voxels generated for a request.
    VoxelData { request_id: RequestId, data: Chunk<Positioned> },
    /// All voxels generated for the request have been sent.
    FinishRequest { request_id: RequestId },
    /// No generator factory has the requested name.
    GeneratorNotFound { generator_name: String, request_id: RequestId },
    /// The factory failed to build a generator.
    FactoryError { generator_name: String, request_id: RequestId, details: String },
    /// The generator failed.
    GenerationError { generator_name: String, request_id: RequestId, details: String },
}

/// The factory that the request `request_id` with `parameters` asks for; if none is
/// registered under the requested name, the `GeneratorNotFound` reply to send instead.
pub fn request_factory<'a, F>(
    registry: &'a FactoryRegistry<F>,
    request_id: RequestId,
    parameters: &Parameters,
) -> (r: Result<&'a F, Reply>)
    requires
        registry.wf(),
    ensures
        match r {
            Ok(f) => registry.factories().dom().contains(parameters.generator_name@) && *f
                == registry.factories()[parameters.generator_name@],
            Err(reply) => !registry.factories().dom().contains(parameters.generator_name@) && (
            reply matches Reply::GeneratorNotFound { generator_name, request_id: rid }
                && generator_name@ == parameters.generator_name@ && rid == request_id),
        },
{
    match registry.get(parameters.generator_name()) {
        Some(f) => Ok(f),
        None => Err(
            Reply::GeneratorNotFound {
                generator_name: parameters.generator_name.clone(),
                request_id,
            },
        ),
    }
}

/// The generator a factory built for the request `request_id`, or, if the factory failed with
/// `details`, the `FactoryError` reply to send instead.
pub fn factory_outcome<G>(request_id: RequestId, parameters: &Parameters, built: Result<G, String>) -> (r: Result<G, Reply>)
    ensures
        match built {
            Ok(g) => r == Ok::<G, Reply>(g),
            Err(d) => r matches Err(Reply::FactoryError { generator_name, request_id: rid, details })
                && generator_name@ == parameters.generator_name@ && rid == request_id && details@
                == d@,
        },
{
    match built {
        Ok(g) => Ok(g),
        Err(details) => Err(
            Reply::FactoryError {
                generator_name: parameters.generator_name.clone(),
                request_id,
                details,
            },
        ),
    }
}

/// Whether `reply` sends, for the request `request_id`, a chunk that is the chunk of `vol` at
/// the chunk's position.
pub open spec fn sends_chunk_of<B: Boundness>(reply: Reply, request_id: RequestId, vol: VoxelVolume<B>) -> bool {
    reply matches Reply::VoxelData { request_id: rid, data } && rid == request_id && data.wf()
        && vol.chunks().dom().contains(key_of(data.pos_status().0)) && forall|x: int, y: int, z: int|
        #[trigger] data.voxel(x, y, z) == vol.chunks()[key_of(data.pos_status().0)].voxel(x, y, z)
}

/// The position of the chunk a `VoxelData` reply sends.
pub open spec fn sent_position(reply: Reply) -> (i64, i64, i64) {
    match reply {
        Reply::VoxelData { data, .. } => key_of(data.pos_status().0),
        _ => (0, 0, 0),
    }
}

/// What is sent back once the generation for the request `request_id` with the generator
/// `generator_name` finishes: if it failed with `details`, one `GenerationError` reply; else
/// one `VoxelData` reply per chunk of the generated volume (each chunk once, in an unspecified
/// order), then `FinishRequest`.
pub fn generation_replies<B: Boundness>(
    request_id: RequestId,
    generator_name: String,
    outcome: Result<VoxelVolume<B>, String>,
) -> (r: Vec<Reply>)
    requires
        outcome matches Ok(v) ==> v.wf(),
    ensures
        match outcome {
            Err(d) => r@.len() == 1 && (r@[0] matches Reply::GenerationError {
                generator_name: n,
                request_id: rid,
                details,
            } && n@ == generator_name@ && rid == request_id && details@ == d@),
            Ok(v) => {
                &&& r@.len() >= 1
                &&& r@.last() == Reply::FinishRequest { request_id }
                &&& forall|i: int|
                    0 <= i < r@.len() - 1 ==> sends_chunk_of(#[trigger] r@[i], request_id, v)
                &&& forall|i: int, j: int|
                    0 <= i < j < r@.len() - 1 ==> sent_position(#[trigger] r@[i]) != sent_position(
                        #[trigger] r@[j],
                    )
                &&& forall|k: (i64, i64, i64)|
                    #[trigger] v.chunks().dom().contains(k) ==> exists|i: int|
                        0 <= i < r@.len() - 1 && #[trigger] sent_position(r@[i]) == k
            },
        },
{
    match outcome {
        Err(details) => {
            let mut out: Vec<Reply> = Vec::new();
            out.push(Reply::GenerationError { generator_name, request_id, details });
            out
        },
        Ok(vol) => {
            let ghost v = vol;
            let mut chunks = vol.into_chunks();
            let ghost all = chunks@;
            let mut out: Vec<Reply> = Vec::new();
            let mut i: usize = 0;
            let n = chunks.len();
            while chunks.len() > 0
                invariant
                    chunks@ == all.subrange(0, chunks@.len() as int),
                    out@.len() + chunks@.len() == all.len(),
                    n == all.len(),
                    forall|i: int|
                        0 <= i < out@.len() ==> (#[trigger] out@[i] matches Reply::VoxelData {
                            request_id: rid,
                            data,
                        } && rid == request_id && data == all[all.len() - 1 - i]),
                decreases chunks@.len(),
            {
                let data = chunks.pop().unwrap();
                out.push(Reply::VoxelData { request_id, data });
            }
            out.push(Reply::FinishRequest { request_id });
            proof {
                assert forall|i: int| 0 <= i < out@.len() - 1 implies sends_chunk_of(
                    #[trigger] out@[i],
                    request_id,
                    v,
                ) by {
                    let c = all[all.len() - 1 - i];
                    assert(c.pos_status() == all[all.len() - 1 - i].pos_status());
                }
                assert forall|i: int, j: int|
                    0 <= i < j < out@.len() - 1 implies sent_position(#[trigger] out@[i])
                    != sent_position(#[trigger] out@[j]) by {
                    let a = all.len() - 1 - j;
                    let b = all.len() - 1 - i;
                    assert(all[a].pos_status() != all[b].pos_status());
                }
                assert forall|k: (i64, i64, i64)| #[trigger] v.chunks().dom().contains(k) implies exists|
                    i: int,
                | 0 <= i < out@.len() - 1 && #[trigger] sent_position(out@[i]) == k by {
                    let j = choose|j: int|
                        0 <= j < all.len() && key_of(#[trigger] all[j].pos_status().0) == k;
                    let i = all.len() - 1 - j;
                    assert(sent_position(out@[i]) == k);
                }
            }
            out
        },
    }
}

/// What becomes of a frame read from a connection.
#[derive(Debug)]
pub enum ReaderAction {
    /// Reading failed: the connection is terminated.
    Terminate(FrameError),
    /// The frame holds a packet of a known type: it is handed to its listeners.
    Dispatch(DynPacket),
    /// The frame holds a packet with an unknown ID: it is dropped.
    Discard(u16),
}

/// What becomes of the result of reading a frame from a connection: a read error terminates
/// the connection; a packet of a known type is dispatched with its body; a packet with an
/// unknown ID is discarded.
pub fn reader_action(read: Result<PacketBuffer, FrameError>) -> (r: ReaderAction)
    ensures
        match read {
            Err(e) => r == ReaderAction::Terminate(e),
            Ok(buf) => match crate::packets::kind_of_id(crate::packets::packet_id_of(buf.bytes())) {
                None => r == ReaderAction::Discard(crate::packets::packet_id_of(buf.bytes())),
                Some(k) => r matches ReaderAction::Dispatch(p) && p.kind == k && p.body@
                    == buf.body(),
            },
        },
{
    match read {
        Err(e) => ReaderAction::Terminate(e),
        Ok(buf) => match parse_dyn(&buf) {
            Ok(p) => ReaderAction::Dispatch(p),
            Err(_) => ReaderAction::Discard(buf.id()),
        },
    }
}

/// The connection is disconnected and is not running.
#[derive(Debug, Clone, Copy, PartialEq, Eq, Structural)]
pub struct Disconnected;

/// The listener is not running.
#[derive(Debug, Clone, Copy, PartialEq, Eq, Structural)]
pub struct ListenerNotRunning;

/// What a connection's reader hands on: a packet, or the end of the connection.
#[derive(Debug)]
pub enum Receive {
    Packet(PacketBuffer),
    Disconnect,
}

/// Whether a connection is running: it runs from its start until it is terminated, and only
/// a running connection sends packets.
#[derive(Debug)]
pub struct ConnectionStatus {
    running: bool,
}

impl ConnectionStatus {
    /// Whether the connection is running.
    pub closed spec fn is_running(&self) -> bool {
        self.running
    }

    /// A connection that has just started, and so is running.
    pub fn new() -> (r: Self)
        ensures
            r.is_running(),
    {
        ConnectionStatus { running: true }
    }

    /// Whether the connection is running.
    pub fn running(&self) -> (r: bool)
        ensures
            r == self.is_running(),
    {
        self.running
    }

    /// Whether a packet may be sent: `Disconnected` once the connection stopped running.
    pub fn check_send(&self) -> (r: Result<(), Disconnected>)
        ensures
            r is Ok <==> self.is_running(),
    {
        if !self.running {
            return Err(Disconnected);
        }
        Ok(())
    }

    /// The packet sent to the other side when the server terminates the connection: a fatal
    /// `Terminated` error saying that the server stopped.
    pub fn termination_notice(&self) -> (r: ProtocolError)
        ensures
            r.fatal,
            r.kind matches ProtocolErrorKind::Terminated { details } && details@
                == "Server stopped"@,
    {
        ProtocolError::fatal(ProtocolErrorKind::Terminated { details: String::from_str("Server stopped") })
    }

    /// Marks the connection as terminated (once its termination notice has been written).
    pub fn mark_terminated(&mut self)
        ensures
            !final(self).is_running(),
    {
        self.running = false;
    }
}

/// What the server does with a request packet it has read.
#[derive(Debug, Clone, Copy, PartialEq, Eq, Structural)]
pub enum RequestAction {
    /// Build a generator instance with the requested factory and confirm its new ID.
    RegisterGenerator,
    /// Generate the requested chunk and reply with it.
    GenerateChunk,
    /// Nothing: the server does not act on packets of this type.
    Ignore,
}

/// The action that a request of type `kind` leads to.
pub open spec fn action_for(kind: PacketKind) -> RequestAction {
    match kind {
        PacketKind::AddGenerator => RequestAction::RegisterGenerator,
        PacketKind::GenerateChunk => RequestAction::GenerateChunk,
        _ => RequestAction::Ignore,
    }
}

/// What the server does with a request of type `kind`: it registers a generator for
/// `AddGenerator`, generates a chunk for `GenerateChunk`, and ignores the other types.
pub fn request_action(kind: PacketKind) -> (r: RequestAction)
    ensures
        r == action_for(kind),
{
    match kind {
        PacketKind::AddGenerator => RequestAction::RegisterGenerator,
        PacketKind::GenerateChunk => RequestAction::GenerateChunk,
        _ => RequestAction::Ignore,
    }
}

/// The answer to a request whose body could not be decoded: a fatal `Other` error carrying
/// the decoder's `details`.
pub fn undecodable_request(details: String) -> (r: ProtocolError)
    ensures
        r.fatal,
        r.kind == (ProtocolErrorKind::Other { details }),
{
    ProtocolError::fatal(ProtocolErrorKind::Other { details })
}

impl<G> GeneratorManager<G> {
    /// Registers the generator a factory `built` for the request `request_id` under the drawn
    /// ID `candidate`: if the factory failed with `details`, the `FactoryError` reply; if a
    /// generator already has `candidate`, `Ok(None)` (the caller draws again); otherwise the
    /// generator is registered under `candidate` and the confirmation carries the request's ID
    /// and the new generator's ID. Only the last case changes the registered generators.
    pub fn register_built(
        &mut self,
        request_id: RequestId,
        parameters: &Parameters,
        built: Result<G, String>,
        candidate: u32,
    ) -> (r: Result<Option<ConfirmGeneratorAddition>, Reply>)
        ensures
            match built {
                Err(d) => {
                    &&& r matches Err(Reply::FactoryError { generator_name, request_id: rid, details })
                        && generator_name@ == parameters.generator_name@ && rid == request_id
                        && details@ == d@
                    &&& final(self).generators() == old(self).generators()
                },
                Ok(g) => if old(self).generators().dom().contains(candidate) {
                    &&& r matches Ok(None)
                    &&& final(self).generators() == old(self).generators()
                } else {
                    &&& r matches Ok(Some(c)) && c.request_id == request_id && c.generator_id
                        == GeneratorId(candidate)
                    &&& final(self).generators() == old(self).generators().insert(candidate, g)
                },
            },
    {
        let generator = match factory_outcome(request_id, parameters, built) {
            Ok(g) => g,
            Err(reply) => return Err(reply),
        };
        match self.add_generator(candidate, generator) {
            Ok(()) => Ok(Some(ConfirmGeneratorAddition::new(request_id, GeneratorId(candidate)))),
            Err(_) => Ok(None),
        }
    }
}

/// The reply to the chunk request `packet`, served by a generator covering the heights
/// `generator_bounds` whose chunks start out as `default`: refused with `EmptyHeights` if the
/// generator covers no height, with `ChunkInitFailed` if the chunk cannot be built; otherwise
/// a reply carrying the request's ID and a chunk at the requested column over the generator's
/// heights, whose sections all read as `default` (ready for the generator to fill).
pub fn generate_request(generator_bounds: &Range<i32>, default: BlockId, packet: &GenerateChunk) -> (r: Result<ReplyChunk, ChunkPreparationError>)
    ensures
        generator_bounds.start >= generator_bounds.end ==> r == Err::<
            ReplyChunk,
            ChunkPreparationError,
        >(ChunkPreparationError::EmptyHeights),
        generator_bounds.start < generator_bounds.end && !chunk_fits(
            packet.pos,
            generator_bounds.start as int,
            generator_bounds.end as int,
        ) ==> r == Err::<ReplyChunk, ChunkPreparationError>(
            ChunkPreparationError::ChunkInitFailed,
        ),
        generator_bounds.start < generator_bounds.end && chunk_fits(
            packet.pos,
            generator_bounds.start as int,
            generator_bounds.end as int,
        ) ==> (r matches Ok(reply) && reply.request_id == packet.request_id && reply.chunk.wf()
            && reply.chunk.chunk_pos() == packet.pos && reply.chunk.min_y()
            == generator_bounds.start && reply.chunk.max_y() == generator_bounds.end && forall|
            i: int,
        |
            0 <= i < reply.chunk.section_seq().len() ==> is_fresh_section(
                #[trigger] reply.chunk.section_seq()[i],
                default,
            )),
{
    if generator_bounds.start >= generator_bounds.end {
        return Err(ChunkPreparationError::EmptyHeights);
    }
    let args = GeneratorArgs::new(
        packet.args().pos,
        VerticalBound::Included(generator_bounds.start),
        VerticalBound::Excluded(generator_bounds.end),
    );
    match prepare_chunk(generator_bounds, default, &args) {
        Ok(chunk) => Ok(ReplyChunk { request_id: packet.request_id, chunk }),
        Err(e) => Err(e),
    }
}

} // verus!
