use procgen::framing::{frame_compressed, compress_packet, decompress_packet, read_raw_packet, Compressor, FrameError, Header, RawPacket};
use procgen::generation::{FactoryRegistry, Parameters};
use procgen::ids::{BlockId, GeneratorId, RequestId};
use procgen::index::Vec3;
use procgen::jvm::{chunk_ctor_args, constructor_signature, pkt_cls_path, section_poles, JavaType};
use procgen::section::ChunkSection;
use procgen::packets::{
    parse_dyn, AddGenerator, ConfirmGeneratorAddition, GenerateChunk, PacketBuffer,
    PacketBufferError, PacketKind, PacketParseError, ProtocolError, ProtocolErrorKind,
    ProtocolVersion,
};
use procgen::service::{
    factory_outcome, generate_request, generation_replies, reader_action, request_action,
    request_factory, undecodable_request, ConnectionStatus, Disconnected, ReaderAction, Reply,
    RequestAction,
};
use procgen::generation::{ChunkPreparationError, GeneratorManager};
use procgen::index::Vec2;
use procgen::voxel_volume::{Unbounded, VoxelVolume};

#[test]
fn packet_buffer_roundtrip() {
    let body = vec![9u8, 8, 7];
    let buf = PacketBuffer::from_packet::<AddGenerator>(&body);
    assert_eq!(buf.as_bytes(), &[0u8, 2, 9, 8, 7]);
    assert_eq!(buf.id(), 2);
    assert_eq!(buf.len(), 5);
    assert!(!buf.is_empty());
    assert_eq!(buf.to_packet::<AddGenerator>(), Ok(body));
    assert_eq!(
        buf.to_packet::<GenerateChunk>(),
        Err(PacketBufferError::MismatchedPacketId(2, 0))
    );
}

#[test]
fn packet_buffer_big_endian_id() {
    let buf = PacketBuffer::from_bytes(vec![0x12, 0x34]).unwrap();
    assert_eq!(buf.id(), 0x1234);
    assert_eq!(PacketBuffer::from_bytes(vec![1]).err(), Some(PacketBufferError::PacketTooShort));
    let mut reader: &[u8] = &[0, 4, 1];
    let buf = PacketBuffer::from_reader(&mut reader).unwrap();
    assert_eq!(buf.id(), 4);
    let mut empty: &[u8] = &[];
    assert_eq!(PacketBuffer::from_reader(&mut empty).err(), Some(PacketBufferError::PacketTooShort));
}

#[test]
fn parse_dyn_by_id() {
    let buf = PacketBuffer::from_packet::<ConfirmGeneratorAddition>(&[1, 2]);
    let p = parse_dyn(&buf).unwrap();
    assert_eq!(p.kind, PacketKind::ConfirmGeneratorAddition);
    assert_eq!(p.body, vec![1, 2]);
    let unknown = PacketBuffer::from_bytes(vec![0, 9, 1]).unwrap();
    assert_eq!(parse_dyn(&unknown).err(), Some(PacketParseError::InvalidPacketId(9)));
}

#[test]
fn packet_constructors() {
    let c = ConfirmGeneratorAddition::new(RequestId(3), GeneratorId(4));
    assert_eq!(c.request_id, RequestId(3));
    assert_eq!(c.generator_id, GeneratorId(4));
    let add = AddGenerator {
        request_id: RequestId(1),
        name: "x".to_string(),
        min_height: -64,
        max_height: 320,
        default_id: BlockId(2),
    };
    let p = add.factory_params();
    assert_eq!((p.min_height, p.max_height, p.default), (-64, 320, BlockId(2)));
    let e = ProtocolError::gentle(ProtocolErrorKind::Other { details: "a".to_string() });
    assert!(!e.fatal);
    let e = ProtocolError::fatal(ProtocolErrorKind::Other { details: "a".to_string() });
    assert!(e.fatal);
    assert_eq!(ProtocolVersion::default(), ProtocolVersion::V1);
    assert_eq!(u32::from(RequestId::from(5)), 5);
    assert_eq!(u32::from(GeneratorId::from(6)), 6);
    assert_eq!(BlockId::from(7), BlockId::new(7));
}

#[test]
fn header_bytes_are_big_endian() {
    let h = Header::new(0x01020304, 0x0a0b0c0d);
    let mut out = vec![0xff];
    h.sync_write(&mut out);
    assert_eq!(out, vec![0xff, 1, 2, 3, 4, 0x0a, 0x0b, 0x0c, 0x0d]);
    assert_eq!(Header::sync_read(&out[1..]), Ok(h));
    assert_eq!(Header::sync_read(&out[1..8]), Err(FrameError::Truncated));
}

#[test]
fn frame_roundtrip() {
    let compressor = Compressor::new(6);
    let packet = PacketBuffer::from_bytes(vec![0, 1, 5, 5, 5, 5, 5, 5, 5, 5, 5, 5]).unwrap();
    let mut frame = compressor.write(&packet).unwrap();
    let compressed_len = u32::from_be_bytes([frame[0], frame[1], frame[2], frame[3]]) as usize;
    assert_eq!(frame.len(), 8 + compressed_len);
    assert_eq!(u32::from_be_bytes([frame[4], frame[5], frame[6], frame[7]]), 12);
    let n = frame.len();
    frame.extend_from_slice(&[42, 42]);
    let (read, used) = compressor.read(&frame).unwrap();
    assert_eq!(read, packet);
    assert_eq!(used, n);
    assert_eq!(compressor.read(&frame[..n - 1]).err(), Some(FrameError::Truncated));
}

#[test]
fn frame_errors() {
    let compressor = Compressor::new(1);
    let mut bad = Vec::new();
    Header::new(3, 3).sync_write(&mut bad);
    bad.extend_from_slice(&[1, 2, 3]);
    assert_eq!(compressor.read(&bad).err(), Some(FrameError::DecompressionFailed));
}

#[test]
fn compress_packet_roundtrip() {
    let packet = PacketBuffer::from_bytes(vec![0, 3, 1, 1, 1]).unwrap();
    let compressed = compress_packet(&packet).unwrap();
    assert_ne!(compressed, packet.as_bytes().to_vec());
    assert_eq!(decompress_packet(&compressed).unwrap(), packet);
    assert_eq!(decompress_packet(&[1, 2, 3]).err(), Some(FrameError::DecompressionFailed));
}

#[test]
fn replies_for_finished_generation() {
    let mut vol = VoxelVolume::<Unbounded>::new();
    assert!(vol.set(Vec3::new(0, 0, 0), BlockId(1)));
    assert!(vol.set(Vec3::new(40, 0, 0), BlockId(2)));
    let replies = generation_replies(RequestId(9), "gen".to_string(), Ok(vol));
    assert_eq!(replies.len(), 3);
    assert!(matches!(replies[2], Reply::FinishRequest { request_id: RequestId(9) }));
    let mut xs: Vec<i64> = replies[..2]
        .iter()
        .map(|r| match r {
            Reply::VoxelData { request_id, data } => {
                assert_eq!(*request_id, RequestId(9));
                data.pos().x
            }
            _ => panic!("expected voxel data"),
        })
        .collect();
    xs.sort();
    assert_eq!(xs, vec![0, 2]);
    let failed = generation_replies::<Unbounded>(RequestId(9), "gen".to_string(), Err("boom".to_string()));
    assert_eq!(failed.len(), 1);
    match &failed[0] {
        Reply::GenerationError { generator_name, request_id, details } => {
            assert_eq!(generator_name, "gen");
            assert_eq!(*request_id, RequestId(9));
            assert_eq!(details, "boom");
        }
        _ => panic!("expected a generation error"),
    }
}

#[test]
fn factory_resolution_replies() {
    let mut registry: FactoryRegistry<u8> = FactoryRegistry::new();
    registry.insert("caves".to_string(), 1);
    let params = Parameters { generator_name: "caves".to_string() };
    assert_eq!(*request_factory(&registry, RequestId(1), &params).unwrap(), 1);
    let missing = Parameters { generator_name: "none".to_string() };
    match request_factory(&registry, RequestId(2), &missing) {
        Err(Reply::GeneratorNotFound { generator_name, request_id }) => {
            assert_eq!(generator_name, "none");
            assert_eq!(request_id, RequestId(2));
        }
        _ => panic!("expected generator-not-found"),
    }
    assert_eq!(factory_outcome(RequestId(1), &params, Ok::<u8, String>(4)).unwrap(), 4);
    match factory_outcome::<u8>(RequestId(1), &params, Err("bad".to_string())) {
        Err(Reply::FactoryError { generator_name, request_id, details }) => {
            assert_eq!(generator_name, "caves");
            assert_eq!(request_id, RequestId(1));
            assert_eq!(details, "bad");
        }
        _ => panic!("expected factory error"),
    }
}

#[test]
fn reader_actions() {
    assert!(matches!(reader_action(Err(FrameError::Truncated)), ReaderAction::Terminate(FrameError::Truncated)));
    let buf = PacketBuffer::from_bytes(vec![0, 0, 1]).unwrap();
    match reader_action(Ok(buf)) {
        ReaderAction::Dispatch(p) => {
            assert_eq!(p.kind, PacketKind::GenerateChunk);
            assert_eq!(p.body, vec![1]);
        }
        _ => panic!("expected dispatch"),
    }
    let buf = PacketBuffer::from_bytes(vec![1, 0]).unwrap();
    assert!(matches!(reader_action(Ok(buf)), ReaderAction::Discard(256)));
}

#[test]
fn connection_status() {
    let mut status = ConnectionStatus::new();
    assert!(status.running());
    assert_eq!(status.check_send(), Ok(()));
    let notice = status.termination_notice();
    assert!(notice.fatal);
    assert_eq!(notice.kind, ProtocolErrorKind::Terminated { details: "Server stopped".to_string() });
    status.mark_terminated();
    assert!(!status.running());
    assert_eq!(status.check_send(), Err(Disconnected));
}

#[test]
fn jni_signatures() {
    let args = vec![
        JavaType::Long,
        JavaType::Object("Lcom/example/Chunk;".to_string()),
        JavaType::Int,
        JavaType::Bool,
    ];
    assert_eq!(constructor_signature(&args), "(JLcom/example/Chunk;IZ)V");
    assert_eq!(constructor_signature(&vec![]), "()V");
    assert_eq!(JavaType::Double.type_signature(), "D");
    assert_eq!(
        pkt_cls_path("VoxelData"),
        "io/github/personbelowrocks/minecraft/testgenerator/packets/VoxelData"
    );
}

#[test]
fn section_poles_layout() {
    assert!(section_poles(&ChunkSection::new_uninitialized(BlockId(1))).is_none());
    let mut section = ChunkSection::new_initialized(BlockId(1));
    section.set([2usize, 3, 4], BlockId(u32::MAX));
    let cube = section_poles(&section).unwrap();
    assert_eq!(cube.len(), 16);
    assert_eq!(cube[2][3][4], -1);
    assert_eq!(cube[4][3][2], 1);
}

#[test]
fn raw_packet_checks_length() {
    let compressor = Compressor::new(9);
    let packet = PacketBuffer::from_bytes(vec![0, 4, 7, 7, 7]).unwrap();
    let mut frame = compressor.write(&packet).unwrap();
    let (raw, used) = read_raw_packet(&frame).unwrap();
    assert_eq!(raw, RawPacket { id: 4, body: vec![7, 7, 7] });
    assert_eq!(used, frame.len());
    frame[7] = 6;
    assert_eq!(read_raw_packet(&frame).err(), Some(FrameError::LengthMismatch));
}

#[test]
fn frame_of_compressed_data() {
    let frame = frame_compressed(0x0102, &vec![9, 8]);
    assert_eq!(frame, vec![0, 0, 0, 2, 0, 0, 1, 2, 9, 8]);
}

#[test]
fn chunk_constructor_arguments() {
    let chunk = procgen::chunk::Chunk::new(BlockId(1), procgen::index::Vec2::new(2, -1), -64, 320);
    let (types, longs) = chunk_ctor_args(&chunk);
    assert_eq!(
        constructor_signature(&types),
        "([Lio/github/personbelowrocks/minecraft/testgenerator/ChunkSection;JJJJJJ)V"
    );
    assert_eq!(longs, vec![32, -64, -16, 48, 320, 0]);
}

#[test]
fn frame_roundtrip_at_level_ten() {
    let compressor = Compressor::new(10);
    let buffer = PacketBuffer::from_bytes(vec![7u8, 0, 1, 2, 3, 1, 2, 3, 1, 2, 3]).unwrap();
    let frame = compressor.write(&buffer).unwrap();
    let (back, used) = compressor.read(&frame).unwrap();
    assert_eq!(back.as_bytes(), buffer.as_bytes());
    assert_eq!(used, frame.len());
}

#[test]
fn requests_lead_to_their_actions() {
    assert_eq!(request_action(PacketKind::AddGenerator), RequestAction::RegisterGenerator);
    assert_eq!(request_action(PacketKind::GenerateChunk), RequestAction::GenerateChunk);
    assert_eq!(request_action(PacketKind::ReplyChunk), RequestAction::Ignore);
    assert_eq!(request_action(PacketKind::ConfirmGeneratorAddition), RequestAction::Ignore);
    assert_eq!(request_action(PacketKind::ProtocolError), RequestAction::Ignore);
}

#[test]
fn undecodable_requests_are_fatal_other_errors() {
    let error = undecodable_request("unexpected end of input".to_string());
    assert!(error.fatal);
    match error.kind {
        ProtocolErrorKind::Other { details } => assert_eq!(details, "unexpected end of input"),
        other => panic!("unexpected kind {other:?}"),
    }
}

#[test]
fn register_built_reports_factory_failure() {
    let mut manager: GeneratorManager<u8> = GeneratorManager::new();
    let parameters = Parameters { generator_name: "DEMO".to_string() };
    let r = manager.register_built(RequestId(4), &parameters, Err("bad heights".to_string()), 17);
    match r {
        Err(Reply::FactoryError { generator_name, request_id, details }) => {
            assert_eq!(generator_name, "DEMO");
            assert_eq!(request_id, RequestId(4));
            assert_eq!(details, "bad heights");
        }
        other => panic!("unexpected {other:?}"),
    }
    assert!(manager.generator(17).is_none());
}

#[test]
fn register_built_confirms_a_free_id_and_refuses_a_taken_one() {
    let mut manager: GeneratorManager<u8> = GeneratorManager::new();
    let parameters = Parameters { generator_name: "DEMO".to_string() };
    let confirm = manager.register_built(RequestId(4), &parameters, Ok(1u8), 17).unwrap().unwrap();
    assert_eq!(confirm.request_id, RequestId(4));
    assert_eq!(confirm.generator_id, GeneratorId(17));
    assert_eq!(manager.generator(17), Some(&1u8));
    let again = manager.register_built(RequestId(5), &parameters, Ok(2u8), 17).unwrap();
    assert!(again.is_none());
    assert_eq!(manager.generator(17), Some(&1u8));
}

#[test]
fn generate_request_refuses_empty_heights() {
    let packet = GenerateChunk { request_id: RequestId(3), generator_id: GeneratorId(1), pos: Vec2::new(0, 0) };
    assert_eq!(generate_request(&(10..10), BlockId(1), &packet).unwrap_err(), ChunkPreparationError::EmptyHeights);
    assert_eq!(generate_request(&(20..10), BlockId(1), &packet).unwrap_err(), ChunkPreparationError::EmptyHeights);
}

#[test]
fn generate_request_refuses_a_chunk_that_cannot_be_built() {
    let packet = GenerateChunk { request_id: RequestId(3), generator_id: GeneratorId(1), pos: Vec2::new(i32::MAX, 0) };
    assert_eq!(generate_request(&(0..16), BlockId(1), &packet).unwrap_err(), ChunkPreparationError::ChunkInitFailed);
}

#[test]
fn generate_request_replies_with_the_request_id() {
    let packet = GenerateChunk { request_id: RequestId(3), generator_id: GeneratorId(1), pos: Vec2::new(2, -1) };
    let reply = generate_request(&(-16..20), BlockId(5), &packet).unwrap();
    assert_eq!(reply.request_id, RequestId(3));
    assert_eq!(reply.chunk.position(), Vec2::new(2, -1));
    assert_eq!(reply.chunk.min_height(), -16);
    assert_eq!(reply.chunk.max_height(), 20);
    assert_eq!(reply.chunk.section_count(), 3);
    for i in 0..reply.chunk.section_count() {
        assert!(!reply.chunk.section(i).is_initialized());
        assert_eq!(reply.chunk.section(i).default_id(), BlockId(5));
    }
}
