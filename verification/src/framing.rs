//! Frames on the wire: an eight-byte header (the compressed and the decompressed length, each a
//! big-endian `u32`) followed by the zlib-compressed packet buffer.
use vstd::prelude::*;
use vstd::slice::slice_subrange;

use crate::packets::{PacketBuffer, PacketBufferError};

verus! {

/// The big-endian bytes of `v`.
pub open spec fn be32_bytes(v: u32) -> Seq<u8> {
    seq![(v >> 24u32) as u8, (v >> 16u32) as u8, (v >> 8u32) as u8, v as u8]
}

/// The big-endian `u32` spelled by the four bytes of `b` from `at` on.
pub open spec fn be32_at(b: Seq<u8>, at: int) -> u32 {
    ((b[at] as u32) << 24u32) | ((b[at + 1] as u32) << 16u32) | ((b[at + 2] as u32) << 8u32) | (
    b[at + 3] as u32)
}

/// Reading back the bytes of `v`, wherever they stand, gives `v`.
pub proof fn lemma_be32_roundtrip(v: u32, pre: Seq<u8>, post: Seq<u8>)
    ensures
        be32_at(pre + be32_bytes(v) + post, pre.len() as int) == v,
{
    let b = pre + be32_bytes(v) + post;
    let n = pre.len() as int;
    assert(b[n] == (v >> 24u32) as u8);
    assert(b[n + 1] == (v >> 16u32) as u8);
    assert(b[n + 2] == (v >> 8u32) as u8);
    assert(b[n + 3] == v as u8);
    assert(((((v >> 24u32) as u8) as u32) << 24u32) | ((((v >> 16u32) as u8) as u32) << 16u32) | (
    (((v >> 8u32) as u8) as u32) << 8u32) | ((v as u8) as u32) == v) by (bit_vector);
}

/// The header of a frame: how many compressed bytes follow it, and how many bytes they
/// decompress to.
#[derive(Debug, Clone, Copy, PartialEq, Eq, Structural)]
pub struct Header {
    pub compressed_len: u32,
    pub decompressed_len: u32,
}

/// The eight bytes of a header on the wire.
pub open spec fn header_bytes(h: Header) -> Seq<u8> {
    be32_bytes(h.compressed_len) + be32_bytes(h.decompressed_len)
}

/// Why a frame could not be read.
#[derive(Debug, Clone, Copy, PartialEq, Eq, Structural)]
pub enum FrameError {
    /// The input ended before the header or the compressed data did.
    Truncated,
    /// The compressed data is not valid zlib data.
    DecompressionFailed,
    /// The decompressed data is not a packet buffer.
    Packet(PacketBufferError),
    /// The data decompressed to a length other than the header announced.
    LengthMismatch,
}

/// The header that the first eight bytes of `b` spell.
pub open spec fn header_at(b: Seq<u8>) -> Header {
    Header { compressed_len: be32_at(b, 0), decompressed_len: be32_at(b, 4) }
}

impl Header {
    /// A header announcing `compressed_len` bytes of compressed data that decompress to
    /// `decompressed_len` bytes.
    pub fn new(compressed_len: u32, decompressed_len: u32) -> (r: Self)
        ensures
            r.compressed_len == compressed_len,
            r.decompressed_len == decompressed_len,
    {
        Header { compressed_len, decompressed_len }
    }

    /// Appends the header's eight bytes to `out`: the compressed length, then the
    /// decompressed length, each big-endian.
    pub fn sync_write(&self, out: &mut Vec<u8>)
        ensures
            final(out)@ == old(out)@ + header_bytes(*self),
    {
        let c = self.compressed_len;
        let d = self.decompressed_len;
        out.push((c >> 24u32) as u8);
        out.push((c >> 16u32) as u8);
        out.push((c >> 8u32) as u8);
        out.push(c as u8);
        out.push((d >> 24u32) as u8);
        out.push((d >> 16u32) as u8);
        out.push((d >> 8u32) as u8);
        out.push(d as u8);
        assert(out@ =~= old(out)@ + header_bytes(*self));
    }

    /// The header spelled by the first eight bytes of `input`, or `Truncated` if there are
    /// fewer.
    pub fn sync_read(input: &[u8]) -> (r: Result<Header, FrameError>)
        ensures
            input@.len() < 8 ==> r == Err::<Header, FrameError>(FrameError::Truncated),
            input@.len() >= 8 ==> r == Ok::<Header, FrameError>(header_at(input@)),
    {
        if input.len() < 8 {
            return Err(FrameError::Truncated);
        }
        let c = ((input[0] as u32) << 24u32) | ((input[1] as u32) << 16u32) | ((input[2] as u32)
            << 8u32) | (input[3] as u32);
        let d = ((input[4] as u32) << 24u32) | ((input[5] as u32) << 16u32) | ((input[6] as u32)
            << 8u32) | (input[7] as u32);
        Ok(Header { compressed_len: c, decompressed_len: d })
    }
}

/// Writing a header and reading the bytes back gives the same header, whatever follows it.
pub proof fn lemma_header_roundtrip(h: Header, rest: Seq<u8>)
    ensures
        (header_bytes(h) + rest).len() >= 8,
        header_at(header_bytes(h) + rest) == h,
{
    let b = header_bytes(h) + rest;
    lemma_be32_roundtrip(h.compressed_len, Seq::empty(), be32_bytes(h.decompressed_len) + rest);
    assert(b =~= Seq::<u8>::empty() + be32_bytes(h.compressed_len) + (be32_bytes(
        h.decompressed_len,
    ) + rest));
    lemma_be32_roundtrip(h.decompressed_len, be32_bytes(h.compressed_len), rest);
    assert(b =~= be32_bytes(h.compressed_len) + be32_bytes(h.decompressed_len) + rest);
}

/// What zlib compression of `data` at `level` gives.
pub uninterp spec fn zlib_compressed(data: Seq<u8>, level: u32) -> Seq<u8>;

/// What zlib decompression of `data` gives, or `None` if `data` is not valid zlib data.
pub uninterp spec fn zlib_decompressed(data: Seq<u8>) -> Option<Seq<u8>>;

/// `flate2::write::ZlibEncoder` writing into a `Vec`: the zlib compression of `data` at
/// `level`, which decompresses back to `data`. It always succeeds: writing into a `Vec` cannot
/// fail, and the deflate backend (miniz_oxide) reports an error only for bad parameters or a
/// failed output callback, which the encoder's own sequence of calls rules out. The backend
/// takes the levels 0 to 10 and asserts (in debug builds) that the level is at most 10.
#[verifier::external_body]
fn zlib_compress(data: &[u8], level: u32) -> (r: Option<Vec<u8>>)
    requires
        level <= 10,
    ensures
        r is Some,
        r matches Some(c) ==> c@ == zlib_compressed(data@, level) && zlib_decompressed(c@) == Some(
            data@,
        ),
{
    let mut encoder = flate2::write::ZlibEncoder::new(Vec::new(), flate2::Compression::new(level));
    match std::io::Write::write_all(&mut encoder, data) {
        Ok(()) => encoder.finish().ok(),
        Err(_) => None,
    }
}

/// `flate2::read::ZlibDecoder` read to its end: the decompression of `data`, or `None` if
/// `data` is not valid zlib data.
#[verifier::external_body]
fn zlib_decompress(data: &[u8]) -> (r: Option<Vec<u8>>)
    ensures
        match r {
            Some(d) => zlib_decompressed(data@) == Some(d@),
            None => zlib_decompressed(data@) is None,
        },
{
    let mut out: Vec<u8> = Vec::new();
    match std::io::Read::read_to_end(&mut flate2::read::ZlibDecoder::new(data), &mut out) {
        Ok(_) => Some(out),
        Err(_) => None,
    }
}

/// The frame of the packet buffer `payload` compressed at `level`: the header (each length
/// truncated to 32 bits), then the compressed data.
pub open spec fn frame_bytes(payload: Seq<u8>, level: u32) -> Seq<u8> {
    let c = zlib_compressed(payload, level);
    header_bytes(Header { compressed_len: c.len() as u32, decompressed_len: payload.len() as u32 })
        + c
}

/// What reading a frame from the start of `input` gives: the packet buffer's data and the
/// number of bytes the frame took, or why it failed.
pub open spec fn read_frame(input: Seq<u8>) -> Result<(Seq<u8>, int), FrameError> {
    if input.len() < 8 {
        Err(FrameError::Truncated)
    } else {
        let end = 8 + header_at(input).compressed_len;
        if input.len() < end {
            Err(FrameError::Truncated)
        } else {
            match zlib_decompressed(input.subrange(8, end)) {
                None => Err(FrameError::DecompressionFailed),
                Some(d) => if d.len() < 2 {
                    Err(FrameError::Packet(PacketBufferError::PacketTooShort))
                } else {
                    Ok((d, end))
                },
            }
        }
    }
}

/// The frame of data `decompressed_len` bytes long whose compressed form is `compressed`: the
/// header (each length truncated to 32 bits), then the compressed data.
pub fn frame_compressed(decompressed_len: usize, compressed: &Vec<u8>) -> (r: Vec<u8>)
    ensures
        r@ == header_bytes(
            Header {
                compressed_len: compressed@.len() as u32,
                decompressed_len: decompressed_len as u32,
            },
        ) + compressed@,
{
    let header = Header::new(compressed.len() as u32, decompressed_len as u32);
    let mut out: Vec<u8> = Vec::new();
    header.sync_write(&mut out);
    let mut i: usize = 0;
    while i < compressed.len()
        invariant
            i <= compressed@.len(),
            out@ == header_bytes(header) + compressed@.subrange(0, i as int),
        decreases compressed@.len() - i,
    {
        out.push(compressed[i]);
        i = i + 1;
        assert(out@ =~= header_bytes(header) + compressed@.subrange(0, i as int));
    }
    assert(compressed@.subrange(0, compressed@.len() as int) =~= compressed@);
    out
}

/// Compresses packet buffers into frames, and reads them back.
#[derive(Debug, Clone, Copy)]
pub struct Compressor {
    level: u32,
}

impl Compressor {
    /// The compression level (0 to 10 for the encoder to accept it).
    pub closed spec fn level(&self) -> u32 {
        self.level
    }

    /// A compressor that compresses at `level`.
    pub fn new(level: u32) -> (r: Self)
        ensures
            r.level() == level,
    {
        Compressor { level }
    }

    /// The frame of `packet`: its header, then its data compressed (always built).
    pub fn write(&self, packet: &PacketBuffer) -> (r: Option<Vec<u8>>)
        requires
            self.level() <= 10,
        ensures
            r is Some,
            r matches Some(f) ==> f@ == frame_bytes(packet.bytes(), self.level()),
            r matches Some(f) ==> (packet.bytes().len() <= u32::MAX && f@.len() <= u32::MAX + 8
                ==> forall|rest: Seq<u8>|
                read_frame(#[trigger] (f@ + rest)) == Ok::<(Seq<u8>, int), FrameError>(
                    (packet.bytes(), f@.len() as int),
                )),
    {
        let compressed = match zlib_compress(packet.as_bytes(), self.level) {
            Some(c) => c,
            None => return None,
        };
        let out = frame_compressed(packet.len(), &compressed);
        proof {
            assert forall|rest: Seq<u8>|
                packet.bytes().len() <= u32::MAX && out@.len() <= u32::MAX + 8 implies read_frame(
                #[trigger] (out@ + rest)) == Ok::<(Seq<u8>, int), FrameError>(
                (packet.bytes(), out@.len() as int),
            ) by {
                lemma_frame_roundtrip(packet.bytes(), self.level, rest);
            }
        }
        Some(out)
    }

    /// Reads the frame at the start of `input`: the packet buffer it holds and the number of
    /// bytes the frame took.
    pub fn read(&self, input: &[u8]) -> (r: Result<(PacketBuffer, usize), FrameError>)
        ensures
            match read_frame(input@) {
                Ok((d, n)) => r matches Ok((p, m)) && p.bytes() == d && m == n,
                Err(e) => r == Err::<(PacketBuffer, usize), FrameError>(e),
            },
    {
        let header = match Header::sync_read(input) {
            Ok(h) => h,
            Err(e) => return Err(e),
        };
        if ((input.len() - 8) as u64) < (header.compressed_len as u64) {
            return Err(FrameError::Truncated);
        }
        let end: usize = 8 + header.compressed_len as usize;
        let compressed = slice_subrange(input, 8, end);
        let decompressed = match zlib_decompress(compressed) {
            Some(d) => d,
            None => return Err(FrameError::DecompressionFailed),
        };
        match PacketBuffer::from_bytes(decompressed) {
            Ok(p) => Ok((p, end)),
            Err(e) => Err(FrameError::Packet(e)),
        }
    }
}

/// Reading back the frame of a packet buffer gives the same buffer and consumes exactly the
/// frame, whatever follows it, as long as both lengths fit in 32 bits.
pub proof fn lemma_frame_roundtrip(payload: Seq<u8>, level: u32, rest: Seq<u8>)
    requires
        payload.len() >= 2,
        payload.len() <= u32::MAX,
        zlib_compressed(payload, level).len() <= u32::MAX,
        zlib_decompressed(zlib_compressed(payload, level)) == Some(payload),
    ensures
        read_frame(frame_bytes(payload, level) + rest) == Ok::<(Seq<u8>, int), FrameError>(
            (payload, frame_bytes(payload, level).len() as int),
        ),
{
    let c = zlib_compressed(payload, level);
    let h = Header { compressed_len: c.len() as u32, decompressed_len: payload.len() as u32 };
    let input = frame_bytes(payload, level) + rest;
    assert(input =~= header_bytes(h) + (c + rest));
    lemma_header_roundtrip(h, c + rest);
    assert(header_at(input) == h);
    assert(input.subrange(8, 8 + c.len() as int) =~= c);
}

/// The data of `packet` compressed at the best level (9); the compression always succeeds.
pub fn compress_packet(packet: &PacketBuffer) -> (r: Option<Vec<u8>>)
    ensures
        r is Some,
        r matches Some(c) ==> c@ == zlib_compressed(packet.bytes(), 9) && zlib_decompressed(c@)
            == Some(packet.bytes()),
{
    zlib_compress(packet.as_bytes(), 9)
}

/// The packet buffer that the zlib data `bytes` decompresses to: `DecompressionFailed` if it
/// is not valid zlib data, `Packet(PacketTooShort)` if it decompresses to fewer than two bytes.
pub fn decompress_packet(bytes: &[u8]) -> (r: Result<PacketBuffer, FrameError>)
    ensures
        match zlib_decompressed(bytes@) {
            None => r == Err::<PacketBuffer, FrameError>(FrameError::DecompressionFailed),
            Some(d) => if d.len() < 2 {
                r == Err::<PacketBuffer, FrameError>(
                    FrameError::Packet(PacketBufferError::PacketTooShort),
                )
            } else {
                r matches Ok(p) && p.bytes() == d
            },
        },
{
    match zlib_decompress(bytes) {
        None => Err(FrameError::DecompressionFailed),
        Some(d) => match PacketBuffer::from_bytes(d) {
            Ok(p) => Ok(p),
            Err(e) => Err(FrameError::Packet(e)),
        },
    }
}

/// A packet read off a connection: its ID and its body.
#[derive(Debug, Clone, PartialEq, Eq)]
pub struct RawPacket {
    pub id: u16,
    pub body: Vec<u8>,
}

/// What reading a frame whose decompressed length is checked against its header gives: the
/// decompressed data and the number of bytes the frame took, or why it failed.
pub open spec fn read_checked_frame(input: Seq<u8>) -> Result<(Seq<u8>, int), FrameError> {
    if input.len() < 8 {
        Err(FrameError::Truncated)
    } else {
        let h = header_at(input);
        let end = 8 + h.compressed_len;
        if input.len() < end {
            Err(FrameError::Truncated)
        } else {
            match zlib_decompressed(input.subrange(8, end)) {
                None => Err(FrameError::DecompressionFailed),
                Some(d) => if d.len() != h.decompressed_len {
                    Err(FrameError::LengthMismatch)
                } else if d.len() < 2 {
                    Err(FrameError::Packet(PacketBufferError::PacketTooShort))
                } else {
                    Ok((d, end))
                },
            }
        }
    }
}

/// Reads the frame at the start of `input`, checking that its data decompresses to the length
/// its header announces: the packet's ID (the first two bytes, big-endian) and body (the rest),
/// and the number of bytes the frame took.
pub fn read_raw_packet(input: &[u8]) -> (r: Result<(RawPacket, usize), FrameError>)
    ensures
        match read_checked_frame(input@) {
            Ok((d, n)) => r matches Ok((p, m)) && p.id == crate::packets::packet_id_of(d)
                && p.body@ == d.subrange(2, d.len() as int) && m == n,
            Err(e) => r == Err::<(RawPacket, usize), FrameError>(e),
        },
{
    let header = match Header::sync_read(input) {
        Ok(h) => h,
        Err(e) => return Err(e),
    };
    if ((input.len() - 8) as u64) < (header.compressed_len as u64) {
        return Err(FrameError::Truncated);
    }
    let end: usize = 8 + header.compressed_len as usize;
    let decompressed = match zlib_decompress(slice_subrange(input, 8, end)) {
        Some(d) => d,
        None => return Err(FrameError::DecompressionFailed),
    };
    if (decompressed.len() as u64) != (header.decompressed_len as u64) {
        return Err(FrameError::LengthMismatch);
    }
    match PacketBuffer::from_bytes(decompressed) {
        Ok(p) => {
            let id = p.id();
            let body = p.body_vec();
            Ok((RawPacket { id, body }, end))
        },
        Err(e) => Err(FrameError::Packet(e)),
    }
}

} // verus!
