use crate::bytes::extend_bytes;
use crate::error::ProtocolError;
use crate::var_int::{lemma_varint_round_trip, varint_decode, varint_encode, VarInt};
use vstd::prelude::*;

verus! {

/// The zlib stream that flate2 produces for `data` at compression level 6.
pub uninterp spec fn zlib_compressed(data: Seq<u8>) -> Seq<u8>;

/// What flate2's zlib decoder yields for the stream `data`: the bytes read to
/// its end, or nothing where the decoder reports an error.
pub uninterp spec fn zlib_decompressed(data: Seq<u8>) -> Option<Seq<u8>>;

/// Relies on flate2's `write::ZlibEncoder` at level 6 over a `Vec<u8>`, fed all
/// of `data` once and finished: the zlib stream of `data`, which flate2's
/// decoder turns back into `data` (a lossless compressor). It always succeeds:
/// writing into a `Vec` does not fail, and the miniz_oxide backend fails only
/// on a dictionary request or a stream error, which a fresh encoder fed once
/// and finished never meets.
#[verifier::external_body]
fn zlib_compress(data: &[u8]) -> (r: Option<Vec<u8>>)
    ensures
        r is Some,
        r->Some_0@ == zlib_compressed(data@),
        zlib_decompressed(r->Some_0@) == Some(data@),
{
    let mut encoder = flate2::write::ZlibEncoder::new(Vec::new(), flate2::Compression::new(6));
    std::io::Write::write_all(&mut encoder, data).ok()?;
    encoder.finish().ok()
}

/// Relies on flate2's `bufread::ZlibDecoder` read to the end: the decoded bytes,
/// or `None` where flate2 reports an error.
#[verifier::external_body]
fn zlib_decompress(data: &[u8]) -> (r: Option<Vec<u8>>)
    ensures
        match r {
            Some(v) => zlib_decompressed(data@) == Some(v@),
            None => zlib_decompressed(data@) is None,
        },
{
    let mut decoder = flate2::bufread::ZlibDecoder::new(data);
    let mut out = Vec::new();
    std::io::Read::read_to_end(&mut decoder, &mut out).ok()?;
    Some(out)
}

/// A packet as the protocol defines it: an id and the bytes of its fields.
#[derive(Clone, Debug)]
pub struct UncompressedPacket {
    pub packet_id: VarInt,
    pub data: Vec<u8>,
}

/// A packet as it travels once compression is on: the length of the
/// uncompressed id and fields (`0` where they travel raw), and the body.
#[derive(Clone, Debug)]
pub struct CompressedPacket {
    pub body_len: VarInt,
    pub body: Vec<u8>,
}

/// A packet read from the wire, compressed or not.
#[derive(Clone, Debug)]
pub enum Packet {
    UnCompressed(UncompressedPacket),
    Compressed(CompressedPacket),
}

impl View for UncompressedPacket {
    type V = (i32, Seq<u8>);

    open spec fn view(&self) -> (i32, Seq<u8>) {
        (self.packet_id.0, self.data@)
    }
}

impl View for CompressedPacket {
    type V = (i32, Seq<u8>);

    open spec fn view(&self) -> (i32, Seq<u8>) {
        (self.body_len.0, self.body@)
    }
}

/// The abstract content of a [`Packet`].
pub ghost enum PacketModel {
    Plain(i32, Seq<u8>),
    Zipped(i32, Seq<u8>),
}

impl View for Packet {
    type V = PacketModel;

    open spec fn view(&self) -> PacketModel {
        match self {
            Packet::UnCompressed(p) => PacketModel::Plain(p.packet_id.0, p.data@),
            Packet::Compressed(c) => PacketModel::Zipped(c.body_len.0, c.body@),
        }
    }
}

/// Whether a body of `len` bytes fits behind a frame's 32-bit length prefix.
pub open spec fn fits_frame(len: int) -> bool {
    len <= i32::MAX
}

/// The id followed by the field bytes.
pub open spec fn pack_spec(id: i32, data: Seq<u8>) -> Seq<u8> {
    varint_encode(id) + data
}

/// A body behind its VarInt length prefix.
pub open spec fn frame_spec(body: Seq<u8>) -> Seq<u8> {
    varint_encode(body.len() as i32) + body
}

/// The id and field bytes held in an uncompressed body.
pub open spec fn unpack_spec(body: Seq<u8>) -> Result<(i32, Seq<u8>), ProtocolError> {
    match varint_decode(body) {
        Ok((id, n)) => Ok((id, body.skip(n as int))),
        Err(e) => Err(e),
    }
}

/// The body of the frame at the front of `s` and how many bytes the frame takes.
pub open spec fn read_frame_spec(s: Seq<u8>) -> Result<(Seq<u8>, nat), ProtocolError> {
    match varint_decode(s) {
        Err(e) => Err(e),
        Ok((len, n)) => if len < 0 {
            Err(ProtocolError::NegativeLength)
        } else if n + len > s.len() {
            Err(ProtocolError::UnexpectedEnd)
        } else {
            Ok((s.subrange(n as int, n + len), n + len as nat))
        },
    }
}

/// The uncompressed packet at the front of `s` and the bytes its frame takes.
pub open spec fn read_uncompressed_spec(s: Seq<u8>) -> Result<((i32, Seq<u8>), nat), ProtocolError> {
    match read_frame_spec(s) {
        Err(e) => Err(e),
        Ok((body, n)) => match unpack_spec(body) {
            Ok(p) => Ok((p, n)),
            Err(e) => Err(e),
        },
    }
}

/// The packet at the front of `s` once compression is on: a zero data length
/// announces a raw body, any other a zlib body that is kept as it is.
pub open spec fn read_compressed_spec(s: Seq<u8>) -> Result<(PacketModel, nat), ProtocolError> {
    match read_frame_spec(s) {
        Err(e) => Err(e),
        Ok((body, n)) => match varint_decode(body) {
            Err(e) => Err(e),
            Ok((data_len, m)) => if data_len == 0 {
                match unpack_spec(body.skip(m as int)) {
                    Ok((id, data)) => Ok((PacketModel::Plain(id, data), n)),
                    Err(e) => Err(e),
                }
            } else {
                Ok((PacketModel::Zipped(data_len, body.skip(m as int)), n))
            },
        },
    }
}

/// The id and fields that a compressed packet holds: a zero data length marks
/// a raw body, any other a zlib body.
pub open spec fn decompress_spec(c: (i32, Seq<u8>)) -> Result<(i32, Seq<u8>), ProtocolError> {
    if c.0 == 0 {
        unpack_spec(c.1)
    } else {
        match zlib_decompressed(c.1) {
            Some(inner) => unpack_spec(inner),
            None => Err(ProtocolError::DecompressionFailed),
        }
    }
}

/// The id and fields of a packet as read from the wire.
pub open spec fn packet_content(m: PacketModel) -> Result<(i32, Seq<u8>), ProtocolError> {
    match m {
        PacketModel::Plain(id, data) => Ok((id, data)),
        PacketModel::Zipped(l, b) => decompress_spec((l, b)),
    }
}

/// The data length and body with which `(id, data)` travels under `threshold`:
/// raw behind a zero length below the threshold, else zlib-compressed behind
/// its uncompressed length.
pub open spec fn compress_spec(id: i32, data: Seq<u8>, threshold: i32) -> (i32, Seq<u8>) {
    let inner = pack_spec(id, data);
    if inner.len() < threshold {
        (0, inner)
    } else {
        (inner.len() as i32, zlib_compressed(inner))
    }
}

proof fn lemma_unpack_pack(id: i32, data: Seq<u8>)
    ensures
        unpack_spec(pack_spec(id, data)) == Ok::<(i32, Seq<u8>), ProtocolError>((id, data)),
        pack_spec(id, data).len() >= 1,
{
    lemma_varint_round_trip(id, data);
    assert((varint_encode(id) + data).skip(varint_encode(id).len() as int) =~= data);
}

proof fn lemma_read_frame(body: Seq<u8>, rest: Seq<u8>)
    requires
        fits_frame(body.len() as int),
    ensures
        read_frame_spec(frame_spec(body) + rest) == Ok::<(Seq<u8>, nat), ProtocolError>(
            (body, frame_spec(body).len()),
        ),
{
    let len = body.len() as i32;
    let s = frame_spec(body) + rest;
    assert(s =~= varint_encode(len) + (body + rest));
    lemma_varint_round_trip(len, body + rest);
    let n = varint_encode(len).len();
    assert(s.subrange(n as int, n + len) =~= body);
}

/// Framing a packet without compression and reading the frame back gives the
/// same id and fields, consumes exactly the frame, and leaves what follows.
pub proof fn lemma_uncompressed_frame_round_trip(id: i32, data: Seq<u8>, rest: Seq<u8>)
    requires
        fits_frame(pack_spec(id, data).len() as int),
    ensures
        read_uncompressed_spec(frame_spec(pack_spec(id, data)) + rest) == Ok::<
            ((i32, Seq<u8>), nat),
            ProtocolError,
        >(((id, data), frame_spec(pack_spec(id, data)).len())),
{
    lemma_read_frame(pack_spec(id, data), rest);
    lemma_unpack_pack(id, data);
}

/// Framing a compressed packet and reading the frame back gives the same data
/// length and body where the data length is not zero; where it is zero the body
/// is read as the raw id and fields.
pub proof fn lemma_compressed_frame_round_trip(data_len: i32, body: Seq<u8>, rest: Seq<u8>)
    requires
        fits_frame(pack_spec(data_len, body).len() as int),
    ensures
        read_compressed_spec(frame_spec(pack_spec(data_len, body)) + rest) == (if data_len == 0 {
            match unpack_spec(body) {
                Ok((id, data)) => Ok((PacketModel::Plain(id, data), frame_spec(
                    pack_spec(data_len, body),
                ).len())),
                Err(e) => Err(e),
            }
        } else {
            Ok::<(PacketModel, nat), ProtocolError>(
                (PacketModel::Zipped(data_len, body), frame_spec(pack_spec(data_len, body)).len()),
            )
        }),
{
    lemma_read_frame(pack_spec(data_len, body), rest);
    lemma_unpack_pack(data_len, body);
}

/// Reading back the frame of any compressed packet and taking the id and fields
/// out of what was read gives what the packet holds, consuming exactly the
/// frame; where the packet holds no valid id, reading reports that error.
pub proof fn lemma_compressed_frame_content(data_len: i32, body: Seq<u8>, rest: Seq<u8>)
    requires
        fits_frame(pack_spec(data_len, body).len() as int),
    ensures
        match read_compressed_spec(frame_spec(pack_spec(data_len, body)) + rest) {
            Ok((m, n)) => packet_content(m) == decompress_spec((data_len, body)) && n
                == frame_spec(pack_spec(data_len, body)).len(),
            Err(e) => decompress_spec((data_len, body)) == Err::<(i32, Seq<u8>), ProtocolError>(e),
        },
{
    lemma_compressed_frame_round_trip(data_len, body, rest);
}

impl UncompressedPacket {
    /// Reads a packet from an uncompressed body: the id, then the rest as fields.
    pub fn unpack(body: &[u8]) -> (r: Result<UncompressedPacket, ProtocolError>)
        ensures
            match r {
                Ok(p) => unpack_spec(body@) == Ok::<(i32, Seq<u8>), ProtocolError>(p@),
                Err(e) => unpack_spec(body@) == Err::<(i32, Seq<u8>), ProtocolError>(e),
            },
    {
        let mut pos: usize = 0;
        assert(body@.subrange(0, body@.len() as int) =~= body@);
        let packet_id = VarInt::read_sync(body, &mut pos)?;
        let data = vstd::slice::slice_to_vec(&body[pos..body.len()]);
        assert(data@ =~= body@.skip(pos as int));
        Ok(UncompressedPacket { packet_id, data })
    }

    /// The id followed by the field bytes.
    pub fn pack(&self) -> (r: Vec<u8>)
        ensures
            r@ == pack_spec(self.packet_id.0, self.data@),
    {
        let mut body: Vec<u8> = Vec::new();
        self.packet_id.write_sync(&mut body);
        extend_bytes(&mut body, self.data.as_slice());
        body
    }

    /// The packet as it travels once compression is on. Where the id and fields
    /// take fewer bytes than `threshold` they travel raw behind a zero data
    /// length; else they are zlib-compressed behind their length. Decompressing
    /// the result gives this packet back.
    pub fn compress(&self, threshold: i32) -> (r: Result<CompressedPacket, ProtocolError>)
        requires
            fits_frame(pack_spec(self.packet_id.0, self.data@).len() as int),
        ensures
            r matches Ok(c) && c@ == compress_spec(self.packet_id.0, self.data@, threshold)
                && (c.body_len.0 == 0 <==> pack_spec(self.packet_id.0, self.data@).len()
                < threshold) && decompress_spec(c@) == Ok::<(i32, Seq<u8>), ProtocolError>(
                self@,
            ),
    {
        let body = self.pack();
        proof {
            lemma_unpack_pack(self.packet_id.0, self.data@);
        }
        if threshold > 0 && body.len() < threshold as usize {
            Ok(CompressedPacket { body_len: VarInt(0), body })
        } else {
            let len = body.len();
            match zlib_compress(body.as_slice()) {
                Some(compressed) => Ok(CompressedPacket { body_len: VarInt(len as i32), body: compressed }),
                None => Err(ProtocolError::CompressionFailed),
            }
        }
    }

    /// Appends the packet's frame to `writer`: the length of the id and fields,
    /// then the id and fields.
    pub fn write(&self, writer: &mut Vec<u8>)
        requires
            fits_frame(pack_spec(self.packet_id.0, self.data@).len() as int),
        ensures
            final(writer)@ == old(writer)@ + frame_spec(pack_spec(self.packet_id.0, self.data@)),
    {
        let body = self.pack();
        VarInt(body.len() as i32).write_sync(writer);
        extend_bytes(writer, body.as_slice());
        assert(final(writer)@ =~= old(writer)@ + frame_spec(body@));
    }
}

impl CompressedPacket {
    /// The data length followed by the body.
    pub fn pack(&self) -> (r: Vec<u8>)
        ensures
            r@ == pack_spec(self.body_len.0, self.body@),
    {
        let mut body: Vec<u8> = Vec::new();
        self.body_len.write_sync(&mut body);
        extend_bytes(&mut body, self.body.as_slice());
        body
    }

    /// The packet that the body holds: the body itself where the data length is
    /// zero, else the body inflated.
    pub fn decompress(&self) -> (r: Result<UncompressedPacket, ProtocolError>)
        ensures
            match r {
                Ok(p) => decompress_spec(self@) == Ok::<(i32, Seq<u8>), ProtocolError>(p@),
                Err(e) => decompress_spec(self@) == Err::<(i32, Seq<u8>), ProtocolError>(e),
            },
    {
        if self.body_len.0 == 0 {
            return UncompressedPacket::unpack(self.body.as_slice());
        }
        match zlib_decompress(self.body.as_slice()) {
            Some(inner) => UncompressedPacket::unpack(inner.as_slice()),
            None => Err(ProtocolError::DecompressionFailed),
        }
    }

    /// Appends the packet's frame to `writer`: the length of the data length and
    /// body, then both.
    pub fn write(&self, writer: &mut Vec<u8>)
        requires
            fits_frame(pack_spec(self.body_len.0, self.body@).len() as int),
        ensures
            final(writer)@ == old(writer)@ + frame_spec(pack_spec(self.body_len.0, self.body@)),
    {
        let body = self.pack();
        VarInt(body.len() as i32).write_sync(writer);
        extend_bytes(writer, body.as_slice());
        assert(final(writer)@ =~= old(writer)@ + frame_spec(body@));
    }
}

impl Packet {
    /// Reads the body of the frame that starts at `*pos` and moves `*pos` past
    /// the frame. On an error `*pos` is left where it was.
    pub fn read_body(bytes: &[u8], pos: &mut usize) -> (r: Result<Vec<u8>, ProtocolError>)
        requires
            *old(pos) <= bytes@.len(),
        ensures
            match read_frame_spec(bytes@.subrange(*old(pos) as int, bytes@.len() as int)) {
                Ok((body, n)) => r matches Ok(b) && b@ == body && *final(pos) == *old(pos) + n,
                Err(e) => r == Err::<Vec<u8>, ProtocolError>(e) && *final(pos) == *old(pos),
            },
    {
        let start = *pos;
        let ghost rest = bytes@.subrange(start as int, bytes@.len() as int);
        let mut cursor: usize = start;
        let length = VarInt::read_sync(bytes, &mut cursor)?;
        if length.0 < 0 {
            return Err(ProtocolError::NegativeLength);
        }
        let len = length.0 as usize;
        if len > bytes.len() - cursor {
            return Err(ProtocolError::UnexpectedEnd);
        }
        let body = vstd::slice::slice_to_vec(&bytes[cursor..cursor + len]);
        assert(body@ =~= rest.subrange((cursor - start) as int, (cursor - start) + len));
        *pos = cursor + len;
        Ok(body)
    }

    /// Reads the uncompressed packet whose frame starts at `*pos` and moves
    /// `*pos` past the frame. On an error `*pos` is left where it was.
    pub fn read_uncompressed(bytes: &[u8], pos: &mut usize) -> (r: Result<
        UncompressedPacket,
        ProtocolError,
    >)
        requires
            *old(pos) <= bytes@.len(),
        ensures
            match read_uncompressed_spec(bytes@.subrange(*old(pos) as int, bytes@.len() as int)) {
                Ok((p, n)) => r matches Ok(q) && q@ == p && *final(pos) == *old(pos) + n,
                Err(e) => r == Err::<UncompressedPacket, ProtocolError>(e) && *final(pos) == *old(
                    pos,
                ),
            },
    {
        let mut cursor: usize = *pos;
        let body = Packet::read_body(bytes, &mut cursor)?;
        let packet = UncompressedPacket::unpack(body.as_slice())?;
        *pos = cursor;
        Ok(packet)
    }

    /// Reads the packet whose frame starts at `*pos` once compression is on, and
    /// moves `*pos` past the frame. The data length alone tells a raw body from
    /// a compressed one, so the threshold plays no part here. On an error
    /// `*pos` is left where it was.
    pub fn read_compressed(bytes: &[u8], pos: &mut usize, _threshold: i32) -> (r: Result<
        Packet,
        ProtocolError,
    >)
        requires
            *old(pos) <= bytes@.len(),
        ensures
            match read_compressed_spec(bytes@.subrange(*old(pos) as int, bytes@.len() as int)) {
                Ok((p, n)) => r matches Ok(q) && q@ == p && *final(pos) == *old(pos) + n,
                Err(e) => r == Err::<Packet, ProtocolError>(e) && *final(pos) == *old(pos),
            },
    {
        let mut cursor: usize = *pos;
        let body = Packet::read_body(bytes, &mut cursor)?;
        let mut inner: usize = 0;
        assert(body@.subrange(0, body@.len() as int) =~= body@);
        let data_length = VarInt::read_sync(body.as_slice(), &mut inner)?;
        let packet = if data_length.0 == 0 {
            let raw = UncompressedPacket::unpack(&body.as_slice()[inner..body.len()])?;
            assert(body@.subrange(inner as int, body@.len() as int) =~= body@.skip(inner as int));
            Packet::UnCompressed(raw)
        } else {
            let rest = vstd::slice::slice_to_vec(&body.as_slice()[inner..body.len()]);
            assert(rest@ =~= body@.skip(inner as int));
            Packet::Compressed(CompressedPacket { body_len: data_length, body: rest })
        };
        *pos = cursor;
        Ok(packet)
    }

    /// Reads the packet whose frame starts at `*pos`, compressed where a
    /// threshold is given, and moves `*pos` past the frame. On an error `*pos`
    /// is left where it was.
    pub fn read(bytes: &[u8], pos: &mut usize, threshold: Option<i32>) -> (r: Result<
        Packet,
        ProtocolError,
    >)
        requires
            *old(pos) <= bytes@.len(),
        ensures
            match threshold {
                Some(_) => match read_compressed_spec(
                    bytes@.subrange(*old(pos) as int, bytes@.len() as int),
                ) {
                    Ok((p, n)) => r matches Ok(q) && q@ == p && *final(pos) == *old(pos) + n,
                    Err(e) => r == Err::<Packet, ProtocolError>(e) && *final(pos) == *old(pos),
                },
                None => match read_uncompressed_spec(
                    bytes@.subrange(*old(pos) as int, bytes@.len() as int),
                ) {
                    Ok(((id, data), n)) => r matches Ok(q) && q@ == PacketModel::Plain(id, data)
                        && *final(pos) == *old(pos) + n,
                    Err(e) => r == Err::<Packet, ProtocolError>(e) && *final(pos) == *old(pos),
                },
            },
    {
        match threshold {
            Some(t) => Packet::read_compressed(bytes, pos, t),
            None => {
                let p = Packet::read_uncompressed(bytes, pos)?;
                Ok(Packet::UnCompressed(p))
            },
        }
    }

    /// Appends the packet's frame to `writer`. An uncompressed packet is
    /// compressed first where a threshold is given; a compressed one is
    /// written as it is. On an error `writer` is left as it was.
    pub fn write(&self, writer: &mut Vec<u8>, threshold: Option<i32>) -> (r: Result<(), ProtocolError>)
        requires
            match self@ {
                PacketModel::Plain(id, data) => fits_frame(pack_spec(id, data).len() as int),
                PacketModel::Zipped(l, b) => fits_frame(pack_spec(l, b).len() as int),
            },
        ensures
            match (self@, threshold) {
                (PacketModel::Plain(id, data), None) => r is Ok && final(writer)@ == old(writer)@
                    + frame_spec(pack_spec(id, data)),
                (PacketModel::Plain(id, data), Some(t)) => {
                    let c = compress_spec(id, data, t);
                    match r {
                        Ok(_) => final(writer)@ == old(writer)@ + frame_spec(pack_spec(c.0, c.1))
                            && decompress_spec(c) == Ok::<(i32, Seq<u8>), ProtocolError>((id, data)),
                        Err(e) => final(writer)@ == old(writer)@ && e == ProtocolError::TooLarge
                            && !fits_frame(pack_spec(c.0, c.1).len() as int),
                    }
                },
                (PacketModel::Zipped(l, b), _) => r is Ok && final(writer)@ == old(writer)@
                    + frame_spec(pack_spec(l, b)),
            },
    {
        match self {
            Packet::UnCompressed(uncompressed) => match threshold {
                Some(t) => {
                    let compressed = uncompressed.compress(t)?;
                    let packed_len = compressed.pack().len();
                    if packed_len > 0x7fff_ffff {
                        return Err(ProtocolError::TooLarge);
                    }
                    compressed.write(writer);
                    Ok(())
                },
                None => {
                    uncompressed.write(writer);
                    Ok(())
                },
            },
            Packet::Compressed(compressed) => {
                compressed.write(writer);
                Ok(())
            },
        }
    }

    /// The id of the packet, decompressing its body where needed.
    pub fn packet_id(&self) -> (r: Result<VarInt, ProtocolError>)
        ensures
            match self@ {
                PacketModel::Plain(id, _) => r == Ok::<VarInt, ProtocolError>(VarInt(id)),
                PacketModel::Zipped(l, b) => match decompress_spec((l, b)) {
                    Ok((id, _)) => r == Ok::<VarInt, ProtocolError>(VarInt(id)),
                    Err(e) => r == Err::<VarInt, ProtocolError>(e),
                },
            },
    {
        match self {
            Packet::UnCompressed(p) => Ok(p.packet_id),
            Packet::Compressed(c) => {
                let p = c.decompress()?;
                Ok(p.packet_id)
            },
        }
    }

    /// The zlib stream of `data` at compression level 6.
    pub fn compress_data(data: &[u8]) -> (r: Result<Vec<u8>, ProtocolError>)
        ensures
            r matches Ok(c) && c@ == zlib_compressed(data@) && zlib_decompressed(c@) == Some(data@),
    {
        match zlib_compress(data) {
            Some(c) => Ok(c),
            None => Err(ProtocolError::CompressionFailed),
        }
    }

    /// The bytes that the zlib stream `data` holds.
    pub fn decompress_data(data: &[u8]) -> (r: Result<Vec<u8>, ProtocolError>)
        ensures
            match zlib_decompressed(data@) {
                Some(d) => r matches Ok(v) && v@ == d,
                None => r == Err::<Vec<u8>, ProtocolError>(ProtocolError::DecompressionFailed),
            },
    {
        match zlib_decompress(data) {
            Some(d) => Ok(d),
            None => Err(ProtocolError::DecompressionFailed),
        }
    }
}

} // verus!
