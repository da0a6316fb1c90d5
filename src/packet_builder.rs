use crate::bytes::extend_bytes;
use crate::field::string_bytes;
use crate::num::{be_bytes, Integer};
use crate::packet::UncompressedPacket;
use crate::var_int::{varint_encode, VarInt};
use vstd::prelude::*;
use vstd::utf8::encode_utf8;

verus! {

/// Assembles the body of a packet field by field.
pub struct PacketBuilder {
    pub packet_id: VarInt,
    pub data: Vec<u8>,
}

impl PacketBuilder {
    /// An empty body for a packet with id `packet_id`.
    pub fn new(packet_id: VarInt) -> (r: PacketBuilder)
        ensures
            r.packet_id == packet_id,
            r.data@ == Seq::<u8>::empty(),
    {
        PacketBuilder { packet_id, data: Vec::new() }
    }

    /// The packet with the id and the fields written so far.
    pub fn build(self) -> (r: UncompressedPacket)
        ensures
            r.packet_id == self.packet_id,
            r.data@ == self.data@,
    {
        UncompressedPacket { packet_id: self.packet_id, data: self.data }
    }

    /// Appends a VarInt.
    pub fn write_var_int(self, var_int: VarInt) -> (r: Self)
        ensures
            r.packet_id == self.packet_id,
            r.data@ == self.data@ + varint_encode(var_int.0),
    {
        let mut b = self;
        var_int.write_sync(&mut b.data);
        b
    }

    /// Appends a string: its UTF-8 length as a VarInt, then its UTF-8 bytes.
    pub fn write_string(self, string: String) -> (r: Self)
        requires
            encode_utf8(string@).len() <= i32::MAX,
        ensures
            r.packet_id == self.packet_id,
            r.data@ == self.data@ + string_bytes(string@),
    {
        let bytes = string.as_str().as_bytes();
        let b = self.write_var_int(VarInt(bytes.len() as i32));
        let mut b = b;
        extend_bytes(&mut b.data, bytes);
        assert(b.data@ =~= self.data@ + string_bytes(string@));
        b
    }

    /// Appends the big-endian bytes of a fixed-width integer.
    pub fn write_int<I: Integer>(self, value: I) -> (r: Self)
        ensures
            r.packet_id == self.packet_id,
            r.data@ == self.data@ + be_bytes(value.bits(), I::width()),
    {
        let mut b = self;
        let bytes = value.to_bytes();
        extend_bytes(&mut b.data, bytes.as_slice());
        b
    }

    /// Appends a boolean as the byte 1 or 0.
    pub fn write_bool(self, b: bool) -> (r: Self)
        ensures
            r.packet_id == self.packet_id,
            r.data@ == self.data@ + seq![if b { 1u8 } else { 0u8 }],
    {
        let byte: [u8; 1] = if b {
            [1]
        } else {
            [0]
        };
        let r = self.write_buffer(&byte);
        assert(byte@ =~= seq![if b { 1u8 } else { 0u8 }]);
        r
    }

    /// Appends raw bytes.
    pub fn write_buffer(self, buf: &[u8]) -> (r: Self)
        ensures
            r.packet_id == self.packet_id,
            r.data@ == self.data@ + buf@,
    {
        let mut b = self;
        extend_bytes(&mut b.data, buf);
        b
    }
}

} // verus!
