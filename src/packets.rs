use crate::error::ProtocolError;
use crate::field::{
    encodable, fields_bytes, kind_of, lemma_fields_round_trip, read_fields, Field, FieldKind,
};
use crate::num::pow256;
use crate::packet::UncompressedPacket;
use crate::packet_builder::PacketBuilder;
use crate::packet_reader::PacketReader;
use crate::var_int::VarInt;
use vstd::prelude::*;
use vstd::utf8::encode_utf8;

verus! {

/// A packet type with a fixed sequence of fields.
pub trait PacketActions: Sized {
    /// The packet's id.
    spec fn id(&self) -> i32;

    /// The packet's fields, in wire order.
    spec fn fields(&self) -> Seq<Field>;

    /// The kinds of this type's fields, in wire order.
    spec fn kinds() -> Seq<FieldKind>;

    /// Every string field fits behind a VarInt length.
    spec fn writable(&self) -> bool;

    /// The packet with its fields written in order.
    fn serialize(self) -> (r: UncompressedPacket)
        requires
            self.writable(),
        ensures
            r.packet_id.0 == self.id(),
            r.data@ == fields_bytes(self.fields()),
    ;

    /// The packet of this type whose fields open the body of `packet`; bytes
    /// after the last field are ignored.
    fn deserialize(packet: &UncompressedPacket) -> (r: Result<Self, ProtocolError>)
        ensures
            match read_fields(Self::kinds(), packet.data@) {
                Ok((fs, _)) => r matches Ok(p) && p.fields() == fs && p.id()
                    == packet.packet_id.0,
                Err(e) => r == Err::<Self, ProtocolError>(e),
            },
    ;

    /// The fields of a writable packet are of this type's kinds and encodable.
    proof fn lemma_fields_shape(&self)
        requires
            self.writable(),
        ensures
            self.fields().map_values(|f: Field| kind_of(f)) == Self::kinds(),
            forall|i: int| 0 <= i < self.fields().len() ==> encodable(#[trigger] self.fields()[i]),
    ;
}

/// Reading back the body of a serialized packet, by its type's kinds, gives
/// the packet's fields again: `deserialize` after `serialize` returns a packet
/// with the same id and fields.
pub proof fn lemma_packet_round_trip<P: PacketActions>(p: P)
    requires
        p.writable(),
    ensures
        read_fields(P::kinds(), fields_bytes(p.fields())) == Ok::<(Seq<Field>, nat), ProtocolError>(
            (p.fields(), fields_bytes(p.fields()).len()),
        ),
{
    p.lemma_fields_shape();
    lemma_fields_round_trip(p.fields(), Seq::empty());
    assert(fields_bytes(p.fields()) + Seq::<u8>::empty() =~= fields_bytes(p.fields()));
}

/// Opens a connection in the Status (1) or Login (2) state. Id 0x00.
#[derive(Debug)]
pub struct Handshake {
    pub packet_id: VarInt,
    pub protocol_version: VarInt,
    pub server_address: String,
    pub server_port: u16,
    pub next_state: VarInt,
}

/// Starts a login under a player name. Id 0x00.
#[derive(Clone)]
pub struct LoginStart {
    pub packet_id: VarInt,
    pub name: String,
    pub uuid: u128,
}

/// Turns compression on for what follows. Id 0x03.
#[derive(Clone, Copy, Debug)]
pub struct SetCompression {
    pub packet_id: VarInt,
    pub threshold: VarInt,
}

/// The server's status document, as JSON text. Id 0x00.
pub struct Status {
    pub packet_id: VarInt,
    pub status: String,
}

impl PacketActions for Handshake {
    open spec fn id(&self) -> i32 {
        self.packet_id.0
    }

    open spec fn fields(&self) -> Seq<Field> {
        seq![
            Field::VarInt(self.protocol_version.0),
            Field::Str(self.server_address@),
            Field::Int(2, self.server_port as nat),
            Field::VarInt(self.next_state.0),
        ]
    }

    open spec fn kinds() -> Seq<FieldKind> {
        seq![FieldKind::VarInt, FieldKind::Str, FieldKind::Int(2), FieldKind::VarInt]
    }

    open spec fn writable(&self) -> bool {
        encode_utf8(self.server_address@).len() <= i32::MAX
    }

    fn serialize(self) -> (r: UncompressedPacket) {
        let r = PacketBuilder::new(self.packet_id).write_var_int(self.protocol_version).write_string(
            self.server_address,
        ).write_int(self.server_port).write_var_int(self.next_state).build();
        proof {
            reveal_with_fuel(fields_bytes, 5);
            assert(r.data@ =~= fields_bytes(self.fields()));
        }
        r
    }

    fn deserialize(packet: &UncompressedPacket) -> (r: Result<Self, ProtocolError>) {
        proof {
            reveal_with_fuel(read_fields, 5);
        }
        let ghost s0 = packet.data@;
        let ghost ks = Self::kinds();
        assert(ks.drop_first() =~= seq![FieldKind::Str, FieldKind::Int(2), FieldKind::VarInt]);
        assert(ks.drop_first().drop_first() =~= seq![FieldKind::Int(2), FieldKind::VarInt]);
        assert(ks.drop_first().drop_first().drop_first() =~= seq![FieldKind::VarInt]);
        assert(ks.drop_first().drop_first().drop_first().drop_first() =~= Seq::<FieldKind>::empty());
        let mut pr = PacketReader::new(packet);
        let protocol_version = pr.read_var_int()?;
        let server_address = pr.read_string()?;
        let server_port: u16 = pr.read_int()?;
        let next_state = pr.read_var_int()?;
        let r = Handshake {
            packet_id: packet.packet_id,
            protocol_version,
            server_address,
            server_port,
            next_state,
        };
        proof {
            let (fs, _) = read_fields(ks, s0)->Ok_0;
            assert(r.fields() =~= fs);
        }
        Ok(r)
    }

    proof fn lemma_fields_shape(&self) {
        assert(self.fields().map_values(|f: Field| kind_of(f)) =~= Self::kinds());
        assert(pow256(2) == 0x1_0000) by {
            reveal_with_fuel(pow256, 3);
        }
    }
}

impl PacketActions for LoginStart {
    open spec fn id(&self) -> i32 {
        self.packet_id.0
    }

    open spec fn fields(&self) -> Seq<Field> {
        seq![Field::Str(self.name@), Field::Int(16, self.uuid as nat)]
    }

    open spec fn kinds() -> Seq<FieldKind> {
        seq![FieldKind::Str, FieldKind::Int(16)]
    }

    open spec fn writable(&self) -> bool {
        encode_utf8(self.name@).len() <= i32::MAX
    }

    fn serialize(self) -> (r: UncompressedPacket) {
        let r = PacketBuilder::new(self.packet_id).write_string(self.name).write_int(
            self.uuid,
        ).build();
        proof {
            reveal_with_fuel(fields_bytes, 3);
            assert(r.data@ =~= fields_bytes(self.fields()));
        }
        r
    }

    fn deserialize(packet: &UncompressedPacket) -> (r: Result<Self, ProtocolError>) {
        proof {
            reveal_with_fuel(read_fields, 3);
        }
        let ghost s0 = packet.data@;
        let ghost ks = Self::kinds();
        assert(ks.drop_first() =~= seq![FieldKind::Int(16)]);
        assert(ks.drop_first().drop_first() =~= Seq::<FieldKind>::empty());
        let mut packet_reader = PacketReader::new(packet);
        let name = packet_reader.read_string()?;
        let uuid: u128 = packet_reader.read_int()?;
        let r = LoginStart { packet_id: packet.packet_id, name, uuid };
        proof {
            let (fs, _) = read_fields(ks, s0)->Ok_0;
            assert(r.fields() =~= fs);
        }
        Ok(r)
    }

    proof fn lemma_fields_shape(&self) {
        assert(self.fields().map_values(|f: Field| kind_of(f)) =~= Self::kinds());
        assert(pow256(16) == 0x1_0000_0000_0000_0000_0000_0000_0000_0000) by {
            reveal_with_fuel(pow256, 17);
        }
    }
}

impl PacketActions for SetCompression {
    open spec fn id(&self) -> i32 {
        self.packet_id.0
    }

    open spec fn fields(&self) -> Seq<Field> {
        seq![Field::VarInt(self.threshold.0)]
    }

    open spec fn kinds() -> Seq<FieldKind> {
        seq![FieldKind::VarInt]
    }

    open spec fn writable(&self) -> bool {
        true
    }

    fn serialize(self) -> (r: UncompressedPacket) {
        let r = PacketBuilder::new(self.packet_id).write_var_int(self.threshold).build();
        proof {
            reveal_with_fuel(fields_bytes, 2);
            assert(r.data@ =~= fields_bytes(self.fields()));
        }
        r
    }

    fn deserialize(packet: &UncompressedPacket) -> (r: Result<Self, ProtocolError>) {
        proof {
            reveal_with_fuel(read_fields, 2);
        }
        let ghost s0 = packet.data@;
        let ghost ks = Self::kinds();
        assert(ks.drop_first() =~= Seq::<FieldKind>::empty());
        let mut packet_reader = PacketReader::new(packet);
        let threshold = packet_reader.read_var_int()?;
        let r = SetCompression { packet_id: packet.packet_id, threshold };
        proof {
            let (fs, _) = read_fields(ks, s0)->Ok_0;
            assert(r.fields() =~= fs);
        }
        Ok(r)
    }

    proof fn lemma_fields_shape(&self) {
        assert(self.fields().map_values(|f: Field| kind_of(f)) =~= Self::kinds());
    }
}

impl PacketActions for Status {
    open spec fn id(&self) -> i32 {
        self.packet_id.0
    }

    open spec fn fields(&self) -> Seq<Field> {
        seq![Field::Str(self.status@)]
    }

    open spec fn kinds() -> Seq<FieldKind> {
        seq![FieldKind::Str]
    }

    open spec fn writable(&self) -> bool {
        encode_utf8(self.status@).len() <= i32::MAX
    }

    fn serialize(self) -> (r: UncompressedPacket) {
        let r = PacketBuilder::new(self.packet_id).write_string(self.status).build();
        proof {
            reveal_with_fuel(fields_bytes, 2);
            assert(r.data@ =~= fields_bytes(self.fields()));
        }
        r
    }

    fn deserialize(packet: &UncompressedPacket) -> (r: Result<Self, ProtocolError>) {
        proof {
            reveal_with_fuel(read_fields, 2);
        }
        let ghost s0 = packet.data@;
        let ghost ks = Self::kinds();
        assert(ks.drop_first() =~= Seq::<FieldKind>::empty());
        let mut packet_reader = PacketReader::new(packet);
        let packet_id = packet.packet_id;
        let status = packet_reader.read_string()?;
        let r = Status { packet_id, status };
        proof {
            let (fs, _) = read_fields(ks, s0)->Ok_0;
            assert(r.fields() =~= fs);
        }
        Ok(r)
    }

    proof fn lemma_fields_shape(&self) {
        assert(self.fields().map_values(|f: Field| kind_of(f)) =~= Self::kinds());
    }
}

} // verus!
