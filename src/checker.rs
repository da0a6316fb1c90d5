use crate::error::ProtocolError;
use crate::field::{fields_bytes, read_fields, string_bytes, Field, FieldKind};
use crate::json::Json;
use crate::packet::{
    decompress_spec, frame_spec, pack_spec, read_compressed_spec, read_uncompressed_spec, Packet,
    PacketModel,
};
use crate::packet_builder::PacketBuilder;
use crate::packets::{Handshake, LoginStart, PacketActions, SetCompression, Status};
use crate::var_int::{lemma_varint_round_trip, varint_encode, VarInt};
use vstd::prelude::*;
use vstd::utf8::encode_utf8;

verus! {

/// The protocol version the status query announces.
pub const STATUS_PROTOCOL: i32 = 765;

/// The player name under which the login probe asks to join.
pub const PROBE_NAME: &'static str = "NotABot";

/// The fields of a handshake.
pub open spec fn handshake_fields(protocol: i32, addr: Seq<char>, port: u16, next: i32) -> Seq<Field> {
    seq![Field::VarInt(protocol), Field::Str(addr), Field::Int(2, port as nat), Field::VarInt(next)]
}

/// The frame of a packet with id 0 and the given fields.
pub open spec fn request_frame(fields: Seq<Field>) -> Seq<u8> {
    frame_spec(pack_spec(0, fields_bytes(fields)))
}

/// What the status query sends: a handshake for the Status state, then an
/// empty status request.
pub open spec fn status_request_spec(addr: Seq<char>, port: u16) -> Seq<u8> {
    request_frame(handshake_fields(765, addr, port, 1)) + request_frame(Seq::empty())
}

/// What the login probe sends: a handshake for the Login state, then a login
/// start under the probe's name with uuid 0.
pub open spec fn login_request_spec(addr: Seq<char>, port: u16, protocol: i32) -> Seq<u8> {
    request_frame(handshake_fields(protocol, addr, port, 2)) + request_frame(
        seq![Field::Str(PROBE_NAME@), Field::Int(16, 0)],
    )
}

/// An address short enough for a handshake frame.
pub open spec fn address_fits(addr: Seq<char>) -> bool {
    encode_utf8(addr).len() + 64 <= i32::MAX
}

/// Where the login probe stands.
#[derive(Clone, Copy, Debug, PartialEq, Eq, Structural)]
pub enum LoginState {
    /// The login start is sent; the server's first answer is awaited.
    AwaitingReply,
    /// The server turned compression on; the packet after it is awaited.
    AwaitingCompressed { threshold: i32 },
}

/// What the login probe does after one packet.
#[derive(Clone, Copy, Debug, PartialEq, Eq, Structural)]
pub enum LoginStep {
    /// The probe is over: whether the server enforces online mode.
    Decided { licensed: bool },
    /// Another packet is needed, read in the given state.
    Next(LoginState),
}

/// The probe's step on the packet at the front of `s`. A first answer of 0x01
/// (encryption request) means online mode, 0x02 (login success) offline mode,
/// 0x03 (set compression) that the next packet decides, read compressed: login
/// success there means offline mode and anything else online mode. 0x00
/// (disconnect) and any other id are errors.
pub open spec fn login_step_spec(state: LoginState, s: Seq<u8>) -> Result<LoginStep, ProtocolError> {
    match state {
        LoginState::AwaitingReply => match read_uncompressed_spec(s) {
            Err(e) => Err(e),
            Ok(((id, data), _)) => if id == 1 {
                Ok(LoginStep::Decided { licensed: true })
            } else if id == 2 {
                Ok(LoginStep::Decided { licensed: false })
            } else if id == 3 {
                match read_fields(seq![FieldKind::VarInt], data) {
                    Ok((fs, _)) => Ok(
                        LoginStep::Next(LoginState::AwaitingCompressed { threshold: fs[0]->VarInt_0 }),
                    ),
                    Err(e) => Err(e),
                }
            } else if id == 0 {
                Err(ProtocolError::Disconnected)
            } else {
                Err(ProtocolError::UnexpectedPacketId(id))
            },
        },
        LoginState::AwaitingCompressed { .. } => match read_compressed_spec(s) {
            Err(e) => Err(e),
            Ok((PacketModel::Plain(id, _), _)) => Ok(LoginStep::Decided { licensed: id != 2 }),
            Ok((PacketModel::Zipped(l, b), _)) => match decompress_spec((l, b)) {
                Ok((id, _)) => Ok(LoginStep::Decided { licensed: id != 2 }),
                Err(e) => Err(e),
            },
        },
    }
}

proof fn lemma_request_fits(fields: Seq<Field>, addr: Seq<char>, protocol: i32, port: u16, next: i32)
    requires
        fields == handshake_fields(protocol, addr, port, next),
        address_fits(addr),
    ensures
        fields_bytes(fields).len() + 16 <= i32::MAX,
{
    reveal_with_fuel(fields_bytes, 5);
    lemma_varint_round_trip(protocol, Seq::empty());
    lemma_varint_round_trip(next, Seq::empty());
    lemma_varint_round_trip(encode_utf8(addr).len() as i32, Seq::empty());
    assert(fields_bytes(fields).len() == varint_encode(protocol).len() + string_bytes(addr).len()
        + 2 + varint_encode(next).len()) by {
        assert(fields.drop_first() =~= seq![Field::Str(addr), Field::Int(2, port as nat), Field::VarInt(next)]);
        assert(fields.drop_first().drop_first() =~= seq![Field::Int(2, port as nat), Field::VarInt(next)]);
        assert(fields.drop_first().drop_first().drop_first() =~= seq![Field::VarInt(next)]);
        assert(fields.drop_first().drop_first().drop_first().drop_first() =~= Seq::<Field>::empty());
        crate::num::lemma_be_round_trip(port as nat, 2);
    }
}

/// Appends the handshake frame for `next_state` to `out`.
fn write_handshake(out: &mut Vec<u8>, addr: &str, port: u16, protocol: i32, next_state: i32)
    requires
        address_fits(addr@),
    ensures
        final(out)@ == old(out)@ + request_frame(handshake_fields(protocol, addr@, port, next_state)),
{
    let handshake = Handshake {
        packet_id: VarInt(0x00),
        protocol_version: VarInt(protocol),
        server_address: addr.to_owned(),
        server_port: port,
        next_state: VarInt(next_state),
    };
    proof {
        lemma_request_fits(handshake.fields(), addr@, protocol, port, next_state);
        lemma_varint_round_trip(0, Seq::empty());
    }
    let packet = handshake.serialize();
    packet.write(out);
}

/// The bytes that the status query sends to `addr:port`.
pub fn status_request(addr: &str, port: u16) -> (r: Vec<u8>)
    requires
        address_fits(addr@),
    ensures
        r@ == status_request_spec(addr@, port),
{
    let mut out: Vec<u8> = Vec::new();
    write_handshake(&mut out, addr, port, STATUS_PROTOCOL, 0x01);
    let request = PacketBuilder::new(VarInt(0x00)).build();
    proof {
        lemma_varint_round_trip(0, Seq::empty());
        assert(fields_bytes(Seq::<Field>::empty()) == Seq::<u8>::empty());
    }
    request.write(&mut out);
    assert(out@ =~= status_request_spec(addr@, port));
    out
}

/// The bytes that the login probe sends to `addr:port`, announcing protocol
/// version `protocol` cut to 32 bits.
pub fn login_request(addr: &str, port: u16, protocol: i64) -> (r: Vec<u8>)
    requires
        address_fits(addr@),
    ensures
        r@ == login_request_spec(addr@, port, #[verifier::truncate] (protocol as i32)),
{
    let mut out: Vec<u8> = Vec::new();
    write_handshake(&mut out, addr, port, #[verifier::truncate] (protocol as i32), 0x02);
    let login_start = LoginStart { packet_id: VarInt(0x00), name: PROBE_NAME.to_owned(), uuid: 0 };
    proof {
        reveal_strlit("NotABot");
        lemma_varint_round_trip(0, Seq::empty());
        lemma_varint_round_trip(7, Seq::empty());
        reveal_with_fuel(fields_bytes, 3);
        crate::num::lemma_be_round_trip(0, 16);
        assert(vstd::utf8::is_ascii_chars(PROBE_NAME@));
        vstd::utf8::is_ascii_chars_encode_utf8(PROBE_NAME@);
        assert(encode_utf8(PROBE_NAME@).len() == 7);
    }
    let packet = login_start.serialize();
    packet.write(&mut out);
    out
}

/// The status document text in the server's reply, the uncompressed packet at
/// the front of `bytes`. Its id is not checked.
pub fn status_reply(bytes: &[u8]) -> (r: Result<String, ProtocolError>)
    ensures
        match read_uncompressed_spec(bytes@) {
            Ok(((_, data), _)) => match read_fields(seq![FieldKind::Str], data) {
                Ok((fs, _)) => r matches Ok(s) && fs[0] == Field::Str(s@),
                Err(e) => r == Err::<String, ProtocolError>(e),
            },
            Err(e) => r == Err::<String, ProtocolError>(e),
        },
{
    let mut pos: usize = 0;
    assert(bytes@.subrange(0, bytes@.len() as int) =~= bytes@);
    let response = Packet::read_uncompressed(bytes, &mut pos)?;
    let status = Status::deserialize(&response)?;
    assert(Status::kinds() =~= seq![FieldKind::Str]);
    Ok(status.status)
}

/// One step of the login probe on the packet at the front of `bytes`.
pub fn license_step(state: LoginState, bytes: &[u8]) -> (r: Result<LoginStep, ProtocolError>)
    ensures
        r == login_step_spec(state, bytes@),
{
    let mut pos: usize = 0;
    assert(bytes@.subrange(0, bytes@.len() as int) =~= bytes@);
    match state {
        LoginState::AwaitingReply => {
            let packet = Packet::read_uncompressed(bytes, &mut pos)?;
            if packet.packet_id.0 == 0x01 {
                Ok(LoginStep::Decided { licensed: true })
            } else if packet.packet_id.0 == 0x02 {
                Ok(LoginStep::Decided { licensed: false })
            } else if packet.packet_id.0 == 0x03 {
                let compression = SetCompression::deserialize(&packet)?;
                assert(SetCompression::kinds() =~= seq![FieldKind::VarInt]);
                Ok(LoginStep::Next(LoginState::AwaitingCompressed { threshold: compression.threshold.0 }))
            } else if packet.packet_id.0 == 0x00 {
                Err(ProtocolError::Disconnected)
            } else {
                Err(ProtocolError::UnexpectedPacketId(packet.packet_id.0))
            }
        },
        LoginState::AwaitingCompressed { threshold } => {
            let packet = Packet::read(bytes, &mut pos, Some(threshold))?;
            let id = packet.packet_id()?;
            Ok(LoginStep::Decided { licensed: id.0 != 0x02 })
        },
    }
}

/// The tri-valued online-mode classification of a server.
#[derive(Clone, Copy, Debug, PartialEq, Eq, Structural)]
pub enum License {
    /// The server enforces online mode.
    Licensed,
    /// The server lets an unauthenticated player in.
    Unlicensed,
    /// The probe failed.
    Unknown,
}

/// The stored form of a classification: 1, 0 or -1.
pub open spec fn license_code(l: License) -> i64 {
    match l {
        License::Licensed => 1i64,
        License::Unlicensed => 0i64,
        License::Unknown => -1i64,
    }
}

impl License {
    /// The classification of a probe that decided `licensed`, or failed (`None`).
    pub fn from_outcome(licensed: Option<bool>) -> (r: License)
        ensures
            r == match licensed {
                Some(true) => License::Licensed,
                Some(false) => License::Unlicensed,
                None => License::Unknown,
            },
    {
        match licensed {
            Some(true) => License::Licensed,
            Some(false) => License::Unlicensed,
            None => License::Unknown,
        }
    }

    /// The stored form: 1, 0 or -1.
    pub fn code(&self) -> (r: i64)
        ensures
            r == license_code(*self),
    {
        match self {
            License::Licensed => 1,
            License::Unlicensed => 0,
            License::Unknown => -1,
        }
    }

    /// The console marker: `/` licensed, `+` not licensed, `-` unknown.
    pub fn marker(&self) -> (r: char)
        ensures
            r == match self {
                License::Licensed => '/',
                License::Unlicensed => '+',
                License::Unknown => '-',
            },
    {
        match self {
            License::Licensed => '/',
            License::Unlicensed => '+',
            License::Unknown => '-',
        }
    }
}

/// The record of a discovered server: its address, its classification and its
/// status document.
pub fn full_info(ip: String, port: String, license: License, status: Json) -> (r: Json)
    ensures
        r matches Json::Object(entries) && entries@.len() == 4
            && entries@[0].0@ == "ip"@ && entries@[0].1 == Json::Str(ip)
            && entries@[1].0@ == "port"@ && entries@[1].1 == Json::Str(port)
            && entries@[2].0@ == "license"@ && entries@[2].1 == Json::Int(license_code(license))
            && entries@[3].0@ == "status"@ && entries@[3].1 == status,
{
    let code = license.code();
    let mut entries: Vec<(String, Json)> = Vec::new();
    entries.push(("ip".to_owned(), Json::Str(ip)));
    entries.push(("port".to_owned(), Json::Str(port)));
    entries.push(("license".to_owned(), Json::Int(code)));
    entries.push(("status".to_owned(), status));
    Json::Object(entries)
}

} // verus!
