use minecraft_scanner::checker::{
    full_info, license_step, login_request, status_reply, status_request, License, LoginState,
    LoginStep,
};
use minecraft_scanner::error::ProtocolError;
use minecraft_scanner::json::Json;
use minecraft_scanner::packet::UncompressedPacket;
use minecraft_scanner::packets::{PacketActions, SetCompression, Status};
use minecraft_scanner::status::{description_of, protocol_of, StatusWrap};
use minecraft_scanner::var_int::VarInt;

fn s(t: &str) -> String {
    t.to_string()
}

fn obj(members: Vec<(&str, Json)>) -> Json {
    Json::Object(members.into_iter().map(|(k, v)| (s(k), v)).collect())
}

/// `{"version":{"name":"1.20.4","protocol":765},"players":{"online":3,"max":20},"description":"Hi"}`
fn scenario_status() -> Json {
    obj(vec![
        ("version", obj(vec![("name", Json::Str(s("1.20.4"))), ("protocol", Json::Int(765))])),
        ("players", obj(vec![("online", Json::Int(3)), ("max", Json::Int(20))])),
        ("description", Json::Str(s("Hi"))),
    ])
}

const STATUS_TEXT: &str = "{\"version\":{\"name\":\"1.20.4\",\"protocol\":765},\"players\":{\"online\":3,\"max\":20},\"description\":\"Hi\"}";

fn frame(id: i32, data: Vec<u8>) -> Vec<u8> {
    let mut out = Vec::new();
    UncompressedPacket { packet_id: VarInt(id), data }.write(&mut out);
    out
}

fn compressed_frame(id: i32, data: Vec<u8>, threshold: i32) -> Vec<u8> {
    let c = UncompressedPacket { packet_id: VarInt(id), data }.compress(threshold).unwrap();
    let mut out = Vec::new();
    c.write(&mut out);
    out
}

fn set_compression_frame(threshold: i32) -> Vec<u8> {
    let p = SetCompression { packet_id: VarInt(0x03), threshold: VarInt(threshold) }.serialize();
    let mut out = Vec::new();
    p.write(&mut out);
    out
}

fn probe(frames: Vec<Vec<u8>>) -> Option<bool> {
    let mut state = LoginState::AwaitingReply;
    for f in frames {
        match license_step(state, &f) {
            Ok(LoginStep::Decided { licensed }) => return Some(licensed),
            Ok(LoginStep::Next(next)) => state = next,
            Err(_) => return None,
        }
    }
    None
}

#[test]
fn offline_mode_server() {
    let reply = Status { packet_id: VarInt(0), status: s(STATUS_TEXT) }.serialize();
    let mut wire = Vec::new();
    reply.write(&mut wire);
    assert_eq!(status_reply(&wire), Ok(s(STATUS_TEXT)));

    let status = scenario_status();
    assert_eq!(protocol_of(&status), 765);
    let licensed = probe(vec![frame(0x02, vec![0xde, 0xad])]);
    assert_eq!(licensed, Some(false));
    let license = License::from_outcome(licensed);
    assert_eq!(license.code(), 0);
    let info = full_info(s("10.0.0.1"), s("25565"), license, status);
    let wrap = StatusWrap::from_value(&info);
    assert_eq!(wrap.version, "1.20.4");
    assert_eq!(wrap.online, 3);
    assert_eq!(wrap.max_online, 20);
    assert_eq!(wrap.description, "Hi");
    assert_eq!(wrap.license, 0);
    assert_eq!(wrap.ip, "10.0.0.1");
    assert_eq!(wrap.port, "25565");
}

#[test]
fn online_mode_server() {
    let licensed = probe(vec![frame(0x01, vec![0x00, 0x01, 0x02])]);
    assert_eq!(licensed, Some(true));
    assert_eq!(License::from_outcome(licensed).code(), 1);
    let info = full_info(s("10.0.0.2"), s("25565"), License::from_outcome(licensed), scenario_status());
    assert_eq!(StatusWrap::from_value(&info).license, 1);
}

#[test]
fn compressed_login_branch() {
    let first = set_compression_frame(256);
    assert_eq!(
        license_step(LoginState::AwaitingReply, &first),
        Ok(LoginStep::Next(LoginState::AwaitingCompressed { threshold: 256 }))
    );
    // A short login success travels raw behind a zero data length.
    let licensed = probe(vec![first.clone(), compressed_frame(0x02, vec![1, 2, 3], 256)]);
    assert_eq!(licensed, Some(false));
    assert_eq!(License::from_outcome(licensed).code(), 0);
    // A long one is zlib-compressed.
    let licensed = probe(vec![first, compressed_frame(0x02, vec![0x55; 600], 256)]);
    assert_eq!(licensed, Some(false));
}

#[test]
fn compressed_online_branch() {
    let first = set_compression_frame(256);
    let licensed = probe(vec![first.clone(), compressed_frame(0x01, vec![0x55; 600], 256)]);
    assert_eq!(licensed, Some(true));
    assert_eq!(License::from_outcome(licensed).code(), 1);
    let licensed = probe(vec![first, compressed_frame(0x01, vec![4, 5], 256)]);
    assert_eq!(licensed, Some(true));
}

#[test]
fn disconnect_on_login() {
    let f = frame(0x00, vec![0x02, b'{', b'}']);
    assert_eq!(license_step(LoginState::AwaitingReply, &f), Err(ProtocolError::Disconnected));
    let licensed = probe(vec![f]);
    assert_eq!(License::from_outcome(licensed).code(), -1);
    assert_eq!(License::from_outcome(licensed), License::Unknown);
}

#[test]
fn unexpected_login_packet() {
    let f = frame(0x04, vec![]);
    assert_eq!(
        license_step(LoginState::AwaitingReply, &f),
        Err(ProtocolError::UnexpectedPacketId(4))
    );
    assert_eq!(
        license_step(LoginState::AwaitingReply, &[0x05, 0x02]),
        Err(ProtocolError::UnexpectedEnd)
    );
}

#[test]
fn motd_extra_array() {
    let status = obj(vec![(
        "description",
        obj(vec![(
            "extra",
            Json::Array(vec![
                obj(vec![("text", Json::Str(s("Hello, ")))]),
                obj(vec![("text", Json::Str(s("world")))]),
            ]),
        )]),
    )]);
    assert_eq!(description_of(&status), "Hello, world");
}

#[test]
fn status_request_bytes() {
    let bytes = status_request("127.0.0.1", 25565);
    let mut expected = vec![0x10, 0x00, 0xfd, 0x05, 0x09];
    expected.extend_from_slice(b"127.0.0.1");
    expected.extend_from_slice(&[0x63, 0xdd, 0x01, 0x01, 0x00]);
    assert_eq!(bytes, expected);
}

#[test]
fn login_request_bytes() {
    let bytes = login_request("1.2.3.4", 25565, 765);
    let mut expected = vec![0x0e, 0x00, 0xfd, 0x05, 0x07];
    expected.extend_from_slice(b"1.2.3.4");
    expected.extend_from_slice(&[0x63, 0xdd, 0x02]);
    expected.extend_from_slice(&[0x19, 0x00, 0x07]);
    expected.extend_from_slice(b"NotABot");
    expected.extend_from_slice(&[0u8; 16]);
    assert_eq!(bytes, expected);
}
