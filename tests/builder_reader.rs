use minecraft_scanner::error::ProtocolError;
use minecraft_scanner::packet::UncompressedPacket;
use minecraft_scanner::packet_builder::PacketBuilder;
use minecraft_scanner::packet_reader::PacketReader;
use minecraft_scanner::var_int::VarInt;

#[test]
fn builder_writes_fields_in_order() {
    let p = PacketBuilder::new(VarInt(0x05))
        .write_var_int(VarInt(300))
        .write_string("hé".to_string())
        .write_int(513u16)
        .write_bool(true)
        .write_bool(false)
        .write_buffer(&[9, 9])
        .build();
    assert_eq!(p.packet_id, VarInt(0x05));
    assert_eq!(p.data, vec![0xac, 0x02, 0x03, b'h', 0xc3, 0xa9, 0x02, 0x01, 0x01, 0x00, 9, 9]);
}

#[test]
fn reader_reads_what_builder_wrote() {
    let p = PacketBuilder::new(VarInt(0x00))
        .write_var_int(VarInt(-5))
        .write_string("Minecraft ✓".to_string())
        .write_int(0x0102_0304_0506_0708u64)
        .write_int(-3i8)
        .write_bool(true)
        .write_buffer(&[1, 2, 3, 4])
        .write_string(String::new())
        .build();
    let mut r = PacketReader::new(&p);
    assert_eq!(r.read_var_int(), Ok(VarInt(-5)));
    assert_eq!(r.read_string(), Ok("Minecraft ✓".to_string()));
    assert_eq!(r.read_int::<u64>(), Ok(0x0102_0304_0506_0708u64));
    assert_eq!(r.read_int::<i8>(), Ok(-3i8));
    assert_eq!(r.read_bool(), Ok(true));
    let mut buf = [0u8; 4];
    assert_eq!(r.read_exact(&mut buf), 4);
    assert_eq!(buf, [1, 2, 3, 4]);
    assert_eq!(r.read_string(), Ok(String::new()));
    assert_eq!(r.read_bool(), Err(ProtocolError::UnexpectedEnd));
}

#[test]
fn reader_refuses_bad_bool_and_keeps_position() {
    let p = UncompressedPacket { packet_id: VarInt(0), data: vec![2, 1] };
    let mut r = PacketReader::new(&p);
    assert_eq!(r.read_bool(), Err(ProtocolError::InvalidBool));
    let mut buf = [0u8; 2];
    assert_eq!(r.read_exact(&mut buf), 2);
    assert_eq!(buf, [2, 1]);
}

#[test]
fn reader_refuses_invalid_utf8() {
    let p = UncompressedPacket { packet_id: VarInt(0), data: vec![0x02, 0xc3, 0x28] };
    let mut r = PacketReader::new(&p);
    assert_eq!(r.read_string(), Err(ProtocolError::InvalidUtf8));
    assert_eq!(r.read_var_int(), Ok(VarInt(2)));
}

#[test]
fn reader_refuses_short_and_negative_strings() {
    let p = UncompressedPacket { packet_id: VarInt(0), data: vec![0x05, b'a', b'b'] };
    let mut r = PacketReader::new(&p);
    assert_eq!(r.read_string(), Err(ProtocolError::UnexpectedEnd));
    let p = UncompressedPacket { packet_id: VarInt(0), data: vec![0xff, 0xff, 0xff, 0xff, 0x0f] };
    let mut r = PacketReader::new(&p);
    assert_eq!(r.read_string(), Err(ProtocolError::NegativeLength));
}

#[test]
fn reader_int_needs_all_its_bytes() {
    let p = UncompressedPacket { packet_id: VarInt(0), data: vec![1, 2, 3] };
    let mut r = PacketReader::new(&p);
    assert_eq!(r.read_int::<u32>(), Err(ProtocolError::UnexpectedEnd));
    assert_eq!(r.read_int::<u16>(), Ok(0x0102u16));
}

#[test]
fn read_exact_takes_what_is_left() {
    let p = UncompressedPacket { packet_id: VarInt(0), data: vec![7, 8] };
    let mut r = PacketReader::new(&p);
    let mut buf = [0u8; 5];
    assert_eq!(r.read_exact(&mut buf), 2);
    assert_eq!(buf, [7, 8, 0, 0, 0]);
    assert_eq!(r.read_exact(&mut buf), 0);
}
