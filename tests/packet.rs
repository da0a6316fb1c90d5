use minecraft_scanner::error::ProtocolError;
use minecraft_scanner::packet::{CompressedPacket, Packet, UncompressedPacket};
use minecraft_scanner::var_int::VarInt;

fn packet(id: i32, data: Vec<u8>) -> UncompressedPacket {
    UncompressedPacket { packet_id: VarInt(id), data }
}

#[test]
fn uncompressed_pack_and_unpack() {
    let p = packet(0x02, vec![1, 2, 3]);
    assert_eq!(p.pack(), vec![0x02, 1, 2, 3]);
    let q = UncompressedPacket::unpack(&[0x80, 0x01, 9, 8]).unwrap();
    assert_eq!(q.packet_id, VarInt(128));
    assert_eq!(q.data, vec![9, 8]);
    assert_eq!(UncompressedPacket::unpack(&[]).unwrap_err(), ProtocolError::UnexpectedEnd);
}

#[test]
fn uncompressed_frame_layout() {
    let mut out = Vec::new();
    packet(0x00, vec![]).write(&mut out);
    assert_eq!(out, vec![0x01, 0x00]);
    let mut out = vec![0xee];
    packet(0x01, vec![5, 6]).write(&mut out);
    assert_eq!(out, vec![0xee, 0x03, 0x01, 5, 6]);
}

#[test]
fn uncompressed_frame_round_trip() {
    let data: Vec<u8> = (0..300u32).map(|i| (i % 251) as u8).collect();
    let p = packet(0x2a, data.clone());
    let mut wire = Vec::new();
    p.write(&mut wire);
    wire.extend_from_slice(&[0x77, 0x88]);
    let mut pos = 0usize;
    let q = Packet::read_uncompressed(&wire, &mut pos).unwrap();
    assert_eq!(q.packet_id, VarInt(0x2a));
    assert_eq!(q.data, data);
    assert_eq!(pos, wire.len() - 2);
}

#[test]
fn read_body_errors() {
    let mut pos = 0usize;
    // A frame that announces five bytes but holds two.
    assert_eq!(Packet::read_body(&[0x05, 1, 2], &mut pos), Err(ProtocolError::UnexpectedEnd));
    assert_eq!(pos, 0);
    // A negative length.
    assert_eq!(
        Packet::read_body(&[0xff, 0xff, 0xff, 0xff, 0x0f], &mut pos),
        Err(ProtocolError::NegativeLength)
    );
    assert_eq!(
        Packet::read_body(&[0x80, 0x80, 0x80, 0x80, 0x80], &mut pos),
        Err(ProtocolError::VarIntTooLong)
    );
    assert_eq!(Packet::read_body(&[0x02, 7, 8, 9], &mut pos), Ok(vec![7, 8]));
    assert_eq!(pos, 3);
}

#[test]
fn compress_below_threshold_travels_raw() {
    let p = packet(0x02, vec![1, 2, 3]);
    let c = p.compress(256).unwrap();
    assert_eq!(c.body_len, VarInt(0));
    assert_eq!(c.body, vec![0x02, 1, 2, 3]);
    let back = c.decompress().unwrap();
    assert_eq!(back.packet_id, VarInt(0x02));
    assert_eq!(back.data, vec![1, 2, 3]);
    assert_eq!(Packet::Compressed(c.clone()).packet_id(), Ok(VarInt(0x02)));
    let mut wire = Vec::new();
    c.write(&mut wire);
    assert_eq!(wire, vec![0x05, 0x00, 0x02, 1, 2, 3]);
    let mut pos = 0usize;
    match Packet::read_compressed(&wire, &mut pos, 256).unwrap() {
        Packet::UnCompressed(q) => {
            assert_eq!(q.packet_id, VarInt(0x02));
            assert_eq!(q.data, vec![1, 2, 3]);
        }
        Packet::Compressed(_) => panic!("expected a raw packet"),
    }
    assert_eq!(pos, wire.len());
}

#[test]
fn compress_at_threshold_is_compressed() {
    let data = vec![0x41u8; 255];
    let p = packet(0x01, data.clone());
    // The id and fields take exactly 256 bytes: not below the threshold.
    let c = p.compress(256).unwrap();
    assert_eq!(c.body_len, VarInt(256));
    assert_ne!(c.body, p.pack());
    let back = c.decompress().unwrap();
    assert_eq!(back.packet_id, VarInt(0x01));
    assert_eq!(back.data, data);
}

#[test]
fn compressed_frame_round_trip() {
    let data: Vec<u8> = (0..1000u32).map(|i| (i % 7) as u8).collect();
    let p = packet(0x02, data.clone());
    let c = p.compress(256).unwrap();
    let mut wire = Vec::new();
    c.write(&mut wire);
    wire.push(0x99);
    let mut pos = 0usize;
    let read = Packet::read(&wire, &mut pos, Some(256)).unwrap();
    assert_eq!(pos, wire.len() - 1);
    match &read {
        Packet::Compressed(q) => {
            assert_eq!(q.body_len, VarInt(1001));
            assert_eq!(q.body, c.body);
            let inner = q.decompress().unwrap();
            assert_eq!(inner.packet_id, VarInt(0x02));
            assert_eq!(inner.data, data);
        }
        Packet::UnCompressed(_) => panic!("expected a compressed packet"),
    }
    assert_eq!(read.packet_id(), Ok(VarInt(0x02)));
}

#[test]
fn packet_write_then_read_with_and_without_threshold() {
    let p = Packet::UnCompressed(packet(0x10, vec![4; 40]));
    let mut plain = Vec::new();
    p.write(&mut plain, None).unwrap();
    let mut pos = 0usize;
    match Packet::read(&plain, &mut pos, None).unwrap() {
        Packet::UnCompressed(q) => {
            assert_eq!(q.packet_id, VarInt(0x10));
            assert_eq!(q.data, vec![4; 40]);
        }
        Packet::Compressed(_) => panic!("expected a raw packet"),
    }
    let mut zipped = Vec::new();
    p.write(&mut zipped, Some(8)).unwrap();
    let mut pos = 0usize;
    let q = Packet::read(&zipped, &mut pos, Some(8)).unwrap();
    assert_eq!(q.packet_id(), Ok(VarInt(0x10)));
    assert!(matches!(q, Packet::Compressed(_)));
    let c = CompressedPacket { body_len: VarInt(3), body: vec![1, 2, 3] };
    let mut out = Vec::new();
    Packet::Compressed(c).write(&mut out, Some(1)).unwrap();
    assert_eq!(out, vec![0x04, 0x03, 1, 2, 3]);
}

#[test]
fn zlib_data_round_trip() {
    let data = b"Hello, world! Hello, world! Hello, world!".to_vec();
    let compressed = Packet::compress_data(&data).unwrap();
    assert_ne!(compressed, data);
    assert_eq!(Packet::decompress_data(&compressed), Ok(data));
    let empty = Packet::compress_data(&[]).unwrap();
    assert_eq!(Packet::decompress_data(&empty), Ok(vec![]));
}

#[test]
fn zlib_rejects_garbage() {
    assert_eq!(
        Packet::decompress_data(&[0x12, 0x34, 0x56, 0x78]),
        Err(ProtocolError::DecompressionFailed)
    );
    let c = CompressedPacket { body_len: VarInt(5), body: vec![0xff, 0xff, 0xff] };
    assert_eq!(c.decompress().unwrap_err(), ProtocolError::DecompressionFailed);
    assert_eq!(Packet::Compressed(c).packet_id(), Err(ProtocolError::DecompressionFailed));
}

#[test]
fn decompress_round_trip_for_every_threshold() {
    let data: Vec<u8> = (0..40u8).collect();
    for t in [-1, 0, 1, 40, 41, 42, 1000] {
        let p = packet(0x07, data.clone());
        let c = p.compress(t).unwrap();
        assert_eq!(c.body_len.0 == 0, p.pack().len() < t.max(0) as usize);
        let back = c.decompress().unwrap();
        assert_eq!(back.packet_id, VarInt(0x07));
        assert_eq!(back.data, data);
    }
}
