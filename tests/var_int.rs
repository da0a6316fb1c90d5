use minecraft_scanner::error::ProtocolError;
use minecraft_scanner::var_int::VarInt;

fn encode(v: i32) -> Vec<u8> {
    let mut out = Vec::new();
    VarInt(v).write_sync(&mut out);
    out
}

fn decode(bytes: &[u8]) -> (Result<VarInt, ProtocolError>, usize) {
    let mut pos = 0usize;
    let r = VarInt::read_sync(bytes, &mut pos);
    (r, pos)
}

#[test]
fn varint_known_encodings() {
    assert_eq!(encode(0), vec![0x00]);
    assert_eq!(encode(1), vec![0x01]);
    assert_eq!(encode(2), vec![0x02]);
    assert_eq!(encode(127), vec![0x7f]);
    assert_eq!(encode(128), vec![0x80, 0x01]);
    assert_eq!(encode(255), vec![0xff, 0x01]);
    assert_eq!(encode(25565), vec![0xdd, 0xc7, 0x01]);
    assert_eq!(encode(2097151), vec![0xff, 0xff, 0x7f]);
    assert_eq!(encode(2147483647), vec![0xff, 0xff, 0xff, 0xff, 0x07]);
    assert_eq!(encode(-1), vec![0xff, 0xff, 0xff, 0xff, 0x0f]);
    assert_eq!(encode(-2147483648), vec![0x80, 0x80, 0x80, 0x80, 0x08]);
}

#[test]
fn varint_round_trip_and_length() {
    let values = [
        0, 1, 127, 128, 300, 16383, 16384, 765, 25565, 2097151, 2097152, 268435455, 268435456,
        i32::MAX, -1, -2, -128, -765, i32::MIN,
    ];
    for v in values {
        let bytes = encode(v);
        assert!(bytes.len() >= 1 && bytes.len() <= 5);
        let mut with_tail = bytes.clone();
        with_tail.extend_from_slice(&[0xaa, 0xbb]);
        let (r, pos) = decode(&with_tail);
        assert_eq!(r, Ok(VarInt(v)));
        assert_eq!(pos, bytes.len());
    }
}

#[test]
fn varint_negative_takes_five_bytes() {
    assert_eq!(encode(-7).len(), 5);
    assert_eq!(encode(i32::MIN).len(), 5);
}

#[test]
fn varint_longer_than_five_bytes_is_refused() {
    let (r, pos) = decode(&[0x80, 0x80, 0x80, 0x80, 0x80, 0x01]);
    assert_eq!(r, Err(ProtocolError::VarIntTooLong));
    assert_eq!(pos, 0);
    let (r, _) = decode(&[0xff, 0xff, 0xff, 0xff, 0xff]);
    assert_eq!(r, Err(ProtocolError::VarIntTooLong));
}

#[test]
fn varint_truncated_input_is_refused() {
    let (r, pos) = decode(&[0x80, 0x80]);
    assert_eq!(r, Err(ProtocolError::UnexpectedEnd));
    assert_eq!(pos, 0);
    let (r, _) = decode(&[]);
    assert_eq!(r, Err(ProtocolError::UnexpectedEnd));
}

#[test]
fn varint_fifth_byte_keeps_only_four_bits() {
    // 0x7f in the fifth byte: only its low four bits land in the 32-bit value.
    let (r, pos) = decode(&[0xff, 0xff, 0xff, 0xff, 0x7f]);
    assert_eq!(r, Ok(VarInt(-1)));
    assert_eq!(pos, 5);
}

#[test]
fn varint_non_canonical_encoding_is_read() {
    let (r, pos) = decode(&[0x81, 0x00]);
    assert_eq!(r, Ok(VarInt(1)));
    assert_eq!(pos, 2);
}

#[test]
fn varint_reads_from_position() {
    let bytes = [0x05, 0xdd, 0xc7, 0x01, 0x02];
    let mut pos = 1usize;
    assert_eq!(VarInt::read_sync(&bytes, &mut pos), Ok(VarInt(25565)));
    assert_eq!(pos, 4);
    assert_eq!(VarInt::read_sync(&bytes, &mut pos), Ok(VarInt(2)));
    assert_eq!(pos, 5);
}

#[test]
fn varint_write_appends() {
    let mut out = vec![9u8];
    VarInt(300).write_sync(&mut out);
    assert_eq!(out, vec![9, 0xac, 0x02]);
}
