use minecraft_scanner::num::Integer;

#[test]
fn integer_big_endian_bytes() {
    assert_eq!(258u16.to_bytes(), vec![0x01, 0x02]);
    assert_eq!(25565u16.to_bytes(), vec![0x63, 0xdd]);
    assert_eq!(0x0102_0304u32.to_bytes(), vec![1, 2, 3, 4]);
    assert_eq!((-1i32).to_bytes(), vec![0xff, 0xff, 0xff, 0xff]);
    assert_eq!((-2i16).to_bytes(), vec![0xff, 0xfe]);
    assert_eq!((-128i8).to_bytes(), vec![0x80]);
    assert_eq!(7u8.to_bytes(), vec![7]);
    assert_eq!(1u64.to_bytes(), vec![0, 0, 0, 0, 0, 0, 0, 1]);
    assert_eq!(i64::MIN.to_bytes(), vec![0x80, 0, 0, 0, 0, 0, 0, 0]);
    let mut expected = vec![0u8; 15];
    expected.push(5);
    assert_eq!(5u128.to_bytes(), expected);
}

#[test]
fn integer_from_bytes() {
    assert_eq!(u16::from_bytes(&[0x01, 0x02]), 258);
    assert_eq!(i16::from_bytes(&[0xff, 0xfe]), -2);
    assert_eq!(i32::from_bytes(&[0x80, 0, 0, 0]), i32::MIN);
    assert_eq!(u32::from_bytes(&[0xde, 0xad, 0xbe, 0xef]), 0xdead_beef);
    assert_eq!(i8::from_bytes(&[0xff]), -1);
    assert_eq!(u8::from_bytes(&[0xff]), 255);
    assert_eq!(u64::from_bytes(&[0xff; 8]), u64::MAX);
    assert_eq!(i64::from_bytes(&[0xff; 8]), -1);
    assert_eq!(u128::from_bytes(&[0xff; 16]), u128::MAX);
}

#[test]
fn integer_round_trip_every_width() {
    for v in [0u8, 1, 127, 128, 255] {
        assert_eq!(u8::from_bytes(&v.to_bytes()), v);
        assert_eq!(v.to_bytes().len(), u8::byte_len());
    }
    for v in [i8::MIN, -1, 0, 1, i8::MAX] {
        assert_eq!(i8::from_bytes(&v.to_bytes()), v);
        assert_eq!(v.to_bytes().len(), i8::byte_len());
    }
    for v in [0u16, 1, 256, 25565, u16::MAX] {
        assert_eq!(u16::from_bytes(&v.to_bytes()), v);
    }
    for v in [i16::MIN, -300, 0, 300, i16::MAX] {
        assert_eq!(i16::from_bytes(&v.to_bytes()), v);
    }
    for v in [0u32, 1, 65536, u32::MAX] {
        assert_eq!(u32::from_bytes(&v.to_bytes()), v);
    }
    for v in [i32::MIN, -765, 0, 765, i32::MAX] {
        assert_eq!(i32::from_bytes(&v.to_bytes()), v);
    }
    for v in [0u64, 1 << 40, u64::MAX] {
        assert_eq!(u64::from_bytes(&v.to_bytes()), v);
    }
    for v in [i64::MIN, -1, 0, i64::MAX] {
        assert_eq!(i64::from_bytes(&v.to_bytes()), v);
    }
    for v in [0u128, 1 << 100, u128::MAX] {
        assert_eq!(u128::from_bytes(&v.to_bytes()), v);
    }
}

#[test]
fn integer_byte_lengths() {
    assert_eq!(i8::byte_len(), 1);
    assert_eq!(u8::byte_len(), 1);
    assert_eq!(i16::byte_len(), 2);
    assert_eq!(u16::byte_len(), 2);
    assert_eq!(i32::byte_len(), 4);
    assert_eq!(u32::byte_len(), 4);
    assert_eq!(i64::byte_len(), 8);
    assert_eq!(u64::byte_len(), 8);
    assert_eq!(u128::byte_len(), 16);
    assert_eq!(u128::MAX.to_bytes().len(), 16);
}
