use rendmp::bytes::{u16_from_le, u16_to_le, u32_from_le, u32_to_le, u64_from_le};

#[test]
fn sixteen_bits_low_byte_first() {
    assert_eq!(u16_to_le(0x0000), [0x00, 0x00]);
    assert_eq!(u16_to_le(0x00c2), [0xc2, 0x00]);
    assert_eq!(u16_to_le(0x0709), [0x09, 0x07]);
    assert_eq!(u16_to_le(0xffff), [0xff, 0xff]);
    assert_eq!(u16_from_le(&[0x09, 0x07]), 0x0709);
    assert_eq!(u16_from_le(&[0x10, 0x00]), 0x0010);
    for x in 0..=0xffffu16 {
        assert_eq!(u16_to_le(x), x.to_le_bytes());
        assert_eq!(u16_from_le(&x.to_le_bytes()), x);
    }
}

#[test]
fn thirty_two_bits_low_byte_first() {
    assert_eq!(u32_to_le(0x1234_5678), [0x78, 0x56, 0x34, 0x12]);
    assert_eq!(u32_to_le(0), [0, 0, 0, 0]);
    assert_eq!(u32_to_le(u32::MAX), [0xff; 4]);
    assert_eq!(u32_from_le(&[0x78, 0x56, 0x34, 0x12]), 0x1234_5678);
    for x in [0u32, 1, 0xff, 0x100, 0xffff, 0x1_0000, 0xff_ffff, 0x100_0000, 0x8000_0000, u32::MAX] {
        assert_eq!(u32_to_le(x), x.to_le_bytes());
        assert_eq!(u32_from_le(&x.to_le_bytes()), x);
    }
}

#[test]
fn sixty_four_bits_low_byte_first() {
    assert_eq!(u64_from_le(&[1, 2, 3, 4, 5, 6, 7, 8]), 0x0807_0605_0403_0201);
    assert_eq!(u64_from_le(&[0xff; 8]), u64::MAX);
    assert_eq!(u64_from_le(&[0; 8]), 0);
    assert_eq!(u64_from_le(&[0, 0, 0, 0, 0, 0, 0, 0x80]), 0x8000_0000_0000_0000);
}
