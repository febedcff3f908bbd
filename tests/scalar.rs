use pewter::{Float32, PrimType};

#[test]
fn test_scalar_u32() {
    test_scalar_u32_value(0x3f901527_u32);
    test_scalar_u32_value(u32::max_value());
    test_scalar_u32_value(u32::min_value());
    test_scalar_u32_value(0b10101010_10101010_10101010_u32);
}

fn test_scalar_u32_value(value: u32) {
    let mut buf: [u8; 4] = Default::default();
    let mut read_value = 0_u32;

    value.write_bytes(&mut buf);
    read_value.read_bytes(&buf);
    assert!(read_value == value);
}

#[test]
fn test_scalar_i32() {
    test_scalar_i32_value(0x3f901527_i32);
    test_scalar_i32_value(-99_i32);
    test_scalar_i32_value(i32::max_value());
    test_scalar_i32_value(i32::min_value());
    test_scalar_i32_value(0b10101010_10101010_10101010_i32);
}

fn test_scalar_i32_value(value: i32) {
    let mut buf: [u8; 4] = Default::default();
    let mut read_value = 0_i32;

    value.write_bytes(&mut buf);
    read_value.read_bytes(&buf);
    assert!(read_value == value);
}

#[test]
fn test_scalar_f32() {
    test_scalar_f32_value(-0.0);
    test_scalar_f32_value(0.0);
    test_scalar_f32_value(1.0);
    test_scalar_f32_value(-1.0);
    test_scalar_f32_value(f32::NEG_INFINITY);
    test_scalar_f32_value(f32::INFINITY);
    test_scalar_f32_value(f32::MIN_POSITIVE);
    test_scalar_f32_value(f32::MAX);
    test_scalar_f32_value(f32::MIN);
    test_scalar_f32_value(2099.2251);
    test_scalar_f32_value(-41.7);
}

fn test_scalar_f32_value(value: f32) {
    let mut buf: [u8; 4] = Default::default();
    let mut read_value = Float32::from_bits(0_f32.to_bits());

    Float32::from_bits(value.to_bits()).write_bytes(&mut buf);
    read_value.read_bytes(&buf);
    assert!(f32::from_bits(read_value.to_bits()) == value);
    assert!(read_value.to_bits() == value.to_bits());
}

#[test]
fn scalar_bytes_are_little_endian() {
    let mut buf: [u8; 4] = Default::default();
    0x0403_0201_u32.write_bytes(&mut buf);
    assert_eq!(buf, [1, 2, 3, 4]);
    (-2_i32).write_bytes(&mut buf);
    assert_eq!(buf, [0xfe, 0xff, 0xff, 0xff]);
    Float32::from_bits(1.0_f32.to_bits()).write_bytes(&mut buf);
    assert_eq!(buf, [0x00, 0x00, 0x80, 0x3f]);
}

#[test]
fn scalar_round_trip_bit_patterns() {
    for bits in [0_u32, u32::MAX, 0x8000_0000, 0x7fff_ffff, 0x5555_5555, 0xaaaa_aaaa] {
        let mut buf: [u8; 4] = Default::default();
        let mut back = 0_u32;
        bits.write_bytes(&mut buf);
        back.read_bytes(&buf);
        assert_eq!(back, bits);
        let mut fback = Float32::from_bits(0);
        Float32::from_bits(bits).write_bytes(&mut buf);
        fback.read_bytes(&buf);
        assert_eq!(fback.to_bits(), bits);
    }
}
