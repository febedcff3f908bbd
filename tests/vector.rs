use pewter::{Float32, PrimType};

#[test]
fn test_vector_u32x2() {
    test_vector_u32x2_value([0x3f901527_u32, 0x101_u32]);
    test_vector_u32x2_value([u32::max_value(), u32::min_value()]);
}

fn test_vector_u32x2_value(value: [u32; 2]) {
    let mut buf: [u8; 8] = Default::default();
    let mut read_value = [0_u32, 0_u32];

    value.write_bytes(&mut buf);
    read_value.read_bytes(&buf);
    assert!(read_value == value);
}

#[test]
fn test_vector_u32x3() {
    test_vector_u32x3_value([0x3f901527_u32, 0x101_u32, 0x5009915_u32]);
    test_vector_u32x3_value([u32::max_value(), u32::max_value() / 2, 0]);
}

fn test_vector_u32x3_value(value: [u32; 3]) {
    let mut buf: [u8; 12] = Default::default();
    let mut read_value = [0_u32, 0_u32, 0_u32];

    value.write_bytes(&mut buf);
    read_value.read_bytes(&buf);
    assert!(read_value == value);
}

#[test]
fn test_vector_u32x4() {
    test_vector_u32x4_value(
        [0x3f901527_u32, 0x101_u32, 0x5009915_u32, 0x181A5B3_u32]
    );
    test_vector_u32x4_value([
        u32::max_value(),
        u32::max_value() / 2,
        u32::max_value() / 3,
        u32::min_value()
    ]);
}

fn test_vector_u32x4_value(value: [u32; 4]) {
    let mut buf: [u8; 16] = Default::default();
    let mut read_value = [0_u32, 0_u32, 0_u32, 0_u32];

    value.write_bytes(&mut buf);
    read_value.read_bytes(&buf);
    assert!(read_value == value);
}

#[test]
fn vector_i32_round_trip() {
    let v2 = [i32::MIN, i32::MAX];
    let mut buf2 = [0_u8; 8];
    let mut r2 = [0_i32; 2];
    v2.write_bytes(&mut buf2);
    r2.read_bytes(&buf2);
    assert_eq!(r2, v2);

    let v3 = [-1_i32, 0, 1];
    let mut buf3 = [0_u8; 12];
    let mut r3 = [0_i32; 3];
    v3.write_bytes(&mut buf3);
    r3.read_bytes(&buf3);
    assert_eq!(r3, v3);
    assert_eq!(buf3, [0xff, 0xff, 0xff, 0xff, 0, 0, 0, 0, 1, 0, 0, 0]);

    let v4 = [-99_i32, 99, i32::MIN, 7];
    let mut buf4 = [0_u8; 16];
    let mut r4 = [0_i32; 4];
    v4.write_bytes(&mut buf4);
    r4.read_bytes(&buf4);
    assert_eq!(r4, v4);
}

#[test]
fn vector_f32_round_trip() {
    let f = |x: f32| Float32::from_bits(x.to_bits());
    let v2 = [f(-0.0), f(f32::INFINITY)];
    let mut buf2 = [0_u8; 8];
    let mut r2 = [f(0.0); 2];
    v2.write_bytes(&mut buf2);
    r2.read_bytes(&buf2);
    assert_eq!(r2, v2);

    let v3 = [f(1.5), f(f32::NEG_INFINITY), f(f32::MIN)];
    let mut buf3 = [0_u8; 12];
    let mut r3 = [f(0.0); 3];
    v3.write_bytes(&mut buf3);
    r3.read_bytes(&buf3);
    assert_eq!(r3, v3);

    let v4 = [f(f32::MAX), f(f32::MIN_POSITIVE), f(-41.7), f(2099.2251)];
    let mut buf4 = [0_u8; 16];
    let mut r4 = [f(0.0); 4];
    v4.write_bytes(&mut buf4);
    r4.read_bytes(&buf4);
    assert_eq!(r4, v4);
    assert_eq!(&buf4[0..4], &f32::MAX.to_le_bytes());
}

#[test]
fn vector_u32_lanes_in_order() {
    let mut buf = [0_u8; 8];
    [1_u32, 2_u32].write_bytes(&mut buf);
    assert_eq!(buf, [1, 0, 0, 0, 2, 0, 0, 0]);
}
