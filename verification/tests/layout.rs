use mimisweep::layout::{displace, read_u16, read_u32, read_u64, to_signed};

#[test]
fn little_endian_numbers() {
    let bytes = [0x01u8, 0x02, 0x03, 0x04, 0x05, 0x06, 0x07, 0x08, 0x09];
    assert_eq!(read_u16(&bytes, 0), 0x0201);
    assert_eq!(read_u16(&bytes, 7), 0x0908);
    assert_eq!(read_u32(&bytes, 0), 0x0403_0201);
    assert_eq!(read_u32(&bytes, 5), 0x0908_0706);
    assert_eq!(read_u64(&bytes, 0), 0x0807_0605_0403_0201);
    assert_eq!(read_u64(&bytes, 1), 0x0908_0706_0504_0302);
}

#[test]
fn little_endian_extremes() {
    let ones = [0xffu8; 8];
    assert_eq!(read_u16(&ones, 0), u16::MAX);
    assert_eq!(read_u32(&ones, 0), u32::MAX);
    assert_eq!(read_u64(&ones, 0), u64::MAX);
    let zeros = [0u8; 8];
    assert_eq!(read_u64(&zeros, 0), 0);
    assert_eq!(read_u32(&[0x00, 0x00, 0x00, 0x80], 0), 0x8000_0000);
}

#[test]
fn two_complement() {
    assert_eq!(to_signed(0), 0);
    assert_eq!(to_signed(0xe8), 0xe8);
    assert_eq!(to_signed(0x7fff_ffff), i32::MAX as i64);
    assert_eq!(to_signed(0x8000_0000), i32::MIN as i64);
    assert_eq!(to_signed(0xffff_ffff), -1);
    assert_eq!(to_signed(0xffff_ffeb), -21);
}

#[test]
fn displaced_addresses() {
    assert_eq!(displace(0x1000, 0x20), 0x1020);
    assert_eq!(displace(0x1000, -0x20), 0x0fe0);
    assert_eq!(displace(0x1000, 0), 0x1000);
    assert_eq!(displace(u64::MAX, 1), 0);
    assert_eq!(displace(0, -1), u64::MAX);
    assert_eq!(displace(5, i64::MIN), 0x8000_0000_0000_0005);
    assert_eq!(displace(u64::MAX, i64::MAX), 0x7fff_ffff_ffff_fffe);
}
