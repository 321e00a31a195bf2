use rodin::deserializer::Cursor;

#[test]
fn endian_reads() {
    let data: [u8; 8] = [0x01, 0x02, 0x03, 0x04, 0x05, 0x06, 0x07, 0x08];
    let mut c = Cursor::new(data.as_slice());
    assert_eq!(c.read_u16_le().unwrap(), 0x0201);
    assert_eq!(c.read_u16_be().unwrap(), 0x0304);
    assert_eq!(c.read_u32_le().unwrap(), 0x0807_0605);
    assert_eq!(c.position(), 8);

    c.set_position(0);
    assert_eq!(c.read_u64_be().unwrap(), 0x0102_0304_0506_0708);

    c.set_position(0);
    assert_eq!(c.read_u64_le().unwrap(), 0x0807_0605_0403_0201);

    c.set_position(4);
    assert_eq!(c.read_u32_be().unwrap(), 0x0506_0708);
    assert!(c.read_u8().is_err());
}

#[test]
fn bounded_reads_fail_at_end() {
    let data: [u8; 3] = [1, 2, 3];
    let mut c = Cursor::new(data.as_slice());
    assert!(c.read_u32_le().is_err());
    assert_eq!(c.position(), 0);
    assert_eq!(c.read_u16_le().unwrap(), 0x0201);
    assert!(c.read_u16_be().is_err());
    assert_eq!(c.read_u8().unwrap(), 3);
}

#[test]
fn read_exact_tag() {
    let data: [u8; 5] = [0x49, 0x48, 0x44, 0x52, 0x00];
    let mut c = Cursor::new(data.as_slice());
    assert_eq!(c.read_exact_4().unwrap(), [0x49, 0x48, 0x44, 0x52]);
    assert_eq!(c.position(), 4);
    assert!(c.read_exact_4().is_err());
}

#[test]
fn read_exact_takes_n_bytes() {
    let data: [u8; 5] = [10, 20, 30, 40, 50];
    let mut c = Cursor::new(data.as_slice());
    assert_eq!(c.read_exact(3).unwrap(), vec![10, 20, 30]);
    assert_eq!(c.position(), 3);
    assert!(c.read_exact(3).is_err());
    assert_eq!(c.position(), 3);
    assert_eq!(c.read_exact(2).unwrap(), vec![40, 50]);
}

#[test]
fn read_until_finds_delimiter() {
    let data: [u8; 6] = [9, 9, 0xFF, 1, 0xFF, 2];
    let mut c = Cursor::new(data.as_slice());
    let n = c.read_until(0xFF);
    assert_eq!(n, 3);
    assert_eq!(c.position(), 3);
    let n = c.read_until(0xAA);
    assert_eq!(n, 3);
    assert_eq!(c.position(), 6);
}

#[test]
fn set_position_clamps_to_end() {
    let data: [u8; 4] = [1, 2, 3, 4];
    let mut c = Cursor::new(data.as_slice());
    c.set_position(100);
    assert_eq!(c.position(), 4);
    assert_eq!(c.remaining(), 0);
}
