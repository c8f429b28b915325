use hmc5983::{RegisterFile, SensorInterface};

#[test]
fn write_then_read_every_register() {
    let mut rf = RegisterFile::new();
    for reg in 0..=255u8 {
        let val = reg.wrapping_mul(7).wrapping_add(3);
        assert_eq!(rf.write_reg(reg, val), Ok(()));
        let mut buf = [0u8; 1];
        assert_eq!(rf.read_block(reg, &mut buf), Ok(()));
        assert_eq!(buf, [val]);
        assert_eq!(rf.register(reg), val);
    }
}

#[test]
fn new_register_file_is_zero() {
    let mut rf = RegisterFile::new();
    let mut buf = [0xAAu8; 6];
    assert_eq!(rf.read_block(0x03, &mut buf), Ok(()));
    assert_eq!(buf, [0; 6]);
}

#[test]
fn block_read_is_consecutive_and_wraps() {
    let mut rf = RegisterFile::new();
    rf.preset(0xFE, 1);
    rf.preset(0xFF, 2);
    rf.preset(0x00, 3);
    rf.preset(0x01, 4);
    let mut buf = [0u8; 4];
    assert_eq!(rf.read_block(0xFE, &mut buf), Ok(()));
    assert_eq!(buf, [1, 2, 3, 4]);
}

#[test]
fn empty_block_read() {
    let mut rf = RegisterFile::new();
    let mut buf: [u8; 0] = [];
    assert_eq!(rf.read_block(0x10, &mut buf), Ok(()));
}
