use ai_jail::decimal::write_u16;

#[test]
fn write_u16_zero() {
    let mut buf = [0u8; 5];
    let n = write_u16(0, &mut buf);
    assert_eq!(&buf[..n], b"0");
}

#[test]
fn write_u16_single_digit() {
    let mut buf = [0u8; 5];
    let n = write_u16(7, &mut buf);
    assert_eq!(&buf[..n], b"7");
}

#[test]
fn write_u16_multi_digit() {
    let mut buf = [0u8; 5];
    let n = write_u16(1024, &mut buf);
    assert_eq!(&buf[..n], b"1024");
}

#[test]
fn write_u16_max() {
    let mut buf = [0u8; 5];
    let n = write_u16(65535, &mut buf);
    assert_eq!(&buf[..n], b"65535");
}

#[test]
fn write_u16_leaves_the_rest_alone() {
    let mut buf = [9u8; 7];
    let n = write_u16(305, &mut buf);
    assert_eq!(n, 3);
    assert_eq!(&buf, &[b'3', b'0', b'5', 9, 9, 9, 9]);
}

#[test]
fn write_u16_fits_exactly() {
    let mut buf = [0u8; 1];
    assert_eq!(write_u16(9, &mut buf), 1);
    assert_eq!(&buf, b"9");
    let mut buf = [0u8; 2];
    assert_eq!(write_u16(10, &mut buf), 2);
    assert_eq!(&buf, b"10");
}

#[test]
fn write_u16_reads_back() {
    for n in 0..=u16::MAX {
        let mut buf = [0u8; 5];
        let len = write_u16(n, &mut buf);
        let text = std::str::from_utf8(&buf[..len]).unwrap();
        assert_eq!(text, n.to_string());
    }
}
