use xc2bit::crbit::FuseArray;

#[test]
fn fuse_array_from_dim_is_blank() {
    let a = FuseArray::from_dim(4, 3);
    assert_eq!(a.dim(), (4, 3));
    for y in 0..3 {
        for x in 0..4 {
            assert!(!a.get(x, y));
        }
    }
}

#[test]
fn fuse_array_set_then_get() {
    let mut a = FuseArray::from_dim(4, 3);
    a.set(2, 1, true);
    assert!(a.get(2, 1));
    assert!(!a.get(1, 2));
    assert!(!a.get(2, 0));
    a.set(2, 1, false);
    assert!(!a.get(2, 1));
}

#[test]
fn fuse_array_write_exact_text() {
    let mut a = FuseArray::from_dim(3, 2);
    a.set(1, 0, true);
    a.set(0, 1, true);
    a.set(2, 1, true);
    let mut out = Vec::new();
    a.write_to_writer(&mut out);
    assert_eq!(
        String::from_utf8(out).unwrap(),
        "// crbit native bitstream file written by xc2bit\n// https://github.com/azonenberg/openfpga\n\n010\n101\n\n"
    );
}

#[test]
fn fuse_array_write_with_device_name() {
    let mut a = FuseArray::from_dim(2, 1);
    a.set(0, 0, true);
    a.set_dev_name(Some(String::from("XC2C32A-6-VQ44")));
    let mut out = Vec::new();
    a.write_to_writer(&mut out);
    assert_eq!(
        String::from_utf8(out).unwrap(),
        "// crbit native bitstream file written by xc2bit\n// https://github.com/azonenberg/openfpga\n\n// DEVICE XC2C32A-6-VQ44\n\n10\n\n"
    );
}

#[test]
fn fuse_array_read_exact() {
    let text = b"// some comment\n// DEVICE XC2C64A\n\n  0110  \n1001\r\n";
    let a = FuseArray::from_file_contents(text).unwrap();
    assert_eq!(a.dim(), (4, 2));
    assert_eq!(a.dev_name_str, Some(String::from("XC2C64A")));
    let expected = [[false, true, true, false], [true, false, false, true]];
    for y in 0..2 {
        for x in 0..4 {
            assert_eq!(a.get(x, y), expected[y][x]);
        }
    }
}

#[test]
fn fuse_array_roundtrip() {
    let mut a = FuseArray::from_dim(5, 3);
    for (x, y) in [(0, 0), (4, 0), (2, 1), (3, 2), (1, 2)] {
        a.set(x, y, true);
    }
    a.set_dev_name(Some(String::from("XC2C256")));
    let mut out = Vec::new();
    a.write_to_writer(&mut out);
    let b = FuseArray::from_file_contents(&out).unwrap();
    assert_eq!(b.dim(), (5, 3));
    assert_eq!(b.dev_name_str, Some(String::from("XC2C256")));
    for y in 0..3 {
        for x in 0..5 {
            assert_eq!(a.get(x, y), b.get(x, y));
        }
    }
}

#[test]
fn fuse_array_invalid_utf8() {
    let r = FuseArray::from_file_contents(&[0x30, 0xff, 0x0a]);
    assert_eq!(r.err(), Some("invalid characters in crbit"));
}

#[test]
fn fuse_array_invalid_char() {
    let r = FuseArray::from_file_contents(b"0101\n01x1\n");
    assert_eq!(r.err(), Some("invalid character in crbit"));
}

#[test]
fn fuse_array_no_data() {
    let r = FuseArray::from_file_contents(b"// only a comment\n\n");
    assert_eq!(r.err(), Some("crbit contained no data"));
}
