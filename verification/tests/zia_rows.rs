use xc2bit::crbit::FuseArray;
use xc2bit::fb::{zia_row_crbit_read_helper, zia_row_crbit_write_helper};

#[test]
fn zia_row_write_exact() {
    let mut a = FuseArray::from_dim(8, 30);
    zia_row_crbit_write_helper(1, 0, 21, &[true, false, false], true, &mut a);
    // the last bit first, every other column, below the eight-row gap
    assert!(!a.get(1, 29));
    assert!(!a.get(3, 29));
    assert!(a.get(5, 29));
    assert!(!a.get(2, 29));
    assert!(!a.get(5, 21));
}

#[test]
fn zia_row_roundtrip() {
    let mut a = FuseArray::from_dim(10, 4);
    let bits = [true, true, false, true];
    zia_row_crbit_write_helper(2, 1, 2, &bits, false, &mut a);
    let mut back = [false; 4];
    zia_row_crbit_read_helper(2, 1, 2, &mut back, false, &a);
    assert_eq!(back, bits);
}
