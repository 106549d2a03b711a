use xc2bit::bitfragment::BitFragment;
use xc2bit::crbit::FuseArray;
use xc2bit::pla::{CrbitCentralOrBlock, CrbitSideOrBlock, Jed, XC2PLAAndTerm, XC2PLAOrTerm};

#[test]
fn and_term_default_is_empty() {
    let t = XC2PLAAndTerm::default();
    for i in 0..40 {
        assert!(!t.get(i));
        assert!(!t.get_b(i));
    }
}

#[test]
fn and_term_set_get() {
    let mut t = XC2PLAAndTerm::default();
    t.set(0, true);
    t.set(13, true);
    t.set_b(39, true);
    assert!(t.get(0));
    assert!(t.get(13));
    assert!(!t.get(12));
    assert!(!t.get_b(13));
    assert!(t.get_b(39));
    t.set(13, false);
    assert!(!t.get(13));
    assert!(t.get(0));
}

#[test]
fn and_term_jed_encode_exact() {
    let mut t = XC2PLAAndTerm::default();
    t.set(1, true);
    t.set_b(2, true);
    let mut fuses = vec![false; 82];
    BitFragment::<Jed>::encode(&t, &mut fuses[..], [1], [false], ());
    assert!(!fuses[0]);
    for k in 0..80 {
        // input 1 is at 2, complement of input 2 at 5; every fuse is inverted
        let expect = !(k == 2 || k == 5);
        assert_eq!(fuses[1 + k], expect);
    }
    assert!(!fuses[81]);
    let back = <XC2PLAAndTerm as BitFragment<Jed>>::decode(&fuses[..], [1], [false], ()).unwrap();
    assert_eq!(back, t);
}

#[test]
fn and_term_jed_mirrored() {
    let mut t = XC2PLAAndTerm::default();
    t.set(0, true);
    let mut fuses = vec![true; 80];
    BitFragment::<Jed>::encode(&t, &mut fuses[..], [79], [true], ());
    assert!(!fuses[79]);
    assert!(fuses[78]);
    let back = <XC2PLAAndTerm as BitFragment<Jed>>::decode(&fuses[..], [79], [true], ()).unwrap();
    assert_eq!(back, t);
}

#[test]
fn and_term_crbit_gap() {
    let mut t = XC2PLAAndTerm::default();
    t.set(19, true);
    t.set_b(20, true);
    let mut a = FuseArray::from_dim(4, 50);
    for y in 0..50 {
        for x in 0..4 {
            a.set(x, y, true);
        }
    }
    BitFragment::<CrbitCentralOrBlock>::encode(&t, &mut a, [1, 2], [false, false], ());
    // input 19 one column right of the origin on row 19
    assert!(!a.get(2, 21));
    // complement of input 20 on the origin's column, below the 8-row gap
    assert!(!a.get(1, 30));
    assert!(a.get(1, 21));
    assert!(a.get(2, 30));
    let back = <XC2PLAAndTerm as BitFragment<CrbitCentralOrBlock>>::decode(&a, [1, 2], [false, false], ()).unwrap();
    assert_eq!(back, t);
}

#[test]
fn and_term_crbit_side() {
    let mut t = XC2PLAAndTerm::default();
    t.set(25, true);
    let mut a = FuseArray::from_dim(3, 45);
    BitFragment::<CrbitSideOrBlock>::encode(&t, &mut a, [2, 44], [true, true], ());
    // mirrored: the true column is to the left and rows count upwards
    assert!(a.get(1, 44));
    assert!(!a.get(0, 44));
    assert!(!a.get(1, 19));
    assert!(a.get(2, 19));
    let back = <XC2PLAAndTerm as BitFragment<CrbitSideOrBlock>>::decode(&a, [2, 44], [true, true], ()).unwrap();
    assert_eq!(back, t);
}

#[test]
fn or_term_set_get_and_jed() {
    let mut t = XC2PLAOrTerm::default();
    t.set(0, true);
    t.set(55, true);
    assert!(t.get(0));
    assert!(t.get(55));
    assert!(!t.get(54));
    let mut fuses = vec![false; 16 * 56 + 3];
    BitFragment::<Jed>::encode(&t, &mut fuses[..], [3], [false], ());
    assert!(!fuses[3]);
    assert!(!fuses[3 + 16 * 55]);
    assert!(fuses[3 + 16]);
    assert!(!fuses[4]);
    let back = XC2PLAOrTerm::from_jed(&fuses, 1, 2);
    assert_eq!(back, t);
}
