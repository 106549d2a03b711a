use xc2bit::bitfragment::BitFragment;
use xc2bit::bitpattern::{docs_as_ascii_table, BitPattern};
use xc2bit::crbit::FuseArray;
use xc2bit::mc::{
    Crbit32, CrbitLarge, JedLarge, JedLargeBuried, JedSmall, XC2MCFeedbackMode, XC2MCRegClkSrc, XC2MCRegMode,
    XC2MCRegResetSrc, XC2MCRegSetSrc, XC2MCXorMode, XC2Macrocell, MC_TO_ROW_MAP_LARGE,
};

fn sample() -> XC2Macrocell {
    XC2Macrocell {
        clk_src: XC2MCRegClkSrc::PTC,
        clk_invert_pol: true,
        is_ddr: false,
        r_src: XC2MCRegResetSrc::GSR,
        s_src: XC2MCRegSetSrc::CTS,
        init_state: false,
        reg_mode: XC2MCRegMode::TFF,
        fb_mode: XC2MCFeedbackMode::REG,
        ff_in_ibuf: true,
        xor_mode: XC2MCXorMode::PTCB,
    }
}

#[test]
fn mc_enum_patterns() {
    assert_eq!(XC2MCRegClkSrc::GCK1.encode(), [false, true, false]);
    assert_eq!(XC2MCRegClkSrc::decode(&[true, false, true]), Ok(XC2MCRegClkSrc::GCK2));
    assert_eq!(XC2MCRegClkSrc::decode(&[true, true, true]), Ok(XC2MCRegClkSrc::CTC));
    assert_eq!(XC2MCFeedbackMode::Disabled.encode(), [true, true]);
    assert_eq!(XC2MCFeedbackMode::decode(&[false, true]), Ok(XC2MCFeedbackMode::Disabled));
    assert_eq!(XC2MCRegResetSrc::decode(&[true, true]), Ok(XC2MCRegResetSrc::Disabled));
    assert_eq!(XC2MCXorMode::PTCB.encode(), [false, true]);
}

#[test]
fn mc_default() {
    let m = XC2Macrocell::default();
    assert_eq!(m.clk_src, XC2MCRegClkSrc::GCK0);
    assert!(m.init_state);
    assert_eq!(m.r_src, XC2MCRegResetSrc::Disabled);
    assert_eq!(m.fb_mode, XC2MCFeedbackMode::Disabled);
}

#[test]
fn mc_jed_small_exact() {
    let m = sample();
    let mut fuses = vec![false; 27 * 2];
    BitFragment::<JedSmall>::encode(&m, &mut fuses[..], [27], [false], ());
    let expected_ones = [27 + 2, 27 + 3, 27 + 1, 27 + 6, 27 + 7, 27 + 26, 27 + 9, 27 + 13, 27 + 18];
    for k in 0..54 {
        assert_eq!(fuses[k], expected_ones.contains(&k), "fuse {}", k);
    }
    assert_eq!(XC2Macrocell::from_jed_small(&fuses, 0, 1), m);
}

#[test]
fn mc_jed_large_buried_drops_ibuf() {
    let m = sample();
    let mut fuses = vec![false; 20];
    BitFragment::<JedLarge>::encode(&m, &mut fuses[..], [2], [false], true);
    let back = XC2Macrocell::from_jed_large_buried(&fuses, 2);
    // a buried macrocell cannot store the IOB direct path
    assert!(!back.ff_in_ibuf);
    assert_eq!(XC2Macrocell { ff_in_ibuf: true, ..back }, m);
    let again = <XC2Macrocell as BitFragment<JedLargeBuried>>::decode(&fuses[..], [2], [false], ()).unwrap();
    assert_eq!(again, back);
}

#[test]
fn mc_jed_large_unburied_roundtrip() {
    let m = sample();
    let mut fuses = vec![true; 40];
    BitFragment::<JedLarge>::encode(&m, &mut fuses[..], [5], [false], false);
    assert_eq!(XC2Macrocell::from_jed_large(&fuses, 5), m);
    assert_eq!(<XC2Macrocell as BitFragment<JedLarge>>::decode(&fuses[..], [5], [false], false), Ok(m));
}

#[test]
fn mc_crbit_roundtrip() {
    let m = sample();
    let mut a = FuseArray::from_dim(20, 10);
    BitFragment::<Crbit32>::encode(&m, &mut a, [18, 3], [true, false], ());
    assert_eq!(<XC2Macrocell as BitFragment<Crbit32>>::decode(&a, [18, 3], [true, false], ()), Ok(m));
    let mut b = FuseArray::from_dim(20, 10);
    BitFragment::<CrbitLarge>::encode(&m, &mut b, [2, 5], [false, false], ());
    assert_eq!(<XC2Macrocell as BitFragment<CrbitLarge>>::decode(&b, [2, 5], [false, false], ()), Ok(m));
    // the clock source's second bit is on row 0, column 9
    assert!(b.get(11, 5));
}

#[test]
fn mc_row_map() {
    assert_eq!(MC_TO_ROW_MAP_LARGE[0], 0);
    assert_eq!(MC_TO_ROW_MAP_LARGE[15], 38);
}

#[test]
fn mc_text() {
    assert_eq!(
        XC2Macrocell::default().to_string(),
        "FF mode: D flip-flop\ninitial state: 1\nrising-edge triggered\nDDR: no\nclock source: GCK0\nset source: disabled\nreset source: disabled\nusing ibuf direct path: no\nXOR gate input: 0\nZIA feedback: disabled\n"
    );
}

#[test]
fn mc_reg_mode_docs() {
    assert_eq!(docs_as_ascii_table::<(), XC2MCRegMode>(), "01 |       |\n---+-------+---------------------------------------\n00 | DFF   | D-type flip-flop\n01 | LATCH | Transparent latch\n10 | TFF   | Toggle flip-flop\n11 | DFFCE | D-type flip-flop with clock-enable pin\n");
}
