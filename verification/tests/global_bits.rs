use xc2bit::bitfragment::BitFragment;
use xc2bit::bitpattern::BitPattern;
use xc2bit::crbit::FuseArray;
use xc2bit::device::XC2Device;
use xc2bit::globalbits::{CrbitXC2C32, CrbitXC2C256, JedCommon, JedXC2C32, XC2ClockDiv, XC2ClockDivRatio, XC2GlobalNets};

#[test]
fn global_nets_default() {
    let n = XC2GlobalNets::default();
    assert_eq!(n.gck_enable, [false; 3]);
    assert!(!n.gsr_enable);
    assert!(!n.gsr_invert);
    assert_eq!(n.gts_enable, [false; 4]);
    assert_eq!(n.gts_invert, [true; 4]);
    assert!(n.global_pu);
}

#[test]
fn global_nets_jed_positions() {
    let mut n = XC2GlobalNets::default();
    n.gck_enable[1] = true;
    n.gsr_enable = true;
    n.gts_enable[2] = true;
    let mut fuses = vec![false; 12270];
    BitFragment::<JedXC2C32>::encode(&n, &mut fuses[..], [0], [false], ());
    assert!(!fuses[12256]);
    assert!(fuses[12257]);
    assert!(fuses[12260]);
    assert!(!fuses[12259]);
    // GTS enables are stored inverted, at every other fuse
    assert!(fuses[12262]);
    assert!(fuses[12264]);
    assert!(!fuses[12266]);
    assert!(fuses[12268]);
    // GTS polarities
    assert!(fuses[12261] && fuses[12263] && fuses[12265] && fuses[12267]);
    assert!(fuses[12269]);
    let back = <XC2GlobalNets as BitFragment<JedXC2C32>>::decode(&fuses[..], [0], [false], ()).unwrap();
    assert_eq!(back, n);
}

#[test]
fn global_nets_from_crbit() {
    let mut a = FuseArray::from_dim(140, 30);
    a.set(126, 23, true);
    a.set(130, 23, true);
    a.set(127, 24, true);
    let n = XC2GlobalNets::from_crbit(XC2Device::XC2C32A, &a);
    assert_eq!(n.gck_enable, [true, false, false]);
    assert!(n.gsr_enable);
    assert!(!n.gsr_invert);
    // an unset enable fuse means enabled, as it is stored inverted
    assert_eq!(n.gts_enable, [false, true, true, true]);
    assert_eq!(n.gts_invert, [false; 4]);
    assert!(!n.global_pu);
}

#[test]
fn global_nets_crbit_roundtrip() {
    let mut n = XC2GlobalNets::default();
    n.gck_enable = [true, false, true];
    n.gts_invert[3] = false;
    n.gsr_invert = true;
    let mut a = FuseArray::from_dim(530, 30);
    BitFragment::<CrbitXC2C256>::encode(&n, &mut a, [0, 0], [false, false], ());
    assert!(a.get(519, 23));
    assert!(!a.get(520, 23));
    assert!(a.get(178, 23));
    assert_eq!(XC2GlobalNets::from_crbit(XC2Device::XC2C256, &a), n);
}

#[test]
fn global_nets_text() {
    let n = XC2GlobalNets::default();
    assert_eq!(
        n.to_string(),
        "GCK0 disabled\nGCK1 disabled\nGCK2 disabled\nGSR disabled, active low\nGTS0 disabled, acts as !T\nGTS1 disabled, acts as !T\nGTS2 disabled, acts as !T\nGTS3 disabled, acts as !T\nglobal termination is pull-up\n"
    );
}

#[test]
fn clock_div_ratio_patterns() {
    assert_eq!(XC2ClockDivRatio::Div2.encode(), [false, false, false]);
    assert_eq!(XC2ClockDivRatio::Div12.encode(), [true, false, true]);
    assert_eq!(XC2ClockDivRatio::decode(&[true, true, false]), Ok(XC2ClockDivRatio::Div14));
}

#[test]
fn clock_div_jed() {
    let d = XC2ClockDiv { div_ratio: XC2ClockDivRatio::Div8, delay: true, enabled: true };
    let mut fuses = vec![true; 7];
    BitFragment::<JedCommon>::encode(&d, &mut fuses[..], [1], [false], ());
    // enable and delay are stored inverted, the ratio in between
    assert_eq!(fuses, [true, false, false, true, true, false, true]);
    let back = <XC2ClockDiv as BitFragment<JedCommon>>::decode(&fuses[..], [1], [false], ()).unwrap();
    assert_eq!(back, d);
    assert_eq!(
        d.to_string(),
        "GCK2 clock divider enabled\nclock divider delay enabled\nclock division ratio: 8\n"
    );
}

#[test]
fn clock_div_default() {
    let d = XC2ClockDiv::default();
    assert_eq!(d.div_ratio, XC2ClockDivRatio::Div16);
    assert!(!d.delay);
    assert!(!d.enabled);
}

#[test]
fn global_nets_crbit32_default_fuses() {
    let mut a = FuseArray::from_dim(140, 30);
    BitFragment::<CrbitXC2C32>::encode(&XC2GlobalNets::default(), &mut a, [0, 0], [false, false], ());
    // disabled GTS nets store their enable inverted: the fuse is set
    assert!(a.get(127, 24) && a.get(129, 24) && a.get(127, 25) && a.get(129, 25));
    assert!(a.get(131, 23));
    assert!(!a.get(126, 23));
}
