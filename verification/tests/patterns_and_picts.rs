use xc2bit::bitfragment::{compose_offset, read_slots_from, table_layout_vec, write_slots, BitSlot, Frame};
use xc2bit::bitpattern::{
    bit_names, check_patterns, pattern_decode, pattern_decode_or_default, pattern_encode, pattern_matches, PatternError,
};
use xc2bit::fb::{get_pta, get_ptb, get_ptc, AND_BLOCK_TYPE2_L2P_MAP, AND_BLOCK_TYPE2_P2L_MAP, CTC, CTE, CTR, CTS};
use xc2bit::pict::{parse_pict, PictError};

#[test]
fn pattern_encode_dont_care() {
    assert_eq!(pattern_encode("x1X0"), [false, true, true, false]);
}

#[test]
fn pattern_decode_first_match() {
    let pats = ["x00", "x10", "x01", "011", "111"];
    assert_eq!(pattern_decode(&pats, &[true, false, false]), Some(0));
    assert_eq!(pattern_decode(&pats, &[false, true, true]), Some(3));
    assert_eq!(pattern_decode(&["00", "01"], &[true, true]), None);
    assert!(pattern_matches("1x", &[true, false]));
    assert!(!pattern_matches("1x", &[true, false, false]));
}

#[test]
fn pattern_encode_then_decode() {
    let pats = ["x00", "x10", "x01", "011", "111"];
    for (i, p) in pats.iter().enumerate() {
        assert_eq!(pattern_decode(&pats, &pattern_encode(p)), Some(i));
    }
}

#[test]
fn check_patterns_errors() {
    assert_eq!(check_patterns(&["00", "01"]), Ok(Some(2)));
    assert_eq!(check_patterns(&[]), Ok(None));
    assert_eq!(check_patterns(&["00", "011"]), Err(PatternError::LengthMismatch(1)));
    assert_eq!(check_patterns(&["00", "0y"]), Err(PatternError::IllegalChar(1)));
}

#[test]
fn bit_names_forms() {
    assert_eq!(bit_names(None, 3).unwrap(), ["0", "1", "2"]);
    assert_eq!(bit_names(Some("ABC"), 3).unwrap(), ["A", "B", "C"]);
    assert_eq!(bit_names(Some(" en  pol "), 2).unwrap(), ["en", "pol"]);
    assert_eq!(bit_names(Some("AB"), 3), Err(PatternError::WrongNameCount));
}

#[test]
fn pict_layouts() {
    assert_eq!(
        parse_pict(". !1\n0=true 0", 2),
        Err(PictError::DuplicateBit(0))
    );
    assert_eq!(
        parse_pict("!1 .\n. 0", 2).unwrap(),
        [BitSlot::At { x: 1, y: 1, invert: false }, BitSlot::At { x: 0, y: 0, invert: true }]
    );
    assert_eq!(parse_pict("0 . 1=false", 2).unwrap()[1], BitSlot::Fixed(false));
}

#[test]
fn pict_errors() {
    assert_eq!(parse_pict("0 . q", 1), Err(PictError::BadToken { line: 0, col: 2 }));
    assert_eq!(parse_pict("0\n. 5", 2), Err(PictError::BitOutOfRange { line: 1, col: 1 }));
    assert_eq!(parse_pict("0 0", 1), Err(PictError::DuplicateBit(0)));
    assert_eq!(parse_pict("0 .", 2), Err(PictError::MissingBit(1)));
}

#[test]
fn slots_write_and_read() {
    let layout = table_layout_vec(&[0, 2, 3], &[0, 1, 1], &[false, true, false]);
    let mut fuses = [false; 8];
    let f = Frame::Grid { offset_x: 0, offset_y: 0, mirror_x: false, mirror_y: false, width: 4 };
    write_slots(&mut fuses, &layout, &[true, false, true], f);
    assert_eq!(fuses, [true, false, false, false, false, false, true, true]);
    assert_eq!(read_slots_from(&fuses, &layout, f), [true, false, true]);
}

#[test]
fn offsets_compose() {
    assert_eq!(compose_offset(12, true, 3, true), (9, false));
    assert_eq!(compose_offset(0, false, 301, true), (301, true));
    assert_eq!(compose_offset(5, true, 2, false), (3, true));
}

#[test]
fn special_product_terms() {
    assert_eq!((CTC, CTR, CTS, CTE), (4, 5, 6, 7));
    assert_eq!(get_pta(0), 8);
    assert_eq!(get_ptb(5), 24);
    assert_eq!(get_ptc(15), 55);
}

#[test]
fn and_block_maps_are_inverse() {
    for i in 0..56 {
        assert_eq!(AND_BLOCK_TYPE2_P2L_MAP[AND_BLOCK_TYPE2_L2P_MAP[i]], i);
    }
    assert_eq!(AND_BLOCK_TYPE2_L2P_MAP[11], 14);
}

#[test]
fn pattern_decode_default_fallback() {
    let pats = ["00", "01", "10"];
    assert_eq!(pattern_decode_or_default(&pats, &[false, true], 2), 1);
    assert_eq!(pattern_decode_or_default(&pats, &[true, true], 2), 2);
}
