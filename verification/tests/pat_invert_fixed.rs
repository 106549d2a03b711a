use xc2bit::bitfragment::{compose_offset, read_slots_from, write_slots, BitFragment, BitFragmentFieldType, BitSlot, Frame};
use xc2bit::bitpattern::{pattern_decode_or_default, pattern_encode, BitPattern};
use xc2bit::pict::parse_pict;
use xc2bit::text::digit_str;

#[derive(Copy, Clone, Debug, PartialEq, Eq)]
enum MyEnum {
    Choice1,
    Choice2,
    Choice3,
    Choice4,
}

impl BitPattern<()> for MyEnum {
    type ErrType = ();

    fn bits_count() -> usize {
        4
    }

    fn variant_count() -> usize {
        4
    }

    fn encode(&self) -> Vec<bool> {
        let pats: [&str; 4] = ["0010", "0110", "1010", "1110"];
        let values = [MyEnum::Choice1, MyEnum::Choice2, MyEnum::Choice3, MyEnum::Choice4];
        pattern_encode(pats[values.iter().position(|v| v == self).unwrap()])
    }

    fn decode(bits: &[bool]) -> Result<Self, ()> {
        let pats: [&str; 4] = ["0010", "0110", "1010", "1110"];
        let values = [MyEnum::Choice1, MyEnum::Choice2, MyEnum::Choice3, MyEnum::Choice4];
        Ok(values[pattern_decode_or_default(&pats, bits, 0)])
    }

    fn _pos_to_name(pos: usize) -> &'static str {
        digit_str(pos)
    }

    fn _name_to_pos(name: &str) -> usize {
        name.parse().unwrap()
    }

    fn variantname(var: usize) -> &'static str {
        ["Choice1", "Choice2", "Choice3", "Choice4"][var]
    }

    fn variantdesc(var: usize) -> &'static str {
        ["", "", "", ""][var]
    }

    fn variantbits(var: usize) -> &'static str {
        ["0010", "0110", "1010", "1110"][var]
    }
}

/// Bit 0 at position 1, bit 1 inverted at position 2, bits 2 and 3 fixed.
fn layout() -> Vec<BitSlot> {
    vec![BitSlot::At { x: 1, y: 0, invert: false }, BitSlot::At { x: 2, y: 0, invert: true }, BitSlot::Fixed(true), BitSlot::Fixed(false)]
}

impl BitFragment<()> for MyEnum {
    const IDX_DIMS: usize = 1;
    const FIELD_COUNT: usize = 0;

    type Fuses = [bool];
    type OffsettingType = [isize; 1];
    type MirroringType = [bool; 1];
    type ErrType = ();
    type EncodeExtraType = ();
    type DecodeExtraType = ();

    fn encode(&self, fuses: &mut [bool], offset: [isize; 1], mirror: [bool; 1], _extra: ()) {
        let bits = BitPattern::<()>::encode(self);
        write_slots(fuses, &layout(), &bits, Frame::Line { offset: offset[0], mirror: mirror[0] });
    }

    fn decode(fuses: &[bool], offset: [isize; 1], mirror: [bool; 1], _extra: ()) -> Result<Self, ()> {
        let bits = read_slots_from(fuses, &layout(), Frame::Line { offset: offset[0], mirror: mirror[0] });
        <MyEnum as BitPattern<()>>::decode(&bits)
    }

    fn fieldname(i: usize) -> &'static str {
        ""
    }

    fn fielddesc(_i: usize) -> &'static str {
        ""
    }

    fn fieldtype(_i: usize) -> BitFragmentFieldType {
        BitFragmentFieldType::Pattern
    }

    fn field_offset(_field_i: usize, _arr_i: usize) -> [isize; 1] {
        [0]
    }

    fn field_mirror(_field_i: usize, _arr_i: usize) -> [bool; 1] {
        [false]
    }

    fn field_bits(field_i: usize) -> usize {
        [0][field_i]
    }

    fn field_bit_base_pos(_field_i: usize, _bit_i: usize) -> [isize; 1] {
        [0]
    }
}

#[test]
fn pat_invert_fixed_encode() {
    let mut out = [false; 3];

    let x = MyEnum::Choice2;
    BitFragment::<()>::encode(&x, &mut out[..], [0], [false], ());
    assert_eq!(out, [false, false, false]);

    let x = MyEnum::Choice3;
    BitFragment::<()>::encode(&x, &mut out[..], [0], [false], ());
    assert_eq!(out, [false, true, true]);

    // offset
    let mut out = [true; 5];

    let x = MyEnum::Choice2;
    BitFragment::<()>::encode(&x, &mut out[..], [1], [false], ());
    assert_eq!(out, [true, true, false, false, true]);

    let x = MyEnum::Choice3;
    BitFragment::<()>::encode(&x, &mut out[..], [1], [false], ());
    assert_eq!(out, [true, true, true, true, true]);

    // mirroring
    let mut out = [false; 3];
    let x = MyEnum::Choice2;
    BitFragment::<()>::encode(&x, &mut out[..], [2], [true], ());
    assert_eq!(out, [false, false, false]);

    let mut out = [true; 5];
    let x = MyEnum::Choice3;
    BitFragment::<()>::encode(&x, &mut out[..], [3], [true], ());
    assert_eq!(out, [true, true, true, true, true]);
}

#[test]
fn pat_invert_fixed_decode() {
    let x = [true, false, true];
    let out: MyEnum = <MyEnum as BitFragment<()>>::decode(&x[..], [0], [false], ()).unwrap();
    assert_eq!(out, MyEnum::Choice1);

    let x = [false, true, false];
    let out: MyEnum = <MyEnum as BitFragment<()>>::decode(&x[..], [0], [false], ()).unwrap();
    assert_eq!(out, MyEnum::Choice4);

    // offset
    let x = [false, false, false, true, false, true];
    let out: MyEnum = <MyEnum as BitFragment<()>>::decode(&x[..], [3], [false], ()).unwrap();
    assert_eq!(out, MyEnum::Choice1);

    let x = [true, true, true, false, true, false];
    let out: MyEnum = <MyEnum as BitFragment<()>>::decode(&x[..], [3], [false], ()).unwrap();
    assert_eq!(out, MyEnum::Choice4);

    // mirroring
    let x = [false, false, false];
    let out: MyEnum = <MyEnum as BitFragment<()>>::decode(&x[..], [2], [true], ()).unwrap();
    assert_eq!(out, MyEnum::Choice2);

    let x = [true, true, true, true, true, true];
    let out: MyEnum = <MyEnum as BitFragment<()>>::decode(&x[..], [5], [true], ()).unwrap();
    assert_eq!(out, MyEnum::Choice3);
}
