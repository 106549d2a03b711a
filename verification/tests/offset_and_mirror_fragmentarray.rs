use xc2bit::bitfragment::{compose_offset, read_slots_from, write_slots, BitFragment, BitFragmentFieldType, BitSlot, Frame};
use xc2bit::bitpattern::{pattern_decode, pattern_encode, BitPattern};
use xc2bit::pict::parse_pict;
use xc2bit::text::digit_str;

#[derive(Copy, Clone, Debug, PartialEq, Eq)]
enum MyEnum {
    Choice1,
    Choice2,
    Choice3,
    Choice4,
}

impl BitPattern<()> for MyEnum {
    type ErrType = ();

    fn bits_count() -> usize {
        2
    }

    fn variant_count() -> usize {
        4
    }

    fn encode(&self) -> Vec<bool> {
        let pats: [&str; 4] = ["00", "01", "10", "11"];
        let values = [MyEnum::Choice1, MyEnum::Choice2, MyEnum::Choice3, MyEnum::Choice4];
        pattern_encode(pats[values.iter().position(|v| v == self).unwrap()])
    }

    fn decode(bits: &[bool]) -> Result<Self, ()> {
        let pats: [&str; 4] = ["00", "01", "10", "11"];
        let values = [MyEnum::Choice1, MyEnum::Choice2, MyEnum::Choice3, MyEnum::Choice4];
        pattern_decode(&pats, bits).map(|i| values[i]).ok_or(())
    }

    fn _pos_to_name(pos: usize) -> &'static str {
        digit_str(pos)
    }

    fn _name_to_pos(name: &str) -> usize {
        name.parse().unwrap()
    }

    fn variantname(var: usize) -> &'static str {
        ["Choice1", "Choice2", "Choice3", "Choice4"][var]
    }

    fn variantdesc(var: usize) -> &'static str {
        ["", "", "", ""][var]
    }

    fn variantbits(var: usize) -> &'static str {
        ["00", "01", "10", "11"][var]
    }
}

/// The enum's two bits at 300 and 299 from its origin.
fn enum_layout() -> Vec<BitSlot> {
    vec![BitSlot::At { x: 300, y: 0, invert: false }, BitSlot::At { x: 299, y: 0, invert: false }]
}

impl BitFragment<()> for MyEnum {
    const IDX_DIMS: usize = 1;
    const FIELD_COUNT: usize = 0;

    type Fuses = [bool];
    type OffsettingType = [isize; 1];
    type MirroringType = [bool; 1];
    type ErrType = ();
    type EncodeExtraType = ();
    type DecodeExtraType = ();

    fn encode(&self, fuses: &mut [bool], offset: [isize; 1], mirror: [bool; 1], _extra: ()) {
        let bits = BitPattern::<()>::encode(self);
        write_slots(fuses, &enum_layout(), &bits, Frame::Line { offset: offset[0], mirror: mirror[0] });
    }

    fn decode(fuses: &[bool], offset: [isize; 1], mirror: [bool; 1], _extra: ()) -> Result<Self, ()> {
        let bits = read_slots_from(fuses, &enum_layout(), Frame::Line { offset: offset[0], mirror: mirror[0] });
        <MyEnum as BitPattern<()>>::decode(&bits)
    }

    fn fieldname(i: usize) -> &'static str {
        ""
    }

    fn fielddesc(_i: usize) -> &'static str {
        ""
    }

    fn fieldtype(_i: usize) -> BitFragmentFieldType {
        BitFragmentFieldType::Pattern
    }

    fn field_offset(_field_i: usize, _arr_i: usize) -> [isize; 1] {
        [0]
    }

    fn field_mirror(_field_i: usize, _arr_i: usize) -> [bool; 1] {
        [false]
    }

    fn field_bits(field_i: usize) -> usize {
        [0][field_i]
    }

    fn field_bit_base_pos(_field_i: usize, _bit_i: usize) -> [isize; 1] {
        [0]
    }
}

const DIM1: usize = 2;
const DIM2: usize = 3;

#[derive(Debug, PartialEq, Eq)]
struct MyStruct1 {
    field_enum: [[[MyEnum; DIM1]; 1]; DIM2],
    field_bool: [bool; 1],
}

/// The placement of element `i` of the enum array: the field sits at 301,
/// mirrored; element `i` sits at its own offset inside the fragment.
fn element_frame(offset: [isize; 1], mirror: [bool; 1], i: usize) -> (isize, bool) {
    let arr_off: isize = if i == 0 {
        3
    } else if i == 5 {
        13
    } else {
        (i * 2) as isize
    };
    let arr_mirror = i == 0 || i == 5;
    let (o, m) = compose_offset(offset[0], mirror[0], arr_off, arr_mirror);
    compose_offset(o, m, 301, true)
}

impl BitFragment<()> for MyStruct1 {
    const IDX_DIMS: usize = 1;
    const FIELD_COUNT: usize = 2;

    type Fuses = [bool];
    type OffsettingType = [isize; 1];
    type MirroringType = [bool; 1];
    type ErrType = ();
    type EncodeExtraType = ();
    type DecodeExtraType = ();

    fn encode(&self, fuses: &mut [bool], offset: [isize; 1], mirror: [bool; 1], _extra: ()) {
        for i in 0..DIM2 {
            for j in 0..DIM1 {
                let (o, m) = element_frame(offset, mirror, i * DIM1 + j);
                BitFragment::<()>::encode(&self.field_enum[i][0][j], fuses, [o], [m], ());
            }
        }
        write_slots(fuses, &vec![BitSlot::At { x: 0, y: 0, invert: false }], &self.field_bool, Frame::Line { offset: offset[0], mirror: mirror[0] });
    }

    fn decode(fuses: &[bool], offset: [isize; 1], mirror: [bool; 1], _extra: ()) -> Result<Self, ()> {
        let mut field_enum = [[[MyEnum::Choice1; DIM1]; 1]; DIM2];
        for i in 0..DIM2 {
            for j in 0..DIM1 {
                let (o, m) = element_frame(offset, mirror, i * DIM1 + j);
                field_enum[i][0][j] = <MyEnum as BitFragment<()>>::decode(fuses, [o], [m], ())?;
            }
        }
        let b = read_slots_from(fuses, &vec![BitSlot::At { x: 0, y: 0, invert: false }], Frame::Line { offset: offset[0], mirror: mirror[0] });
        Ok(MyStruct1 { field_enum, field_bool: [b[0]] })
    }

    fn fieldname(i: usize) -> &'static str {
        ["field_enum", "field_bool"][i]
    }

    fn fielddesc(_i: usize) -> &'static str {
        ""
    }

    fn fieldtype(_i: usize) -> BitFragmentFieldType {
        BitFragmentFieldType::Pattern
    }

    fn field_offset(_field_i: usize, _arr_i: usize) -> [isize; 1] {
        [0]
    }

    fn field_mirror(_field_i: usize, _arr_i: usize) -> [bool; 1] {
        [false]
    }

    fn field_bits(field_i: usize) -> usize {
        [0, 1][field_i]
    }

    fn field_bit_base_pos(_field_i: usize, _bit_i: usize) -> [isize; 1] {
        [0]
    }
}

#[test]
fn offset_and_mirror_fragmentarray_encode() {
    let mut out = [false; 13];

    let x = MyStruct1 {
        field_enum: [
            [[MyEnum::Choice1, MyEnum::Choice2]],
            [[MyEnum::Choice3, MyEnum::Choice4]],
            [[MyEnum::Choice1, MyEnum::Choice4]],
        ],
        field_bool: [true],
    };
    x.encode(&mut out[..], [0], [false], ());
    assert_eq!(out, [true,
        false, false,
        false, true,
        true, false,
        true, true,
        false, false,
        true, true]);

    let x = MyStruct1 {
        field_enum: [
            [[MyEnum::Choice2, MyEnum::Choice3]],
            [[MyEnum::Choice4, MyEnum::Choice1]],
            [[MyEnum::Choice1, MyEnum::Choice3]],
        ],
        field_bool: [true],
    };
    x.encode(&mut out[..], [0], [false], ());
    assert_eq!(out, [true,
        true, false,
        true, false,
        true, true,
        false, false,
        false, false,
        false, true]);

    let x = MyStruct1 {
        field_enum: [
            [[MyEnum::Choice1, MyEnum::Choice2]],
            [[MyEnum::Choice3, MyEnum::Choice4]],
            [[MyEnum::Choice1, MyEnum::Choice4]],
        ],
        field_bool: [true],
    };
    x.encode(&mut out[..], [12], [true], ());
    assert_eq!(out, [
        true, true,
        false, false,
        true, true,
        false, true,
        true, false,
        false, false,
        true]);

    let x = MyStruct1 {
        field_enum: [
            [[MyEnum::Choice2, MyEnum::Choice3]],
            [[MyEnum::Choice4, MyEnum::Choice1]],
            [[MyEnum::Choice1, MyEnum::Choice3]],
        ],
        field_bool: [true],
    };
    x.encode(&mut out[..], [12], [true], ());
    assert_eq!(out, [
        true, false,
        false, false,
        false, false,
        true, true,
        false, true,
        false, true,
        true]);
}

#[test]
fn offset_and_mirror_fragmentarray_decode() {
    let x = [false,
        true, true,
        false, true,
        true, false,
        false, false,
        false, true,
        false, true];
    let out = MyStruct1::decode(&x[..], [0], [false], ()).unwrap();
    assert_eq!(out, MyStruct1 {
        field_enum: [
            [[MyEnum::Choice4, MyEnum::Choice2]],
            [[MyEnum::Choice3, MyEnum::Choice1]],
            [[MyEnum::Choice2, MyEnum::Choice3]],
        ],
        field_bool: [false],
    });

    let x = [false,
        false, true,
        false, true,
        true, true,
        false, false,
        false, false,
        false, true];
    let out = MyStruct1::decode(&x[..], [0], [false], ()).unwrap();
    assert_eq!(out, MyStruct1 {
        field_enum: [
            [[MyEnum::Choice3, MyEnum::Choice2]],
            [[MyEnum::Choice4, MyEnum::Choice1]],
            [[MyEnum::Choice1, MyEnum::Choice3]],
        ],
        field_bool: [false],
    });

    let x = [
        true, false,
        true, false,
        false, false,
        false, true,
        true, false,
        true, true,
        false];
    let out = MyStruct1::decode(&x[..], [12], [true], ()).unwrap();
    assert_eq!(out, MyStruct1 {
        field_enum: [
            [[MyEnum::Choice4, MyEnum::Choice2]],
            [[MyEnum::Choice3, MyEnum::Choice1]],
            [[MyEnum::Choice2, MyEnum::Choice3]],
        ],
        field_bool: [false],
    });

    let x = [
        true, false,
        false, false,
        false, false,
        true, true,
        true, false,
        true, false,
        false];
    let out = MyStruct1::decode(&x[..], [12], [true], ()).unwrap();
    assert_eq!(out, MyStruct1 {
        field_enum: [
            [[MyEnum::Choice3, MyEnum::Choice2]],
            [[MyEnum::Choice4, MyEnum::Choice1]],
            [[MyEnum::Choice1, MyEnum::Choice3]],
        ],
        field_bool: [false],
    });
}
