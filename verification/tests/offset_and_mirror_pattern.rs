use xc2bit::bitfragment::{compose_offset, read_slots_from, write_slots, BitFragment, BitFragmentFieldType, BitSlot, Frame};
use xc2bit::bitpattern::{pattern_decode, pattern_encode, BitPattern};
use xc2bit::text::digit_str;

#[derive(Copy, Clone, Debug, PartialEq, Eq)]
enum MyEnum {
    Choice1,
    Choice2,
    Choice3,
    Choice4,
}

impl BitPattern<()> for MyEnum {
    type ErrType = ();

    fn bits_count() -> usize {
        2
    }

    fn variant_count() -> usize {
        4
    }

    fn encode(&self) -> Vec<bool> {
        let pats: [&str; 4] = ["00", "01", "10", "11"];
        let values = [MyEnum::Choice1, MyEnum::Choice2, MyEnum::Choice3, MyEnum::Choice4];
        pattern_encode(pats[values.iter().position(|v| v == self).unwrap()])
    }

    fn decode(bits: &[bool]) -> Result<Self, ()> {
        let pats: [&str; 4] = ["00", "01", "10", "11"];
        let values = [MyEnum::Choice1, MyEnum::Choice2, MyEnum::Choice3, MyEnum::Choice4];
        pattern_decode(&pats, bits).map(|i| values[i]).ok_or(())
    }

    fn _pos_to_name(pos: usize) -> &'static str {
        digit_str(pos)
    }

    fn _name_to_pos(name: &str) -> usize {
        name.parse().unwrap()
    }

    fn variantname(var: usize) -> &'static str {
        ["Choice1", "Choice2", "Choice3", "Choice4"][var]
    }

    fn variantdesc(var: usize) -> &'static str {
        ["", "", "", ""][var]
    }

    fn variantbits(var: usize) -> &'static str {
        ["00", "01", "10", "11"][var]
    }
}

#[derive(Debug, PartialEq, Eq)]
struct MyStruct1 {
    field_enum: MyEnum,
    field_bool: bool,
}

/// The enum's bits at 300 and 299 from its field origin.
fn enum_layout() -> Vec<BitSlot> {
    vec![BitSlot::At { x: 300, y: 0, invert: false }, BitSlot::At { x: 299, y: 0, invert: false }]
}

/// The flag's bit at the fragment origin.
fn bool_layout() -> Vec<BitSlot> {
    vec![BitSlot::At { x: 0, y: 0, invert: false }]
}

/// The frame of the enum field: at 301, mirrored, inside the fragment frame.
fn enum_frame(offset: [isize; 1], mirror: [bool; 1]) -> Frame {
    let (o, m) = compose_offset(offset[0], mirror[0], 301, true);
    Frame::Line { offset: o, mirror: m }
}

impl BitFragment<()> for MyStruct1 {
    const IDX_DIMS: usize = 1;
    const FIELD_COUNT: usize = 2;

    type Fuses = [bool];
    type OffsettingType = [isize; 1];
    type MirroringType = [bool; 1];
    type ErrType = ();
    type EncodeExtraType = ();
    type DecodeExtraType = ();

    fn encode(&self, fuses: &mut [bool], offset: [isize; 1], mirror: [bool; 1], _extra: ()) {
        let bits = BitPattern::<()>::encode(&self.field_enum);
        write_slots(fuses, &enum_layout(), &bits, enum_frame(offset, mirror));
        write_slots(fuses, &bool_layout(), &[self.field_bool], Frame::Line { offset: offset[0], mirror: mirror[0] });
    }

    fn decode(fuses: &[bool], offset: [isize; 1], mirror: [bool; 1], _extra: ()) -> Result<Self, ()> {
        let bits = read_slots_from(fuses, &enum_layout(), enum_frame(offset, mirror));
        let field_enum = <MyEnum as BitPattern<()>>::decode(&bits)?;
        let b = read_slots_from(fuses, &bool_layout(), Frame::Line { offset: offset[0], mirror: mirror[0] });
        Ok(MyStruct1 { field_enum, field_bool: b[0] })
    }

    fn fieldname(i: usize) -> &'static str {
        ["field_enum", "field_bool"][i]
    }

    fn fielddesc(_i: usize) -> &'static str {
        ""
    }

    fn fieldtype(_i: usize) -> BitFragmentFieldType {
        BitFragmentFieldType::Pattern
    }

    fn field_offset(_field_i: usize, _arr_i: usize) -> [isize; 1] {
        [0]
    }

    fn field_mirror(_field_i: usize, _arr_i: usize) -> [bool; 1] {
        [false]
    }

    fn field_bits(field_i: usize) -> usize {
        [2, 1][field_i]
    }

    fn field_bit_base_pos(_field_i: usize, _bit_i: usize) -> [isize; 1] {
        [0]
    }
}

#[test]
fn offset_and_mirror_pattern_encode() {
    let mut out = [false; 3];

    let x = MyStruct1 {
        field_enum: MyEnum::Choice2,
        field_bool: false,
    };
    x.encode(&mut out[..], [0], [false], ());
    assert_eq!(out, [false, false, true]);

    let x = MyStruct1 {
        field_enum: MyEnum::Choice3,
        field_bool: true,
    };
    x.encode(&mut out[..], [0], [false], ());
    assert_eq!(out, [true, true, false]);

    // offset
    let mut out = [true; 5];

    let x = MyStruct1 {
        field_enum: MyEnum::Choice2,
        field_bool: false,
    };
    x.encode(&mut out[..], [1], [false], ());
    assert_eq!(out, [true, false, false, true, true]);

    let x = MyStruct1 {
        field_enum: MyEnum::Choice3,
        field_bool: true,
    };
    x.encode(&mut out[..], [1], [false], ());
    assert_eq!(out, [true, true, true, false, true]);

    // mirroring
    let mut out = [false; 3];
    let x = MyStruct1 {
        field_enum: MyEnum::Choice2,
        field_bool: false,
    };
    x.encode(&mut out[..], [2], [true], ());
    assert_eq!(out, [true, false, false]);

    let mut out = [true; 5];
    let x = MyStruct1 {
        field_enum: MyEnum::Choice3,
        field_bool: true,
    };
    x.encode(&mut out[..], [3], [true], ());
    assert_eq!(out, [true, false, true, true, true]);
}

#[test]
fn offset_and_mirror_pattern_decode() {
    let x = [true, false, false];
    let out = MyStruct1::decode(&x[..], [0], [false], ()).unwrap();
    assert_eq!(out, MyStruct1 {
        field_enum: MyEnum::Choice1,
        field_bool: true,
    });

    let x = [false, true, true];
    let out = MyStruct1::decode(&x[..], [0], [false], ()).unwrap();
    assert_eq!(out, MyStruct1 {
        field_enum: MyEnum::Choice4,
        field_bool: false,
    });

    // offset
    let x = [false, false, false, true, false, false];
    let out = MyStruct1::decode(&x[..], [3], [false], ()).unwrap();
    assert_eq!(out, MyStruct1 {
        field_enum: MyEnum::Choice1,
        field_bool: true,
    });

    let x = [true, true, true, false, true, true];
    let out = MyStruct1::decode(&x[..], [3], [false], ()).unwrap();
    assert_eq!(out, MyStruct1 {
        field_enum: MyEnum::Choice4,
        field_bool: false,
    });

    // mirroring
    let x = [true, false, false];
    let out = MyStruct1::decode(&x[..], [2], [true], ()).unwrap();
    assert_eq!(out, MyStruct1 {
        field_enum: MyEnum::Choice2,
        field_bool: false,
    });

    let x = [true, true, true, false, true, true];
    let out = MyStruct1::decode(&x[..], [5], [true], ()).unwrap();
    assert_eq!(out, MyStruct1 {
        field_enum: MyEnum::Choice3,
        field_bool: true,
    });
}
