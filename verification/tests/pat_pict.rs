use xc2bit::bitfragment::{compose_offset, read_slots_from, write_slots, BitFragment, BitFragmentFieldType, BitSlot, Frame};
use xc2bit::bitpattern::{pattern_decode, pattern_encode, BitPattern};
use xc2bit::pict::parse_pict;
use xc2bit::text::digit_str;

#[derive(Copy, Clone, Debug, PartialEq, Eq)]
enum MyEnum {
    Choice1,
    Choice2,
    Choice3,
    Choice4,
}

impl BitPattern<()> for MyEnum {
    type ErrType = ();

    fn bits_count() -> usize {
        2
    }

    fn variant_count() -> usize {
        4
    }

    fn encode(&self) -> Vec<bool> {
        let pats: [&str; 4] = ["00", "01", "10", "11"];
        let values = [MyEnum::Choice1, MyEnum::Choice2, MyEnum::Choice3, MyEnum::Choice4];
        pattern_encode(pats[values.iter().position(|v| v == self).unwrap()])
    }

    fn decode(bits: &[bool]) -> Result<Self, ()> {
        let pats: [&str; 4] = ["00", "01", "10", "11"];
        let values = [MyEnum::Choice1, MyEnum::Choice2, MyEnum::Choice3, MyEnum::Choice4];
        pattern_decode(&pats, bits).map(|i| values[i]).ok_or(())
    }

    fn _pos_to_name(pos: usize) -> &'static str {
        digit_str(pos)
    }

    fn _name_to_pos(name: &str) -> usize {
        name.parse().unwrap()
    }

    fn variantname(var: usize) -> &'static str {
        ["Choice1", "Choice2", "Choice3", "Choice4"][var]
    }

    fn variantdesc(var: usize) -> &'static str {
        ["", "", "", ""][var]
    }

    fn variantbits(var: usize) -> &'static str {
        ["00", "01", "10", "11"][var]
    }
}

#[derive(Debug, PartialEq, Eq)]
struct MyStruct1 {
    field_enum: MyEnum,
    field_bool: bool,
}

impl BitFragment<()> for MyStruct1 {
    const IDX_DIMS: usize = 1;
    const FIELD_COUNT: usize = 2;

    type Fuses = [bool];
    type OffsettingType = [isize; 1];
    type MirroringType = [bool; 1];
    type ErrType = ();
    type EncodeExtraType = ();
    type DecodeExtraType = ();

    fn encode(&self, fuses: &mut [bool], offset: [isize; 1], mirror: [bool; 1], _extra: ()) {
        let f = Frame::Line { offset: offset[0], mirror: mirror[0] };
        let bits = BitPattern::<()>::encode(&self.field_enum);
        write_slots(fuses, &parse_pict(". 0 1", 2).unwrap(), &bits, f);
        write_slots(fuses, &parse_pict("0 . .", 1).unwrap(), &[self.field_bool], f);
    }

    fn decode(fuses: &[bool], offset: [isize; 1], mirror: [bool; 1], _extra: ()) -> Result<Self, ()> {
        let f = Frame::Line { offset: offset[0], mirror: mirror[0] };
        let bits = read_slots_from(fuses, &parse_pict(". 0 1", 2).unwrap(), f);
        let field_enum = <MyEnum as BitPattern<()>>::decode(&bits)?;
        let b = read_slots_from(fuses, &parse_pict("0 . .", 1).unwrap(), f);
        Ok(MyStruct1 { field_enum, field_bool: b[0] })
    }

    fn fieldname(i: usize) -> &'static str {
        ["field_enum", "field_bool"][i]
    }

    fn fielddesc(_i: usize) -> &'static str {
        ""
    }

    fn fieldtype(_i: usize) -> BitFragmentFieldType {
        BitFragmentFieldType::Pattern
    }

    fn field_offset(_field_i: usize, _arr_i: usize) -> [isize; 1] {
        [0]
    }

    fn field_mirror(_field_i: usize, _arr_i: usize) -> [bool; 1] {
        [false]
    }

    fn field_bits(field_i: usize) -> usize {
        [2, 1][field_i]
    }

    fn field_bit_base_pos(_field_i: usize, _bit_i: usize) -> [isize; 1] {
        [0]
    }
}

#[test]
fn pat_pict_encode() {
    let mut out = [false; 3];

    let x = MyStruct1 {
        field_enum: MyEnum::Choice2,
        field_bool: false,
    };
    x.encode(&mut out[..], [0], [false], ());
    assert_eq!(out, [false, false, true]);

    let x = MyStruct1 {
        field_enum: MyEnum::Choice3,
        field_bool: true,
    };
    x.encode(&mut out[..], [0], [false], ());
    assert_eq!(out, [true, true, false]);

    // offset
    let mut out = [true; 5];

    let x = MyStruct1 {
        field_enum: MyEnum::Choice2,
        field_bool: false,
    };
    x.encode(&mut out[..], [1], [false], ());
    assert_eq!(out, [true, false, false, true, true]);

    let x = MyStruct1 {
        field_enum: MyEnum::Choice3,
        field_bool: true,
    };
    x.encode(&mut out[..], [1], [false], ());
    assert_eq!(out, [true, true, true, false, true]);

    // mirroring
    let mut out = [false; 3];
    let x = MyStruct1 {
        field_enum: MyEnum::Choice2,
        field_bool: false,
    };
    x.encode(&mut out[..], [2], [true], ());
    assert_eq!(out, [true, false, false]);

    let mut out = [true; 5];
    let x = MyStruct1 {
        field_enum: MyEnum::Choice3,
        field_bool: true,
    };
    x.encode(&mut out[..], [3], [true], ());
    assert_eq!(out, [true, false, true, true, true]);
}

#[test]
fn pat_pict_decode() {
    let x = [true, false, false];
    let out = MyStruct1::decode(&x[..], [0], [false], ()).unwrap();
    assert_eq!(out, MyStruct1 {
        field_enum: MyEnum::Choice1,
        field_bool: true,
    });

    let x = [false, true, true];
    let out = MyStruct1::decode(&x[..], [0], [false], ()).unwrap();
    assert_eq!(out, MyStruct1 {
        field_enum: MyEnum::Choice4,
        field_bool: false,
    });

    // offset
    let x = [false, false, false, true, false, false];
    let out = MyStruct1::decode(&x[..], [3], [false], ()).unwrap();
    assert_eq!(out, MyStruct1 {
        field_enum: MyEnum::Choice1,
        field_bool: true,
    });

    let x = [true, true, true, false, true, true];
    let out = MyStruct1::decode(&x[..], [3], [false], ()).unwrap();
    assert_eq!(out, MyStruct1 {
        field_enum: MyEnum::Choice4,
        field_bool: false,
    });

    // mirroring
    let x = [true, false, false];
    let out = MyStruct1::decode(&x[..], [2], [true], ()).unwrap();
    assert_eq!(out, MyStruct1 {
        field_enum: MyEnum::Choice2,
        field_bool: false,
    });

    let x = [true, true, true, false, true, true];
    let out = MyStruct1::decode(&x[..], [5], [true], ()).unwrap();
    assert_eq!(out, MyStruct1 {
        field_enum: MyEnum::Choice3,
        field_bool: true,
    });
}

#[derive(Debug, PartialEq, Eq)]
struct MyStruct2 {
    field_enum: MyEnum,
    field_bool: bool,
}

/// Six fuses in a grid two columns wide, stored row by row.
#[derive(Debug, PartialEq, Eq)]
struct My2DArray([bool; 6]);

impl BitFragment<()> for MyStruct2 {
    const IDX_DIMS: usize = 2;
    const FIELD_COUNT: usize = 2;

    type Fuses = My2DArray;
    type OffsettingType = [isize; 2];
    type MirroringType = [bool; 2];
    type ErrType = ();
    type EncodeExtraType = ();
    type DecodeExtraType = ();

    fn encode(&self, fuses: &mut My2DArray, offset: [isize; 2], mirror: [bool; 2], _extra: ()) {
        let f = Frame::Grid { offset_x: offset[0], offset_y: offset[1], mirror_x: mirror[0], mirror_y: mirror[1], width: 2 };
        let bits = BitPattern::<()>::encode(&self.field_enum);
        write_slots(&mut fuses.0, &parse_pict("0 .\n                . 1", 2).unwrap(), &bits, f);
        write_slots(&mut fuses.0, &parse_pict(".\n                .\n                0", 1).unwrap(), &[self.field_bool], f);
    }

    fn decode(fuses: &My2DArray, offset: [isize; 2], mirror: [bool; 2], _extra: ()) -> Result<Self, ()> {
        let f = Frame::Grid { offset_x: offset[0], offset_y: offset[1], mirror_x: mirror[0], mirror_y: mirror[1], width: 2 };
        let bits = read_slots_from(&fuses.0, &parse_pict("0 .\n                . 1", 2).unwrap(), f);
        let field_enum = <MyEnum as BitPattern<()>>::decode(&bits)?;
        let b = read_slots_from(&fuses.0, &parse_pict(".\n                .\n                0", 1).unwrap(), f);
        Ok(MyStruct2 { field_enum, field_bool: b[0] })
    }

    fn fieldname(i: usize) -> &'static str {
        ["field_enum", "field_bool"][i]
    }

    fn fielddesc(_i: usize) -> &'static str {
        ""
    }

    fn fieldtype(_i: usize) -> BitFragmentFieldType {
        BitFragmentFieldType::Pattern
    }

    fn field_offset(_field_i: usize, _arr_i: usize) -> [isize; 2] {
        [0, 0]
    }

    fn field_mirror(_field_i: usize, _arr_i: usize) -> [bool; 2] {
        [false, false]
    }

    fn field_bits(field_i: usize) -> usize {
        [2, 1][field_i]
    }

    fn field_bit_base_pos(_field_i: usize, _bit_i: usize) -> [isize; 2] {
        [0, 0]
    }
}

#[test]
fn pat_pict_2d_encode() {
    let mut out = My2DArray([false; 6]);

    let x = MyStruct2 {
        field_enum: MyEnum::Choice2,
        field_bool: false,
    };
    x.encode(&mut out, [0, 0], [false, false], ());
    assert_eq!(out.0, [false, false,
                       false, true,
                       false, false]);

    let x = MyStruct2 {
        field_enum: MyEnum::Choice3,
        field_bool: true,
    };
    x.encode(&mut out, [0, 0], [false, false], ());
    assert_eq!(out.0, [true, false,
                       false, false,
                       true, false]);
}

#[test]
fn pat_pict_2d_decode() {
    let x = My2DArray([false, false,
                       true, false,
                       true, false]);
    let out = MyStruct2::decode(&x, [0, 0], [false, false], ()).unwrap();
    assert_eq!(out, MyStruct2 {
        field_enum: MyEnum::Choice1,
        field_bool: true,
    });

    let x = My2DArray([true, true,
                       false, true,
                       false, true]);
    let out = MyStruct2::decode(&x, [0, 0], [false, false], ()).unwrap();
    assert_eq!(out, MyStruct2 {
        field_enum: MyEnum::Choice4,
        field_bool: false,
    });
}
