use xc2bit::bitfragment::{compose_offset, read_slots_from, write_slots, BitFragment, BitFragmentFieldType, BitSlot, Frame};
use xc2bit::bitpattern::{pattern_decode, pattern_encode, BitPattern};
use xc2bit::pict::parse_pict;
use xc2bit::text::digit_str;

#[derive(Copy, Clone, Debug, PartialEq, Eq)]
enum MyEnum1 {
    Choice1,
    Choice2,
    Choice3,
    Choice4,
}

impl BitPattern<()> for MyEnum1 {
    type ErrType = ();

    fn bits_count() -> usize {
        2
    }

    fn variant_count() -> usize {
        4
    }

    fn encode(&self) -> Vec<bool> {
        let pats: [&str; 4] = ["00", "01", "10", "11"];
        let values = [MyEnum1::Choice1, MyEnum1::Choice2, MyEnum1::Choice3, MyEnum1::Choice4];
        pattern_encode(pats[values.iter().position(|v| v == self).unwrap()])
    }

    fn decode(bits: &[bool]) -> Result<Self, ()> {
        let pats: [&str; 4] = ["00", "01", "10", "11"];
        let values = [MyEnum1::Choice1, MyEnum1::Choice2, MyEnum1::Choice3, MyEnum1::Choice4];
        pattern_decode(&pats, bits).map(|i| values[i]).ok_or(())
    }

    fn _pos_to_name(pos: usize) -> &'static str {
        digit_str(pos)
    }

    fn _name_to_pos(name: &str) -> usize {
        name.parse().unwrap()
    }

    fn variantname(var: usize) -> &'static str {
        ["Choice1", "Choice2", "Choice3", "Choice4"][var]
    }

    fn variantdesc(var: usize) -> &'static str {
        ["", "", "", ""][var]
    }

    fn variantbits(var: usize) -> &'static str {
        ["00", "01", "10", "11"][var]
    }
}

impl BitFragment<()> for MyEnum1 {
    const IDX_DIMS: usize = 1;
    const FIELD_COUNT: usize = 0;

    type Fuses = [bool];
    type OffsettingType = [isize; 1];
    type MirroringType = [bool; 1];
    type ErrType = ();
    type EncodeExtraType = ();
    type DecodeExtraType = ();

    fn encode(&self, fuses: &mut [bool], offset: [isize; 1], mirror: [bool; 1], _extra: ()) {
        let layout = parse_pict("0 . 1 .", 2).unwrap();
        let bits = BitPattern::<()>::encode(self);
        write_slots(fuses, &layout, &bits, Frame::Line { offset: offset[0], mirror: mirror[0] });
    }

    fn decode(fuses: &[bool], offset: [isize; 1], mirror: [bool; 1], _extra: ()) -> Result<Self, ()> {
        let layout = parse_pict("0 . 1 .", 2).unwrap();
        let bits = read_slots_from(fuses, &layout, Frame::Line { offset: offset[0], mirror: mirror[0] });
        <MyEnum1 as BitPattern<()>>::decode(&bits)
    }

    fn fieldname(i: usize) -> &'static str {
        ""
    }

    fn fielddesc(_i: usize) -> &'static str {
        ""
    }

    fn fieldtype(_i: usize) -> BitFragmentFieldType {
        BitFragmentFieldType::Pattern
    }

    fn field_offset(_field_i: usize, _arr_i: usize) -> [isize; 1] {
        [0]
    }

    fn field_mirror(_field_i: usize, _arr_i: usize) -> [bool; 1] {
        [false]
    }

    fn field_bits(field_i: usize) -> usize {
        [0][field_i]
    }

    fn field_bit_base_pos(_field_i: usize, _bit_i: usize) -> [isize; 1] {
        [0]
    }
}

#[derive(Copy, Clone, Debug, PartialEq, Eq)]
enum MyEnum2 {
    Choice1,
    Choice2,
    Choice3,
    Choice4,
}

impl BitPattern<()> for MyEnum2 {
    type ErrType = ();

    fn bits_count() -> usize {
        2
    }

    fn variant_count() -> usize {
        4
    }

    fn encode(&self) -> Vec<bool> {
        let pats: [&str; 4] = ["00", "01", "10", "11"];
        let values = [MyEnum2::Choice1, MyEnum2::Choice2, MyEnum2::Choice3, MyEnum2::Choice4];
        pattern_encode(pats[values.iter().position(|v| v == self).unwrap()])
    }

    fn decode(bits: &[bool]) -> Result<Self, ()> {
        let pats: [&str; 4] = ["00", "01", "10", "11"];
        let values = [MyEnum2::Choice1, MyEnum2::Choice2, MyEnum2::Choice3, MyEnum2::Choice4];
        pattern_decode(&pats, bits).map(|i| values[i]).ok_or(())
    }

    fn _pos_to_name(pos: usize) -> &'static str {
        digit_str(pos)
    }

    fn _name_to_pos(name: &str) -> usize {
        name.parse().unwrap()
    }

    fn variantname(var: usize) -> &'static str {
        ["Choice1", "Choice2", "Choice3", "Choice4"][var]
    }

    fn variantdesc(var: usize) -> &'static str {
        ["", "", "", ""][var]
    }

    fn variantbits(var: usize) -> &'static str {
        ["00", "01", "10", "11"][var]
    }
}

impl BitFragment<()> for MyEnum2 {
    const IDX_DIMS: usize = 1;
    const FIELD_COUNT: usize = 0;

    type Fuses = [bool];
    type OffsettingType = [isize; 1];
    type MirroringType = [bool; 1];
    type ErrType = ();
    type EncodeExtraType = ();
    type DecodeExtraType = ();

    fn encode(&self, fuses: &mut [bool], offset: [isize; 1], mirror: [bool; 1], _extra: ()) {
        let layout = parse_pict(". 0 . 1", 2).unwrap();
        let bits = BitPattern::<()>::encode(self);
        write_slots(fuses, &layout, &bits, Frame::Line { offset: offset[0], mirror: mirror[0] });
    }

    fn decode(fuses: &[bool], offset: [isize; 1], mirror: [bool; 1], _extra: ()) -> Result<Self, ()> {
        let layout = parse_pict(". 0 . 1", 2).unwrap();
        let bits = read_slots_from(fuses, &layout, Frame::Line { offset: offset[0], mirror: mirror[0] });
        <MyEnum2 as BitPattern<()>>::decode(&bits)
    }

    fn fieldname(i: usize) -> &'static str {
        ""
    }

    fn fielddesc(_i: usize) -> &'static str {
        ""
    }

    fn fieldtype(_i: usize) -> BitFragmentFieldType {
        BitFragmentFieldType::Pattern
    }

    fn field_offset(_field_i: usize, _arr_i: usize) -> [isize; 1] {
        [0]
    }

    fn field_mirror(_field_i: usize, _arr_i: usize) -> [bool; 1] {
        [false]
    }

    fn field_bits(field_i: usize) -> usize {
        [0][field_i]
    }

    fn field_bit_base_pos(_field_i: usize, _bit_i: usize) -> [isize; 1] {
        [0]
    }
}

#[derive(Debug, PartialEq, Eq)]
struct MyStruct1 {
    field1: MyEnum1,
    field2: MyEnum2,
}

impl BitFragment<()> for MyStruct1 {
    const IDX_DIMS: usize = 1;
    const FIELD_COUNT: usize = 2;

    type Fuses = [bool];
    type OffsettingType = [isize; 1];
    type MirroringType = [bool; 1];
    type ErrType = ();
    type EncodeExtraType = ();
    type DecodeExtraType = ();

    fn encode(&self, fuses: &mut [bool], offset: [isize; 1], mirror: [bool; 1], _extra: ()) {
        let (o, m) = compose_offset(offset[0], mirror[0], 0, false);
        BitFragment::<()>::encode(&self.field1, fuses, [o], [m], ());
        BitFragment::<()>::encode(&self.field2, fuses, [o], [m], ());
    }

    fn decode(fuses: &[bool], offset: [isize; 1], mirror: [bool; 1], _extra: ()) -> Result<Self, ()> {
        let (o, m) = compose_offset(offset[0], mirror[0], 0, false);
        let field1 = <MyEnum1 as BitFragment<()>>::decode(fuses, [o], [m], ())?;
        let field2 = <MyEnum2 as BitFragment<()>>::decode(fuses, [o], [m], ())?;
        Ok(MyStruct1 { field1, field2 })
    }

    fn fieldname(i: usize) -> &'static str {
        ["field1", "field2"][i]
    }

    fn fielddesc(_i: usize) -> &'static str {
        ""
    }

    fn fieldtype(_i: usize) -> BitFragmentFieldType {
        BitFragmentFieldType::Pattern
    }

    fn field_offset(_field_i: usize, _arr_i: usize) -> [isize; 1] {
        [0]
    }

    fn field_mirror(_field_i: usize, _arr_i: usize) -> [bool; 1] {
        [false]
    }

    fn field_bits(field_i: usize) -> usize {
        [0, 0][field_i]
    }

    fn field_bit_base_pos(_field_i: usize, _bit_i: usize) -> [isize; 1] {
        [0]
    }
}

#[test]
fn basic_sub_bitfragment_encode() {
    let mut out = [false; 4];

    let x = MyStruct1 {
        field1: MyEnum1::Choice2,
        field2: MyEnum2::Choice3,
    };
    x.encode(&mut out[..], [0], [false], ());
    assert_eq!(out, [false, true, true, false]);

    let x = MyStruct1 {
        field1: MyEnum1::Choice4,
        field2: MyEnum2::Choice1,
    };
    x.encode(&mut out[..], [0], [false], ());
    assert_eq!(out, [true, false, true, false]);
}

#[test]
fn basic_sub_bitfragment_decode() {
    let x = [true, false, false, true];
    let out = MyStruct1::decode(&x[..], [0], [false], ()).unwrap();
    assert_eq!(out, MyStruct1 {
        field1: MyEnum1::Choice3,
        field2: MyEnum2::Choice2,
    });

    let x = [false, true, false, true];
    let out = MyStruct1::decode(&x[..], [0], [false], ()).unwrap();
    assert_eq!(out, MyStruct1 {
        field1: MyEnum1::Choice1,
        field2: MyEnum2::Choice4,
    });
}
