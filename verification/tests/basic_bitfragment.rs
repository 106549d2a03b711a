use xc2bit::bitfragment::{compose_offset, read_slots_from, write_slots, BitFragment, BitFragmentFieldType, BitSlot, Frame};
use xc2bit::bitpattern::{pattern_decode, pattern_encode, BitPattern};
use xc2bit::text::digit_str;

#[derive(Copy, Clone, Debug, PartialEq, Eq)]
enum MyEnum {
    Choice1,
    Choice2,
    Choice3,
    Choice4,
}

impl BitPattern<()> for MyEnum {
    type ErrType = ();

    fn bits_count() -> usize {
        2
    }

    fn variant_count() -> usize {
        4
    }

    fn encode(&self) -> Vec<bool> {
        let pats: [&str; 4] = ["00", "01", "10", "11"];
        let values = [MyEnum::Choice1, MyEnum::Choice2, MyEnum::Choice3, MyEnum::Choice4];
        pattern_encode(pats[values.iter().position(|v| v == self).unwrap()])
    }

    fn decode(bits: &[bool]) -> Result<Self, ()> {
        let pats: [&str; 4] = ["00", "01", "10", "11"];
        let values = [MyEnum::Choice1, MyEnum::Choice2, MyEnum::Choice3, MyEnum::Choice4];
        pattern_decode(&pats, bits).map(|i| values[i]).ok_or(())
    }

    fn _pos_to_name(pos: usize) -> &'static str {
        digit_str(pos)
    }

    fn _name_to_pos(name: &str) -> usize {
        name.parse().unwrap()
    }

    fn variantname(var: usize) -> &'static str {
        ["Choice1", "Choice2", "Choice3", "Choice4"][var]
    }

    fn variantdesc(var: usize) -> &'static str {
        ["", "", "", ""][var]
    }

    fn variantbits(var: usize) -> &'static str {
        ["00", "01", "10", "11"][var]
    }
}

#[derive(Debug, PartialEq, Eq)]
struct MyStruct1 {
    field_enum: MyEnum,
    field_bool: bool,
}

/// The enum's two bits at positions 1 and 2, the flag at position 0.
fn layout() -> Vec<BitSlot> {
    vec![BitSlot::At { x: 1, y: 0, invert: false }, BitSlot::At { x: 2, y: 0, invert: false }, BitSlot::At { x: 0, y: 0, invert: false }]
}

impl BitFragment<()> for MyStruct1 {
    const IDX_DIMS: usize = 1;
    const FIELD_COUNT: usize = 2;

    type Fuses = [bool];
    type OffsettingType = [isize; 1];
    type MirroringType = [bool; 1];
    type ErrType = ();
    type EncodeExtraType = ();
    type DecodeExtraType = ();

    fn encode(&self, fuses: &mut [bool], offset: [isize; 1], mirror: [bool; 1], _extra: ()) {
        let mut bits = BitPattern::<()>::encode(&self.field_enum);
        bits.push(self.field_bool);
        write_slots(fuses, &layout(), &bits, Frame::Line { offset: offset[0], mirror: mirror[0] });
    }

    fn decode(fuses: &[bool], offset: [isize; 1], mirror: [bool; 1], _extra: ()) -> Result<Self, ()> {
        let bits = read_slots_from(fuses, &layout(), Frame::Line { offset: offset[0], mirror: mirror[0] });
        let e = <MyEnum as BitPattern<()>>::decode(&bits[0..2])?;
        Ok(MyStruct1 { field_enum: e, field_bool: bits[2] })
    }

    fn fieldname(i: usize) -> &'static str {
        ["field_enum", "field_bool"][i]
    }

    fn fielddesc(_i: usize) -> &'static str {
        ""
    }

    fn fieldtype(_i: usize) -> BitFragmentFieldType {
        BitFragmentFieldType::Pattern
    }

    fn field_offset(_field_i: usize, _arr_i: usize) -> [isize; 1] {
        [0]
    }

    fn field_mirror(_field_i: usize, _arr_i: usize) -> [bool; 1] {
        [false]
    }

    fn field_bits(field_i: usize) -> usize {
        [2, 1][field_i]
    }

    fn field_bit_base_pos(_field_i: usize, _bit_i: usize) -> [isize; 1] {
        [0]
    }
}

#[test]
fn basic_bitfragment_encode() {
    let mut out = [false; 3];

    let x = MyStruct1 {
        field_enum: MyEnum::Choice2,
        field_bool: false,
    };
    x.encode(&mut out[..], [0], [false], ());
    assert_eq!(out, [false, false, true]);

    let x = MyStruct1 {
        field_enum: MyEnum::Choice3,
        field_bool: true,
    };
    x.encode(&mut out[..], [0], [false], ());
    assert_eq!(out, [true, true, false]);
}
