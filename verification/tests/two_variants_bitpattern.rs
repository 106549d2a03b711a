use xc2bit::bitpattern::{docs_as_ascii_table, pattern_decode, pattern_encode, BitPattern};
use xc2bit::text::digit_str;

enum Var1 {}
enum Var2 {}

#[derive(Copy, Clone, Debug, PartialEq, Eq)]
enum MyEnum {
    Choice1,
    ChoiceTwo,
    Choice3,
    ChoiceFour,
}

const VALUES: [MyEnum; 4] = [MyEnum::Choice1, MyEnum::ChoiceTwo, MyEnum::Choice3, MyEnum::ChoiceFour];
const NAMES: [&str; 4] = ["Choice1", "ChoiceTwo", "Choice3", "ChoiceFour"];
const DOCS: [&str; 4] = ["docstring1", "", "docstring2 docstring3", ""];
const PATTERNS1: [&str; 4] = ["00", "01", "10", "11"];
const PATTERNS2: [&str; 4] = ["11", "01", "10", "00"];

impl BitPattern<Var1> for MyEnum {
    type ErrType = ();

    fn bits_count() -> usize {
        2
    }

    fn variant_count() -> usize {
        4
    }

    fn encode(&self) -> Vec<bool> {
        pattern_encode(PATTERNS1[*self as usize])
    }

    fn decode(bits: &[bool]) -> Result<Self, ()> {
        pattern_decode(&PATTERNS1, bits).map(|i| VALUES[i]).ok_or(())
    }

    fn _pos_to_name(pos: usize) -> &'static str {
        digit_str(pos)
    }

    fn _name_to_pos(name: &str) -> usize {
        name.parse().unwrap()
    }

    fn variantname(var: usize) -> &'static str {
        NAMES[var]
    }

    fn variantdesc(var: usize) -> &'static str {
        DOCS[var]
    }

    fn variantbits(var: usize) -> &'static str {
        PATTERNS1[var]
    }
}

impl BitPattern<Var2> for MyEnum {
    type ErrType = ();

    fn bits_count() -> usize {
        2
    }

    fn variant_count() -> usize {
        4
    }

    fn encode(&self) -> Vec<bool> {
        pattern_encode(PATTERNS2[*self as usize])
    }

    fn decode(bits: &[bool]) -> Result<Self, ()> {
        pattern_decode(&PATTERNS2, bits).map(|i| VALUES[i]).ok_or(())
    }

    fn _pos_to_name(pos: usize) -> &'static str {
        digit_str(pos)
    }

    fn _name_to_pos(name: &str) -> usize {
        name.parse().unwrap()
    }

    fn variantname(var: usize) -> &'static str {
        NAMES[var]
    }

    fn variantdesc(var: usize) -> &'static str {
        DOCS[var]
    }

    fn variantbits(var: usize) -> &'static str {
        PATTERNS2[var]
    }
}

#[test]
fn two_variants_var1_bitpattern_encode() {
    let x = MyEnum::Choice1;
    assert_eq!(BitPattern::<Var1>::encode(&x), [false, false]);

    let x = MyEnum::ChoiceTwo;
    assert_eq!(BitPattern::<Var1>::encode(&x), [false, true]);

    let x = MyEnum::Choice3;
    assert_eq!(BitPattern::<Var1>::encode(&x), [true, false]);

    let x = MyEnum::ChoiceFour;
    assert_eq!(BitPattern::<Var1>::encode(&x), [true, true]);
}

#[test]
fn two_variants_var1_bitpattern_decode() {
    let x = [false, false];
    assert_eq!(<MyEnum as BitPattern<Var1>>::decode(&x).unwrap(), MyEnum::Choice1);

    let x = [false, true];
    assert_eq!(<MyEnum as BitPattern<Var1>>::decode(&x).unwrap(), MyEnum::ChoiceTwo);

    let x = [true, false];
    assert_eq!(<MyEnum as BitPattern<Var1>>::decode(&x).unwrap(), MyEnum::Choice3);

    let x = [true, true];
    assert_eq!(<MyEnum as BitPattern<Var1>>::decode(&x).unwrap(), MyEnum::ChoiceFour);
}

#[test]
fn two_variants_var1_bitpattern_docs() {
    let x = docs_as_ascii_table::<Var1, MyEnum>();
    assert_eq!(x, r#"01 |            |
---+------------+----------------------
00 | Choice1    | docstring1
01 | ChoiceTwo  | 
10 | Choice3    | docstring2 docstring3
11 | ChoiceFour | 
"#);
}

#[test]
fn two_variants_var2_bitpattern_encode() {
    let x = MyEnum::Choice1;
    assert_eq!(BitPattern::<Var2>::encode(&x), [true, true]);

    let x = MyEnum::ChoiceTwo;
    assert_eq!(BitPattern::<Var2>::encode(&x), [false, true]);

    let x = MyEnum::Choice3;
    assert_eq!(BitPattern::<Var2>::encode(&x), [true, false]);

    let x = MyEnum::ChoiceFour;
    assert_eq!(BitPattern::<Var2>::encode(&x), [false, false]);
}

#[test]
fn two_variants_var2_bitpattern_decode() {
    let x = [true, true];
    assert_eq!(<MyEnum as BitPattern<Var2>>::decode(&x).unwrap(), MyEnum::Choice1);

    let x = [false, true];
    assert_eq!(<MyEnum as BitPattern<Var2>>::decode(&x).unwrap(), MyEnum::ChoiceTwo);

    let x = [true, false];
    assert_eq!(<MyEnum as BitPattern<Var2>>::decode(&x).unwrap(), MyEnum::Choice3);

    let x = [false, false];
    assert_eq!(<MyEnum as BitPattern<Var2>>::decode(&x).unwrap(), MyEnum::ChoiceFour);
}

#[test]
fn two_variants_var2_bitpattern_docs() {
    let x = docs_as_ascii_table::<Var2, MyEnum>();
    assert_eq!(x, r#"01 |            |
---+------------+----------------------
11 | Choice1    | docstring1
01 | ChoiceTwo  | 
10 | Choice3    | docstring2 docstring3
00 | ChoiceFour | 
"#);
}
