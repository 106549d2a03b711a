use xc2bit::bitpattern::{docs_as_ascii_table, pattern_decode, pattern_encode, BitPattern};
use xc2bit::text::digit_str;

#[derive(Copy, Clone, Debug, PartialEq, Eq)]
enum MyEnum {
    Choice1,
    ChoiceTwo,
    Choice3,
    ChoiceFour,
}

const VALUES: [MyEnum; 4] = [MyEnum::Choice1, MyEnum::ChoiceTwo, MyEnum::Choice3, MyEnum::ChoiceFour];
const PATTERNS: [&str; 4] = ["00", "01", "10", "11"];
const NAMES: [&str; 4] = ["Choice1", "ChoiceTwo", "Choice3", "ChoiceFour"];
const DOCS: [&str; 4] = ["docstring1", "", "docstring2 docstring3", ""];

fn index_of(v: MyEnum) -> usize {
    VALUES.iter().position(|x| *x == v).unwrap()
}

impl BitPattern<()> for MyEnum {
    type ErrType = ();

    fn bits_count() -> usize {
        2
    }

    fn variant_count() -> usize {
        4
    }

    fn encode(&self) -> Vec<bool> {
        pattern_encode(PATTERNS[index_of(*self)])
    }

    fn decode(bits: &[bool]) -> Result<Self, ()> {
        pattern_decode(&PATTERNS, bits).map(|i| VALUES[i]).ok_or(())
    }

    fn _pos_to_name(pos: usize) -> &'static str {
        digit_str(pos)
    }

    fn _name_to_pos(name: &str) -> usize {
        name.parse().unwrap()
    }

    fn variantname(var: usize) -> &'static str {
        NAMES[var]
    }

    fn variantdesc(var: usize) -> &'static str {
        DOCS[var]
    }

    fn variantbits(var: usize) -> &'static str {
        PATTERNS[var]
    }
}

#[test]
fn basic_bitpattern_encode() {
    let x = MyEnum::Choice1;
    assert_eq!(x.encode(), [false, false]);

    let x = MyEnum::ChoiceTwo;
    assert_eq!(x.encode(), [false, true]);

    let x = MyEnum::Choice3;
    assert_eq!(x.encode(), [true, false]);

    let x = MyEnum::ChoiceFour;
    assert_eq!(x.encode(), [true, true]);
}

#[test]
fn basic_bitpattern_docs() {
    let x = docs_as_ascii_table::<(), MyEnum>();
    assert_eq!(x, r#"01 |            |
---+------------+----------------------
00 | Choice1    | docstring1
01 | ChoiceTwo  | 
10 | Choice3    | docstring2 docstring3
11 | ChoiceFour | 
"#);
}
