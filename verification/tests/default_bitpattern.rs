use xc2bit::bitpattern::{docs_as_ascii_table, pattern_decode_or_default, pattern_encode, BitPattern};
use xc2bit::text::digit_str;

#[derive(Copy, Clone, Debug, PartialEq, Eq)]
enum MyEnum {
    Choice1,
    ChoiceTwo,
    Choice3,
}

const VALUES: [MyEnum; 3] = [MyEnum::Choice1, MyEnum::ChoiceTwo, MyEnum::Choice3];
const PATTERNS: [&str; 3] = ["00", "01", "10"];
const NAMES: [&str; 3] = ["Choice1", "ChoiceTwo", "Choice3"];
const DOCS: [&str; 3] = ["docstring1", "", "docstring2 docstring3"];

impl BitPattern<()> for MyEnum {
    type ErrType = ();

    fn bits_count() -> usize {
        2
    }

    fn variant_count() -> usize {
        3
    }

    fn encode(&self) -> Vec<bool> {
        pattern_encode(PATTERNS[*self as usize])
    }

    /// Bits that no pattern accepts decode to the default, `Choice3`.
    fn decode(bits: &[bool]) -> Result<Self, ()> {
        Ok(VALUES[pattern_decode_or_default(&PATTERNS, bits, 2)])
    }

    fn _pos_to_name(pos: usize) -> &'static str {
        digit_str(pos)
    }

    fn _name_to_pos(name: &str) -> usize {
        name.parse().unwrap()
    }

    fn variantname(var: usize) -> &'static str {
        NAMES[var]
    }

    fn variantdesc(var: usize) -> &'static str {
        DOCS[var]
    }

    fn variantbits(var: usize) -> &'static str {
        PATTERNS[var]
    }
}

#[test]
fn default_bitpattern_encode() {
    let x = MyEnum::Choice1;
    assert_eq!(x.encode(), [false, false]);

    let x = MyEnum::ChoiceTwo;
    assert_eq!(x.encode(), [false, true]);

    let x = MyEnum::Choice3;
    assert_eq!(x.encode(), [true, false]);
}

#[test]
fn default_bitpattern_decode() {
    let x = [false, false];
    assert_eq!(MyEnum::decode(&x).unwrap(), MyEnum::Choice1);

    let x = [false, true];
    assert_eq!(MyEnum::decode(&x).unwrap(), MyEnum::ChoiceTwo);

    let x = [true, false];
    assert_eq!(MyEnum::decode(&x).unwrap(), MyEnum::Choice3);

    let x = [true, true];
    assert_eq!(MyEnum::decode(&x).unwrap(), MyEnum::Choice3);
}

#[test]
fn default_bitpattern_docs() {
    let x = docs_as_ascii_table::<(), MyEnum>();
    assert_eq!(x, r#"01 |           |
---+-----------+----------------------
00 | Choice1   | docstring1
01 | ChoiceTwo | 
10 | Choice3   | docstring2 docstring3
"#);
}
