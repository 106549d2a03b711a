use xc2bit::bitpattern::{bit_names, docs_as_ascii_table, pattern_decode_or_default, pattern_encode, BitPattern};

const PATTERNS: [&str; 2] = ["0000", "0001"];
const NAMES: [&str; 2] = ["Choice1", "ChoiceTwo"];
const DOCS: [&str; 2] = ["docstring1", ""];

/// The names of the four bits, read from a bit-name string by the library.
fn names_from(spec: &str) -> Vec<&'static str> {
    bit_names(Some(spec), 4)
        .unwrap()
        .into_iter()
        .map(|s| &*Box::leak(s.into_boxed_str()))
        .collect()
}

#[derive(Copy, Clone, Debug, PartialEq, Eq)]
enum MyEnum1 {
    Choice1,
    ChoiceTwo,
}

impl BitPattern<()> for MyEnum1 {
    type ErrType = ();

    fn bits_count() -> usize {
        4
    }

    fn variant_count() -> usize {
        2
    }

    fn encode(&self) -> Vec<bool> {
        pattern_encode(PATTERNS[*self as usize])
    }

    fn decode(bits: &[bool]) -> Result<Self, ()> {
        Ok(match pattern_decode_or_default(&PATTERNS, bits, 0) {
            1 => MyEnum1::ChoiceTwo,
            _ => MyEnum1::Choice1,
        })
    }

    fn _pos_to_name(pos: usize) -> &'static str {
        names_from("ABCD")[pos]
    }

    fn _name_to_pos(name: &str) -> usize {
        names_from("ABCD").iter().position(|n| *n == name).unwrap()
    }

    fn variantname(var: usize) -> &'static str {
        NAMES[var]
    }

    fn variantdesc(var: usize) -> &'static str {
        DOCS[var]
    }

    fn variantbits(var: usize) -> &'static str {
        PATTERNS[var]
    }
}

#[test]
fn customname_nospaces_bitpattern_docs() {
    let x = docs_as_ascii_table::<(), MyEnum1>();
    assert_eq!(x, r#"ABCD |           |
-----+-----------+-----------
0000 | Choice1   | docstring1
0001 | ChoiceTwo | 
"#);
}

#[derive(Copy, Clone, Debug, PartialEq, Eq)]
enum MyEnum2 {
    Choice1,
    ChoiceTwo,
}

impl BitPattern<()> for MyEnum2 {
    type ErrType = ();

    fn bits_count() -> usize {
        4
    }

    fn variant_count() -> usize {
        2
    }

    fn encode(&self) -> Vec<bool> {
        pattern_encode(PATTERNS[*self as usize])
    }

    fn decode(bits: &[bool]) -> Result<Self, ()> {
        Ok(match pattern_decode_or_default(&PATTERNS, bits, 0) {
            1 => MyEnum2::ChoiceTwo,
            _ => MyEnum2::Choice1,
        })
    }

    fn _pos_to_name(pos: usize) -> &'static str {
        names_from("A B   C \tD")[pos]
    }

    fn _name_to_pos(name: &str) -> usize {
        names_from("A B   C \tD").iter().position(|n| *n == name).unwrap()
    }

    fn variantname(var: usize) -> &'static str {
        NAMES[var]
    }

    fn variantdesc(var: usize) -> &'static str {
        DOCS[var]
    }

    fn variantbits(var: usize) -> &'static str {
        PATTERNS[var]
    }
}

#[test]
fn customname_spaces_bitpattern_docs() {
    let x = docs_as_ascii_table::<(), MyEnum2>();
    assert_eq!(x, r#"ABCD |           |
-----+-----------+-----------
0000 | Choice1   | docstring1
0001 | ChoiceTwo | 
"#);
}
