use xc2bit::bitpattern::{docs_as_ascii_table, BitPattern};

#[test]
fn bool_bitpattern_encode() {
    let x = true;
    assert_eq!(BitPattern::<()>::encode(&x), [true]);

    let x = false;
    assert_eq!(BitPattern::<()>::encode(&x), [false]);
}

#[test]
fn bool_bitpattern_decode() {
    let x = [true];
    assert_eq!(<bool as BitPattern<()>>::decode(&x).unwrap(), true);

    let x = [false];
    assert_eq!(<bool as BitPattern<()>>::decode(&x).unwrap(), false);
}

#[test]
fn bool_bitpattern_docs() {
    let reference = r#"x |       |
--+-------+------
0 | false | false
1 | true  | true
"#;

    assert_eq!(reference, docs_as_ascii_table::<(), bool>());
}
