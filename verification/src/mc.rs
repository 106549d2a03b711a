//! Macrocells: the register, XOR gate and feedback configuration of each
//! macrocell, and where its bits live in the JED fuse list and in crbit fuse
//! arrays.
use vstd::prelude::*;
use vstd::string::*;

use crate::bitpattern::{
    char_accepts, lemma_first_match_iff, pattern_decode, pattern_encode, spec_first_match, spec_pattern_encode,
    spec_pattern_matches, str_views, BitPattern,
};
use crate::bitfragment::{
    columns_inside, fixed_agree, layout_distinct, lemma_columns_between, lemma_read_after_write, lemma_table_layout_distinct,
    lemma_table_writes, place, positions_distinct,
    slot_index, apply_writes, layout_fits, read_slots, read_slots_from, slot_writes, table_layout, table_layout_vec,
    write_slots, BitFragment, BitFragmentFieldType, BitSlot, Frame,
};
use crate::crbit;
use crate::crbit::{grid_frame, FuseArray};
use crate::pla::line_frame;
use crate::MCS_PER_FB;
use crate::text::{digit_char, digit_name_pos, digit_str, has_text, join, lemma_join_has, lemma_join_step};

verus! {

/// Clock source for the register in a macrocell
#[derive(Copy, Clone, Eq, PartialEq, Hash, Debug, Structural)]
pub enum XC2MCRegClkSrc {
    GCK0,
    GCK1,
    GCK2,
    PTC,
    CTC,
}

/// The pattern strings of `XC2MCRegClkSrc`, in variant order.
pub open spec fn clk_src_patterns() -> Seq<Seq<char>> {
    seq![
        seq!['x', '0', '0'],
        seq!['x', '1', '0'],
        seq!['x', '0', '1'],
        seq!['0', '1', '1'],
        seq!['1', '1', '1'],
    ]
}

/// The variant index of a `XC2MCRegClkSrc`.
pub open spec fn clk_src_index(v: XC2MCRegClkSrc) -> int {
    match v {
        XC2MCRegClkSrc::GCK0 => 0,
        XC2MCRegClkSrc::GCK1 => 1,
        XC2MCRegClkSrc::GCK2 => 2,
        XC2MCRegClkSrc::PTC => 3,
        XC2MCRegClkSrc::CTC => 4,
    }
}

/// The `XC2MCRegClkSrc` with variant index `i`.
pub open spec fn clk_src_at(i: int) -> XC2MCRegClkSrc {
    if i == 0 {
        XC2MCRegClkSrc::GCK0
    } else if i == 1 {
        XC2MCRegClkSrc::GCK1
    } else if i == 2 {
        XC2MCRegClkSrc::GCK2
    } else if i == 3 {
        XC2MCRegClkSrc::PTC
    } else {
        XC2MCRegClkSrc::CTC
    }
}

fn clk_src_at_exec(i: usize) -> (v: XC2MCRegClkSrc)
    ensures
        v == clk_src_at(i as int),
{
    if i == 0 {
        XC2MCRegClkSrc::GCK0
    } else if i == 1 {
        XC2MCRegClkSrc::GCK1
    } else if i == 2 {
        XC2MCRegClkSrc::GCK2
    } else if i == 3 {
        XC2MCRegClkSrc::PTC
    } else {
        XC2MCRegClkSrc::CTC
    }
}

fn clk_src_pattern_strs() -> (v: Vec<&'static str>)
    ensures
        v@.len() == 5,
        str_views(v@) == clk_src_patterns(),
{
    let v = vec!["x00", "x10", "x01", "011", "111"];
    proof {
        reveal_strlit("x00");
        reveal_strlit("x10");
        reveal_strlit("x01");
        reveal_strlit("011");
        reveal_strlit("111");
        assert(v@[0]@ =~= clk_src_patterns()[0]);
        assert(v@[1]@ =~= clk_src_patterns()[1]);
        assert(v@[2]@ =~= clk_src_patterns()[2]);
        assert(v@[3]@ =~= clk_src_patterns()[3]);
        assert(v@[4]@ =~= clk_src_patterns()[4]);
        assert(str_views(v@) =~= clk_src_patterns());
    }
    v
}

/// The name of variant `var` of `XC2MCRegClkSrc`.
pub open spec fn clk_src_variant_name(var: int) -> Seq<char> {
    if var == 0 {
        "GCK0"@
    } else if var == 1 {
        "GCK1"@
    } else if var == 2 {
        "GCK2"@
    } else if var == 3 {
        "PTC"@
    } else {
        "CTC"@
    }
}

/// The documentation of variant `var` of `XC2MCRegClkSrc`.
pub open spec fn clk_src_variant_desc(var: int) -> Seq<char> {
    if var == 0 {
        ""@
    } else if var == 1 {
        ""@
    } else if var == 2 {
        ""@
    } else if var == 3 {
        ""@
    } else {
        ""@
    }
}

impl BitPattern<()> for XC2MCRegClkSrc {
    type ErrType = ();

    open spec fn spec_bits_count() -> nat {
        3
    }

    open spec fn spec_variant_count() -> nat {
        5
    }

    open spec fn spec_encode(&self) -> Seq<bool> {
        spec_pattern_encode(clk_src_patterns()[clk_src_index(*self)])
    }

    open spec fn spec_decode(bits: Seq<bool>) -> Result<XC2MCRegClkSrc, ()> {
        match spec_first_match(clk_src_patterns(), bits) {
            Some(i) => Ok(clk_src_at(i as int)),
            None => Err(()),
        }
    }

    open spec fn spec_bit_name(pos: int) -> Seq<char> {
        seq![digit_char(pos as nat)]
    }

    open spec fn spec_variant_name(var: int) -> Seq<char> {
        clk_src_variant_name(var)
    }

    open spec fn spec_variant_desc(var: int) -> Seq<char> {
        clk_src_variant_desc(var)
    }

    open spec fn spec_variant_bits(var: int) -> Seq<char> {
        clk_src_patterns()[var]
    }

    fn bits_count() -> (n: usize) {
        3
    }

    fn variant_count() -> (n: usize) {
        5
    }

    fn encode(&self) -> (bits: Vec<bool>) {
        let pats = clk_src_pattern_strs();
        let i: usize = match self {
            XC2MCRegClkSrc::GCK0 => 0,
            XC2MCRegClkSrc::GCK1 => 1,
            XC2MCRegClkSrc::GCK2 => 2,
            XC2MCRegClkSrc::PTC => 3,
            XC2MCRegClkSrc::CTC => 4,
        };
        proof {
            assert(pats@[i as int]@ == str_views(pats@)[i as int]);
        }
        pattern_encode(pats[i])
    }

    fn decode(bits: &[bool]) -> (r: Result<XC2MCRegClkSrc, ()>) {
        let pats = clk_src_pattern_strs();
        match pattern_decode(pats.as_slice(), bits) {
            Some(i) => Ok(clk_src_at_exec(i)),
            None => Err(()),
        }
    }

    fn _pos_to_name(pos: usize) -> (name: &'static str) {
        digit_str(pos)
    }

    fn _name_to_pos(name: &str) -> (pos: usize) {
        digit_name_pos(name, 3)
    }

    fn variantname(var: usize) -> (name: &'static str) {
        if var == 0 {
            "GCK0"
        } else if var == 1 {
            "GCK1"
        } else if var == 2 {
            "GCK2"
        } else if var == 3 {
            "PTC"
        } else {
            "CTC"
        }
    }

    fn variantdesc(var: usize) -> (desc: &'static str) {
        if var == 0 {
            ""
        } else if var == 1 {
            ""
        } else if var == 2 {
            ""
        } else if var == 3 {
            ""
        } else {
            ""
        }
    }

    fn variantbits(var: usize) -> (bits: &'static str) {
        let pats = clk_src_pattern_strs();
        proof {
            assert(pats@[var as int]@ == str_views(pats@)[var as int]);
        }
        pats[var]
    }
}

/// Decoding the bits of a `XC2MCRegClkSrc` gives it back.
pub proof fn lemma_clk_src_roundtrip(v: XC2MCRegClkSrc)
    ensures
        <XC2MCRegClkSrc as BitPattern<()>>::spec_decode(v.spec_encode()) == Ok::<XC2MCRegClkSrc, ()>(v),
{
    let pats = clk_src_patterns();
    let bits = v.spec_encode();
    lemma_first_match_iff(pats, bits);
    let i = clk_src_index(v);
    assert(spec_pattern_matches(pats[i], bits));
    assert forall|j: int| 0 <= j < i implies !spec_pattern_matches(#[trigger] pats[j], bits) by {
        assert(!char_accepts(pats[j][0], bits[0]) || !char_accepts(pats[j][1], bits[1]) || !char_accepts(pats[j][2], bits[2]));
    }
}

/// Every group of 3 bits decodes to some `XC2MCRegClkSrc`.
pub proof fn lemma_clk_src_total(bits: Seq<bool>)
    requires
        bits.len() == 3,
    ensures
        spec_first_match(clk_src_patterns(), bits) is Some,
{
    let pats = clk_src_patterns();
    lemma_first_match_iff(pats, bits);
    if !bits[0] && !bits[1] && !bits[2] {
        assert(spec_pattern_matches(pats[0], bits));
    } else if !bits[0] && !bits[1] && bits[2] {
        assert(spec_pattern_matches(pats[2], bits));
    } else if !bits[0] && bits[1] && !bits[2] {
        assert(spec_pattern_matches(pats[1], bits));
    } else if !bits[0] && bits[1] && bits[2] {
        assert(spec_pattern_matches(pats[3], bits));
    } else if bits[0] && !bits[1] && !bits[2] {
        assert(spec_pattern_matches(pats[0], bits));
    } else if bits[0] && !bits[1] && bits[2] {
        assert(spec_pattern_matches(pats[2], bits));
    } else if bits[0] && bits[1] && !bits[2] {
        assert(spec_pattern_matches(pats[1], bits));
    } else if bits[0] && bits[1] && bits[2] {
        assert(spec_pattern_matches(pats[4], bits));
    }
}

/// Each `XC2MCRegClkSrc` encodes as its own bits, first bit first: `GCK0` as 000, `GCK1` as 010,
/// `GCK2` as 001, `PTC` as 011, `CTC` as 111.
pub proof fn lemma_clk_src_bits(v: XC2MCRegClkSrc)
    ensures
        v.spec_encode() == match v {
            XC2MCRegClkSrc::GCK0 => seq![false, false, false],
            XC2MCRegClkSrc::GCK1 => seq![false, true, false],
            XC2MCRegClkSrc::GCK2 => seq![false, false, true],
            XC2MCRegClkSrc::PTC => seq![false, true, true],
            XC2MCRegClkSrc::CTC => seq![true, true, true],
        },
{
    match v {
        XC2MCRegClkSrc::GCK0 => assert(v.spec_encode() =~= seq![false, false, false]),
        XC2MCRegClkSrc::GCK1 => assert(v.spec_encode() =~= seq![false, true, false]),
        XC2MCRegClkSrc::GCK2 => assert(v.spec_encode() =~= seq![false, false, true]),
        XC2MCRegClkSrc::PTC => assert(v.spec_encode() =~= seq![false, true, true]),
        XC2MCRegClkSrc::CTC => assert(v.spec_encode() =~= seq![true, true, true]),
    }
}

/// Which `XC2MCRegClkSrc` each group of 3 bits decodes to, first bit first; the
/// first pattern that matches wins and `x` or `X` matches either bit: `GCK0` for x00, `GCK1` for
/// x10, `GCK2` for x01, `PTC` for 011, `CTC` for 111.
pub proof fn lemma_clk_src_decode(bits: Seq<bool>)
    requires
        bits.len() == 3,
    ensures
        <XC2MCRegClkSrc as BitPattern<()>>::spec_decode(bits) == Ok::<XC2MCRegClkSrc, ()>(
            if !bits[1] && !bits[2] {
                XC2MCRegClkSrc::GCK0
            } else if bits[1] && !bits[2] {
                XC2MCRegClkSrc::GCK1
            } else if !bits[1] && bits[2] {
                XC2MCRegClkSrc::GCK2
            } else if !bits[0] && bits[1] && bits[2] {
                XC2MCRegClkSrc::PTC
            } else {
                XC2MCRegClkSrc::CTC
            },
        ),
{
    let pats = clk_src_patterns();
    lemma_first_match_iff(pats, bits);
    if !bits[0] && !bits[1] && !bits[2] {
        assert(spec_pattern_matches(pats[0], bits));
    } else if !bits[0] && !bits[1] && bits[2] {
        assert(spec_pattern_matches(pats[2], bits));
        assert(!char_accepts(pats[0][2], bits[2]));
        assert(!char_accepts(pats[1][1], bits[1]));
    } else if !bits[0] && bits[1] && !bits[2] {
        assert(spec_pattern_matches(pats[1], bits));
        assert(!char_accepts(pats[0][1], bits[1]));
    } else if !bits[0] && bits[1] && bits[2] {
        assert(spec_pattern_matches(pats[3], bits));
        assert(!char_accepts(pats[0][1], bits[1]));
        assert(!char_accepts(pats[1][2], bits[2]));
        assert(!char_accepts(pats[2][1], bits[1]));
    } else if bits[0] && !bits[1] && !bits[2] {
        assert(spec_pattern_matches(pats[0], bits));
    } else if bits[0] && !bits[1] && bits[2] {
        assert(spec_pattern_matches(pats[2], bits));
        assert(!char_accepts(pats[0][2], bits[2]));
        assert(!char_accepts(pats[1][1], bits[1]));
    } else if bits[0] && bits[1] && !bits[2] {
        assert(spec_pattern_matches(pats[1], bits));
        assert(!char_accepts(pats[0][1], bits[1]));
    } else if bits[0] && bits[1] && bits[2] {
        assert(spec_pattern_matches(pats[4], bits));
        assert(!char_accepts(pats[0][1], bits[1]));
        assert(!char_accepts(pats[1][2], bits[2]));
        assert(!char_accepts(pats[2][1], bits[1]));
        assert(!char_accepts(pats[3][0], bits[0]));
    }
}

/// The variants of `XC2MCRegClkSrc` in declaration order, each with its name, its
/// documentation and the bit pattern it is listed under.
pub proof fn lemma_clk_src_table()
    ensures
        <XC2MCRegClkSrc as BitPattern<()>>::spec_variant_count() == 5,
        <XC2MCRegClkSrc as BitPattern<()>>::spec_bits_count() == 3,
        <XC2MCRegClkSrc as BitPattern<()>>::spec_variant_name(0) == "GCK0"@,
        <XC2MCRegClkSrc as BitPattern<()>>::spec_variant_desc(0) == ""@,
        <XC2MCRegClkSrc as BitPattern<()>>::spec_variant_bits(0) == seq!['x', '0', '0'],
        <XC2MCRegClkSrc as BitPattern<()>>::spec_variant_name(1) == "GCK1"@,
        <XC2MCRegClkSrc as BitPattern<()>>::spec_variant_desc(1) == ""@,
        <XC2MCRegClkSrc as BitPattern<()>>::spec_variant_bits(1) == seq!['x', '1', '0'],
        <XC2MCRegClkSrc as BitPattern<()>>::spec_variant_name(2) == "GCK2"@,
        <XC2MCRegClkSrc as BitPattern<()>>::spec_variant_desc(2) == ""@,
        <XC2MCRegClkSrc as BitPattern<()>>::spec_variant_bits(2) == seq!['x', '0', '1'],
        <XC2MCRegClkSrc as BitPattern<()>>::spec_variant_name(3) == "PTC"@,
        <XC2MCRegClkSrc as BitPattern<()>>::spec_variant_desc(3) == ""@,
        <XC2MCRegClkSrc as BitPattern<()>>::spec_variant_bits(3) == seq!['0', '1', '1'],
        <XC2MCRegClkSrc as BitPattern<()>>::spec_variant_name(4) == "CTC"@,
        <XC2MCRegClkSrc as BitPattern<()>>::spec_variant_desc(4) == ""@,
        <XC2MCRegClkSrc as BitPattern<()>>::spec_variant_bits(4) == seq!['1', '1', '1'],
{
}

/// Reset source for the register in a macrocell
#[derive(Copy, Clone, Eq, PartialEq, Hash, Debug, Structural)]
pub enum XC2MCRegResetSrc {
    Disabled,
    PTA,
    GSR,
    CTR,
}

/// The pattern strings of `XC2MCRegResetSrc`, in variant order.
pub open spec fn reset_src_patterns() -> Seq<Seq<char>> {
    seq![
        seq!['1', '1'],
        seq!['0', '0'],
        seq!['0', '1'],
        seq!['1', '0'],
    ]
}

/// The variant index of a `XC2MCRegResetSrc`.
pub open spec fn reset_src_index(v: XC2MCRegResetSrc) -> int {
    match v {
        XC2MCRegResetSrc::Disabled => 0,
        XC2MCRegResetSrc::PTA => 1,
        XC2MCRegResetSrc::GSR => 2,
        XC2MCRegResetSrc::CTR => 3,
    }
}

/// The `XC2MCRegResetSrc` with variant index `i`.
pub open spec fn reset_src_at(i: int) -> XC2MCRegResetSrc {
    if i == 0 {
        XC2MCRegResetSrc::Disabled
    } else if i == 1 {
        XC2MCRegResetSrc::PTA
    } else if i == 2 {
        XC2MCRegResetSrc::GSR
    } else {
        XC2MCRegResetSrc::CTR
    }
}

fn reset_src_at_exec(i: usize) -> (v: XC2MCRegResetSrc)
    ensures
        v == reset_src_at(i as int),
{
    if i == 0 {
        XC2MCRegResetSrc::Disabled
    } else if i == 1 {
        XC2MCRegResetSrc::PTA
    } else if i == 2 {
        XC2MCRegResetSrc::GSR
    } else {
        XC2MCRegResetSrc::CTR
    }
}

fn reset_src_pattern_strs() -> (v: Vec<&'static str>)
    ensures
        v@.len() == 4,
        str_views(v@) == reset_src_patterns(),
{
    let v = vec!["11", "00", "01", "10"];
    proof {
        reveal_strlit("11");
        reveal_strlit("00");
        reveal_strlit("01");
        reveal_strlit("10");
        assert(v@[0]@ =~= reset_src_patterns()[0]);
        assert(v@[1]@ =~= reset_src_patterns()[1]);
        assert(v@[2]@ =~= reset_src_patterns()[2]);
        assert(v@[3]@ =~= reset_src_patterns()[3]);
        assert(str_views(v@) =~= reset_src_patterns());
    }
    v
}

/// The name of variant `var` of `XC2MCRegResetSrc`.
pub open spec fn reset_src_variant_name(var: int) -> Seq<char> {
    if var == 0 {
        "Disabled"@
    } else if var == 1 {
        "PTA"@
    } else if var == 2 {
        "GSR"@
    } else {
        "CTR"@
    }
}

/// The documentation of variant `var` of `XC2MCRegResetSrc`.
pub open spec fn reset_src_variant_desc(var: int) -> Seq<char> {
    if var == 0 {
        ""@
    } else if var == 1 {
        ""@
    } else if var == 2 {
        ""@
    } else {
        ""@
    }
}

impl BitPattern<()> for XC2MCRegResetSrc {
    type ErrType = ();

    open spec fn spec_bits_count() -> nat {
        2
    }

    open spec fn spec_variant_count() -> nat {
        4
    }

    open spec fn spec_encode(&self) -> Seq<bool> {
        spec_pattern_encode(reset_src_patterns()[reset_src_index(*self)])
    }

    open spec fn spec_decode(bits: Seq<bool>) -> Result<XC2MCRegResetSrc, ()> {
        match spec_first_match(reset_src_patterns(), bits) {
            Some(i) => Ok(reset_src_at(i as int)),
            None => Err(()),
        }
    }

    open spec fn spec_bit_name(pos: int) -> Seq<char> {
        seq![digit_char(pos as nat)]
    }

    open spec fn spec_variant_name(var: int) -> Seq<char> {
        reset_src_variant_name(var)
    }

    open spec fn spec_variant_desc(var: int) -> Seq<char> {
        reset_src_variant_desc(var)
    }

    open spec fn spec_variant_bits(var: int) -> Seq<char> {
        reset_src_patterns()[var]
    }

    fn bits_count() -> (n: usize) {
        2
    }

    fn variant_count() -> (n: usize) {
        4
    }

    fn encode(&self) -> (bits: Vec<bool>) {
        let pats = reset_src_pattern_strs();
        let i: usize = match self {
            XC2MCRegResetSrc::Disabled => 0,
            XC2MCRegResetSrc::PTA => 1,
            XC2MCRegResetSrc::GSR => 2,
            XC2MCRegResetSrc::CTR => 3,
        };
        proof {
            assert(pats@[i as int]@ == str_views(pats@)[i as int]);
        }
        pattern_encode(pats[i])
    }

    fn decode(bits: &[bool]) -> (r: Result<XC2MCRegResetSrc, ()>) {
        let pats = reset_src_pattern_strs();
        match pattern_decode(pats.as_slice(), bits) {
            Some(i) => Ok(reset_src_at_exec(i)),
            None => Err(()),
        }
    }

    fn _pos_to_name(pos: usize) -> (name: &'static str) {
        digit_str(pos)
    }

    fn _name_to_pos(name: &str) -> (pos: usize) {
        digit_name_pos(name, 2)
    }

    fn variantname(var: usize) -> (name: &'static str) {
        if var == 0 {
            "Disabled"
        } else if var == 1 {
            "PTA"
        } else if var == 2 {
            "GSR"
        } else {
            "CTR"
        }
    }

    fn variantdesc(var: usize) -> (desc: &'static str) {
        if var == 0 {
            ""
        } else if var == 1 {
            ""
        } else if var == 2 {
            ""
        } else {
            ""
        }
    }

    fn variantbits(var: usize) -> (bits: &'static str) {
        let pats = reset_src_pattern_strs();
        proof {
            assert(pats@[var as int]@ == str_views(pats@)[var as int]);
        }
        pats[var]
    }
}

/// Decoding the bits of a `XC2MCRegResetSrc` gives it back.
pub proof fn lemma_reset_src_roundtrip(v: XC2MCRegResetSrc)
    ensures
        <XC2MCRegResetSrc as BitPattern<()>>::spec_decode(v.spec_encode()) == Ok::<XC2MCRegResetSrc, ()>(v),
{
    let pats = reset_src_patterns();
    let bits = v.spec_encode();
    lemma_first_match_iff(pats, bits);
    let i = reset_src_index(v);
    assert(spec_pattern_matches(pats[i], bits));
    assert forall|j: int| 0 <= j < i implies !spec_pattern_matches(#[trigger] pats[j], bits) by {
        assert(!char_accepts(pats[j][0], bits[0]) || !char_accepts(pats[j][1], bits[1]));
    }
}

/// Every group of 2 bits decodes to some `XC2MCRegResetSrc`.
pub proof fn lemma_reset_src_total(bits: Seq<bool>)
    requires
        bits.len() == 2,
    ensures
        spec_first_match(reset_src_patterns(), bits) is Some,
{
    let pats = reset_src_patterns();
    lemma_first_match_iff(pats, bits);
    if !bits[0] && !bits[1] {
        assert(spec_pattern_matches(pats[1], bits));
    } else if !bits[0] && bits[1] {
        assert(spec_pattern_matches(pats[2], bits));
    } else if bits[0] && !bits[1] {
        assert(spec_pattern_matches(pats[3], bits));
    } else if bits[0] && bits[1] {
        assert(spec_pattern_matches(pats[0], bits));
    }
}

/// Each `XC2MCRegResetSrc` encodes as its own bits, first bit first: `Disabled` as 11, `PTA` as 00,
/// `GSR` as 01, `CTR` as 10.
pub proof fn lemma_reset_src_bits(v: XC2MCRegResetSrc)
    ensures
        v.spec_encode() == match v {
            XC2MCRegResetSrc::Disabled => seq![true, true],
            XC2MCRegResetSrc::PTA => seq![false, false],
            XC2MCRegResetSrc::GSR => seq![false, true],
            XC2MCRegResetSrc::CTR => seq![true, false],
        },
{
    match v {
        XC2MCRegResetSrc::Disabled => assert(v.spec_encode() =~= seq![true, true]),
        XC2MCRegResetSrc::PTA => assert(v.spec_encode() =~= seq![false, false]),
        XC2MCRegResetSrc::GSR => assert(v.spec_encode() =~= seq![false, true]),
        XC2MCRegResetSrc::CTR => assert(v.spec_encode() =~= seq![true, false]),
    }
}

/// Which `XC2MCRegResetSrc` each group of 2 bits decodes to, first bit first; the
/// first pattern that matches wins and `x` or `X` matches either bit: `Disabled` for 11, `PTA` for
/// 00, `GSR` for 01, `CTR` for 10.
pub proof fn lemma_reset_src_decode(bits: Seq<bool>)
    requires
        bits.len() == 2,
    ensures
        <XC2MCRegResetSrc as BitPattern<()>>::spec_decode(bits) == Ok::<XC2MCRegResetSrc, ()>(
            if bits[0] && bits[1] {
                XC2MCRegResetSrc::Disabled
            } else if !bits[0] && !bits[1] {
                XC2MCRegResetSrc::PTA
            } else if !bits[0] && bits[1] {
                XC2MCRegResetSrc::GSR
            } else {
                XC2MCRegResetSrc::CTR
            },
        ),
{
    let pats = reset_src_patterns();
    lemma_first_match_iff(pats, bits);
    if !bits[0] && !bits[1] {
        assert(spec_pattern_matches(pats[1], bits));
        assert(!char_accepts(pats[0][0], bits[0]));
    } else if !bits[0] && bits[1] {
        assert(spec_pattern_matches(pats[2], bits));
        assert(!char_accepts(pats[0][0], bits[0]));
        assert(!char_accepts(pats[1][1], bits[1]));
    } else if bits[0] && !bits[1] {
        assert(spec_pattern_matches(pats[3], bits));
        assert(!char_accepts(pats[0][1], bits[1]));
        assert(!char_accepts(pats[1][0], bits[0]));
        assert(!char_accepts(pats[2][0], bits[0]));
    } else if bits[0] && bits[1] {
        assert(spec_pattern_matches(pats[0], bits));
    }
}

/// The variants of `XC2MCRegResetSrc` in declaration order, each with its name, its
/// documentation and the bit pattern it is listed under.
pub proof fn lemma_reset_src_table()
    ensures
        <XC2MCRegResetSrc as BitPattern<()>>::spec_variant_count() == 4,
        <XC2MCRegResetSrc as BitPattern<()>>::spec_bits_count() == 2,
        <XC2MCRegResetSrc as BitPattern<()>>::spec_variant_name(0) == "Disabled"@,
        <XC2MCRegResetSrc as BitPattern<()>>::spec_variant_desc(0) == ""@,
        <XC2MCRegResetSrc as BitPattern<()>>::spec_variant_bits(0) == seq!['1', '1'],
        <XC2MCRegResetSrc as BitPattern<()>>::spec_variant_name(1) == "PTA"@,
        <XC2MCRegResetSrc as BitPattern<()>>::spec_variant_desc(1) == ""@,
        <XC2MCRegResetSrc as BitPattern<()>>::spec_variant_bits(1) == seq!['0', '0'],
        <XC2MCRegResetSrc as BitPattern<()>>::spec_variant_name(2) == "GSR"@,
        <XC2MCRegResetSrc as BitPattern<()>>::spec_variant_desc(2) == ""@,
        <XC2MCRegResetSrc as BitPattern<()>>::spec_variant_bits(2) == seq!['0', '1'],
        <XC2MCRegResetSrc as BitPattern<()>>::spec_variant_name(3) == "CTR"@,
        <XC2MCRegResetSrc as BitPattern<()>>::spec_variant_desc(3) == ""@,
        <XC2MCRegResetSrc as BitPattern<()>>::spec_variant_bits(3) == seq!['1', '0'],
{
}

/// Set source for the register in a macrocell
#[derive(Copy, Clone, Eq, PartialEq, Hash, Debug, Structural)]
pub enum XC2MCRegSetSrc {
    Disabled,
    PTA,
    GSR,
    CTS,
}

/// The pattern strings of `XC2MCRegSetSrc`, in variant order.
pub open spec fn set_src_patterns() -> Seq<Seq<char>> {
    seq![
        seq!['1', '1'],
        seq!['0', '0'],
        seq!['0', '1'],
        seq!['1', '0'],
    ]
}

/// The variant index of a `XC2MCRegSetSrc`.
pub open spec fn set_src_index(v: XC2MCRegSetSrc) -> int {
    match v {
        XC2MCRegSetSrc::Disabled => 0,
        XC2MCRegSetSrc::PTA => 1,
        XC2MCRegSetSrc::GSR => 2,
        XC2MCRegSetSrc::CTS => 3,
    }
}

/// The `XC2MCRegSetSrc` with variant index `i`.
pub open spec fn set_src_at(i: int) -> XC2MCRegSetSrc {
    if i == 0 {
        XC2MCRegSetSrc::Disabled
    } else if i == 1 {
        XC2MCRegSetSrc::PTA
    } else if i == 2 {
        XC2MCRegSetSrc::GSR
    } else {
        XC2MCRegSetSrc::CTS
    }
}

fn set_src_at_exec(i: usize) -> (v: XC2MCRegSetSrc)
    ensures
        v == set_src_at(i as int),
{
    if i == 0 {
        XC2MCRegSetSrc::Disabled
    } else if i == 1 {
        XC2MCRegSetSrc::PTA
    } else if i == 2 {
        XC2MCRegSetSrc::GSR
    } else {
        XC2MCRegSetSrc::CTS
    }
}

fn set_src_pattern_strs() -> (v: Vec<&'static str>)
    ensures
        v@.len() == 4,
        str_views(v@) == set_src_patterns(),
{
    let v = vec!["11", "00", "01", "10"];
    proof {
        reveal_strlit("11");
        reveal_strlit("00");
        reveal_strlit("01");
        reveal_strlit("10");
        assert(v@[0]@ =~= set_src_patterns()[0]);
        assert(v@[1]@ =~= set_src_patterns()[1]);
        assert(v@[2]@ =~= set_src_patterns()[2]);
        assert(v@[3]@ =~= set_src_patterns()[3]);
        assert(str_views(v@) =~= set_src_patterns());
    }
    v
}

/// The name of variant `var` of `XC2MCRegSetSrc`.
pub open spec fn set_src_variant_name(var: int) -> Seq<char> {
    if var == 0 {
        "Disabled"@
    } else if var == 1 {
        "PTA"@
    } else if var == 2 {
        "GSR"@
    } else {
        "CTS"@
    }
}

/// The documentation of variant `var` of `XC2MCRegSetSrc`.
pub open spec fn set_src_variant_desc(var: int) -> Seq<char> {
    if var == 0 {
        ""@
    } else if var == 1 {
        ""@
    } else if var == 2 {
        ""@
    } else {
        ""@
    }
}

impl BitPattern<()> for XC2MCRegSetSrc {
    type ErrType = ();

    open spec fn spec_bits_count() -> nat {
        2
    }

    open spec fn spec_variant_count() -> nat {
        4
    }

    open spec fn spec_encode(&self) -> Seq<bool> {
        spec_pattern_encode(set_src_patterns()[set_src_index(*self)])
    }

    open spec fn spec_decode(bits: Seq<bool>) -> Result<XC2MCRegSetSrc, ()> {
        match spec_first_match(set_src_patterns(), bits) {
            Some(i) => Ok(set_src_at(i as int)),
            None => Err(()),
        }
    }

    open spec fn spec_bit_name(pos: int) -> Seq<char> {
        seq![digit_char(pos as nat)]
    }

    open spec fn spec_variant_name(var: int) -> Seq<char> {
        set_src_variant_name(var)
    }

    open spec fn spec_variant_desc(var: int) -> Seq<char> {
        set_src_variant_desc(var)
    }

    open spec fn spec_variant_bits(var: int) -> Seq<char> {
        set_src_patterns()[var]
    }

    fn bits_count() -> (n: usize) {
        2
    }

    fn variant_count() -> (n: usize) {
        4
    }

    fn encode(&self) -> (bits: Vec<bool>) {
        let pats = set_src_pattern_strs();
        let i: usize = match self {
            XC2MCRegSetSrc::Disabled => 0,
            XC2MCRegSetSrc::PTA => 1,
            XC2MCRegSetSrc::GSR => 2,
            XC2MCRegSetSrc::CTS => 3,
        };
        proof {
            assert(pats@[i as int]@ == str_views(pats@)[i as int]);
        }
        pattern_encode(pats[i])
    }

    fn decode(bits: &[bool]) -> (r: Result<XC2MCRegSetSrc, ()>) {
        let pats = set_src_pattern_strs();
        match pattern_decode(pats.as_slice(), bits) {
            Some(i) => Ok(set_src_at_exec(i)),
            None => Err(()),
        }
    }

    fn _pos_to_name(pos: usize) -> (name: &'static str) {
        digit_str(pos)
    }

    fn _name_to_pos(name: &str) -> (pos: usize) {
        digit_name_pos(name, 2)
    }

    fn variantname(var: usize) -> (name: &'static str) {
        if var == 0 {
            "Disabled"
        } else if var == 1 {
            "PTA"
        } else if var == 2 {
            "GSR"
        } else {
            "CTS"
        }
    }

    fn variantdesc(var: usize) -> (desc: &'static str) {
        if var == 0 {
            ""
        } else if var == 1 {
            ""
        } else if var == 2 {
            ""
        } else {
            ""
        }
    }

    fn variantbits(var: usize) -> (bits: &'static str) {
        let pats = set_src_pattern_strs();
        proof {
            assert(pats@[var as int]@ == str_views(pats@)[var as int]);
        }
        pats[var]
    }
}

/// Decoding the bits of a `XC2MCRegSetSrc` gives it back.
pub proof fn lemma_set_src_roundtrip(v: XC2MCRegSetSrc)
    ensures
        <XC2MCRegSetSrc as BitPattern<()>>::spec_decode(v.spec_encode()) == Ok::<XC2MCRegSetSrc, ()>(v),
{
    let pats = set_src_patterns();
    let bits = v.spec_encode();
    lemma_first_match_iff(pats, bits);
    let i = set_src_index(v);
    assert(spec_pattern_matches(pats[i], bits));
    assert forall|j: int| 0 <= j < i implies !spec_pattern_matches(#[trigger] pats[j], bits) by {
        assert(!char_accepts(pats[j][0], bits[0]) || !char_accepts(pats[j][1], bits[1]));
    }
}

/// Every group of 2 bits decodes to some `XC2MCRegSetSrc`.
pub proof fn lemma_set_src_total(bits: Seq<bool>)
    requires
        bits.len() == 2,
    ensures
        spec_first_match(set_src_patterns(), bits) is Some,
{
    let pats = set_src_patterns();
    lemma_first_match_iff(pats, bits);
    if !bits[0] && !bits[1] {
        assert(spec_pattern_matches(pats[1], bits));
    } else if !bits[0] && bits[1] {
        assert(spec_pattern_matches(pats[2], bits));
    } else if bits[0] && !bits[1] {
        assert(spec_pattern_matches(pats[3], bits));
    } else if bits[0] && bits[1] {
        assert(spec_pattern_matches(pats[0], bits));
    }
}

/// Each `XC2MCRegSetSrc` encodes as its own bits, first bit first: `Disabled` as 11, `PTA` as 00,
/// `GSR` as 01, `CTS` as 10.
pub proof fn lemma_set_src_bits(v: XC2MCRegSetSrc)
    ensures
        v.spec_encode() == match v {
            XC2MCRegSetSrc::Disabled => seq![true, true],
            XC2MCRegSetSrc::PTA => seq![false, false],
            XC2MCRegSetSrc::GSR => seq![false, true],
            XC2MCRegSetSrc::CTS => seq![true, false],
        },
{
    match v {
        XC2MCRegSetSrc::Disabled => assert(v.spec_encode() =~= seq![true, true]),
        XC2MCRegSetSrc::PTA => assert(v.spec_encode() =~= seq![false, false]),
        XC2MCRegSetSrc::GSR => assert(v.spec_encode() =~= seq![false, true]),
        XC2MCRegSetSrc::CTS => assert(v.spec_encode() =~= seq![true, false]),
    }
}

/// Which `XC2MCRegSetSrc` each group of 2 bits decodes to, first bit first; the
/// first pattern that matches wins and `x` or `X` matches either bit: `Disabled` for 11, `PTA` for
/// 00, `GSR` for 01, `CTS` for 10.
pub proof fn lemma_set_src_decode(bits: Seq<bool>)
    requires
        bits.len() == 2,
    ensures
        <XC2MCRegSetSrc as BitPattern<()>>::spec_decode(bits) == Ok::<XC2MCRegSetSrc, ()>(
            if bits[0] && bits[1] {
                XC2MCRegSetSrc::Disabled
            } else if !bits[0] && !bits[1] {
                XC2MCRegSetSrc::PTA
            } else if !bits[0] && bits[1] {
                XC2MCRegSetSrc::GSR
            } else {
                XC2MCRegSetSrc::CTS
            },
        ),
{
    let pats = set_src_patterns();
    lemma_first_match_iff(pats, bits);
    if !bits[0] && !bits[1] {
        assert(spec_pattern_matches(pats[1], bits));
        assert(!char_accepts(pats[0][0], bits[0]));
    } else if !bits[0] && bits[1] {
        assert(spec_pattern_matches(pats[2], bits));
        assert(!char_accepts(pats[0][0], bits[0]));
        assert(!char_accepts(pats[1][1], bits[1]));
    } else if bits[0] && !bits[1] {
        assert(spec_pattern_matches(pats[3], bits));
        assert(!char_accepts(pats[0][1], bits[1]));
        assert(!char_accepts(pats[1][0], bits[0]));
        assert(!char_accepts(pats[2][0], bits[0]));
    } else if bits[0] && bits[1] {
        assert(spec_pattern_matches(pats[0], bits));
    }
}

/// The variants of `XC2MCRegSetSrc` in declaration order, each with its name, its
/// documentation and the bit pattern it is listed under.
pub proof fn lemma_set_src_table()
    ensures
        <XC2MCRegSetSrc as BitPattern<()>>::spec_variant_count() == 4,
        <XC2MCRegSetSrc as BitPattern<()>>::spec_bits_count() == 2,
        <XC2MCRegSetSrc as BitPattern<()>>::spec_variant_name(0) == "Disabled"@,
        <XC2MCRegSetSrc as BitPattern<()>>::spec_variant_desc(0) == ""@,
        <XC2MCRegSetSrc as BitPattern<()>>::spec_variant_bits(0) == seq!['1', '1'],
        <XC2MCRegSetSrc as BitPattern<()>>::spec_variant_name(1) == "PTA"@,
        <XC2MCRegSetSrc as BitPattern<()>>::spec_variant_desc(1) == ""@,
        <XC2MCRegSetSrc as BitPattern<()>>::spec_variant_bits(1) == seq!['0', '0'],
        <XC2MCRegSetSrc as BitPattern<()>>::spec_variant_name(2) == "GSR"@,
        <XC2MCRegSetSrc as BitPattern<()>>::spec_variant_desc(2) == ""@,
        <XC2MCRegSetSrc as BitPattern<()>>::spec_variant_bits(2) == seq!['0', '1'],
        <XC2MCRegSetSrc as BitPattern<()>>::spec_variant_name(3) == "CTS"@,
        <XC2MCRegSetSrc as BitPattern<()>>::spec_variant_desc(3) == ""@,
        <XC2MCRegSetSrc as BitPattern<()>>::spec_variant_bits(3) == seq!['1', '0'],
{
}

/// Mode of the register in a macrocell.
#[derive(Copy, Clone, Eq, PartialEq, Hash, Debug, Structural)]
pub enum XC2MCRegMode {
    /// D-type flip-flop
    DFF,
    /// Transparent latch
    LATCH,
    /// Toggle flip-flop
    TFF,
    /// D-type flip-flop with clock-enable pin
    DFFCE,
}

/// The pattern strings of `XC2MCRegMode`, in variant order.
pub open spec fn reg_mode_patterns() -> Seq<Seq<char>> {
    seq![
        seq!['0', '0'],
        seq!['0', '1'],
        seq!['1', '0'],
        seq!['1', '1'],
    ]
}

/// The variant index of a `XC2MCRegMode`.
pub open spec fn reg_mode_index(v: XC2MCRegMode) -> int {
    match v {
        XC2MCRegMode::DFF => 0,
        XC2MCRegMode::LATCH => 1,
        XC2MCRegMode::TFF => 2,
        XC2MCRegMode::DFFCE => 3,
    }
}

/// The `XC2MCRegMode` with variant index `i`.
pub open spec fn reg_mode_at(i: int) -> XC2MCRegMode {
    if i == 0 {
        XC2MCRegMode::DFF
    } else if i == 1 {
        XC2MCRegMode::LATCH
    } else if i == 2 {
        XC2MCRegMode::TFF
    } else {
        XC2MCRegMode::DFFCE
    }
}

fn reg_mode_at_exec(i: usize) -> (v: XC2MCRegMode)
    ensures
        v == reg_mode_at(i as int),
{
    if i == 0 {
        XC2MCRegMode::DFF
    } else if i == 1 {
        XC2MCRegMode::LATCH
    } else if i == 2 {
        XC2MCRegMode::TFF
    } else {
        XC2MCRegMode::DFFCE
    }
}

fn reg_mode_pattern_strs() -> (v: Vec<&'static str>)
    ensures
        v@.len() == 4,
        str_views(v@) == reg_mode_patterns(),
{
    let v = vec!["00", "01", "10", "11"];
    proof {
        reveal_strlit("00");
        reveal_strlit("01");
        reveal_strlit("10");
        reveal_strlit("11");
        assert(v@[0]@ =~= reg_mode_patterns()[0]);
        assert(v@[1]@ =~= reg_mode_patterns()[1]);
        assert(v@[2]@ =~= reg_mode_patterns()[2]);
        assert(v@[3]@ =~= reg_mode_patterns()[3]);
        assert(str_views(v@) =~= reg_mode_patterns());
    }
    v
}

/// The name of variant `var` of `XC2MCRegMode`.
pub open spec fn reg_mode_variant_name(var: int) -> Seq<char> {
    if var == 0 {
        "DFF"@
    } else if var == 1 {
        "LATCH"@
    } else if var == 2 {
        "TFF"@
    } else {
        "DFFCE"@
    }
}

/// The documentation of variant `var` of `XC2MCRegMode`.
pub open spec fn reg_mode_variant_desc(var: int) -> Seq<char> {
    if var == 0 {
        "D-type flip-flop"@
    } else if var == 1 {
        "Transparent latch"@
    } else if var == 2 {
        "Toggle flip-flop"@
    } else {
        "D-type flip-flop with clock-enable pin"@
    }
}

impl BitPattern<()> for XC2MCRegMode {
    type ErrType = ();

    open spec fn spec_bits_count() -> nat {
        2
    }

    open spec fn spec_variant_count() -> nat {
        4
    }

    open spec fn spec_encode(&self) -> Seq<bool> {
        spec_pattern_encode(reg_mode_patterns()[reg_mode_index(*self)])
    }

    open spec fn spec_decode(bits: Seq<bool>) -> Result<XC2MCRegMode, ()> {
        match spec_first_match(reg_mode_patterns(), bits) {
            Some(i) => Ok(reg_mode_at(i as int)),
            None => Err(()),
        }
    }

    open spec fn spec_bit_name(pos: int) -> Seq<char> {
        seq![digit_char(pos as nat)]
    }

    open spec fn spec_variant_name(var: int) -> Seq<char> {
        reg_mode_variant_name(var)
    }

    open spec fn spec_variant_desc(var: int) -> Seq<char> {
        reg_mode_variant_desc(var)
    }

    open spec fn spec_variant_bits(var: int) -> Seq<char> {
        reg_mode_patterns()[var]
    }

    fn bits_count() -> (n: usize) {
        2
    }

    fn variant_count() -> (n: usize) {
        4
    }

    fn encode(&self) -> (bits: Vec<bool>) {
        let pats = reg_mode_pattern_strs();
        let i: usize = match self {
            XC2MCRegMode::DFF => 0,
            XC2MCRegMode::LATCH => 1,
            XC2MCRegMode::TFF => 2,
            XC2MCRegMode::DFFCE => 3,
        };
        proof {
            assert(pats@[i as int]@ == str_views(pats@)[i as int]);
        }
        pattern_encode(pats[i])
    }

    fn decode(bits: &[bool]) -> (r: Result<XC2MCRegMode, ()>) {
        let pats = reg_mode_pattern_strs();
        match pattern_decode(pats.as_slice(), bits) {
            Some(i) => Ok(reg_mode_at_exec(i)),
            None => Err(()),
        }
    }

    fn _pos_to_name(pos: usize) -> (name: &'static str) {
        digit_str(pos)
    }

    fn _name_to_pos(name: &str) -> (pos: usize) {
        digit_name_pos(name, 2)
    }

    fn variantname(var: usize) -> (name: &'static str) {
        if var == 0 {
            "DFF"
        } else if var == 1 {
            "LATCH"
        } else if var == 2 {
            "TFF"
        } else {
            "DFFCE"
        }
    }

    fn variantdesc(var: usize) -> (desc: &'static str) {
        if var == 0 {
            "D-type flip-flop"
        } else if var == 1 {
            "Transparent latch"
        } else if var == 2 {
            "Toggle flip-flop"
        } else {
            "D-type flip-flop with clock-enable pin"
        }
    }

    fn variantbits(var: usize) -> (bits: &'static str) {
        let pats = reg_mode_pattern_strs();
        proof {
            assert(pats@[var as int]@ == str_views(pats@)[var as int]);
        }
        pats[var]
    }
}

/// Decoding the bits of a `XC2MCRegMode` gives it back.
pub proof fn lemma_reg_mode_roundtrip(v: XC2MCRegMode)
    ensures
        <XC2MCRegMode as BitPattern<()>>::spec_decode(v.spec_encode()) == Ok::<XC2MCRegMode, ()>(v),
{
    let pats = reg_mode_patterns();
    let bits = v.spec_encode();
    lemma_first_match_iff(pats, bits);
    let i = reg_mode_index(v);
    assert(spec_pattern_matches(pats[i], bits));
    assert forall|j: int| 0 <= j < i implies !spec_pattern_matches(#[trigger] pats[j], bits) by {
        assert(!char_accepts(pats[j][0], bits[0]) || !char_accepts(pats[j][1], bits[1]));
    }
}

/// Every group of 2 bits decodes to some `XC2MCRegMode`.
pub proof fn lemma_reg_mode_total(bits: Seq<bool>)
    requires
        bits.len() == 2,
    ensures
        spec_first_match(reg_mode_patterns(), bits) is Some,
{
    let pats = reg_mode_patterns();
    lemma_first_match_iff(pats, bits);
    if !bits[0] && !bits[1] {
        assert(spec_pattern_matches(pats[0], bits));
    } else if !bits[0] && bits[1] {
        assert(spec_pattern_matches(pats[1], bits));
    } else if bits[0] && !bits[1] {
        assert(spec_pattern_matches(pats[2], bits));
    } else if bits[0] && bits[1] {
        assert(spec_pattern_matches(pats[3], bits));
    }
}

/// Each `XC2MCRegMode` encodes as its own bits, first bit first: `DFF` as 00, `LATCH` as 01, `TFF`
/// as 10, `DFFCE` as 11.
pub proof fn lemma_reg_mode_bits(v: XC2MCRegMode)
    ensures
        v.spec_encode() == match v {
            XC2MCRegMode::DFF => seq![false, false],
            XC2MCRegMode::LATCH => seq![false, true],
            XC2MCRegMode::TFF => seq![true, false],
            XC2MCRegMode::DFFCE => seq![true, true],
        },
{
    match v {
        XC2MCRegMode::DFF => assert(v.spec_encode() =~= seq![false, false]),
        XC2MCRegMode::LATCH => assert(v.spec_encode() =~= seq![false, true]),
        XC2MCRegMode::TFF => assert(v.spec_encode() =~= seq![true, false]),
        XC2MCRegMode::DFFCE => assert(v.spec_encode() =~= seq![true, true]),
    }
}

/// Which `XC2MCRegMode` each group of 2 bits decodes to, first bit first; the
/// first pattern that matches wins and `x` or `X` matches either bit: `DFF` for 00, `LATCH` for 01,
/// `TFF` for 10, `DFFCE` for 11.
pub proof fn lemma_reg_mode_decode(bits: Seq<bool>)
    requires
        bits.len() == 2,
    ensures
        <XC2MCRegMode as BitPattern<()>>::spec_decode(bits) == Ok::<XC2MCRegMode, ()>(
            if !bits[0] && !bits[1] {
                XC2MCRegMode::DFF
            } else if !bits[0] && bits[1] {
                XC2MCRegMode::LATCH
            } else if bits[0] && !bits[1] {
                XC2MCRegMode::TFF
            } else {
                XC2MCRegMode::DFFCE
            },
        ),
{
    let pats = reg_mode_patterns();
    lemma_first_match_iff(pats, bits);
    if !bits[0] && !bits[1] {
        assert(spec_pattern_matches(pats[0], bits));
    } else if !bits[0] && bits[1] {
        assert(spec_pattern_matches(pats[1], bits));
        assert(!char_accepts(pats[0][1], bits[1]));
    } else if bits[0] && !bits[1] {
        assert(spec_pattern_matches(pats[2], bits));
        assert(!char_accepts(pats[0][0], bits[0]));
        assert(!char_accepts(pats[1][0], bits[0]));
    } else if bits[0] && bits[1] {
        assert(spec_pattern_matches(pats[3], bits));
        assert(!char_accepts(pats[0][0], bits[0]));
        assert(!char_accepts(pats[1][0], bits[0]));
        assert(!char_accepts(pats[2][1], bits[1]));
    }
}

/// The variants of `XC2MCRegMode` in declaration order, each with its name, its
/// documentation and the bit pattern it is listed under.
pub proof fn lemma_reg_mode_table()
    ensures
        <XC2MCRegMode as BitPattern<()>>::spec_variant_count() == 4,
        <XC2MCRegMode as BitPattern<()>>::spec_bits_count() == 2,
        <XC2MCRegMode as BitPattern<()>>::spec_variant_name(0) == "DFF"@,
        <XC2MCRegMode as BitPattern<()>>::spec_variant_desc(0) == "D-type flip-flop"@,
        <XC2MCRegMode as BitPattern<()>>::spec_variant_bits(0) == seq!['0', '0'],
        <XC2MCRegMode as BitPattern<()>>::spec_variant_name(1) == "LATCH"@,
        <XC2MCRegMode as BitPattern<()>>::spec_variant_desc(1) == "Transparent latch"@,
        <XC2MCRegMode as BitPattern<()>>::spec_variant_bits(1) == seq!['0', '1'],
        <XC2MCRegMode as BitPattern<()>>::spec_variant_name(2) == "TFF"@,
        <XC2MCRegMode as BitPattern<()>>::spec_variant_desc(2) == "Toggle flip-flop"@,
        <XC2MCRegMode as BitPattern<()>>::spec_variant_bits(2) == seq!['1', '0'],
        <XC2MCRegMode as BitPattern<()>>::spec_variant_name(3) == "DFFCE"@,
        <XC2MCRegMode as BitPattern<()>>::spec_variant_desc(3) == "D-type flip-flop with clock-enable pin"@,
        <XC2MCRegMode as BitPattern<()>>::spec_variant_bits(3) == seq!['1', '1'],
{
}

/// Mux selection for the ZIA input from this macrocell. The ZIA input can be chosen to come from
/// either the XOR gate
/// or from the output of the register.
#[derive(Copy, Clone, Eq, PartialEq, Hash, Debug, Structural)]
pub enum XC2MCFeedbackMode {
    Disabled,
    COMB,
    REG,
}

/// The pattern strings of `XC2MCFeedbackMode`, in variant order.
pub open spec fn fb_mode_patterns() -> Seq<Seq<char>> {
    seq![
        seq!['X', '1'],
        seq!['0', '0'],
        seq!['1', '0'],
    ]
}

/// The variant index of a `XC2MCFeedbackMode`.
pub open spec fn fb_mode_index(v: XC2MCFeedbackMode) -> int {
    match v {
        XC2MCFeedbackMode::Disabled => 0,
        XC2MCFeedbackMode::COMB => 1,
        XC2MCFeedbackMode::REG => 2,
    }
}

/// The `XC2MCFeedbackMode` with variant index `i`.
pub open spec fn fb_mode_at(i: int) -> XC2MCFeedbackMode {
    if i == 0 {
        XC2MCFeedbackMode::Disabled
    } else if i == 1 {
        XC2MCFeedbackMode::COMB
    } else {
        XC2MCFeedbackMode::REG
    }
}

fn fb_mode_at_exec(i: usize) -> (v: XC2MCFeedbackMode)
    ensures
        v == fb_mode_at(i as int),
{
    if i == 0 {
        XC2MCFeedbackMode::Disabled
    } else if i == 1 {
        XC2MCFeedbackMode::COMB
    } else {
        XC2MCFeedbackMode::REG
    }
}

fn fb_mode_pattern_strs() -> (v: Vec<&'static str>)
    ensures
        v@.len() == 3,
        str_views(v@) == fb_mode_patterns(),
{
    let v = vec!["X1", "00", "10"];
    proof {
        reveal_strlit("X1");
        reveal_strlit("00");
        reveal_strlit("10");
        assert(v@[0]@ =~= fb_mode_patterns()[0]);
        assert(v@[1]@ =~= fb_mode_patterns()[1]);
        assert(v@[2]@ =~= fb_mode_patterns()[2]);
        assert(str_views(v@) =~= fb_mode_patterns());
    }
    v
}

/// The name of variant `var` of `XC2MCFeedbackMode`.
pub open spec fn fb_mode_variant_name(var: int) -> Seq<char> {
    if var == 0 {
        "Disabled"@
    } else if var == 1 {
        "COMB"@
    } else {
        "REG"@
    }
}

/// The documentation of variant `var` of `XC2MCFeedbackMode`.
pub open spec fn fb_mode_variant_desc(var: int) -> Seq<char> {
    if var == 0 {
        ""@
    } else if var == 1 {
        ""@
    } else {
        ""@
    }
}

impl BitPattern<()> for XC2MCFeedbackMode {
    type ErrType = ();

    open spec fn spec_bits_count() -> nat {
        2
    }

    open spec fn spec_variant_count() -> nat {
        3
    }

    open spec fn spec_encode(&self) -> Seq<bool> {
        spec_pattern_encode(fb_mode_patterns()[fb_mode_index(*self)])
    }

    open spec fn spec_decode(bits: Seq<bool>) -> Result<XC2MCFeedbackMode, ()> {
        match spec_first_match(fb_mode_patterns(), bits) {
            Some(i) => Ok(fb_mode_at(i as int)),
            None => Err(()),
        }
    }

    open spec fn spec_bit_name(pos: int) -> Seq<char> {
        seq![digit_char(pos as nat)]
    }

    open spec fn spec_variant_name(var: int) -> Seq<char> {
        fb_mode_variant_name(var)
    }

    open spec fn spec_variant_desc(var: int) -> Seq<char> {
        fb_mode_variant_desc(var)
    }

    open spec fn spec_variant_bits(var: int) -> Seq<char> {
        fb_mode_patterns()[var]
    }

    fn bits_count() -> (n: usize) {
        2
    }

    fn variant_count() -> (n: usize) {
        3
    }

    fn encode(&self) -> (bits: Vec<bool>) {
        let pats = fb_mode_pattern_strs();
        let i: usize = match self {
            XC2MCFeedbackMode::Disabled => 0,
            XC2MCFeedbackMode::COMB => 1,
            XC2MCFeedbackMode::REG => 2,
        };
        proof {
            assert(pats@[i as int]@ == str_views(pats@)[i as int]);
        }
        pattern_encode(pats[i])
    }

    fn decode(bits: &[bool]) -> (r: Result<XC2MCFeedbackMode, ()>) {
        let pats = fb_mode_pattern_strs();
        match pattern_decode(pats.as_slice(), bits) {
            Some(i) => Ok(fb_mode_at_exec(i)),
            None => Err(()),
        }
    }

    fn _pos_to_name(pos: usize) -> (name: &'static str) {
        digit_str(pos)
    }

    fn _name_to_pos(name: &str) -> (pos: usize) {
        digit_name_pos(name, 2)
    }

    fn variantname(var: usize) -> (name: &'static str) {
        if var == 0 {
            "Disabled"
        } else if var == 1 {
            "COMB"
        } else {
            "REG"
        }
    }

    fn variantdesc(var: usize) -> (desc: &'static str) {
        if var == 0 {
            ""
        } else if var == 1 {
            ""
        } else {
            ""
        }
    }

    fn variantbits(var: usize) -> (bits: &'static str) {
        let pats = fb_mode_pattern_strs();
        proof {
            assert(pats@[var as int]@ == str_views(pats@)[var as int]);
        }
        pats[var]
    }
}

/// Decoding the bits of a `XC2MCFeedbackMode` gives it back.
pub proof fn lemma_fb_mode_roundtrip(v: XC2MCFeedbackMode)
    ensures
        <XC2MCFeedbackMode as BitPattern<()>>::spec_decode(v.spec_encode()) == Ok::<XC2MCFeedbackMode, ()>(v),
{
    let pats = fb_mode_patterns();
    let bits = v.spec_encode();
    lemma_first_match_iff(pats, bits);
    let i = fb_mode_index(v);
    assert(spec_pattern_matches(pats[i], bits));
    assert forall|j: int| 0 <= j < i implies !spec_pattern_matches(#[trigger] pats[j], bits) by {
        assert(!char_accepts(pats[j][0], bits[0]) || !char_accepts(pats[j][1], bits[1]));
    }
}

/// Every group of 2 bits decodes to some `XC2MCFeedbackMode`.
pub proof fn lemma_fb_mode_total(bits: Seq<bool>)
    requires
        bits.len() == 2,
    ensures
        spec_first_match(fb_mode_patterns(), bits) is Some,
{
    let pats = fb_mode_patterns();
    lemma_first_match_iff(pats, bits);
    if !bits[0] && !bits[1] {
        assert(spec_pattern_matches(pats[1], bits));
    } else if !bits[0] && bits[1] {
        assert(spec_pattern_matches(pats[0], bits));
    } else if bits[0] && !bits[1] {
        assert(spec_pattern_matches(pats[2], bits));
    } else if bits[0] && bits[1] {
        assert(spec_pattern_matches(pats[0], bits));
    }
}

/// Each `XC2MCFeedbackMode` encodes as its own bits, first bit first: `Disabled` as 11, `COMB` as
/// 00, `REG` as 10.
pub proof fn lemma_fb_mode_bits(v: XC2MCFeedbackMode)
    ensures
        v.spec_encode() == match v {
            XC2MCFeedbackMode::Disabled => seq![true, true],
            XC2MCFeedbackMode::COMB => seq![false, false],
            XC2MCFeedbackMode::REG => seq![true, false],
        },
{
    match v {
        XC2MCFeedbackMode::Disabled => assert(v.spec_encode() =~= seq![true, true]),
        XC2MCFeedbackMode::COMB => assert(v.spec_encode() =~= seq![false, false]),
        XC2MCFeedbackMode::REG => assert(v.spec_encode() =~= seq![true, false]),
    }
}

/// Which `XC2MCFeedbackMode` each group of 2 bits decodes to, first bit first; the
/// first pattern that matches wins and `x` or `X` matches either bit: `Disabled` for X1, `COMB` for
/// 00, `REG` for 10.
pub proof fn lemma_fb_mode_decode(bits: Seq<bool>)
    requires
        bits.len() == 2,
    ensures
        <XC2MCFeedbackMode as BitPattern<()>>::spec_decode(bits) == Ok::<XC2MCFeedbackMode, ()>(
            if bits[1] {
                XC2MCFeedbackMode::Disabled
            } else if !bits[0] && !bits[1] {
                XC2MCFeedbackMode::COMB
            } else {
                XC2MCFeedbackMode::REG
            },
        ),
{
    let pats = fb_mode_patterns();
    lemma_first_match_iff(pats, bits);
    if !bits[0] && !bits[1] {
        assert(spec_pattern_matches(pats[1], bits));
        assert(!char_accepts(pats[0][1], bits[1]));
    } else if !bits[0] && bits[1] {
        assert(spec_pattern_matches(pats[0], bits));
    } else if bits[0] && !bits[1] {
        assert(spec_pattern_matches(pats[2], bits));
        assert(!char_accepts(pats[0][1], bits[1]));
        assert(!char_accepts(pats[1][0], bits[0]));
    } else if bits[0] && bits[1] {
        assert(spec_pattern_matches(pats[0], bits));
    }
}

/// The variants of `XC2MCFeedbackMode` in declaration order, each with its name, its
/// documentation and the bit pattern it is listed under.
pub proof fn lemma_fb_mode_table()
    ensures
        <XC2MCFeedbackMode as BitPattern<()>>::spec_variant_count() == 3,
        <XC2MCFeedbackMode as BitPattern<()>>::spec_bits_count() == 2,
        <XC2MCFeedbackMode as BitPattern<()>>::spec_variant_name(0) == "Disabled"@,
        <XC2MCFeedbackMode as BitPattern<()>>::spec_variant_desc(0) == ""@,
        <XC2MCFeedbackMode as BitPattern<()>>::spec_variant_bits(0) == seq!['X', '1'],
        <XC2MCFeedbackMode as BitPattern<()>>::spec_variant_name(1) == "COMB"@,
        <XC2MCFeedbackMode as BitPattern<()>>::spec_variant_desc(1) == ""@,
        <XC2MCFeedbackMode as BitPattern<()>>::spec_variant_bits(1) == seq!['0', '0'],
        <XC2MCFeedbackMode as BitPattern<()>>::spec_variant_name(2) == "REG"@,
        <XC2MCFeedbackMode as BitPattern<()>>::spec_variant_desc(2) == ""@,
        <XC2MCFeedbackMode as BitPattern<()>>::spec_variant_bits(2) == seq!['1', '0'],
{
}

/// Mux selection for the "not from OR gate" input to the XOR gate. The XOR gate in a macrocell
/// contains two inputs,
/// the output of the corresponding OR term from the PLA and a specific dedicated AND term from the
/// PLA.
#[derive(Copy, Clone, Eq, PartialEq, Hash, Debug, Structural)]
pub enum XC2MCXorMode {
    /// A constant zero which results in this XOR outputting the value of the OR term
    ZERO,
    /// A constant one which results in this XOR outputting the complement of the OR term
    ONE,
    /// XOR the OR term with the special product term C
    PTC,
    /// XNOR the OR term with the special product term C
    PTCB,
}

/// The pattern strings of `XC2MCXorMode`, in variant order.
pub open spec fn xor_mode_patterns() -> Seq<Seq<char>> {
    seq![
        seq!['0', '0'],
        seq!['1', '1'],
        seq!['1', '0'],
        seq!['0', '1'],
    ]
}

/// The variant index of a `XC2MCXorMode`.
pub open spec fn xor_mode_index(v: XC2MCXorMode) -> int {
    match v {
        XC2MCXorMode::ZERO => 0,
        XC2MCXorMode::ONE => 1,
        XC2MCXorMode::PTC => 2,
        XC2MCXorMode::PTCB => 3,
    }
}

/// The `XC2MCXorMode` with variant index `i`.
pub open spec fn xor_mode_at(i: int) -> XC2MCXorMode {
    if i == 0 {
        XC2MCXorMode::ZERO
    } else if i == 1 {
        XC2MCXorMode::ONE
    } else if i == 2 {
        XC2MCXorMode::PTC
    } else {
        XC2MCXorMode::PTCB
    }
}

fn xor_mode_at_exec(i: usize) -> (v: XC2MCXorMode)
    ensures
        v == xor_mode_at(i as int),
{
    if i == 0 {
        XC2MCXorMode::ZERO
    } else if i == 1 {
        XC2MCXorMode::ONE
    } else if i == 2 {
        XC2MCXorMode::PTC
    } else {
        XC2MCXorMode::PTCB
    }
}

fn xor_mode_pattern_strs() -> (v: Vec<&'static str>)
    ensures
        v@.len() == 4,
        str_views(v@) == xor_mode_patterns(),
{
    let v = vec!["00", "11", "10", "01"];
    proof {
        reveal_strlit("00");
        reveal_strlit("11");
        reveal_strlit("10");
        reveal_strlit("01");
        assert(v@[0]@ =~= xor_mode_patterns()[0]);
        assert(v@[1]@ =~= xor_mode_patterns()[1]);
        assert(v@[2]@ =~= xor_mode_patterns()[2]);
        assert(v@[3]@ =~= xor_mode_patterns()[3]);
        assert(str_views(v@) =~= xor_mode_patterns());
    }
    v
}

/// The name of variant `var` of `XC2MCXorMode`.
pub open spec fn xor_mode_variant_name(var: int) -> Seq<char> {
    if var == 0 {
        "ZERO"@
    } else if var == 1 {
        "ONE"@
    } else if var == 2 {
        "PTC"@
    } else {
        "PTCB"@
    }
}

/// The documentation of variant `var` of `XC2MCXorMode`.
pub open spec fn xor_mode_variant_desc(var: int) -> Seq<char> {
    if var == 0 {
        "A constant zero which results in this XOR outputting the value of the OR term"@
    } else if var == 1 {
        "A constant one which results in this XOR outputting the complement of the OR term"@
    } else if var == 2 {
        "XOR the OR term with the special product term C"@
    } else {
        "XNOR the OR term with the special product term C"@
    }
}

impl BitPattern<()> for XC2MCXorMode {
    type ErrType = ();

    open spec fn spec_bits_count() -> nat {
        2
    }

    open spec fn spec_variant_count() -> nat {
        4
    }

    open spec fn spec_encode(&self) -> Seq<bool> {
        spec_pattern_encode(xor_mode_patterns()[xor_mode_index(*self)])
    }

    open spec fn spec_decode(bits: Seq<bool>) -> Result<XC2MCXorMode, ()> {
        match spec_first_match(xor_mode_patterns(), bits) {
            Some(i) => Ok(xor_mode_at(i as int)),
            None => Err(()),
        }
    }

    open spec fn spec_bit_name(pos: int) -> Seq<char> {
        seq![digit_char(pos as nat)]
    }

    open spec fn spec_variant_name(var: int) -> Seq<char> {
        xor_mode_variant_name(var)
    }

    open spec fn spec_variant_desc(var: int) -> Seq<char> {
        xor_mode_variant_desc(var)
    }

    open spec fn spec_variant_bits(var: int) -> Seq<char> {
        xor_mode_patterns()[var]
    }

    fn bits_count() -> (n: usize) {
        2
    }

    fn variant_count() -> (n: usize) {
        4
    }

    fn encode(&self) -> (bits: Vec<bool>) {
        let pats = xor_mode_pattern_strs();
        let i: usize = match self {
            XC2MCXorMode::ZERO => 0,
            XC2MCXorMode::ONE => 1,
            XC2MCXorMode::PTC => 2,
            XC2MCXorMode::PTCB => 3,
        };
        proof {
            assert(pats@[i as int]@ == str_views(pats@)[i as int]);
        }
        pattern_encode(pats[i])
    }

    fn decode(bits: &[bool]) -> (r: Result<XC2MCXorMode, ()>) {
        let pats = xor_mode_pattern_strs();
        match pattern_decode(pats.as_slice(), bits) {
            Some(i) => Ok(xor_mode_at_exec(i)),
            None => Err(()),
        }
    }

    fn _pos_to_name(pos: usize) -> (name: &'static str) {
        digit_str(pos)
    }

    fn _name_to_pos(name: &str) -> (pos: usize) {
        digit_name_pos(name, 2)
    }

    fn variantname(var: usize) -> (name: &'static str) {
        if var == 0 {
            "ZERO"
        } else if var == 1 {
            "ONE"
        } else if var == 2 {
            "PTC"
        } else {
            "PTCB"
        }
    }

    fn variantdesc(var: usize) -> (desc: &'static str) {
        if var == 0 {
            "A constant zero which results in this XOR outputting the value of the OR term"
        } else if var == 1 {
            "A constant one which results in this XOR outputting the complement of the OR term"
        } else if var == 2 {
            "XOR the OR term with the special product term C"
        } else {
            "XNOR the OR term with the special product term C"
        }
    }

    fn variantbits(var: usize) -> (bits: &'static str) {
        let pats = xor_mode_pattern_strs();
        proof {
            assert(pats@[var as int]@ == str_views(pats@)[var as int]);
        }
        pats[var]
    }
}

/// Decoding the bits of a `XC2MCXorMode` gives it back.
pub proof fn lemma_xor_mode_roundtrip(v: XC2MCXorMode)
    ensures
        <XC2MCXorMode as BitPattern<()>>::spec_decode(v.spec_encode()) == Ok::<XC2MCXorMode, ()>(v),
{
    let pats = xor_mode_patterns();
    let bits = v.spec_encode();
    lemma_first_match_iff(pats, bits);
    let i = xor_mode_index(v);
    assert(spec_pattern_matches(pats[i], bits));
    assert forall|j: int| 0 <= j < i implies !spec_pattern_matches(#[trigger] pats[j], bits) by {
        assert(!char_accepts(pats[j][0], bits[0]) || !char_accepts(pats[j][1], bits[1]));
    }
}

/// Every group of 2 bits decodes to some `XC2MCXorMode`.
pub proof fn lemma_xor_mode_total(bits: Seq<bool>)
    requires
        bits.len() == 2,
    ensures
        spec_first_match(xor_mode_patterns(), bits) is Some,
{
    let pats = xor_mode_patterns();
    lemma_first_match_iff(pats, bits);
    if !bits[0] && !bits[1] {
        assert(spec_pattern_matches(pats[0], bits));
    } else if !bits[0] && bits[1] {
        assert(spec_pattern_matches(pats[3], bits));
    } else if bits[0] && !bits[1] {
        assert(spec_pattern_matches(pats[2], bits));
    } else if bits[0] && bits[1] {
        assert(spec_pattern_matches(pats[1], bits));
    }
}

/// Each `XC2MCXorMode` encodes as its own bits, first bit first: `ZERO` as 00, `ONE` as 11, `PTC`
/// as 10, `PTCB` as 01.
pub proof fn lemma_xor_mode_bits(v: XC2MCXorMode)
    ensures
        v.spec_encode() == match v {
            XC2MCXorMode::ZERO => seq![false, false],
            XC2MCXorMode::ONE => seq![true, true],
            XC2MCXorMode::PTC => seq![true, false],
            XC2MCXorMode::PTCB => seq![false, true],
        },
{
    match v {
        XC2MCXorMode::ZERO => assert(v.spec_encode() =~= seq![false, false]),
        XC2MCXorMode::ONE => assert(v.spec_encode() =~= seq![true, true]),
        XC2MCXorMode::PTC => assert(v.spec_encode() =~= seq![true, false]),
        XC2MCXorMode::PTCB => assert(v.spec_encode() =~= seq![false, true]),
    }
}

/// Which `XC2MCXorMode` each group of 2 bits decodes to, first bit first; the
/// first pattern that matches wins and `x` or `X` matches either bit: `ZERO` for 00, `ONE` for 11,
/// `PTC` for 10, `PTCB` for 01.
pub proof fn lemma_xor_mode_decode(bits: Seq<bool>)
    requires
        bits.len() == 2,
    ensures
        <XC2MCXorMode as BitPattern<()>>::spec_decode(bits) == Ok::<XC2MCXorMode, ()>(
            if !bits[0] && !bits[1] {
                XC2MCXorMode::ZERO
            } else if bits[0] && bits[1] {
                XC2MCXorMode::ONE
            } else if bits[0] && !bits[1] {
                XC2MCXorMode::PTC
            } else {
                XC2MCXorMode::PTCB
            },
        ),
{
    let pats = xor_mode_patterns();
    lemma_first_match_iff(pats, bits);
    if !bits[0] && !bits[1] {
        assert(spec_pattern_matches(pats[0], bits));
    } else if !bits[0] && bits[1] {
        assert(spec_pattern_matches(pats[3], bits));
        assert(!char_accepts(pats[0][1], bits[1]));
        assert(!char_accepts(pats[1][0], bits[0]));
        assert(!char_accepts(pats[2][0], bits[0]));
    } else if bits[0] && !bits[1] {
        assert(spec_pattern_matches(pats[2], bits));
        assert(!char_accepts(pats[0][0], bits[0]));
        assert(!char_accepts(pats[1][1], bits[1]));
    } else if bits[0] && bits[1] {
        assert(spec_pattern_matches(pats[1], bits));
        assert(!char_accepts(pats[0][0], bits[0]));
    }
}

/// The variants of `XC2MCXorMode` in declaration order, each with its name, its
/// documentation and the bit pattern it is listed under.
pub proof fn lemma_xor_mode_table()
    ensures
        <XC2MCXorMode as BitPattern<()>>::spec_variant_count() == 4,
        <XC2MCXorMode as BitPattern<()>>::spec_bits_count() == 2,
        <XC2MCXorMode as BitPattern<()>>::spec_variant_name(0) == "ZERO"@,
        <XC2MCXorMode as BitPattern<()>>::spec_variant_desc(0) == "A constant zero which results in this XOR outputting the value of the OR term"@,
        <XC2MCXorMode as BitPattern<()>>::spec_variant_bits(0) == seq!['0', '0'],
        <XC2MCXorMode as BitPattern<()>>::spec_variant_name(1) == "ONE"@,
        <XC2MCXorMode as BitPattern<()>>::spec_variant_desc(1) == "A constant one which results in this XOR outputting the complement of the OR term"@,
        <XC2MCXorMode as BitPattern<()>>::spec_variant_bits(1) == seq!['1', '1'],
        <XC2MCXorMode as BitPattern<()>>::spec_variant_name(2) == "PTC"@,
        <XC2MCXorMode as BitPattern<()>>::spec_variant_desc(2) == "XOR the OR term with the special product term C"@,
        <XC2MCXorMode as BitPattern<()>>::spec_variant_bits(2) == seq!['1', '0'],
        <XC2MCXorMode as BitPattern<()>>::spec_variant_name(3) == "PTCB"@,
        <XC2MCXorMode as BitPattern<()>>::spec_variant_desc(3) == "XNOR the OR term with the special product term C"@,
        <XC2MCXorMode as BitPattern<()>>::spec_variant_bits(3) == seq!['0', '1'],
{
}

/// Selects the JED layout of a macrocell of the 32 and 64 macrocell devices.
pub enum JedSmall {
    Layout,
}

/// Selects the JED layout of a macrocell of the larger devices: buried or
/// not, as the extra data says.
pub enum JedLarge {
    Layout,
}

/// Selects the JED layout of a macrocell of the larger devices that has an IOB.
pub enum JedLargeUnburied {
    Layout,
}

/// Selects the JED layout of a buried macrocell of the larger devices.
pub enum JedLargeBuried {
    Layout,
}

/// Selects the crbit layout of a macrocell of the 32 macrocell devices.
pub enum Crbit32 {
    Layout,
}

/// Selects the crbit layout of a macrocell of the 64 macrocell devices.
pub enum Crbit64 {
    Layout,
}

/// Selects the crbit layout of a macrocell of the 256 macrocell device.
pub enum Crbit256 {
    Layout,
}

/// Selects the crbit layout of a macrocell of the 128, 384 and 512 macrocell devices.
pub enum CrbitLarge {
    Layout,
}

/// Represents a macrocell.
#[derive(Copy, Clone, Eq, PartialEq, Hash, Debug, Structural)]
pub struct XC2Macrocell {
    /// Clock source for the register
    pub clk_src: XC2MCRegClkSrc,
    /// Specifies the clock polarity for the register
    ///
    /// `false` = rising edge triggered flip-flop, transparent-when-high latch
    ///
    /// `true` = falling edge triggered flip-flop, transparent-when-low latch
    pub clk_invert_pol: bool,
    /// Specifies whether flip-flop are triggered on both clock edges
    ///
    /// It is currently unknown what happens when this is used on a transparent latch
    pub is_ddr: bool,
    /// Reset source for the register
    pub r_src: XC2MCRegResetSrc,
    /// Set source for the register
    pub s_src: XC2MCRegSetSrc,
    /// Power-up state of the register
    ///
    /// `false` = init to 0, `true` = init to 1
    pub init_state: bool,
    /// Register mode
    pub reg_mode: XC2MCRegMode,
    /// ZIA input mode for feedback from this macrocell
    pub fb_mode: XC2MCFeedbackMode,
    /// Controls the input for the register
    ///
    /// `false` = use the output of the XOR gate (combinatorial path), `true` = use IOB direct path
    /// (`true` is illegal for buried macrocells in the larger devices)
    pub ff_in_ibuf: bool,
    /// Controls the "other" (not from the OR term) input to the XOR gate
    pub xor_mode: XC2MCXorMode,
}

impl Default for XC2Macrocell {
    /// Returns a "default" macrocell configuration.
    fn default() -> (m: Self)
        ensures
            m == (XC2Macrocell {
                clk_src: XC2MCRegClkSrc::GCK0,
                clk_invert_pol: false,
                is_ddr: false,
                r_src: XC2MCRegResetSrc::Disabled,
                s_src: XC2MCRegSetSrc::Disabled,
                init_state: true,
                reg_mode: XC2MCRegMode::DFF,
                fb_mode: XC2MCFeedbackMode::Disabled,
                ff_in_ibuf: false,
                xor_mode: XC2MCXorMode::ZERO,
            }),
    {
        XC2Macrocell {
            clk_src: XC2MCRegClkSrc::GCK0,
            clk_invert_pol: false,
            is_ddr: false,
            r_src: XC2MCRegResetSrc::Disabled,
            s_src: XC2MCRegSetSrc::Disabled,
            init_state: true,
            reg_mode: XC2MCRegMode::DFF,
            fb_mode: XC2MCFeedbackMode::Disabled,
            ff_in_ibuf: false,
            xor_mode: XC2MCXorMode::ZERO,
        }
    }
}

/// The 17 bits of a macrocell configuration in storage order, field by field.
pub open spec fn mc_bits(m: XC2Macrocell) -> Seq<bool> {
    m.clk_src.spec_encode() + seq![m.clk_invert_pol, m.is_ddr] + m.r_src.spec_encode() + m.s_src.spec_encode()
        + seq![m.init_state] + m.reg_mode.spec_encode() + m.fb_mode.spec_encode() + seq![m.ff_in_ibuf]
        + m.xor_mode.spec_encode()
}

/// The macrocell configuration whose bits in storage order are `bits`, if
/// every field decodes.
pub open spec fn mc_of(bits: Seq<bool>) -> Result<XC2Macrocell, ()> {
    match (
        <XC2MCRegClkSrc as BitPattern<()>>::spec_decode(bits.subrange(0, 3)),
        <XC2MCRegResetSrc as BitPattern<()>>::spec_decode(bits.subrange(5, 7)),
        <XC2MCRegSetSrc as BitPattern<()>>::spec_decode(bits.subrange(7, 9)),
        <XC2MCRegMode as BitPattern<()>>::spec_decode(bits.subrange(10, 12)),
        <XC2MCFeedbackMode as BitPattern<()>>::spec_decode(bits.subrange(12, 14)),
        <XC2MCXorMode as BitPattern<()>>::spec_decode(bits.subrange(15, 17)),
    ) {
        (Ok(c), Ok(r), Ok(s), Ok(g), Ok(f), Ok(x)) => Ok(
            XC2Macrocell {
                clk_src: c,
                clk_invert_pol: bits[3],
                is_ddr: bits[4],
                r_src: r,
                s_src: s,
                init_state: bits[9],
                reg_mode: g,
                fb_mode: f,
                ff_in_ibuf: bits[14],
                xor_mode: x,
            },
        ),
        _ => Err(()),
    }
}

/// The bits of a macrocell configuration decode back to it.
#[verifier::spinoff_prover]
#[verifier::rlimit(40)]
pub proof fn lemma_mc_bits_roundtrip(m: XC2Macrocell)
    ensures
        mc_of(mc_bits(m)) == Ok::<XC2Macrocell, ()>(m),
{
    lemma_clk_src_roundtrip(m.clk_src);
    lemma_reset_src_roundtrip(m.r_src);
    lemma_set_src_roundtrip(m.s_src);
    lemma_reg_mode_roundtrip(m.reg_mode);
    lemma_fb_mode_roundtrip(m.fb_mode);
    lemma_xor_mode_roundtrip(m.xor_mode);
    let b = mc_bits(m);
    assert(b.subrange(0, 3) =~= m.clk_src.spec_encode());
    assert(b.subrange(5, 7) =~= m.r_src.spec_encode());
    assert(b.subrange(7, 9) =~= m.s_src.spec_encode());
    assert(b.subrange(10, 12) =~= m.reg_mode.spec_encode());
    assert(b.subrange(12, 14) =~= m.fb_mode.spec_encode());
    assert(b.subrange(15, 17) =~= m.xor_mode.spec_encode());
}

/// Any 17 bits decode to some macrocell configuration.
pub proof fn lemma_mc_of_total(bits: Seq<bool>)
    requires
        bits.len() == 17,
    ensures
        mc_of(bits) is Ok,
{
    lemma_clk_src_total(bits.subrange(0, 3));
    lemma_reset_src_total(bits.subrange(5, 7));
    lemma_set_src_total(bits.subrange(7, 9));
    lemma_reg_mode_total(bits.subrange(10, 12));
    lemma_fb_mode_total(bits.subrange(12, 14));
    lemma_xor_mode_total(bits.subrange(15, 17));
}

/// The bits `start .. start + n` of `v`.
fn sub_bits(v: &[bool], start: usize, n: usize) -> (r: Vec<bool>)
    requires
        start + n <= v@.len(),
    ensures
        r@ == v@.subrange(start as int, start + n),
{
    let mut r: Vec<bool> = Vec::new();
    let len = v.len();
    let mut i: usize = 0;
    while i < n
        invariant
            len == v@.len(),
            start + n <= v@.len(),
            i <= n,
            r@ == v@.subrange(start as int, start + i),
        decreases n - i,
    {
        r.push(v[start + i]);
        i = i + 1;
        assert(r@ =~= v@.subrange(start as int, start + i));
    }
    r
}

/// Appends the bits `w` to `v`.
fn push_bits(v: &mut Vec<bool>, w: &[bool])
    ensures
        final(v)@ == old(v)@ + w@,
{
    let mut i: usize = 0;
    while i < w.len()
        invariant
            i <= w@.len(),
            v@ == old(v)@ + w@.take(i as int),
        decreases w@.len() - i,
    {
        v.push(w[i]);
        i = i + 1;
        assert(v@ =~= old(v)@ + w@.take(i as int));
    }
    assert(w@.take(w@.len() as int) =~= w@);
}

impl XC2Macrocell {
    #[verifier::rlimit(40)]
    fn to_bits(&self) -> (v: Vec<bool>)
        ensures
            v@ == mc_bits(*self),
    {
        let mut v = self.clk_src.encode();
        v.push(self.clk_invert_pol);
        v.push(self.is_ddr);
        let r = self.r_src.encode();
        push_bits(&mut v, r.as_slice());
        let s = self.s_src.encode();
        push_bits(&mut v, s.as_slice());
        v.push(self.init_state);
        let g = self.reg_mode.encode();
        push_bits(&mut v, g.as_slice());
        let f = self.fb_mode.encode();
        push_bits(&mut v, f.as_slice());
        v.push(self.ff_in_ibuf);
        let x = self.xor_mode.encode();
        push_bits(&mut v, x.as_slice());
        assert(v@ =~= mc_bits(*self));
        v
    }

    fn from_bits(v: &[bool]) -> (r: Result<Self, ()>)
        requires
            v@.len() == 17,
        ensures
            r == mc_of(v@),
    {
        let c = <XC2MCRegClkSrc as BitPattern<()>>::decode(sub_bits(v, 0, 3).as_slice());
        let r = <XC2MCRegResetSrc as BitPattern<()>>::decode(sub_bits(v, 5, 2).as_slice());
        let s = <XC2MCRegSetSrc as BitPattern<()>>::decode(sub_bits(v, 7, 2).as_slice());
        let g = <XC2MCRegMode as BitPattern<()>>::decode(sub_bits(v, 10, 2).as_slice());
        let f = <XC2MCFeedbackMode as BitPattern<()>>::decode(sub_bits(v, 12, 2).as_slice());
        let x = <XC2MCXorMode as BitPattern<()>>::decode(sub_bits(v, 15, 2).as_slice());
        match (c, r, s, g, f, x) {
            (Ok(c), Ok(r), Ok(s), Ok(g), Ok(f), Ok(x)) => Ok(
                XC2Macrocell {
                    clk_src: c,
                    clk_invert_pol: v[3],
                    is_ddr: v[4],
                    r_src: r,
                    s_src: s,
                    init_state: v[9],
                    reg_mode: g,
                    fb_mode: f,
                    ff_in_ibuf: v[14],
                    xor_mode: x,
                },
            ),
            _ => Err(()),
        }
    }
}

/// The name of macrocell field `f`.
pub open spec fn mc_field_name(f: int) -> Seq<char> {
    if f == 0 {
        "clk_src"@
    } else if f == 1 {
        "clk_invert_pol"@
    } else if f == 2 {
        "is_ddr"@
    } else if f == 3 {
        "r_src"@
    } else if f == 4 {
        "s_src"@
    } else if f == 5 {
        "init_state"@
    } else if f == 6 {
        "reg_mode"@
    } else if f == 7 {
        "fb_mode"@
    } else if f == 8 {
        "ff_in_ibuf"@
    } else {
        "xor_mode"@
    }
}

/// The documentation of macrocell field `f`.
pub open spec fn mc_field_desc(f: int) -> Seq<char> {
    if f == 0 {
        "Clock source for the register"@
    } else if f == 1 {
        "Specifies the clock polarity for the register"@
    } else if f == 2 {
        "Specifies whether flip-flop are triggered on both clock edges"@
    } else if f == 3 {
        "Reset source for the register"@
    } else if f == 4 {
        "Set source for the register"@
    } else if f == 5 {
        "Power-up state of the register"@
    } else if f == 6 {
        "Register mode"@
    } else if f == 7 {
        "ZIA input mode for feedback from this macrocell"@
    } else if f == 8 {
        "Controls the input for the register"@
    } else {
        "Controls the \"not from OR gate\" input to the XOR gate"@
    }
}

/// The number of bits of macrocell field `f`.
pub open spec fn mc_field_bits(f: int) -> nat {
    if f == 0 {
        3
    } else if f == 1 {
        1
    } else if f == 2 {
        1
    } else if f == 3 {
        2
    } else if f == 4 {
        2
    } else if f == 5 {
        1
    } else if f == 6 {
        2
    } else if f == 7 {
        2
    } else if f == 8 {
        1
    } else {
        2
    }
}

/// The position of the first bit of macrocell field `f` among its 17 bits.
pub open spec fn mc_first_bit(f: int) -> int {
    if f == 0 {
        0
    } else if f == 1 {
        3
    } else if f == 2 {
        4
    } else if f == 3 {
        5
    } else if f == 4 {
        7
    } else if f == 5 {
        9
    } else if f == 6 {
        10
    } else if f == 7 {
        12
    } else if f == 8 {
        14
    } else {
        15
    }
}

/// The ten fields of a macrocell in declaration order, each with its name,
/// its documentation, its number of bits and where its bits start among the 17.
pub proof fn lemma_mc_field_table()
    ensures
        mc_field_name(0) == "clk_src"@,
        mc_field_desc(0) == "Clock source for the register"@,
        mc_field_bits(0) == 3,
        mc_first_bit(0) == 0,
        mc_field_name(1) == "clk_invert_pol"@,
        mc_field_desc(1) == "Specifies the clock polarity for the register"@,
        mc_field_bits(1) == 1,
        mc_first_bit(1) == 3,
        mc_field_name(2) == "is_ddr"@,
        mc_field_desc(2) == "Specifies whether flip-flop are triggered on both clock edges"@,
        mc_field_bits(2) == 1,
        mc_first_bit(2) == 4,
        mc_field_name(3) == "r_src"@,
        mc_field_desc(3) == "Reset source for the register"@,
        mc_field_bits(3) == 2,
        mc_first_bit(3) == 5,
        mc_field_name(4) == "s_src"@,
        mc_field_desc(4) == "Set source for the register"@,
        mc_field_bits(4) == 2,
        mc_first_bit(4) == 7,
        mc_field_name(5) == "init_state"@,
        mc_field_desc(5) == "Power-up state of the register"@,
        mc_field_bits(5) == 1,
        mc_first_bit(5) == 9,
        mc_field_name(6) == "reg_mode"@,
        mc_field_desc(6) == "Register mode"@,
        mc_field_bits(6) == 2,
        mc_first_bit(6) == 10,
        mc_field_name(7) == "fb_mode"@,
        mc_field_desc(7) == "ZIA input mode for feedback from this macrocell"@,
        mc_field_bits(7) == 2,
        mc_first_bit(7) == 12,
        mc_field_name(8) == "ff_in_ibuf"@,
        mc_field_desc(8) == "Controls the input for the register"@,
        mc_field_bits(8) == 1,
        mc_first_bit(8) == 14,
        mc_field_name(9) == "xor_mode"@,
        mc_field_desc(9) == "Controls the \"not from OR gate\" input to the XOR gate"@,
        mc_field_bits(9) == 2,
        mc_first_bit(9) == 15,
{
}

fn mc_field_name_exec(f: usize) -> (s: &'static str)
    ensures
        s@ == mc_field_name(f as int),
{
    if f == 0 {
        "clk_src"
    } else if f == 1 {
        "clk_invert_pol"
    } else if f == 2 {
        "is_ddr"
    } else if f == 3 {
        "r_src"
    } else if f == 4 {
        "s_src"
    } else if f == 5 {
        "init_state"
    } else if f == 6 {
        "reg_mode"
    } else if f == 7 {
        "fb_mode"
    } else if f == 8 {
        "ff_in_ibuf"
    } else {
        "xor_mode"
    }
}

fn mc_field_desc_exec(f: usize) -> (s: &'static str)
    ensures
        s@ == mc_field_desc(f as int),
{
    if f == 0 {
        "Clock source for the register"
    } else if f == 1 {
        "Specifies the clock polarity for the register"
    } else if f == 2 {
        "Specifies whether flip-flop are triggered on both clock edges"
    } else if f == 3 {
        "Reset source for the register"
    } else if f == 4 {
        "Set source for the register"
    } else if f == 5 {
        "Power-up state of the register"
    } else if f == 6 {
        "Register mode"
    } else if f == 7 {
        "ZIA input mode for feedback from this macrocell"
    } else if f == 8 {
        "Controls the input for the register"
    } else {
        "Controls the \"not from OR gate\" input to the XOR gate"
    }
}

fn mc_field_bits_exec(f: usize) -> (n: usize)
    ensures
        n == mc_field_bits(f as int),
{
    if f == 0 {
        3
    } else if f == 1 {
        1
    } else if f == 2 {
        1
    } else if f == 3 {
        2
    } else if f == 4 {
        2
    } else if f == 5 {
        1
    } else if f == 6 {
        2
    } else if f == 7 {
        2
    } else if f == 8 {
        1
    } else {
        2
    }
}

fn mc_first_bit_exec(f: usize) -> (k: usize)
    ensures
        k == mc_first_bit(f as int),
{
    if f == 0 {
        0
    } else if f == 1 {
        3
    } else if f == 2 {
        4
    } else if f == 3 {
        5
    } else if f == 4 {
        7
    } else if f == 5 {
        9
    } else if f == 6 {
        10
    } else if f == 7 {
        12
    } else if f == 8 {
        14
    } else {
        15
    }
}

/// Which of the 17 macrocell bits are stored inverted: the power-up state
/// and the register input selection.
pub open spec fn mc_inverted() -> Seq<bool> {
    seq![false, false, false, false, false, false, false, false, false, true, false, false, false, false, true, false, false]
}

fn mc_inverted_arr() -> (a: [bool; 17])
    ensures
        a@ == mc_inverted(),
{
    let a = [false, false, false, false, false, false, false, false, false, true, false, false, false, false, true, false, false];
    assert(a@ =~= mc_inverted());
    a
}

/// The 16 stored bits of a buried macrocell: every bit but the register
/// input selection, which is not stored.
pub open spec fn mc_inverted_buried() -> Seq<bool> {
    mc_inverted().remove(14)
}

/// The columns of the stored macrocell bits in the JedSmall layout.
pub open spec fn mc_jed_small_xs() -> Seq<isize> {
    seq![0isize, 2, 3, 1, 4, 5, 6, 7, 8, 26, 9, 10, 13, 14, 15, 17, 18]
}

/// The rows of the stored macrocell bits in the JedSmall layout.
pub open spec fn mc_jed_small_ys() -> Seq<isize> {
    seq![0isize, 0, 0, 0, 0, 0, 0, 0, 0, 0, 0, 0, 0, 0, 0, 0, 0]
}

/// The JedSmall layout of a macrocell.
pub open spec fn mc_jed_small_layout() -> Seq<BitSlot> {
    table_layout(mc_jed_small_xs(), mc_jed_small_ys(), mc_inverted())
}

fn mc_jed_small_tables() -> (t: ([isize; 17], [isize; 17]))
    ensures
        t.0@ == mc_jed_small_xs(),
        t.1@ == mc_jed_small_ys(),
{
    let xs: [isize; 17] = [0, 2, 3, 1, 4, 5, 6, 7, 8, 26, 9, 10, 13, 14, 15, 17, 18];
    let ys: [isize; 17] = [0, 0, 0, 0, 0, 0, 0, 0, 0, 0, 0, 0, 0, 0, 0, 0, 0];
    assert(xs@ =~= mc_jed_small_xs());
    assert(ys@ =~= mc_jed_small_ys());
    (xs, ys)
}

fn mc_jed_small_layout_vec() -> (v: Vec<BitSlot>)
    ensures
        v@ == mc_jed_small_layout(),
{
    let (xs, ys) = mc_jed_small_tables();
    let inv = mc_inverted_arr();
    table_layout_vec(&xs, &ys, &inv)
}

/// The columns of the stored macrocell bits in the JedLargeUnburied layout.
pub open spec fn mc_jed_large_unburied_xs() -> Seq<isize> {
    seq![0isize, 1, 2, 4, 3, 23, 24, 17, 18, 19, 21, 22, 6, 7, 10, 27, 28]
}

/// The rows of the stored macrocell bits in the JedLargeUnburied layout.
pub open spec fn mc_jed_large_unburied_ys() -> Seq<isize> {
    seq![0isize, 0, 0, 0, 0, 0, 0, 0, 0, 0, 0, 0, 0, 0, 0, 0, 0]
}

/// The JedLargeUnburied layout of a macrocell.
pub open spec fn mc_jed_large_unburied_layout() -> Seq<BitSlot> {
    table_layout(mc_jed_large_unburied_xs(), mc_jed_large_unburied_ys(), mc_inverted())
}

fn mc_jed_large_unburied_tables() -> (t: ([isize; 17], [isize; 17]))
    ensures
        t.0@ == mc_jed_large_unburied_xs(),
        t.1@ == mc_jed_large_unburied_ys(),
{
    let xs: [isize; 17] = [0, 1, 2, 4, 3, 23, 24, 17, 18, 19, 21, 22, 6, 7, 10, 27, 28];
    let ys: [isize; 17] = [0, 0, 0, 0, 0, 0, 0, 0, 0, 0, 0, 0, 0, 0, 0, 0, 0];
    assert(xs@ =~= mc_jed_large_unburied_xs());
    assert(ys@ =~= mc_jed_large_unburied_ys());
    (xs, ys)
}

fn mc_jed_large_unburied_layout_vec() -> (v: Vec<BitSlot>)
    ensures
        v@ == mc_jed_large_unburied_layout(),
{
    let (xs, ys) = mc_jed_large_unburied_tables();
    let inv = mc_inverted_arr();
    table_layout_vec(&xs, &ys, &inv)
}

/// The columns of the stored macrocell bits in the JedLargeBuried layout.
pub open spec fn mc_jed_large_buried_xs() -> Seq<isize> {
    seq![0isize, 1, 2, 4, 3, 12, 13, 7, 8, 9, 10, 11, 5, 6, 14, 15]
}

/// The rows of the stored macrocell bits in the JedLargeBuried layout.
pub open spec fn mc_jed_large_buried_ys() -> Seq<isize> {
    seq![0isize, 0, 0, 0, 0, 0, 0, 0, 0, 0, 0, 0, 0, 0, 0, 0]
}

/// The JedLargeBuried layout of a macrocell; the register input selection is not
/// stored and always reads as `false`.
pub open spec fn mc_jed_large_buried_layout() -> Seq<BitSlot> {
    table_layout(mc_jed_large_buried_xs(), mc_jed_large_buried_ys(), mc_inverted_buried()).insert(14, BitSlot::Fixed(false))
}

fn mc_jed_large_buried_tables() -> (t: ([isize; 16], [isize; 16]))
    ensures
        t.0@ == mc_jed_large_buried_xs(),
        t.1@ == mc_jed_large_buried_ys(),
{
    let xs: [isize; 16] = [0, 1, 2, 4, 3, 12, 13, 7, 8, 9, 10, 11, 5, 6, 14, 15];
    let ys: [isize; 16] = [0, 0, 0, 0, 0, 0, 0, 0, 0, 0, 0, 0, 0, 0, 0, 0];
    assert(xs@ =~= mc_jed_large_buried_xs());
    assert(ys@ =~= mc_jed_large_buried_ys());
    (xs, ys)
}

fn mc_jed_large_buried_layout_vec() -> (v: Vec<BitSlot>)
    ensures
        v@ == mc_jed_large_buried_layout(),
{
    let (xs, ys) = mc_jed_large_buried_tables();
    let full = mc_inverted_arr();
    let mut inv: Vec<bool> = Vec::new();
    let mut k: usize = 0;
    while k < 17
        invariant
            k <= 17,
            full@ == mc_inverted(),
            inv@ == (if k <= 14 { full@.take(k as int) } else { full@.take(k as int).remove(14) }),
        decreases 17 - k,
    {
        if k != 14 {
            inv.push(full[k]);
        }
        k = k + 1;
        assert(inv@ =~= (if k <= 14 { full@.take(k as int) } else { full@.take(k as int).remove(14) }));
    }
    assert(full@.take(17) =~= full@);
    let mut v = table_layout_vec(&xs, &ys, inv.as_slice());
    v.insert(14, BitSlot::Fixed(false));
    v
}

/// The columns of the stored macrocell bits in the Crbit32 layout.
pub open spec fn mc_crbit_32_xs() -> Seq<isize> {
    seq![0isize, 2, 3, 1, 4, 5, 6, 7, 8, 8, 0, 1, 4, 5, 6, 8, 0]
}

/// The rows of the stored macrocell bits in the Crbit32 layout.
pub open spec fn mc_crbit_32_ys() -> Seq<isize> {
    seq![0isize, 0, 0, 0, 0, 0, 0, 0, 0, 2, 1, 1, 1, 1, 1, 1, 2]
}

/// The Crbit32 layout of a macrocell.
pub open spec fn mc_crbit_32_layout() -> Seq<BitSlot> {
    table_layout(mc_crbit_32_xs(), mc_crbit_32_ys(), mc_inverted())
}

fn mc_crbit_32_tables() -> (t: ([isize; 17], [isize; 17]))
    ensures
        t.0@ == mc_crbit_32_xs(),
        t.1@ == mc_crbit_32_ys(),
{
    let xs: [isize; 17] = [0, 2, 3, 1, 4, 5, 6, 7, 8, 8, 0, 1, 4, 5, 6, 8, 0];
    let ys: [isize; 17] = [0, 0, 0, 0, 0, 0, 0, 0, 0, 2, 1, 1, 1, 1, 1, 1, 2];
    assert(xs@ =~= mc_crbit_32_xs());
    assert(ys@ =~= mc_crbit_32_ys());
    (xs, ys)
}

fn mc_crbit_32_layout_vec() -> (v: Vec<BitSlot>)
    ensures
        v@ == mc_crbit_32_layout(),
{
    let (xs, ys) = mc_crbit_32_tables();
    let inv = mc_inverted_arr();
    table_layout_vec(&xs, &ys, &inv)
}

/// The columns of the stored macrocell bits in the Crbit64 layout.
pub open spec fn mc_crbit_64_xs() -> Seq<isize> {
    seq![8isize, 5, 6, 7, 4, 2, 3, 0, 1, 0, 7, 8, 3, 4, 2, 7, 8]
}

/// The rows of the stored macrocell bits in the Crbit64 layout.
pub open spec fn mc_crbit_64_ys() -> Seq<isize> {
    seq![0isize, 0, 0, 0, 0, 0, 0, 0, 0, 2, 1, 1, 1, 1, 1, 2, 2]
}

/// The Crbit64 layout of a macrocell.
pub open spec fn mc_crbit_64_layout() -> Seq<BitSlot> {
    table_layout(mc_crbit_64_xs(), mc_crbit_64_ys(), mc_inverted())
}

fn mc_crbit_64_tables() -> (t: ([isize; 17], [isize; 17]))
    ensures
        t.0@ == mc_crbit_64_xs(),
        t.1@ == mc_crbit_64_ys(),
{
    let xs: [isize; 17] = [8, 5, 6, 7, 4, 2, 3, 0, 1, 0, 7, 8, 3, 4, 2, 7, 8];
    let ys: [isize; 17] = [0, 0, 0, 0, 0, 0, 0, 0, 0, 2, 1, 1, 1, 1, 1, 2, 2];
    assert(xs@ =~= mc_crbit_64_xs());
    assert(ys@ =~= mc_crbit_64_ys());
    (xs, ys)
}

fn mc_crbit_64_layout_vec() -> (v: Vec<BitSlot>)
    ensures
        v@ == mc_crbit_64_layout(),
{
    let (xs, ys) = mc_crbit_64_tables();
    let inv = mc_inverted_arr();
    table_layout_vec(&xs, &ys, &inv)
}

/// The columns of the stored macrocell bits in the Crbit256 layout.
pub open spec fn mc_crbit_256_xs() -> Seq<isize> {
    seq![9isize, 7, 8, 5, 6, 4, 5, 1, 2, 0, 6, 7, 2, 3, 9, 0, 1]
}

/// The rows of the stored macrocell bits in the Crbit256 layout.
pub open spec fn mc_crbit_256_ys() -> Seq<isize> {
    seq![0isize, 0, 0, 0, 0, 2, 2, 1, 1, 1, 2, 2, 0, 0, 1, 2, 2]
}

/// The Crbit256 layout of a macrocell.
pub open spec fn mc_crbit_256_layout() -> Seq<BitSlot> {
    table_layout(mc_crbit_256_xs(), mc_crbit_256_ys(), mc_inverted())
}

fn mc_crbit_256_tables() -> (t: ([isize; 17], [isize; 17]))
    ensures
        t.0@ == mc_crbit_256_xs(),
        t.1@ == mc_crbit_256_ys(),
{
    let xs: [isize; 17] = [9, 7, 8, 5, 6, 4, 5, 1, 2, 0, 6, 7, 2, 3, 9, 0, 1];
    let ys: [isize; 17] = [0, 0, 0, 0, 0, 2, 2, 1, 1, 1, 2, 2, 0, 0, 1, 2, 2];
    assert(xs@ =~= mc_crbit_256_xs());
    assert(ys@ =~= mc_crbit_256_ys());
    (xs, ys)
}

fn mc_crbit_256_layout_vec() -> (v: Vec<BitSlot>)
    ensures
        v@ == mc_crbit_256_layout(),
{
    let (xs, ys) = mc_crbit_256_tables();
    let inv = mc_inverted_arr();
    table_layout_vec(&xs, &ys, &inv)
}

/// The columns of the stored macrocell bits in the CrbitLarge layout.
pub open spec fn mc_crbit_large_xs() -> Seq<isize> {
    seq![8isize, 9, 10, 12, 11, 11, 12, 13, 14, 14, 9, 10, 2, 3, 13, 0, 1]
}

/// The rows of the stored macrocell bits in the CrbitLarge layout.
pub open spec fn mc_crbit_large_ys() -> Seq<isize> {
    seq![0isize, 0, 0, 0, 0, 1, 1, 1, 1, 0, 1, 1, 0, 0, 0, 1, 1]
}

/// The CrbitLarge layout of a macrocell.
pub open spec fn mc_crbit_large_layout() -> Seq<BitSlot> {
    table_layout(mc_crbit_large_xs(), mc_crbit_large_ys(), mc_inverted())
}

fn mc_crbit_large_tables() -> (t: ([isize; 17], [isize; 17]))
    ensures
        t.0@ == mc_crbit_large_xs(),
        t.1@ == mc_crbit_large_ys(),
{
    let xs: [isize; 17] = [8, 9, 10, 12, 11, 11, 12, 13, 14, 14, 9, 10, 2, 3, 13, 0, 1];
    let ys: [isize; 17] = [0, 0, 0, 0, 0, 1, 1, 1, 1, 0, 1, 1, 0, 0, 0, 1, 1];
    assert(xs@ =~= mc_crbit_large_xs());
    assert(ys@ =~= mc_crbit_large_ys());
    (xs, ys)
}

fn mc_crbit_large_layout_vec() -> (v: Vec<BitSlot>)
    ensures
        v@ == mc_crbit_large_layout(),
{
    let (xs, ys) = mc_crbit_large_tables();
    let inv = mc_inverted_arr();
    table_layout_vec(&xs, &ys, &inv)
}

/// The one-dimensional position of a slot; a slot that is not stored is
/// reported at the origin.
pub open spec fn slot_pos1(s: BitSlot) -> [isize; 1] {
    match s {
        BitSlot::At { x, y, invert } => [x],
        BitSlot::Fixed(_) => [0],
    }
}

fn slot_pos1_exec(s: BitSlot) -> (p: [isize; 1])
    ensures
        p == slot_pos1(s),
{
    match s {
        BitSlot::At { x, y, invert } => [x],
        BitSlot::Fixed(_) => [0],
    }
}

impl BitFragment<JedSmall> for XC2Macrocell {
    const IDX_DIMS: usize = 1;
    const FIELD_COUNT: usize = 10;

    type Fuses = [bool];
    type OffsettingType = [isize; 1];
    type MirroringType = [bool; 1];
    type ErrType = ();
    type EncodeExtraType = ();
    type DecodeExtraType = ();

    open spec fn spec_encode_fits(fuses: &[bool], offset: [isize; 1], mirror: [bool; 1], extra: ()) -> bool {
        layout_fits(line_frame(offset, mirror), mc_jed_small_layout(), fuses@.len())
    }

    open spec fn spec_decode_fits(fuses: &[bool], offset: [isize; 1], mirror: [bool; 1], extra: ()) -> bool {
        layout_fits(line_frame(offset, mirror), mc_jed_small_layout(), fuses@.len())
    }

    open spec fn spec_decode(fuses: &[bool], offset: [isize; 1], mirror: [bool; 1], extra: ()) -> Result<
        XC2Macrocell,
        (),
    > {
        mc_of(read_slots(fuses@, line_frame(offset, mirror), mc_jed_small_layout()))
    }

    open spec fn spec_field_count() -> nat {
        10
    }

    open spec fn spec_field_name(i: int) -> Seq<char> {
        mc_field_name(i)
    }

    open spec fn spec_field_desc(i: int) -> Seq<char> {
        mc_field_desc(i)
    }

    open spec fn spec_field_type(i: int) -> BitFragmentFieldType {
        BitFragmentFieldType::Pattern
    }

    open spec fn spec_field_elems(field_i: int) -> nat {
        1
    }

    open spec fn spec_field_offset(field_i: int, arr_i: int) -> [isize; 1] {
        [0]
    }

    open spec fn spec_field_mirror(field_i: int, arr_i: int) -> [bool; 1] {
        [false]
    }

    open spec fn spec_field_bits(field_i: int) -> nat {
        mc_field_bits(field_i)
    }

    open spec fn spec_field_bit_base_pos(field_i: int, bit_i: int) -> [isize; 1] {
        if bit_i < mc_field_bits(field_i) {
            slot_pos1(mc_jed_small_layout()[mc_first_bit(field_i) + bit_i])
        } else {
            [0]
        }
    }

    open spec fn spec_encode_result(&self, before: &[bool], after: &[bool], offset: [isize; 1], mirror: [bool; 1], extra: ()) -> bool {
        after@ == apply_writes(before@, slot_writes(line_frame(offset, mirror), mc_jed_small_layout(), mc_bits(*self)))
    }

    fn encode(&self, fuses: &mut [bool], offset: [isize; 1], mirror: [bool; 1], extra_data: ()) {
        let layout = mc_jed_small_layout_vec();
        let bits = self.to_bits();
        write_slots(fuses, layout.as_slice(), bits.as_slice(), Frame::Line { offset: offset[0], mirror: mirror[0] });
    }

    fn decode(fuses: &[bool], offset: [isize; 1], mirror: [bool; 1], extra_data: ()) -> (r: Result<XC2Macrocell, ()>) {
        let layout = mc_jed_small_layout_vec();
        let bits = read_slots_from(fuses, layout.as_slice(), Frame::Line { offset: offset[0], mirror: mirror[0] });
        XC2Macrocell::from_bits(bits.as_slice())
    }

    fn fieldname(i: usize) -> (name: &'static str) {
        mc_field_name_exec(i)
    }

    fn fielddesc(i: usize) -> (desc: &'static str) {
        mc_field_desc_exec(i)
    }

    fn fieldtype(i: usize) -> (t: BitFragmentFieldType) {
        BitFragmentFieldType::Pattern
    }

    fn field_offset(field_i: usize, arr_i: usize) -> (o: [isize; 1]) {
        [0]
    }

    fn field_mirror(field_i: usize, arr_i: usize) -> (m: [bool; 1]) {
        [false]
    }

    fn field_bits(field_i: usize) -> (n: usize) {
        mc_field_bits_exec(field_i)
    }

    fn field_bit_base_pos(field_i: usize, bit_i: usize) -> (p: [isize; 1]) {
        if bit_i < mc_field_bits_exec(field_i) {
            let layout = mc_jed_small_layout_vec();
            slot_pos1_exec(layout[mc_first_bit_exec(field_i) + bit_i])
        } else {
            [0]
        }
    }
}

impl BitFragment<JedLargeUnburied> for XC2Macrocell {
    const IDX_DIMS: usize = 1;
    const FIELD_COUNT: usize = 10;

    type Fuses = [bool];
    type OffsettingType = [isize; 1];
    type MirroringType = [bool; 1];
    type ErrType = ();
    type EncodeExtraType = ();
    type DecodeExtraType = ();

    open spec fn spec_encode_fits(fuses: &[bool], offset: [isize; 1], mirror: [bool; 1], extra: ()) -> bool {
        layout_fits(line_frame(offset, mirror), mc_jed_large_unburied_layout(), fuses@.len())
    }

    open spec fn spec_decode_fits(fuses: &[bool], offset: [isize; 1], mirror: [bool; 1], extra: ()) -> bool {
        layout_fits(line_frame(offset, mirror), mc_jed_large_unburied_layout(), fuses@.len())
    }

    open spec fn spec_decode(fuses: &[bool], offset: [isize; 1], mirror: [bool; 1], extra: ()) -> Result<
        XC2Macrocell,
        (),
    > {
        mc_of(read_slots(fuses@, line_frame(offset, mirror), mc_jed_large_unburied_layout()))
    }

    open spec fn spec_field_count() -> nat {
        10
    }

    open spec fn spec_field_name(i: int) -> Seq<char> {
        mc_field_name(i)
    }

    open spec fn spec_field_desc(i: int) -> Seq<char> {
        mc_field_desc(i)
    }

    open spec fn spec_field_type(i: int) -> BitFragmentFieldType {
        BitFragmentFieldType::Pattern
    }

    open spec fn spec_field_elems(field_i: int) -> nat {
        1
    }

    open spec fn spec_field_offset(field_i: int, arr_i: int) -> [isize; 1] {
        [0]
    }

    open spec fn spec_field_mirror(field_i: int, arr_i: int) -> [bool; 1] {
        [false]
    }

    open spec fn spec_field_bits(field_i: int) -> nat {
        mc_field_bits(field_i)
    }

    open spec fn spec_field_bit_base_pos(field_i: int, bit_i: int) -> [isize; 1] {
        if bit_i < mc_field_bits(field_i) {
            slot_pos1(mc_jed_large_unburied_layout()[mc_first_bit(field_i) + bit_i])
        } else {
            [0]
        }
    }

    open spec fn spec_encode_result(&self, before: &[bool], after: &[bool], offset: [isize; 1], mirror: [bool; 1], extra: ()) -> bool {
        after@ == apply_writes(before@, slot_writes(line_frame(offset, mirror), mc_jed_large_unburied_layout(), mc_bits(*self)))
    }

    fn encode(&self, fuses: &mut [bool], offset: [isize; 1], mirror: [bool; 1], extra_data: ()) {
        let layout = mc_jed_large_unburied_layout_vec();
        let bits = self.to_bits();
        write_slots(fuses, layout.as_slice(), bits.as_slice(), Frame::Line { offset: offset[0], mirror: mirror[0] });
    }

    fn decode(fuses: &[bool], offset: [isize; 1], mirror: [bool; 1], extra_data: ()) -> (r: Result<XC2Macrocell, ()>) {
        let layout = mc_jed_large_unburied_layout_vec();
        let bits = read_slots_from(fuses, layout.as_slice(), Frame::Line { offset: offset[0], mirror: mirror[0] });
        XC2Macrocell::from_bits(bits.as_slice())
    }

    fn fieldname(i: usize) -> (name: &'static str) {
        mc_field_name_exec(i)
    }

    fn fielddesc(i: usize) -> (desc: &'static str) {
        mc_field_desc_exec(i)
    }

    fn fieldtype(i: usize) -> (t: BitFragmentFieldType) {
        BitFragmentFieldType::Pattern
    }

    fn field_offset(field_i: usize, arr_i: usize) -> (o: [isize; 1]) {
        [0]
    }

    fn field_mirror(field_i: usize, arr_i: usize) -> (m: [bool; 1]) {
        [false]
    }

    fn field_bits(field_i: usize) -> (n: usize) {
        mc_field_bits_exec(field_i)
    }

    fn field_bit_base_pos(field_i: usize, bit_i: usize) -> (p: [isize; 1]) {
        if bit_i < mc_field_bits_exec(field_i) {
            let layout = mc_jed_large_unburied_layout_vec();
            slot_pos1_exec(layout[mc_first_bit_exec(field_i) + bit_i])
        } else {
            [0]
        }
    }
}

impl BitFragment<JedLargeBuried> for XC2Macrocell {
    const IDX_DIMS: usize = 1;
    const FIELD_COUNT: usize = 10;

    type Fuses = [bool];
    type OffsettingType = [isize; 1];
    type MirroringType = [bool; 1];
    type ErrType = ();
    type EncodeExtraType = ();
    type DecodeExtraType = ();

    open spec fn spec_encode_fits(fuses: &[bool], offset: [isize; 1], mirror: [bool; 1], extra: ()) -> bool {
        layout_fits(line_frame(offset, mirror), mc_jed_large_buried_layout(), fuses@.len())
    }

    open spec fn spec_decode_fits(fuses: &[bool], offset: [isize; 1], mirror: [bool; 1], extra: ()) -> bool {
        layout_fits(line_frame(offset, mirror), mc_jed_large_buried_layout(), fuses@.len())
    }

    open spec fn spec_decode(fuses: &[bool], offset: [isize; 1], mirror: [bool; 1], extra: ()) -> Result<
        XC2Macrocell,
        (),
    > {
        mc_of(read_slots(fuses@, line_frame(offset, mirror), mc_jed_large_buried_layout()))
    }

    open spec fn spec_field_count() -> nat {
        10
    }

    open spec fn spec_field_name(i: int) -> Seq<char> {
        mc_field_name(i)
    }

    open spec fn spec_field_desc(i: int) -> Seq<char> {
        mc_field_desc(i)
    }

    open spec fn spec_field_type(i: int) -> BitFragmentFieldType {
        BitFragmentFieldType::Pattern
    }

    open spec fn spec_field_elems(field_i: int) -> nat {
        1
    }

    open spec fn spec_field_offset(field_i: int, arr_i: int) -> [isize; 1] {
        [0]
    }

    open spec fn spec_field_mirror(field_i: int, arr_i: int) -> [bool; 1] {
        [false]
    }

    open spec fn spec_field_bits(field_i: int) -> nat {
        mc_field_bits(field_i)
    }

    open spec fn spec_field_bit_base_pos(field_i: int, bit_i: int) -> [isize; 1] {
        if bit_i < mc_field_bits(field_i) {
            slot_pos1(mc_jed_large_buried_layout()[mc_first_bit(field_i) + bit_i])
        } else {
            [0]
        }
    }

    open spec fn spec_encode_result(&self, before: &[bool], after: &[bool], offset: [isize; 1], mirror: [bool; 1], extra: ()) -> bool {
        after@ == apply_writes(before@, slot_writes(line_frame(offset, mirror), mc_jed_large_buried_layout(), mc_bits(*self)))
    }

    fn encode(&self, fuses: &mut [bool], offset: [isize; 1], mirror: [bool; 1], extra_data: ()) {
        let layout = mc_jed_large_buried_layout_vec();
        let bits = self.to_bits();
        write_slots(fuses, layout.as_slice(), bits.as_slice(), Frame::Line { offset: offset[0], mirror: mirror[0] });
    }

    fn decode(fuses: &[bool], offset: [isize; 1], mirror: [bool; 1], extra_data: ()) -> (r: Result<XC2Macrocell, ()>) {
        let layout = mc_jed_large_buried_layout_vec();
        let bits = read_slots_from(fuses, layout.as_slice(), Frame::Line { offset: offset[0], mirror: mirror[0] });
        XC2Macrocell::from_bits(bits.as_slice())
    }

    fn fieldname(i: usize) -> (name: &'static str) {
        mc_field_name_exec(i)
    }

    fn fielddesc(i: usize) -> (desc: &'static str) {
        mc_field_desc_exec(i)
    }

    fn fieldtype(i: usize) -> (t: BitFragmentFieldType) {
        BitFragmentFieldType::Pattern
    }

    fn field_offset(field_i: usize, arr_i: usize) -> (o: [isize; 1]) {
        [0]
    }

    fn field_mirror(field_i: usize, arr_i: usize) -> (m: [bool; 1]) {
        [false]
    }

    fn field_bits(field_i: usize) -> (n: usize) {
        mc_field_bits_exec(field_i)
    }

    fn field_bit_base_pos(field_i: usize, bit_i: usize) -> (p: [isize; 1]) {
        if bit_i < mc_field_bits_exec(field_i) {
            let layout = mc_jed_large_buried_layout_vec();
            slot_pos1_exec(layout[mc_first_bit_exec(field_i) + bit_i])
        } else {
            [0]
        }
    }
}

impl BitFragment<Crbit32> for XC2Macrocell {
    const IDX_DIMS: usize = 2;
    const FIELD_COUNT: usize = 10;

    type Fuses = FuseArray;
    type OffsettingType = [isize; 2];
    type MirroringType = [bool; 2];
    type ErrType = ();
    type EncodeExtraType = ();
    type DecodeExtraType = ();

    open spec fn spec_encode_fits(fuses: &FuseArray, offset: [isize; 2], mirror: [bool; 2], extra: ()) -> bool {
        layout_fits(grid_frame(crbit::width(fuses) as usize, offset, mirror), mc_crbit_32_layout(), crbit::fuses(fuses).len())
    }

    open spec fn spec_decode_fits(fuses: &FuseArray, offset: [isize; 2], mirror: [bool; 2], extra: ()) -> bool {
        layout_fits(grid_frame(crbit::width(fuses) as usize, offset, mirror), mc_crbit_32_layout(), crbit::fuses(fuses).len())
    }

    open spec fn spec_decode(fuses: &FuseArray, offset: [isize; 2], mirror: [bool; 2], extra: ()) -> Result<
        XC2Macrocell,
        (),
    > {
        mc_of(read_slots(crbit::fuses(fuses), grid_frame(crbit::width(fuses) as usize, offset, mirror), mc_crbit_32_layout()))
    }

    open spec fn spec_field_count() -> nat {
        10
    }

    open spec fn spec_field_name(i: int) -> Seq<char> {
        mc_field_name(i)
    }

    open spec fn spec_field_desc(i: int) -> Seq<char> {
        mc_field_desc(i)
    }

    open spec fn spec_field_type(i: int) -> BitFragmentFieldType {
        BitFragmentFieldType::Pattern
    }

    open spec fn spec_field_elems(field_i: int) -> nat {
        1
    }

    open spec fn spec_field_offset(field_i: int, arr_i: int) -> [isize; 2] {
        [0, 0]
    }

    open spec fn spec_field_mirror(field_i: int, arr_i: int) -> [bool; 2] {
        [false, false]
    }

    open spec fn spec_field_bits(field_i: int) -> nat {
        mc_field_bits(field_i)
    }

    open spec fn spec_field_bit_base_pos(field_i: int, bit_i: int) -> [isize; 2] {
        if bit_i < mc_field_bits(field_i) {
            let k = mc_first_bit(field_i) + bit_i;
            [mc_crbit_32_xs()[k], mc_crbit_32_ys()[k]]
        } else {
            [0, 0]
        }
    }

    open spec fn spec_encode_result(&self, before: &FuseArray, after: &FuseArray, offset: [isize; 2], mirror: [bool; 2], extra: ()) -> bool {
        crbit::fuses(after) == apply_writes(crbit::fuses(before), slot_writes(grid_frame(crbit::width(before) as usize, offset, mirror), mc_crbit_32_layout(), mc_bits(*self)))
        && crbit::width(after) == crbit::width(before)
        && crbit::dev_name(after) == crbit::dev_name(before)
    }

    fn encode(&self, fuses: &mut FuseArray, offset: [isize; 2], mirror: [bool; 2], extra_data: ()) {
        let layout = mc_crbit_32_layout_vec();
        let bits = self.to_bits();
        fuses.write_slots(layout.as_slice(), bits.as_slice(), offset, mirror);
    }

    fn decode(fuses: &FuseArray, offset: [isize; 2], mirror: [bool; 2], extra_data: ()) -> (r: Result<XC2Macrocell, ()>) {
        let layout = mc_crbit_32_layout_vec();
        let bits = fuses.read_slots(layout.as_slice(), offset, mirror);
        XC2Macrocell::from_bits(bits.as_slice())
    }

    fn fieldname(i: usize) -> (name: &'static str) {
        mc_field_name_exec(i)
    }

    fn fielddesc(i: usize) -> (desc: &'static str) {
        mc_field_desc_exec(i)
    }

    fn fieldtype(i: usize) -> (t: BitFragmentFieldType) {
        BitFragmentFieldType::Pattern
    }

    fn field_offset(field_i: usize, arr_i: usize) -> (o: [isize; 2]) {
        [0, 0]
    }

    fn field_mirror(field_i: usize, arr_i: usize) -> (m: [bool; 2]) {
        [false, false]
    }

    fn field_bits(field_i: usize) -> (n: usize) {
        mc_field_bits_exec(field_i)
    }

    fn field_bit_base_pos(field_i: usize, bit_i: usize) -> (p: [isize; 2]) {
        if bit_i < mc_field_bits_exec(field_i) {
            let (xs, ys) = mc_crbit_32_tables();
            let k = mc_first_bit_exec(field_i) + bit_i;
            [xs[k], ys[k]]
        } else {
            [0, 0]
        }
    }
}

impl BitFragment<Crbit64> for XC2Macrocell {
    const IDX_DIMS: usize = 2;
    const FIELD_COUNT: usize = 10;

    type Fuses = FuseArray;
    type OffsettingType = [isize; 2];
    type MirroringType = [bool; 2];
    type ErrType = ();
    type EncodeExtraType = ();
    type DecodeExtraType = ();

    open spec fn spec_encode_fits(fuses: &FuseArray, offset: [isize; 2], mirror: [bool; 2], extra: ()) -> bool {
        layout_fits(grid_frame(crbit::width(fuses) as usize, offset, mirror), mc_crbit_64_layout(), crbit::fuses(fuses).len())
    }

    open spec fn spec_decode_fits(fuses: &FuseArray, offset: [isize; 2], mirror: [bool; 2], extra: ()) -> bool {
        layout_fits(grid_frame(crbit::width(fuses) as usize, offset, mirror), mc_crbit_64_layout(), crbit::fuses(fuses).len())
    }

    open spec fn spec_decode(fuses: &FuseArray, offset: [isize; 2], mirror: [bool; 2], extra: ()) -> Result<
        XC2Macrocell,
        (),
    > {
        mc_of(read_slots(crbit::fuses(fuses), grid_frame(crbit::width(fuses) as usize, offset, mirror), mc_crbit_64_layout()))
    }

    open spec fn spec_field_count() -> nat {
        10
    }

    open spec fn spec_field_name(i: int) -> Seq<char> {
        mc_field_name(i)
    }

    open spec fn spec_field_desc(i: int) -> Seq<char> {
        mc_field_desc(i)
    }

    open spec fn spec_field_type(i: int) -> BitFragmentFieldType {
        BitFragmentFieldType::Pattern
    }

    open spec fn spec_field_elems(field_i: int) -> nat {
        1
    }

    open spec fn spec_field_offset(field_i: int, arr_i: int) -> [isize; 2] {
        [0, 0]
    }

    open spec fn spec_field_mirror(field_i: int, arr_i: int) -> [bool; 2] {
        [false, false]
    }

    open spec fn spec_field_bits(field_i: int) -> nat {
        mc_field_bits(field_i)
    }

    open spec fn spec_field_bit_base_pos(field_i: int, bit_i: int) -> [isize; 2] {
        if bit_i < mc_field_bits(field_i) {
            let k = mc_first_bit(field_i) + bit_i;
            [mc_crbit_64_xs()[k], mc_crbit_64_ys()[k]]
        } else {
            [0, 0]
        }
    }

    open spec fn spec_encode_result(&self, before: &FuseArray, after: &FuseArray, offset: [isize; 2], mirror: [bool; 2], extra: ()) -> bool {
        crbit::fuses(after) == apply_writes(crbit::fuses(before), slot_writes(grid_frame(crbit::width(before) as usize, offset, mirror), mc_crbit_64_layout(), mc_bits(*self)))
        && crbit::width(after) == crbit::width(before)
        && crbit::dev_name(after) == crbit::dev_name(before)
    }

    fn encode(&self, fuses: &mut FuseArray, offset: [isize; 2], mirror: [bool; 2], extra_data: ()) {
        let layout = mc_crbit_64_layout_vec();
        let bits = self.to_bits();
        fuses.write_slots(layout.as_slice(), bits.as_slice(), offset, mirror);
    }

    fn decode(fuses: &FuseArray, offset: [isize; 2], mirror: [bool; 2], extra_data: ()) -> (r: Result<XC2Macrocell, ()>) {
        let layout = mc_crbit_64_layout_vec();
        let bits = fuses.read_slots(layout.as_slice(), offset, mirror);
        XC2Macrocell::from_bits(bits.as_slice())
    }

    fn fieldname(i: usize) -> (name: &'static str) {
        mc_field_name_exec(i)
    }

    fn fielddesc(i: usize) -> (desc: &'static str) {
        mc_field_desc_exec(i)
    }

    fn fieldtype(i: usize) -> (t: BitFragmentFieldType) {
        BitFragmentFieldType::Pattern
    }

    fn field_offset(field_i: usize, arr_i: usize) -> (o: [isize; 2]) {
        [0, 0]
    }

    fn field_mirror(field_i: usize, arr_i: usize) -> (m: [bool; 2]) {
        [false, false]
    }

    fn field_bits(field_i: usize) -> (n: usize) {
        mc_field_bits_exec(field_i)
    }

    fn field_bit_base_pos(field_i: usize, bit_i: usize) -> (p: [isize; 2]) {
        if bit_i < mc_field_bits_exec(field_i) {
            let (xs, ys) = mc_crbit_64_tables();
            let k = mc_first_bit_exec(field_i) + bit_i;
            [xs[k], ys[k]]
        } else {
            [0, 0]
        }
    }
}

impl BitFragment<Crbit256> for XC2Macrocell {
    const IDX_DIMS: usize = 2;
    const FIELD_COUNT: usize = 10;

    type Fuses = FuseArray;
    type OffsettingType = [isize; 2];
    type MirroringType = [bool; 2];
    type ErrType = ();
    type EncodeExtraType = ();
    type DecodeExtraType = ();

    open spec fn spec_encode_fits(fuses: &FuseArray, offset: [isize; 2], mirror: [bool; 2], extra: ()) -> bool {
        layout_fits(grid_frame(crbit::width(fuses) as usize, offset, mirror), mc_crbit_256_layout(), crbit::fuses(fuses).len())
    }

    open spec fn spec_decode_fits(fuses: &FuseArray, offset: [isize; 2], mirror: [bool; 2], extra: ()) -> bool {
        layout_fits(grid_frame(crbit::width(fuses) as usize, offset, mirror), mc_crbit_256_layout(), crbit::fuses(fuses).len())
    }

    open spec fn spec_decode(fuses: &FuseArray, offset: [isize; 2], mirror: [bool; 2], extra: ()) -> Result<
        XC2Macrocell,
        (),
    > {
        mc_of(read_slots(crbit::fuses(fuses), grid_frame(crbit::width(fuses) as usize, offset, mirror), mc_crbit_256_layout()))
    }

    open spec fn spec_field_count() -> nat {
        10
    }

    open spec fn spec_field_name(i: int) -> Seq<char> {
        mc_field_name(i)
    }

    open spec fn spec_field_desc(i: int) -> Seq<char> {
        mc_field_desc(i)
    }

    open spec fn spec_field_type(i: int) -> BitFragmentFieldType {
        BitFragmentFieldType::Pattern
    }

    open spec fn spec_field_elems(field_i: int) -> nat {
        1
    }

    open spec fn spec_field_offset(field_i: int, arr_i: int) -> [isize; 2] {
        [0, 0]
    }

    open spec fn spec_field_mirror(field_i: int, arr_i: int) -> [bool; 2] {
        [false, false]
    }

    open spec fn spec_field_bits(field_i: int) -> nat {
        mc_field_bits(field_i)
    }

    open spec fn spec_field_bit_base_pos(field_i: int, bit_i: int) -> [isize; 2] {
        if bit_i < mc_field_bits(field_i) {
            let k = mc_first_bit(field_i) + bit_i;
            [mc_crbit_256_xs()[k], mc_crbit_256_ys()[k]]
        } else {
            [0, 0]
        }
    }

    open spec fn spec_encode_result(&self, before: &FuseArray, after: &FuseArray, offset: [isize; 2], mirror: [bool; 2], extra: ()) -> bool {
        crbit::fuses(after) == apply_writes(crbit::fuses(before), slot_writes(grid_frame(crbit::width(before) as usize, offset, mirror), mc_crbit_256_layout(), mc_bits(*self)))
        && crbit::width(after) == crbit::width(before)
        && crbit::dev_name(after) == crbit::dev_name(before)
    }

    fn encode(&self, fuses: &mut FuseArray, offset: [isize; 2], mirror: [bool; 2], extra_data: ()) {
        let layout = mc_crbit_256_layout_vec();
        let bits = self.to_bits();
        fuses.write_slots(layout.as_slice(), bits.as_slice(), offset, mirror);
    }

    fn decode(fuses: &FuseArray, offset: [isize; 2], mirror: [bool; 2], extra_data: ()) -> (r: Result<XC2Macrocell, ()>) {
        let layout = mc_crbit_256_layout_vec();
        let bits = fuses.read_slots(layout.as_slice(), offset, mirror);
        XC2Macrocell::from_bits(bits.as_slice())
    }

    fn fieldname(i: usize) -> (name: &'static str) {
        mc_field_name_exec(i)
    }

    fn fielddesc(i: usize) -> (desc: &'static str) {
        mc_field_desc_exec(i)
    }

    fn fieldtype(i: usize) -> (t: BitFragmentFieldType) {
        BitFragmentFieldType::Pattern
    }

    fn field_offset(field_i: usize, arr_i: usize) -> (o: [isize; 2]) {
        [0, 0]
    }

    fn field_mirror(field_i: usize, arr_i: usize) -> (m: [bool; 2]) {
        [false, false]
    }

    fn field_bits(field_i: usize) -> (n: usize) {
        mc_field_bits_exec(field_i)
    }

    fn field_bit_base_pos(field_i: usize, bit_i: usize) -> (p: [isize; 2]) {
        if bit_i < mc_field_bits_exec(field_i) {
            let (xs, ys) = mc_crbit_256_tables();
            let k = mc_first_bit_exec(field_i) + bit_i;
            [xs[k], ys[k]]
        } else {
            [0, 0]
        }
    }
}

impl BitFragment<CrbitLarge> for XC2Macrocell {
    const IDX_DIMS: usize = 2;
    const FIELD_COUNT: usize = 10;

    type Fuses = FuseArray;
    type OffsettingType = [isize; 2];
    type MirroringType = [bool; 2];
    type ErrType = ();
    type EncodeExtraType = ();
    type DecodeExtraType = ();

    open spec fn spec_encode_fits(fuses: &FuseArray, offset: [isize; 2], mirror: [bool; 2], extra: ()) -> bool {
        layout_fits(grid_frame(crbit::width(fuses) as usize, offset, mirror), mc_crbit_large_layout(), crbit::fuses(fuses).len())
    }

    open spec fn spec_decode_fits(fuses: &FuseArray, offset: [isize; 2], mirror: [bool; 2], extra: ()) -> bool {
        layout_fits(grid_frame(crbit::width(fuses) as usize, offset, mirror), mc_crbit_large_layout(), crbit::fuses(fuses).len())
    }

    open spec fn spec_decode(fuses: &FuseArray, offset: [isize; 2], mirror: [bool; 2], extra: ()) -> Result<
        XC2Macrocell,
        (),
    > {
        mc_of(read_slots(crbit::fuses(fuses), grid_frame(crbit::width(fuses) as usize, offset, mirror), mc_crbit_large_layout()))
    }

    open spec fn spec_field_count() -> nat {
        10
    }

    open spec fn spec_field_name(i: int) -> Seq<char> {
        mc_field_name(i)
    }

    open spec fn spec_field_desc(i: int) -> Seq<char> {
        mc_field_desc(i)
    }

    open spec fn spec_field_type(i: int) -> BitFragmentFieldType {
        BitFragmentFieldType::Pattern
    }

    open spec fn spec_field_elems(field_i: int) -> nat {
        1
    }

    open spec fn spec_field_offset(field_i: int, arr_i: int) -> [isize; 2] {
        [0, 0]
    }

    open spec fn spec_field_mirror(field_i: int, arr_i: int) -> [bool; 2] {
        [false, false]
    }

    open spec fn spec_field_bits(field_i: int) -> nat {
        mc_field_bits(field_i)
    }

    open spec fn spec_field_bit_base_pos(field_i: int, bit_i: int) -> [isize; 2] {
        if bit_i < mc_field_bits(field_i) {
            let k = mc_first_bit(field_i) + bit_i;
            [mc_crbit_large_xs()[k], mc_crbit_large_ys()[k]]
        } else {
            [0, 0]
        }
    }

    open spec fn spec_encode_result(&self, before: &FuseArray, after: &FuseArray, offset: [isize; 2], mirror: [bool; 2], extra: ()) -> bool {
        crbit::fuses(after) == apply_writes(crbit::fuses(before), slot_writes(grid_frame(crbit::width(before) as usize, offset, mirror), mc_crbit_large_layout(), mc_bits(*self)))
        && crbit::width(after) == crbit::width(before)
        && crbit::dev_name(after) == crbit::dev_name(before)
    }

    fn encode(&self, fuses: &mut FuseArray, offset: [isize; 2], mirror: [bool; 2], extra_data: ()) {
        let layout = mc_crbit_large_layout_vec();
        let bits = self.to_bits();
        fuses.write_slots(layout.as_slice(), bits.as_slice(), offset, mirror);
    }

    fn decode(fuses: &FuseArray, offset: [isize; 2], mirror: [bool; 2], extra_data: ()) -> (r: Result<XC2Macrocell, ()>) {
        let layout = mc_crbit_large_layout_vec();
        let bits = fuses.read_slots(layout.as_slice(), offset, mirror);
        XC2Macrocell::from_bits(bits.as_slice())
    }

    fn fieldname(i: usize) -> (name: &'static str) {
        mc_field_name_exec(i)
    }

    fn fielddesc(i: usize) -> (desc: &'static str) {
        mc_field_desc_exec(i)
    }

    fn fieldtype(i: usize) -> (t: BitFragmentFieldType) {
        BitFragmentFieldType::Pattern
    }

    fn field_offset(field_i: usize, arr_i: usize) -> (o: [isize; 2]) {
        [0, 0]
    }

    fn field_mirror(field_i: usize, arr_i: usize) -> (m: [bool; 2]) {
        [false, false]
    }

    fn field_bits(field_i: usize) -> (n: usize) {
        mc_field_bits_exec(field_i)
    }

    fn field_bit_base_pos(field_i: usize, bit_i: usize) -> (p: [isize; 2]) {
        if bit_i < mc_field_bits_exec(field_i) {
            let (xs, ys) = mc_crbit_large_tables();
            let k = mc_first_bit_exec(field_i) + bit_i;
            [xs[k], ys[k]]
        } else {
            [0, 0]
        }
    }
}

impl BitFragment<JedLarge> for XC2Macrocell {
    const IDX_DIMS: usize = 1;
    const FIELD_COUNT: usize = 1;

    type Fuses = [bool];
    type OffsettingType = [isize; 1];
    type MirroringType = [bool; 1];
    type ErrType = ();
    type EncodeExtraType = bool;
    type DecodeExtraType = bool;

    open spec fn spec_encode_fits(fuses: &[bool], offset: [isize; 1], mirror: [bool; 1], buried: bool) -> bool {
        layout_fits(line_frame(offset, mirror), mc_jed_large_layout(buried), fuses@.len())
    }

    open spec fn spec_decode_fits(fuses: &[bool], offset: [isize; 1], mirror: [bool; 1], buried: bool) -> bool {
        layout_fits(line_frame(offset, mirror), mc_jed_large_layout(buried), fuses@.len())
    }

    open spec fn spec_decode(fuses: &[bool], offset: [isize; 1], mirror: [bool; 1], buried: bool) -> Result<
        XC2Macrocell,
        (),
    > {
        mc_of(read_slots(fuses@, line_frame(offset, mirror), mc_jed_large_layout(buried)))
    }

    /// This layout only dispatches to the buried and unburied ones and
    /// describes no fields of its own: although `FIELD_COUNT` is 1, every
    /// field-metadata function of this layout fails unconditionally, so
    /// none of them may be called, which a count of 0 expresses.
    open spec fn spec_field_count() -> nat {
        0
    }

    open spec fn spec_field_name(i: int) -> Seq<char> {
        ""@
    }

    open spec fn spec_field_desc(i: int) -> Seq<char> {
        ""@
    }

    open spec fn spec_field_type(i: int) -> BitFragmentFieldType {
        BitFragmentFieldType::Pattern
    }

    open spec fn spec_field_elems(field_i: int) -> nat {
        0
    }

    open spec fn spec_field_offset(field_i: int, arr_i: int) -> [isize; 1] {
        [0]
    }

    open spec fn spec_field_mirror(field_i: int, arr_i: int) -> [bool; 1] {
        [false]
    }

    open spec fn spec_field_bits(field_i: int) -> nat {
        0
    }

    open spec fn spec_field_bit_base_pos(field_i: int, bit_i: int) -> [isize; 1] {
        [0]
    }

    open spec fn spec_encode_result(&self, before: &[bool], after: &[bool], offset: [isize; 1], mirror: [bool; 1], extra: bool) -> bool {
        after@ == apply_writes(before@, slot_writes(line_frame(offset, mirror), mc_jed_large_layout(extra), mc_bits(*self)))
    }

    fn encode(&self, fuses: &mut [bool], offset: [isize; 1], mirror: [bool; 1], extra_data: bool) {
        if extra_data {
            <Self as BitFragment<JedLargeBuried>>::encode(self, fuses, offset, mirror, ())
        } else {
            <Self as BitFragment<JedLargeUnburied>>::encode(self, fuses, offset, mirror, ())
        }
    }

    fn decode(fuses: &[bool], offset: [isize; 1], mirror: [bool; 1], extra_data: bool) -> (r: Result<XC2Macrocell, ()>) {
        if extra_data {
            <Self as BitFragment<JedLargeBuried>>::decode(fuses, offset, mirror, ())
        } else {
            <Self as BitFragment<JedLargeUnburied>>::decode(fuses, offset, mirror, ())
        }
    }

    fn fieldname(i: usize) -> (name: &'static str) {
        ""
    }

    fn fielddesc(i: usize) -> (desc: &'static str) {
        ""
    }

    fn fieldtype(i: usize) -> (t: BitFragmentFieldType) {
        BitFragmentFieldType::Pattern
    }

    fn field_offset(field_i: usize, arr_i: usize) -> (o: [isize; 1]) {
        [0]
    }

    fn field_mirror(field_i: usize, arr_i: usize) -> (m: [bool; 1]) {
        [false]
    }

    fn field_bits(field_i: usize) -> (n: usize) {
        0
    }

    fn field_bit_base_pos(field_i: usize, bit_i: usize) -> (p: [isize; 1]) {
        [0]
    }
}

/// The JED layout of a macrocell of the larger devices, buried or not.
pub open spec fn mc_jed_large_layout(buried: bool) -> Seq<BitSlot> {
    if buried {
        mc_jed_large_buried_layout()
    } else {
        mc_jed_large_unburied_layout()
    }
}

/// For each macrocell of a function block of the 128, 384 and 512
/// macrocell devices, the row of its crbit block relative to the function
/// block.
pub const MC_TO_ROW_MAP_LARGE: [usize; MCS_PER_FB] = [0, 3, 5, 8, 10, 13, 15, 18, 20, 23, 25, 28, 30, 33, 35, 38];

impl XC2Macrocell {
    ///  Internal function that reads only the macrocell-related bits from the macrcocell
    /// configuration
    pub fn from_jed_small(fuses: &[bool], block_idx: usize, mc_idx: usize) -> (m: Self)
        requires
            block_idx + mc_idx * 27 + 26 < fuses@.len(),
            fuses@.len() <= isize::MAX,
        ensures
            mc_of(read_slots(fuses@, line_frame([(block_idx + mc_idx * 27) as isize], [false]), mc_jed_small_layout()))
                == Ok::<XC2Macrocell, ()>(m),
    {
        let o = (block_idx + mc_idx * 27) as isize;
        proof {
            assert(layout_fits(line_frame([o], [false]), mc_jed_small_layout(), fuses@.len()));
            lemma_mc_of_total(read_slots(fuses@, line_frame([o], [false]), mc_jed_small_layout()));
        }
        match <Self as BitFragment<JedSmall>>::decode(fuses, [o], [false], ()) {
            Ok(m) => m,
            Err(_) => {
                proof {
                    assert(false);
                }
                Self::default()
            },
        }
    }

    ///  Internal function that reads only the macrocell-related bits from the macrcocell
    /// configuration
    pub fn from_jed_large(fuses: &[bool], fuse_idx: usize) -> (m: Self)
        requires
            fuse_idx + 28 < fuses@.len(),
            fuses@.len() <= isize::MAX,
        ensures
            mc_of(read_slots(fuses@, line_frame([fuse_idx as isize], [false]), mc_jed_large_unburied_layout()))
                == Ok::<XC2Macrocell, ()>(m),
    {
        let o = fuse_idx as isize;
        proof {
            assert(layout_fits(line_frame([o], [false]), mc_jed_large_unburied_layout(), fuses@.len()));
            lemma_mc_of_total(read_slots(fuses@, line_frame([o], [false]), mc_jed_large_unburied_layout()));
        }
        match <Self as BitFragment<JedLargeUnburied>>::decode(fuses, [o], [false], ()) {
            Ok(m) => m,
            Err(_) => {
                proof {
                    assert(false);
                }
                Self::default()
            },
        }
    }

    ///  Internal function that reads only the macrocell-related bits from the macrcocell
    /// configuration
    pub fn from_jed_large_buried(fuses: &[bool], fuse_idx: usize) -> (m: Self)
        requires
            fuse_idx + 15 < fuses@.len(),
            fuses@.len() <= isize::MAX,
        ensures
            mc_of(read_slots(fuses@, line_frame([fuse_idx as isize], [false]), mc_jed_large_buried_layout()))
                == Ok::<XC2Macrocell, ()>(m),
    {
        let o = fuse_idx as isize;
        proof {
            let l = mc_jed_large_buried_layout();
            assert forall|i: int| 0 <= i < l.len() implies crate::bitfragment::slot_fits(line_frame([o], [false]), #[trigger] l[i], fuses@.len()) by {
                if i > 14 {
                    assert(l[i] == table_layout(mc_jed_large_buried_xs(), mc_jed_large_buried_ys(), mc_inverted_buried())[i - 1]);
                } else if i < 14 {
                    assert(l[i] == table_layout(mc_jed_large_buried_xs(), mc_jed_large_buried_ys(), mc_inverted_buried())[i]);
                }
            }
            lemma_mc_of_total(read_slots(fuses@, line_frame([o], [false]), l));
        }
        match <Self as BitFragment<JedLargeBuried>>::decode(fuses, [o], [false], ()) {
            Ok(m) => m,
            Err(_) => {
                proof {
                    assert(false);
                }
                Self::default()
            },
        }
    }
}

/// Rows of zeros, for one-dimensional table layouts.
pub open spec fn mc_zero_rows(n: nat) -> Seq<isize> {
    Seq::new(n, |_k: int| 0isize)
}

/// The stored bit positions of a macrocell are distinct in every layout.
pub proof fn lemma_mc_positions_distinct()
    ensures
        positions_distinct(mc_jed_small_xs(), mc_jed_small_ys()),
        positions_distinct(mc_jed_large_unburied_xs(), mc_jed_large_unburied_ys()),
        positions_distinct(mc_jed_large_buried_xs(), mc_jed_large_buried_ys()),
        positions_distinct(mc_crbit_32_xs(), mc_crbit_32_ys()),
        positions_distinct(mc_crbit_64_xs(), mc_crbit_64_ys()),
        positions_distinct(mc_crbit_256_xs(), mc_crbit_256_ys()),
        positions_distinct(mc_crbit_large_xs(), mc_crbit_large_ys()),
        mc_jed_small_ys() == mc_zero_rows(17),
        mc_jed_large_unburied_ys() == mc_zero_rows(17),
        mc_jed_large_buried_ys() == mc_zero_rows(16),
{
    assert(mc_jed_small_ys() =~= mc_zero_rows(17));
    assert(mc_jed_large_unburied_ys() =~= mc_zero_rows(17));
    assert(mc_jed_large_buried_ys() =~= mc_zero_rows(16));
}

/// Decoding a macrocell from where it was just encoded gives it back, for
/// any table layout of 17 distinct positions (in a grid, inside its width).
#[verifier::spinoff_prover]
pub proof fn lemma_mc_roundtrip(s: Seq<bool>, f: Frame, xs: Seq<isize>, ys: Seq<isize>, m: XC2Macrocell)
    requires
        xs.len() == 17,
        ys.len() == 17,
        positions_distinct(xs, ys),
        f is Line ==> ys == mc_zero_rows(17),
        columns_inside(f, xs),
        layout_fits(f, table_layout(xs, ys, mc_inverted()), s.len()),
    ensures
        mc_of(
            read_slots(
                apply_writes(s, slot_writes(f, table_layout(xs, ys, mc_inverted()), mc_bits(m))),
                f,
                table_layout(xs, ys, mc_inverted()),
            ),
        ) == Ok::<XC2Macrocell, ()>(m),
{
    let l = table_layout(xs, ys, mc_inverted());
    lemma_table_layout_distinct(f, xs, ys, mc_inverted(), s.len());
    lemma_read_after_write(s, f, l, mc_bits(m));
    assert(read_slots(apply_writes(s, slot_writes(f, l, mc_bits(m))), f, l) == mc_bits(m));
    lemma_mc_bits_roundtrip(m);
}

/// The buried layout stores no two bits in one fuse, and a configuration
/// that does not use the IOB direct path agrees with its fixed slot.
proof fn lemma_mc_buried_layout(s: Seq<bool>, offset: [isize; 1], mirror: [bool; 1], m: XC2Macrocell)
    requires
        !m.ff_in_ibuf,
        layout_fits(line_frame(offset, mirror), mc_jed_large_buried_layout(), s.len()),
    ensures
        layout_distinct(line_frame(offset, mirror), mc_jed_large_buried_layout()),
        fixed_agree(mc_jed_large_buried_layout(), mc_bits(m)),
{
    let f = line_frame(offset, mirror);
    let t = table_layout(mc_jed_large_buried_xs(), mc_jed_large_buried_ys(), mc_inverted_buried());
    let l = mc_jed_large_buried_layout();
    lemma_mc_positions_distinct();
    assert(layout_fits(f, t, s.len())) by {
        assert forall|i: int| 0 <= i < t.len() implies crate::bitfragment::slot_fits(f, #[trigger] t[i], s.len()) by {
            if i < 14 {
                assert(l[i] == t[i]);
            } else {
                assert(l[i + 1] == t[i]);
            }
        }
    }
    lemma_table_layout_distinct(f, mc_jed_large_buried_xs(), mc_jed_large_buried_ys(), mc_inverted_buried(), s.len());
    assert forall|i: int, j: int|
        0 <= i < l.len() && 0 <= j < l.len() && i != j && l[i] is At && l[j] is At
            implies slot_index(f, #[trigger] l[i]) != slot_index(f, #[trigger] l[j]) by {
        let ti = if i < 14 { i } else { i - 1 };
        let tj = if j < 14 { j } else { j - 1 };
        assert(l[i] == t[ti]);
        assert(l[j] == t[tj]);
    }
    assert forall|i: int| 0 <= i < l.len() implies match #[trigger] l[i] {
        BitSlot::Fixed(v) => mc_bits(m)[i] == v,
        BitSlot::At { .. } => true,
    } by {
        if i == 14 {
            assert(mc_bits(m)[14] == m.ff_in_ibuf);
        } else if i < 14 {
            assert(l[i] == t[i]);
        } else {
            assert(l[i] == t[i - 1]);
        }
    }
}

/// Decoding a buried macrocell from where it was just encoded gives it back,
/// when it does not use the IOB direct path (which a buried macrocell cannot
/// store).
#[verifier::spinoff_prover]
pub proof fn lemma_mc_buried_roundtrip(s: Seq<bool>, offset: [isize; 1], mirror: [bool; 1], m: XC2Macrocell)
    requires
        !m.ff_in_ibuf,
        layout_fits(line_frame(offset, mirror), mc_jed_large_buried_layout(), s.len()),
    ensures
        mc_of(
            read_slots(
                apply_writes(s, slot_writes(line_frame(offset, mirror), mc_jed_large_buried_layout(), mc_bits(m))),
                line_frame(offset, mirror),
                mc_jed_large_buried_layout(),
            ),
        ) == Ok::<XC2Macrocell, ()>(m),
{
    let f = line_frame(offset, mirror);
    let l = mc_jed_large_buried_layout();
    lemma_mc_buried_layout(s, offset, mirror, m);
    lemma_read_after_write(s, f, l, mc_bits(m));
    assert(read_slots(apply_writes(s, slot_writes(f, l, mc_bits(m))), f, l) == mc_bits(m));
    lemma_mc_bits_roundtrip(m);
}

/// Where each setting of a macrocell sits among its 17 bits.
proof fn lemma_mc_bits_fields(m: XC2Macrocell)
    ensures
        mc_bits(m).len() == 17,
        mc_bits(m)[0] == m.clk_src.spec_encode()[0],
        mc_bits(m)[1] == m.clk_src.spec_encode()[1],
        mc_bits(m)[2] == m.clk_src.spec_encode()[2],
        mc_bits(m)[3] == m.clk_invert_pol,
        mc_bits(m)[4] == m.is_ddr,
        mc_bits(m)[5] == m.r_src.spec_encode()[0],
        mc_bits(m)[6] == m.r_src.spec_encode()[1],
        mc_bits(m)[7] == m.s_src.spec_encode()[0],
        mc_bits(m)[8] == m.s_src.spec_encode()[1],
        mc_bits(m)[9] == m.init_state,
        mc_bits(m)[10] == m.reg_mode.spec_encode()[0],
        mc_bits(m)[11] == m.reg_mode.spec_encode()[1],
        mc_bits(m)[12] == m.fb_mode.spec_encode()[0],
        mc_bits(m)[13] == m.fb_mode.spec_encode()[1],
        mc_bits(m)[14] == m.ff_in_ibuf,
        mc_bits(m)[15] == m.xor_mode.spec_encode()[0],
        mc_bits(m)[16] == m.xor_mode.spec_encode()[1],
{
    assert(m.clk_src.spec_encode().len() == 3) by {
        lemma_clk_src_bits(m.clk_src);
    }
    assert(m.r_src.spec_encode().len() == 2) by {
        lemma_reset_src_bits(m.r_src);
    }
    assert(m.s_src.spec_encode().len() == 2) by {
        lemma_set_src_bits(m.s_src);
    }
    assert(m.reg_mode.spec_encode().len() == 2) by {
        lemma_reg_mode_bits(m.reg_mode);
    }
    assert(m.fb_mode.spec_encode().len() == 2) by {
        lemma_fb_mode_bits(m.fb_mode);
    }
    assert(m.xor_mode.spec_encode().len() == 2) by {
        lemma_xor_mode_bits(m.xor_mode);
    }
}

/// Encoding a macrocell in the `JedSmall` layout stores each setting at its
/// own place in the JED fuse list, counted from the placement origin (backwards
/// along a mirrored axis); an inverted fuse holds the complement: the clock source at 0, 2, 3; the
/// clock polarity at 1; the DDR mode at 4; the reset source at 5, 6; the set source at 7, 8; the
/// initial state at 26 inverted; the register mode at 9, 10; the ZIA feedback at 13, 14; the IOB
/// direct path at 15 inverted; the XOR input at 17, 18.
pub proof fn lemma_mc_jed_small_places(m: XC2Macrocell, before: &[bool], after: &[bool], offset: [isize; 1], mirror: [bool; 1])
    requires
        <XC2Macrocell as BitFragment<JedSmall>>::spec_encode_fits(before, offset, mirror, ()),
        <XC2Macrocell as BitFragment<JedSmall>>::spec_encode_result(&m, before, after, offset, mirror, ()),
    ensures
        after@[place(offset[0] as int, mirror[0], 0)] == m.clk_src.spec_encode()[0],
        after@[place(offset[0] as int, mirror[0], 2)] == m.clk_src.spec_encode()[1],
        after@[place(offset[0] as int, mirror[0], 3)] == m.clk_src.spec_encode()[2],
        after@[place(offset[0] as int, mirror[0], 1)] == m.clk_invert_pol,
        after@[place(offset[0] as int, mirror[0], 4)] == m.is_ddr,
        after@[place(offset[0] as int, mirror[0], 5)] == m.r_src.spec_encode()[0],
        after@[place(offset[0] as int, mirror[0], 6)] == m.r_src.spec_encode()[1],
        after@[place(offset[0] as int, mirror[0], 7)] == m.s_src.spec_encode()[0],
        after@[place(offset[0] as int, mirror[0], 8)] == m.s_src.spec_encode()[1],
        after@[place(offset[0] as int, mirror[0], 26)] == !m.init_state,
        after@[place(offset[0] as int, mirror[0], 9)] == m.reg_mode.spec_encode()[0],
        after@[place(offset[0] as int, mirror[0], 10)] == m.reg_mode.spec_encode()[1],
        after@[place(offset[0] as int, mirror[0], 13)] == m.fb_mode.spec_encode()[0],
        after@[place(offset[0] as int, mirror[0], 14)] == m.fb_mode.spec_encode()[1],
        after@[place(offset[0] as int, mirror[0], 15)] == !m.ff_in_ibuf,
        after@[place(offset[0] as int, mirror[0], 17)] == m.xor_mode.spec_encode()[0],
        after@[place(offset[0] as int, mirror[0], 18)] == m.xor_mode.spec_encode()[1],
{
    let f = line_frame(offset, mirror);
    let s = before@;
    lemma_mc_positions_distinct();
    lemma_mc_bits_fields(m);
    lemma_table_writes(s, f, mc_jed_small_xs(), mc_jed_small_ys(), mc_inverted(), mc_bits(m));
    assert(mc_jed_small_xs()[0] == 0 && mc_jed_small_ys()[0] == 0);
    assert(mc_jed_small_xs()[1] == 2 && mc_jed_small_ys()[1] == 0);
    assert(mc_jed_small_xs()[2] == 3 && mc_jed_small_ys()[2] == 0);
    assert(mc_jed_small_xs()[3] == 1 && mc_jed_small_ys()[3] == 0);
    assert(mc_jed_small_xs()[4] == 4 && mc_jed_small_ys()[4] == 0);
    assert(mc_jed_small_xs()[5] == 5 && mc_jed_small_ys()[5] == 0);
    assert(mc_jed_small_xs()[6] == 6 && mc_jed_small_ys()[6] == 0);
    assert(mc_jed_small_xs()[7] == 7 && mc_jed_small_ys()[7] == 0);
    assert(mc_jed_small_xs()[8] == 8 && mc_jed_small_ys()[8] == 0);
    assert(mc_jed_small_xs()[9] == 26 && mc_jed_small_ys()[9] == 0);
    assert(mc_jed_small_xs()[10] == 9 && mc_jed_small_ys()[10] == 0);
    assert(mc_jed_small_xs()[11] == 10 && mc_jed_small_ys()[11] == 0);
    assert(mc_jed_small_xs()[12] == 13 && mc_jed_small_ys()[12] == 0);
    assert(mc_jed_small_xs()[13] == 14 && mc_jed_small_ys()[13] == 0);
    assert(mc_jed_small_xs()[14] == 15 && mc_jed_small_ys()[14] == 0);
    assert(mc_jed_small_xs()[15] == 17 && mc_jed_small_ys()[15] == 0);
    assert(mc_jed_small_xs()[16] == 18 && mc_jed_small_ys()[16] == 0);
}

/// Encoding a macrocell in the `JedLargeUnburied` layout stores each setting at its
/// own place in the JED fuse list, counted from the placement origin (backwards
/// along a mirrored axis); an inverted fuse holds the complement: the clock source at 0, 1, 2; the
/// clock polarity at 4; the DDR mode at 3; the reset source at 23, 24; the set source at 17, 18;
/// the initial state at 19 inverted; the register mode at 21, 22; the ZIA feedback at 6, 7; the IOB
/// direct path at 10 inverted; the XOR input at 27, 28.
pub proof fn lemma_mc_jed_large_unburied_places(m: XC2Macrocell, before: &[bool], after: &[bool], offset: [isize; 1], mirror: [bool; 1])
    requires
        <XC2Macrocell as BitFragment<JedLargeUnburied>>::spec_encode_fits(before, offset, mirror, ()),
        <XC2Macrocell as BitFragment<JedLargeUnburied>>::spec_encode_result(&m, before, after, offset, mirror, ()),
    ensures
        after@[place(offset[0] as int, mirror[0], 0)] == m.clk_src.spec_encode()[0],
        after@[place(offset[0] as int, mirror[0], 1)] == m.clk_src.spec_encode()[1],
        after@[place(offset[0] as int, mirror[0], 2)] == m.clk_src.spec_encode()[2],
        after@[place(offset[0] as int, mirror[0], 4)] == m.clk_invert_pol,
        after@[place(offset[0] as int, mirror[0], 3)] == m.is_ddr,
        after@[place(offset[0] as int, mirror[0], 23)] == m.r_src.spec_encode()[0],
        after@[place(offset[0] as int, mirror[0], 24)] == m.r_src.spec_encode()[1],
        after@[place(offset[0] as int, mirror[0], 17)] == m.s_src.spec_encode()[0],
        after@[place(offset[0] as int, mirror[0], 18)] == m.s_src.spec_encode()[1],
        after@[place(offset[0] as int, mirror[0], 19)] == !m.init_state,
        after@[place(offset[0] as int, mirror[0], 21)] == m.reg_mode.spec_encode()[0],
        after@[place(offset[0] as int, mirror[0], 22)] == m.reg_mode.spec_encode()[1],
        after@[place(offset[0] as int, mirror[0], 6)] == m.fb_mode.spec_encode()[0],
        after@[place(offset[0] as int, mirror[0], 7)] == m.fb_mode.spec_encode()[1],
        after@[place(offset[0] as int, mirror[0], 10)] == !m.ff_in_ibuf,
        after@[place(offset[0] as int, mirror[0], 27)] == m.xor_mode.spec_encode()[0],
        after@[place(offset[0] as int, mirror[0], 28)] == m.xor_mode.spec_encode()[1],
{
    let f = line_frame(offset, mirror);
    let s = before@;
    lemma_mc_positions_distinct();
    lemma_mc_bits_fields(m);
    lemma_table_writes(s, f, mc_jed_large_unburied_xs(), mc_jed_large_unburied_ys(), mc_inverted(), mc_bits(m));
    assert(mc_jed_large_unburied_xs()[0] == 0 && mc_jed_large_unburied_ys()[0] == 0);
    assert(mc_jed_large_unburied_xs()[1] == 1 && mc_jed_large_unburied_ys()[1] == 0);
    assert(mc_jed_large_unburied_xs()[2] == 2 && mc_jed_large_unburied_ys()[2] == 0);
    assert(mc_jed_large_unburied_xs()[3] == 4 && mc_jed_large_unburied_ys()[3] == 0);
    assert(mc_jed_large_unburied_xs()[4] == 3 && mc_jed_large_unburied_ys()[4] == 0);
    assert(mc_jed_large_unburied_xs()[5] == 23 && mc_jed_large_unburied_ys()[5] == 0);
    assert(mc_jed_large_unburied_xs()[6] == 24 && mc_jed_large_unburied_ys()[6] == 0);
    assert(mc_jed_large_unburied_xs()[7] == 17 && mc_jed_large_unburied_ys()[7] == 0);
    assert(mc_jed_large_unburied_xs()[8] == 18 && mc_jed_large_unburied_ys()[8] == 0);
    assert(mc_jed_large_unburied_xs()[9] == 19 && mc_jed_large_unburied_ys()[9] == 0);
    assert(mc_jed_large_unburied_xs()[10] == 21 && mc_jed_large_unburied_ys()[10] == 0);
    assert(mc_jed_large_unburied_xs()[11] == 22 && mc_jed_large_unburied_ys()[11] == 0);
    assert(mc_jed_large_unburied_xs()[12] == 6 && mc_jed_large_unburied_ys()[12] == 0);
    assert(mc_jed_large_unburied_xs()[13] == 7 && mc_jed_large_unburied_ys()[13] == 0);
    assert(mc_jed_large_unburied_xs()[14] == 10 && mc_jed_large_unburied_ys()[14] == 0);
    assert(mc_jed_large_unburied_xs()[15] == 27 && mc_jed_large_unburied_ys()[15] == 0);
    assert(mc_jed_large_unburied_xs()[16] == 28 && mc_jed_large_unburied_ys()[16] == 0);
}

/// The buried layout has no fuse for the IOB direct path, so storing a
/// macrocell writes what storing it without that path writes.
#[verifier::spinoff_prover]
proof fn lemma_mc_buried_writes(f: Frame, m: XC2Macrocell)
    ensures
        slot_writes(f, mc_jed_large_buried_layout(), mc_bits(m)) == slot_writes(
            f,
            mc_jed_large_buried_layout(),
            mc_bits(XC2Macrocell { ff_in_ibuf: false, ..m }),
        ),
{
    let l = mc_jed_large_buried_layout();
    let m2 = XC2Macrocell { ff_in_ibuf: false, ..m };
    let a = mc_bits(m);
    let b = mc_bits(m2);
    lemma_mc_bits_fields(m);
    lemma_mc_bits_fields(m2);
    assert(l.len() == 17);
    assert(l[14] == BitSlot::Fixed(false));
    assert forall|i: int| 0 <= i < 17 && i != 14 implies a[i] == b[i] by {
        if i == 0 {
        } else if i == 1 {
        } else if i == 2 {
        } else if i == 3 {
        } else if i == 4 {
        } else if i == 5 {
        } else if i == 6 {
        } else if i == 7 {
        } else if i == 8 {
        } else if i == 9 {
        } else if i == 10 {
        } else if i == 11 {
        } else if i == 12 {
        } else if i == 13 {
        } else if i == 15 {
        } else if i == 16 {
        }
    }
    assert(slot_writes(f, l, a) =~= slot_writes(f, l, b));
}

/// Encoding a macrocell in the `JedLargeBuried` layout stores each setting
/// but the IOB direct path, which a buried macrocell has no fuse for, at its
/// own place in the JED fuse list, counted from the placement origin
/// (backwards when mirrored); an inverted fuse holds the complement: the clock source at 0, 1, 2;
/// the clock polarity at 4; the DDR mode at 3; the reset source at 12, 13; the set source at 7, 8;
/// the initial state at 9 inverted; the register mode at 10, 11; the ZIA feedback at 5, 6; the XOR
/// input at 14, 15.
#[verifier::spinoff_prover]
#[verifier::rlimit(40)]
pub proof fn lemma_mc_jed_large_buried_places(m: XC2Macrocell, before: &[bool], after: &[bool], offset: [isize; 1], mirror: [bool; 1])
    requires
        <XC2Macrocell as BitFragment<JedLargeBuried>>::spec_encode_fits(before, offset, mirror, ()),
        <XC2Macrocell as BitFragment<JedLargeBuried>>::spec_encode_result(&m, before, after, offset, mirror, ()),
    ensures
        after@[place(offset[0] as int, mirror[0], 0)] == m.clk_src.spec_encode()[0],
        after@[place(offset[0] as int, mirror[0], 1)] == m.clk_src.spec_encode()[1],
        after@[place(offset[0] as int, mirror[0], 2)] == m.clk_src.spec_encode()[2],
        after@[place(offset[0] as int, mirror[0], 4)] == m.clk_invert_pol,
        after@[place(offset[0] as int, mirror[0], 3)] == m.is_ddr,
        after@[place(offset[0] as int, mirror[0], 12)] == m.r_src.spec_encode()[0],
        after@[place(offset[0] as int, mirror[0], 13)] == m.r_src.spec_encode()[1],
        after@[place(offset[0] as int, mirror[0], 7)] == m.s_src.spec_encode()[0],
        after@[place(offset[0] as int, mirror[0], 8)] == m.s_src.spec_encode()[1],
        after@[place(offset[0] as int, mirror[0], 9)] == !m.init_state,
        after@[place(offset[0] as int, mirror[0], 10)] == m.reg_mode.spec_encode()[0],
        after@[place(offset[0] as int, mirror[0], 11)] == m.reg_mode.spec_encode()[1],
        after@[place(offset[0] as int, mirror[0], 5)] == m.fb_mode.spec_encode()[0],
        after@[place(offset[0] as int, mirror[0], 6)] == m.fb_mode.spec_encode()[1],
        after@[place(offset[0] as int, mirror[0], 14)] == m.xor_mode.spec_encode()[0],
        after@[place(offset[0] as int, mirror[0], 15)] == m.xor_mode.spec_encode()[1],
{
    let f = line_frame(offset, mirror);
    let l = mc_jed_large_buried_layout();
    let t = table_layout(mc_jed_large_buried_xs(), mc_jed_large_buried_ys(), mc_inverted_buried());
    let m2 = XC2Macrocell { ff_in_ibuf: false, ..m };
    lemma_mc_buried_writes(f, m);
    lemma_mc_bits_fields(m2);
    lemma_mc_buried_layout(before@, offset, mirror, m2);
    lemma_read_after_write(before@, f, l, mc_bits(m2));
    assert(l[0] == t[0] && read_slots(after@, f, l)[0] == mc_bits(m2)[0]);
    assert(l[1] == t[1] && read_slots(after@, f, l)[1] == mc_bits(m2)[1]);
    assert(l[2] == t[2] && read_slots(after@, f, l)[2] == mc_bits(m2)[2]);
    assert(l[3] == t[3] && read_slots(after@, f, l)[3] == mc_bits(m2)[3]);
    assert(l[4] == t[4] && read_slots(after@, f, l)[4] == mc_bits(m2)[4]);
    assert(l[5] == t[5] && read_slots(after@, f, l)[5] == mc_bits(m2)[5]);
    assert(l[6] == t[6] && read_slots(after@, f, l)[6] == mc_bits(m2)[6]);
    assert(l[7] == t[7] && read_slots(after@, f, l)[7] == mc_bits(m2)[7]);
    assert(l[8] == t[8] && read_slots(after@, f, l)[8] == mc_bits(m2)[8]);
    assert(l[9] == t[9] && read_slots(after@, f, l)[9] == mc_bits(m2)[9]);
    assert(l[10] == t[10] && read_slots(after@, f, l)[10] == mc_bits(m2)[10]);
    assert(l[11] == t[11] && read_slots(after@, f, l)[11] == mc_bits(m2)[11]);
    assert(l[12] == t[12] && read_slots(after@, f, l)[12] == mc_bits(m2)[12]);
    assert(l[13] == t[13] && read_slots(after@, f, l)[13] == mc_bits(m2)[13]);
    assert(l[15] == t[14] && read_slots(after@, f, l)[15] == mc_bits(m2)[15]);
    assert(l[16] == t[15] && read_slots(after@, f, l)[16] == mc_bits(m2)[16]);
}

/// The `JedLarge` layout of a macrocell is the buried layout when the extra
/// data says the macrocell is buried and the layout with an IOB otherwise:
/// encoding, decoding and their placement conditions are those of that
/// layout.
pub proof fn lemma_mc_jed_large_layout_choice(
    m: XC2Macrocell,
    before: &[bool],
    after: &[bool],
    offset: [isize; 1],
    mirror: [bool; 1],
    buried: bool,
)
    ensures
        <XC2Macrocell as BitFragment<JedLarge>>::spec_encode_result(&m, before, after, offset, mirror, buried) == if buried {
            <XC2Macrocell as BitFragment<JedLargeBuried>>::spec_encode_result(&m, before, after, offset, mirror, ())
        } else {
            <XC2Macrocell as BitFragment<JedLargeUnburied>>::spec_encode_result(&m, before, after, offset, mirror, ())
        },
        <XC2Macrocell as BitFragment<JedLarge>>::spec_encode_fits(before, offset, mirror, buried) == if buried {
            <XC2Macrocell as BitFragment<JedLargeBuried>>::spec_encode_fits(before, offset, mirror, ())
        } else {
            <XC2Macrocell as BitFragment<JedLargeUnburied>>::spec_encode_fits(before, offset, mirror, ())
        },
        <XC2Macrocell as BitFragment<JedLarge>>::spec_decode(before, offset, mirror, buried) == if buried {
            <XC2Macrocell as BitFragment<JedLargeBuried>>::spec_decode(before, offset, mirror, ())
        } else {
            <XC2Macrocell as BitFragment<JedLargeUnburied>>::spec_decode(before, offset, mirror, ())
        },
{
}

/// Encoding a macrocell in the `Crbit32` layout stores each setting at its own place in the
/// crbit array, counted from the placement origin (backwards along a mirrored axis); an
/// inverted fuse holds the complement: the clock source at (0, 0), (2, 0), (3, 0); the clock
/// polarity at (1, 0); the DDR mode at (4, 0); the reset source at (5, 0), (6, 0); the set
/// source at (7, 0), (8, 0); the initial state at (8, 2) inverted; the register mode at (0, 1),
/// (1, 1); the ZIA feedback at (4, 1), (5, 1); the IOB direct path at (6, 1) inverted; the XOR
/// input at (8, 1), (0, 2).
pub proof fn lemma_mc_crbit_32_places(m: XC2Macrocell, before: FuseArray, after: FuseArray, offset: [isize; 2], mirror: [bool; 2])
    requires
        <XC2Macrocell as BitFragment<Crbit32>>::spec_encode_fits(&before, offset, mirror, ()),
        crbit::grid_columns_inside(crbit::width(&before), offset, mirror, 0, 8),
        <XC2Macrocell as BitFragment<Crbit32>>::spec_encode_result(&m, &before, &after, offset, mirror, ()),
    ensures
        crbit::fuses(&after)[crbit::grid_cell(crbit::width(&before), offset, mirror, 0, 0)] == m.clk_src.spec_encode()[0],
        crbit::fuses(&after)[crbit::grid_cell(crbit::width(&before), offset, mirror, 2, 0)] == m.clk_src.spec_encode()[1],
        crbit::fuses(&after)[crbit::grid_cell(crbit::width(&before), offset, mirror, 3, 0)] == m.clk_src.spec_encode()[2],
        crbit::fuses(&after)[crbit::grid_cell(crbit::width(&before), offset, mirror, 1, 0)] == m.clk_invert_pol,
        crbit::fuses(&after)[crbit::grid_cell(crbit::width(&before), offset, mirror, 4, 0)] == m.is_ddr,
        crbit::fuses(&after)[crbit::grid_cell(crbit::width(&before), offset, mirror, 5, 0)] == m.r_src.spec_encode()[0],
        crbit::fuses(&after)[crbit::grid_cell(crbit::width(&before), offset, mirror, 6, 0)] == m.r_src.spec_encode()[1],
        crbit::fuses(&after)[crbit::grid_cell(crbit::width(&before), offset, mirror, 7, 0)] == m.s_src.spec_encode()[0],
        crbit::fuses(&after)[crbit::grid_cell(crbit::width(&before), offset, mirror, 8, 0)] == m.s_src.spec_encode()[1],
        crbit::fuses(&after)[crbit::grid_cell(crbit::width(&before), offset, mirror, 8, 2)] == !m.init_state,
        crbit::fuses(&after)[crbit::grid_cell(crbit::width(&before), offset, mirror, 0, 1)] == m.reg_mode.spec_encode()[0],
        crbit::fuses(&after)[crbit::grid_cell(crbit::width(&before), offset, mirror, 1, 1)] == m.reg_mode.spec_encode()[1],
        crbit::fuses(&after)[crbit::grid_cell(crbit::width(&before), offset, mirror, 4, 1)] == m.fb_mode.spec_encode()[0],
        crbit::fuses(&after)[crbit::grid_cell(crbit::width(&before), offset, mirror, 5, 1)] == m.fb_mode.spec_encode()[1],
        crbit::fuses(&after)[crbit::grid_cell(crbit::width(&before), offset, mirror, 6, 1)] == !m.ff_in_ibuf,
        crbit::fuses(&after)[crbit::grid_cell(crbit::width(&before), offset, mirror, 8, 1)] == m.xor_mode.spec_encode()[0],
        crbit::fuses(&after)[crbit::grid_cell(crbit::width(&before), offset, mirror, 0, 2)] == m.xor_mode.spec_encode()[1],
{
    crbit::lemma_width_bound(&before);
    let f = grid_frame(crbit::width(&before) as usize, offset, mirror);
    let s = crbit::fuses(&before);
    lemma_mc_positions_distinct();
    lemma_mc_bits_fields(m);
    lemma_columns_between(f, mc_crbit_32_xs(), 0, 8);
    lemma_table_writes(s, f, mc_crbit_32_xs(), mc_crbit_32_ys(), mc_inverted(), mc_bits(m));
    assert(mc_crbit_32_xs()[0] == 0 && mc_crbit_32_ys()[0] == 0);
    assert(mc_crbit_32_xs()[1] == 2 && mc_crbit_32_ys()[1] == 0);
    assert(mc_crbit_32_xs()[2] == 3 && mc_crbit_32_ys()[2] == 0);
    assert(mc_crbit_32_xs()[3] == 1 && mc_crbit_32_ys()[3] == 0);
    assert(mc_crbit_32_xs()[4] == 4 && mc_crbit_32_ys()[4] == 0);
    assert(mc_crbit_32_xs()[5] == 5 && mc_crbit_32_ys()[5] == 0);
    assert(mc_crbit_32_xs()[6] == 6 && mc_crbit_32_ys()[6] == 0);
    assert(mc_crbit_32_xs()[7] == 7 && mc_crbit_32_ys()[7] == 0);
    assert(mc_crbit_32_xs()[8] == 8 && mc_crbit_32_ys()[8] == 0);
    assert(mc_crbit_32_xs()[9] == 8 && mc_crbit_32_ys()[9] == 2);
    assert(mc_crbit_32_xs()[10] == 0 && mc_crbit_32_ys()[10] == 1);
    assert(mc_crbit_32_xs()[11] == 1 && mc_crbit_32_ys()[11] == 1);
    assert(mc_crbit_32_xs()[12] == 4 && mc_crbit_32_ys()[12] == 1);
    assert(mc_crbit_32_xs()[13] == 5 && mc_crbit_32_ys()[13] == 1);
    assert(mc_crbit_32_xs()[14] == 6 && mc_crbit_32_ys()[14] == 1);
    assert(mc_crbit_32_xs()[15] == 8 && mc_crbit_32_ys()[15] == 1);
    assert(mc_crbit_32_xs()[16] == 0 && mc_crbit_32_ys()[16] == 2);
}

/// Encoding a macrocell in the `Crbit64` layout stores each setting at its own place in the
/// crbit array, counted from the placement origin (backwards along a mirrored axis); an
/// inverted fuse holds the complement: the clock source at (8, 0), (5, 0), (6, 0); the clock
/// polarity at (7, 0); the DDR mode at (4, 0); the reset source at (2, 0), (3, 0); the set
/// source at (0, 0), (1, 0); the initial state at (0, 2) inverted; the register mode at (7, 1),
/// (8, 1); the ZIA feedback at (3, 1), (4, 1); the IOB direct path at (2, 1) inverted; the XOR
/// input at (7, 2), (8, 2).
pub proof fn lemma_mc_crbit_64_places(m: XC2Macrocell, before: FuseArray, after: FuseArray, offset: [isize; 2], mirror: [bool; 2])
    requires
        <XC2Macrocell as BitFragment<Crbit64>>::spec_encode_fits(&before, offset, mirror, ()),
        crbit::grid_columns_inside(crbit::width(&before), offset, mirror, 0, 8),
        <XC2Macrocell as BitFragment<Crbit64>>::spec_encode_result(&m, &before, &after, offset, mirror, ()),
    ensures
        crbit::fuses(&after)[crbit::grid_cell(crbit::width(&before), offset, mirror, 8, 0)] == m.clk_src.spec_encode()[0],
        crbit::fuses(&after)[crbit::grid_cell(crbit::width(&before), offset, mirror, 5, 0)] == m.clk_src.spec_encode()[1],
        crbit::fuses(&after)[crbit::grid_cell(crbit::width(&before), offset, mirror, 6, 0)] == m.clk_src.spec_encode()[2],
        crbit::fuses(&after)[crbit::grid_cell(crbit::width(&before), offset, mirror, 7, 0)] == m.clk_invert_pol,
        crbit::fuses(&after)[crbit::grid_cell(crbit::width(&before), offset, mirror, 4, 0)] == m.is_ddr,
        crbit::fuses(&after)[crbit::grid_cell(crbit::width(&before), offset, mirror, 2, 0)] == m.r_src.spec_encode()[0],
        crbit::fuses(&after)[crbit::grid_cell(crbit::width(&before), offset, mirror, 3, 0)] == m.r_src.spec_encode()[1],
        crbit::fuses(&after)[crbit::grid_cell(crbit::width(&before), offset, mirror, 0, 0)] == m.s_src.spec_encode()[0],
        crbit::fuses(&after)[crbit::grid_cell(crbit::width(&before), offset, mirror, 1, 0)] == m.s_src.spec_encode()[1],
        crbit::fuses(&after)[crbit::grid_cell(crbit::width(&before), offset, mirror, 0, 2)] == !m.init_state,
        crbit::fuses(&after)[crbit::grid_cell(crbit::width(&before), offset, mirror, 7, 1)] == m.reg_mode.spec_encode()[0],
        crbit::fuses(&after)[crbit::grid_cell(crbit::width(&before), offset, mirror, 8, 1)] == m.reg_mode.spec_encode()[1],
        crbit::fuses(&after)[crbit::grid_cell(crbit::width(&before), offset, mirror, 3, 1)] == m.fb_mode.spec_encode()[0],
        crbit::fuses(&after)[crbit::grid_cell(crbit::width(&before), offset, mirror, 4, 1)] == m.fb_mode.spec_encode()[1],
        crbit::fuses(&after)[crbit::grid_cell(crbit::width(&before), offset, mirror, 2, 1)] == !m.ff_in_ibuf,
        crbit::fuses(&after)[crbit::grid_cell(crbit::width(&before), offset, mirror, 7, 2)] == m.xor_mode.spec_encode()[0],
        crbit::fuses(&after)[crbit::grid_cell(crbit::width(&before), offset, mirror, 8, 2)] == m.xor_mode.spec_encode()[1],
{
    crbit::lemma_width_bound(&before);
    let f = grid_frame(crbit::width(&before) as usize, offset, mirror);
    let s = crbit::fuses(&before);
    lemma_mc_positions_distinct();
    lemma_mc_bits_fields(m);
    lemma_columns_between(f, mc_crbit_64_xs(), 0, 8);
    lemma_table_writes(s, f, mc_crbit_64_xs(), mc_crbit_64_ys(), mc_inverted(), mc_bits(m));
    assert(mc_crbit_64_xs()[0] == 8 && mc_crbit_64_ys()[0] == 0);
    assert(mc_crbit_64_xs()[1] == 5 && mc_crbit_64_ys()[1] == 0);
    assert(mc_crbit_64_xs()[2] == 6 && mc_crbit_64_ys()[2] == 0);
    assert(mc_crbit_64_xs()[3] == 7 && mc_crbit_64_ys()[3] == 0);
    assert(mc_crbit_64_xs()[4] == 4 && mc_crbit_64_ys()[4] == 0);
    assert(mc_crbit_64_xs()[5] == 2 && mc_crbit_64_ys()[5] == 0);
    assert(mc_crbit_64_xs()[6] == 3 && mc_crbit_64_ys()[6] == 0);
    assert(mc_crbit_64_xs()[7] == 0 && mc_crbit_64_ys()[7] == 0);
    assert(mc_crbit_64_xs()[8] == 1 && mc_crbit_64_ys()[8] == 0);
    assert(mc_crbit_64_xs()[9] == 0 && mc_crbit_64_ys()[9] == 2);
    assert(mc_crbit_64_xs()[10] == 7 && mc_crbit_64_ys()[10] == 1);
    assert(mc_crbit_64_xs()[11] == 8 && mc_crbit_64_ys()[11] == 1);
    assert(mc_crbit_64_xs()[12] == 3 && mc_crbit_64_ys()[12] == 1);
    assert(mc_crbit_64_xs()[13] == 4 && mc_crbit_64_ys()[13] == 1);
    assert(mc_crbit_64_xs()[14] == 2 && mc_crbit_64_ys()[14] == 1);
    assert(mc_crbit_64_xs()[15] == 7 && mc_crbit_64_ys()[15] == 2);
    assert(mc_crbit_64_xs()[16] == 8 && mc_crbit_64_ys()[16] == 2);
}

/// Encoding a macrocell in the `Crbit256` layout stores each setting at its own place in the
/// crbit array, counted from the placement origin (backwards along a mirrored axis); an
/// inverted fuse holds the complement: the clock source at (9, 0), (7, 0), (8, 0); the clock
/// polarity at (5, 0); the DDR mode at (6, 0); the reset source at (4, 2), (5, 2); the set
/// source at (1, 1), (2, 1); the initial state at (0, 1) inverted; the register mode at (6, 2),
/// (7, 2); the ZIA feedback at (2, 0), (3, 0); the IOB direct path at (9, 1) inverted; the XOR
/// input at (0, 2), (1, 2).
pub proof fn lemma_mc_crbit_256_places(m: XC2Macrocell, before: FuseArray, after: FuseArray, offset: [isize; 2], mirror: [bool; 2])
    requires
        <XC2Macrocell as BitFragment<Crbit256>>::spec_encode_fits(&before, offset, mirror, ()),
        crbit::grid_columns_inside(crbit::width(&before), offset, mirror, 0, 9),
        <XC2Macrocell as BitFragment<Crbit256>>::spec_encode_result(&m, &before, &after, offset, mirror, ()),
    ensures
        crbit::fuses(&after)[crbit::grid_cell(crbit::width(&before), offset, mirror, 9, 0)] == m.clk_src.spec_encode()[0],
        crbit::fuses(&after)[crbit::grid_cell(crbit::width(&before), offset, mirror, 7, 0)] == m.clk_src.spec_encode()[1],
        crbit::fuses(&after)[crbit::grid_cell(crbit::width(&before), offset, mirror, 8, 0)] == m.clk_src.spec_encode()[2],
        crbit::fuses(&after)[crbit::grid_cell(crbit::width(&before), offset, mirror, 5, 0)] == m.clk_invert_pol,
        crbit::fuses(&after)[crbit::grid_cell(crbit::width(&before), offset, mirror, 6, 0)] == m.is_ddr,
        crbit::fuses(&after)[crbit::grid_cell(crbit::width(&before), offset, mirror, 4, 2)] == m.r_src.spec_encode()[0],
        crbit::fuses(&after)[crbit::grid_cell(crbit::width(&before), offset, mirror, 5, 2)] == m.r_src.spec_encode()[1],
        crbit::fuses(&after)[crbit::grid_cell(crbit::width(&before), offset, mirror, 1, 1)] == m.s_src.spec_encode()[0],
        crbit::fuses(&after)[crbit::grid_cell(crbit::width(&before), offset, mirror, 2, 1)] == m.s_src.spec_encode()[1],
        crbit::fuses(&after)[crbit::grid_cell(crbit::width(&before), offset, mirror, 0, 1)] == !m.init_state,
        crbit::fuses(&after)[crbit::grid_cell(crbit::width(&before), offset, mirror, 6, 2)] == m.reg_mode.spec_encode()[0],
        crbit::fuses(&after)[crbit::grid_cell(crbit::width(&before), offset, mirror, 7, 2)] == m.reg_mode.spec_encode()[1],
        crbit::fuses(&after)[crbit::grid_cell(crbit::width(&before), offset, mirror, 2, 0)] == m.fb_mode.spec_encode()[0],
        crbit::fuses(&after)[crbit::grid_cell(crbit::width(&before), offset, mirror, 3, 0)] == m.fb_mode.spec_encode()[1],
        crbit::fuses(&after)[crbit::grid_cell(crbit::width(&before), offset, mirror, 9, 1)] == !m.ff_in_ibuf,
        crbit::fuses(&after)[crbit::grid_cell(crbit::width(&before), offset, mirror, 0, 2)] == m.xor_mode.spec_encode()[0],
        crbit::fuses(&after)[crbit::grid_cell(crbit::width(&before), offset, mirror, 1, 2)] == m.xor_mode.spec_encode()[1],
{
    crbit::lemma_width_bound(&before);
    let f = grid_frame(crbit::width(&before) as usize, offset, mirror);
    let s = crbit::fuses(&before);
    lemma_mc_positions_distinct();
    lemma_mc_bits_fields(m);
    lemma_columns_between(f, mc_crbit_256_xs(), 0, 9);
    lemma_table_writes(s, f, mc_crbit_256_xs(), mc_crbit_256_ys(), mc_inverted(), mc_bits(m));
    assert(mc_crbit_256_xs()[0] == 9 && mc_crbit_256_ys()[0] == 0);
    assert(mc_crbit_256_xs()[1] == 7 && mc_crbit_256_ys()[1] == 0);
    assert(mc_crbit_256_xs()[2] == 8 && mc_crbit_256_ys()[2] == 0);
    assert(mc_crbit_256_xs()[3] == 5 && mc_crbit_256_ys()[3] == 0);
    assert(mc_crbit_256_xs()[4] == 6 && mc_crbit_256_ys()[4] == 0);
    assert(mc_crbit_256_xs()[5] == 4 && mc_crbit_256_ys()[5] == 2);
    assert(mc_crbit_256_xs()[6] == 5 && mc_crbit_256_ys()[6] == 2);
    assert(mc_crbit_256_xs()[7] == 1 && mc_crbit_256_ys()[7] == 1);
    assert(mc_crbit_256_xs()[8] == 2 && mc_crbit_256_ys()[8] == 1);
    assert(mc_crbit_256_xs()[9] == 0 && mc_crbit_256_ys()[9] == 1);
    assert(mc_crbit_256_xs()[10] == 6 && mc_crbit_256_ys()[10] == 2);
    assert(mc_crbit_256_xs()[11] == 7 && mc_crbit_256_ys()[11] == 2);
    assert(mc_crbit_256_xs()[12] == 2 && mc_crbit_256_ys()[12] == 0);
    assert(mc_crbit_256_xs()[13] == 3 && mc_crbit_256_ys()[13] == 0);
    assert(mc_crbit_256_xs()[14] == 9 && mc_crbit_256_ys()[14] == 1);
    assert(mc_crbit_256_xs()[15] == 0 && mc_crbit_256_ys()[15] == 2);
    assert(mc_crbit_256_xs()[16] == 1 && mc_crbit_256_ys()[16] == 2);
}

/// Encoding a macrocell in the `CrbitLarge` layout stores each setting at its own place in the
/// crbit array, counted from the placement origin (backwards along a mirrored axis); an
/// inverted fuse holds the complement: the clock source at (8, 0), (9, 0), (10, 0); the clock
/// polarity at (12, 0); the DDR mode at (11, 0); the reset source at (11, 1), (12, 1); the set
/// source at (13, 1), (14, 1); the initial state at (14, 0) inverted; the register mode at
/// (9, 1), (10, 1); the ZIA feedback at (2, 0), (3, 0); the IOB direct path at (13, 0)
/// inverted; the XOR input at (0, 1), (1, 1).
pub proof fn lemma_mc_crbit_large_places(m: XC2Macrocell, before: FuseArray, after: FuseArray, offset: [isize; 2], mirror: [bool; 2])
    requires
        <XC2Macrocell as BitFragment<CrbitLarge>>::spec_encode_fits(&before, offset, mirror, ()),
        crbit::grid_columns_inside(crbit::width(&before), offset, mirror, 0, 14),
        <XC2Macrocell as BitFragment<CrbitLarge>>::spec_encode_result(&m, &before, &after, offset, mirror, ()),
    ensures
        crbit::fuses(&after)[crbit::grid_cell(crbit::width(&before), offset, mirror, 8, 0)] == m.clk_src.spec_encode()[0],
        crbit::fuses(&after)[crbit::grid_cell(crbit::width(&before), offset, mirror, 9, 0)] == m.clk_src.spec_encode()[1],
        crbit::fuses(&after)[crbit::grid_cell(crbit::width(&before), offset, mirror, 10, 0)] == m.clk_src.spec_encode()[2],
        crbit::fuses(&after)[crbit::grid_cell(crbit::width(&before), offset, mirror, 12, 0)] == m.clk_invert_pol,
        crbit::fuses(&after)[crbit::grid_cell(crbit::width(&before), offset, mirror, 11, 0)] == m.is_ddr,
        crbit::fuses(&after)[crbit::grid_cell(crbit::width(&before), offset, mirror, 11, 1)] == m.r_src.spec_encode()[0],
        crbit::fuses(&after)[crbit::grid_cell(crbit::width(&before), offset, mirror, 12, 1)] == m.r_src.spec_encode()[1],
        crbit::fuses(&after)[crbit::grid_cell(crbit::width(&before), offset, mirror, 13, 1)] == m.s_src.spec_encode()[0],
        crbit::fuses(&after)[crbit::grid_cell(crbit::width(&before), offset, mirror, 14, 1)] == m.s_src.spec_encode()[1],
        crbit::fuses(&after)[crbit::grid_cell(crbit::width(&before), offset, mirror, 14, 0)] == !m.init_state,
        crbit::fuses(&after)[crbit::grid_cell(crbit::width(&before), offset, mirror, 9, 1)] == m.reg_mode.spec_encode()[0],
        crbit::fuses(&after)[crbit::grid_cell(crbit::width(&before), offset, mirror, 10, 1)] == m.reg_mode.spec_encode()[1],
        crbit::fuses(&after)[crbit::grid_cell(crbit::width(&before), offset, mirror, 2, 0)] == m.fb_mode.spec_encode()[0],
        crbit::fuses(&after)[crbit::grid_cell(crbit::width(&before), offset, mirror, 3, 0)] == m.fb_mode.spec_encode()[1],
        crbit::fuses(&after)[crbit::grid_cell(crbit::width(&before), offset, mirror, 13, 0)] == !m.ff_in_ibuf,
        crbit::fuses(&after)[crbit::grid_cell(crbit::width(&before), offset, mirror, 0, 1)] == m.xor_mode.spec_encode()[0],
        crbit::fuses(&after)[crbit::grid_cell(crbit::width(&before), offset, mirror, 1, 1)] == m.xor_mode.spec_encode()[1],
{
    crbit::lemma_width_bound(&before);
    let f = grid_frame(crbit::width(&before) as usize, offset, mirror);
    let s = crbit::fuses(&before);
    lemma_mc_positions_distinct();
    lemma_mc_bits_fields(m);
    lemma_columns_between(f, mc_crbit_large_xs(), 0, 14);
    lemma_table_writes(s, f, mc_crbit_large_xs(), mc_crbit_large_ys(), mc_inverted(), mc_bits(m));
    assert(mc_crbit_large_xs()[0] == 8 && mc_crbit_large_ys()[0] == 0);
    assert(mc_crbit_large_xs()[1] == 9 && mc_crbit_large_ys()[1] == 0);
    assert(mc_crbit_large_xs()[2] == 10 && mc_crbit_large_ys()[2] == 0);
    assert(mc_crbit_large_xs()[3] == 12 && mc_crbit_large_ys()[3] == 0);
    assert(mc_crbit_large_xs()[4] == 11 && mc_crbit_large_ys()[4] == 0);
    assert(mc_crbit_large_xs()[5] == 11 && mc_crbit_large_ys()[5] == 1);
    assert(mc_crbit_large_xs()[6] == 12 && mc_crbit_large_ys()[6] == 1);
    assert(mc_crbit_large_xs()[7] == 13 && mc_crbit_large_ys()[7] == 1);
    assert(mc_crbit_large_xs()[8] == 14 && mc_crbit_large_ys()[8] == 1);
    assert(mc_crbit_large_xs()[9] == 14 && mc_crbit_large_ys()[9] == 0);
    assert(mc_crbit_large_xs()[10] == 9 && mc_crbit_large_ys()[10] == 1);
    assert(mc_crbit_large_xs()[11] == 10 && mc_crbit_large_ys()[11] == 1);
    assert(mc_crbit_large_xs()[12] == 2 && mc_crbit_large_ys()[12] == 0);
    assert(mc_crbit_large_xs()[13] == 3 && mc_crbit_large_ys()[13] == 0);
    assert(mc_crbit_large_xs()[14] == 13 && mc_crbit_large_ys()[14] == 0);
    assert(mc_crbit_large_xs()[15] == 0 && mc_crbit_large_ys()[15] == 1);
    assert(mc_crbit_large_xs()[16] == 1 && mc_crbit_large_ys()[16] == 1);
}
/// The text for a register mode.
pub open spec fn reg_mode_text(m: XC2MCRegMode) -> Seq<char> {
    match m {
        XC2MCRegMode::DFF => "D flip-flop"@,
        XC2MCRegMode::LATCH => "transparent latch"@,
        XC2MCRegMode::TFF => "T flip-flop"@,
        XC2MCRegMode::DFFCE => "D flip-flop with clock-enable"@,
    }
}

/// The text for a clock source.
pub open spec fn clk_src_text(c: XC2MCRegClkSrc) -> Seq<char> {
    match c {
        XC2MCRegClkSrc::GCK0 => "GCK0"@,
        XC2MCRegClkSrc::GCK1 => "GCK1"@,
        XC2MCRegClkSrc::GCK2 => "GCK2"@,
        XC2MCRegClkSrc::PTC => "PTC"@,
        XC2MCRegClkSrc::CTC => "CTC"@,
    }
}

/// The text for a set source.
pub open spec fn set_src_text(s: XC2MCRegSetSrc) -> Seq<char> {
    match s {
        XC2MCRegSetSrc::Disabled => "disabled"@,
        XC2MCRegSetSrc::PTA => "PTA"@,
        XC2MCRegSetSrc::GSR => "GSR"@,
        XC2MCRegSetSrc::CTS => "CTS"@,
    }
}

/// The text for a reset source.
pub open spec fn reset_src_text(r: XC2MCRegResetSrc) -> Seq<char> {
    match r {
        XC2MCRegResetSrc::Disabled => "disabled"@,
        XC2MCRegResetSrc::PTA => "PTA"@,
        XC2MCRegResetSrc::GSR => "GSR"@,
        XC2MCRegResetSrc::CTR => "CTR"@,
    }
}

/// The text for an XOR gate input.
pub open spec fn xor_mode_text(x: XC2MCXorMode) -> Seq<char> {
    match x {
        XC2MCXorMode::ZERO => "0"@,
        XC2MCXorMode::ONE => "1"@,
        XC2MCXorMode::PTC => "PTC"@,
        XC2MCXorMode::PTCB => "~PTC"@,
    }
}

/// The text for a feedback mode.
pub open spec fn fb_mode_text(f: XC2MCFeedbackMode) -> Seq<char> {
    match f {
        XC2MCFeedbackMode::Disabled => "disabled"@,
        XC2MCFeedbackMode::COMB => "combinatorial"@,
        XC2MCFeedbackMode::REG => "registered"@,
    }
}

/// `"yes"` or `"no"`.
pub open spec fn yes_no(b: bool) -> Seq<char> {
    if b {
        "yes"@
    } else {
        "no"@
    }
}

/// The human-readable description of a macrocell configuration.
pub open spec fn mc_text(m: XC2Macrocell) -> Seq<char> {
    "FF mode: "@ + reg_mode_text(m.reg_mode) + "\n"@ + "initial state: "@ + (if m.init_state {
        "1"@
    } else {
        "0"@
    }) + "\n"@ + (if m.clk_invert_pol {
        "falling"@
    } else {
        "rising"@
    }) + "-edge triggered\n"@ + "DDR: "@ + yes_no(m.is_ddr) + "\n"@ + "clock source: "@ + clk_src_text(m.clk_src)
        + "\n"@ + "set source: "@ + set_src_text(m.s_src) + "\n"@ + "reset source: "@ + reset_src_text(m.r_src)
        + "\n"@ + "using ibuf direct path: "@ + yes_no(m.ff_in_ibuf) + "\n"@ + "XOR gate input: "@ + xor_mode_text(
        m.xor_mode,
    ) + "\n"@ + "ZIA feedback: "@ + fb_mode_text(m.fb_mode) + "\n"@
}

/// The lines of the description of a macrocell configuration, in order.
pub open spec fn mc_lines(m: XC2Macrocell) -> Seq<Seq<char>> {
    seq![
        "FF mode: "@ + reg_mode_text(m.reg_mode) + "\n"@,
        "initial state: "@ + (if m.init_state {
            "1"@
        } else {
            "0"@
        }) + "\n"@,
        (if m.clk_invert_pol {
            "falling"@
        } else {
            "rising"@
        }) + "-edge triggered\n"@,
        "DDR: "@ + yes_no(m.is_ddr) + "\n"@,
        "clock source: "@ + clk_src_text(m.clk_src) + "\n"@,
        "set source: "@ + set_src_text(m.s_src) + "\n"@,
        "reset source: "@ + reset_src_text(m.r_src) + "\n"@,
        "using ibuf direct path: "@ + yes_no(m.ff_in_ibuf) + "\n"@,
        "XOR gate input: "@ + xor_mode_text(m.xor_mode) + "\n"@,
        "ZIA feedback: "@ + fb_mode_text(m.fb_mode) + "\n"@,
    ]
}

/// The description of a macrocell configuration is its lines one after another.
#[verifier::spinoff_prover]
#[verifier::rlimit(40)]
proof fn lemma_mc_text_lines(m: XC2Macrocell)
    ensures
        mc_text(m) == join(mc_lines(m)),
{
    let ls = mc_lines(m);
    let a0 = "FF mode: "@ + reg_mode_text(m.reg_mode) + "\n"@;
    assert(join(ls.take(1)) == a0) by {
        lemma_join_step(ls, 0);
        assert(a0 =~= join(ls.take(0)) + ls[0]);
    }
    let a1 = a0 + "initial state: "@ + (if m.init_state {
        "1"@
    } else {
        "0"@
    }) + "\n"@;
    assert(join(ls.take(2)) == a1) by {
        lemma_join_step(ls, 1);
        assert(a1 =~= a0 + ls[1]);
    }
    let a2 = a1 + (if m.clk_invert_pol {
        "falling"@
    } else {
        "rising"@
    }) + "-edge triggered\n"@;
    assert(join(ls.take(3)) == a2) by {
        lemma_join_step(ls, 2);
        assert(a2 =~= a1 + ls[2]);
    }
    let a3 = a2 + "DDR: "@ + yes_no(m.is_ddr) + "\n"@;
    assert(join(ls.take(4)) == a3) by {
        lemma_join_step(ls, 3);
        assert(a3 =~= a2 + ls[3]);
    }
    let a4 = a3 + "clock source: "@ + clk_src_text(m.clk_src) + "\n"@;
    assert(join(ls.take(5)) == a4) by {
        lemma_join_step(ls, 4);
        assert(a4 =~= a3 + ls[4]);
    }
    let a5 = a4 + "set source: "@ + set_src_text(m.s_src) + "\n"@;
    assert(join(ls.take(6)) == a5) by {
        lemma_join_step(ls, 5);
        assert(a5 =~= a4 + ls[5]);
    }
    let a6 = a5 + "reset source: "@ + reset_src_text(m.r_src) + "\n"@;
    assert(join(ls.take(7)) == a6) by {
        lemma_join_step(ls, 6);
        assert(a6 =~= a5 + ls[6]);
    }
    let a7 = a6 + "using ibuf direct path: "@ + yes_no(m.ff_in_ibuf) + "\n"@;
    assert(join(ls.take(8)) == a7) by {
        lemma_join_step(ls, 7);
        assert(a7 =~= a6 + ls[7]);
    }
    let a8 = a7 + "XOR gate input: "@ + xor_mode_text(m.xor_mode) + "\n"@;
    assert(join(ls.take(9)) == a8) by {
        lemma_join_step(ls, 8);
        assert(a8 =~= a7 + ls[8]);
    }
    let a9 = a8 + "ZIA feedback: "@ + fb_mode_text(m.fb_mode) + "\n"@;
    assert(join(ls.take(10)) == a9) by {
        lemma_join_step(ls, 9);
        assert(a9 =~= a8 + ls[9]);
    }
    assert(mc_text(m) == a9);
    assert(ls.take(10) =~= ls);
}

/// The description of a macrocell configuration has a line for each
/// setting: the register mode, the initial state, the clock edge, DDR, the
/// clock, set and reset sources, the IOB direct path, the XOR gate input
/// and the ZIA feedback, each named as shown.
pub proof fn lemma_mc_text_describes(m: XC2Macrocell)
    ensures
        has_text(
            mc_text(m),
            "FF mode: "@ + match m.reg_mode {
                XC2MCRegMode::DFF => "D flip-flop"@,
                XC2MCRegMode::LATCH => "transparent latch"@,
                XC2MCRegMode::TFF => "T flip-flop"@,
                XC2MCRegMode::DFFCE => "D flip-flop with clock-enable"@,
            } + "\n"@,
        ),
        has_text(mc_text(m), "initial state: "@ + (if m.init_state { "1"@ } else { "0"@ }) + "\n"@),
        has_text(mc_text(m), (if m.clk_invert_pol { "falling"@ } else { "rising"@ }) + "-edge triggered\n"@),
        has_text(mc_text(m), "DDR: "@ + (if m.is_ddr { "yes"@ } else { "no"@ }) + "\n"@),
        has_text(
            mc_text(m),
            "clock source: "@ + match m.clk_src {
                XC2MCRegClkSrc::GCK0 => "GCK0"@,
                XC2MCRegClkSrc::GCK1 => "GCK1"@,
                XC2MCRegClkSrc::GCK2 => "GCK2"@,
                XC2MCRegClkSrc::PTC => "PTC"@,
                XC2MCRegClkSrc::CTC => "CTC"@,
            } + "\n"@,
        ),
        has_text(
            mc_text(m),
            "set source: "@ + match m.s_src {
                XC2MCRegSetSrc::Disabled => "disabled"@,
                XC2MCRegSetSrc::PTA => "PTA"@,
                XC2MCRegSetSrc::GSR => "GSR"@,
                XC2MCRegSetSrc::CTS => "CTS"@,
            } + "\n"@,
        ),
        has_text(
            mc_text(m),
            "reset source: "@ + match m.r_src {
                XC2MCRegResetSrc::Disabled => "disabled"@,
                XC2MCRegResetSrc::PTA => "PTA"@,
                XC2MCRegResetSrc::GSR => "GSR"@,
                XC2MCRegResetSrc::CTR => "CTR"@,
            } + "\n"@,
        ),
        has_text(mc_text(m), "using ibuf direct path: "@ + (if m.ff_in_ibuf { "yes"@ } else { "no"@ }) + "\n"@),
        has_text(
            mc_text(m),
            "XOR gate input: "@ + match m.xor_mode {
                XC2MCXorMode::ZERO => "0"@,
                XC2MCXorMode::ONE => "1"@,
                XC2MCXorMode::PTC => "PTC"@,
                XC2MCXorMode::PTCB => "~PTC"@,
            } + "\n"@,
        ),
        has_text(
            mc_text(m),
            "ZIA feedback: "@ + match m.fb_mode {
                XC2MCFeedbackMode::Disabled => "disabled"@,
                XC2MCFeedbackMode::COMB => "combinatorial"@,
                XC2MCFeedbackMode::REG => "registered"@,
            } + "\n"@,
        ),
{
    lemma_mc_text_lines(m);
    let ls = mc_lines(m);
    lemma_join_has(ls, 0);
    lemma_join_has(ls, 1);
    lemma_join_has(ls, 2);
    lemma_join_has(ls, 3);
    lemma_join_has(ls, 4);
    lemma_join_has(ls, 5);
    lemma_join_has(ls, 6);
    lemma_join_has(ls, 7);
    lemma_join_has(ls, 8);
    lemma_join_has(ls, 9);
}

fn yes_no_str(b: bool) -> (s: &'static str)
    ensures
        s@ == yes_no(b),
{
    if b {
        "yes"
    } else {
        "no"
    }
}

impl XC2Macrocell {
    /// The human-readable description of this configuration, one setting
    /// per line.
    pub fn to_string(&self) -> (s: String)
        ensures
            s@ == mc_text(*self),
    {
        let mut s = String::new();
        s.append("FF mode: ");
        s.append(
            match self.reg_mode {
                XC2MCRegMode::DFF => "D flip-flop",
                XC2MCRegMode::LATCH => "transparent latch",
                XC2MCRegMode::TFF => "T flip-flop",
                XC2MCRegMode::DFFCE => "D flip-flop with clock-enable",
            },
        );
        s.append("\n");
        s.append("initial state: ");
        s.append(if self.init_state { "1" } else { "0" });
        s.append("\n");
        s.append(if self.clk_invert_pol { "falling" } else { "rising" });
        s.append("-edge triggered\n");
        s.append("DDR: ");
        s.append(yes_no_str(self.is_ddr));
        s.append("\n");
        s.append("clock source: ");
        s.append(
            match self.clk_src {
                XC2MCRegClkSrc::GCK0 => "GCK0",
                XC2MCRegClkSrc::GCK1 => "GCK1",
                XC2MCRegClkSrc::GCK2 => "GCK2",
                XC2MCRegClkSrc::PTC => "PTC",
                XC2MCRegClkSrc::CTC => "CTC",
            },
        );
        s.append("\n");
        s.append("set source: ");
        s.append(
            match self.s_src {
                XC2MCRegSetSrc::Disabled => "disabled",
                XC2MCRegSetSrc::PTA => "PTA",
                XC2MCRegSetSrc::GSR => "GSR",
                XC2MCRegSetSrc::CTS => "CTS",
            },
        );
        s.append("\n");
        s.append("reset source: ");
        s.append(
            match self.r_src {
                XC2MCRegResetSrc::Disabled => "disabled",
                XC2MCRegResetSrc::PTA => "PTA",
                XC2MCRegResetSrc::GSR => "GSR",
                XC2MCRegResetSrc::CTR => "CTR",
            },
        );
        s.append("\n");
        s.append("using ibuf direct path: ");
        s.append(yes_no_str(self.ff_in_ibuf));
        s.append("\n");
        s.append("XOR gate input: ");
        s.append(
            match self.xor_mode {
                XC2MCXorMode::ZERO => "0",
                XC2MCXorMode::ONE => "1",
                XC2MCXorMode::PTC => "PTC",
                XC2MCXorMode::PTCB => "~PTC",
            },
        );
        s.append("\n");
        s.append("ZIA feedback: ");
        s.append(
            match self.fb_mode {
                XC2MCFeedbackMode::Disabled => "disabled",
                XC2MCFeedbackMode::COMB => "combinatorial",
                XC2MCFeedbackMode::REG => "registered",
            },
        );
        s.append("\n");
        s
    }
}

} // verus!
