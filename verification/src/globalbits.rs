//! Global control bits: the global nets and the clock divider.
use vstd::prelude::*;
use vstd::string::*;

use crate::bitfragment::{
    columns_inside, lemma_columns_between, lemma_read_after_write, lemma_table_layout_distinct, lemma_table_writes,
    lemma_write_what_was_read, place, positions_distinct,
    apply_writes, layout_fits, read_slots, read_slots_from, slot_writes, table_layout, table_layout_vec,
    write_slots, BitFragment, BitFragmentFieldType, BitSlot, Frame,
};
use crate::crbit;
use crate::crbit::{grid_frame, FuseArray};
use crate::device::XC2Device;
use crate::pla::line_frame;
use crate::{NUM_BUFG_CLK, NUM_BUFG_GTS};
use crate::text::{digit_char, digit_name_pos, digit_str, has_text, join, lemma_join_has, lemma_join_step};
use crate::bitpattern::{
    char_accepts, lemma_first_match_iff, pattern_decode, pattern_encode, spec_first_match, spec_pattern_encode,
    spec_pattern_matches, str_views, BitPattern,
};

verus! {

/// Selects the JED layout shared by all devices that have it.
pub enum JedCommon {
    Layout,
}

/// Selects the JED layout of the XC2C32.
pub enum JedXC2C32 {
    Layout,
}

/// Selects the JED layout of the XC2C64.
pub enum JedXC2C64 {
    Layout,
}

/// Selects the JED layout of the XC2C128.
pub enum JedXC2C128 {
    Layout,
}

/// Selects the JED layout of the XC2C256.
pub enum JedXC2C256 {
    Layout,
}

/// Selects the JED layout of the XC2C384.
pub enum JedXC2C384 {
    Layout,
}

/// Selects the JED layout of the XC2C512.
pub enum JedXC2C512 {
    Layout,
}

/// Selects the crbit layout of the XC2C32.
pub enum CrbitXC2C32 {
    Layout,
}

/// Selects the crbit layout of the XC2C64.
pub enum CrbitXC2C64 {
    Layout,
}

/// Selects the crbit layout of the XC2C128.
pub enum CrbitXC2C128 {
    Layout,
}

/// Selects the crbit layout of the XC2C256.
pub enum CrbitXC2C256 {
    Layout,
}

/// Selects the crbit layout of the XC2C384.
pub enum CrbitXC2C384 {
    Layout,
}

/// Selects the crbit layout of the XC2C512.
pub enum CrbitXC2C512 {
    Layout,
}

/// Represents the configuration of the global nets. Coolrunner-II parts have various global control
/// signals that have
/// dedicated low-skew paths.
#[derive(Copy, Clone, Eq, PartialEq, Hash, Debug)]
pub struct XC2GlobalNets {
    /// Controls whether the three global clock nets are enabled or not
    pub gck_enable: [bool; NUM_BUFG_CLK],
    /// Controls whether the global set/reset net is enabled or not
    pub gsr_enable: bool,
    /// Controls the polarity of the global set/reset signal
    ///
    /// `false` = active low, `true` = active high
    pub gsr_invert: bool,
    /// Controls whether the four global tristate nets are enabled or not
    pub gts_enable: [bool; NUM_BUFG_GTS],
    /// Controls the polarity of the global tristate signal
    ///
    /// `false` = used as T, `true` = used as !T
    pub gts_invert: [bool; NUM_BUFG_GTS],
    /// Controls the mode of the global termination
    ///
    /// `false` = keeper, `true` = pull-up
    pub global_pu: bool,
}

/// Possible clock divide ratios for the programmable clock divider
#[derive(Copy, Clone, Eq, PartialEq, Hash, Debug, Structural)]
pub enum XC2ClockDivRatio {
    Div2,
    Div4,
    Div6,
    Div8,
    Div10,
    Div12,
    Div14,
    Div16,
}

/// The pattern strings of `XC2ClockDivRatio`, in variant order.
pub open spec fn div_ratio_patterns() -> Seq<Seq<char>> {
    seq![
        seq!['0', '0', '0'],
        seq!['0', '0', '1'],
        seq!['0', '1', '0'],
        seq!['0', '1', '1'],
        seq!['1', '0', '0'],
        seq!['1', '0', '1'],
        seq!['1', '1', '0'],
        seq!['1', '1', '1'],
    ]
}

/// The variant index of a `XC2ClockDivRatio`.
pub open spec fn div_ratio_index(v: XC2ClockDivRatio) -> int {
    match v {
        XC2ClockDivRatio::Div2 => 0,
        XC2ClockDivRatio::Div4 => 1,
        XC2ClockDivRatio::Div6 => 2,
        XC2ClockDivRatio::Div8 => 3,
        XC2ClockDivRatio::Div10 => 4,
        XC2ClockDivRatio::Div12 => 5,
        XC2ClockDivRatio::Div14 => 6,
        XC2ClockDivRatio::Div16 => 7,
    }
}

/// The `XC2ClockDivRatio` with variant index `i`.
pub open spec fn div_ratio_at(i: int) -> XC2ClockDivRatio {
    if i == 0 {
        XC2ClockDivRatio::Div2
    } else if i == 1 {
        XC2ClockDivRatio::Div4
    } else if i == 2 {
        XC2ClockDivRatio::Div6
    } else if i == 3 {
        XC2ClockDivRatio::Div8
    } else if i == 4 {
        XC2ClockDivRatio::Div10
    } else if i == 5 {
        XC2ClockDivRatio::Div12
    } else if i == 6 {
        XC2ClockDivRatio::Div14
    } else {
        XC2ClockDivRatio::Div16
    }
}

fn div_ratio_at_exec(i: usize) -> (v: XC2ClockDivRatio)
    ensures
        v == div_ratio_at(i as int),
{
    if i == 0 {
        XC2ClockDivRatio::Div2
    } else if i == 1 {
        XC2ClockDivRatio::Div4
    } else if i == 2 {
        XC2ClockDivRatio::Div6
    } else if i == 3 {
        XC2ClockDivRatio::Div8
    } else if i == 4 {
        XC2ClockDivRatio::Div10
    } else if i == 5 {
        XC2ClockDivRatio::Div12
    } else if i == 6 {
        XC2ClockDivRatio::Div14
    } else {
        XC2ClockDivRatio::Div16
    }
}

fn div_ratio_pattern_strs() -> (v: Vec<&'static str>)
    ensures
        v@.len() == 8,
        str_views(v@) == div_ratio_patterns(),
{
    let v = vec!["000", "001", "010", "011", "100", "101", "110", "111"];
    proof {
        reveal_strlit("000");
        reveal_strlit("001");
        reveal_strlit("010");
        reveal_strlit("011");
        reveal_strlit("100");
        reveal_strlit("101");
        reveal_strlit("110");
        reveal_strlit("111");
        assert(v@[0]@ =~= div_ratio_patterns()[0]);
        assert(v@[1]@ =~= div_ratio_patterns()[1]);
        assert(v@[2]@ =~= div_ratio_patterns()[2]);
        assert(v@[3]@ =~= div_ratio_patterns()[3]);
        assert(v@[4]@ =~= div_ratio_patterns()[4]);
        assert(v@[5]@ =~= div_ratio_patterns()[5]);
        assert(v@[6]@ =~= div_ratio_patterns()[6]);
        assert(v@[7]@ =~= div_ratio_patterns()[7]);
        assert(str_views(v@) =~= div_ratio_patterns());
    }
    v
}

/// The name of variant `var` of `XC2ClockDivRatio`.
pub open spec fn div_ratio_variant_name(var: int) -> Seq<char> {
    if var == 0 {
        "Div2"@
    } else if var == 1 {
        "Div4"@
    } else if var == 2 {
        "Div6"@
    } else if var == 3 {
        "Div8"@
    } else if var == 4 {
        "Div10"@
    } else if var == 5 {
        "Div12"@
    } else if var == 6 {
        "Div14"@
    } else {
        "Div16"@
    }
}

/// The documentation of variant `var` of `XC2ClockDivRatio`.
pub open spec fn div_ratio_variant_desc(var: int) -> Seq<char> {
    if var == 0 {
        ""@
    } else if var == 1 {
        ""@
    } else if var == 2 {
        ""@
    } else if var == 3 {
        ""@
    } else if var == 4 {
        ""@
    } else if var == 5 {
        ""@
    } else if var == 6 {
        ""@
    } else {
        ""@
    }
}

impl BitPattern<()> for XC2ClockDivRatio {
    type ErrType = ();

    open spec fn spec_bits_count() -> nat {
        3
    }

    open spec fn spec_variant_count() -> nat {
        8
    }

    open spec fn spec_encode(&self) -> Seq<bool> {
        spec_pattern_encode(div_ratio_patterns()[div_ratio_index(*self)])
    }

    open spec fn spec_decode(bits: Seq<bool>) -> Result<XC2ClockDivRatio, ()> {
        match spec_first_match(div_ratio_patterns(), bits) {
            Some(i) => Ok(div_ratio_at(i as int)),
            None => Err(()),
        }
    }

    open spec fn spec_bit_name(pos: int) -> Seq<char> {
        seq![digit_char(pos as nat)]
    }

    open spec fn spec_variant_name(var: int) -> Seq<char> {
        div_ratio_variant_name(var)
    }

    open spec fn spec_variant_desc(var: int) -> Seq<char> {
        div_ratio_variant_desc(var)
    }

    open spec fn spec_variant_bits(var: int) -> Seq<char> {
        div_ratio_patterns()[var]
    }

    fn bits_count() -> (n: usize) {
        3
    }

    fn variant_count() -> (n: usize) {
        8
    }

    fn encode(&self) -> (bits: Vec<bool>) {
        let pats = div_ratio_pattern_strs();
        let i: usize = match self {
            XC2ClockDivRatio::Div2 => 0,
            XC2ClockDivRatio::Div4 => 1,
            XC2ClockDivRatio::Div6 => 2,
            XC2ClockDivRatio::Div8 => 3,
            XC2ClockDivRatio::Div10 => 4,
            XC2ClockDivRatio::Div12 => 5,
            XC2ClockDivRatio::Div14 => 6,
            XC2ClockDivRatio::Div16 => 7,
        };
        proof {
            assert(pats@[i as int]@ == str_views(pats@)[i as int]);
        }
        pattern_encode(pats[i])
    }

    fn decode(bits: &[bool]) -> (r: Result<XC2ClockDivRatio, ()>) {
        let pats = div_ratio_pattern_strs();
        match pattern_decode(pats.as_slice(), bits) {
            Some(i) => Ok(div_ratio_at_exec(i)),
            None => Err(()),
        }
    }

    fn _pos_to_name(pos: usize) -> (name: &'static str) {
        digit_str(pos)
    }

    fn _name_to_pos(name: &str) -> (pos: usize) {
        digit_name_pos(name, 3)
    }

    fn variantname(var: usize) -> (name: &'static str) {
        if var == 0 {
            "Div2"
        } else if var == 1 {
            "Div4"
        } else if var == 2 {
            "Div6"
        } else if var == 3 {
            "Div8"
        } else if var == 4 {
            "Div10"
        } else if var == 5 {
            "Div12"
        } else if var == 6 {
            "Div14"
        } else {
            "Div16"
        }
    }

    fn variantdesc(var: usize) -> (desc: &'static str) {
        if var == 0 {
            ""
        } else if var == 1 {
            ""
        } else if var == 2 {
            ""
        } else if var == 3 {
            ""
        } else if var == 4 {
            ""
        } else if var == 5 {
            ""
        } else if var == 6 {
            ""
        } else {
            ""
        }
    }

    fn variantbits(var: usize) -> (bits: &'static str) {
        let pats = div_ratio_pattern_strs();
        proof {
            assert(pats@[var as int]@ == str_views(pats@)[var as int]);
        }
        pats[var]
    }
}

/// Decoding the bits of a `XC2ClockDivRatio` gives it back.
pub proof fn lemma_div_ratio_roundtrip(v: XC2ClockDivRatio)
    ensures
        <XC2ClockDivRatio as BitPattern<()>>::spec_decode(v.spec_encode()) == Ok::<XC2ClockDivRatio, ()>(v),
{
    let pats = div_ratio_patterns();
    let bits = v.spec_encode();
    lemma_first_match_iff(pats, bits);
    let i = div_ratio_index(v);
    assert(spec_pattern_matches(pats[i], bits));
    assert forall|j: int| 0 <= j < i implies !spec_pattern_matches(#[trigger] pats[j], bits) by {
        assert(!char_accepts(pats[j][0], bits[0]) || !char_accepts(pats[j][1], bits[1]) || !char_accepts(pats[j][2], bits[2]));
    }
}

/// Each `XC2ClockDivRatio` encodes as its own bits, first bit first: `Div2` as 000, `Div4` as 001,
/// `Div6` as 010, `Div8` as 011, `Div10` as 100, `Div12` as 101, `Div14` as 110, `Div16` as 111.
pub proof fn lemma_div_ratio_bits(v: XC2ClockDivRatio)
    ensures
        v.spec_encode() == match v {
            XC2ClockDivRatio::Div2 => seq![false, false, false],
            XC2ClockDivRatio::Div4 => seq![false, false, true],
            XC2ClockDivRatio::Div6 => seq![false, true, false],
            XC2ClockDivRatio::Div8 => seq![false, true, true],
            XC2ClockDivRatio::Div10 => seq![true, false, false],
            XC2ClockDivRatio::Div12 => seq![true, false, true],
            XC2ClockDivRatio::Div14 => seq![true, true, false],
            XC2ClockDivRatio::Div16 => seq![true, true, true],
        },
{
    match v {
        XC2ClockDivRatio::Div2 => assert(v.spec_encode() =~= seq![false, false, false]),
        XC2ClockDivRatio::Div4 => assert(v.spec_encode() =~= seq![false, false, true]),
        XC2ClockDivRatio::Div6 => assert(v.spec_encode() =~= seq![false, true, false]),
        XC2ClockDivRatio::Div8 => assert(v.spec_encode() =~= seq![false, true, true]),
        XC2ClockDivRatio::Div10 => assert(v.spec_encode() =~= seq![true, false, false]),
        XC2ClockDivRatio::Div12 => assert(v.spec_encode() =~= seq![true, false, true]),
        XC2ClockDivRatio::Div14 => assert(v.spec_encode() =~= seq![true, true, false]),
        XC2ClockDivRatio::Div16 => assert(v.spec_encode() =~= seq![true, true, true]),
    }
}

/// Which `XC2ClockDivRatio` each group of 3 bits decodes to, first bit first; the
/// first pattern that matches wins and `x` or `X` matches either bit: `Div2` for 000, `Div4` for
/// 001, `Div6` for 010, `Div8` for 011, `Div10` for 100, `Div12` for 101, `Div14` for 110, `Div16`
/// for 111.
pub proof fn lemma_div_ratio_decode(bits: Seq<bool>)
    requires
        bits.len() == 3,
    ensures
        <XC2ClockDivRatio as BitPattern<()>>::spec_decode(bits) == Ok::<XC2ClockDivRatio, ()>(
            if !bits[0] && !bits[1] && !bits[2] {
                XC2ClockDivRatio::Div2
            } else if !bits[0] && !bits[1] && bits[2] {
                XC2ClockDivRatio::Div4
            } else if !bits[0] && bits[1] && !bits[2] {
                XC2ClockDivRatio::Div6
            } else if !bits[0] && bits[1] && bits[2] {
                XC2ClockDivRatio::Div8
            } else if bits[0] && !bits[1] && !bits[2] {
                XC2ClockDivRatio::Div10
            } else if bits[0] && !bits[1] && bits[2] {
                XC2ClockDivRatio::Div12
            } else if bits[0] && bits[1] && !bits[2] {
                XC2ClockDivRatio::Div14
            } else {
                XC2ClockDivRatio::Div16
            },
        ),
{
    let pats = div_ratio_patterns();
    lemma_first_match_iff(pats, bits);
    if !bits[0] && !bits[1] && !bits[2] {
        assert(spec_pattern_matches(pats[0], bits));
    } else if !bits[0] && !bits[1] && bits[2] {
        assert(spec_pattern_matches(pats[1], bits));
        assert(!char_accepts(pats[0][2], bits[2]));
    } else if !bits[0] && bits[1] && !bits[2] {
        assert(spec_pattern_matches(pats[2], bits));
        assert(!char_accepts(pats[0][1], bits[1]));
        assert(!char_accepts(pats[1][1], bits[1]));
    } else if !bits[0] && bits[1] && bits[2] {
        assert(spec_pattern_matches(pats[3], bits));
        assert(!char_accepts(pats[0][1], bits[1]));
        assert(!char_accepts(pats[1][1], bits[1]));
        assert(!char_accepts(pats[2][2], bits[2]));
    } else if bits[0] && !bits[1] && !bits[2] {
        assert(spec_pattern_matches(pats[4], bits));
        assert(!char_accepts(pats[0][0], bits[0]));
        assert(!char_accepts(pats[1][0], bits[0]));
        assert(!char_accepts(pats[2][0], bits[0]));
        assert(!char_accepts(pats[3][0], bits[0]));
    } else if bits[0] && !bits[1] && bits[2] {
        assert(spec_pattern_matches(pats[5], bits));
        assert(!char_accepts(pats[0][0], bits[0]));
        assert(!char_accepts(pats[1][0], bits[0]));
        assert(!char_accepts(pats[2][0], bits[0]));
        assert(!char_accepts(pats[3][0], bits[0]));
        assert(!char_accepts(pats[4][2], bits[2]));
    } else if bits[0] && bits[1] && !bits[2] {
        assert(spec_pattern_matches(pats[6], bits));
        assert(!char_accepts(pats[0][0], bits[0]));
        assert(!char_accepts(pats[1][0], bits[0]));
        assert(!char_accepts(pats[2][0], bits[0]));
        assert(!char_accepts(pats[3][0], bits[0]));
        assert(!char_accepts(pats[4][1], bits[1]));
        assert(!char_accepts(pats[5][1], bits[1]));
    } else if bits[0] && bits[1] && bits[2] {
        assert(spec_pattern_matches(pats[7], bits));
        assert(!char_accepts(pats[0][0], bits[0]));
        assert(!char_accepts(pats[1][0], bits[0]));
        assert(!char_accepts(pats[2][0], bits[0]));
        assert(!char_accepts(pats[3][0], bits[0]));
        assert(!char_accepts(pats[4][1], bits[1]));
        assert(!char_accepts(pats[5][1], bits[1]));
        assert(!char_accepts(pats[6][2], bits[2]));
    }
}

/// The variants of `XC2ClockDivRatio` in declaration order, each with its name, its
/// documentation and the bit pattern it is listed under.
pub proof fn lemma_div_ratio_table()
    ensures
        <XC2ClockDivRatio as BitPattern<()>>::spec_variant_count() == 8,
        <XC2ClockDivRatio as BitPattern<()>>::spec_bits_count() == 3,
        <XC2ClockDivRatio as BitPattern<()>>::spec_variant_name(0) == "Div2"@,
        <XC2ClockDivRatio as BitPattern<()>>::spec_variant_desc(0) == ""@,
        <XC2ClockDivRatio as BitPattern<()>>::spec_variant_bits(0) == seq!['0', '0', '0'],
        <XC2ClockDivRatio as BitPattern<()>>::spec_variant_name(1) == "Div4"@,
        <XC2ClockDivRatio as BitPattern<()>>::spec_variant_desc(1) == ""@,
        <XC2ClockDivRatio as BitPattern<()>>::spec_variant_bits(1) == seq!['0', '0', '1'],
        <XC2ClockDivRatio as BitPattern<()>>::spec_variant_name(2) == "Div6"@,
        <XC2ClockDivRatio as BitPattern<()>>::spec_variant_desc(2) == ""@,
        <XC2ClockDivRatio as BitPattern<()>>::spec_variant_bits(2) == seq!['0', '1', '0'],
        <XC2ClockDivRatio as BitPattern<()>>::spec_variant_name(3) == "Div8"@,
        <XC2ClockDivRatio as BitPattern<()>>::spec_variant_desc(3) == ""@,
        <XC2ClockDivRatio as BitPattern<()>>::spec_variant_bits(3) == seq!['0', '1', '1'],
        <XC2ClockDivRatio as BitPattern<()>>::spec_variant_name(4) == "Div10"@,
        <XC2ClockDivRatio as BitPattern<()>>::spec_variant_desc(4) == ""@,
        <XC2ClockDivRatio as BitPattern<()>>::spec_variant_bits(4) == seq!['1', '0', '0'],
        <XC2ClockDivRatio as BitPattern<()>>::spec_variant_name(5) == "Div12"@,
        <XC2ClockDivRatio as BitPattern<()>>::spec_variant_desc(5) == ""@,
        <XC2ClockDivRatio as BitPattern<()>>::spec_variant_bits(5) == seq!['1', '0', '1'],
        <XC2ClockDivRatio as BitPattern<()>>::spec_variant_name(6) == "Div14"@,
        <XC2ClockDivRatio as BitPattern<()>>::spec_variant_desc(6) == ""@,
        <XC2ClockDivRatio as BitPattern<()>>::spec_variant_bits(6) == seq!['1', '1', '0'],
        <XC2ClockDivRatio as BitPattern<()>>::spec_variant_name(7) == "Div16"@,
        <XC2ClockDivRatio as BitPattern<()>>::spec_variant_desc(7) == ""@,
        <XC2ClockDivRatio as BitPattern<()>>::spec_variant_bits(7) == seq!['1', '1', '1'],
{
}

/// The 14 bits of a global net configuration in storage order: the three
/// GCK enables, the GSR enable and polarity, the four GTS enables, the four
/// GTS polarities and the termination mode.
pub open spec fn global_nets_bits(n: XC2GlobalNets) -> Seq<bool> {
    seq![
        n.gck_enable[0],
        n.gck_enable[1],
        n.gck_enable[2],
        n.gsr_enable,
        n.gsr_invert,
        n.gts_enable[0],
        n.gts_enable[1],
        n.gts_enable[2],
        n.gts_enable[3],
        n.gts_invert[0],
        n.gts_invert[1],
        n.gts_invert[2],
        n.gts_invert[3],
        n.global_pu,
    ]
}

/// Which of the 14 global net bits are stored inverted: the GTS enables.
pub open spec fn global_nets_inverted() -> Seq<bool> {
    seq![false, false, false, false, false, true, true, true, true, false, false, false, false, false]
}

fn global_nets_inverted_arr() -> (a: [bool; 14])
    ensures
        a@ == global_nets_inverted(),
{
    let a = [false, false, false, false, false, true, true, true, true, false, false, false, false, false];
    assert(a@ =~= global_nets_inverted());
    a
}

/// The global net configuration whose bits in storage order are `bits`,
/// where there is one.
pub open spec fn global_nets_of(bits: Seq<bool>) -> XC2GlobalNets {
    choose|n: XC2GlobalNets| global_nets_bits(n) == bits
}

/// A global net configuration is determined by its bits.
pub proof fn lemma_global_nets_bits_injective(a: XC2GlobalNets, b: XC2GlobalNets)
    requires
        global_nets_bits(a) == global_nets_bits(b),
    ensures
        a == b,
{
    let sa = global_nets_bits(a);
    let sb = global_nets_bits(b);
    assert(sa[0] == sb[0] && sa[1] == sb[1] && sa[2] == sb[2]);
    assert(sa[5] == sb[5] && sa[6] == sb[6] && sa[7] == sb[7] && sa[8] == sb[8]);
    assert(sa[9] == sb[9] && sa[10] == sb[10] && sa[11] == sb[11] && sa[12] == sb[12]);
    assert(sa[3] == sb[3] && sa[4] == sb[4] && sa[13] == sb[13]);
    assert(a.gck_enable =~= b.gck_enable);
    assert(a.gts_enable =~= b.gts_enable);
    assert(a.gts_invert =~= b.gts_invert);
}

/// Every global net configuration is the one of its bits.
pub proof fn lemma_global_nets_of(n: XC2GlobalNets)
    ensures
        global_nets_of(global_nets_bits(n)) == n,
{
    let m = global_nets_of(global_nets_bits(n));
    assert(global_nets_bits(m) == global_nets_bits(n));
    lemma_global_nets_bits_injective(m, n);
}

impl XC2GlobalNets {
    fn to_bits(&self) -> (v: Vec<bool>)
        ensures
            v@ == global_nets_bits(*self),
    {
        let v = vec![
            self.gck_enable[0],
            self.gck_enable[1],
            self.gck_enable[2],
            self.gsr_enable,
            self.gsr_invert,
            self.gts_enable[0],
            self.gts_enable[1],
            self.gts_enable[2],
            self.gts_enable[3],
            self.gts_invert[0],
            self.gts_invert[1],
            self.gts_invert[2],
            self.gts_invert[3],
            self.global_pu,
        ];
        assert(v@ =~= global_nets_bits(*self));
        v
    }

    fn from_bits(v: &[bool]) -> (n: Self)
        requires
            v@.len() == 14,
        ensures
            global_nets_bits(n) == v@,
            global_nets_of(v@) == n,
    {
        let n = XC2GlobalNets {
            gck_enable: [v[0], v[1], v[2]],
            gsr_enable: v[3],
            gsr_invert: v[4],
            gts_enable: [v[5], v[6], v[7], v[8]],
            gts_invert: [v[9], v[10], v[11], v[12]],
            global_pu: v[13],
        };
        assert(global_nets_bits(n) =~= v@);
        proof {
            lemma_global_nets_of(n);
        }
        n
    }
}

/// The first of the 14 global net bits that belongs to field `f`.
pub open spec fn global_nets_first_bit(f: int) -> int {
    if f == 0 {
        0
    } else if f == 1 {
        3
    } else if f == 2 {
        4
    } else if f == 3 {
        5
    } else if f == 4 {
        9
    } else {
        13
    }
}

fn global_nets_first_bit_exec(f: usize) -> (k: usize)
    requires
        f < 6,
    ensures
        k == global_nets_first_bit(f as int),
{
    if f == 0 {
        0
    } else if f == 1 {
        3
    } else if f == 2 {
        4
    } else if f == 3 {
        5
    } else if f == 4 {
        9
    } else {
        13
    }
}

/// The number of elements of global net field `f`.
pub open spec fn global_nets_field_elems(f: int) -> nat {
    if f == 0 {
        3
    } else if f == 3 || f == 4 {
        4
    } else {
        1
    }
}

/// The name of global net field `f`.
pub open spec fn global_nets_field_name(f: int) -> Seq<char> {
    if f == 0 {
        "gck_enable"@
    } else if f == 1 {
        "gsr_enable"@
    } else if f == 2 {
        "gsr_invert"@
    } else if f == 3 {
        "gts_enable"@
    } else if f == 4 {
        "gts_invert"@
    } else {
        "global_pu"@
    }
}

/// The documentation of global net field `f`.
pub open spec fn global_nets_field_desc(f: int) -> Seq<char> {
    if f == 0 {
        "Controls whether the three global clock nets are enabled or not"@
    } else if f == 1 {
        "Controls whether the global set/reset net is enabled or not"@
    } else if f == 2 {
        "Controls the polarity of the global set/reset signal"@
    } else if f == 3 {
        "Controls whether the four global tristate nets are enabled or not"@
    } else if f == 4 {
        "Controls the polarity of the global tristate signal"@
    } else {
        "Controls the mode of the global termination"@
    }
}

/// The kind of global net field `f`.
pub open spec fn global_nets_field_type(f: int) -> BitFragmentFieldType {
    if f == 0 {
        BitFragmentFieldType::PatternArray(3)
    } else if f == 3 || f == 4 {
        BitFragmentFieldType::PatternArray(4)
    } else {
        BitFragmentFieldType::Pattern
    }
}

/// The fields of a global net configuration in declaration order, each with
/// its name, its documentation, its number of elements, its kind and where
/// its bits start among the 14.
pub proof fn lemma_global_nets_field_table()
    ensures
        global_nets_field_elems(0) == 3,
        global_nets_field_type(0) == BitFragmentFieldType::PatternArray(3),
        global_nets_field_elems(1) == 1,
        global_nets_field_type(1) == BitFragmentFieldType::Pattern,
        global_nets_field_elems(2) == 1,
        global_nets_field_type(2) == BitFragmentFieldType::Pattern,
        global_nets_field_elems(3) == 4,
        global_nets_field_type(3) == BitFragmentFieldType::PatternArray(4),
        global_nets_field_elems(4) == 4,
        global_nets_field_type(4) == BitFragmentFieldType::PatternArray(4),
        global_nets_field_elems(5) == 1,
        global_nets_field_type(5) == BitFragmentFieldType::Pattern,
        global_nets_field_name(0) == "gck_enable"@,
        global_nets_field_desc(0) == "Controls whether the three global clock nets are enabled or not"@,
        global_nets_first_bit(0) == 0,
        global_nets_field_name(1) == "gsr_enable"@,
        global_nets_field_desc(1) == "Controls whether the global set/reset net is enabled or not"@,
        global_nets_first_bit(1) == 3,
        global_nets_field_name(2) == "gsr_invert"@,
        global_nets_field_desc(2) == "Controls the polarity of the global set/reset signal"@,
        global_nets_first_bit(2) == 4,
        global_nets_field_name(3) == "gts_enable"@,
        global_nets_field_desc(3) == "Controls whether the four global tristate nets are enabled or not"@,
        global_nets_first_bit(3) == 5,
        global_nets_field_name(4) == "gts_invert"@,
        global_nets_field_desc(4) == "Controls the polarity of the global tristate signal"@,
        global_nets_first_bit(4) == 9,
        global_nets_field_name(5) == "global_pu"@,
        global_nets_field_desc(5) == "Controls the mode of the global termination"@,
        global_nets_first_bit(5) == 13,
{
}

fn global_nets_field_name_exec(f: usize) -> (s: &'static str)
    ensures
        s@ == global_nets_field_name(f as int),
{
    if f == 0 {
        "gck_enable"
    } else if f == 1 {
        "gsr_enable"
    } else if f == 2 {
        "gsr_invert"
    } else if f == 3 {
        "gts_enable"
    } else if f == 4 {
        "gts_invert"
    } else {
        "global_pu"
    }
}

fn global_nets_field_desc_exec(f: usize) -> (s: &'static str)
    ensures
        s@ == global_nets_field_desc(f as int),
{
    if f == 0 {
        "Controls whether the three global clock nets are enabled or not"
    } else if f == 1 {
        "Controls whether the global set/reset net is enabled or not"
    } else if f == 2 {
        "Controls the polarity of the global set/reset signal"
    } else if f == 3 {
        "Controls whether the four global tristate nets are enabled or not"
    } else if f == 4 {
        "Controls the polarity of the global tristate signal"
    } else {
        "Controls the mode of the global termination"
    }
}

fn global_nets_field_type_exec(f: usize) -> (t: BitFragmentFieldType)
    ensures
        t == global_nets_field_type(f as int),
{
    if f == 0 {
        BitFragmentFieldType::PatternArray(3)
    } else if f == 3 || f == 4 {
        BitFragmentFieldType::PatternArray(4)
    } else {
        BitFragmentFieldType::Pattern
    }
}

impl Default for XC2GlobalNets {
    /// Returns a "default" global net configuration which has everything disabled.
    fn default() -> (n: Self)
        ensures
            n.gck_enable@ == seq![false, false, false],
            !n.gsr_enable,
            !n.gsr_invert,
            n.gts_enable@ == seq![false, false, false, false],
            n.gts_invert@ == seq![true, true, true, true],
            n.global_pu,
    {
        let n = XC2GlobalNets {
            gck_enable: [false, false, false],
            gsr_enable: false,
            gsr_invert: false,
            gts_enable: [false, false, false, false],
            gts_invert: [true, true, true, true],
            global_pu: true,
        };
        assert(n.gck_enable@ =~= seq![false, false, false]);
        assert(n.gts_enable@ =~= seq![false, false, false, false]);
        assert(n.gts_invert@ =~= seq![true, true, true, true]);
        n
    }
}

/// The fuse positions of the 14 global net bits in the XC2C32 JED fuse list.
pub open spec fn global_nets_jed_xc2c32_positions() -> Seq<isize> {
    seq![12256isize, 12257, 12258, 12260, 12259, 12262, 12264, 12266, 12268, 12261, 12263, 12265, 12267, 12269]
}

fn global_nets_jed_xc2c32_layout_vec() -> (v: Vec<BitSlot>)
    ensures
        v@ == table_layout(global_nets_jed_xc2c32_positions(), Seq::new(14, |_k: int| 0isize), global_nets_inverted()),
{
    let xs: [isize; 14] = [12256, 12257, 12258, 12260, 12259, 12262, 12264, 12266, 12268, 12261, 12263, 12265, 12267, 12269];
    let ys: [isize; 14] = [0; 14];
    let inv = global_nets_inverted_arr();
    assert(xs@ =~= global_nets_jed_xc2c32_positions());
    assert(ys@ =~= Seq::new(14, |_k: int| 0isize));
    table_layout_vec(&xs, &ys, &inv)
}

impl BitFragment<JedXC2C32> for XC2GlobalNets {
    const IDX_DIMS: usize = 1;
    const FIELD_COUNT: usize = 6;

    type Fuses = [bool];
    type OffsettingType = [isize; 1];
    type MirroringType = [bool; 1];
    type ErrType = ();
    type EncodeExtraType = ();
    type DecodeExtraType = ();

    open spec fn spec_encode_fits(fuses: &[bool], offset: [isize; 1], mirror: [bool; 1], extra: ()) -> bool {
        layout_fits(line_frame(offset, mirror), global_nets_jed_layout(global_nets_jed_xc2c32_positions()), fuses@.len())
    }

    open spec fn spec_decode_fits(fuses: &[bool], offset: [isize; 1], mirror: [bool; 1], extra: ()) -> bool {
        layout_fits(line_frame(offset, mirror), global_nets_jed_layout(global_nets_jed_xc2c32_positions()), fuses@.len())
    }

    open spec fn spec_decode(fuses: &[bool], offset: [isize; 1], mirror: [bool; 1], extra: ()) -> Result<
        XC2GlobalNets,
        (),
    > {
        Ok(global_nets_of(read_slots(fuses@, line_frame(offset, mirror), global_nets_jed_layout(global_nets_jed_xc2c32_positions()))))
    }

    open spec fn spec_field_count() -> nat {
        6
    }

    open spec fn spec_field_name(i: int) -> Seq<char> {
        global_nets_field_name(i)
    }

    open spec fn spec_field_desc(i: int) -> Seq<char> {
        global_nets_field_desc(i)
    }

    open spec fn spec_field_type(i: int) -> BitFragmentFieldType {
        global_nets_field_type(i)
    }

    open spec fn spec_field_elems(field_i: int) -> nat {
        global_nets_field_elems(field_i)
    }

    open spec fn spec_field_offset(field_i: int, arr_i: int) -> [isize; 1] {
        [global_nets_jed_xc2c32_positions()[global_nets_first_bit(field_i) + arr_i]]
    }

    open spec fn spec_field_mirror(field_i: int, arr_i: int) -> [bool; 1] {
        [false]
    }

    open spec fn spec_field_bits(field_i: int) -> nat {
        1
    }

    open spec fn spec_field_bit_base_pos(field_i: int, bit_i: int) -> [isize; 1] {
        [0]
    }

    open spec fn spec_encode_result(&self, before: &[bool], after: &[bool], offset: [isize; 1], mirror: [bool; 1], extra: ()) -> bool {
        after@ == apply_writes(before@, slot_writes(line_frame(offset, mirror), global_nets_jed_layout(global_nets_jed_xc2c32_positions()), global_nets_bits(*self)))
    }

    fn encode(&self, fuses: &mut [bool], offset: [isize; 1], mirror: [bool; 1], extra_data: ()) {
        let layout = global_nets_jed_xc2c32_layout_vec();
        let bits = self.to_bits();
        write_slots(fuses, layout.as_slice(), bits.as_slice(), Frame::Line { offset: offset[0], mirror: mirror[0] });
    }

    fn decode(fuses: &[bool], offset: [isize; 1], mirror: [bool; 1], extra_data: ()) -> (r: Result<XC2GlobalNets, ()>) {
        let layout = global_nets_jed_xc2c32_layout_vec();
        let bits = read_slots_from(fuses, layout.as_slice(), Frame::Line { offset: offset[0], mirror: mirror[0] });
        Ok(XC2GlobalNets::from_bits(bits.as_slice()))
    }

    fn fieldname(i: usize) -> (name: &'static str) {
        global_nets_field_name_exec(i)
    }

    fn fielddesc(i: usize) -> (desc: &'static str) {
        global_nets_field_desc_exec(i)
    }

    fn fieldtype(i: usize) -> (t: BitFragmentFieldType) {
        global_nets_field_type_exec(i)
    }

    fn field_offset(field_i: usize, arr_i: usize) -> (o: [isize; 1]) {
        let xs: [isize; 14] = [12256, 12257, 12258, 12260, 12259, 12262, 12264, 12266, 12268, 12261, 12263, 12265, 12267, 12269];
        assert(xs@ =~= global_nets_jed_xc2c32_positions());
        [xs[global_nets_first_bit_exec(field_i) + arr_i]]
    }

    fn field_mirror(field_i: usize, arr_i: usize) -> (m: [bool; 1]) {
        [false]
    }

    fn field_bits(field_i: usize) -> (n: usize) {
        1
    }

    fn field_bit_base_pos(field_i: usize, bit_i: usize) -> (p: [isize; 1]) {
        [0]
    }
}

/// The fuse positions of the 14 global net bits in the XC2C64 JED fuse list.
pub open spec fn global_nets_jed_xc2c64_positions() -> Seq<isize> {
    seq![25792isize, 25793, 25794, 25796, 25795, 25798, 25800, 25802, 25804, 25797, 25799, 25801, 25803, 25805]
}

fn global_nets_jed_xc2c64_layout_vec() -> (v: Vec<BitSlot>)
    ensures
        v@ == table_layout(global_nets_jed_xc2c64_positions(), Seq::new(14, |_k: int| 0isize), global_nets_inverted()),
{
    let xs: [isize; 14] = [25792, 25793, 25794, 25796, 25795, 25798, 25800, 25802, 25804, 25797, 25799, 25801, 25803, 25805];
    let ys: [isize; 14] = [0; 14];
    let inv = global_nets_inverted_arr();
    assert(xs@ =~= global_nets_jed_xc2c64_positions());
    assert(ys@ =~= Seq::new(14, |_k: int| 0isize));
    table_layout_vec(&xs, &ys, &inv)
}

impl BitFragment<JedXC2C64> for XC2GlobalNets {
    const IDX_DIMS: usize = 1;
    const FIELD_COUNT: usize = 6;

    type Fuses = [bool];
    type OffsettingType = [isize; 1];
    type MirroringType = [bool; 1];
    type ErrType = ();
    type EncodeExtraType = ();
    type DecodeExtraType = ();

    open spec fn spec_encode_fits(fuses: &[bool], offset: [isize; 1], mirror: [bool; 1], extra: ()) -> bool {
        layout_fits(line_frame(offset, mirror), global_nets_jed_layout(global_nets_jed_xc2c64_positions()), fuses@.len())
    }

    open spec fn spec_decode_fits(fuses: &[bool], offset: [isize; 1], mirror: [bool; 1], extra: ()) -> bool {
        layout_fits(line_frame(offset, mirror), global_nets_jed_layout(global_nets_jed_xc2c64_positions()), fuses@.len())
    }

    open spec fn spec_decode(fuses: &[bool], offset: [isize; 1], mirror: [bool; 1], extra: ()) -> Result<
        XC2GlobalNets,
        (),
    > {
        Ok(global_nets_of(read_slots(fuses@, line_frame(offset, mirror), global_nets_jed_layout(global_nets_jed_xc2c64_positions()))))
    }

    open spec fn spec_field_count() -> nat {
        6
    }

    open spec fn spec_field_name(i: int) -> Seq<char> {
        global_nets_field_name(i)
    }

    open spec fn spec_field_desc(i: int) -> Seq<char> {
        global_nets_field_desc(i)
    }

    open spec fn spec_field_type(i: int) -> BitFragmentFieldType {
        global_nets_field_type(i)
    }

    open spec fn spec_field_elems(field_i: int) -> nat {
        global_nets_field_elems(field_i)
    }

    open spec fn spec_field_offset(field_i: int, arr_i: int) -> [isize; 1] {
        [global_nets_jed_xc2c64_positions()[global_nets_first_bit(field_i) + arr_i]]
    }

    open spec fn spec_field_mirror(field_i: int, arr_i: int) -> [bool; 1] {
        [false]
    }

    open spec fn spec_field_bits(field_i: int) -> nat {
        1
    }

    open spec fn spec_field_bit_base_pos(field_i: int, bit_i: int) -> [isize; 1] {
        [0]
    }

    open spec fn spec_encode_result(&self, before: &[bool], after: &[bool], offset: [isize; 1], mirror: [bool; 1], extra: ()) -> bool {
        after@ == apply_writes(before@, slot_writes(line_frame(offset, mirror), global_nets_jed_layout(global_nets_jed_xc2c64_positions()), global_nets_bits(*self)))
    }

    fn encode(&self, fuses: &mut [bool], offset: [isize; 1], mirror: [bool; 1], extra_data: ()) {
        let layout = global_nets_jed_xc2c64_layout_vec();
        let bits = self.to_bits();
        write_slots(fuses, layout.as_slice(), bits.as_slice(), Frame::Line { offset: offset[0], mirror: mirror[0] });
    }

    fn decode(fuses: &[bool], offset: [isize; 1], mirror: [bool; 1], extra_data: ()) -> (r: Result<XC2GlobalNets, ()>) {
        let layout = global_nets_jed_xc2c64_layout_vec();
        let bits = read_slots_from(fuses, layout.as_slice(), Frame::Line { offset: offset[0], mirror: mirror[0] });
        Ok(XC2GlobalNets::from_bits(bits.as_slice()))
    }

    fn fieldname(i: usize) -> (name: &'static str) {
        global_nets_field_name_exec(i)
    }

    fn fielddesc(i: usize) -> (desc: &'static str) {
        global_nets_field_desc_exec(i)
    }

    fn fieldtype(i: usize) -> (t: BitFragmentFieldType) {
        global_nets_field_type_exec(i)
    }

    fn field_offset(field_i: usize, arr_i: usize) -> (o: [isize; 1]) {
        let xs: [isize; 14] = [25792, 25793, 25794, 25796, 25795, 25798, 25800, 25802, 25804, 25797, 25799, 25801, 25803, 25805];
        assert(xs@ =~= global_nets_jed_xc2c64_positions());
        [xs[global_nets_first_bit_exec(field_i) + arr_i]]
    }

    fn field_mirror(field_i: usize, arr_i: usize) -> (m: [bool; 1]) {
        [false]
    }

    fn field_bits(field_i: usize) -> (n: usize) {
        1
    }

    fn field_bit_base_pos(field_i: usize, bit_i: usize) -> (p: [isize; 1]) {
        [0]
    }
}

/// The fuse positions of the 14 global net bits in the XC2C128 JED fuse list.
pub open spec fn global_nets_jed_xc2c128_positions() -> Seq<isize> {
    seq![55316isize, 55317, 55318, 55325, 55324, 55327, 55329, 55331, 55333, 55326, 55328, 55330, 55332, 55334]
}

fn global_nets_jed_xc2c128_layout_vec() -> (v: Vec<BitSlot>)
    ensures
        v@ == table_layout(global_nets_jed_xc2c128_positions(), Seq::new(14, |_k: int| 0isize), global_nets_inverted()),
{
    let xs: [isize; 14] = [55316, 55317, 55318, 55325, 55324, 55327, 55329, 55331, 55333, 55326, 55328, 55330, 55332, 55334];
    let ys: [isize; 14] = [0; 14];
    let inv = global_nets_inverted_arr();
    assert(xs@ =~= global_nets_jed_xc2c128_positions());
    assert(ys@ =~= Seq::new(14, |_k: int| 0isize));
    table_layout_vec(&xs, &ys, &inv)
}

impl BitFragment<JedXC2C128> for XC2GlobalNets {
    const IDX_DIMS: usize = 1;
    const FIELD_COUNT: usize = 6;

    type Fuses = [bool];
    type OffsettingType = [isize; 1];
    type MirroringType = [bool; 1];
    type ErrType = ();
    type EncodeExtraType = ();
    type DecodeExtraType = ();

    open spec fn spec_encode_fits(fuses: &[bool], offset: [isize; 1], mirror: [bool; 1], extra: ()) -> bool {
        layout_fits(line_frame(offset, mirror), global_nets_jed_layout(global_nets_jed_xc2c128_positions()), fuses@.len())
    }

    open spec fn spec_decode_fits(fuses: &[bool], offset: [isize; 1], mirror: [bool; 1], extra: ()) -> bool {
        layout_fits(line_frame(offset, mirror), global_nets_jed_layout(global_nets_jed_xc2c128_positions()), fuses@.len())
    }

    open spec fn spec_decode(fuses: &[bool], offset: [isize; 1], mirror: [bool; 1], extra: ()) -> Result<
        XC2GlobalNets,
        (),
    > {
        Ok(global_nets_of(read_slots(fuses@, line_frame(offset, mirror), global_nets_jed_layout(global_nets_jed_xc2c128_positions()))))
    }

    open spec fn spec_field_count() -> nat {
        6
    }

    open spec fn spec_field_name(i: int) -> Seq<char> {
        global_nets_field_name(i)
    }

    open spec fn spec_field_desc(i: int) -> Seq<char> {
        global_nets_field_desc(i)
    }

    open spec fn spec_field_type(i: int) -> BitFragmentFieldType {
        global_nets_field_type(i)
    }

    open spec fn spec_field_elems(field_i: int) -> nat {
        global_nets_field_elems(field_i)
    }

    open spec fn spec_field_offset(field_i: int, arr_i: int) -> [isize; 1] {
        [global_nets_jed_xc2c128_positions()[global_nets_first_bit(field_i) + arr_i]]
    }

    open spec fn spec_field_mirror(field_i: int, arr_i: int) -> [bool; 1] {
        [false]
    }

    open spec fn spec_field_bits(field_i: int) -> nat {
        1
    }

    open spec fn spec_field_bit_base_pos(field_i: int, bit_i: int) -> [isize; 1] {
        [0]
    }

    open spec fn spec_encode_result(&self, before: &[bool], after: &[bool], offset: [isize; 1], mirror: [bool; 1], extra: ()) -> bool {
        after@ == apply_writes(before@, slot_writes(line_frame(offset, mirror), global_nets_jed_layout(global_nets_jed_xc2c128_positions()), global_nets_bits(*self)))
    }

    fn encode(&self, fuses: &mut [bool], offset: [isize; 1], mirror: [bool; 1], extra_data: ()) {
        let layout = global_nets_jed_xc2c128_layout_vec();
        let bits = self.to_bits();
        write_slots(fuses, layout.as_slice(), bits.as_slice(), Frame::Line { offset: offset[0], mirror: mirror[0] });
    }

    fn decode(fuses: &[bool], offset: [isize; 1], mirror: [bool; 1], extra_data: ()) -> (r: Result<XC2GlobalNets, ()>) {
        let layout = global_nets_jed_xc2c128_layout_vec();
        let bits = read_slots_from(fuses, layout.as_slice(), Frame::Line { offset: offset[0], mirror: mirror[0] });
        Ok(XC2GlobalNets::from_bits(bits.as_slice()))
    }

    fn fieldname(i: usize) -> (name: &'static str) {
        global_nets_field_name_exec(i)
    }

    fn fielddesc(i: usize) -> (desc: &'static str) {
        global_nets_field_desc_exec(i)
    }

    fn fieldtype(i: usize) -> (t: BitFragmentFieldType) {
        global_nets_field_type_exec(i)
    }

    fn field_offset(field_i: usize, arr_i: usize) -> (o: [isize; 1]) {
        let xs: [isize; 14] = [55316, 55317, 55318, 55325, 55324, 55327, 55329, 55331, 55333, 55326, 55328, 55330, 55332, 55334];
        assert(xs@ =~= global_nets_jed_xc2c128_positions());
        [xs[global_nets_first_bit_exec(field_i) + arr_i]]
    }

    fn field_mirror(field_i: usize, arr_i: usize) -> (m: [bool; 1]) {
        [false]
    }

    fn field_bits(field_i: usize) -> (n: usize) {
        1
    }

    fn field_bit_base_pos(field_i: usize, bit_i: usize) -> (p: [isize; 1]) {
        [0]
    }
}

/// The fuse positions of the 14 global net bits in the XC2C256 JED fuse list.
pub open spec fn global_nets_jed_xc2c256_positions() -> Seq<isize> {
    seq![123224isize, 123225, 123226, 123233, 123232, 123235, 123237, 123239, 123241, 123234, 123236, 123238, 123240, 123242]
}

fn global_nets_jed_xc2c256_layout_vec() -> (v: Vec<BitSlot>)
    ensures
        v@ == table_layout(global_nets_jed_xc2c256_positions(), Seq::new(14, |_k: int| 0isize), global_nets_inverted()),
{
    let xs: [isize; 14] = [123224, 123225, 123226, 123233, 123232, 123235, 123237, 123239, 123241, 123234, 123236, 123238, 123240, 123242];
    let ys: [isize; 14] = [0; 14];
    let inv = global_nets_inverted_arr();
    assert(xs@ =~= global_nets_jed_xc2c256_positions());
    assert(ys@ =~= Seq::new(14, |_k: int| 0isize));
    table_layout_vec(&xs, &ys, &inv)
}

impl BitFragment<JedXC2C256> for XC2GlobalNets {
    const IDX_DIMS: usize = 1;
    const FIELD_COUNT: usize = 6;

    type Fuses = [bool];
    type OffsettingType = [isize; 1];
    type MirroringType = [bool; 1];
    type ErrType = ();
    type EncodeExtraType = ();
    type DecodeExtraType = ();

    open spec fn spec_encode_fits(fuses: &[bool], offset: [isize; 1], mirror: [bool; 1], extra: ()) -> bool {
        layout_fits(line_frame(offset, mirror), global_nets_jed_layout(global_nets_jed_xc2c256_positions()), fuses@.len())
    }

    open spec fn spec_decode_fits(fuses: &[bool], offset: [isize; 1], mirror: [bool; 1], extra: ()) -> bool {
        layout_fits(line_frame(offset, mirror), global_nets_jed_layout(global_nets_jed_xc2c256_positions()), fuses@.len())
    }

    open spec fn spec_decode(fuses: &[bool], offset: [isize; 1], mirror: [bool; 1], extra: ()) -> Result<
        XC2GlobalNets,
        (),
    > {
        Ok(global_nets_of(read_slots(fuses@, line_frame(offset, mirror), global_nets_jed_layout(global_nets_jed_xc2c256_positions()))))
    }

    open spec fn spec_field_count() -> nat {
        6
    }

    open spec fn spec_field_name(i: int) -> Seq<char> {
        global_nets_field_name(i)
    }

    open spec fn spec_field_desc(i: int) -> Seq<char> {
        global_nets_field_desc(i)
    }

    open spec fn spec_field_type(i: int) -> BitFragmentFieldType {
        global_nets_field_type(i)
    }

    open spec fn spec_field_elems(field_i: int) -> nat {
        global_nets_field_elems(field_i)
    }

    open spec fn spec_field_offset(field_i: int, arr_i: int) -> [isize; 1] {
        [global_nets_jed_xc2c256_positions()[global_nets_first_bit(field_i) + arr_i]]
    }

    open spec fn spec_field_mirror(field_i: int, arr_i: int) -> [bool; 1] {
        [false]
    }

    open spec fn spec_field_bits(field_i: int) -> nat {
        1
    }

    open spec fn spec_field_bit_base_pos(field_i: int, bit_i: int) -> [isize; 1] {
        [0]
    }

    open spec fn spec_encode_result(&self, before: &[bool], after: &[bool], offset: [isize; 1], mirror: [bool; 1], extra: ()) -> bool {
        after@ == apply_writes(before@, slot_writes(line_frame(offset, mirror), global_nets_jed_layout(global_nets_jed_xc2c256_positions()), global_nets_bits(*self)))
    }

    fn encode(&self, fuses: &mut [bool], offset: [isize; 1], mirror: [bool; 1], extra_data: ()) {
        let layout = global_nets_jed_xc2c256_layout_vec();
        let bits = self.to_bits();
        write_slots(fuses, layout.as_slice(), bits.as_slice(), Frame::Line { offset: offset[0], mirror: mirror[0] });
    }

    fn decode(fuses: &[bool], offset: [isize; 1], mirror: [bool; 1], extra_data: ()) -> (r: Result<XC2GlobalNets, ()>) {
        let layout = global_nets_jed_xc2c256_layout_vec();
        let bits = read_slots_from(fuses, layout.as_slice(), Frame::Line { offset: offset[0], mirror: mirror[0] });
        Ok(XC2GlobalNets::from_bits(bits.as_slice()))
    }

    fn fieldname(i: usize) -> (name: &'static str) {
        global_nets_field_name_exec(i)
    }

    fn fielddesc(i: usize) -> (desc: &'static str) {
        global_nets_field_desc_exec(i)
    }

    fn fieldtype(i: usize) -> (t: BitFragmentFieldType) {
        global_nets_field_type_exec(i)
    }

    fn field_offset(field_i: usize, arr_i: usize) -> (o: [isize; 1]) {
        let xs: [isize; 14] = [123224, 123225, 123226, 123233, 123232, 123235, 123237, 123239, 123241, 123234, 123236, 123238, 123240, 123242];
        assert(xs@ =~= global_nets_jed_xc2c256_positions());
        [xs[global_nets_first_bit_exec(field_i) + arr_i]]
    }

    fn field_mirror(field_i: usize, arr_i: usize) -> (m: [bool; 1]) {
        [false]
    }

    fn field_bits(field_i: usize) -> (n: usize) {
        1
    }

    fn field_bit_base_pos(field_i: usize, bit_i: usize) -> (p: [isize; 1]) {
        [0]
    }
}

/// The fuse positions of the 14 global net bits in the XC2C384 JED fuse list.
pub open spec fn global_nets_jed_xc2c384_positions() -> Seq<isize> {
    seq![209328isize, 209329, 209330, 209337, 209336, 209339, 209341, 209343, 209345, 209338, 209340, 209342, 209344, 209346]
}

fn global_nets_jed_xc2c384_layout_vec() -> (v: Vec<BitSlot>)
    ensures
        v@ == table_layout(global_nets_jed_xc2c384_positions(), Seq::new(14, |_k: int| 0isize), global_nets_inverted()),
{
    let xs: [isize; 14] = [209328, 209329, 209330, 209337, 209336, 209339, 209341, 209343, 209345, 209338, 209340, 209342, 209344, 209346];
    let ys: [isize; 14] = [0; 14];
    let inv = global_nets_inverted_arr();
    assert(xs@ =~= global_nets_jed_xc2c384_positions());
    assert(ys@ =~= Seq::new(14, |_k: int| 0isize));
    table_layout_vec(&xs, &ys, &inv)
}

impl BitFragment<JedXC2C384> for XC2GlobalNets {
    const IDX_DIMS: usize = 1;
    const FIELD_COUNT: usize = 6;

    type Fuses = [bool];
    type OffsettingType = [isize; 1];
    type MirroringType = [bool; 1];
    type ErrType = ();
    type EncodeExtraType = ();
    type DecodeExtraType = ();

    open spec fn spec_encode_fits(fuses: &[bool], offset: [isize; 1], mirror: [bool; 1], extra: ()) -> bool {
        layout_fits(line_frame(offset, mirror), global_nets_jed_layout(global_nets_jed_xc2c384_positions()), fuses@.len())
    }

    open spec fn spec_decode_fits(fuses: &[bool], offset: [isize; 1], mirror: [bool; 1], extra: ()) -> bool {
        layout_fits(line_frame(offset, mirror), global_nets_jed_layout(global_nets_jed_xc2c384_positions()), fuses@.len())
    }

    open spec fn spec_decode(fuses: &[bool], offset: [isize; 1], mirror: [bool; 1], extra: ()) -> Result<
        XC2GlobalNets,
        (),
    > {
        Ok(global_nets_of(read_slots(fuses@, line_frame(offset, mirror), global_nets_jed_layout(global_nets_jed_xc2c384_positions()))))
    }

    open spec fn spec_field_count() -> nat {
        6
    }

    open spec fn spec_field_name(i: int) -> Seq<char> {
        global_nets_field_name(i)
    }

    open spec fn spec_field_desc(i: int) -> Seq<char> {
        global_nets_field_desc(i)
    }

    open spec fn spec_field_type(i: int) -> BitFragmentFieldType {
        global_nets_field_type(i)
    }

    open spec fn spec_field_elems(field_i: int) -> nat {
        global_nets_field_elems(field_i)
    }

    open spec fn spec_field_offset(field_i: int, arr_i: int) -> [isize; 1] {
        [global_nets_jed_xc2c384_positions()[global_nets_first_bit(field_i) + arr_i]]
    }

    open spec fn spec_field_mirror(field_i: int, arr_i: int) -> [bool; 1] {
        [false]
    }

    open spec fn spec_field_bits(field_i: int) -> nat {
        1
    }

    open spec fn spec_field_bit_base_pos(field_i: int, bit_i: int) -> [isize; 1] {
        [0]
    }

    open spec fn spec_encode_result(&self, before: &[bool], after: &[bool], offset: [isize; 1], mirror: [bool; 1], extra: ()) -> bool {
        after@ == apply_writes(before@, slot_writes(line_frame(offset, mirror), global_nets_jed_layout(global_nets_jed_xc2c384_positions()), global_nets_bits(*self)))
    }

    fn encode(&self, fuses: &mut [bool], offset: [isize; 1], mirror: [bool; 1], extra_data: ()) {
        let layout = global_nets_jed_xc2c384_layout_vec();
        let bits = self.to_bits();
        write_slots(fuses, layout.as_slice(), bits.as_slice(), Frame::Line { offset: offset[0], mirror: mirror[0] });
    }

    fn decode(fuses: &[bool], offset: [isize; 1], mirror: [bool; 1], extra_data: ()) -> (r: Result<XC2GlobalNets, ()>) {
        let layout = global_nets_jed_xc2c384_layout_vec();
        let bits = read_slots_from(fuses, layout.as_slice(), Frame::Line { offset: offset[0], mirror: mirror[0] });
        Ok(XC2GlobalNets::from_bits(bits.as_slice()))
    }

    fn fieldname(i: usize) -> (name: &'static str) {
        global_nets_field_name_exec(i)
    }

    fn fielddesc(i: usize) -> (desc: &'static str) {
        global_nets_field_desc_exec(i)
    }

    fn fieldtype(i: usize) -> (t: BitFragmentFieldType) {
        global_nets_field_type_exec(i)
    }

    fn field_offset(field_i: usize, arr_i: usize) -> (o: [isize; 1]) {
        let xs: [isize; 14] = [209328, 209329, 209330, 209337, 209336, 209339, 209341, 209343, 209345, 209338, 209340, 209342, 209344, 209346];
        assert(xs@ =~= global_nets_jed_xc2c384_positions());
        [xs[global_nets_first_bit_exec(field_i) + arr_i]]
    }

    fn field_mirror(field_i: usize, arr_i: usize) -> (m: [bool; 1]) {
        [false]
    }

    fn field_bits(field_i: usize) -> (n: usize) {
        1
    }

    fn field_bit_base_pos(field_i: usize, bit_i: usize) -> (p: [isize; 1]) {
        [0]
    }
}

/// The fuse positions of the 14 global net bits in the XC2C512 JED fuse list.
pub open spec fn global_nets_jed_xc2c512_positions() -> Seq<isize> {
    seq![296374isize, 296375, 296376, 296383, 296382, 296385, 296387, 296389, 296391, 296384, 296386, 296388, 296390, 296392]
}

fn global_nets_jed_xc2c512_layout_vec() -> (v: Vec<BitSlot>)
    ensures
        v@ == table_layout(global_nets_jed_xc2c512_positions(), Seq::new(14, |_k: int| 0isize), global_nets_inverted()),
{
    let xs: [isize; 14] = [296374, 296375, 296376, 296383, 296382, 296385, 296387, 296389, 296391, 296384, 296386, 296388, 296390, 296392];
    let ys: [isize; 14] = [0; 14];
    let inv = global_nets_inverted_arr();
    assert(xs@ =~= global_nets_jed_xc2c512_positions());
    assert(ys@ =~= Seq::new(14, |_k: int| 0isize));
    table_layout_vec(&xs, &ys, &inv)
}

impl BitFragment<JedXC2C512> for XC2GlobalNets {
    const IDX_DIMS: usize = 1;
    const FIELD_COUNT: usize = 6;

    type Fuses = [bool];
    type OffsettingType = [isize; 1];
    type MirroringType = [bool; 1];
    type ErrType = ();
    type EncodeExtraType = ();
    type DecodeExtraType = ();

    open spec fn spec_encode_fits(fuses: &[bool], offset: [isize; 1], mirror: [bool; 1], extra: ()) -> bool {
        layout_fits(line_frame(offset, mirror), global_nets_jed_layout(global_nets_jed_xc2c512_positions()), fuses@.len())
    }

    open spec fn spec_decode_fits(fuses: &[bool], offset: [isize; 1], mirror: [bool; 1], extra: ()) -> bool {
        layout_fits(line_frame(offset, mirror), global_nets_jed_layout(global_nets_jed_xc2c512_positions()), fuses@.len())
    }

    open spec fn spec_decode(fuses: &[bool], offset: [isize; 1], mirror: [bool; 1], extra: ()) -> Result<
        XC2GlobalNets,
        (),
    > {
        Ok(global_nets_of(read_slots(fuses@, line_frame(offset, mirror), global_nets_jed_layout(global_nets_jed_xc2c512_positions()))))
    }

    open spec fn spec_field_count() -> nat {
        6
    }

    open spec fn spec_field_name(i: int) -> Seq<char> {
        global_nets_field_name(i)
    }

    open spec fn spec_field_desc(i: int) -> Seq<char> {
        global_nets_field_desc(i)
    }

    open spec fn spec_field_type(i: int) -> BitFragmentFieldType {
        global_nets_field_type(i)
    }

    open spec fn spec_field_elems(field_i: int) -> nat {
        global_nets_field_elems(field_i)
    }

    open spec fn spec_field_offset(field_i: int, arr_i: int) -> [isize; 1] {
        [global_nets_jed_xc2c512_positions()[global_nets_first_bit(field_i) + arr_i]]
    }

    open spec fn spec_field_mirror(field_i: int, arr_i: int) -> [bool; 1] {
        [false]
    }

    open spec fn spec_field_bits(field_i: int) -> nat {
        1
    }

    open spec fn spec_field_bit_base_pos(field_i: int, bit_i: int) -> [isize; 1] {
        [0]
    }

    open spec fn spec_encode_result(&self, before: &[bool], after: &[bool], offset: [isize; 1], mirror: [bool; 1], extra: ()) -> bool {
        after@ == apply_writes(before@, slot_writes(line_frame(offset, mirror), global_nets_jed_layout(global_nets_jed_xc2c512_positions()), global_nets_bits(*self)))
    }

    fn encode(&self, fuses: &mut [bool], offset: [isize; 1], mirror: [bool; 1], extra_data: ()) {
        let layout = global_nets_jed_xc2c512_layout_vec();
        let bits = self.to_bits();
        write_slots(fuses, layout.as_slice(), bits.as_slice(), Frame::Line { offset: offset[0], mirror: mirror[0] });
    }

    fn decode(fuses: &[bool], offset: [isize; 1], mirror: [bool; 1], extra_data: ()) -> (r: Result<XC2GlobalNets, ()>) {
        let layout = global_nets_jed_xc2c512_layout_vec();
        let bits = read_slots_from(fuses, layout.as_slice(), Frame::Line { offset: offset[0], mirror: mirror[0] });
        Ok(XC2GlobalNets::from_bits(bits.as_slice()))
    }

    fn fieldname(i: usize) -> (name: &'static str) {
        global_nets_field_name_exec(i)
    }

    fn fielddesc(i: usize) -> (desc: &'static str) {
        global_nets_field_desc_exec(i)
    }

    fn fieldtype(i: usize) -> (t: BitFragmentFieldType) {
        global_nets_field_type_exec(i)
    }

    fn field_offset(field_i: usize, arr_i: usize) -> (o: [isize; 1]) {
        let xs: [isize; 14] = [296374, 296375, 296376, 296383, 296382, 296385, 296387, 296389, 296391, 296384, 296386, 296388, 296390, 296392];
        assert(xs@ =~= global_nets_jed_xc2c512_positions());
        [xs[global_nets_first_bit_exec(field_i) + arr_i]]
    }

    fn field_mirror(field_i: usize, arr_i: usize) -> (m: [bool; 1]) {
        [false]
    }

    fn field_bits(field_i: usize) -> (n: usize) {
        1
    }

    fn field_bit_base_pos(field_i: usize, bit_i: usize) -> (p: [isize; 1]) {
        [0]
    }
}

/// The JED layout of the global nets with the given bit positions.
pub open spec fn global_nets_jed_layout(positions: Seq<isize>) -> Seq<BitSlot> {
    table_layout(positions, Seq::new(14, |_k: int| 0isize), global_nets_inverted())
}

/// The columns of the 14 global net bits in the XC2C32 crbit array.
pub open spec fn global_nets_crbit_xc2c32_xs() -> Seq<isize> {
    seq![126isize, 127, 128, 130, 129, 127, 129, 127, 129, 126, 128, 126, 128, 131]
}

/// The rows of the 14 global net bits in the XC2C32 crbit array.
pub open spec fn global_nets_crbit_xc2c32_ys() -> Seq<isize> {
    seq![23isize, 23, 23, 23, 23, 24, 24, 25, 25, 24, 24, 25, 25, 23]
}

/// The layout of the global nets in the XC2C32 crbit array.
pub open spec fn global_nets_crbit_xc2c32_layout() -> Seq<BitSlot> {
    table_layout(global_nets_crbit_xc2c32_xs(), global_nets_crbit_xc2c32_ys(), global_nets_inverted())
}

fn global_nets_crbit_xc2c32_tables() -> (t: ([isize; 14], [isize; 14]))
    ensures
        t.0@ == global_nets_crbit_xc2c32_xs(),
        t.1@ == global_nets_crbit_xc2c32_ys(),
{
    let xs: [isize; 14] = [126, 127, 128, 130, 129, 127, 129, 127, 129, 126, 128, 126, 128, 131];
    let ys: [isize; 14] = [23, 23, 23, 23, 23, 24, 24, 25, 25, 24, 24, 25, 25, 23];
    assert(xs@ =~= global_nets_crbit_xc2c32_xs());
    assert(ys@ =~= global_nets_crbit_xc2c32_ys());
    (xs, ys)
}

fn global_nets_crbit_xc2c32_layout_vec() -> (v: Vec<BitSlot>)
    ensures
        v@ == global_nets_crbit_xc2c32_layout(),
{
    let (xs, ys) = global_nets_crbit_xc2c32_tables();
    let inv = global_nets_inverted_arr();
    table_layout_vec(&xs, &ys, &inv)
}

impl BitFragment<CrbitXC2C32> for XC2GlobalNets {
    const IDX_DIMS: usize = 2;
    const FIELD_COUNT: usize = 6;

    type Fuses = FuseArray;
    type OffsettingType = [isize; 2];
    type MirroringType = [bool; 2];
    type ErrType = ();
    type EncodeExtraType = ();
    type DecodeExtraType = ();

    open spec fn spec_encode_fits(fuses: &FuseArray, offset: [isize; 2], mirror: [bool; 2], extra: ()) -> bool {
        layout_fits(grid_frame(crbit::width(fuses) as usize, offset, mirror), global_nets_crbit_xc2c32_layout(), crbit::fuses(fuses).len())
    }

    open spec fn spec_decode_fits(fuses: &FuseArray, offset: [isize; 2], mirror: [bool; 2], extra: ()) -> bool {
        layout_fits(grid_frame(crbit::width(fuses) as usize, offset, mirror), global_nets_crbit_xc2c32_layout(), crbit::fuses(fuses).len())
    }

    open spec fn spec_decode(fuses: &FuseArray, offset: [isize; 2], mirror: [bool; 2], extra: ()) -> Result<
        XC2GlobalNets,
        (),
    > {
        Ok(global_nets_of(read_slots(crbit::fuses(fuses), grid_frame(crbit::width(fuses) as usize, offset, mirror), global_nets_crbit_xc2c32_layout())))
    }

    open spec fn spec_field_count() -> nat {
        6
    }

    open spec fn spec_field_name(i: int) -> Seq<char> {
        global_nets_field_name(i)
    }

    open spec fn spec_field_desc(i: int) -> Seq<char> {
        global_nets_field_desc(i)
    }

    open spec fn spec_field_type(i: int) -> BitFragmentFieldType {
        global_nets_field_type(i)
    }

    open spec fn spec_field_elems(field_i: int) -> nat {
        global_nets_field_elems(field_i)
    }

    open spec fn spec_field_offset(field_i: int, arr_i: int) -> [isize; 2] {
        if field_i == 0 || field_i == 3 || field_i == 4 {
            let k = global_nets_first_bit(field_i) + arr_i;
            [global_nets_crbit_xc2c32_xs()[k], global_nets_crbit_xc2c32_ys()[k]]
        } else {
            [0, 0]
        }
    }

    open spec fn spec_field_mirror(field_i: int, arr_i: int) -> [bool; 2] {
        [false, false]
    }

    open spec fn spec_field_bits(field_i: int) -> nat {
        1
    }

    open spec fn spec_field_bit_base_pos(field_i: int, bit_i: int) -> [isize; 2] {
        if field_i == 0 || field_i == 3 || field_i == 4 {
            [0, 0]
        } else {
            let k = global_nets_first_bit(field_i);
            [global_nets_crbit_xc2c32_xs()[k], global_nets_crbit_xc2c32_ys()[k]]
        }
    }

    open spec fn spec_encode_result(&self, before: &FuseArray, after: &FuseArray, offset: [isize; 2], mirror: [bool; 2], extra: ()) -> bool {
        crbit::fuses(after) == apply_writes(crbit::fuses(before), slot_writes(grid_frame(crbit::width(before) as usize, offset, mirror), global_nets_crbit_xc2c32_layout(), global_nets_bits(*self)))
        && crbit::width(after) == crbit::width(before)
        && crbit::dev_name(after) == crbit::dev_name(before)
    }

    fn encode(&self, fuses: &mut FuseArray, offset: [isize; 2], mirror: [bool; 2], extra_data: ()) {
        let layout = global_nets_crbit_xc2c32_layout_vec();
        let bits = self.to_bits();
        fuses.write_slots(layout.as_slice(), bits.as_slice(), offset, mirror);
    }

    fn decode(fuses: &FuseArray, offset: [isize; 2], mirror: [bool; 2], extra_data: ()) -> (r: Result<XC2GlobalNets, ()>) {
        let layout = global_nets_crbit_xc2c32_layout_vec();
        let bits = fuses.read_slots(layout.as_slice(), offset, mirror);
        Ok(XC2GlobalNets::from_bits(bits.as_slice()))
    }

    fn fieldname(i: usize) -> (name: &'static str) {
        global_nets_field_name_exec(i)
    }

    fn fielddesc(i: usize) -> (desc: &'static str) {
        global_nets_field_desc_exec(i)
    }

    fn fieldtype(i: usize) -> (t: BitFragmentFieldType) {
        global_nets_field_type_exec(i)
    }

    fn field_offset(field_i: usize, arr_i: usize) -> (o: [isize; 2]) {
        if field_i == 0 || field_i == 3 || field_i == 4 {
            let (xs, ys) = global_nets_crbit_xc2c32_tables();
            let k = global_nets_first_bit_exec(field_i) + arr_i;
            [xs[k], ys[k]]
        } else {
            [0, 0]
        }
    }

    fn field_mirror(field_i: usize, arr_i: usize) -> (m: [bool; 2]) {
        [false, false]
    }

    fn field_bits(field_i: usize) -> (n: usize) {
        1
    }

    fn field_bit_base_pos(field_i: usize, bit_i: usize) -> (p: [isize; 2]) {
        if field_i == 0 || field_i == 3 || field_i == 4 {
            [0, 0]
        } else {
            let (xs, ys) = global_nets_crbit_xc2c32_tables();
            let k = global_nets_first_bit_exec(field_i);
            [xs[k], ys[k]]
        }
    }
}

/// The columns of the 14 global net bits in the XC2C64 crbit array.
pub open spec fn global_nets_crbit_xc2c64_xs() -> Seq<isize> {
    seq![133isize, 134, 135, 136, 135, 134, 136, 138, 138, 133, 135, 137, 137, 136]
}

/// The rows of the 14 global net bits in the XC2C64 crbit array.
pub open spec fn global_nets_crbit_xc2c64_ys() -> Seq<isize> {
    seq![23isize, 23, 23, 73, 73, 24, 24, 73, 24, 24, 24, 73, 24, 23]
}

/// The layout of the global nets in the XC2C64 crbit array.
pub open spec fn global_nets_crbit_xc2c64_layout() -> Seq<BitSlot> {
    table_layout(global_nets_crbit_xc2c64_xs(), global_nets_crbit_xc2c64_ys(), global_nets_inverted())
}

fn global_nets_crbit_xc2c64_tables() -> (t: ([isize; 14], [isize; 14]))
    ensures
        t.0@ == global_nets_crbit_xc2c64_xs(),
        t.1@ == global_nets_crbit_xc2c64_ys(),
{
    let xs: [isize; 14] = [133, 134, 135, 136, 135, 134, 136, 138, 138, 133, 135, 137, 137, 136];
    let ys: [isize; 14] = [23, 23, 23, 73, 73, 24, 24, 73, 24, 24, 24, 73, 24, 23];
    assert(xs@ =~= global_nets_crbit_xc2c64_xs());
    assert(ys@ =~= global_nets_crbit_xc2c64_ys());
    (xs, ys)
}

fn global_nets_crbit_xc2c64_layout_vec() -> (v: Vec<BitSlot>)
    ensures
        v@ == global_nets_crbit_xc2c64_layout(),
{
    let (xs, ys) = global_nets_crbit_xc2c64_tables();
    let inv = global_nets_inverted_arr();
    table_layout_vec(&xs, &ys, &inv)
}

impl BitFragment<CrbitXC2C64> for XC2GlobalNets {
    const IDX_DIMS: usize = 2;
    const FIELD_COUNT: usize = 6;

    type Fuses = FuseArray;
    type OffsettingType = [isize; 2];
    type MirroringType = [bool; 2];
    type ErrType = ();
    type EncodeExtraType = ();
    type DecodeExtraType = ();

    open spec fn spec_encode_fits(fuses: &FuseArray, offset: [isize; 2], mirror: [bool; 2], extra: ()) -> bool {
        layout_fits(grid_frame(crbit::width(fuses) as usize, offset, mirror), global_nets_crbit_xc2c64_layout(), crbit::fuses(fuses).len())
    }

    open spec fn spec_decode_fits(fuses: &FuseArray, offset: [isize; 2], mirror: [bool; 2], extra: ()) -> bool {
        layout_fits(grid_frame(crbit::width(fuses) as usize, offset, mirror), global_nets_crbit_xc2c64_layout(), crbit::fuses(fuses).len())
    }

    open spec fn spec_decode(fuses: &FuseArray, offset: [isize; 2], mirror: [bool; 2], extra: ()) -> Result<
        XC2GlobalNets,
        (),
    > {
        Ok(global_nets_of(read_slots(crbit::fuses(fuses), grid_frame(crbit::width(fuses) as usize, offset, mirror), global_nets_crbit_xc2c64_layout())))
    }

    open spec fn spec_field_count() -> nat {
        6
    }

    open spec fn spec_field_name(i: int) -> Seq<char> {
        global_nets_field_name(i)
    }

    open spec fn spec_field_desc(i: int) -> Seq<char> {
        global_nets_field_desc(i)
    }

    open spec fn spec_field_type(i: int) -> BitFragmentFieldType {
        global_nets_field_type(i)
    }

    open spec fn spec_field_elems(field_i: int) -> nat {
        global_nets_field_elems(field_i)
    }

    open spec fn spec_field_offset(field_i: int, arr_i: int) -> [isize; 2] {
        if field_i == 0 || field_i == 3 || field_i == 4 {
            let k = global_nets_first_bit(field_i) + arr_i;
            [global_nets_crbit_xc2c64_xs()[k], global_nets_crbit_xc2c64_ys()[k]]
        } else {
            [0, 0]
        }
    }

    open spec fn spec_field_mirror(field_i: int, arr_i: int) -> [bool; 2] {
        [false, false]
    }

    open spec fn spec_field_bits(field_i: int) -> nat {
        1
    }

    open spec fn spec_field_bit_base_pos(field_i: int, bit_i: int) -> [isize; 2] {
        if field_i == 0 || field_i == 3 || field_i == 4 {
            [0, 0]
        } else {
            let k = global_nets_first_bit(field_i);
            [global_nets_crbit_xc2c64_xs()[k], global_nets_crbit_xc2c64_ys()[k]]
        }
    }

    open spec fn spec_encode_result(&self, before: &FuseArray, after: &FuseArray, offset: [isize; 2], mirror: [bool; 2], extra: ()) -> bool {
        crbit::fuses(after) == apply_writes(crbit::fuses(before), slot_writes(grid_frame(crbit::width(before) as usize, offset, mirror), global_nets_crbit_xc2c64_layout(), global_nets_bits(*self)))
        && crbit::width(after) == crbit::width(before)
        && crbit::dev_name(after) == crbit::dev_name(before)
    }

    fn encode(&self, fuses: &mut FuseArray, offset: [isize; 2], mirror: [bool; 2], extra_data: ()) {
        let layout = global_nets_crbit_xc2c64_layout_vec();
        let bits = self.to_bits();
        fuses.write_slots(layout.as_slice(), bits.as_slice(), offset, mirror);
    }

    fn decode(fuses: &FuseArray, offset: [isize; 2], mirror: [bool; 2], extra_data: ()) -> (r: Result<XC2GlobalNets, ()>) {
        let layout = global_nets_crbit_xc2c64_layout_vec();
        let bits = fuses.read_slots(layout.as_slice(), offset, mirror);
        Ok(XC2GlobalNets::from_bits(bits.as_slice()))
    }

    fn fieldname(i: usize) -> (name: &'static str) {
        global_nets_field_name_exec(i)
    }

    fn fielddesc(i: usize) -> (desc: &'static str) {
        global_nets_field_desc_exec(i)
    }

    fn fieldtype(i: usize) -> (t: BitFragmentFieldType) {
        global_nets_field_type_exec(i)
    }

    fn field_offset(field_i: usize, arr_i: usize) -> (o: [isize; 2]) {
        if field_i == 0 || field_i == 3 || field_i == 4 {
            let (xs, ys) = global_nets_crbit_xc2c64_tables();
            let k = global_nets_first_bit_exec(field_i) + arr_i;
            [xs[k], ys[k]]
        } else {
            [0, 0]
        }
    }

    fn field_mirror(field_i: usize, arr_i: usize) -> (m: [bool; 2]) {
        [false, false]
    }

    fn field_bits(field_i: usize) -> (n: usize) {
        1
    }

    fn field_bit_base_pos(field_i: usize, bit_i: usize) -> (p: [isize; 2]) {
        if field_i == 0 || field_i == 3 || field_i == 4 {
            [0, 0]
        } else {
            let (xs, ys) = global_nets_crbit_xc2c64_tables();
            let k = global_nets_first_bit_exec(field_i);
            [xs[k], ys[k]]
        }
    }
}

/// The columns of the 14 global net bits in the XC2C128 crbit array.
pub open spec fn global_nets_crbit_xc2c128_xs() -> Seq<isize> {
    seq![365isize, 366, 367, 2, 1, 5, 7, 5, 7, 4, 6, 4, 6, 370]
}

/// The rows of the 14 global net bits in the XC2C128 crbit array.
pub open spec fn global_nets_crbit_xc2c128_ys() -> Seq<isize> {
    seq![67isize, 67, 67, 67, 67, 27, 27, 67, 67, 27, 27, 67, 67, 67]
}

/// The layout of the global nets in the XC2C128 crbit array.
pub open spec fn global_nets_crbit_xc2c128_layout() -> Seq<BitSlot> {
    table_layout(global_nets_crbit_xc2c128_xs(), global_nets_crbit_xc2c128_ys(), global_nets_inverted())
}

fn global_nets_crbit_xc2c128_tables() -> (t: ([isize; 14], [isize; 14]))
    ensures
        t.0@ == global_nets_crbit_xc2c128_xs(),
        t.1@ == global_nets_crbit_xc2c128_ys(),
{
    let xs: [isize; 14] = [365, 366, 367, 2, 1, 5, 7, 5, 7, 4, 6, 4, 6, 370];
    let ys: [isize; 14] = [67, 67, 67, 67, 67, 27, 27, 67, 67, 27, 27, 67, 67, 67];
    assert(xs@ =~= global_nets_crbit_xc2c128_xs());
    assert(ys@ =~= global_nets_crbit_xc2c128_ys());
    (xs, ys)
}

fn global_nets_crbit_xc2c128_layout_vec() -> (v: Vec<BitSlot>)
    ensures
        v@ == global_nets_crbit_xc2c128_layout(),
{
    let (xs, ys) = global_nets_crbit_xc2c128_tables();
    let inv = global_nets_inverted_arr();
    table_layout_vec(&xs, &ys, &inv)
}

impl BitFragment<CrbitXC2C128> for XC2GlobalNets {
    const IDX_DIMS: usize = 2;
    const FIELD_COUNT: usize = 6;

    type Fuses = FuseArray;
    type OffsettingType = [isize; 2];
    type MirroringType = [bool; 2];
    type ErrType = ();
    type EncodeExtraType = ();
    type DecodeExtraType = ();

    open spec fn spec_encode_fits(fuses: &FuseArray, offset: [isize; 2], mirror: [bool; 2], extra: ()) -> bool {
        layout_fits(grid_frame(crbit::width(fuses) as usize, offset, mirror), global_nets_crbit_xc2c128_layout(), crbit::fuses(fuses).len())
    }

    open spec fn spec_decode_fits(fuses: &FuseArray, offset: [isize; 2], mirror: [bool; 2], extra: ()) -> bool {
        layout_fits(grid_frame(crbit::width(fuses) as usize, offset, mirror), global_nets_crbit_xc2c128_layout(), crbit::fuses(fuses).len())
    }

    open spec fn spec_decode(fuses: &FuseArray, offset: [isize; 2], mirror: [bool; 2], extra: ()) -> Result<
        XC2GlobalNets,
        (),
    > {
        Ok(global_nets_of(read_slots(crbit::fuses(fuses), grid_frame(crbit::width(fuses) as usize, offset, mirror), global_nets_crbit_xc2c128_layout())))
    }

    open spec fn spec_field_count() -> nat {
        6
    }

    open spec fn spec_field_name(i: int) -> Seq<char> {
        global_nets_field_name(i)
    }

    open spec fn spec_field_desc(i: int) -> Seq<char> {
        global_nets_field_desc(i)
    }

    open spec fn spec_field_type(i: int) -> BitFragmentFieldType {
        global_nets_field_type(i)
    }

    open spec fn spec_field_elems(field_i: int) -> nat {
        global_nets_field_elems(field_i)
    }

    open spec fn spec_field_offset(field_i: int, arr_i: int) -> [isize; 2] {
        if field_i == 0 || field_i == 3 || field_i == 4 {
            let k = global_nets_first_bit(field_i) + arr_i;
            [global_nets_crbit_xc2c128_xs()[k], global_nets_crbit_xc2c128_ys()[k]]
        } else {
            [0, 0]
        }
    }

    open spec fn spec_field_mirror(field_i: int, arr_i: int) -> [bool; 2] {
        [false, false]
    }

    open spec fn spec_field_bits(field_i: int) -> nat {
        1
    }

    open spec fn spec_field_bit_base_pos(field_i: int, bit_i: int) -> [isize; 2] {
        if field_i == 0 || field_i == 3 || field_i == 4 {
            [0, 0]
        } else {
            let k = global_nets_first_bit(field_i);
            [global_nets_crbit_xc2c128_xs()[k], global_nets_crbit_xc2c128_ys()[k]]
        }
    }

    open spec fn spec_encode_result(&self, before: &FuseArray, after: &FuseArray, offset: [isize; 2], mirror: [bool; 2], extra: ()) -> bool {
        crbit::fuses(after) == apply_writes(crbit::fuses(before), slot_writes(grid_frame(crbit::width(before) as usize, offset, mirror), global_nets_crbit_xc2c128_layout(), global_nets_bits(*self)))
        && crbit::width(after) == crbit::width(before)
        && crbit::dev_name(after) == crbit::dev_name(before)
    }

    fn encode(&self, fuses: &mut FuseArray, offset: [isize; 2], mirror: [bool; 2], extra_data: ()) {
        let layout = global_nets_crbit_xc2c128_layout_vec();
        let bits = self.to_bits();
        fuses.write_slots(layout.as_slice(), bits.as_slice(), offset, mirror);
    }

    fn decode(fuses: &FuseArray, offset: [isize; 2], mirror: [bool; 2], extra_data: ()) -> (r: Result<XC2GlobalNets, ()>) {
        let layout = global_nets_crbit_xc2c128_layout_vec();
        let bits = fuses.read_slots(layout.as_slice(), offset, mirror);
        Ok(XC2GlobalNets::from_bits(bits.as_slice()))
    }

    fn fieldname(i: usize) -> (name: &'static str) {
        global_nets_field_name_exec(i)
    }

    fn fielddesc(i: usize) -> (desc: &'static str) {
        global_nets_field_desc_exec(i)
    }

    fn fieldtype(i: usize) -> (t: BitFragmentFieldType) {
        global_nets_field_type_exec(i)
    }

    fn field_offset(field_i: usize, arr_i: usize) -> (o: [isize; 2]) {
        if field_i == 0 || field_i == 3 || field_i == 4 {
            let (xs, ys) = global_nets_crbit_xc2c128_tables();
            let k = global_nets_first_bit_exec(field_i) + arr_i;
            [xs[k], ys[k]]
        } else {
            [0, 0]
        }
    }

    fn field_mirror(field_i: usize, arr_i: usize) -> (m: [bool; 2]) {
        [false, false]
    }

    fn field_bits(field_i: usize) -> (n: usize) {
        1
    }

    fn field_bit_base_pos(field_i: usize, bit_i: usize) -> (p: [isize; 2]) {
        if field_i == 0 || field_i == 3 || field_i == 4 {
            [0, 0]
        } else {
            let (xs, ys) = global_nets_crbit_xc2c128_tables();
            let k = global_nets_first_bit_exec(field_i);
            [xs[k], ys[k]]
        }
    }
}

/// The columns of the 14 global net bits in the XC2C256 crbit array.
pub open spec fn global_nets_crbit_xc2c256_xs() -> Seq<isize> {
    seq![519isize, 520, 521, 179, 178, 182, 177, 179, 182, 181, 176, 178, 181, 517]
}

/// The rows of the 14 global net bits in the XC2C256 crbit array.
pub open spec fn global_nets_crbit_xc2c256_ys() -> Seq<isize> {
    seq![23isize, 23, 23, 23, 23, 23, 24, 24, 24, 23, 24, 24, 24, 23]
}

/// The layout of the global nets in the XC2C256 crbit array.
pub open spec fn global_nets_crbit_xc2c256_layout() -> Seq<BitSlot> {
    table_layout(global_nets_crbit_xc2c256_xs(), global_nets_crbit_xc2c256_ys(), global_nets_inverted())
}

fn global_nets_crbit_xc2c256_tables() -> (t: ([isize; 14], [isize; 14]))
    ensures
        t.0@ == global_nets_crbit_xc2c256_xs(),
        t.1@ == global_nets_crbit_xc2c256_ys(),
{
    let xs: [isize; 14] = [519, 520, 521, 179, 178, 182, 177, 179, 182, 181, 176, 178, 181, 517];
    let ys: [isize; 14] = [23, 23, 23, 23, 23, 23, 24, 24, 24, 23, 24, 24, 24, 23];
    assert(xs@ =~= global_nets_crbit_xc2c256_xs());
    assert(ys@ =~= global_nets_crbit_xc2c256_ys());
    (xs, ys)
}

fn global_nets_crbit_xc2c256_layout_vec() -> (v: Vec<BitSlot>)
    ensures
        v@ == global_nets_crbit_xc2c256_layout(),
{
    let (xs, ys) = global_nets_crbit_xc2c256_tables();
    let inv = global_nets_inverted_arr();
    table_layout_vec(&xs, &ys, &inv)
}

impl BitFragment<CrbitXC2C256> for XC2GlobalNets {
    const IDX_DIMS: usize = 2;
    const FIELD_COUNT: usize = 6;

    type Fuses = FuseArray;
    type OffsettingType = [isize; 2];
    type MirroringType = [bool; 2];
    type ErrType = ();
    type EncodeExtraType = ();
    type DecodeExtraType = ();

    open spec fn spec_encode_fits(fuses: &FuseArray, offset: [isize; 2], mirror: [bool; 2], extra: ()) -> bool {
        layout_fits(grid_frame(crbit::width(fuses) as usize, offset, mirror), global_nets_crbit_xc2c256_layout(), crbit::fuses(fuses).len())
    }

    open spec fn spec_decode_fits(fuses: &FuseArray, offset: [isize; 2], mirror: [bool; 2], extra: ()) -> bool {
        layout_fits(grid_frame(crbit::width(fuses) as usize, offset, mirror), global_nets_crbit_xc2c256_layout(), crbit::fuses(fuses).len())
    }

    open spec fn spec_decode(fuses: &FuseArray, offset: [isize; 2], mirror: [bool; 2], extra: ()) -> Result<
        XC2GlobalNets,
        (),
    > {
        Ok(global_nets_of(read_slots(crbit::fuses(fuses), grid_frame(crbit::width(fuses) as usize, offset, mirror), global_nets_crbit_xc2c256_layout())))
    }

    open spec fn spec_field_count() -> nat {
        6
    }

    open spec fn spec_field_name(i: int) -> Seq<char> {
        global_nets_field_name(i)
    }

    open spec fn spec_field_desc(i: int) -> Seq<char> {
        global_nets_field_desc(i)
    }

    open spec fn spec_field_type(i: int) -> BitFragmentFieldType {
        global_nets_field_type(i)
    }

    open spec fn spec_field_elems(field_i: int) -> nat {
        global_nets_field_elems(field_i)
    }

    open spec fn spec_field_offset(field_i: int, arr_i: int) -> [isize; 2] {
        if field_i == 0 || field_i == 3 || field_i == 4 {
            let k = global_nets_first_bit(field_i) + arr_i;
            [global_nets_crbit_xc2c256_xs()[k], global_nets_crbit_xc2c256_ys()[k]]
        } else {
            [0, 0]
        }
    }

    open spec fn spec_field_mirror(field_i: int, arr_i: int) -> [bool; 2] {
        [false, false]
    }

    open spec fn spec_field_bits(field_i: int) -> nat {
        1
    }

    open spec fn spec_field_bit_base_pos(field_i: int, bit_i: int) -> [isize; 2] {
        if field_i == 0 || field_i == 3 || field_i == 4 {
            [0, 0]
        } else {
            let k = global_nets_first_bit(field_i);
            [global_nets_crbit_xc2c256_xs()[k], global_nets_crbit_xc2c256_ys()[k]]
        }
    }

    open spec fn spec_encode_result(&self, before: &FuseArray, after: &FuseArray, offset: [isize; 2], mirror: [bool; 2], extra: ()) -> bool {
        crbit::fuses(after) == apply_writes(crbit::fuses(before), slot_writes(grid_frame(crbit::width(before) as usize, offset, mirror), global_nets_crbit_xc2c256_layout(), global_nets_bits(*self)))
        && crbit::width(after) == crbit::width(before)
        && crbit::dev_name(after) == crbit::dev_name(before)
    }

    fn encode(&self, fuses: &mut FuseArray, offset: [isize; 2], mirror: [bool; 2], extra_data: ()) {
        let layout = global_nets_crbit_xc2c256_layout_vec();
        let bits = self.to_bits();
        fuses.write_slots(layout.as_slice(), bits.as_slice(), offset, mirror);
    }

    fn decode(fuses: &FuseArray, offset: [isize; 2], mirror: [bool; 2], extra_data: ()) -> (r: Result<XC2GlobalNets, ()>) {
        let layout = global_nets_crbit_xc2c256_layout_vec();
        let bits = fuses.read_slots(layout.as_slice(), offset, mirror);
        Ok(XC2GlobalNets::from_bits(bits.as_slice()))
    }

    fn fieldname(i: usize) -> (name: &'static str) {
        global_nets_field_name_exec(i)
    }

    fn fielddesc(i: usize) -> (desc: &'static str) {
        global_nets_field_desc_exec(i)
    }

    fn fieldtype(i: usize) -> (t: BitFragmentFieldType) {
        global_nets_field_type_exec(i)
    }

    fn field_offset(field_i: usize, arr_i: usize) -> (o: [isize; 2]) {
        if field_i == 0 || field_i == 3 || field_i == 4 {
            let (xs, ys) = global_nets_crbit_xc2c256_tables();
            let k = global_nets_first_bit_exec(field_i) + arr_i;
            [xs[k], ys[k]]
        } else {
            [0, 0]
        }
    }

    fn field_mirror(field_i: usize, arr_i: usize) -> (m: [bool; 2]) {
        [false, false]
    }

    fn field_bits(field_i: usize) -> (n: usize) {
        1
    }

    fn field_bit_base_pos(field_i: usize, bit_i: usize) -> (p: [isize; 2]) {
        if field_i == 0 || field_i == 3 || field_i == 4 {
            [0, 0]
        } else {
            let (xs, ys) = global_nets_crbit_xc2c256_tables();
            let k = global_nets_first_bit_exec(field_i);
            [xs[k], ys[k]]
        }
    }
}

/// The columns of the 14 global net bits in the XC2C384 crbit array.
pub open spec fn global_nets_crbit_xc2c384_xs() -> Seq<isize> {
    seq![467isize, 468, 469, 2, 1, 463, 464, 465, 466, 463, 464, 465, 466, 931]
}

/// The rows of the 14 global net bits in the XC2C384 crbit array.
pub open spec fn global_nets_crbit_xc2c384_ys() -> Seq<isize> {
    seq![102isize, 102, 102, 97, 97, 107, 107, 107, 107, 102, 102, 102, 102, 17]
}

/// The layout of the global nets in the XC2C384 crbit array.
pub open spec fn global_nets_crbit_xc2c384_layout() -> Seq<BitSlot> {
    table_layout(global_nets_crbit_xc2c384_xs(), global_nets_crbit_xc2c384_ys(), global_nets_inverted())
}

fn global_nets_crbit_xc2c384_tables() -> (t: ([isize; 14], [isize; 14]))
    ensures
        t.0@ == global_nets_crbit_xc2c384_xs(),
        t.1@ == global_nets_crbit_xc2c384_ys(),
{
    let xs: [isize; 14] = [467, 468, 469, 2, 1, 463, 464, 465, 466, 463, 464, 465, 466, 931];
    let ys: [isize; 14] = [102, 102, 102, 97, 97, 107, 107, 107, 107, 102, 102, 102, 102, 17];
    assert(xs@ =~= global_nets_crbit_xc2c384_xs());
    assert(ys@ =~= global_nets_crbit_xc2c384_ys());
    (xs, ys)
}

fn global_nets_crbit_xc2c384_layout_vec() -> (v: Vec<BitSlot>)
    ensures
        v@ == global_nets_crbit_xc2c384_layout(),
{
    let (xs, ys) = global_nets_crbit_xc2c384_tables();
    let inv = global_nets_inverted_arr();
    table_layout_vec(&xs, &ys, &inv)
}

impl BitFragment<CrbitXC2C384> for XC2GlobalNets {
    const IDX_DIMS: usize = 2;
    const FIELD_COUNT: usize = 6;

    type Fuses = FuseArray;
    type OffsettingType = [isize; 2];
    type MirroringType = [bool; 2];
    type ErrType = ();
    type EncodeExtraType = ();
    type DecodeExtraType = ();

    open spec fn spec_encode_fits(fuses: &FuseArray, offset: [isize; 2], mirror: [bool; 2], extra: ()) -> bool {
        layout_fits(grid_frame(crbit::width(fuses) as usize, offset, mirror), global_nets_crbit_xc2c384_layout(), crbit::fuses(fuses).len())
    }

    open spec fn spec_decode_fits(fuses: &FuseArray, offset: [isize; 2], mirror: [bool; 2], extra: ()) -> bool {
        layout_fits(grid_frame(crbit::width(fuses) as usize, offset, mirror), global_nets_crbit_xc2c384_layout(), crbit::fuses(fuses).len())
    }

    open spec fn spec_decode(fuses: &FuseArray, offset: [isize; 2], mirror: [bool; 2], extra: ()) -> Result<
        XC2GlobalNets,
        (),
    > {
        Ok(global_nets_of(read_slots(crbit::fuses(fuses), grid_frame(crbit::width(fuses) as usize, offset, mirror), global_nets_crbit_xc2c384_layout())))
    }

    open spec fn spec_field_count() -> nat {
        6
    }

    open spec fn spec_field_name(i: int) -> Seq<char> {
        global_nets_field_name(i)
    }

    open spec fn spec_field_desc(i: int) -> Seq<char> {
        global_nets_field_desc(i)
    }

    open spec fn spec_field_type(i: int) -> BitFragmentFieldType {
        global_nets_field_type(i)
    }

    open spec fn spec_field_elems(field_i: int) -> nat {
        global_nets_field_elems(field_i)
    }

    open spec fn spec_field_offset(field_i: int, arr_i: int) -> [isize; 2] {
        if field_i == 0 || field_i == 3 || field_i == 4 {
            let k = global_nets_first_bit(field_i) + arr_i;
            [global_nets_crbit_xc2c384_xs()[k], global_nets_crbit_xc2c384_ys()[k]]
        } else {
            [0, 0]
        }
    }

    open spec fn spec_field_mirror(field_i: int, arr_i: int) -> [bool; 2] {
        [false, false]
    }

    open spec fn spec_field_bits(field_i: int) -> nat {
        1
    }

    open spec fn spec_field_bit_base_pos(field_i: int, bit_i: int) -> [isize; 2] {
        if field_i == 0 || field_i == 3 || field_i == 4 {
            [0, 0]
        } else {
            let k = global_nets_first_bit(field_i);
            [global_nets_crbit_xc2c384_xs()[k], global_nets_crbit_xc2c384_ys()[k]]
        }
    }

    open spec fn spec_encode_result(&self, before: &FuseArray, after: &FuseArray, offset: [isize; 2], mirror: [bool; 2], extra: ()) -> bool {
        crbit::fuses(after) == apply_writes(crbit::fuses(before), slot_writes(grid_frame(crbit::width(before) as usize, offset, mirror), global_nets_crbit_xc2c384_layout(), global_nets_bits(*self)))
        && crbit::width(after) == crbit::width(before)
        && crbit::dev_name(after) == crbit::dev_name(before)
    }

    fn encode(&self, fuses: &mut FuseArray, offset: [isize; 2], mirror: [bool; 2], extra_data: ()) {
        let layout = global_nets_crbit_xc2c384_layout_vec();
        let bits = self.to_bits();
        fuses.write_slots(layout.as_slice(), bits.as_slice(), offset, mirror);
    }

    fn decode(fuses: &FuseArray, offset: [isize; 2], mirror: [bool; 2], extra_data: ()) -> (r: Result<XC2GlobalNets, ()>) {
        let layout = global_nets_crbit_xc2c384_layout_vec();
        let bits = fuses.read_slots(layout.as_slice(), offset, mirror);
        Ok(XC2GlobalNets::from_bits(bits.as_slice()))
    }

    fn fieldname(i: usize) -> (name: &'static str) {
        global_nets_field_name_exec(i)
    }

    fn fielddesc(i: usize) -> (desc: &'static str) {
        global_nets_field_desc_exec(i)
    }

    fn fieldtype(i: usize) -> (t: BitFragmentFieldType) {
        global_nets_field_type_exec(i)
    }

    fn field_offset(field_i: usize, arr_i: usize) -> (o: [isize; 2]) {
        if field_i == 0 || field_i == 3 || field_i == 4 {
            let (xs, ys) = global_nets_crbit_xc2c384_tables();
            let k = global_nets_first_bit_exec(field_i) + arr_i;
            [xs[k], ys[k]]
        } else {
            [0, 0]
        }
    }

    fn field_mirror(field_i: usize, arr_i: usize) -> (m: [bool; 2]) {
        [false, false]
    }

    fn field_bits(field_i: usize) -> (n: usize) {
        1
    }

    fn field_bit_base_pos(field_i: usize, bit_i: usize) -> (p: [isize; 2]) {
        if field_i == 0 || field_i == 3 || field_i == 4 {
            [0, 0]
        } else {
            let (xs, ys) = global_nets_crbit_xc2c384_tables();
            let k = global_nets_first_bit_exec(field_i);
            [xs[k], ys[k]]
        }
    }
}

/// The columns of the 14 global net bits in the XC2C512 crbit array.
pub open spec fn global_nets_crbit_xc2c512_xs() -> Seq<isize> {
    seq![979isize, 980, 981, 2, 1, 4, 481, 6, 8, 3, 480, 5, 7, 983]
}

/// The rows of the 14 global net bits in the XC2C512 crbit array.
pub open spec fn global_nets_crbit_xc2c512_ys() -> Seq<isize> {
    seq![147isize, 147, 147, 27, 27, 27, 27, 27, 27, 27, 27, 27, 27, 147]
}

/// The layout of the global nets in the XC2C512 crbit array.
pub open spec fn global_nets_crbit_xc2c512_layout() -> Seq<BitSlot> {
    table_layout(global_nets_crbit_xc2c512_xs(), global_nets_crbit_xc2c512_ys(), global_nets_inverted())
}

fn global_nets_crbit_xc2c512_tables() -> (t: ([isize; 14], [isize; 14]))
    ensures
        t.0@ == global_nets_crbit_xc2c512_xs(),
        t.1@ == global_nets_crbit_xc2c512_ys(),
{
    let xs: [isize; 14] = [979, 980, 981, 2, 1, 4, 481, 6, 8, 3, 480, 5, 7, 983];
    let ys: [isize; 14] = [147, 147, 147, 27, 27, 27, 27, 27, 27, 27, 27, 27, 27, 147];
    assert(xs@ =~= global_nets_crbit_xc2c512_xs());
    assert(ys@ =~= global_nets_crbit_xc2c512_ys());
    (xs, ys)
}

fn global_nets_crbit_xc2c512_layout_vec() -> (v: Vec<BitSlot>)
    ensures
        v@ == global_nets_crbit_xc2c512_layout(),
{
    let (xs, ys) = global_nets_crbit_xc2c512_tables();
    let inv = global_nets_inverted_arr();
    table_layout_vec(&xs, &ys, &inv)
}

impl BitFragment<CrbitXC2C512> for XC2GlobalNets {
    const IDX_DIMS: usize = 2;
    const FIELD_COUNT: usize = 6;

    type Fuses = FuseArray;
    type OffsettingType = [isize; 2];
    type MirroringType = [bool; 2];
    type ErrType = ();
    type EncodeExtraType = ();
    type DecodeExtraType = ();

    open spec fn spec_encode_fits(fuses: &FuseArray, offset: [isize; 2], mirror: [bool; 2], extra: ()) -> bool {
        layout_fits(grid_frame(crbit::width(fuses) as usize, offset, mirror), global_nets_crbit_xc2c512_layout(), crbit::fuses(fuses).len())
    }

    open spec fn spec_decode_fits(fuses: &FuseArray, offset: [isize; 2], mirror: [bool; 2], extra: ()) -> bool {
        layout_fits(grid_frame(crbit::width(fuses) as usize, offset, mirror), global_nets_crbit_xc2c512_layout(), crbit::fuses(fuses).len())
    }

    open spec fn spec_decode(fuses: &FuseArray, offset: [isize; 2], mirror: [bool; 2], extra: ()) -> Result<
        XC2GlobalNets,
        (),
    > {
        Ok(global_nets_of(read_slots(crbit::fuses(fuses), grid_frame(crbit::width(fuses) as usize, offset, mirror), global_nets_crbit_xc2c512_layout())))
    }

    open spec fn spec_field_count() -> nat {
        6
    }

    open spec fn spec_field_name(i: int) -> Seq<char> {
        global_nets_field_name(i)
    }

    open spec fn spec_field_desc(i: int) -> Seq<char> {
        global_nets_field_desc(i)
    }

    open spec fn spec_field_type(i: int) -> BitFragmentFieldType {
        global_nets_field_type(i)
    }

    open spec fn spec_field_elems(field_i: int) -> nat {
        global_nets_field_elems(field_i)
    }

    open spec fn spec_field_offset(field_i: int, arr_i: int) -> [isize; 2] {
        if field_i == 0 || field_i == 3 || field_i == 4 {
            let k = global_nets_first_bit(field_i) + arr_i;
            [global_nets_crbit_xc2c512_xs()[k], global_nets_crbit_xc2c512_ys()[k]]
        } else {
            [0, 0]
        }
    }

    open spec fn spec_field_mirror(field_i: int, arr_i: int) -> [bool; 2] {
        [false, false]
    }

    open spec fn spec_field_bits(field_i: int) -> nat {
        1
    }

    open spec fn spec_field_bit_base_pos(field_i: int, bit_i: int) -> [isize; 2] {
        if field_i == 0 || field_i == 3 || field_i == 4 {
            [0, 0]
        } else {
            let k = global_nets_first_bit(field_i);
            [global_nets_crbit_xc2c512_xs()[k], global_nets_crbit_xc2c512_ys()[k]]
        }
    }

    open spec fn spec_encode_result(&self, before: &FuseArray, after: &FuseArray, offset: [isize; 2], mirror: [bool; 2], extra: ()) -> bool {
        crbit::fuses(after) == apply_writes(crbit::fuses(before), slot_writes(grid_frame(crbit::width(before) as usize, offset, mirror), global_nets_crbit_xc2c512_layout(), global_nets_bits(*self)))
        && crbit::width(after) == crbit::width(before)
        && crbit::dev_name(after) == crbit::dev_name(before)
    }

    fn encode(&self, fuses: &mut FuseArray, offset: [isize; 2], mirror: [bool; 2], extra_data: ()) {
        let layout = global_nets_crbit_xc2c512_layout_vec();
        let bits = self.to_bits();
        fuses.write_slots(layout.as_slice(), bits.as_slice(), offset, mirror);
    }

    fn decode(fuses: &FuseArray, offset: [isize; 2], mirror: [bool; 2], extra_data: ()) -> (r: Result<XC2GlobalNets, ()>) {
        let layout = global_nets_crbit_xc2c512_layout_vec();
        let bits = fuses.read_slots(layout.as_slice(), offset, mirror);
        Ok(XC2GlobalNets::from_bits(bits.as_slice()))
    }

    fn fieldname(i: usize) -> (name: &'static str) {
        global_nets_field_name_exec(i)
    }

    fn fielddesc(i: usize) -> (desc: &'static str) {
        global_nets_field_desc_exec(i)
    }

    fn fieldtype(i: usize) -> (t: BitFragmentFieldType) {
        global_nets_field_type_exec(i)
    }

    fn field_offset(field_i: usize, arr_i: usize) -> (o: [isize; 2]) {
        if field_i == 0 || field_i == 3 || field_i == 4 {
            let (xs, ys) = global_nets_crbit_xc2c512_tables();
            let k = global_nets_first_bit_exec(field_i) + arr_i;
            [xs[k], ys[k]]
        } else {
            [0, 0]
        }
    }

    fn field_mirror(field_i: usize, arr_i: usize) -> (m: [bool; 2]) {
        [false, false]
    }

    fn field_bits(field_i: usize) -> (n: usize) {
        1
    }

    fn field_bit_base_pos(field_i: usize, bit_i: usize) -> (p: [isize; 2]) {
        if field_i == 0 || field_i == 3 || field_i == 4 {
            [0, 0]
        } else {
            let (xs, ys) = global_nets_crbit_xc2c512_tables();
            let k = global_nets_first_bit_exec(field_i);
            [xs[k], ys[k]]
        }
    }
}

/// The crbit layout of the global nets of `device`.
pub open spec fn global_nets_crbit_layout(device: XC2Device) -> Seq<BitSlot> {
    match device {
        XC2Device::XC2C32 | XC2Device::XC2C32A => global_nets_crbit_xc2c32_layout(),
        XC2Device::XC2C64 | XC2Device::XC2C64A => global_nets_crbit_xc2c64_layout(),
        XC2Device::XC2C128 => global_nets_crbit_xc2c128_layout(),
        XC2Device::XC2C256 => global_nets_crbit_xc2c256_layout(),
        XC2Device::XC2C384 => global_nets_crbit_xc2c384_layout(),
        XC2Device::XC2C512 => global_nets_crbit_xc2c512_layout(),
    }
}

/// Whether the global nets of `device` lie inside the crbit array `a`.
pub open spec fn global_nets_crbit_fits(device: XC2Device, a: &FuseArray) -> bool {
    layout_fits(grid_frame(crbit::width(a) as usize, [0, 0], [false, false]), global_nets_crbit_layout(device), crbit::fuses(a).len())
}

/// The global nets of `device` as stored in the crbit array `a`.
pub open spec fn global_nets_in_crbit(device: XC2Device, a: &FuseArray) -> XC2GlobalNets {
    global_nets_of(read_slots(crbit::fuses(a), grid_frame(crbit::width(a) as usize, [0, 0], [false, false]), global_nets_crbit_layout(device)))
}

impl XC2GlobalNets {
    /// Internal function to read the global nets
    pub fn from_crbit(device: XC2Device, fuse_array: &FuseArray) -> (n: Self)
        requires
            global_nets_crbit_fits(device, fuse_array),
        ensures
            n == global_nets_in_crbit(device, fuse_array),
    {
        let r = match device {
            XC2Device::XC2C32 | XC2Device::XC2C32A => {
                <Self as BitFragment<CrbitXC2C32>>::decode(fuse_array, [0, 0], [false, false], ())
            },
            XC2Device::XC2C64 | XC2Device::XC2C64A => {
                <Self as BitFragment<CrbitXC2C64>>::decode(fuse_array, [0, 0], [false, false], ())
            },
            XC2Device::XC2C128 => {
                <Self as BitFragment<CrbitXC2C128>>::decode(fuse_array, [0, 0], [false, false], ())
            },
            XC2Device::XC2C256 => {
                <Self as BitFragment<CrbitXC2C256>>::decode(fuse_array, [0, 0], [false, false], ())
            },
            XC2Device::XC2C384 => {
                <Self as BitFragment<CrbitXC2C384>>::decode(fuse_array, [0, 0], [false, false], ())
            },
            XC2Device::XC2C512 => {
                <Self as BitFragment<CrbitXC2C512>>::decode(fuse_array, [0, 0], [false, false], ())
            },
        };
        match r {
            Ok(n) => n,
            Err(_) => {
                proof {
                    assert(false);
                }
                Self::default()
            },
        }
    }
}

/// Reading the global nets of a device from a crbit array gives back the
/// nets that encoding in that device's crbit layout, at the array's origin,
/// stored there (in an array wider than the layout's last column); the A
/// revisions of the two smallest devices share the layout of the original.
pub proof fn lemma_global_nets_from_crbit_roundtrip(device: XC2Device, n: XC2GlobalNets, before: FuseArray, after: FuseArray)
    requires
        match device {
            XC2Device::XC2C32 | XC2Device::XC2C32A => {
                &&& <XC2GlobalNets as BitFragment<CrbitXC2C32>>::spec_encode_fits(&before, [0, 0], [false, false], ())
                &&& 131 < crbit::width(&before)
                &&& <XC2GlobalNets as BitFragment<CrbitXC2C32>>::spec_encode_result(&n, &before, &after, [0, 0], [false, false], ())
            },
            XC2Device::XC2C64 | XC2Device::XC2C64A => {
                &&& <XC2GlobalNets as BitFragment<CrbitXC2C64>>::spec_encode_fits(&before, [0, 0], [false, false], ())
                &&& 138 < crbit::width(&before)
                &&& <XC2GlobalNets as BitFragment<CrbitXC2C64>>::spec_encode_result(&n, &before, &after, [0, 0], [false, false], ())
            },
            XC2Device::XC2C128 => {
                &&& <XC2GlobalNets as BitFragment<CrbitXC2C128>>::spec_encode_fits(&before, [0, 0], [false, false], ())
                &&& 370 < crbit::width(&before)
                &&& <XC2GlobalNets as BitFragment<CrbitXC2C128>>::spec_encode_result(&n, &before, &after, [0, 0], [false, false], ())
            },
            XC2Device::XC2C256 => {
                &&& <XC2GlobalNets as BitFragment<CrbitXC2C256>>::spec_encode_fits(&before, [0, 0], [false, false], ())
                &&& 521 < crbit::width(&before)
                &&& <XC2GlobalNets as BitFragment<CrbitXC2C256>>::spec_encode_result(&n, &before, &after, [0, 0], [false, false], ())
            },
            XC2Device::XC2C384 => {
                &&& <XC2GlobalNets as BitFragment<CrbitXC2C384>>::spec_encode_fits(&before, [0, 0], [false, false], ())
                &&& 931 < crbit::width(&before)
                &&& <XC2GlobalNets as BitFragment<CrbitXC2C384>>::spec_encode_result(&n, &before, &after, [0, 0], [false, false], ())
            },
            XC2Device::XC2C512 => {
                &&& <XC2GlobalNets as BitFragment<CrbitXC2C512>>::spec_encode_fits(&before, [0, 0], [false, false], ())
                &&& 983 < crbit::width(&before)
                &&& <XC2GlobalNets as BitFragment<CrbitXC2C512>>::spec_encode_result(&n, &before, &after, [0, 0], [false, false], ())
            },
        },
    ensures
        global_nets_in_crbit(device, &after) == n,
{
    crbit::lemma_width_bound(&before);
    let f = grid_frame(crbit::width(&before) as usize, [0, 0], [false, false]);
    let s = crbit::fuses(&before);
    match device {
        XC2Device::XC2C32 | XC2Device::XC2C32A => {
            lemma_columns_between(f, global_nets_crbit_xc2c32_xs(), 126, 131);
            lemma_global_nets_roundtrip(s, f, global_nets_crbit_xc2c32_xs(), global_nets_crbit_xc2c32_ys(), n);
        },
        XC2Device::XC2C64 | XC2Device::XC2C64A => {
            lemma_columns_between(f, global_nets_crbit_xc2c64_xs(), 133, 138);
            lemma_global_nets_roundtrip(s, f, global_nets_crbit_xc2c64_xs(), global_nets_crbit_xc2c64_ys(), n);
        },
        XC2Device::XC2C128 => {
            lemma_columns_between(f, global_nets_crbit_xc2c128_xs(), 1, 370);
            lemma_global_nets_roundtrip(s, f, global_nets_crbit_xc2c128_xs(), global_nets_crbit_xc2c128_ys(), n);
        },
        XC2Device::XC2C256 => {
            lemma_columns_between(f, global_nets_crbit_xc2c256_xs(), 176, 521);
            lemma_global_nets_roundtrip(s, f, global_nets_crbit_xc2c256_xs(), global_nets_crbit_xc2c256_ys(), n);
        },
        XC2Device::XC2C384 => {
            lemma_columns_between(f, global_nets_crbit_xc2c384_xs(), 1, 931);
            lemma_global_nets_roundtrip(s, f, global_nets_crbit_xc2c384_xs(), global_nets_crbit_xc2c384_ys(), n);
        },
        XC2Device::XC2C512 => {
            lemma_columns_between(f, global_nets_crbit_xc2c512_xs(), 1, 983);
            lemma_global_nets_roundtrip(s, f, global_nets_crbit_xc2c512_xs(), global_nets_crbit_xc2c512_ys(), n);
        },
    }
}

/// Represents the configuration of the programmable clock divider in devices with 128 macrocells or
/// more. This is
/// hard-wired onto the GCK2 clock pin.
#[derive(Copy, Clone, Eq, PartialEq, Hash, Debug, Structural)]
pub struct XC2ClockDiv {
    /// Ratio that input clock is divided by
    pub div_ratio: XC2ClockDivRatio,
    /// Whether the "delay" feature is enabled
    pub delay: bool,
    /// Whether the clock divider is enabled (other settings are ignored if not)
    pub enabled: bool,
}

impl Default for XC2ClockDiv {
    /// Returns a "default" clock divider configuration, which is one that is not used
    fn default() -> (d: Self)
        ensures
            d == (XC2ClockDiv { div_ratio: XC2ClockDivRatio::Div16, delay: false, enabled: false }),
    {
        XC2ClockDiv { div_ratio: XC2ClockDivRatio::Div16, delay: false, enabled: false }
    }
}

/// The 5 bits of a clock divider configuration in storage order: the three
/// bits of the ratio, then the delay and enable flags.
pub open spec fn clock_div_bits(d: XC2ClockDiv) -> Seq<bool> {
    d.div_ratio.spec_encode() + seq![d.delay, d.enabled]
}

/// The clock divider configuration whose bits in storage order are `bits`,
/// if its first three bits name a ratio.
pub open spec fn clock_div_of(bits: Seq<bool>) -> Result<XC2ClockDiv, ()> {
    match <XC2ClockDivRatio as BitPattern<()>>::spec_decode(bits.take(3)) {
        Ok(r) => Ok(XC2ClockDiv { div_ratio: r, delay: bits[3], enabled: bits[4] }),
        Err(_) => Err(()),
    }
}

/// Which of the 5 clock divider bits are stored inverted: the delay and
/// enable flags.
pub open spec fn clock_div_inverted() -> Seq<bool> {
    seq![false, false, false, true, true]
}

fn clock_div_inverted_arr() -> (a: [bool; 5])
    ensures
        a@ == clock_div_inverted(),
{
    let a = [false, false, false, true, true];
    assert(a@ =~= clock_div_inverted());
    a
}

/// The position of the first bit of clock divider field `f` among its 5 bits.
pub open spec fn clock_div_first_bit(f: int) -> int {
    if f == 0 {
        0
    } else if f == 1 {
        3
    } else {
        4
    }
}

fn clock_div_first_bit_exec(f: usize) -> (k: usize)
    ensures
        k == clock_div_first_bit(f as int),
{
    if f == 0 {
        0
    } else if f == 1 {
        3
    } else {
        4
    }
}

/// The name of clock divider field `f`.
pub open spec fn clock_div_field_name(f: int) -> Seq<char> {
    if f == 0 {
        "div_ratio"@
    } else if f == 1 {
        "delay"@
    } else {
        "enabled"@
    }
}

/// The documentation of clock divider field `f`.
pub open spec fn clock_div_field_desc(f: int) -> Seq<char> {
    if f == 0 {
        "Ratio that input clock is divided by"@
    } else if f == 1 {
        "Whether the \"delay\" feature is enabled"@
    } else {
        "Whether the clock divider is enabled (other settings are ignored if not)"@
    }
}

/// The number of bits of clock divider field `f`.
pub open spec fn clock_div_field_bits(f: int) -> nat {
    if f == 0 {
        3
    } else {
        1
    }
}

/// The fields of a clock divider configuration in declaration order, each
/// with its name, its documentation, its number of bits and where its bits
/// start among the 5.
pub proof fn lemma_clock_div_field_table()
    ensures
        clock_div_field_bits(0) == 3,
        clock_div_field_bits(1) == 1,
        clock_div_field_bits(2) == 1,
        clock_div_field_name(0) == "div_ratio"@,
        clock_div_field_desc(0) == "Ratio that input clock is divided by"@,
        clock_div_first_bit(0) == 0,
        clock_div_field_name(1) == "delay"@,
        clock_div_field_desc(1) == "Whether the \"delay\" feature is enabled"@,
        clock_div_first_bit(1) == 3,
        clock_div_field_name(2) == "enabled"@,
        clock_div_field_desc(2) == "Whether the clock divider is enabled (other settings are ignored if not)"@,
        clock_div_first_bit(2) == 4,
{
}

fn clock_div_field_name_exec(f: usize) -> (s: &'static str)
    ensures
        s@ == clock_div_field_name(f as int),
{
    if f == 0 {
        "div_ratio"
    } else if f == 1 {
        "delay"
    } else {
        "enabled"
    }
}

fn clock_div_field_desc_exec(f: usize) -> (s: &'static str)
    ensures
        s@ == clock_div_field_desc(f as int),
{
    if f == 0 {
        "Ratio that input clock is divided by"
    } else if f == 1 {
        "Whether the \"delay\" feature is enabled"
    } else {
        "Whether the clock divider is enabled (other settings are ignored if not)"
    }
}

fn clock_div_field_bits_exec(f: usize) -> (n: usize)
    ensures
        n == clock_div_field_bits(f as int),
{
    if f == 0 {
        3
    } else {
        1
    }
}

impl XC2ClockDiv {
    fn to_bits(&self) -> (v: Vec<bool>)
        ensures
            v@ == clock_div_bits(*self),
    {
        let mut v = self.div_ratio.encode();
        v.push(self.delay);
        v.push(self.enabled);
        assert(v@ =~= clock_div_bits(*self));
        v
    }

    fn from_bits(v: &[bool]) -> (r: Result<Self, ()>)
        requires
            v@.len() == 5,
        ensures
            r == clock_div_of(v@),
    {
        let ratio_bits = vec![v[0], v[1], v[2]];
        assert(ratio_bits@ =~= v@.take(3));
        match <XC2ClockDivRatio as BitPattern<()>>::decode(ratio_bits.as_slice()) {
            Ok(div_ratio) => Ok(XC2ClockDiv { div_ratio, delay: v[3], enabled: v[4] }),
            Err(_) => Err(()),
        }
    }
}

/// The JED positions of the 5 clock divider bits.
pub open spec fn clock_div_jed_positions() -> Seq<isize> {
    seq![1isize, 2, 3, 4, 0]
}

/// The JED layout of the clock divider.
pub open spec fn clock_div_jed_layout() -> Seq<BitSlot> {
    table_layout(clock_div_jed_positions(), Seq::new(5, |_k: int| 0isize), clock_div_inverted())
}

fn clock_div_jed_positions_arr() -> (a: [isize; 5])
    ensures
        a@ == clock_div_jed_positions(),
{
    let a: [isize; 5] = [1, 2, 3, 4, 0];
    assert(a@ =~= clock_div_jed_positions());
    a
}

fn clock_div_jed_layout_vec() -> (v: Vec<BitSlot>)
    ensures
        v@ == clock_div_jed_layout(),
{
    let xs = clock_div_jed_positions_arr();
    let ys: [isize; 5] = [0; 5];
    let inv = clock_div_inverted_arr();
    assert(ys@ =~= Seq::new(5, |_k: int| 0isize));
    table_layout_vec(&xs, &ys, &inv)
}

impl BitFragment<JedCommon> for XC2ClockDiv {
    const IDX_DIMS: usize = 1;
    const FIELD_COUNT: usize = 3;

    type Fuses = [bool];
    type OffsettingType = [isize; 1];
    type MirroringType = [bool; 1];
    type ErrType = ();
    type EncodeExtraType = ();
    type DecodeExtraType = ();

    open spec fn spec_encode_fits(fuses: &[bool], offset: [isize; 1], mirror: [bool; 1], extra: ()) -> bool {
        layout_fits(line_frame(offset, mirror), clock_div_jed_layout(), fuses@.len())
    }

    open spec fn spec_decode_fits(fuses: &[bool], offset: [isize; 1], mirror: [bool; 1], extra: ()) -> bool {
        layout_fits(line_frame(offset, mirror), clock_div_jed_layout(), fuses@.len())
    }

    open spec fn spec_decode(fuses: &[bool], offset: [isize; 1], mirror: [bool; 1], extra: ()) -> Result<
        XC2ClockDiv,
        (),
    > {
        clock_div_of(read_slots(fuses@, line_frame(offset, mirror), clock_div_jed_layout()))
    }

    open spec fn spec_field_count() -> nat {
        3
    }

    open spec fn spec_field_name(i: int) -> Seq<char> {
        clock_div_field_name(i)
    }

    open spec fn spec_field_desc(i: int) -> Seq<char> {
        clock_div_field_desc(i)
    }

    open spec fn spec_field_type(i: int) -> BitFragmentFieldType {
        BitFragmentFieldType::Pattern
    }

    open spec fn spec_field_elems(field_i: int) -> nat {
        1
    }

    open spec fn spec_field_offset(field_i: int, arr_i: int) -> [isize; 1] {
        [0]
    }

    open spec fn spec_field_mirror(field_i: int, arr_i: int) -> [bool; 1] {
        [false]
    }

    open spec fn spec_field_bits(field_i: int) -> nat {
        clock_div_field_bits(field_i)
    }

    open spec fn spec_field_bit_base_pos(field_i: int, bit_i: int) -> [isize; 1] {
        if bit_i < clock_div_field_bits(field_i) {
            [clock_div_jed_positions()[clock_div_first_bit(field_i) + bit_i]]
        } else {
            [0]
        }
    }

    open spec fn spec_encode_result(&self, before: &[bool], after: &[bool], offset: [isize; 1], mirror: [bool; 1], extra: ()) -> bool {
        after@ == apply_writes(before@, slot_writes(line_frame(offset, mirror), clock_div_jed_layout(), clock_div_bits(*self)))
    }

    fn encode(&self, fuses: &mut [bool], offset: [isize; 1], mirror: [bool; 1], extra_data: ()) {
        let layout = clock_div_jed_layout_vec();
        let bits = self.to_bits();
        write_slots(fuses, layout.as_slice(), bits.as_slice(), Frame::Line { offset: offset[0], mirror: mirror[0] });
    }

    fn decode(fuses: &[bool], offset: [isize; 1], mirror: [bool; 1], extra_data: ()) -> (r: Result<XC2ClockDiv, ()>) {
        let layout = clock_div_jed_layout_vec();
        let bits = read_slots_from(fuses, layout.as_slice(), Frame::Line { offset: offset[0], mirror: mirror[0] });
        XC2ClockDiv::from_bits(bits.as_slice())
    }

    fn fieldname(i: usize) -> (name: &'static str) {
        clock_div_field_name_exec(i)
    }

    fn fielddesc(i: usize) -> (desc: &'static str) {
        clock_div_field_desc_exec(i)
    }

    fn fieldtype(i: usize) -> (t: BitFragmentFieldType) {
        BitFragmentFieldType::Pattern
    }

    fn field_offset(field_i: usize, arr_i: usize) -> (o: [isize; 1]) {
        [0]
    }

    fn field_mirror(field_i: usize, arr_i: usize) -> (m: [bool; 1]) {
        [false]
    }

    fn field_bits(field_i: usize) -> (n: usize) {
        clock_div_field_bits_exec(field_i)
    }

    fn field_bit_base_pos(field_i: usize, bit_i: usize) -> (p: [isize; 1]) {
        if bit_i < clock_div_field_bits_exec(field_i) {
            let xs = clock_div_jed_positions_arr();
            [xs[clock_div_first_bit_exec(field_i) + bit_i]]
        } else {
            [0]
        }
    }
}

/// The columns of the 5 clock divider bits in the XC2C128 crbit array.
pub open spec fn clock_div_crbit_xc2c128_xs() -> Seq<isize> {
    seq![363isize, 362, 361, 360, 364]
}

/// The rows of the 5 clock divider bits in the XC2C128 crbit array.
pub open spec fn clock_div_crbit_xc2c128_ys() -> Seq<isize> {
    seq![67isize, 67, 67, 67, 67]
}

/// The layout of the clock divider in the XC2C128 crbit array.
pub open spec fn clock_div_crbit_xc2c128_layout() -> Seq<BitSlot> {
    table_layout(clock_div_crbit_xc2c128_xs(), clock_div_crbit_xc2c128_ys(), clock_div_inverted())
}

fn clock_div_crbit_xc2c128_tables() -> (t: ([isize; 5], [isize; 5]))
    ensures
        t.0@ == clock_div_crbit_xc2c128_xs(),
        t.1@ == clock_div_crbit_xc2c128_ys(),
{
    let xs: [isize; 5] = [363, 362, 361, 360, 364];
    let ys: [isize; 5] = [67, 67, 67, 67, 67];
    assert(xs@ =~= clock_div_crbit_xc2c128_xs());
    assert(ys@ =~= clock_div_crbit_xc2c128_ys());
    (xs, ys)
}

fn clock_div_crbit_xc2c128_layout_vec() -> (v: Vec<BitSlot>)
    ensures
        v@ == clock_div_crbit_xc2c128_layout(),
{
    let (xs, ys) = clock_div_crbit_xc2c128_tables();
    let inv = clock_div_inverted_arr();
    table_layout_vec(&xs, &ys, &inv)
}

impl BitFragment<CrbitXC2C128> for XC2ClockDiv {
    const IDX_DIMS: usize = 2;
    const FIELD_COUNT: usize = 3;

    type Fuses = FuseArray;
    type OffsettingType = [isize; 2];
    type MirroringType = [bool; 2];
    type ErrType = ();
    type EncodeExtraType = ();
    type DecodeExtraType = ();

    open spec fn spec_encode_fits(fuses: &FuseArray, offset: [isize; 2], mirror: [bool; 2], extra: ()) -> bool {
        layout_fits(grid_frame(crbit::width(fuses) as usize, offset, mirror), clock_div_crbit_xc2c128_layout(), crbit::fuses(fuses).len())
    }

    open spec fn spec_decode_fits(fuses: &FuseArray, offset: [isize; 2], mirror: [bool; 2], extra: ()) -> bool {
        layout_fits(grid_frame(crbit::width(fuses) as usize, offset, mirror), clock_div_crbit_xc2c128_layout(), crbit::fuses(fuses).len())
    }

    open spec fn spec_decode(fuses: &FuseArray, offset: [isize; 2], mirror: [bool; 2], extra: ()) -> Result<
        XC2ClockDiv,
        (),
    > {
        clock_div_of(read_slots(crbit::fuses(fuses), grid_frame(crbit::width(fuses) as usize, offset, mirror), clock_div_crbit_xc2c128_layout()))
    }

    open spec fn spec_field_count() -> nat {
        3
    }

    open spec fn spec_field_name(i: int) -> Seq<char> {
        clock_div_field_name(i)
    }

    open spec fn spec_field_desc(i: int) -> Seq<char> {
        clock_div_field_desc(i)
    }

    open spec fn spec_field_type(i: int) -> BitFragmentFieldType {
        BitFragmentFieldType::Pattern
    }

    open spec fn spec_field_elems(field_i: int) -> nat {
        1
    }

    open spec fn spec_field_offset(field_i: int, arr_i: int) -> [isize; 2] {
        [0, 0]
    }

    open spec fn spec_field_mirror(field_i: int, arr_i: int) -> [bool; 2] {
        [false, false]
    }

    open spec fn spec_field_bits(field_i: int) -> nat {
        clock_div_field_bits(field_i)
    }

    open spec fn spec_field_bit_base_pos(field_i: int, bit_i: int) -> [isize; 2] {
        if bit_i < clock_div_field_bits(field_i) {
            let k = clock_div_first_bit(field_i) + bit_i;
            [clock_div_crbit_xc2c128_xs()[k], clock_div_crbit_xc2c128_ys()[k]]
        } else {
            [0, 0]
        }
    }

    open spec fn spec_encode_result(&self, before: &FuseArray, after: &FuseArray, offset: [isize; 2], mirror: [bool; 2], extra: ()) -> bool {
        crbit::fuses(after) == apply_writes(crbit::fuses(before), slot_writes(grid_frame(crbit::width(before) as usize, offset, mirror), clock_div_crbit_xc2c128_layout(), clock_div_bits(*self)))
        && crbit::width(after) == crbit::width(before)
        && crbit::dev_name(after) == crbit::dev_name(before)
    }

    fn encode(&self, fuses: &mut FuseArray, offset: [isize; 2], mirror: [bool; 2], extra_data: ()) {
        let layout = clock_div_crbit_xc2c128_layout_vec();
        let bits = self.to_bits();
        fuses.write_slots(layout.as_slice(), bits.as_slice(), offset, mirror);
    }

    fn decode(fuses: &FuseArray, offset: [isize; 2], mirror: [bool; 2], extra_data: ()) -> (r: Result<XC2ClockDiv, ()>) {
        let layout = clock_div_crbit_xc2c128_layout_vec();
        let bits = fuses.read_slots(layout.as_slice(), offset, mirror);
        XC2ClockDiv::from_bits(bits.as_slice())
    }

    fn fieldname(i: usize) -> (name: &'static str) {
        clock_div_field_name_exec(i)
    }

    fn fielddesc(i: usize) -> (desc: &'static str) {
        clock_div_field_desc_exec(i)
    }

    fn fieldtype(i: usize) -> (t: BitFragmentFieldType) {
        BitFragmentFieldType::Pattern
    }

    fn field_offset(field_i: usize, arr_i: usize) -> (o: [isize; 2]) {
        [0, 0]
    }

    fn field_mirror(field_i: usize, arr_i: usize) -> (m: [bool; 2]) {
        [false, false]
    }

    fn field_bits(field_i: usize) -> (n: usize) {
        clock_div_field_bits_exec(field_i)
    }

    fn field_bit_base_pos(field_i: usize, bit_i: usize) -> (p: [isize; 2]) {
        if bit_i < clock_div_field_bits_exec(field_i) {
            let (xs, ys) = clock_div_crbit_xc2c128_tables();
            let k = clock_div_first_bit_exec(field_i) + bit_i;
            [xs[k], ys[k]]
        } else {
            [0, 0]
        }
    }
}

/// The columns of the 5 clock divider bits in the XC2C256 crbit array.
pub open spec fn clock_div_crbit_xc2c256_xs() -> Seq<isize> {
    seq![518isize, 517, 516, 515, 519]
}

/// The rows of the 5 clock divider bits in the XC2C256 crbit array.
pub open spec fn clock_div_crbit_xc2c256_ys() -> Seq<isize> {
    seq![24isize, 24, 24, 24, 24]
}

/// The layout of the clock divider in the XC2C256 crbit array.
pub open spec fn clock_div_crbit_xc2c256_layout() -> Seq<BitSlot> {
    table_layout(clock_div_crbit_xc2c256_xs(), clock_div_crbit_xc2c256_ys(), clock_div_inverted())
}

fn clock_div_crbit_xc2c256_tables() -> (t: ([isize; 5], [isize; 5]))
    ensures
        t.0@ == clock_div_crbit_xc2c256_xs(),
        t.1@ == clock_div_crbit_xc2c256_ys(),
{
    let xs: [isize; 5] = [518, 517, 516, 515, 519];
    let ys: [isize; 5] = [24, 24, 24, 24, 24];
    assert(xs@ =~= clock_div_crbit_xc2c256_xs());
    assert(ys@ =~= clock_div_crbit_xc2c256_ys());
    (xs, ys)
}

fn clock_div_crbit_xc2c256_layout_vec() -> (v: Vec<BitSlot>)
    ensures
        v@ == clock_div_crbit_xc2c256_layout(),
{
    let (xs, ys) = clock_div_crbit_xc2c256_tables();
    let inv = clock_div_inverted_arr();
    table_layout_vec(&xs, &ys, &inv)
}

impl BitFragment<CrbitXC2C256> for XC2ClockDiv {
    const IDX_DIMS: usize = 2;
    const FIELD_COUNT: usize = 3;

    type Fuses = FuseArray;
    type OffsettingType = [isize; 2];
    type MirroringType = [bool; 2];
    type ErrType = ();
    type EncodeExtraType = ();
    type DecodeExtraType = ();

    open spec fn spec_encode_fits(fuses: &FuseArray, offset: [isize; 2], mirror: [bool; 2], extra: ()) -> bool {
        layout_fits(grid_frame(crbit::width(fuses) as usize, offset, mirror), clock_div_crbit_xc2c256_layout(), crbit::fuses(fuses).len())
    }

    open spec fn spec_decode_fits(fuses: &FuseArray, offset: [isize; 2], mirror: [bool; 2], extra: ()) -> bool {
        layout_fits(grid_frame(crbit::width(fuses) as usize, offset, mirror), clock_div_crbit_xc2c256_layout(), crbit::fuses(fuses).len())
    }

    open spec fn spec_decode(fuses: &FuseArray, offset: [isize; 2], mirror: [bool; 2], extra: ()) -> Result<
        XC2ClockDiv,
        (),
    > {
        clock_div_of(read_slots(crbit::fuses(fuses), grid_frame(crbit::width(fuses) as usize, offset, mirror), clock_div_crbit_xc2c256_layout()))
    }

    open spec fn spec_field_count() -> nat {
        3
    }

    open spec fn spec_field_name(i: int) -> Seq<char> {
        clock_div_field_name(i)
    }

    open spec fn spec_field_desc(i: int) -> Seq<char> {
        clock_div_field_desc(i)
    }

    open spec fn spec_field_type(i: int) -> BitFragmentFieldType {
        BitFragmentFieldType::Pattern
    }

    open spec fn spec_field_elems(field_i: int) -> nat {
        1
    }

    open spec fn spec_field_offset(field_i: int, arr_i: int) -> [isize; 2] {
        [0, 0]
    }

    open spec fn spec_field_mirror(field_i: int, arr_i: int) -> [bool; 2] {
        [false, false]
    }

    open spec fn spec_field_bits(field_i: int) -> nat {
        clock_div_field_bits(field_i)
    }

    open spec fn spec_field_bit_base_pos(field_i: int, bit_i: int) -> [isize; 2] {
        if bit_i < clock_div_field_bits(field_i) {
            let k = clock_div_first_bit(field_i) + bit_i;
            [clock_div_crbit_xc2c256_xs()[k], clock_div_crbit_xc2c256_ys()[k]]
        } else {
            [0, 0]
        }
    }

    open spec fn spec_encode_result(&self, before: &FuseArray, after: &FuseArray, offset: [isize; 2], mirror: [bool; 2], extra: ()) -> bool {
        crbit::fuses(after) == apply_writes(crbit::fuses(before), slot_writes(grid_frame(crbit::width(before) as usize, offset, mirror), clock_div_crbit_xc2c256_layout(), clock_div_bits(*self)))
        && crbit::width(after) == crbit::width(before)
        && crbit::dev_name(after) == crbit::dev_name(before)
    }

    fn encode(&self, fuses: &mut FuseArray, offset: [isize; 2], mirror: [bool; 2], extra_data: ()) {
        let layout = clock_div_crbit_xc2c256_layout_vec();
        let bits = self.to_bits();
        fuses.write_slots(layout.as_slice(), bits.as_slice(), offset, mirror);
    }

    fn decode(fuses: &FuseArray, offset: [isize; 2], mirror: [bool; 2], extra_data: ()) -> (r: Result<XC2ClockDiv, ()>) {
        let layout = clock_div_crbit_xc2c256_layout_vec();
        let bits = fuses.read_slots(layout.as_slice(), offset, mirror);
        XC2ClockDiv::from_bits(bits.as_slice())
    }

    fn fieldname(i: usize) -> (name: &'static str) {
        clock_div_field_name_exec(i)
    }

    fn fielddesc(i: usize) -> (desc: &'static str) {
        clock_div_field_desc_exec(i)
    }

    fn fieldtype(i: usize) -> (t: BitFragmentFieldType) {
        BitFragmentFieldType::Pattern
    }

    fn field_offset(field_i: usize, arr_i: usize) -> (o: [isize; 2]) {
        [0, 0]
    }

    fn field_mirror(field_i: usize, arr_i: usize) -> (m: [bool; 2]) {
        [false, false]
    }

    fn field_bits(field_i: usize) -> (n: usize) {
        clock_div_field_bits_exec(field_i)
    }

    fn field_bit_base_pos(field_i: usize, bit_i: usize) -> (p: [isize; 2]) {
        if bit_i < clock_div_field_bits_exec(field_i) {
            let (xs, ys) = clock_div_crbit_xc2c256_tables();
            let k = clock_div_first_bit_exec(field_i) + bit_i;
            [xs[k], ys[k]]
        } else {
            [0, 0]
        }
    }
}

/// The columns of the 5 clock divider bits in the XC2C384 crbit array.
pub open spec fn clock_div_crbit_xc2c384_xs() -> Seq<isize> {
    seq![470isize, 469, 468, 467, 471]
}

/// The rows of the 5 clock divider bits in the XC2C384 crbit array.
pub open spec fn clock_div_crbit_xc2c384_ys() -> Seq<isize> {
    seq![107isize, 107, 107, 107, 107]
}

/// The layout of the clock divider in the XC2C384 crbit array.
pub open spec fn clock_div_crbit_xc2c384_layout() -> Seq<BitSlot> {
    table_layout(clock_div_crbit_xc2c384_xs(), clock_div_crbit_xc2c384_ys(), clock_div_inverted())
}

fn clock_div_crbit_xc2c384_tables() -> (t: ([isize; 5], [isize; 5]))
    ensures
        t.0@ == clock_div_crbit_xc2c384_xs(),
        t.1@ == clock_div_crbit_xc2c384_ys(),
{
    let xs: [isize; 5] = [470, 469, 468, 467, 471];
    let ys: [isize; 5] = [107, 107, 107, 107, 107];
    assert(xs@ =~= clock_div_crbit_xc2c384_xs());
    assert(ys@ =~= clock_div_crbit_xc2c384_ys());
    (xs, ys)
}

fn clock_div_crbit_xc2c384_layout_vec() -> (v: Vec<BitSlot>)
    ensures
        v@ == clock_div_crbit_xc2c384_layout(),
{
    let (xs, ys) = clock_div_crbit_xc2c384_tables();
    let inv = clock_div_inverted_arr();
    table_layout_vec(&xs, &ys, &inv)
}

impl BitFragment<CrbitXC2C384> for XC2ClockDiv {
    const IDX_DIMS: usize = 2;
    const FIELD_COUNT: usize = 3;

    type Fuses = FuseArray;
    type OffsettingType = [isize; 2];
    type MirroringType = [bool; 2];
    type ErrType = ();
    type EncodeExtraType = ();
    type DecodeExtraType = ();

    open spec fn spec_encode_fits(fuses: &FuseArray, offset: [isize; 2], mirror: [bool; 2], extra: ()) -> bool {
        layout_fits(grid_frame(crbit::width(fuses) as usize, offset, mirror), clock_div_crbit_xc2c384_layout(), crbit::fuses(fuses).len())
    }

    open spec fn spec_decode_fits(fuses: &FuseArray, offset: [isize; 2], mirror: [bool; 2], extra: ()) -> bool {
        layout_fits(grid_frame(crbit::width(fuses) as usize, offset, mirror), clock_div_crbit_xc2c384_layout(), crbit::fuses(fuses).len())
    }

    open spec fn spec_decode(fuses: &FuseArray, offset: [isize; 2], mirror: [bool; 2], extra: ()) -> Result<
        XC2ClockDiv,
        (),
    > {
        clock_div_of(read_slots(crbit::fuses(fuses), grid_frame(crbit::width(fuses) as usize, offset, mirror), clock_div_crbit_xc2c384_layout()))
    }

    open spec fn spec_field_count() -> nat {
        3
    }

    open spec fn spec_field_name(i: int) -> Seq<char> {
        clock_div_field_name(i)
    }

    open spec fn spec_field_desc(i: int) -> Seq<char> {
        clock_div_field_desc(i)
    }

    open spec fn spec_field_type(i: int) -> BitFragmentFieldType {
        BitFragmentFieldType::Pattern
    }

    open spec fn spec_field_elems(field_i: int) -> nat {
        1
    }

    open spec fn spec_field_offset(field_i: int, arr_i: int) -> [isize; 2] {
        [0, 0]
    }

    open spec fn spec_field_mirror(field_i: int, arr_i: int) -> [bool; 2] {
        [false, false]
    }

    open spec fn spec_field_bits(field_i: int) -> nat {
        clock_div_field_bits(field_i)
    }

    open spec fn spec_field_bit_base_pos(field_i: int, bit_i: int) -> [isize; 2] {
        if bit_i < clock_div_field_bits(field_i) {
            let k = clock_div_first_bit(field_i) + bit_i;
            [clock_div_crbit_xc2c384_xs()[k], clock_div_crbit_xc2c384_ys()[k]]
        } else {
            [0, 0]
        }
    }

    open spec fn spec_encode_result(&self, before: &FuseArray, after: &FuseArray, offset: [isize; 2], mirror: [bool; 2], extra: ()) -> bool {
        crbit::fuses(after) == apply_writes(crbit::fuses(before), slot_writes(grid_frame(crbit::width(before) as usize, offset, mirror), clock_div_crbit_xc2c384_layout(), clock_div_bits(*self)))
        && crbit::width(after) == crbit::width(before)
        && crbit::dev_name(after) == crbit::dev_name(before)
    }

    fn encode(&self, fuses: &mut FuseArray, offset: [isize; 2], mirror: [bool; 2], extra_data: ()) {
        let layout = clock_div_crbit_xc2c384_layout_vec();
        let bits = self.to_bits();
        fuses.write_slots(layout.as_slice(), bits.as_slice(), offset, mirror);
    }

    fn decode(fuses: &FuseArray, offset: [isize; 2], mirror: [bool; 2], extra_data: ()) -> (r: Result<XC2ClockDiv, ()>) {
        let layout = clock_div_crbit_xc2c384_layout_vec();
        let bits = fuses.read_slots(layout.as_slice(), offset, mirror);
        XC2ClockDiv::from_bits(bits.as_slice())
    }

    fn fieldname(i: usize) -> (name: &'static str) {
        clock_div_field_name_exec(i)
    }

    fn fielddesc(i: usize) -> (desc: &'static str) {
        clock_div_field_desc_exec(i)
    }

    fn fieldtype(i: usize) -> (t: BitFragmentFieldType) {
        BitFragmentFieldType::Pattern
    }

    fn field_offset(field_i: usize, arr_i: usize) -> (o: [isize; 2]) {
        [0, 0]
    }

    fn field_mirror(field_i: usize, arr_i: usize) -> (m: [bool; 2]) {
        [false, false]
    }

    fn field_bits(field_i: usize) -> (n: usize) {
        clock_div_field_bits_exec(field_i)
    }

    fn field_bit_base_pos(field_i: usize, bit_i: usize) -> (p: [isize; 2]) {
        if bit_i < clock_div_field_bits_exec(field_i) {
            let (xs, ys) = clock_div_crbit_xc2c384_tables();
            let k = clock_div_first_bit_exec(field_i) + bit_i;
            [xs[k], ys[k]]
        } else {
            [0, 0]
        }
    }
}

/// The columns of the 5 clock divider bits in the XC2C512 crbit array.
pub open spec fn clock_div_crbit_xc2c512_xs() -> Seq<isize> {
    seq![977isize, 976, 975, 974, 978]
}

/// The rows of the 5 clock divider bits in the XC2C512 crbit array.
pub open spec fn clock_div_crbit_xc2c512_ys() -> Seq<isize> {
    seq![147isize, 147, 147, 147, 147]
}

/// The layout of the clock divider in the XC2C512 crbit array.
pub open spec fn clock_div_crbit_xc2c512_layout() -> Seq<BitSlot> {
    table_layout(clock_div_crbit_xc2c512_xs(), clock_div_crbit_xc2c512_ys(), clock_div_inverted())
}

fn clock_div_crbit_xc2c512_tables() -> (t: ([isize; 5], [isize; 5]))
    ensures
        t.0@ == clock_div_crbit_xc2c512_xs(),
        t.1@ == clock_div_crbit_xc2c512_ys(),
{
    let xs: [isize; 5] = [977, 976, 975, 974, 978];
    let ys: [isize; 5] = [147, 147, 147, 147, 147];
    assert(xs@ =~= clock_div_crbit_xc2c512_xs());
    assert(ys@ =~= clock_div_crbit_xc2c512_ys());
    (xs, ys)
}

fn clock_div_crbit_xc2c512_layout_vec() -> (v: Vec<BitSlot>)
    ensures
        v@ == clock_div_crbit_xc2c512_layout(),
{
    let (xs, ys) = clock_div_crbit_xc2c512_tables();
    let inv = clock_div_inverted_arr();
    table_layout_vec(&xs, &ys, &inv)
}

impl BitFragment<CrbitXC2C512> for XC2ClockDiv {
    const IDX_DIMS: usize = 2;
    const FIELD_COUNT: usize = 3;

    type Fuses = FuseArray;
    type OffsettingType = [isize; 2];
    type MirroringType = [bool; 2];
    type ErrType = ();
    type EncodeExtraType = ();
    type DecodeExtraType = ();

    open spec fn spec_encode_fits(fuses: &FuseArray, offset: [isize; 2], mirror: [bool; 2], extra: ()) -> bool {
        layout_fits(grid_frame(crbit::width(fuses) as usize, offset, mirror), clock_div_crbit_xc2c512_layout(), crbit::fuses(fuses).len())
    }

    open spec fn spec_decode_fits(fuses: &FuseArray, offset: [isize; 2], mirror: [bool; 2], extra: ()) -> bool {
        layout_fits(grid_frame(crbit::width(fuses) as usize, offset, mirror), clock_div_crbit_xc2c512_layout(), crbit::fuses(fuses).len())
    }

    open spec fn spec_decode(fuses: &FuseArray, offset: [isize; 2], mirror: [bool; 2], extra: ()) -> Result<
        XC2ClockDiv,
        (),
    > {
        clock_div_of(read_slots(crbit::fuses(fuses), grid_frame(crbit::width(fuses) as usize, offset, mirror), clock_div_crbit_xc2c512_layout()))
    }

    open spec fn spec_field_count() -> nat {
        3
    }

    open spec fn spec_field_name(i: int) -> Seq<char> {
        clock_div_field_name(i)
    }

    open spec fn spec_field_desc(i: int) -> Seq<char> {
        clock_div_field_desc(i)
    }

    open spec fn spec_field_type(i: int) -> BitFragmentFieldType {
        BitFragmentFieldType::Pattern
    }

    open spec fn spec_field_elems(field_i: int) -> nat {
        1
    }

    open spec fn spec_field_offset(field_i: int, arr_i: int) -> [isize; 2] {
        [0, 0]
    }

    open spec fn spec_field_mirror(field_i: int, arr_i: int) -> [bool; 2] {
        [false, false]
    }

    open spec fn spec_field_bits(field_i: int) -> nat {
        clock_div_field_bits(field_i)
    }

    open spec fn spec_field_bit_base_pos(field_i: int, bit_i: int) -> [isize; 2] {
        if bit_i < clock_div_field_bits(field_i) {
            let k = clock_div_first_bit(field_i) + bit_i;
            [clock_div_crbit_xc2c512_xs()[k], clock_div_crbit_xc2c512_ys()[k]]
        } else {
            [0, 0]
        }
    }

    open spec fn spec_encode_result(&self, before: &FuseArray, after: &FuseArray, offset: [isize; 2], mirror: [bool; 2], extra: ()) -> bool {
        crbit::fuses(after) == apply_writes(crbit::fuses(before), slot_writes(grid_frame(crbit::width(before) as usize, offset, mirror), clock_div_crbit_xc2c512_layout(), clock_div_bits(*self)))
        && crbit::width(after) == crbit::width(before)
        && crbit::dev_name(after) == crbit::dev_name(before)
    }

    fn encode(&self, fuses: &mut FuseArray, offset: [isize; 2], mirror: [bool; 2], extra_data: ()) {
        let layout = clock_div_crbit_xc2c512_layout_vec();
        let bits = self.to_bits();
        fuses.write_slots(layout.as_slice(), bits.as_slice(), offset, mirror);
    }

    fn decode(fuses: &FuseArray, offset: [isize; 2], mirror: [bool; 2], extra_data: ()) -> (r: Result<XC2ClockDiv, ()>) {
        let layout = clock_div_crbit_xc2c512_layout_vec();
        let bits = fuses.read_slots(layout.as_slice(), offset, mirror);
        XC2ClockDiv::from_bits(bits.as_slice())
    }

    fn fieldname(i: usize) -> (name: &'static str) {
        clock_div_field_name_exec(i)
    }

    fn fielddesc(i: usize) -> (desc: &'static str) {
        clock_div_field_desc_exec(i)
    }

    fn fieldtype(i: usize) -> (t: BitFragmentFieldType) {
        BitFragmentFieldType::Pattern
    }

    fn field_offset(field_i: usize, arr_i: usize) -> (o: [isize; 2]) {
        [0, 0]
    }

    fn field_mirror(field_i: usize, arr_i: usize) -> (m: [bool; 2]) {
        [false, false]
    }

    fn field_bits(field_i: usize) -> (n: usize) {
        clock_div_field_bits_exec(field_i)
    }

    fn field_bit_base_pos(field_i: usize, bit_i: usize) -> (p: [isize; 2]) {
        if bit_i < clock_div_field_bits_exec(field_i) {
            let (xs, ys) = clock_div_crbit_xc2c512_tables();
            let k = clock_div_first_bit_exec(field_i) + bit_i;
            [xs[k], ys[k]]
        } else {
            [0, 0]
        }
    }
}

/// Any 14 bits are the bits of some global net configuration.
pub proof fn lemma_global_nets_bits_onto(bits: Seq<bool>)
    requires
        bits.len() == 14,
    ensures
        global_nets_bits(global_nets_of(bits)) == bits,
{
    let n = XC2GlobalNets {
        gck_enable: [bits[0], bits[1], bits[2]],
        gsr_enable: bits[3],
        gsr_invert: bits[4],
        gts_enable: [bits[5], bits[6], bits[7], bits[8]],
        gts_invert: [bits[9], bits[10], bits[11], bits[12]],
        global_pu: bits[13],
    };
    assert(global_nets_bits(n) =~= bits);
}

/// Rows of zeros, for one-dimensional table layouts.
pub open spec fn zero_rows(n: nat) -> Seq<isize> {
    Seq::new(n, |_k: int| 0isize)
}

/// Decoding the global nets from where they were just encoded gives them
/// back, for any table layout of 14 distinct positions (in a grid, inside
/// its width).
pub proof fn lemma_global_nets_roundtrip(s: Seq<bool>, f: Frame, xs: Seq<isize>, ys: Seq<isize>, n: XC2GlobalNets)
    requires
        xs.len() == 14,
        ys.len() == 14,
        positions_distinct(xs, ys),
        f is Line ==> ys == zero_rows(14),
        columns_inside(f, xs),
        layout_fits(f, table_layout(xs, ys, global_nets_inverted()), s.len()),
    ensures
        global_nets_of(
            read_slots(
                apply_writes(s, slot_writes(f, table_layout(xs, ys, global_nets_inverted()), global_nets_bits(n))),
                f,
                table_layout(xs, ys, global_nets_inverted()),
            ),
        ) == n,
{
    let l = table_layout(xs, ys, global_nets_inverted());
    lemma_table_layout_distinct(f, xs, ys, global_nets_inverted(), s.len());
    lemma_read_after_write(s, f, l, global_nets_bits(n));
    lemma_global_nets_of(n);
}

/// Encoding the global nets just decoded, at the same place, leaves the fuses
/// as they were.
pub proof fn lemma_global_nets_rewrite(s: Seq<bool>, f: Frame, layout: Seq<BitSlot>)
    requires
        layout.len() == 14,
        layout_fits(f, layout, s.len()),
    ensures
        apply_writes(s, slot_writes(f, layout, global_nets_bits(global_nets_of(read_slots(s, f, layout))))) == s,
{
    lemma_global_nets_bits_onto(read_slots(s, f, layout));
    lemma_write_what_was_read(s, f, layout);
}

/// The bit positions of the global nets are distinct in every layout.
pub proof fn lemma_global_nets_positions_distinct()
    ensures
        positions_distinct(global_nets_jed_xc2c32_positions(), zero_rows(14)),
        positions_distinct(global_nets_jed_xc2c64_positions(), zero_rows(14)),
        positions_distinct(global_nets_jed_xc2c128_positions(), zero_rows(14)),
        positions_distinct(global_nets_jed_xc2c256_positions(), zero_rows(14)),
        positions_distinct(global_nets_jed_xc2c384_positions(), zero_rows(14)),
        positions_distinct(global_nets_jed_xc2c512_positions(), zero_rows(14)),
        positions_distinct(global_nets_crbit_xc2c32_xs(), global_nets_crbit_xc2c32_ys()),
        positions_distinct(global_nets_crbit_xc2c64_xs(), global_nets_crbit_xc2c64_ys()),
        positions_distinct(global_nets_crbit_xc2c128_xs(), global_nets_crbit_xc2c128_ys()),
        positions_distinct(global_nets_crbit_xc2c256_xs(), global_nets_crbit_xc2c256_ys()),
        positions_distinct(global_nets_crbit_xc2c384_xs(), global_nets_crbit_xc2c384_ys()),
        positions_distinct(global_nets_crbit_xc2c512_xs(), global_nets_crbit_xc2c512_ys()),
{
}

/// The bits of a clock divider configuration decode back to it.
pub proof fn lemma_clock_div_bits_roundtrip(d: XC2ClockDiv)
    ensures
        clock_div_of(clock_div_bits(d)) == Ok::<XC2ClockDiv, ()>(d),
{
    lemma_div_ratio_roundtrip(d.div_ratio);
    let b = clock_div_bits(d);
    assert(b.take(3) =~= d.div_ratio.spec_encode());
}

/// Decoding the clock divider from where it was just encoded gives it back,
/// for any table layout of 5 distinct positions (in a grid, inside its
/// width).
pub proof fn lemma_clock_div_roundtrip(s: Seq<bool>, f: Frame, xs: Seq<isize>, ys: Seq<isize>, d: XC2ClockDiv)
    requires
        xs.len() == 5,
        ys.len() == 5,
        positions_distinct(xs, ys),
        f is Line ==> ys == zero_rows(5),
        columns_inside(f, xs),
        layout_fits(f, table_layout(xs, ys, clock_div_inverted()), s.len()),
    ensures
        clock_div_of(
            read_slots(
                apply_writes(s, slot_writes(f, table_layout(xs, ys, clock_div_inverted()), clock_div_bits(d))),
                f,
                table_layout(xs, ys, clock_div_inverted()),
            ),
        ) == Ok::<XC2ClockDiv, ()>(d),
{
    let l = table_layout(xs, ys, clock_div_inverted());
    lemma_table_layout_distinct(f, xs, ys, clock_div_inverted(), s.len());
    lemma_div_ratio_roundtrip(d.div_ratio);
    lemma_read_after_write(s, f, l, clock_div_bits(d));
    lemma_clock_div_bits_roundtrip(d);
}

/// The bit positions of the clock divider are distinct in every layout.
pub proof fn lemma_clock_div_positions_distinct()
    ensures
        positions_distinct(clock_div_jed_positions(), zero_rows(5)),
        positions_distinct(clock_div_crbit_xc2c128_xs(), clock_div_crbit_xc2c128_ys()),
        positions_distinct(clock_div_crbit_xc2c256_xs(), clock_div_crbit_xc2c256_ys()),
        positions_distinct(clock_div_crbit_xc2c384_xs(), clock_div_crbit_xc2c384_ys()),
        positions_distinct(clock_div_crbit_xc2c512_xs(), clock_div_crbit_xc2c512_ys()),
{
}

/// `"enabled"` or `"disabled"`.
pub open spec fn enabled_word(b: bool) -> Seq<char> {
    if b {
        "enabled"@
    } else {
        "disabled"@
    }
}

fn enabled_str(b: bool) -> (s: &'static str)
    ensures
        s@ == enabled_word(b),
{
    if b {
        "enabled"
    } else {
        "disabled"
    }
}

/// The line describing global tristate net `i`.
pub open spec fn gts_line(n: XC2GlobalNets, i: int, label: Seq<char>) -> Seq<char> {
    label + enabled_word(n.gts_enable[i]) + ", acts as "@ + (if n.gts_invert[i] {
        "!T"@
    } else {
        "T"@
    }) + "\n"@
}

/// The human-readable description of a global net configuration.
pub open spec fn global_nets_text(n: XC2GlobalNets) -> Seq<char> {
    "GCK0 "@ + enabled_word(n.gck_enable[0]) + "\n"@ + "GCK1 "@ + enabled_word(n.gck_enable[1]) + "\n"@
        + "GCK2 "@ + enabled_word(n.gck_enable[2]) + "\n"@ + "GSR "@ + enabled_word(n.gsr_enable)
        + ", active "@ + (if n.gsr_invert {
        "high"@
    } else {
        "low"@
    }) + "\n"@ + gts_line(n, 0, "GTS0 "@) + gts_line(n, 1, "GTS1 "@) + gts_line(n, 2, "GTS2 "@) + gts_line(
        n,
        3,
        "GTS3 "@,
    ) + "global termination is "@ + (if n.global_pu {
        "pull-up"@
    } else {
        "bus hold"@
    }) + "\n"@
}

impl XC2GlobalNets {
    fn append_gts_line(&self, s: &mut String, i: usize, label: &str)
        requires
            i < 4,
        ensures
            final(s)@ == old(s)@ + gts_line(*self, i as int, label@),
    {
        s.append(label);
        s.append(enabled_str(self.gts_enable[i]));
        s.append(", acts as ");
        s.append(if self.gts_invert[i] { "!T" } else { "T" });
        s.append("\n");
    }

    /// The human-readable description of this configuration, one line per
    /// global net.
    pub fn to_string(&self) -> (s: String)
        ensures
            s@ == global_nets_text(*self),
    {
        let mut s = String::new();
        s.append("GCK0 ");
        s.append(enabled_str(self.gck_enable[0]));
        s.append("\n");
        s.append("GCK1 ");
        s.append(enabled_str(self.gck_enable[1]));
        s.append("\n");
        s.append("GCK2 ");
        s.append(enabled_str(self.gck_enable[2]));
        s.append("\n");
        s.append("GSR ");
        s.append(enabled_str(self.gsr_enable));
        s.append(", active ");
        s.append(if self.gsr_invert { "high" } else { "low" });
        s.append("\n");
        self.append_gts_line(&mut s, 0, "GTS0 ");
        self.append_gts_line(&mut s, 1, "GTS1 ");
        self.append_gts_line(&mut s, 2, "GTS2 ");
        self.append_gts_line(&mut s, 3, "GTS3 ");
        s.append("global termination is ");
        s.append(if self.global_pu { "pull-up" } else { "bus hold" });
        s.append("\n");
        s
    }
}

/// The divisor, in decimal, that a clock divide ratio stands for.
pub open spec fn div_ratio_text(r: XC2ClockDivRatio) -> Seq<char> {
    match r {
        XC2ClockDivRatio::Div2 => "2"@,
        XC2ClockDivRatio::Div4 => "4"@,
        XC2ClockDivRatio::Div6 => "6"@,
        XC2ClockDivRatio::Div8 => "8"@,
        XC2ClockDivRatio::Div10 => "10"@,
        XC2ClockDivRatio::Div12 => "12"@,
        XC2ClockDivRatio::Div14 => "14"@,
        XC2ClockDivRatio::Div16 => "16"@,
    }
}

/// The human-readable description of a clock divider configuration.
pub open spec fn clock_div_text(d: XC2ClockDiv) -> Seq<char> {
    "GCK2 clock divider "@ + enabled_word(d.enabled) + "\n"@ + "clock divider delay "@ + enabled_word(d.delay)
        + "\n"@ + "clock division ratio: "@ + div_ratio_text(d.div_ratio) + "\n"@
}

impl XC2ClockDiv {
    /// The human-readable description of this configuration.
    pub fn to_string(&self) -> (s: String)
        ensures
            s@ == clock_div_text(*self),
    {
        let mut s = String::new();
        s.append("GCK2 clock divider ");
        s.append(enabled_str(self.enabled));
        s.append("\n");
        s.append("clock divider delay ");
        s.append(enabled_str(self.delay));
        s.append("\n");
        s.append("clock division ratio: ");
        s.append(
            match self.div_ratio {
                XC2ClockDivRatio::Div2 => "2",
                XC2ClockDivRatio::Div4 => "4",
                XC2ClockDivRatio::Div6 => "6",
                XC2ClockDivRatio::Div8 => "8",
                XC2ClockDivRatio::Div10 => "10",
                XC2ClockDivRatio::Div12 => "12",
                XC2ClockDivRatio::Div14 => "14",
                XC2ClockDivRatio::Div16 => "16",
            },
        );
        s.append("\n");
        s
    }
}

/// Encoding the global nets in the `JedXC2C32` layout stores each setting at its
/// own place in the JED fuse list, counted from the placement origin (backwards
/// along a mirrored axis); an inverted fuse holds the complement: the GCK0 enable at 12256; the
/// GCK1 enable at 12257; the GCK2 enable at 12258; the GSR enable at 12260; the GSR polarity at
/// 12259; the GTS0 enable at 12262 inverted; the GTS1 enable at 12264 inverted; the GTS2 enable at
/// 12266 inverted; the GTS3 enable at 12268 inverted; the GTS0 polarity at 12261; the GTS1 polarity
/// at 12263; the GTS2 polarity at 12265; the GTS3 polarity at 12267; the termination mode at 12269.
pub proof fn lemma_global_nets_jed_xc2c32_places(n: XC2GlobalNets, before: &[bool], after: &[bool], offset: [isize; 1], mirror: [bool; 1])
    requires
        <XC2GlobalNets as BitFragment<JedXC2C32>>::spec_encode_fits(before, offset, mirror, ()),
        <XC2GlobalNets as BitFragment<JedXC2C32>>::spec_encode_result(&n, before, after, offset, mirror, ()),
    ensures
        after@[place(offset[0] as int, mirror[0], 12256)] == n.gck_enable[0],
        after@[place(offset[0] as int, mirror[0], 12257)] == n.gck_enable[1],
        after@[place(offset[0] as int, mirror[0], 12258)] == n.gck_enable[2],
        after@[place(offset[0] as int, mirror[0], 12260)] == n.gsr_enable,
        after@[place(offset[0] as int, mirror[0], 12259)] == n.gsr_invert,
        after@[place(offset[0] as int, mirror[0], 12262)] == !n.gts_enable[0],
        after@[place(offset[0] as int, mirror[0], 12264)] == !n.gts_enable[1],
        after@[place(offset[0] as int, mirror[0], 12266)] == !n.gts_enable[2],
        after@[place(offset[0] as int, mirror[0], 12268)] == !n.gts_enable[3],
        after@[place(offset[0] as int, mirror[0], 12261)] == n.gts_invert[0],
        after@[place(offset[0] as int, mirror[0], 12263)] == n.gts_invert[1],
        after@[place(offset[0] as int, mirror[0], 12265)] == n.gts_invert[2],
        after@[place(offset[0] as int, mirror[0], 12267)] == n.gts_invert[3],
        after@[place(offset[0] as int, mirror[0], 12269)] == n.global_pu,
{
    let f = line_frame(offset, mirror);
    let s = before@;
    lemma_table_writes(s, f, global_nets_jed_xc2c32_positions(), Seq::new(14, |_k: int| 0isize), global_nets_inverted(), global_nets_bits(n));
    assert(global_nets_jed_xc2c32_positions()[0] == 12256 && Seq::new(14, |_k: int| 0isize)[0] == 0);
    assert(global_nets_jed_xc2c32_positions()[1] == 12257 && Seq::new(14, |_k: int| 0isize)[1] == 0);
    assert(global_nets_jed_xc2c32_positions()[2] == 12258 && Seq::new(14, |_k: int| 0isize)[2] == 0);
    assert(global_nets_jed_xc2c32_positions()[3] == 12260 && Seq::new(14, |_k: int| 0isize)[3] == 0);
    assert(global_nets_jed_xc2c32_positions()[4] == 12259 && Seq::new(14, |_k: int| 0isize)[4] == 0);
    assert(global_nets_jed_xc2c32_positions()[5] == 12262 && Seq::new(14, |_k: int| 0isize)[5] == 0);
    assert(global_nets_jed_xc2c32_positions()[6] == 12264 && Seq::new(14, |_k: int| 0isize)[6] == 0);
    assert(global_nets_jed_xc2c32_positions()[7] == 12266 && Seq::new(14, |_k: int| 0isize)[7] == 0);
    assert(global_nets_jed_xc2c32_positions()[8] == 12268 && Seq::new(14, |_k: int| 0isize)[8] == 0);
    assert(global_nets_jed_xc2c32_positions()[9] == 12261 && Seq::new(14, |_k: int| 0isize)[9] == 0);
    assert(global_nets_jed_xc2c32_positions()[10] == 12263 && Seq::new(14, |_k: int| 0isize)[10] == 0);
    assert(global_nets_jed_xc2c32_positions()[11] == 12265 && Seq::new(14, |_k: int| 0isize)[11] == 0);
    assert(global_nets_jed_xc2c32_positions()[12] == 12267 && Seq::new(14, |_k: int| 0isize)[12] == 0);
    assert(global_nets_jed_xc2c32_positions()[13] == 12269 && Seq::new(14, |_k: int| 0isize)[13] == 0);
}

/// Encoding the global nets in the `JedXC2C64` layout stores each setting at its
/// own place in the JED fuse list, counted from the placement origin (backwards
/// along a mirrored axis); an inverted fuse holds the complement: the GCK0 enable at 25792; the
/// GCK1 enable at 25793; the GCK2 enable at 25794; the GSR enable at 25796; the GSR polarity at
/// 25795; the GTS0 enable at 25798 inverted; the GTS1 enable at 25800 inverted; the GTS2 enable at
/// 25802 inverted; the GTS3 enable at 25804 inverted; the GTS0 polarity at 25797; the GTS1 polarity
/// at 25799; the GTS2 polarity at 25801; the GTS3 polarity at 25803; the termination mode at 25805.
pub proof fn lemma_global_nets_jed_xc2c64_places(n: XC2GlobalNets, before: &[bool], after: &[bool], offset: [isize; 1], mirror: [bool; 1])
    requires
        <XC2GlobalNets as BitFragment<JedXC2C64>>::spec_encode_fits(before, offset, mirror, ()),
        <XC2GlobalNets as BitFragment<JedXC2C64>>::spec_encode_result(&n, before, after, offset, mirror, ()),
    ensures
        after@[place(offset[0] as int, mirror[0], 25792)] == n.gck_enable[0],
        after@[place(offset[0] as int, mirror[0], 25793)] == n.gck_enable[1],
        after@[place(offset[0] as int, mirror[0], 25794)] == n.gck_enable[2],
        after@[place(offset[0] as int, mirror[0], 25796)] == n.gsr_enable,
        after@[place(offset[0] as int, mirror[0], 25795)] == n.gsr_invert,
        after@[place(offset[0] as int, mirror[0], 25798)] == !n.gts_enable[0],
        after@[place(offset[0] as int, mirror[0], 25800)] == !n.gts_enable[1],
        after@[place(offset[0] as int, mirror[0], 25802)] == !n.gts_enable[2],
        after@[place(offset[0] as int, mirror[0], 25804)] == !n.gts_enable[3],
        after@[place(offset[0] as int, mirror[0], 25797)] == n.gts_invert[0],
        after@[place(offset[0] as int, mirror[0], 25799)] == n.gts_invert[1],
        after@[place(offset[0] as int, mirror[0], 25801)] == n.gts_invert[2],
        after@[place(offset[0] as int, mirror[0], 25803)] == n.gts_invert[3],
        after@[place(offset[0] as int, mirror[0], 25805)] == n.global_pu,
{
    let f = line_frame(offset, mirror);
    let s = before@;
    lemma_table_writes(s, f, global_nets_jed_xc2c64_positions(), Seq::new(14, |_k: int| 0isize), global_nets_inverted(), global_nets_bits(n));
    assert(global_nets_jed_xc2c64_positions()[0] == 25792 && Seq::new(14, |_k: int| 0isize)[0] == 0);
    assert(global_nets_jed_xc2c64_positions()[1] == 25793 && Seq::new(14, |_k: int| 0isize)[1] == 0);
    assert(global_nets_jed_xc2c64_positions()[2] == 25794 && Seq::new(14, |_k: int| 0isize)[2] == 0);
    assert(global_nets_jed_xc2c64_positions()[3] == 25796 && Seq::new(14, |_k: int| 0isize)[3] == 0);
    assert(global_nets_jed_xc2c64_positions()[4] == 25795 && Seq::new(14, |_k: int| 0isize)[4] == 0);
    assert(global_nets_jed_xc2c64_positions()[5] == 25798 && Seq::new(14, |_k: int| 0isize)[5] == 0);
    assert(global_nets_jed_xc2c64_positions()[6] == 25800 && Seq::new(14, |_k: int| 0isize)[6] == 0);
    assert(global_nets_jed_xc2c64_positions()[7] == 25802 && Seq::new(14, |_k: int| 0isize)[7] == 0);
    assert(global_nets_jed_xc2c64_positions()[8] == 25804 && Seq::new(14, |_k: int| 0isize)[8] == 0);
    assert(global_nets_jed_xc2c64_positions()[9] == 25797 && Seq::new(14, |_k: int| 0isize)[9] == 0);
    assert(global_nets_jed_xc2c64_positions()[10] == 25799 && Seq::new(14, |_k: int| 0isize)[10] == 0);
    assert(global_nets_jed_xc2c64_positions()[11] == 25801 && Seq::new(14, |_k: int| 0isize)[11] == 0);
    assert(global_nets_jed_xc2c64_positions()[12] == 25803 && Seq::new(14, |_k: int| 0isize)[12] == 0);
    assert(global_nets_jed_xc2c64_positions()[13] == 25805 && Seq::new(14, |_k: int| 0isize)[13] == 0);
}

/// Encoding the global nets in the `JedXC2C128` layout stores each setting at its
/// own place in the JED fuse list, counted from the placement origin (backwards
/// along a mirrored axis); an inverted fuse holds the complement: the GCK0 enable at 55316; the
/// GCK1 enable at 55317; the GCK2 enable at 55318; the GSR enable at 55325; the GSR polarity at
/// 55324; the GTS0 enable at 55327 inverted; the GTS1 enable at 55329 inverted; the GTS2 enable at
/// 55331 inverted; the GTS3 enable at 55333 inverted; the GTS0 polarity at 55326; the GTS1 polarity
/// at 55328; the GTS2 polarity at 55330; the GTS3 polarity at 55332; the termination mode at 55334.
pub proof fn lemma_global_nets_jed_xc2c128_places(n: XC2GlobalNets, before: &[bool], after: &[bool], offset: [isize; 1], mirror: [bool; 1])
    requires
        <XC2GlobalNets as BitFragment<JedXC2C128>>::spec_encode_fits(before, offset, mirror, ()),
        <XC2GlobalNets as BitFragment<JedXC2C128>>::spec_encode_result(&n, before, after, offset, mirror, ()),
    ensures
        after@[place(offset[0] as int, mirror[0], 55316)] == n.gck_enable[0],
        after@[place(offset[0] as int, mirror[0], 55317)] == n.gck_enable[1],
        after@[place(offset[0] as int, mirror[0], 55318)] == n.gck_enable[2],
        after@[place(offset[0] as int, mirror[0], 55325)] == n.gsr_enable,
        after@[place(offset[0] as int, mirror[0], 55324)] == n.gsr_invert,
        after@[place(offset[0] as int, mirror[0], 55327)] == !n.gts_enable[0],
        after@[place(offset[0] as int, mirror[0], 55329)] == !n.gts_enable[1],
        after@[place(offset[0] as int, mirror[0], 55331)] == !n.gts_enable[2],
        after@[place(offset[0] as int, mirror[0], 55333)] == !n.gts_enable[3],
        after@[place(offset[0] as int, mirror[0], 55326)] == n.gts_invert[0],
        after@[place(offset[0] as int, mirror[0], 55328)] == n.gts_invert[1],
        after@[place(offset[0] as int, mirror[0], 55330)] == n.gts_invert[2],
        after@[place(offset[0] as int, mirror[0], 55332)] == n.gts_invert[3],
        after@[place(offset[0] as int, mirror[0], 55334)] == n.global_pu,
{
    let f = line_frame(offset, mirror);
    let s = before@;
    lemma_table_writes(s, f, global_nets_jed_xc2c128_positions(), Seq::new(14, |_k: int| 0isize), global_nets_inverted(), global_nets_bits(n));
    assert(global_nets_jed_xc2c128_positions()[0] == 55316 && Seq::new(14, |_k: int| 0isize)[0] == 0);
    assert(global_nets_jed_xc2c128_positions()[1] == 55317 && Seq::new(14, |_k: int| 0isize)[1] == 0);
    assert(global_nets_jed_xc2c128_positions()[2] == 55318 && Seq::new(14, |_k: int| 0isize)[2] == 0);
    assert(global_nets_jed_xc2c128_positions()[3] == 55325 && Seq::new(14, |_k: int| 0isize)[3] == 0);
    assert(global_nets_jed_xc2c128_positions()[4] == 55324 && Seq::new(14, |_k: int| 0isize)[4] == 0);
    assert(global_nets_jed_xc2c128_positions()[5] == 55327 && Seq::new(14, |_k: int| 0isize)[5] == 0);
    assert(global_nets_jed_xc2c128_positions()[6] == 55329 && Seq::new(14, |_k: int| 0isize)[6] == 0);
    assert(global_nets_jed_xc2c128_positions()[7] == 55331 && Seq::new(14, |_k: int| 0isize)[7] == 0);
    assert(global_nets_jed_xc2c128_positions()[8] == 55333 && Seq::new(14, |_k: int| 0isize)[8] == 0);
    assert(global_nets_jed_xc2c128_positions()[9] == 55326 && Seq::new(14, |_k: int| 0isize)[9] == 0);
    assert(global_nets_jed_xc2c128_positions()[10] == 55328 && Seq::new(14, |_k: int| 0isize)[10] == 0);
    assert(global_nets_jed_xc2c128_positions()[11] == 55330 && Seq::new(14, |_k: int| 0isize)[11] == 0);
    assert(global_nets_jed_xc2c128_positions()[12] == 55332 && Seq::new(14, |_k: int| 0isize)[12] == 0);
    assert(global_nets_jed_xc2c128_positions()[13] == 55334 && Seq::new(14, |_k: int| 0isize)[13] == 0);
}

/// Encoding the global nets in the `JedXC2C256` layout stores each setting at its
/// own place in the JED fuse list, counted from the placement origin (backwards
/// along a mirrored axis); an inverted fuse holds the complement: the GCK0 enable at 123224; the
/// GCK1 enable at 123225; the GCK2 enable at 123226; the GSR enable at 123233; the GSR polarity at
/// 123232; the GTS0 enable at 123235 inverted; the GTS1 enable at 123237 inverted; the GTS2 enable
/// at 123239 inverted; the GTS3 enable at 123241 inverted; the GTS0 polarity at 123234; the GTS1
/// polarity at 123236; the GTS2 polarity at 123238; the GTS3 polarity at 123240; the termination
/// mode at 123242.
pub proof fn lemma_global_nets_jed_xc2c256_places(n: XC2GlobalNets, before: &[bool], after: &[bool], offset: [isize; 1], mirror: [bool; 1])
    requires
        <XC2GlobalNets as BitFragment<JedXC2C256>>::spec_encode_fits(before, offset, mirror, ()),
        <XC2GlobalNets as BitFragment<JedXC2C256>>::spec_encode_result(&n, before, after, offset, mirror, ()),
    ensures
        after@[place(offset[0] as int, mirror[0], 123224)] == n.gck_enable[0],
        after@[place(offset[0] as int, mirror[0], 123225)] == n.gck_enable[1],
        after@[place(offset[0] as int, mirror[0], 123226)] == n.gck_enable[2],
        after@[place(offset[0] as int, mirror[0], 123233)] == n.gsr_enable,
        after@[place(offset[0] as int, mirror[0], 123232)] == n.gsr_invert,
        after@[place(offset[0] as int, mirror[0], 123235)] == !n.gts_enable[0],
        after@[place(offset[0] as int, mirror[0], 123237)] == !n.gts_enable[1],
        after@[place(offset[0] as int, mirror[0], 123239)] == !n.gts_enable[2],
        after@[place(offset[0] as int, mirror[0], 123241)] == !n.gts_enable[3],
        after@[place(offset[0] as int, mirror[0], 123234)] == n.gts_invert[0],
        after@[place(offset[0] as int, mirror[0], 123236)] == n.gts_invert[1],
        after@[place(offset[0] as int, mirror[0], 123238)] == n.gts_invert[2],
        after@[place(offset[0] as int, mirror[0], 123240)] == n.gts_invert[3],
        after@[place(offset[0] as int, mirror[0], 123242)] == n.global_pu,
{
    let f = line_frame(offset, mirror);
    let s = before@;
    lemma_table_writes(s, f, global_nets_jed_xc2c256_positions(), Seq::new(14, |_k: int| 0isize), global_nets_inverted(), global_nets_bits(n));
    assert(global_nets_jed_xc2c256_positions()[0] == 123224 && Seq::new(14, |_k: int| 0isize)[0] == 0);
    assert(global_nets_jed_xc2c256_positions()[1] == 123225 && Seq::new(14, |_k: int| 0isize)[1] == 0);
    assert(global_nets_jed_xc2c256_positions()[2] == 123226 && Seq::new(14, |_k: int| 0isize)[2] == 0);
    assert(global_nets_jed_xc2c256_positions()[3] == 123233 && Seq::new(14, |_k: int| 0isize)[3] == 0);
    assert(global_nets_jed_xc2c256_positions()[4] == 123232 && Seq::new(14, |_k: int| 0isize)[4] == 0);
    assert(global_nets_jed_xc2c256_positions()[5] == 123235 && Seq::new(14, |_k: int| 0isize)[5] == 0);
    assert(global_nets_jed_xc2c256_positions()[6] == 123237 && Seq::new(14, |_k: int| 0isize)[6] == 0);
    assert(global_nets_jed_xc2c256_positions()[7] == 123239 && Seq::new(14, |_k: int| 0isize)[7] == 0);
    assert(global_nets_jed_xc2c256_positions()[8] == 123241 && Seq::new(14, |_k: int| 0isize)[8] == 0);
    assert(global_nets_jed_xc2c256_positions()[9] == 123234 && Seq::new(14, |_k: int| 0isize)[9] == 0);
    assert(global_nets_jed_xc2c256_positions()[10] == 123236 && Seq::new(14, |_k: int| 0isize)[10] == 0);
    assert(global_nets_jed_xc2c256_positions()[11] == 123238 && Seq::new(14, |_k: int| 0isize)[11] == 0);
    assert(global_nets_jed_xc2c256_positions()[12] == 123240 && Seq::new(14, |_k: int| 0isize)[12] == 0);
    assert(global_nets_jed_xc2c256_positions()[13] == 123242 && Seq::new(14, |_k: int| 0isize)[13] == 0);
}

/// Encoding the global nets in the `JedXC2C384` layout stores each setting at its
/// own place in the JED fuse list, counted from the placement origin (backwards
/// along a mirrored axis); an inverted fuse holds the complement: the GCK0 enable at 209328; the
/// GCK1 enable at 209329; the GCK2 enable at 209330; the GSR enable at 209337; the GSR polarity at
/// 209336; the GTS0 enable at 209339 inverted; the GTS1 enable at 209341 inverted; the GTS2 enable
/// at 209343 inverted; the GTS3 enable at 209345 inverted; the GTS0 polarity at 209338; the GTS1
/// polarity at 209340; the GTS2 polarity at 209342; the GTS3 polarity at 209344; the termination
/// mode at 209346.
pub proof fn lemma_global_nets_jed_xc2c384_places(n: XC2GlobalNets, before: &[bool], after: &[bool], offset: [isize; 1], mirror: [bool; 1])
    requires
        <XC2GlobalNets as BitFragment<JedXC2C384>>::spec_encode_fits(before, offset, mirror, ()),
        <XC2GlobalNets as BitFragment<JedXC2C384>>::spec_encode_result(&n, before, after, offset, mirror, ()),
    ensures
        after@[place(offset[0] as int, mirror[0], 209328)] == n.gck_enable[0],
        after@[place(offset[0] as int, mirror[0], 209329)] == n.gck_enable[1],
        after@[place(offset[0] as int, mirror[0], 209330)] == n.gck_enable[2],
        after@[place(offset[0] as int, mirror[0], 209337)] == n.gsr_enable,
        after@[place(offset[0] as int, mirror[0], 209336)] == n.gsr_invert,
        after@[place(offset[0] as int, mirror[0], 209339)] == !n.gts_enable[0],
        after@[place(offset[0] as int, mirror[0], 209341)] == !n.gts_enable[1],
        after@[place(offset[0] as int, mirror[0], 209343)] == !n.gts_enable[2],
        after@[place(offset[0] as int, mirror[0], 209345)] == !n.gts_enable[3],
        after@[place(offset[0] as int, mirror[0], 209338)] == n.gts_invert[0],
        after@[place(offset[0] as int, mirror[0], 209340)] == n.gts_invert[1],
        after@[place(offset[0] as int, mirror[0], 209342)] == n.gts_invert[2],
        after@[place(offset[0] as int, mirror[0], 209344)] == n.gts_invert[3],
        after@[place(offset[0] as int, mirror[0], 209346)] == n.global_pu,
{
    let f = line_frame(offset, mirror);
    let s = before@;
    lemma_table_writes(s, f, global_nets_jed_xc2c384_positions(), Seq::new(14, |_k: int| 0isize), global_nets_inverted(), global_nets_bits(n));
    assert(global_nets_jed_xc2c384_positions()[0] == 209328 && Seq::new(14, |_k: int| 0isize)[0] == 0);
    assert(global_nets_jed_xc2c384_positions()[1] == 209329 && Seq::new(14, |_k: int| 0isize)[1] == 0);
    assert(global_nets_jed_xc2c384_positions()[2] == 209330 && Seq::new(14, |_k: int| 0isize)[2] == 0);
    assert(global_nets_jed_xc2c384_positions()[3] == 209337 && Seq::new(14, |_k: int| 0isize)[3] == 0);
    assert(global_nets_jed_xc2c384_positions()[4] == 209336 && Seq::new(14, |_k: int| 0isize)[4] == 0);
    assert(global_nets_jed_xc2c384_positions()[5] == 209339 && Seq::new(14, |_k: int| 0isize)[5] == 0);
    assert(global_nets_jed_xc2c384_positions()[6] == 209341 && Seq::new(14, |_k: int| 0isize)[6] == 0);
    assert(global_nets_jed_xc2c384_positions()[7] == 209343 && Seq::new(14, |_k: int| 0isize)[7] == 0);
    assert(global_nets_jed_xc2c384_positions()[8] == 209345 && Seq::new(14, |_k: int| 0isize)[8] == 0);
    assert(global_nets_jed_xc2c384_positions()[9] == 209338 && Seq::new(14, |_k: int| 0isize)[9] == 0);
    assert(global_nets_jed_xc2c384_positions()[10] == 209340 && Seq::new(14, |_k: int| 0isize)[10] == 0);
    assert(global_nets_jed_xc2c384_positions()[11] == 209342 && Seq::new(14, |_k: int| 0isize)[11] == 0);
    assert(global_nets_jed_xc2c384_positions()[12] == 209344 && Seq::new(14, |_k: int| 0isize)[12] == 0);
    assert(global_nets_jed_xc2c384_positions()[13] == 209346 && Seq::new(14, |_k: int| 0isize)[13] == 0);
}

/// Encoding the global nets in the `JedXC2C512` layout stores each setting at its
/// own place in the JED fuse list, counted from the placement origin (backwards
/// along a mirrored axis); an inverted fuse holds the complement: the GCK0 enable at 296374; the
/// GCK1 enable at 296375; the GCK2 enable at 296376; the GSR enable at 296383; the GSR polarity at
/// 296382; the GTS0 enable at 296385 inverted; the GTS1 enable at 296387 inverted; the GTS2 enable
/// at 296389 inverted; the GTS3 enable at 296391 inverted; the GTS0 polarity at 296384; the GTS1
/// polarity at 296386; the GTS2 polarity at 296388; the GTS3 polarity at 296390; the termination
/// mode at 296392.
pub proof fn lemma_global_nets_jed_xc2c512_places(n: XC2GlobalNets, before: &[bool], after: &[bool], offset: [isize; 1], mirror: [bool; 1])
    requires
        <XC2GlobalNets as BitFragment<JedXC2C512>>::spec_encode_fits(before, offset, mirror, ()),
        <XC2GlobalNets as BitFragment<JedXC2C512>>::spec_encode_result(&n, before, after, offset, mirror, ()),
    ensures
        after@[place(offset[0] as int, mirror[0], 296374)] == n.gck_enable[0],
        after@[place(offset[0] as int, mirror[0], 296375)] == n.gck_enable[1],
        after@[place(offset[0] as int, mirror[0], 296376)] == n.gck_enable[2],
        after@[place(offset[0] as int, mirror[0], 296383)] == n.gsr_enable,
        after@[place(offset[0] as int, mirror[0], 296382)] == n.gsr_invert,
        after@[place(offset[0] as int, mirror[0], 296385)] == !n.gts_enable[0],
        after@[place(offset[0] as int, mirror[0], 296387)] == !n.gts_enable[1],
        after@[place(offset[0] as int, mirror[0], 296389)] == !n.gts_enable[2],
        after@[place(offset[0] as int, mirror[0], 296391)] == !n.gts_enable[3],
        after@[place(offset[0] as int, mirror[0], 296384)] == n.gts_invert[0],
        after@[place(offset[0] as int, mirror[0], 296386)] == n.gts_invert[1],
        after@[place(offset[0] as int, mirror[0], 296388)] == n.gts_invert[2],
        after@[place(offset[0] as int, mirror[0], 296390)] == n.gts_invert[3],
        after@[place(offset[0] as int, mirror[0], 296392)] == n.global_pu,
{
    let f = line_frame(offset, mirror);
    let s = before@;
    lemma_table_writes(s, f, global_nets_jed_xc2c512_positions(), Seq::new(14, |_k: int| 0isize), global_nets_inverted(), global_nets_bits(n));
    assert(global_nets_jed_xc2c512_positions()[0] == 296374 && Seq::new(14, |_k: int| 0isize)[0] == 0);
    assert(global_nets_jed_xc2c512_positions()[1] == 296375 && Seq::new(14, |_k: int| 0isize)[1] == 0);
    assert(global_nets_jed_xc2c512_positions()[2] == 296376 && Seq::new(14, |_k: int| 0isize)[2] == 0);
    assert(global_nets_jed_xc2c512_positions()[3] == 296383 && Seq::new(14, |_k: int| 0isize)[3] == 0);
    assert(global_nets_jed_xc2c512_positions()[4] == 296382 && Seq::new(14, |_k: int| 0isize)[4] == 0);
    assert(global_nets_jed_xc2c512_positions()[5] == 296385 && Seq::new(14, |_k: int| 0isize)[5] == 0);
    assert(global_nets_jed_xc2c512_positions()[6] == 296387 && Seq::new(14, |_k: int| 0isize)[6] == 0);
    assert(global_nets_jed_xc2c512_positions()[7] == 296389 && Seq::new(14, |_k: int| 0isize)[7] == 0);
    assert(global_nets_jed_xc2c512_positions()[8] == 296391 && Seq::new(14, |_k: int| 0isize)[8] == 0);
    assert(global_nets_jed_xc2c512_positions()[9] == 296384 && Seq::new(14, |_k: int| 0isize)[9] == 0);
    assert(global_nets_jed_xc2c512_positions()[10] == 296386 && Seq::new(14, |_k: int| 0isize)[10] == 0);
    assert(global_nets_jed_xc2c512_positions()[11] == 296388 && Seq::new(14, |_k: int| 0isize)[11] == 0);
    assert(global_nets_jed_xc2c512_positions()[12] == 296390 && Seq::new(14, |_k: int| 0isize)[12] == 0);
    assert(global_nets_jed_xc2c512_positions()[13] == 296392 && Seq::new(14, |_k: int| 0isize)[13] == 0);
}

/// Encoding the global nets in the `CrbitXC2C32` layout stores each setting at its
/// own place in the crbit array, counted from the placement origin (backwards
/// along a mirrored axis); an inverted fuse holds the complement: the GCK0 enable at (126, 23); the
/// GCK1 enable at (127, 23); the GCK2 enable at (128, 23); the GSR enable at (130, 23); the GSR
/// polarity at (129, 23); the GTS0 enable at (127, 24) inverted; the GTS1 enable at (129, 24)
/// inverted; the GTS2 enable at (127, 25) inverted; the GTS3 enable at (129, 25) inverted; the GTS0
/// polarity at (126, 24); the GTS1 polarity at (128, 24); the GTS2 polarity at (126, 25); the GTS3
/// polarity at (128, 25); the termination mode at (131, 23).
pub proof fn lemma_global_nets_crbit_xc2c32_places(n: XC2GlobalNets, before: FuseArray, after: FuseArray, offset: [isize; 2], mirror: [bool; 2])
    requires
        <XC2GlobalNets as BitFragment<CrbitXC2C32>>::spec_encode_fits(&before, offset, mirror, ()),
        crbit::grid_columns_inside(crbit::width(&before), offset, mirror, 126, 131),
        <XC2GlobalNets as BitFragment<CrbitXC2C32>>::spec_encode_result(&n, &before, &after, offset, mirror, ()),
    ensures
        crbit::fuses(&after)[crbit::grid_cell(crbit::width(&before), offset, mirror, 126, 23)] == n.gck_enable[0],
        crbit::fuses(&after)[crbit::grid_cell(crbit::width(&before), offset, mirror, 127, 23)] == n.gck_enable[1],
        crbit::fuses(&after)[crbit::grid_cell(crbit::width(&before), offset, mirror, 128, 23)] == n.gck_enable[2],
        crbit::fuses(&after)[crbit::grid_cell(crbit::width(&before), offset, mirror, 130, 23)] == n.gsr_enable,
        crbit::fuses(&after)[crbit::grid_cell(crbit::width(&before), offset, mirror, 129, 23)] == n.gsr_invert,
        crbit::fuses(&after)[crbit::grid_cell(crbit::width(&before), offset, mirror, 127, 24)] == !n.gts_enable[0],
        crbit::fuses(&after)[crbit::grid_cell(crbit::width(&before), offset, mirror, 129, 24)] == !n.gts_enable[1],
        crbit::fuses(&after)[crbit::grid_cell(crbit::width(&before), offset, mirror, 127, 25)] == !n.gts_enable[2],
        crbit::fuses(&after)[crbit::grid_cell(crbit::width(&before), offset, mirror, 129, 25)] == !n.gts_enable[3],
        crbit::fuses(&after)[crbit::grid_cell(crbit::width(&before), offset, mirror, 126, 24)] == n.gts_invert[0],
        crbit::fuses(&after)[crbit::grid_cell(crbit::width(&before), offset, mirror, 128, 24)] == n.gts_invert[1],
        crbit::fuses(&after)[crbit::grid_cell(crbit::width(&before), offset, mirror, 126, 25)] == n.gts_invert[2],
        crbit::fuses(&after)[crbit::grid_cell(crbit::width(&before), offset, mirror, 128, 25)] == n.gts_invert[3],
        crbit::fuses(&after)[crbit::grid_cell(crbit::width(&before), offset, mirror, 131, 23)] == n.global_pu,
{
    crbit::lemma_width_bound(&before);
    let f = grid_frame(crbit::width(&before) as usize, offset, mirror);
    let s = crbit::fuses(&before);
    lemma_columns_between(f, global_nets_crbit_xc2c32_xs(), 126, 131);
    lemma_table_writes(s, f, global_nets_crbit_xc2c32_xs(), global_nets_crbit_xc2c32_ys(), global_nets_inverted(), global_nets_bits(n));
    assert(global_nets_crbit_xc2c32_xs()[0] == 126 && global_nets_crbit_xc2c32_ys()[0] == 23);
    assert(global_nets_crbit_xc2c32_xs()[1] == 127 && global_nets_crbit_xc2c32_ys()[1] == 23);
    assert(global_nets_crbit_xc2c32_xs()[2] == 128 && global_nets_crbit_xc2c32_ys()[2] == 23);
    assert(global_nets_crbit_xc2c32_xs()[3] == 130 && global_nets_crbit_xc2c32_ys()[3] == 23);
    assert(global_nets_crbit_xc2c32_xs()[4] == 129 && global_nets_crbit_xc2c32_ys()[4] == 23);
    assert(global_nets_crbit_xc2c32_xs()[5] == 127 && global_nets_crbit_xc2c32_ys()[5] == 24);
    assert(global_nets_crbit_xc2c32_xs()[6] == 129 && global_nets_crbit_xc2c32_ys()[6] == 24);
    assert(global_nets_crbit_xc2c32_xs()[7] == 127 && global_nets_crbit_xc2c32_ys()[7] == 25);
    assert(global_nets_crbit_xc2c32_xs()[8] == 129 && global_nets_crbit_xc2c32_ys()[8] == 25);
    assert(global_nets_crbit_xc2c32_xs()[9] == 126 && global_nets_crbit_xc2c32_ys()[9] == 24);
    assert(global_nets_crbit_xc2c32_xs()[10] == 128 && global_nets_crbit_xc2c32_ys()[10] == 24);
    assert(global_nets_crbit_xc2c32_xs()[11] == 126 && global_nets_crbit_xc2c32_ys()[11] == 25);
    assert(global_nets_crbit_xc2c32_xs()[12] == 128 && global_nets_crbit_xc2c32_ys()[12] == 25);
    assert(global_nets_crbit_xc2c32_xs()[13] == 131 && global_nets_crbit_xc2c32_ys()[13] == 23);
}

/// Encoding the global nets in the `CrbitXC2C64` layout stores each setting at its
/// own place in the crbit array, counted from the placement origin (backwards
/// along a mirrored axis); an inverted fuse holds the complement: the GCK0 enable at (133, 23); the
/// GCK1 enable at (134, 23); the GCK2 enable at (135, 23); the GSR enable at (136, 73); the GSR
/// polarity at (135, 73); the GTS0 enable at (134, 24) inverted; the GTS1 enable at (136, 24)
/// inverted; the GTS2 enable at (138, 73) inverted; the GTS3 enable at (138, 24) inverted; the GTS0
/// polarity at (133, 24); the GTS1 polarity at (135, 24); the GTS2 polarity at (137, 73); the GTS3
/// polarity at (137, 24); the termination mode at (136, 23).
pub proof fn lemma_global_nets_crbit_xc2c64_places(n: XC2GlobalNets, before: FuseArray, after: FuseArray, offset: [isize; 2], mirror: [bool; 2])
    requires
        <XC2GlobalNets as BitFragment<CrbitXC2C64>>::spec_encode_fits(&before, offset, mirror, ()),
        crbit::grid_columns_inside(crbit::width(&before), offset, mirror, 133, 138),
        <XC2GlobalNets as BitFragment<CrbitXC2C64>>::spec_encode_result(&n, &before, &after, offset, mirror, ()),
    ensures
        crbit::fuses(&after)[crbit::grid_cell(crbit::width(&before), offset, mirror, 133, 23)] == n.gck_enable[0],
        crbit::fuses(&after)[crbit::grid_cell(crbit::width(&before), offset, mirror, 134, 23)] == n.gck_enable[1],
        crbit::fuses(&after)[crbit::grid_cell(crbit::width(&before), offset, mirror, 135, 23)] == n.gck_enable[2],
        crbit::fuses(&after)[crbit::grid_cell(crbit::width(&before), offset, mirror, 136, 73)] == n.gsr_enable,
        crbit::fuses(&after)[crbit::grid_cell(crbit::width(&before), offset, mirror, 135, 73)] == n.gsr_invert,
        crbit::fuses(&after)[crbit::grid_cell(crbit::width(&before), offset, mirror, 134, 24)] == !n.gts_enable[0],
        crbit::fuses(&after)[crbit::grid_cell(crbit::width(&before), offset, mirror, 136, 24)] == !n.gts_enable[1],
        crbit::fuses(&after)[crbit::grid_cell(crbit::width(&before), offset, mirror, 138, 73)] == !n.gts_enable[2],
        crbit::fuses(&after)[crbit::grid_cell(crbit::width(&before), offset, mirror, 138, 24)] == !n.gts_enable[3],
        crbit::fuses(&after)[crbit::grid_cell(crbit::width(&before), offset, mirror, 133, 24)] == n.gts_invert[0],
        crbit::fuses(&after)[crbit::grid_cell(crbit::width(&before), offset, mirror, 135, 24)] == n.gts_invert[1],
        crbit::fuses(&after)[crbit::grid_cell(crbit::width(&before), offset, mirror, 137, 73)] == n.gts_invert[2],
        crbit::fuses(&after)[crbit::grid_cell(crbit::width(&before), offset, mirror, 137, 24)] == n.gts_invert[3],
        crbit::fuses(&after)[crbit::grid_cell(crbit::width(&before), offset, mirror, 136, 23)] == n.global_pu,
{
    crbit::lemma_width_bound(&before);
    let f = grid_frame(crbit::width(&before) as usize, offset, mirror);
    let s = crbit::fuses(&before);
    lemma_columns_between(f, global_nets_crbit_xc2c64_xs(), 133, 138);
    lemma_table_writes(s, f, global_nets_crbit_xc2c64_xs(), global_nets_crbit_xc2c64_ys(), global_nets_inverted(), global_nets_bits(n));
    assert(global_nets_crbit_xc2c64_xs()[0] == 133 && global_nets_crbit_xc2c64_ys()[0] == 23);
    assert(global_nets_crbit_xc2c64_xs()[1] == 134 && global_nets_crbit_xc2c64_ys()[1] == 23);
    assert(global_nets_crbit_xc2c64_xs()[2] == 135 && global_nets_crbit_xc2c64_ys()[2] == 23);
    assert(global_nets_crbit_xc2c64_xs()[3] == 136 && global_nets_crbit_xc2c64_ys()[3] == 73);
    assert(global_nets_crbit_xc2c64_xs()[4] == 135 && global_nets_crbit_xc2c64_ys()[4] == 73);
    assert(global_nets_crbit_xc2c64_xs()[5] == 134 && global_nets_crbit_xc2c64_ys()[5] == 24);
    assert(global_nets_crbit_xc2c64_xs()[6] == 136 && global_nets_crbit_xc2c64_ys()[6] == 24);
    assert(global_nets_crbit_xc2c64_xs()[7] == 138 && global_nets_crbit_xc2c64_ys()[7] == 73);
    assert(global_nets_crbit_xc2c64_xs()[8] == 138 && global_nets_crbit_xc2c64_ys()[8] == 24);
    assert(global_nets_crbit_xc2c64_xs()[9] == 133 && global_nets_crbit_xc2c64_ys()[9] == 24);
    assert(global_nets_crbit_xc2c64_xs()[10] == 135 && global_nets_crbit_xc2c64_ys()[10] == 24);
    assert(global_nets_crbit_xc2c64_xs()[11] == 137 && global_nets_crbit_xc2c64_ys()[11] == 73);
    assert(global_nets_crbit_xc2c64_xs()[12] == 137 && global_nets_crbit_xc2c64_ys()[12] == 24);
    assert(global_nets_crbit_xc2c64_xs()[13] == 136 && global_nets_crbit_xc2c64_ys()[13] == 23);
}

/// Encoding the global nets in the `CrbitXC2C128` layout stores each setting at its own place
/// in the crbit array, counted from the placement origin (backwards along a mirrored axis); an
/// inverted fuse holds the complement: the GCK0 enable at (365, 67); the GCK1 enable at
/// (366, 67); the GCK2 enable at (367, 67); the GSR enable at (2, 67); the GSR polarity at
/// (1, 67); the GTS0 enable at (5, 27) inverted; the GTS1 enable at (7, 27) inverted; the GTS2
/// enable at (5, 67) inverted; the GTS3 enable at (7, 67) inverted; the GTS0 polarity at
/// (4, 27); the GTS1 polarity at (6, 27); the GTS2 polarity at (4, 67); the GTS3 polarity at
/// (6, 67); the termination mode at (370, 67).
pub proof fn lemma_global_nets_crbit_xc2c128_places(n: XC2GlobalNets, before: FuseArray, after: FuseArray, offset: [isize; 2], mirror: [bool; 2])
    requires
        <XC2GlobalNets as BitFragment<CrbitXC2C128>>::spec_encode_fits(&before, offset, mirror, ()),
        crbit::grid_columns_inside(crbit::width(&before), offset, mirror, 1, 370),
        <XC2GlobalNets as BitFragment<CrbitXC2C128>>::spec_encode_result(&n, &before, &after, offset, mirror, ()),
    ensures
        crbit::fuses(&after)[crbit::grid_cell(crbit::width(&before), offset, mirror, 365, 67)] == n.gck_enable[0],
        crbit::fuses(&after)[crbit::grid_cell(crbit::width(&before), offset, mirror, 366, 67)] == n.gck_enable[1],
        crbit::fuses(&after)[crbit::grid_cell(crbit::width(&before), offset, mirror, 367, 67)] == n.gck_enable[2],
        crbit::fuses(&after)[crbit::grid_cell(crbit::width(&before), offset, mirror, 2, 67)] == n.gsr_enable,
        crbit::fuses(&after)[crbit::grid_cell(crbit::width(&before), offset, mirror, 1, 67)] == n.gsr_invert,
        crbit::fuses(&after)[crbit::grid_cell(crbit::width(&before), offset, mirror, 5, 27)] == !n.gts_enable[0],
        crbit::fuses(&after)[crbit::grid_cell(crbit::width(&before), offset, mirror, 7, 27)] == !n.gts_enable[1],
        crbit::fuses(&after)[crbit::grid_cell(crbit::width(&before), offset, mirror, 5, 67)] == !n.gts_enable[2],
        crbit::fuses(&after)[crbit::grid_cell(crbit::width(&before), offset, mirror, 7, 67)] == !n.gts_enable[3],
        crbit::fuses(&after)[crbit::grid_cell(crbit::width(&before), offset, mirror, 4, 27)] == n.gts_invert[0],
        crbit::fuses(&after)[crbit::grid_cell(crbit::width(&before), offset, mirror, 6, 27)] == n.gts_invert[1],
        crbit::fuses(&after)[crbit::grid_cell(crbit::width(&before), offset, mirror, 4, 67)] == n.gts_invert[2],
        crbit::fuses(&after)[crbit::grid_cell(crbit::width(&before), offset, mirror, 6, 67)] == n.gts_invert[3],
        crbit::fuses(&after)[crbit::grid_cell(crbit::width(&before), offset, mirror, 370, 67)] == n.global_pu,
{
    crbit::lemma_width_bound(&before);
    let f = grid_frame(crbit::width(&before) as usize, offset, mirror);
    let s = crbit::fuses(&before);
    lemma_columns_between(f, global_nets_crbit_xc2c128_xs(), 1, 370);
    lemma_table_writes(s, f, global_nets_crbit_xc2c128_xs(), global_nets_crbit_xc2c128_ys(), global_nets_inverted(), global_nets_bits(n));
    assert(global_nets_crbit_xc2c128_xs()[0] == 365 && global_nets_crbit_xc2c128_ys()[0] == 67);
    assert(global_nets_crbit_xc2c128_xs()[1] == 366 && global_nets_crbit_xc2c128_ys()[1] == 67);
    assert(global_nets_crbit_xc2c128_xs()[2] == 367 && global_nets_crbit_xc2c128_ys()[2] == 67);
    assert(global_nets_crbit_xc2c128_xs()[3] == 2 && global_nets_crbit_xc2c128_ys()[3] == 67);
    assert(global_nets_crbit_xc2c128_xs()[4] == 1 && global_nets_crbit_xc2c128_ys()[4] == 67);
    assert(global_nets_crbit_xc2c128_xs()[5] == 5 && global_nets_crbit_xc2c128_ys()[5] == 27);
    assert(global_nets_crbit_xc2c128_xs()[6] == 7 && global_nets_crbit_xc2c128_ys()[6] == 27);
    assert(global_nets_crbit_xc2c128_xs()[7] == 5 && global_nets_crbit_xc2c128_ys()[7] == 67);
    assert(global_nets_crbit_xc2c128_xs()[8] == 7 && global_nets_crbit_xc2c128_ys()[8] == 67);
    assert(global_nets_crbit_xc2c128_xs()[9] == 4 && global_nets_crbit_xc2c128_ys()[9] == 27);
    assert(global_nets_crbit_xc2c128_xs()[10] == 6 && global_nets_crbit_xc2c128_ys()[10] == 27);
    assert(global_nets_crbit_xc2c128_xs()[11] == 4 && global_nets_crbit_xc2c128_ys()[11] == 67);
    assert(global_nets_crbit_xc2c128_xs()[12] == 6 && global_nets_crbit_xc2c128_ys()[12] == 67);
    assert(global_nets_crbit_xc2c128_xs()[13] == 370 && global_nets_crbit_xc2c128_ys()[13] == 67);
}

/// Encoding the global nets in the `CrbitXC2C256` layout stores each setting at its
/// own place in the crbit array, counted from the placement origin (backwards
/// along a mirrored axis); an inverted fuse holds the complement: the GCK0 enable at (519, 23); the
/// GCK1 enable at (520, 23); the GCK2 enable at (521, 23); the GSR enable at (179, 23); the GSR
/// polarity at (178, 23); the GTS0 enable at (182, 23) inverted; the GTS1 enable at (177, 24)
/// inverted; the GTS2 enable at (179, 24) inverted; the GTS3 enable at (182, 24) inverted; the GTS0
/// polarity at (181, 23); the GTS1 polarity at (176, 24); the GTS2 polarity at (178, 24); the GTS3
/// polarity at (181, 24); the termination mode at (517, 23).
pub proof fn lemma_global_nets_crbit_xc2c256_places(n: XC2GlobalNets, before: FuseArray, after: FuseArray, offset: [isize; 2], mirror: [bool; 2])
    requires
        <XC2GlobalNets as BitFragment<CrbitXC2C256>>::spec_encode_fits(&before, offset, mirror, ()),
        crbit::grid_columns_inside(crbit::width(&before), offset, mirror, 176, 521),
        <XC2GlobalNets as BitFragment<CrbitXC2C256>>::spec_encode_result(&n, &before, &after, offset, mirror, ()),
    ensures
        crbit::fuses(&after)[crbit::grid_cell(crbit::width(&before), offset, mirror, 519, 23)] == n.gck_enable[0],
        crbit::fuses(&after)[crbit::grid_cell(crbit::width(&before), offset, mirror, 520, 23)] == n.gck_enable[1],
        crbit::fuses(&after)[crbit::grid_cell(crbit::width(&before), offset, mirror, 521, 23)] == n.gck_enable[2],
        crbit::fuses(&after)[crbit::grid_cell(crbit::width(&before), offset, mirror, 179, 23)] == n.gsr_enable,
        crbit::fuses(&after)[crbit::grid_cell(crbit::width(&before), offset, mirror, 178, 23)] == n.gsr_invert,
        crbit::fuses(&after)[crbit::grid_cell(crbit::width(&before), offset, mirror, 182, 23)] == !n.gts_enable[0],
        crbit::fuses(&after)[crbit::grid_cell(crbit::width(&before), offset, mirror, 177, 24)] == !n.gts_enable[1],
        crbit::fuses(&after)[crbit::grid_cell(crbit::width(&before), offset, mirror, 179, 24)] == !n.gts_enable[2],
        crbit::fuses(&after)[crbit::grid_cell(crbit::width(&before), offset, mirror, 182, 24)] == !n.gts_enable[3],
        crbit::fuses(&after)[crbit::grid_cell(crbit::width(&before), offset, mirror, 181, 23)] == n.gts_invert[0],
        crbit::fuses(&after)[crbit::grid_cell(crbit::width(&before), offset, mirror, 176, 24)] == n.gts_invert[1],
        crbit::fuses(&after)[crbit::grid_cell(crbit::width(&before), offset, mirror, 178, 24)] == n.gts_invert[2],
        crbit::fuses(&after)[crbit::grid_cell(crbit::width(&before), offset, mirror, 181, 24)] == n.gts_invert[3],
        crbit::fuses(&after)[crbit::grid_cell(crbit::width(&before), offset, mirror, 517, 23)] == n.global_pu,
{
    crbit::lemma_width_bound(&before);
    let f = grid_frame(crbit::width(&before) as usize, offset, mirror);
    let s = crbit::fuses(&before);
    lemma_columns_between(f, global_nets_crbit_xc2c256_xs(), 176, 521);
    lemma_table_writes(s, f, global_nets_crbit_xc2c256_xs(), global_nets_crbit_xc2c256_ys(), global_nets_inverted(), global_nets_bits(n));
    assert(global_nets_crbit_xc2c256_xs()[0] == 519 && global_nets_crbit_xc2c256_ys()[0] == 23);
    assert(global_nets_crbit_xc2c256_xs()[1] == 520 && global_nets_crbit_xc2c256_ys()[1] == 23);
    assert(global_nets_crbit_xc2c256_xs()[2] == 521 && global_nets_crbit_xc2c256_ys()[2] == 23);
    assert(global_nets_crbit_xc2c256_xs()[3] == 179 && global_nets_crbit_xc2c256_ys()[3] == 23);
    assert(global_nets_crbit_xc2c256_xs()[4] == 178 && global_nets_crbit_xc2c256_ys()[4] == 23);
    assert(global_nets_crbit_xc2c256_xs()[5] == 182 && global_nets_crbit_xc2c256_ys()[5] == 23);
    assert(global_nets_crbit_xc2c256_xs()[6] == 177 && global_nets_crbit_xc2c256_ys()[6] == 24);
    assert(global_nets_crbit_xc2c256_xs()[7] == 179 && global_nets_crbit_xc2c256_ys()[7] == 24);
    assert(global_nets_crbit_xc2c256_xs()[8] == 182 && global_nets_crbit_xc2c256_ys()[8] == 24);
    assert(global_nets_crbit_xc2c256_xs()[9] == 181 && global_nets_crbit_xc2c256_ys()[9] == 23);
    assert(global_nets_crbit_xc2c256_xs()[10] == 176 && global_nets_crbit_xc2c256_ys()[10] == 24);
    assert(global_nets_crbit_xc2c256_xs()[11] == 178 && global_nets_crbit_xc2c256_ys()[11] == 24);
    assert(global_nets_crbit_xc2c256_xs()[12] == 181 && global_nets_crbit_xc2c256_ys()[12] == 24);
    assert(global_nets_crbit_xc2c256_xs()[13] == 517 && global_nets_crbit_xc2c256_ys()[13] == 23);
}

/// Encoding the global nets in the `CrbitXC2C384` layout stores each setting at its
/// own place in the crbit array, counted from the placement origin (backwards
/// along a mirrored axis); an inverted fuse holds the complement: the GCK0 enable at (467, 102);
/// the GCK1 enable at (468, 102); the GCK2 enable at (469, 102); the GSR enable at (2, 97); the GSR
/// polarity at (1, 97); the GTS0 enable at (463, 107) inverted; the GTS1 enable at (464, 107)
/// inverted; the GTS2 enable at (465, 107) inverted; the GTS3 enable at (466, 107) inverted; the
/// GTS0 polarity at (463, 102); the GTS1 polarity at (464, 102); the GTS2 polarity at (465, 102);
/// the GTS3 polarity at (466, 102); the termination mode at (931, 17).
pub proof fn lemma_global_nets_crbit_xc2c384_places(n: XC2GlobalNets, before: FuseArray, after: FuseArray, offset: [isize; 2], mirror: [bool; 2])
    requires
        <XC2GlobalNets as BitFragment<CrbitXC2C384>>::spec_encode_fits(&before, offset, mirror, ()),
        crbit::grid_columns_inside(crbit::width(&before), offset, mirror, 1, 931),
        <XC2GlobalNets as BitFragment<CrbitXC2C384>>::spec_encode_result(&n, &before, &after, offset, mirror, ()),
    ensures
        crbit::fuses(&after)[crbit::grid_cell(crbit::width(&before), offset, mirror, 467, 102)] == n.gck_enable[0],
        crbit::fuses(&after)[crbit::grid_cell(crbit::width(&before), offset, mirror, 468, 102)] == n.gck_enable[1],
        crbit::fuses(&after)[crbit::grid_cell(crbit::width(&before), offset, mirror, 469, 102)] == n.gck_enable[2],
        crbit::fuses(&after)[crbit::grid_cell(crbit::width(&before), offset, mirror, 2, 97)] == n.gsr_enable,
        crbit::fuses(&after)[crbit::grid_cell(crbit::width(&before), offset, mirror, 1, 97)] == n.gsr_invert,
        crbit::fuses(&after)[crbit::grid_cell(crbit::width(&before), offset, mirror, 463, 107)] == !n.gts_enable[0],
        crbit::fuses(&after)[crbit::grid_cell(crbit::width(&before), offset, mirror, 464, 107)] == !n.gts_enable[1],
        crbit::fuses(&after)[crbit::grid_cell(crbit::width(&before), offset, mirror, 465, 107)] == !n.gts_enable[2],
        crbit::fuses(&after)[crbit::grid_cell(crbit::width(&before), offset, mirror, 466, 107)] == !n.gts_enable[3],
        crbit::fuses(&after)[crbit::grid_cell(crbit::width(&before), offset, mirror, 463, 102)] == n.gts_invert[0],
        crbit::fuses(&after)[crbit::grid_cell(crbit::width(&before), offset, mirror, 464, 102)] == n.gts_invert[1],
        crbit::fuses(&after)[crbit::grid_cell(crbit::width(&before), offset, mirror, 465, 102)] == n.gts_invert[2],
        crbit::fuses(&after)[crbit::grid_cell(crbit::width(&before), offset, mirror, 466, 102)] == n.gts_invert[3],
        crbit::fuses(&after)[crbit::grid_cell(crbit::width(&before), offset, mirror, 931, 17)] == n.global_pu,
{
    crbit::lemma_width_bound(&before);
    let f = grid_frame(crbit::width(&before) as usize, offset, mirror);
    let s = crbit::fuses(&before);
    lemma_columns_between(f, global_nets_crbit_xc2c384_xs(), 1, 931);
    lemma_table_writes(s, f, global_nets_crbit_xc2c384_xs(), global_nets_crbit_xc2c384_ys(), global_nets_inverted(), global_nets_bits(n));
    assert(global_nets_crbit_xc2c384_xs()[0] == 467 && global_nets_crbit_xc2c384_ys()[0] == 102);
    assert(global_nets_crbit_xc2c384_xs()[1] == 468 && global_nets_crbit_xc2c384_ys()[1] == 102);
    assert(global_nets_crbit_xc2c384_xs()[2] == 469 && global_nets_crbit_xc2c384_ys()[2] == 102);
    assert(global_nets_crbit_xc2c384_xs()[3] == 2 && global_nets_crbit_xc2c384_ys()[3] == 97);
    assert(global_nets_crbit_xc2c384_xs()[4] == 1 && global_nets_crbit_xc2c384_ys()[4] == 97);
    assert(global_nets_crbit_xc2c384_xs()[5] == 463 && global_nets_crbit_xc2c384_ys()[5] == 107);
    assert(global_nets_crbit_xc2c384_xs()[6] == 464 && global_nets_crbit_xc2c384_ys()[6] == 107);
    assert(global_nets_crbit_xc2c384_xs()[7] == 465 && global_nets_crbit_xc2c384_ys()[7] == 107);
    assert(global_nets_crbit_xc2c384_xs()[8] == 466 && global_nets_crbit_xc2c384_ys()[8] == 107);
    assert(global_nets_crbit_xc2c384_xs()[9] == 463 && global_nets_crbit_xc2c384_ys()[9] == 102);
    assert(global_nets_crbit_xc2c384_xs()[10] == 464 && global_nets_crbit_xc2c384_ys()[10] == 102);
    assert(global_nets_crbit_xc2c384_xs()[11] == 465 && global_nets_crbit_xc2c384_ys()[11] == 102);
    assert(global_nets_crbit_xc2c384_xs()[12] == 466 && global_nets_crbit_xc2c384_ys()[12] == 102);
    assert(global_nets_crbit_xc2c384_xs()[13] == 931 && global_nets_crbit_xc2c384_ys()[13] == 17);
}

/// Encoding the global nets in the `CrbitXC2C512` layout stores each setting at its own place
/// in the crbit array, counted from the placement origin (backwards along a mirrored axis); an
/// inverted fuse holds the complement: the GCK0 enable at (979, 147); the GCK1 enable at
/// (980, 147); the GCK2 enable at (981, 147); the GSR enable at (2, 27); the GSR polarity at
/// (1, 27); the GTS0 enable at (4, 27) inverted; the GTS1 enable at (481, 27) inverted; the
/// GTS2 enable at (6, 27) inverted; the GTS3 enable at (8, 27) inverted; the GTS0 polarity at
/// (3, 27); the GTS1 polarity at (480, 27); the GTS2 polarity at (5, 27); the GTS3 polarity at
/// (7, 27); the termination mode at (983, 147).
pub proof fn lemma_global_nets_crbit_xc2c512_places(n: XC2GlobalNets, before: FuseArray, after: FuseArray, offset: [isize; 2], mirror: [bool; 2])
    requires
        <XC2GlobalNets as BitFragment<CrbitXC2C512>>::spec_encode_fits(&before, offset, mirror, ()),
        crbit::grid_columns_inside(crbit::width(&before), offset, mirror, 1, 983),
        <XC2GlobalNets as BitFragment<CrbitXC2C512>>::spec_encode_result(&n, &before, &after, offset, mirror, ()),
    ensures
        crbit::fuses(&after)[crbit::grid_cell(crbit::width(&before), offset, mirror, 979, 147)] == n.gck_enable[0],
        crbit::fuses(&after)[crbit::grid_cell(crbit::width(&before), offset, mirror, 980, 147)] == n.gck_enable[1],
        crbit::fuses(&after)[crbit::grid_cell(crbit::width(&before), offset, mirror, 981, 147)] == n.gck_enable[2],
        crbit::fuses(&after)[crbit::grid_cell(crbit::width(&before), offset, mirror, 2, 27)] == n.gsr_enable,
        crbit::fuses(&after)[crbit::grid_cell(crbit::width(&before), offset, mirror, 1, 27)] == n.gsr_invert,
        crbit::fuses(&after)[crbit::grid_cell(crbit::width(&before), offset, mirror, 4, 27)] == !n.gts_enable[0],
        crbit::fuses(&after)[crbit::grid_cell(crbit::width(&before), offset, mirror, 481, 27)] == !n.gts_enable[1],
        crbit::fuses(&after)[crbit::grid_cell(crbit::width(&before), offset, mirror, 6, 27)] == !n.gts_enable[2],
        crbit::fuses(&after)[crbit::grid_cell(crbit::width(&before), offset, mirror, 8, 27)] == !n.gts_enable[3],
        crbit::fuses(&after)[crbit::grid_cell(crbit::width(&before), offset, mirror, 3, 27)] == n.gts_invert[0],
        crbit::fuses(&after)[crbit::grid_cell(crbit::width(&before), offset, mirror, 480, 27)] == n.gts_invert[1],
        crbit::fuses(&after)[crbit::grid_cell(crbit::width(&before), offset, mirror, 5, 27)] == n.gts_invert[2],
        crbit::fuses(&after)[crbit::grid_cell(crbit::width(&before), offset, mirror, 7, 27)] == n.gts_invert[3],
        crbit::fuses(&after)[crbit::grid_cell(crbit::width(&before), offset, mirror, 983, 147)] == n.global_pu,
{
    crbit::lemma_width_bound(&before);
    let f = grid_frame(crbit::width(&before) as usize, offset, mirror);
    let s = crbit::fuses(&before);
    lemma_columns_between(f, global_nets_crbit_xc2c512_xs(), 1, 983);
    lemma_table_writes(s, f, global_nets_crbit_xc2c512_xs(), global_nets_crbit_xc2c512_ys(), global_nets_inverted(), global_nets_bits(n));
    assert(global_nets_crbit_xc2c512_xs()[0] == 979 && global_nets_crbit_xc2c512_ys()[0] == 147);
    assert(global_nets_crbit_xc2c512_xs()[1] == 980 && global_nets_crbit_xc2c512_ys()[1] == 147);
    assert(global_nets_crbit_xc2c512_xs()[2] == 981 && global_nets_crbit_xc2c512_ys()[2] == 147);
    assert(global_nets_crbit_xc2c512_xs()[3] == 2 && global_nets_crbit_xc2c512_ys()[3] == 27);
    assert(global_nets_crbit_xc2c512_xs()[4] == 1 && global_nets_crbit_xc2c512_ys()[4] == 27);
    assert(global_nets_crbit_xc2c512_xs()[5] == 4 && global_nets_crbit_xc2c512_ys()[5] == 27);
    assert(global_nets_crbit_xc2c512_xs()[6] == 481 && global_nets_crbit_xc2c512_ys()[6] == 27);
    assert(global_nets_crbit_xc2c512_xs()[7] == 6 && global_nets_crbit_xc2c512_ys()[7] == 27);
    assert(global_nets_crbit_xc2c512_xs()[8] == 8 && global_nets_crbit_xc2c512_ys()[8] == 27);
    assert(global_nets_crbit_xc2c512_xs()[9] == 3 && global_nets_crbit_xc2c512_ys()[9] == 27);
    assert(global_nets_crbit_xc2c512_xs()[10] == 480 && global_nets_crbit_xc2c512_ys()[10] == 27);
    assert(global_nets_crbit_xc2c512_xs()[11] == 5 && global_nets_crbit_xc2c512_ys()[11] == 27);
    assert(global_nets_crbit_xc2c512_xs()[12] == 7 && global_nets_crbit_xc2c512_ys()[12] == 27);
    assert(global_nets_crbit_xc2c512_xs()[13] == 983 && global_nets_crbit_xc2c512_ys()[13] == 147);
}

/// Encoding the clock divider in the `JedCommon` layout stores each setting at its
/// own place in the JED fuse list, counted from the placement origin (backwards
/// along a mirrored axis); an inverted fuse holds the complement: the ratio at 1, 2, 3; the delay
/// at 4 inverted; the enable at 0 inverted.
pub proof fn lemma_clock_div_jed_places(d: XC2ClockDiv, before: &[bool], after: &[bool], offset: [isize; 1], mirror: [bool; 1])
    requires
        <XC2ClockDiv as BitFragment<JedCommon>>::spec_encode_fits(before, offset, mirror, ()),
        <XC2ClockDiv as BitFragment<JedCommon>>::spec_encode_result(&d, before, after, offset, mirror, ()),
    ensures
        after@[place(offset[0] as int, mirror[0], 1)] == d.div_ratio.spec_encode()[0],
        after@[place(offset[0] as int, mirror[0], 2)] == d.div_ratio.spec_encode()[1],
        after@[place(offset[0] as int, mirror[0], 3)] == d.div_ratio.spec_encode()[2],
        after@[place(offset[0] as int, mirror[0], 4)] == !d.delay,
        after@[place(offset[0] as int, mirror[0], 0)] == !d.enabled,
{
    let f = line_frame(offset, mirror);
    let s = before@;
    assert(d.div_ratio.spec_encode().len() == 3) by {
        lemma_div_ratio_bits(d.div_ratio);
    }
    lemma_table_writes(s, f, clock_div_jed_positions(), Seq::new(5, |_k: int| 0isize), clock_div_inverted(), clock_div_bits(d));
    assert(clock_div_jed_positions()[0] == 1 && Seq::new(5, |_k: int| 0isize)[0] == 0);
    assert(clock_div_jed_positions()[1] == 2 && Seq::new(5, |_k: int| 0isize)[1] == 0);
    assert(clock_div_jed_positions()[2] == 3 && Seq::new(5, |_k: int| 0isize)[2] == 0);
    assert(clock_div_jed_positions()[3] == 4 && Seq::new(5, |_k: int| 0isize)[3] == 0);
    assert(clock_div_jed_positions()[4] == 0 && Seq::new(5, |_k: int| 0isize)[4] == 0);
}

/// Encoding the clock divider in the `CrbitXC2C128` layout stores each setting at its own place
/// in the crbit array, counted from the placement origin (backwards along a mirrored axis); an
/// inverted fuse holds the complement: the ratio at (363, 67), (362, 67), (361, 67); the delay
/// at (360, 67) inverted; the enable at (364, 67) inverted.
pub proof fn lemma_clock_div_crbit_xc2c128_places(d: XC2ClockDiv, before: FuseArray, after: FuseArray, offset: [isize; 2], mirror: [bool; 2])
    requires
        <XC2ClockDiv as BitFragment<CrbitXC2C128>>::spec_encode_fits(&before, offset, mirror, ()),
        crbit::grid_columns_inside(crbit::width(&before), offset, mirror, 360, 364),
        <XC2ClockDiv as BitFragment<CrbitXC2C128>>::spec_encode_result(&d, &before, &after, offset, mirror, ()),
    ensures
        crbit::fuses(&after)[crbit::grid_cell(crbit::width(&before), offset, mirror, 363, 67)] == d.div_ratio.spec_encode()[0],
        crbit::fuses(&after)[crbit::grid_cell(crbit::width(&before), offset, mirror, 362, 67)] == d.div_ratio.spec_encode()[1],
        crbit::fuses(&after)[crbit::grid_cell(crbit::width(&before), offset, mirror, 361, 67)] == d.div_ratio.spec_encode()[2],
        crbit::fuses(&after)[crbit::grid_cell(crbit::width(&before), offset, mirror, 360, 67)] == !d.delay,
        crbit::fuses(&after)[crbit::grid_cell(crbit::width(&before), offset, mirror, 364, 67)] == !d.enabled,
{
    crbit::lemma_width_bound(&before);
    let f = grid_frame(crbit::width(&before) as usize, offset, mirror);
    let s = crbit::fuses(&before);
    assert(d.div_ratio.spec_encode().len() == 3) by {
        lemma_div_ratio_bits(d.div_ratio);
    }
    lemma_columns_between(f, clock_div_crbit_xc2c128_xs(), 360, 364);
    lemma_table_writes(s, f, clock_div_crbit_xc2c128_xs(), clock_div_crbit_xc2c128_ys(), clock_div_inverted(), clock_div_bits(d));
    assert(clock_div_crbit_xc2c128_xs()[0] == 363 && clock_div_crbit_xc2c128_ys()[0] == 67);
    assert(clock_div_crbit_xc2c128_xs()[1] == 362 && clock_div_crbit_xc2c128_ys()[1] == 67);
    assert(clock_div_crbit_xc2c128_xs()[2] == 361 && clock_div_crbit_xc2c128_ys()[2] == 67);
    assert(clock_div_crbit_xc2c128_xs()[3] == 360 && clock_div_crbit_xc2c128_ys()[3] == 67);
    assert(clock_div_crbit_xc2c128_xs()[4] == 364 && clock_div_crbit_xc2c128_ys()[4] == 67);
}

/// Encoding the clock divider in the `CrbitXC2C256` layout stores each setting at its own place
/// in the crbit array, counted from the placement origin (backwards along a mirrored axis); an
/// inverted fuse holds the complement: the ratio at (518, 24), (517, 24), (516, 24); the delay
/// at (515, 24) inverted; the enable at (519, 24) inverted.
pub proof fn lemma_clock_div_crbit_xc2c256_places(d: XC2ClockDiv, before: FuseArray, after: FuseArray, offset: [isize; 2], mirror: [bool; 2])
    requires
        <XC2ClockDiv as BitFragment<CrbitXC2C256>>::spec_encode_fits(&before, offset, mirror, ()),
        crbit::grid_columns_inside(crbit::width(&before), offset, mirror, 515, 519),
        <XC2ClockDiv as BitFragment<CrbitXC2C256>>::spec_encode_result(&d, &before, &after, offset, mirror, ()),
    ensures
        crbit::fuses(&after)[crbit::grid_cell(crbit::width(&before), offset, mirror, 518, 24)] == d.div_ratio.spec_encode()[0],
        crbit::fuses(&after)[crbit::grid_cell(crbit::width(&before), offset, mirror, 517, 24)] == d.div_ratio.spec_encode()[1],
        crbit::fuses(&after)[crbit::grid_cell(crbit::width(&before), offset, mirror, 516, 24)] == d.div_ratio.spec_encode()[2],
        crbit::fuses(&after)[crbit::grid_cell(crbit::width(&before), offset, mirror, 515, 24)] == !d.delay,
        crbit::fuses(&after)[crbit::grid_cell(crbit::width(&before), offset, mirror, 519, 24)] == !d.enabled,
{
    crbit::lemma_width_bound(&before);
    let f = grid_frame(crbit::width(&before) as usize, offset, mirror);
    let s = crbit::fuses(&before);
    assert(d.div_ratio.spec_encode().len() == 3) by {
        lemma_div_ratio_bits(d.div_ratio);
    }
    lemma_columns_between(f, clock_div_crbit_xc2c256_xs(), 515, 519);
    lemma_table_writes(s, f, clock_div_crbit_xc2c256_xs(), clock_div_crbit_xc2c256_ys(), clock_div_inverted(), clock_div_bits(d));
    assert(clock_div_crbit_xc2c256_xs()[0] == 518 && clock_div_crbit_xc2c256_ys()[0] == 24);
    assert(clock_div_crbit_xc2c256_xs()[1] == 517 && clock_div_crbit_xc2c256_ys()[1] == 24);
    assert(clock_div_crbit_xc2c256_xs()[2] == 516 && clock_div_crbit_xc2c256_ys()[2] == 24);
    assert(clock_div_crbit_xc2c256_xs()[3] == 515 && clock_div_crbit_xc2c256_ys()[3] == 24);
    assert(clock_div_crbit_xc2c256_xs()[4] == 519 && clock_div_crbit_xc2c256_ys()[4] == 24);
}

/// Encoding the clock divider in the `CrbitXC2C384` layout stores each setting at its own place
/// in the crbit array, counted from the placement origin (backwards along a mirrored axis); an
/// inverted fuse holds the complement: the ratio at (470, 107), (469, 107), (468, 107); the
/// delay at (467, 107) inverted; the enable at (471, 107) inverted.
pub proof fn lemma_clock_div_crbit_xc2c384_places(d: XC2ClockDiv, before: FuseArray, after: FuseArray, offset: [isize; 2], mirror: [bool; 2])
    requires
        <XC2ClockDiv as BitFragment<CrbitXC2C384>>::spec_encode_fits(&before, offset, mirror, ()),
        crbit::grid_columns_inside(crbit::width(&before), offset, mirror, 467, 471),
        <XC2ClockDiv as BitFragment<CrbitXC2C384>>::spec_encode_result(&d, &before, &after, offset, mirror, ()),
    ensures
        crbit::fuses(&after)[crbit::grid_cell(crbit::width(&before), offset, mirror, 470, 107)] == d.div_ratio.spec_encode()[0],
        crbit::fuses(&after)[crbit::grid_cell(crbit::width(&before), offset, mirror, 469, 107)] == d.div_ratio.spec_encode()[1],
        crbit::fuses(&after)[crbit::grid_cell(crbit::width(&before), offset, mirror, 468, 107)] == d.div_ratio.spec_encode()[2],
        crbit::fuses(&after)[crbit::grid_cell(crbit::width(&before), offset, mirror, 467, 107)] == !d.delay,
        crbit::fuses(&after)[crbit::grid_cell(crbit::width(&before), offset, mirror, 471, 107)] == !d.enabled,
{
    crbit::lemma_width_bound(&before);
    let f = grid_frame(crbit::width(&before) as usize, offset, mirror);
    let s = crbit::fuses(&before);
    assert(d.div_ratio.spec_encode().len() == 3) by {
        lemma_div_ratio_bits(d.div_ratio);
    }
    lemma_columns_between(f, clock_div_crbit_xc2c384_xs(), 467, 471);
    lemma_table_writes(s, f, clock_div_crbit_xc2c384_xs(), clock_div_crbit_xc2c384_ys(), clock_div_inverted(), clock_div_bits(d));
    assert(clock_div_crbit_xc2c384_xs()[0] == 470 && clock_div_crbit_xc2c384_ys()[0] == 107);
    assert(clock_div_crbit_xc2c384_xs()[1] == 469 && clock_div_crbit_xc2c384_ys()[1] == 107);
    assert(clock_div_crbit_xc2c384_xs()[2] == 468 && clock_div_crbit_xc2c384_ys()[2] == 107);
    assert(clock_div_crbit_xc2c384_xs()[3] == 467 && clock_div_crbit_xc2c384_ys()[3] == 107);
    assert(clock_div_crbit_xc2c384_xs()[4] == 471 && clock_div_crbit_xc2c384_ys()[4] == 107);
}

/// Encoding the clock divider in the `CrbitXC2C512` layout stores each setting at its own place
/// in the crbit array, counted from the placement origin (backwards along a mirrored axis); an
/// inverted fuse holds the complement: the ratio at (977, 147), (976, 147), (975, 147); the
/// delay at (974, 147) inverted; the enable at (978, 147) inverted.
pub proof fn lemma_clock_div_crbit_xc2c512_places(d: XC2ClockDiv, before: FuseArray, after: FuseArray, offset: [isize; 2], mirror: [bool; 2])
    requires
        <XC2ClockDiv as BitFragment<CrbitXC2C512>>::spec_encode_fits(&before, offset, mirror, ()),
        crbit::grid_columns_inside(crbit::width(&before), offset, mirror, 974, 978),
        <XC2ClockDiv as BitFragment<CrbitXC2C512>>::spec_encode_result(&d, &before, &after, offset, mirror, ()),
    ensures
        crbit::fuses(&after)[crbit::grid_cell(crbit::width(&before), offset, mirror, 977, 147)] == d.div_ratio.spec_encode()[0],
        crbit::fuses(&after)[crbit::grid_cell(crbit::width(&before), offset, mirror, 976, 147)] == d.div_ratio.spec_encode()[1],
        crbit::fuses(&after)[crbit::grid_cell(crbit::width(&before), offset, mirror, 975, 147)] == d.div_ratio.spec_encode()[2],
        crbit::fuses(&after)[crbit::grid_cell(crbit::width(&before), offset, mirror, 974, 147)] == !d.delay,
        crbit::fuses(&after)[crbit::grid_cell(crbit::width(&before), offset, mirror, 978, 147)] == !d.enabled,
{
    crbit::lemma_width_bound(&before);
    let f = grid_frame(crbit::width(&before) as usize, offset, mirror);
    let s = crbit::fuses(&before);
    assert(d.div_ratio.spec_encode().len() == 3) by {
        lemma_div_ratio_bits(d.div_ratio);
    }
    lemma_columns_between(f, clock_div_crbit_xc2c512_xs(), 974, 978);
    lemma_table_writes(s, f, clock_div_crbit_xc2c512_xs(), clock_div_crbit_xc2c512_ys(), clock_div_inverted(), clock_div_bits(d));
    assert(clock_div_crbit_xc2c512_xs()[0] == 977 && clock_div_crbit_xc2c512_ys()[0] == 147);
    assert(clock_div_crbit_xc2c512_xs()[1] == 976 && clock_div_crbit_xc2c512_ys()[1] == 147);
    assert(clock_div_crbit_xc2c512_xs()[2] == 975 && clock_div_crbit_xc2c512_ys()[2] == 147);
    assert(clock_div_crbit_xc2c512_xs()[3] == 974 && clock_div_crbit_xc2c512_ys()[3] == 147);
    assert(clock_div_crbit_xc2c512_xs()[4] == 978 && clock_div_crbit_xc2c512_ys()[4] == 147);
}

/// The lines of the description of a global net configuration, in order.
pub open spec fn global_nets_lines(n: XC2GlobalNets) -> Seq<Seq<char>> {
    seq![
        "GCK0 "@ + enabled_word(n.gck_enable[0]) + "\n"@,
        "GCK1 "@ + enabled_word(n.gck_enable[1]) + "\n"@,
        "GCK2 "@ + enabled_word(n.gck_enable[2]) + "\n"@,
        "GSR "@ + enabled_word(n.gsr_enable) + ", active "@ + (if n.gsr_invert {
            "high"@
        } else {
            "low"@
        }) + "\n"@,
        gts_line(n, 0, "GTS0 "@),
        gts_line(n, 1, "GTS1 "@),
        gts_line(n, 2, "GTS2 "@),
        gts_line(n, 3, "GTS3 "@),
        "global termination is "@ + (if n.global_pu {
            "pull-up"@
        } else {
            "bus hold"@
        }) + "\n"@,
    ]
}

/// The description of a global net configuration is its lines one after another.
proof fn lemma_global_nets_text_lines(n: XC2GlobalNets)
    ensures
        global_nets_text(n) == join(global_nets_lines(n)),
{
    let ls = global_nets_lines(n);
    let a0 = "GCK0 "@ + enabled_word(n.gck_enable[0]) + "\n"@;
    assert(join(ls.take(1)) == a0) by {
        lemma_join_step(ls, 0);
        assert(a0 =~= join(ls.take(0)) + ls[0]);
    }
    let a1 = a0 + "GCK1 "@ + enabled_word(n.gck_enable[1]) + "\n"@;
    assert(join(ls.take(2)) == a1) by {
        lemma_join_step(ls, 1);
        assert(a1 =~= a0 + ls[1]);
    }
    let a2 = a1 + "GCK2 "@ + enabled_word(n.gck_enable[2]) + "\n"@;
    assert(join(ls.take(3)) == a2) by {
        lemma_join_step(ls, 2);
        assert(a2 =~= a1 + ls[2]);
    }
    let a3 = a2 + "GSR "@ + enabled_word(n.gsr_enable) + ", active "@ + (if n.gsr_invert {
        "high"@
    } else {
        "low"@
    }) + "\n"@;
    assert(join(ls.take(4)) == a3) by {
        lemma_join_step(ls, 3);
        assert(a3 =~= a2 + ls[3]);
    }
    let a4 = a3 + gts_line(n, 0, "GTS0 "@);
    assert(join(ls.take(5)) == a4) by {
        lemma_join_step(ls, 4);
        assert(a4 =~= a3 + ls[4]);
    }
    let a5 = a4 + gts_line(n, 1, "GTS1 "@);
    assert(join(ls.take(6)) == a5) by {
        lemma_join_step(ls, 5);
        assert(a5 =~= a4 + ls[5]);
    }
    let a6 = a5 + gts_line(n, 2, "GTS2 "@);
    assert(join(ls.take(7)) == a6) by {
        lemma_join_step(ls, 6);
        assert(a6 =~= a5 + ls[6]);
    }
    let a7 = a6 + gts_line(n, 3, "GTS3 "@);
    assert(join(ls.take(8)) == a7) by {
        lemma_join_step(ls, 7);
        assert(a7 =~= a6 + ls[7]);
    }
    let a8 = a7 + "global termination is "@ + (if n.global_pu {
        "pull-up"@
    } else {
        "bus hold"@
    }) + "\n"@;
    assert(join(ls.take(9)) == a8) by {
        lemma_join_step(ls, 8);
        assert(a8 =~= a7 + ls[8]);
    }
    assert(ls.take(9) =~= ls);
}

/// The description of a global net configuration has a line for each
/// global clock, for the global set/reset with its polarity, for each
/// global tristate with its polarity, and for the termination mode, each
/// worded as shown.
pub proof fn lemma_global_nets_text_describes(n: XC2GlobalNets)
    ensures
        has_text(global_nets_text(n), "GCK0 "@ + (if n.gck_enable[0] { "enabled"@ } else { "disabled"@ }) + "\n"@),
        has_text(global_nets_text(n), "GCK1 "@ + (if n.gck_enable[1] { "enabled"@ } else { "disabled"@ }) + "\n"@),
        has_text(global_nets_text(n), "GCK2 "@ + (if n.gck_enable[2] { "enabled"@ } else { "disabled"@ }) + "\n"@),
        has_text(
            global_nets_text(n),
            "GSR "@ + (if n.gsr_enable { "enabled"@ } else { "disabled"@ }) + ", active "@ + (if n.gsr_invert { "high"@ } else { "low"@ }) + "\n"@,
        ),
        has_text(
            global_nets_text(n),
            "GTS0 "@ + (if n.gts_enable[0] { "enabled"@ } else { "disabled"@ }) + ", acts as "@ + (if n.gts_invert[0] { "!T"@ } else { "T"@ }) + "\n"@,
        ),
        has_text(
            global_nets_text(n),
            "GTS1 "@ + (if n.gts_enable[1] { "enabled"@ } else { "disabled"@ }) + ", acts as "@ + (if n.gts_invert[1] { "!T"@ } else { "T"@ }) + "\n"@,
        ),
        has_text(
            global_nets_text(n),
            "GTS2 "@ + (if n.gts_enable[2] { "enabled"@ } else { "disabled"@ }) + ", acts as "@ + (if n.gts_invert[2] { "!T"@ } else { "T"@ }) + "\n"@,
        ),
        has_text(
            global_nets_text(n),
            "GTS3 "@ + (if n.gts_enable[3] { "enabled"@ } else { "disabled"@ }) + ", acts as "@ + (if n.gts_invert[3] { "!T"@ } else { "T"@ }) + "\n"@,
        ),
        has_text(
            global_nets_text(n),
            "global termination is "@ + (if n.global_pu { "pull-up"@ } else { "bus hold"@ }) + "\n"@,
        ),
{
    lemma_global_nets_text_lines(n);
    let ls = global_nets_lines(n);
    lemma_join_has(ls, 0);
    lemma_join_has(ls, 1);
    lemma_join_has(ls, 2);
    lemma_join_has(ls, 3);
    lemma_join_has(ls, 4);
    lemma_join_has(ls, 5);
    lemma_join_has(ls, 6);
    lemma_join_has(ls, 7);
    lemma_join_has(ls, 8);
}

/// The lines of the description of a clock divider configuration, in order.
pub open spec fn clock_div_lines(d: XC2ClockDiv) -> Seq<Seq<char>> {
    seq![
        "GCK2 clock divider "@ + enabled_word(d.enabled) + "\n"@,
        "clock divider delay "@ + enabled_word(d.delay) + "\n"@,
        "clock division ratio: "@ + div_ratio_text(d.div_ratio) + "\n"@,
    ]
}

/// The description of a clock divider configuration is its lines one after another.
proof fn lemma_clock_div_text_lines(d: XC2ClockDiv)
    ensures
        clock_div_text(d) == join(clock_div_lines(d)),
{
    let ls = clock_div_lines(d);
    let a0 = "GCK2 clock divider "@ + enabled_word(d.enabled) + "\n"@;
    assert(join(ls.take(1)) == a0) by {
        lemma_join_step(ls, 0);
        assert(a0 =~= join(ls.take(0)) + ls[0]);
    }
    let a1 = a0 + "clock divider delay "@ + enabled_word(d.delay) + "\n"@;
    assert(join(ls.take(2)) == a1) by {
        lemma_join_step(ls, 1);
        assert(a1 =~= a0 + ls[1]);
    }
    let a2 = a1 + "clock division ratio: "@ + div_ratio_text(d.div_ratio) + "\n"@;
    assert(join(ls.take(3)) == a2) by {
        lemma_join_step(ls, 2);
        assert(a2 =~= a1 + ls[2]);
    }
    assert(ls.take(3) =~= ls);
}

/// The description of a clock divider configuration says whether the
/// divider is enabled, whether its delay is enabled, and its ratio as the
/// divisor in decimal.
pub proof fn lemma_clock_div_text_describes(d: XC2ClockDiv)
    ensures
        has_text(clock_div_text(d), "GCK2 clock divider "@ + (if d.enabled { "enabled"@ } else { "disabled"@ }) + "\n"@),
        has_text(clock_div_text(d), "clock divider delay "@ + (if d.delay { "enabled"@ } else { "disabled"@ }) + "\n"@),
        has_text(
            clock_div_text(d),
            "clock division ratio: "@ + match d.div_ratio {
                XC2ClockDivRatio::Div2 => "2"@,
                XC2ClockDivRatio::Div4 => "4"@,
                XC2ClockDivRatio::Div6 => "6"@,
                XC2ClockDivRatio::Div8 => "8"@,
                XC2ClockDivRatio::Div10 => "10"@,
                XC2ClockDivRatio::Div12 => "12"@,
                XC2ClockDivRatio::Div14 => "14"@,
                XC2ClockDivRatio::Div16 => "16"@,
            } + "\n"@,
        ),
{
    lemma_clock_div_text_lines(d);
    let ls = clock_div_lines(d);
    lemma_join_has(ls, 0);
    lemma_join_has(ls, 1);
    lemma_join_has(ls, 2);
}

} // verus!
