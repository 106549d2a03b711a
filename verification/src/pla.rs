//! The PLA: AND terms over the ZIA rows and OR terms over the AND terms, and
//! where their bits live in the JED fuse list and in crbit fuse arrays.
use vstd::prelude::*;

use crate::bitfragment::{
    apply_writes, frame_index, layout_distinct, layout_fits, read_slots, read_slots_from, slot_index,
    slot_writes, write_slots, BitFragment, BitFragmentFieldType, BitSlot, Frame, place, fixed_agree,
    lemma_read_after_write, lemma_fragment_writes_len, lemma_write_leaves_others, lemma_write_what_was_read,
};
use crate::bits::{lemma_pack_at, pack_at, get_packed, lemma_byte_bits_ext, packed_bit, packed_bits, set_packed, byte_bit};
use crate::crbit;
use crate::crbit::{grid_frame, FuseArray};
use crate::{ANDTERMS_PER_FB, INPUTS_PER_ANDTERM, MCS_PER_FB};

verus! {

broadcast use vstd::array::group_array_axioms;

/// Represents one single AND term in the PLA. Each AND term can perform an AND function on any
/// subset of its inputs
/// and the complement of those inputs. The index for each input is the corresponding ZIA row.
#[derive(Copy, Clone, Eq, PartialEq, Hash, Debug)]
pub struct XC2PLAAndTerm {
    /// Indicates whether a particular ZIA row output is a part of this AND term.
    ///
    /// `true` = part of and, `false` = not part of and
    input: [u8; 5],
    /// Indicates whether the complement of a particular ZIA row output is a part of this AND term.
    ///
    /// `true` = part of and, `false` = not part of and
    input_b: [u8; 5],
}

impl View for XC2PLAAndTerm {
    /// For each of the 40 inputs, whether it is used; then, for each, whether its complement is
    /// used.
    type V = (Seq<bool>, Seq<bool>);

    closed spec fn view(&self) -> (Seq<bool>, Seq<bool>) {
        (packed_bits(self.input@, 40), packed_bits(self.input_b@, 40))
    }
}

/// A selection of `n` inputs in which none is selected.
pub open spec fn no_inputs(n: nat) -> Seq<bool> {
    Seq::new(n, |_i: int| false)
}

impl Default for XC2PLAAndTerm {
    /// Returns a "default" AND term. The default state is for none of the inputs to be selected.
    fn default() -> (t: Self)
        ensures
            t@ == (no_inputs(40), no_inputs(40)),
    {
        let t = XC2PLAAndTerm { input: [0u8; 5], input_b: [0u8; 5] };
        proof {
            assert forall|i: int| 0 <= i < 40 implies !#[trigger] packed_bit(t.input@, i) by {
                crate::bits::lemma_byte_bit_update(0u8, 0u8, (i % 8) as u8);
            }
            assert forall|i: int| 0 <= i < 40 implies !#[trigger] packed_bit(t.input_b@, i) by {
                crate::bits::lemma_byte_bit_update(0u8, 0u8, (i % 8) as u8);
            }
            assert(t@.0 =~= no_inputs(40));
            assert(t@.1 =~= no_inputs(40));
        }
        t
    }
}

impl XC2PLAAndTerm {
    /// Returns `true` if the `i`th input is used in this AND term
    pub fn get(&self, i: usize) -> (r: bool)
        requires
            i < INPUTS_PER_ANDTERM,
        ensures
            r == self@.0[i as int],
            self@.0.len() == 40,
            self@.1.len() == 40,
    {
        get_packed(&self.input, i)
    }

    /// Returns `true` if the `i`th input complement is used in this AND term
    pub fn get_b(&self, i: usize) -> (r: bool)
        requires
            i < INPUTS_PER_ANDTERM,
        ensures
            r == self@.1[i as int],
            self@.0.len() == 40,
            self@.1.len() == 40,
    {
        get_packed(&self.input_b, i)
    }

    /// Sets whether the `i`th input is used in this AND term
    pub fn set(&mut self, i: usize, val: bool)
        requires
            i < INPUTS_PER_ANDTERM,
        ensures
            final(self)@.0 == old(self)@.0.update(i as int, val),
            final(self)@.1 == old(self)@.1,
            old(self)@.0.len() == 40,
            old(self)@.1.len() == 40,
            final(self)@.0.len() == 40,
            final(self)@.1.len() == 40,
    {
        set_packed(&mut self.input, i, val);
        proof {
            assert(self@.0 =~= old(self)@.0.update(i as int, val));
        }
    }

    /// Sets whether the `i`th input complement is used in this AND term
    pub fn set_b(&mut self, i: usize, val: bool)
        requires
            i < INPUTS_PER_ANDTERM,
        ensures
            final(self)@.0 == old(self)@.0,
            final(self)@.1 == old(self)@.1.update(i as int, val),
            old(self)@.0.len() == 40,
            old(self)@.1.len() == 40,
            final(self)@.0.len() == 40,
            final(self)@.1.len() == 40,
    {
        set_packed(&mut self.input_b, i, val);
        proof {
            assert(self@.1 =~= old(self)@.1.update(i as int, val));
        }
    }
}

/// Two packed sets of 40 bits held in five bytes are equal when their bits are.
proof fn lemma_packed40_ext(a: [u8; 5], b: [u8; 5])
    requires
        packed_bits(a@, 40) == packed_bits(b@, 40),
    ensures
        a == b,
{
    assert forall|q: int| 0 <= q < 5 implies a[q] == b[q] by {
        assert forall|k: int| 0 <= k < 8 implies byte_bit(a[q], k) == byte_bit(b[q], k) by {
            let i = 8 * q + k;
            assert(i / 8 == q && i % 8 == k);
            assert(packed_bits(a@, 40)[i] == packed_bit(a@, i));
            assert(packed_bits(b@, 40)[i] == packed_bit(b@, i));
        }
        lemma_byte_bits_ext(a[q], b[q]);
    }
    assert(a =~= b);
}

/// The view of an AND term has one entry per ZIA row, for the inputs and
/// for their complements.
pub proof fn lemma_and_term_view_len(t: XC2PLAAndTerm)
    ensures
        t@.0.len() == 40,
        t@.1.len() == 40,
{
}

/// Every choice of 40 inputs and 40 complements is the view of some AND
/// term.
pub proof fn lemma_and_term_of_onto(v: (Seq<bool>, Seq<bool>))
    requires
        v.0.len() == 40,
        v.1.len() == 40,
    ensures
        and_term_of(v)@ == v,
{
    let t = XC2PLAAndTerm {
        input: [pack_at(v.0, 0), pack_at(v.0, 1), pack_at(v.0, 2), pack_at(v.0, 3), pack_at(v.0, 4)],
        input_b: [pack_at(v.1, 0), pack_at(v.1, 1), pack_at(v.1, 2), pack_at(v.1, 3), pack_at(v.1, 4)],
    };
    assert forall|i: int| 0 <= i < 40 implies #[trigger] packed_bit(t.input@, i) == v.0[i] by {
        lemma_pack_at(v.0, i / 8, i % 8);
    }
    assert forall|i: int| 0 <= i < 40 implies #[trigger] packed_bit(t.input_b@, i) == v.1[i] by {
        lemma_pack_at(v.1, i / 8, i % 8);
    }
    assert(t@.0 =~= v.0);
    assert(t@.1 =~= v.1);
}

/// The AND term with view `v`, where there is one.
pub open spec fn and_term_of(v: (Seq<bool>, Seq<bool>)) -> XC2PLAAndTerm {
    choose|t: XC2PLAAndTerm| t@ == v
}

/// Every AND term is the AND term of its view.
pub proof fn lemma_and_term_of(t: XC2PLAAndTerm)
    ensures
        and_term_of(t@) == t,
{
    let u = and_term_of(t@);
    assert(u@ == t@);
    lemma_and_term_view_injective(u, t);
}

/// An AND term is determined by which inputs and complements it uses.
pub proof fn lemma_and_term_view_injective(a: XC2PLAAndTerm, b: XC2PLAAndTerm)
    requires
        a@ == b@,
    ensures
        a == b,
{
    lemma_packed40_ext(a.input, b.input);
    lemma_packed40_ext(a.input_b, b.input_b);
}

/// Selects the layout of the JED fuse list.
pub enum Jed {
    Layout,
}

/// Selects the crbit layout of an AND term in a PLA whose OR array sits in
/// the middle of the AND array, leaving a gap of eight rows after row 19.
pub enum CrbitCentralOrBlock {
    Layout,
}

/// Selects the crbit layout of an AND term in a PLA whose OR array sits to
/// the side, so that the 40 rows are contiguous.
pub enum CrbitSideOrBlock {
    Layout,
}

/// The one-dimensional frame at `offset`, mirrored per `mirror`.
pub open spec fn line_frame(offset: [isize; 1], mirror: [bool; 1]) -> Frame {
    Frame::Line { offset: offset[0], mirror: mirror[0] }
}

/// The 80 bits of an AND term in storage order: input `i` at `2 i`, its
/// complement at `2 i + 1`.
pub open spec fn and_term_bits(v: (Seq<bool>, Seq<bool>)) -> Seq<bool> {
    Seq::new(80, |k: int| if k % 2 == 0 { v.0[k / 2] } else { v.1[k / 2] })
}

/// The AND term whose bits in storage order are `b`.
pub open spec fn and_term_from_bits(b: Seq<bool>) -> (Seq<bool>, Seq<bool>) {
    (Seq::new(40, |i: int| b[2 * i]), Seq::new(40, |i: int| b[2 * i + 1]))
}

/// In the JED fuse list, bit `k` of an AND term is at position `k` from the
/// term's origin, and every fuse holds the complement of its bit.
pub open spec fn and_term_jed_layout() -> Seq<BitSlot> {
    Seq::new(80, |k: int| BitSlot::At { x: k as isize, y: 0, invert: true })
}

/// The row, counted from the term's origin, of input `i` in a crbit array.
pub open spec fn and_term_crbit_row(gap: bool, i: int) -> int {
    if gap && i >= 20 {
        i + 8
    } else {
        i
    }
}

/// In a crbit array, input `i` of an AND term is one column from the origin
/// and its complement is on the origin's column, both on the row of `i`;
/// every fuse holds the complement of its bit.
pub open spec fn and_term_crbit_layout(gap: bool) -> Seq<BitSlot> {
    Seq::new(
        80,
        |k: int|
            BitSlot::At {
                x: if k % 2 == 0 { 1 } else { 0 },
                y: and_term_crbit_row(gap, k / 2) as isize,
                invert: true,
            },
    )
}

fn and_term_jed_layout_vec() -> (v: Vec<BitSlot>)
    ensures
        v@ == and_term_jed_layout(),
{
    let mut v: Vec<BitSlot> = Vec::new();
    let mut k: usize = 0;
    while k < 80
        invariant
            k <= 80,
            v@ == and_term_jed_layout().take(k as int),
        decreases 80 - k,
    {
        v.push(BitSlot::At { x: k as isize, y: 0, invert: true });
        k = k + 1;
        assert(v@ =~= and_term_jed_layout().take(k as int));
    }
    assert(and_term_jed_layout().take(80) =~= and_term_jed_layout());
    v
}

fn and_term_crbit_layout_vec(gap: bool) -> (v: Vec<BitSlot>)
    ensures
        v@ == and_term_crbit_layout(gap),
{
    let mut v: Vec<BitSlot> = Vec::new();
    let mut k: usize = 0;
    while k < 80
        invariant
            k <= 80,
            v@ == and_term_crbit_layout(gap).take(k as int),
        decreases 80 - k,
    {
        let i = k / 2;
        let row: isize = if gap && i >= 20 {
            (i + 8) as isize
        } else {
            i as isize
        };
        let x: isize = if k % 2 == 0 {
            1
        } else {
            0
        };
        v.push(BitSlot::At { x, y: row, invert: true });
        k = k + 1;
        assert(v@ =~= and_term_crbit_layout(gap).take(k as int));
    }
    assert(and_term_crbit_layout(gap).take(80) =~= and_term_crbit_layout(gap));
    v
}

impl XC2PLAAndTerm {
    fn to_bits(&self) -> (b: Vec<bool>)
        ensures
            b@ == and_term_bits(self@),
    {
        let mut b: Vec<bool> = Vec::new();
        let mut i: usize = 0;
        while i < 40
            invariant
                i <= 40,
                b@ == and_term_bits(self@).take(2 * i),
            decreases 40 - i,
        {
            b.push(self.get(i));
            b.push(self.get_b(i));
            i = i + 1;
            assert(b@ =~= and_term_bits(self@).take(2 * i));
        }
        assert(and_term_bits(self@).take(80) =~= and_term_bits(self@));
        b
    }

    fn from_bits(b: &[bool]) -> (t: Self)
        requires
            b@.len() == 80,
        ensures
            t@ == and_term_from_bits(b@),
    {
        let mut t = Self::default();
        let mut i: usize = 0;
        while i < 40
            invariant
                i <= 40,
                b@.len() == 80,
                t@.0.len() == 40,
                t@.1.len() == 40,
                forall|j: int| 0 <= j < i ==> t@.0[j] == b@[2 * j] && t@.1[j] == b@[2 * j + 1],
            decreases 40 - i,
        {
            t.set(i, b[2 * i]);
            t.set_b(i, b[2 * i + 1]);
            i = i + 1;
        }
        assert(t@.0 =~= and_term_from_bits(b@).0);
        assert(t@.1 =~= and_term_from_bits(b@).1);
        t
    }
}

impl BitFragment<Jed> for XC2PLAAndTerm {
    const IDX_DIMS: usize = 1;
    const FIELD_COUNT: usize = 2;

    type Fuses = [bool];
    type OffsettingType = [isize; 1];
    type MirroringType = [bool; 1];
    type ErrType = ();
    type EncodeExtraType = ();
    type DecodeExtraType = ();

    open spec fn spec_encode_fits(fuses: &[bool], offset: [isize; 1], mirror: [bool; 1], extra: ()) -> bool {
        layout_fits(line_frame(offset, mirror), and_term_jed_layout(), fuses@.len())
    }

    open spec fn spec_decode_fits(fuses: &[bool], offset: [isize; 1], mirror: [bool; 1], extra: ()) -> bool {
        layout_fits(line_frame(offset, mirror), and_term_jed_layout(), fuses@.len())
    }

    open spec fn spec_field_count() -> nat {
        2
    }

    open spec fn spec_field_name(i: int) -> Seq<char> {
        if i == 0 {
            "input"@
        } else {
            "input_b"@
        }
    }

    open spec fn spec_field_desc(i: int) -> Seq<char> {
        if i == 0 {
            "true inputs"@
        } else {
            "complement inputs"@
        }
    }

    open spec fn spec_field_type(i: int) -> BitFragmentFieldType {
        BitFragmentFieldType::PatternArray(INPUTS_PER_ANDTERM)
    }

    open spec fn spec_field_elems(field_i: int) -> nat {
        40
    }

    open spec fn spec_field_offset(field_i: int, arr_i: int) -> [isize; 1] {
        [0]
    }

    open spec fn spec_field_mirror(field_i: int, arr_i: int) -> [bool; 1] {
        [false]
    }

    open spec fn spec_field_bits(field_i: int) -> nat {
        0
    }

    open spec fn spec_field_bit_base_pos(field_i: int, bit_i: int) -> [isize; 1] {
        [0]
    }

    open spec fn spec_encode_result(&self, before: &[bool], after: &[bool], offset: [isize; 1], mirror: [bool; 1], extra: ()) -> bool {
        after@ == and_term_jed_encoded(before@, self@, offset, mirror)
    }

    fn encode(&self, fuses: &mut [bool], offset: [isize; 1], mirror: [bool; 1], extra_data: ()) {
        let layout = and_term_jed_layout_vec();
        let bits = self.to_bits();
        write_slots(fuses, layout.as_slice(), bits.as_slice(), Frame::Line { offset: offset[0], mirror: mirror[0] });
    }

    open spec fn spec_decode(fuses: &[bool], offset: [isize; 1], mirror: [bool; 1], extra: ()) -> Result<
        XC2PLAAndTerm,
        (),
    > {
        Ok(and_term_of(and_term_jed_decoded(fuses@, offset, mirror)))
    }

    fn decode(fuses: &[bool], offset: [isize; 1], mirror: [bool; 1], extra_data: ()) -> (r: Result<XC2PLAAndTerm, ()>) {
        let layout = and_term_jed_layout_vec();
        let bits = read_slots_from(fuses, layout.as_slice(), Frame::Line { offset: offset[0], mirror: mirror[0] });
        let t = Self::from_bits(bits.as_slice());
        proof {
            lemma_and_term_of(t);
        }
        Ok(t)
    }

    fn fieldname(i: usize) -> (name: &'static str) {
        if i == 0 {
            "input"
        } else {
            "input_b"
        }
    }

    fn fielddesc(i: usize) -> (desc: &'static str) {
        if i == 0 {
            "true inputs"
        } else {
            "complement inputs"
        }
    }

    fn fieldtype(i: usize) -> (t: BitFragmentFieldType) {
        BitFragmentFieldType::PatternArray(INPUTS_PER_ANDTERM)
    }

    fn field_offset(field_i: usize, arr_i: usize) -> (o: [isize; 1]) {
        [0]
    }

    fn field_mirror(field_i: usize, arr_i: usize) -> (m: [bool; 1]) {
        [false]
    }

    fn field_bits(field_i: usize) -> (n: usize) {
        0
    }

    fn field_bit_base_pos(field_i: usize, bit_i: usize) -> (p: [isize; 1]) {
        [0]
    }
}

/// Whether an AND term placed at `offset`, mirrored per `mirror`, lies
/// inside the crbit array `a`.
pub open spec fn and_term_crbit_fits(a: &FuseArray, offset: [isize; 2], mirror: [bool; 2], gap: bool) -> bool {
    layout_fits(grid_frame(crbit::width(a) as usize, offset, mirror), and_term_crbit_layout(gap), crbit::fuses(a).len())
}

/// The fuses of `a` after storing an AND term with view `v` at `offset`,
/// mirrored per `mirror`.
pub open spec fn and_term_crbit_encoded(
    a: &FuseArray,
    v: (Seq<bool>, Seq<bool>),
    offset: [isize; 2],
    mirror: [bool; 2],
    gap: bool,
) -> Seq<bool> {
    apply_writes(
        crbit::fuses(a),
        slot_writes(grid_frame(crbit::width(a) as usize, offset, mirror), and_term_crbit_layout(gap), and_term_bits(v)),
    )
}

/// The view of the AND term stored in `a` at `offset`, mirrored per `mirror`.
pub open spec fn and_term_crbit_decoded(a: &FuseArray, offset: [isize; 2], mirror: [bool; 2], gap: bool) -> (
    Seq<bool>,
    Seq<bool>,
) {
    and_term_from_bits(
        read_slots(crbit::fuses(a), grid_frame(crbit::width(a) as usize, offset, mirror), and_term_crbit_layout(gap)),
    )
}

fn and_term_crbit_encode(t: &XC2PLAAndTerm, a: &mut FuseArray, offset: [isize; 2], mirror: [bool; 2], gap: bool)
    requires
        and_term_crbit_fits(old(a), offset, mirror, gap),
    ensures
        crbit::fuses(final(a)) == and_term_crbit_encoded(old(a), t@, offset, mirror, gap),
        crbit::width(final(a)) == crbit::width(old(a)),
        crbit::dev_name(final(a)) == crbit::dev_name(old(a)),
{
    let layout = and_term_crbit_layout_vec(gap);
    let bits = t.to_bits();
    a.write_slots(layout.as_slice(), bits.as_slice(), offset, mirror);
}

fn and_term_crbit_decode(a: &FuseArray, offset: [isize; 2], mirror: [bool; 2], gap: bool) -> (t: XC2PLAAndTerm)
    requires
        and_term_crbit_fits(a, offset, mirror, gap),
    ensures
        t@ == and_term_crbit_decoded(a, offset, mirror, gap),
{
    let layout = and_term_crbit_layout_vec(gap);
    let bits = a.read_slots(layout.as_slice(), offset, mirror);
    XC2PLAAndTerm::from_bits(bits.as_slice())
}

impl BitFragment<CrbitCentralOrBlock> for XC2PLAAndTerm {
    const IDX_DIMS: usize = 2;
    const FIELD_COUNT: usize = 2;

    type Fuses = FuseArray;
    type OffsettingType = [isize; 2];
    type MirroringType = [bool; 2];
    type ErrType = ();
    type EncodeExtraType = ();
    type DecodeExtraType = ();

    open spec fn spec_encode_fits(fuses: &FuseArray, offset: [isize; 2], mirror: [bool; 2], extra: ()) -> bool {
        and_term_crbit_fits(fuses, offset, mirror, true)
    }

    open spec fn spec_decode_fits(fuses: &FuseArray, offset: [isize; 2], mirror: [bool; 2], extra: ()) -> bool {
        and_term_crbit_fits(fuses, offset, mirror, true)
    }

    open spec fn spec_field_count() -> nat {
        2
    }

    open spec fn spec_field_name(i: int) -> Seq<char> {
        if i == 0 {
            "input"@
        } else {
            "input_b"@
        }
    }

    open spec fn spec_field_desc(i: int) -> Seq<char> {
        if i == 0 {
            "true inputs"@
        } else {
            "complement inputs"@
        }
    }

    open spec fn spec_field_type(i: int) -> BitFragmentFieldType {
        BitFragmentFieldType::PatternArray(INPUTS_PER_ANDTERM)
    }

    open spec fn spec_field_elems(field_i: int) -> nat {
        40
    }

    open spec fn spec_field_offset(field_i: int, arr_i: int) -> [isize; 2] {
        [0, 0]
    }

    open spec fn spec_field_mirror(field_i: int, arr_i: int) -> [bool; 2] {
        [false, false]
    }

    open spec fn spec_field_bits(field_i: int) -> nat {
        0
    }

    open spec fn spec_field_bit_base_pos(field_i: int, bit_i: int) -> [isize; 2] {
        [0, 0]
    }

    open spec fn spec_encode_result(&self, before: &FuseArray, after: &FuseArray, offset: [isize; 2], mirror: [bool; 2], extra: ()) -> bool {
        crbit::fuses(after) == and_term_crbit_encoded(before, self@, offset, mirror, true)
        && crbit::width(after) == crbit::width(before)
        && crbit::dev_name(after) == crbit::dev_name(before)
    }

    fn encode(&self, fuses: &mut FuseArray, offset: [isize; 2], mirror: [bool; 2], extra_data: ()) {
        and_term_crbit_encode(self, fuses, offset, mirror, true);
    }

    open spec fn spec_decode(fuses: &FuseArray, offset: [isize; 2], mirror: [bool; 2], extra: ()) -> Result<
        XC2PLAAndTerm,
        (),
    > {
        Ok(and_term_of(and_term_crbit_decoded(fuses, offset, mirror, true)))
    }

    fn decode(fuses: &FuseArray, offset: [isize; 2], mirror: [bool; 2], extra_data: ()) -> (r: Result<XC2PLAAndTerm, ()>) {
        let t = and_term_crbit_decode(fuses, offset, mirror, true);
        proof {
            lemma_and_term_of(t);
        }
        Ok(t)
    }

    fn fieldname(i: usize) -> (name: &'static str) {
        if i == 0 {
            "input"
        } else {
            "input_b"
        }
    }

    fn fielddesc(i: usize) -> (desc: &'static str) {
        if i == 0 {
            "true inputs"
        } else {
            "complement inputs"
        }
    }

    fn fieldtype(i: usize) -> (t: BitFragmentFieldType) {
        BitFragmentFieldType::PatternArray(INPUTS_PER_ANDTERM)
    }

    fn field_offset(field_i: usize, arr_i: usize) -> (o: [isize; 2]) {
        [0, 0]
    }

    fn field_mirror(field_i: usize, arr_i: usize) -> (m: [bool; 2]) {
        [false, false]
    }

    fn field_bits(field_i: usize) -> (n: usize) {
        0
    }

    fn field_bit_base_pos(field_i: usize, bit_i: usize) -> (p: [isize; 2]) {
        [0, 0]
    }
}

impl BitFragment<CrbitSideOrBlock> for XC2PLAAndTerm {
    const IDX_DIMS: usize = 2;
    const FIELD_COUNT: usize = 2;

    type Fuses = FuseArray;
    type OffsettingType = [isize; 2];
    type MirroringType = [bool; 2];
    type ErrType = ();
    type EncodeExtraType = ();
    type DecodeExtraType = ();

    open spec fn spec_encode_fits(fuses: &FuseArray, offset: [isize; 2], mirror: [bool; 2], extra: ()) -> bool {
        and_term_crbit_fits(fuses, offset, mirror, false)
    }

    open spec fn spec_decode_fits(fuses: &FuseArray, offset: [isize; 2], mirror: [bool; 2], extra: ()) -> bool {
        and_term_crbit_fits(fuses, offset, mirror, false)
    }

    open spec fn spec_field_count() -> nat {
        2
    }

    open spec fn spec_field_name(i: int) -> Seq<char> {
        if i == 0 {
            "input"@
        } else {
            "input_b"@
        }
    }

    open spec fn spec_field_desc(i: int) -> Seq<char> {
        if i == 0 {
            "true inputs"@
        } else {
            "complement inputs"@
        }
    }

    open spec fn spec_field_type(i: int) -> BitFragmentFieldType {
        BitFragmentFieldType::PatternArray(INPUTS_PER_ANDTERM)
    }

    open spec fn spec_field_elems(field_i: int) -> nat {
        40
    }

    open spec fn spec_field_offset(field_i: int, arr_i: int) -> [isize; 2] {
        [0, 0]
    }

    open spec fn spec_field_mirror(field_i: int, arr_i: int) -> [bool; 2] {
        [false, false]
    }

    open spec fn spec_field_bits(field_i: int) -> nat {
        0
    }

    open spec fn spec_field_bit_base_pos(field_i: int, bit_i: int) -> [isize; 2] {
        [0, 0]
    }

    open spec fn spec_encode_result(&self, before: &FuseArray, after: &FuseArray, offset: [isize; 2], mirror: [bool; 2], extra: ()) -> bool {
        crbit::fuses(after) == and_term_crbit_encoded(before, self@, offset, mirror, false)
        && crbit::width(after) == crbit::width(before)
        && crbit::dev_name(after) == crbit::dev_name(before)
    }

    fn encode(&self, fuses: &mut FuseArray, offset: [isize; 2], mirror: [bool; 2], extra_data: ()) {
        and_term_crbit_encode(self, fuses, offset, mirror, false);
    }

    open spec fn spec_decode(fuses: &FuseArray, offset: [isize; 2], mirror: [bool; 2], extra: ()) -> Result<
        XC2PLAAndTerm,
        (),
    > {
        Ok(and_term_of(and_term_crbit_decoded(fuses, offset, mirror, false)))
    }

    fn decode(fuses: &FuseArray, offset: [isize; 2], mirror: [bool; 2], extra_data: ()) -> (r: Result<XC2PLAAndTerm, ()>) {
        let t = and_term_crbit_decode(fuses, offset, mirror, false);
        proof {
            lemma_and_term_of(t);
        }
        Ok(t)
    }

    fn fieldname(i: usize) -> (name: &'static str) {
        if i == 0 {
            "input"
        } else {
            "input_b"
        }
    }

    fn fielddesc(i: usize) -> (desc: &'static str) {
        if i == 0 {
            "true inputs"
        } else {
            "complement inputs"
        }
    }

    fn fieldtype(i: usize) -> (t: BitFragmentFieldType) {
        BitFragmentFieldType::PatternArray(INPUTS_PER_ANDTERM)
    }

    fn field_offset(field_i: usize, arr_i: usize) -> (o: [isize; 2]) {
        [0, 0]
    }

    fn field_mirror(field_i: usize, arr_i: usize) -> (m: [bool; 2]) {
        [false, false]
    }

    fn field_bits(field_i: usize) -> (n: usize) {
        0
    }

    fn field_bit_base_pos(field_i: usize, bit_i: usize) -> (p: [isize; 2]) {
        [0, 0]
    }
}

/// Represents one single OR term in the PLA. Each OR term can perform an OR function on any subset
/// of its inputs.
/// The index for each input is the index of the corresponding AND term in the same PLA.
#[derive(Copy, Clone, Eq, PartialEq, Hash, Debug)]
pub struct XC2PLAOrTerm {
    /// Indicates whether a particular PLA AND term is a part of this OR term.
    ///
    /// `true` = part of or, `false` = not part of or
    input: [u8; 7],
}

impl View for XC2PLAOrTerm {
    /// For each of the 56 AND terms, whether it is part of this OR term.
    type V = Seq<bool>;

    closed spec fn view(&self) -> Seq<bool> {
        packed_bits(self.input@, 56)
    }
}

impl Default for XC2PLAOrTerm {
    /// Returns a "default" OR term. The default state is for none of the inputs to be selected.
    fn default() -> (t: Self)
        ensures
            t@ == no_inputs(56),
    {
        let t = XC2PLAOrTerm { input: [0u8; 7] };
        proof {
            assert forall|i: int| 0 <= i < 56 implies !#[trigger] packed_bit(t.input@, i) by {
                crate::bits::lemma_byte_bit_update(0u8, 0u8, (i % 8) as u8);
            }
            assert(t@ =~= no_inputs(56));
        }
        t
    }
}

impl XC2PLAOrTerm {
    /// Returns `true` if the `i`th AND term is used in this OR term
    pub fn get(&self, i: usize) -> (r: bool)
        requires
            i < ANDTERMS_PER_FB,
        ensures
            r == self@[i as int],
            self@.len() == 56,
    {
        get_packed(&self.input, i)
    }

    /// Sets whether the `i`th AND term is used in this OR term
    pub fn set(&mut self, i: usize, val: bool)
        requires
            i < ANDTERMS_PER_FB,
        ensures
            final(self)@ == old(self)@.update(i as int, val),
            old(self)@.len() == 56,
            final(self)@.len() == 56,
    {
        set_packed(&mut self.input, i, val);
        proof {
            assert(self@ =~= old(self)@.update(i as int, val));
        }
    }

    fn to_bits(&self) -> (b: Vec<bool>)
        ensures
            b@ == self@,
    {
        let mut b: Vec<bool> = Vec::new();
        let mut i: usize = 0;
        while i < 56
            invariant
                i <= 56,
                b@ == self@.take(i as int),
            decreases 56 - i,
        {
            b.push(self.get(i));
            i = i + 1;
            assert(b@ =~= self@.take(i as int));
        }
        assert(self@.take(56) =~= self@);
        b
    }

    fn from_bits(b: &[bool]) -> (t: Self)
        requires
            b@.len() == 56,
        ensures
            t@ == b@,
    {
        let mut t = Self::default();
        let mut i: usize = 0;
        while i < 56
            invariant
                i <= 56,
                b@.len() == 56,
                t@.len() == 56,
                forall|j: int| 0 <= j < i ==> t@[j] == b@[j],
            decreases 56 - i,
        {
            t.set(i, b[i]);
            i = i + 1;
        }
        assert(t@ =~= b@);
        t
    }

    /// Internal function that reads one single OR term from a block of fuses using logical fuse
    /// indexing
    pub fn from_jed(fuses: &[bool], block_idx: usize, term_idx: usize) -> (t: XC2PLAOrTerm)
        requires
            block_idx + term_idx + MCS_PER_FB * (ANDTERMS_PER_FB - 1) < fuses@.len(),
            fuses@.len() <= isize::MAX,
        ensures
            t@ == read_slots(fuses@, Frame::Line { offset: (block_idx + term_idx) as isize, mirror: false }, or_term_jed_layout()),
    {
        proof {
            assert(layout_fits(line_frame([(block_idx + term_idx) as isize], [false]), or_term_jed_layout(), fuses@.len()));
        }
        or_term_jed_decode(fuses, [(block_idx + term_idx) as isize], [false])
    }
}

fn or_term_jed_decode(fuses: &[bool], offset: [isize; 1], mirror: [bool; 1]) -> (t: XC2PLAOrTerm)
    requires
        layout_fits(line_frame(offset, mirror), or_term_jed_layout(), fuses@.len()),
    ensures
        t@ == read_slots(fuses@, line_frame(offset, mirror), or_term_jed_layout()),
{
    let layout = or_term_jed_layout_vec();
    let bits = read_slots_from(fuses, layout.as_slice(), Frame::Line { offset: offset[0], mirror: mirror[0] });
    XC2PLAOrTerm::from_bits(bits.as_slice())
}

/// An OR term is determined by which AND terms it uses.
pub proof fn lemma_or_term_view_injective(a: XC2PLAOrTerm, b: XC2PLAOrTerm)
    requires
        a@ == b@,
    ensures
        a == b,
{
    assert forall|q: int| 0 <= q < 7 implies a.input[q] == b.input[q] by {
        assert forall|k: int| 0 <= k < 8 implies byte_bit(a.input[q], k) == byte_bit(b.input[q], k) by {
            let i = 8 * q + k;
            assert(i / 8 == q && i % 8 == k);
            assert(packed_bits(a.input@, 56)[i] == packed_bit(a.input@, i));
            assert(packed_bits(b.input@, 56)[i] == packed_bit(b.input@, i));
        }
        lemma_byte_bits_ext(a.input[q], b.input[q]);
    }
    assert(a.input =~= b.input);
}

/// The view of an OR term has one entry per AND term.
pub proof fn lemma_or_term_view_len(t: XC2PLAOrTerm)
    ensures
        t@.len() == 56,
{
}

/// Every choice of 56 AND terms is the view of some OR term.
pub proof fn lemma_or_term_of_onto(v: Seq<bool>)
    requires
        v.len() == 56,
    ensures
        or_term_of(v)@ == v,
{
    let t = XC2PLAOrTerm {
        input: [
            pack_at(v, 0),
            pack_at(v, 1),
            pack_at(v, 2),
            pack_at(v, 3),
            pack_at(v, 4),
            pack_at(v, 5),
            pack_at(v, 6),
        ],
    };
    assert forall|i: int| 0 <= i < 56 implies #[trigger] packed_bit(t.input@, i) == v[i] by {
        lemma_pack_at(v, i / 8, i % 8);
    }
    assert(t@ =~= v);
}

/// The OR term with view `v`, where there is one.
pub open spec fn or_term_of(v: Seq<bool>) -> XC2PLAOrTerm {
    choose|t: XC2PLAOrTerm| t@ == v
}

/// Every OR term is the OR term of its view.
pub proof fn lemma_or_term_of(t: XC2PLAOrTerm)
    ensures
        or_term_of(t@) == t,
{
    let u = or_term_of(t@);
    assert(u@ == t@);
    lemma_or_term_view_injective(u, t);
}

/// In the JED fuse list, the bit for AND term `i` of an OR term is at
/// position `16 i` from the term's origin, stored inverted.
pub open spec fn or_term_jed_layout() -> Seq<BitSlot> {
    Seq::new(56, |i: int| BitSlot::At { x: (16 * i) as isize, y: 0, invert: true })
}

fn or_term_jed_layout_vec() -> (v: Vec<BitSlot>)
    ensures
        v@ == or_term_jed_layout(),
{
    let mut v: Vec<BitSlot> = Vec::new();
    let mut i: usize = 0;
    while i < 56
        invariant
            i <= 56,
            v@ == or_term_jed_layout().take(i as int),
        decreases 56 - i,
    {
        v.push(BitSlot::At { x: (MCS_PER_FB * i) as isize, y: 0, invert: true });
        i = i + 1;
        assert(v@ =~= or_term_jed_layout().take(i as int));
    }
    assert(or_term_jed_layout().take(56) =~= or_term_jed_layout());
    v
}

impl BitFragment<Jed> for XC2PLAOrTerm {
    const IDX_DIMS: usize = 1;
    const FIELD_COUNT: usize = 2;

    type Fuses = [bool];
    type OffsettingType = [isize; 1];
    type MirroringType = [bool; 1];
    type ErrType = ();
    type EncodeExtraType = ();
    type DecodeExtraType = ();

    open spec fn spec_encode_fits(fuses: &[bool], offset: [isize; 1], mirror: [bool; 1], extra: ()) -> bool {
        layout_fits(line_frame(offset, mirror), or_term_jed_layout(), fuses@.len())
    }

    open spec fn spec_decode_fits(fuses: &[bool], offset: [isize; 1], mirror: [bool; 1], extra: ()) -> bool {
        layout_fits(line_frame(offset, mirror), or_term_jed_layout(), fuses@.len())
    }

    open spec fn spec_decode(fuses: &[bool], offset: [isize; 1], mirror: [bool; 1], extra: ()) -> Result<
        XC2PLAOrTerm,
        (),
    > {
        Ok(or_term_of(read_slots(fuses@, line_frame(offset, mirror), or_term_jed_layout())))
    }

    open spec fn spec_field_count() -> nat {
        2
    }

    open spec fn spec_field_name(i: int) -> Seq<char> {
        "input"@
    }

    open spec fn spec_field_desc(i: int) -> Seq<char> {
        "inputs"@
    }

    open spec fn spec_field_type(i: int) -> BitFragmentFieldType {
        BitFragmentFieldType::PatternArray(ANDTERMS_PER_FB)
    }

    open spec fn spec_field_elems(field_i: int) -> nat {
        56
    }

    open spec fn spec_field_offset(field_i: int, arr_i: int) -> [isize; 1] {
        [0]
    }

    open spec fn spec_field_mirror(field_i: int, arr_i: int) -> [bool; 1] {
        [false]
    }

    open spec fn spec_field_bits(field_i: int) -> nat {
        0
    }

    open spec fn spec_field_bit_base_pos(field_i: int, bit_i: int) -> [isize; 1] {
        [0]
    }

    open spec fn spec_encode_result(&self, before: &[bool], after: &[bool], offset: [isize; 1], mirror: [bool; 1], extra: ()) -> bool {
        after@ == apply_writes(before@, slot_writes(line_frame(offset, mirror), or_term_jed_layout(), self@))
    }

    fn encode(&self, fuses: &mut [bool], offset: [isize; 1], mirror: [bool; 1], extra_data: ()) {
        let layout = or_term_jed_layout_vec();
        let bits = self.to_bits();
        write_slots(fuses, layout.as_slice(), bits.as_slice(), Frame::Line { offset: offset[0], mirror: mirror[0] });
    }

    fn decode(fuses: &[bool], offset: [isize; 1], mirror: [bool; 1], extra_data: ()) -> (r: Result<XC2PLAOrTerm, ()>) {
        let t = or_term_jed_decode(fuses, offset, mirror);
        proof {
            lemma_or_term_of(t);
        }
        Ok(t)
    }

    fn fieldname(i: usize) -> (name: &'static str) {
        "input"
    }

    fn fielddesc(i: usize) -> (desc: &'static str) {
        "inputs"
    }

    fn fieldtype(i: usize) -> (t: BitFragmentFieldType) {
        BitFragmentFieldType::PatternArray(ANDTERMS_PER_FB)
    }

    fn field_offset(field_i: usize, arr_i: usize) -> (o: [isize; 1]) {
        [0]
    }

    fn field_mirror(field_i: usize, arr_i: usize) -> (m: [bool; 1]) {
        [false]
    }

    fn field_bits(field_i: usize) -> (n: usize) {
        0
    }

    fn field_bit_base_pos(field_i: usize, bit_i: usize) -> (p: [isize; 1]) {
        [0]
    }
}

/// The fuses `s` after storing, at the JED placement (`offset`, `mirror`),
/// the AND term with view `v`.
pub open spec fn and_term_jed_encoded(s: Seq<bool>, v: (Seq<bool>, Seq<bool>), offset: [isize; 1], mirror: [bool; 1]) -> Seq<bool> {
    apply_writes(s, slot_writes(line_frame(offset, mirror), and_term_jed_layout(), and_term_bits(v)))
}

/// The view of the AND term stored in fuses `s` at the JED placement
/// (`offset`, `mirror`).
pub open spec fn and_term_jed_decoded(s: Seq<bool>, offset: [isize; 1], mirror: [bool; 1]) -> (Seq<bool>, Seq<bool>) {
    and_term_from_bits(read_slots(s, line_frame(offset, mirror), and_term_jed_layout()))
}

proof fn lemma_and_term_bits_roundtrip(v: (Seq<bool>, Seq<bool>))
    requires
        v.0.len() == 40,
        v.1.len() == 40,
    ensures
        and_term_from_bits(and_term_bits(v)) == v,
{
    let b = and_term_bits(v);
    assert forall|i: int| 0 <= i < 40 implies b[2 * i] == v.0[i] && b[2 * i + 1] == v.1[i] by {
        assert((2 * i) % 2 == 0 && (2 * i) / 2 == i);
        assert((2 * i + 1) % 2 == 1 && (2 * i + 1) / 2 == i);
    }
    assert(and_term_from_bits(b).0 =~= v.0);
    assert(and_term_from_bits(b).1 =~= v.1);
}

proof fn lemma_and_term_from_bits_roundtrip(b: Seq<bool>)
    requires
        b.len() == 80,
    ensures
        and_term_bits(and_term_from_bits(b)) == b,
{
    let v = and_term_from_bits(b);
    assert forall|k: int| 0 <= k < 80 implies #[trigger] and_term_bits(v)[k] == b[k] by {
        if k % 2 == 0 {
            assert(2 * (k / 2) == k);
        } else {
            assert(2 * (k / 2) + 1 == k);
        }
    }
    assert(and_term_bits(v) =~= b);
}

proof fn lemma_and_term_jed_distinct(offset: [isize; 1], mirror: [bool; 1])
    ensures
        layout_distinct(line_frame(offset, mirror), and_term_jed_layout()),
        fixed_agree(and_term_jed_layout(), Seq::new(80, |_k: int| false)),
{
}

/// Decoding an AND term from the JED fuse list at the placement where it
/// was just encoded gives the AND term back.
pub proof fn lemma_and_term_jed_roundtrip(s: Seq<bool>, t: XC2PLAAndTerm, offset: [isize; 1], mirror: [bool; 1])
    requires
        layout_fits(line_frame(offset, mirror), and_term_jed_layout(), s.len()),
    ensures
        and_term_jed_decoded(and_term_jed_encoded(s, t@, offset, mirror), offset, mirror) == t@,
        and_term_of(and_term_jed_decoded(and_term_jed_encoded(s, t@, offset, mirror), offset, mirror)) == t,
{
    lemma_and_term_jed_distinct(offset, mirror);
    lemma_read_after_write(s, line_frame(offset, mirror), and_term_jed_layout(), and_term_bits(t@));
    lemma_and_term_bits_roundtrip(t@);
    lemma_and_term_of(t);
}

/// Encoding, into the JED fuse list, the AND term just decoded from the same
/// placement leaves the fuses as they were.
pub proof fn lemma_and_term_jed_rewrite(s: Seq<bool>, offset: [isize; 1], mirror: [bool; 1])
    requires
        layout_fits(line_frame(offset, mirror), and_term_jed_layout(), s.len()),
    ensures
        and_term_jed_encoded(s, and_term_jed_decoded(s, offset, mirror), offset, mirror) == s,
{
    lemma_write_what_was_read(s, line_frame(offset, mirror), and_term_jed_layout());
    lemma_and_term_from_bits_roundtrip(read_slots(s, line_frame(offset, mirror), and_term_jed_layout()));
}

/// Distinct grid positions on columns at most one apart have distinct
/// storage indices in a grid at least two columns wide.
proof fn lemma_grid_index_distinct(gy1: int, gx1: int, gy2: int, gx2: int, w: int)
    requires
        w >= 2,
        -1 <= gx1 - gx2 <= 1,
        gy1 != gy2 || gx1 != gx2,
    ensures
        gy1 * w + gx1 != gy2 * w + gx2,
{
    if gy1 > gy2 {
        assert(gy1 * w - gy2 * w >= 2) by (nonlinear_arith)
            requires
                gy1 - gy2 >= 1,
                w >= 2,
        ;
    } else if gy1 < gy2 {
        assert(gy2 * w - gy1 * w >= 2) by (nonlinear_arith)
            requires
                gy2 - gy1 >= 1,
                w >= 2,
        ;
    }
}

proof fn lemma_and_term_crbit_distinct(w: usize, offset: [isize; 2], mirror: [bool; 2], gap: bool, len: nat)
    requires
        w >= 2,
        layout_fits(grid_frame(w, offset, mirror), and_term_crbit_layout(gap), len),
    ensures
        layout_distinct(grid_frame(w, offset, mirror), and_term_crbit_layout(gap)),
{
    let f = grid_frame(w, offset, mirror);
    let l = and_term_crbit_layout(gap);
    assert forall|i: int, j: int|
        0 <= i < l.len() && 0 <= j < l.len() && i != j && l[i] is At && l[j] is At
            implies slot_index(f, #[trigger] l[i]) != slot_index(f, #[trigger] l[j]) by {
        assert(crate::bitfragment::slot_fits(f, l[i], len));
        assert(crate::bitfragment::slot_fits(f, l[j], len));
        let xi: int = if i % 2 == 0 { 1 } else { 0 };
        let xj: int = if j % 2 == 0 { 1 } else { 0 };
        let gxi = place(offset[0] as int, mirror[0], xi);
        let gxj = place(offset[0] as int, mirror[0], xj);
        let gyi = place(offset[1] as int, mirror[1], and_term_crbit_row(gap, i / 2));
        let gyj = place(offset[1] as int, mirror[1], and_term_crbit_row(gap, j / 2));
        assert(slot_index(f, l[i]) == gyi * w + gxi);
        assert(slot_index(f, l[j]) == gyj * w + gxj);
        if i % 2 == j % 2 {
            assert(i / 2 != j / 2);
        }
        lemma_grid_index_distinct(gyi, gxi, gyj, gxj, w as int);
    }
}

/// Decoding an AND term from a crbit array at the placement where it was
/// just encoded gives the AND term back, in any array at least two columns
/// wide.
pub proof fn lemma_and_term_crbit_roundtrip(
    a: FuseArray,
    b: FuseArray,
    t: XC2PLAAndTerm,
    offset: [isize; 2],
    mirror: [bool; 2],
    gap: bool,
)
    requires
        crbit::width(&a) >= 2,
        and_term_crbit_fits(&a, offset, mirror, gap),
        crbit::fuses(&b) == and_term_crbit_encoded(&a, t@, offset, mirror, gap),
        crbit::width(&b) == crbit::width(&a),
    ensures
        and_term_crbit_decoded(&b, offset, mirror, gap) == t@,
        and_term_of(and_term_crbit_decoded(&b, offset, mirror, gap)) == t,
{
    crbit::lemma_width_bound(&a);
    let f = grid_frame(crbit::width(&a) as usize, offset, mirror);
    lemma_and_term_crbit_distinct(crbit::width(&a) as usize, offset, mirror, gap, crbit::fuses(&a).len());
    lemma_read_after_write(crbit::fuses(&a), f, and_term_crbit_layout(gap), and_term_bits(t@));
    lemma_and_term_bits_roundtrip(t@);
    lemma_and_term_of(t);
}

/// Encoding, into a crbit array, the AND term just decoded from the same
/// placement leaves the fuses as they were.
pub proof fn lemma_and_term_crbit_rewrite(a: FuseArray, offset: [isize; 2], mirror: [bool; 2], gap: bool)
    requires
        and_term_crbit_fits(&a, offset, mirror, gap),
    ensures
        and_term_crbit_encoded(&a, and_term_crbit_decoded(&a, offset, mirror, gap), offset, mirror, gap)
            == crbit::fuses(&a),
{
    let f = grid_frame(crbit::width(&a) as usize, offset, mirror);
    lemma_write_what_was_read(crbit::fuses(&a), f, and_term_crbit_layout(gap));
    lemma_and_term_from_bits_roundtrip(read_slots(crbit::fuses(&a), f, and_term_crbit_layout(gap)));
}

/// Decoding an OR term from the JED fuse list at the placement where it was
/// just encoded gives the OR term back.
pub proof fn lemma_or_term_jed_roundtrip(s: Seq<bool>, t: XC2PLAOrTerm, offset: [isize; 1], mirror: [bool; 1])
    requires
        layout_fits(line_frame(offset, mirror), or_term_jed_layout(), s.len()),
    ensures
        read_slots(
            apply_writes(s, slot_writes(line_frame(offset, mirror), or_term_jed_layout(), t@)),
            line_frame(offset, mirror),
            or_term_jed_layout(),
        ) == t@,
        or_term_of(
            read_slots(
                apply_writes(s, slot_writes(line_frame(offset, mirror), or_term_jed_layout(), t@)),
                line_frame(offset, mirror),
                or_term_jed_layout(),
            ),
        ) == t,
{
    let f = line_frame(offset, mirror);
    let l = or_term_jed_layout();
    assert(layout_distinct(f, l)) by {
        assert forall|i: int, j: int|
            0 <= i < l.len() && 0 <= j < l.len() && i != j && l[i] is At && l[j] is At
                implies slot_index(f, #[trigger] l[i]) != slot_index(f, #[trigger] l[j]) by {
            assert(slot_index(f, l[i]) == place(offset[0] as int, mirror[0], 16 * i));
            assert(slot_index(f, l[j]) == place(offset[0] as int, mirror[0], 16 * j));
        }
    }
    lemma_read_after_write(s, f, l, t@);
    lemma_or_term_of(t);
}

/// Encoding, into the JED fuse list, the OR term just decoded from the same
/// placement leaves the fuses as they were.
pub proof fn lemma_or_term_jed_rewrite(s: Seq<bool>, offset: [isize; 1], mirror: [bool; 1])
    requires
        layout_fits(line_frame(offset, mirror), or_term_jed_layout(), s.len()),
    ensures
        apply_writes(
            s,
            slot_writes(
                line_frame(offset, mirror),
                or_term_jed_layout(),
                read_slots(s, line_frame(offset, mirror), or_term_jed_layout()),
            ),
        ) == s,
{
    lemma_write_what_was_read(s, line_frame(offset, mirror), or_term_jed_layout());
}

/// Encoding an AND term into the JED fuse list stores whether input `i` is
/// used at position `2 i` from the term's origin and whether its complement
/// is used at `2 i + 1` (counted backwards when mirrored); each fuse holds
/// the complement, so a used input is a cleared fuse.
pub proof fn lemma_and_term_jed_places(
    t: XC2PLAAndTerm,
    before: &[bool],
    after: &[bool],
    offset: [isize; 1],
    mirror: [bool; 1],
)
    requires
        <XC2PLAAndTerm as BitFragment<Jed>>::spec_encode_fits(before, offset, mirror, ()),
        <XC2PLAAndTerm as BitFragment<Jed>>::spec_encode_result(&t, before, after, offset, mirror, ()),
    ensures
        forall|i: int|
            #![trigger t@.0[i]]
            0 <= i < 40 ==> after@[place(offset[0] as int, mirror[0], 2 * i)] == !t@.0[i] && after@[place(
                offset[0] as int,
                mirror[0],
                2 * i + 1,
            )] == !t@.1[i],
{
    let f = line_frame(offset, mirror);
    let l = and_term_jed_layout();
    let bits = and_term_bits(t@);
    lemma_and_term_jed_distinct(offset, mirror);
    assert(fixed_agree(l, bits));
    lemma_read_after_write(before@, f, l, bits);
    assert forall|i: int| 0 <= i < 40 implies after@[place(offset[0] as int, mirror[0], 2 * i)] == !t@.0[i]
        && after@[place(offset[0] as int, mirror[0], 2 * i + 1)] == !t@.1[i] by {
        assert((2 * i) % 2 == 0 && (2 * i) / 2 == i);
        assert((2 * i + 1) % 2 == 1 && (2 * i + 1) / 2 == i);
        assert(read_slots(after@, f, l)[2 * i] == bits[2 * i]);
        assert(read_slots(after@, f, l)[2 * i + 1] == bits[2 * i + 1]);
    }
}

/// Encoding an AND term into a crbit array at the central position stores
/// whether input `i` is used one column from the term's origin and whether
/// its complement is used on the origin's column, both on row `i` from the
/// origin for the first 20 inputs and row `i + 8` for the others (counted
/// backwards along a mirrored axis); each fuse holds the complement.
pub proof fn lemma_and_term_crbit_central_places(
    t: XC2PLAAndTerm,
    before: FuseArray,
    after: FuseArray,
    offset: [isize; 2],
    mirror: [bool; 2],
)
    requires
        <XC2PLAAndTerm as BitFragment<CrbitCentralOrBlock>>::spec_encode_fits(&before, offset, mirror, ()),
        crbit::grid_columns_inside(crbit::width(&before), offset, mirror, 0, 1),
        <XC2PLAAndTerm as BitFragment<CrbitCentralOrBlock>>::spec_encode_result(&t, &before, &after, offset, mirror, ()),
    ensures
        forall|i: int|
            #![trigger t@.0[i]]
            0 <= i < 40 ==> crbit::fuses(&after)[crbit::grid_cell(
                crbit::width(&before),
                offset,
                mirror,
                1,
                if i < 20 { i } else { i + 8 },
            )] == !t@.0[i] && crbit::fuses(&after)[crbit::grid_cell(
                crbit::width(&before),
                offset,
                mirror,
                0,
                if i < 20 { i } else { i + 8 },
            )] == !t@.1[i],
{
    lemma_and_term_crbit_places(t, before, after, offset, mirror, true);
    assert forall|i: int| 0 <= i < 40 implies crbit::fuses(&after)[crbit::grid_cell(
        crbit::width(&before),
        offset,
        mirror,
        1,
        if i < 20 { i } else { i + 8 },
    )] == !t@.0[i] && crbit::fuses(&after)[crbit::grid_cell(
        crbit::width(&before),
        offset,
        mirror,
        0,
        if i < 20 { i } else { i + 8 },
    )] == !t@.1[i] by {
        assert(and_term_crbit_row(true, i) == if i < 20 { i } else { i + 8 });
    }
}

/// Encoding an AND term into a crbit array at a side position stores
/// whether input `i` is used one column from the term's origin and whether
/// its complement is used on the origin's column, both on row `i` from the
/// origin (counted backwards along a mirrored axis); each fuse holds the
/// complement.
pub proof fn lemma_and_term_crbit_side_places(
    t: XC2PLAAndTerm,
    before: FuseArray,
    after: FuseArray,
    offset: [isize; 2],
    mirror: [bool; 2],
)
    requires
        <XC2PLAAndTerm as BitFragment<CrbitSideOrBlock>>::spec_encode_fits(&before, offset, mirror, ()),
        crbit::grid_columns_inside(crbit::width(&before), offset, mirror, 0, 1),
        <XC2PLAAndTerm as BitFragment<CrbitSideOrBlock>>::spec_encode_result(&t, &before, &after, offset, mirror, ()),
    ensures
        forall|i: int|
            #![trigger t@.0[i]]
            0 <= i < 40 ==> crbit::fuses(&after)[crbit::grid_cell(crbit::width(&before), offset, mirror, 1, i)]
                == !t@.0[i] && crbit::fuses(&after)[crbit::grid_cell(crbit::width(&before), offset, mirror, 0, i)]
                == !t@.1[i],
{
    lemma_and_term_crbit_places(t, before, after, offset, mirror, false);
    assert forall|i: int| 0 <= i < 40 implies crbit::fuses(&after)[crbit::grid_cell(
        crbit::width(&before),
        offset,
        mirror,
        1,
        i,
    )] == !t@.0[i] && crbit::fuses(&after)[crbit::grid_cell(crbit::width(&before), offset, mirror, 0, i)]
        == !t@.1[i] by {
        assert(and_term_crbit_row(false, i) == i);
    }
}

proof fn lemma_and_term_crbit_places(
    t: XC2PLAAndTerm,
    before: FuseArray,
    after: FuseArray,
    offset: [isize; 2],
    mirror: [bool; 2],
    gap: bool,
)
    requires
        and_term_crbit_fits(&before, offset, mirror, gap),
        crbit::grid_columns_inside(crbit::width(&before), offset, mirror, 0, 1),
        crbit::fuses(&after) == and_term_crbit_encoded(&before, t@, offset, mirror, gap),
    ensures
        forall|i: int|
            #![trigger t@.0[i]]
            0 <= i < 40 ==> crbit::fuses(&after)[crbit::grid_cell(
                crbit::width(&before),
                offset,
                mirror,
                1,
                and_term_crbit_row(gap, i),
            )] == !t@.0[i] && crbit::fuses(&after)[crbit::grid_cell(
                crbit::width(&before),
                offset,
                mirror,
                0,
                and_term_crbit_row(gap, i),
            )] == !t@.1[i],
{
    crbit::lemma_width_bound(&before);
    let w = crbit::width(&before);
    let f = grid_frame(w as usize, offset, mirror);
    let l = and_term_crbit_layout(gap);
    let bits = and_term_bits(t@);
    let s = crbit::fuses(&before);
    lemma_and_term_crbit_distinct(w as usize, offset, mirror, gap, s.len());
    assert(fixed_agree(l, bits));
    lemma_read_after_write(s, f, l, bits);
    assert forall|i: int| 0 <= i < 40 implies crbit::fuses(&after)[crbit::grid_cell(
        w,
        offset,
        mirror,
        1,
        and_term_crbit_row(gap, i),
    )] == !t@.0[i] && crbit::fuses(&after)[crbit::grid_cell(w, offset, mirror, 0, and_term_crbit_row(gap, i))]
        == !t@.1[i] by {
        assert((2 * i) % 2 == 0 && (2 * i) / 2 == i);
        assert((2 * i + 1) % 2 == 1 && (2 * i + 1) / 2 == i);
        assert(crate::bitfragment::slot_fits(f, l[2 * i], s.len()));
        assert(crate::bitfragment::slot_fits(f, l[2 * i + 1], s.len()));
        assert(read_slots(crbit::fuses(&after), f, l)[2 * i] == bits[2 * i]);
        assert(read_slots(crbit::fuses(&after), f, l)[2 * i + 1] == bits[2 * i + 1]);
    }
}

/// Encoding an OR term into the JED fuse list stores whether AND term `i`
/// is used at position `16 i` from the term's origin (counted backwards when
/// mirrored); each fuse holds the complement, so a used AND term is a
/// cleared fuse.
pub proof fn lemma_or_term_jed_places(t: XC2PLAOrTerm, before: &[bool], after: &[bool], offset: [isize; 1], mirror: [bool; 1])
    requires
        <XC2PLAOrTerm as BitFragment<Jed>>::spec_encode_fits(before, offset, mirror, ()),
        <XC2PLAOrTerm as BitFragment<Jed>>::spec_encode_result(&t, before, after, offset, mirror, ()),
    ensures
        forall|i: int| #![trigger t@[i]] 0 <= i < 56 ==> after@[place(offset[0] as int, mirror[0], 16 * i)] == !t@[i],
{
    let f = line_frame(offset, mirror);
    let l = or_term_jed_layout();
    lemma_or_term_jed_roundtrip(before@, t, offset, mirror);
    lemma_or_term_view_len(t);
    assert forall|i: int| 0 <= i < 56 implies after@[place(offset[0] as int, mirror[0], 16 * i)] == !t@[i] by {
        assert(read_slots(after@, f, l)[i] == t@[i]);
    }
}

/// Encoding an AND term into the JED fuse list keeps the number of fuses
/// and changes no fuse but the 80 at positions `0 .. 80` from the origin
/// (counted backwards when mirrored).
pub proof fn lemma_and_term_jed_leaves_others(s: Seq<bool>, t: XC2PLAAndTerm, offset: [isize; 1], mirror: [bool; 1])
    requires
        layout_fits(line_frame(offset, mirror), and_term_jed_layout(), s.len()),
    ensures
        and_term_jed_encoded(s, t@, offset, mirror).len() == s.len(),
        forall|k: int|
            0 <= k < s.len() && (forall|p: int| 0 <= p < 80 ==> k != #[trigger] place(offset[0] as int, mirror[0], p))
                ==> #[trigger] and_term_jed_encoded(s, t@, offset, mirror)[k] == s[k],
{
    let f = line_frame(offset, mirror);
    let l = and_term_jed_layout();
    assert forall|k: int|
        0 <= k < s.len() && (forall|p: int| 0 <= p < 80 ==> k != #[trigger] place(offset[0] as int, mirror[0], p))
            implies #[trigger] and_term_jed_encoded(s, t@, offset, mirror)[k] == s[k] by {
        assert forall|i: int| 0 <= i < l.len() && l[i] is At implies slot_index(f, #[trigger] l[i]) != k by {
            assert(slot_index(f, l[i]) == place(offset[0] as int, mirror[0], i));
        }
        lemma_write_leaves_others(s, f, l, and_term_bits(t@), k);
    }
    lemma_fragment_writes_len(s, f, l, and_term_bits(t@));
}

/// Encoding an AND term into a crbit array keeps the number of fuses and
/// changes no fuse but those the 80 slots of its layout land on.
pub proof fn lemma_and_term_crbit_leaves_others(
    a: FuseArray,
    t: XC2PLAAndTerm,
    offset: [isize; 2],
    mirror: [bool; 2],
    gap: bool,
)
    requires
        and_term_crbit_fits(&a, offset, mirror, gap),
    ensures
        and_term_crbit_encoded(&a, t@, offset, mirror, gap).len() == crbit::fuses(&a).len(),
        forall|k: int|
            0 <= k < crbit::fuses(&a).len() && (forall|i: int|
                0 <= i < 80 ==> k != #[trigger] slot_index(
                    grid_frame(crbit::width(&a) as usize, offset, mirror),
                    and_term_crbit_layout(gap)[i],
                )) ==> #[trigger] and_term_crbit_encoded(&a, t@, offset, mirror, gap)[k] == crbit::fuses(&a)[k],
{
    let f = grid_frame(crbit::width(&a) as usize, offset, mirror);
    let l = and_term_crbit_layout(gap);
    let s = crbit::fuses(&a);
    assert forall|k: int|
        0 <= k < s.len() && (forall|i: int| 0 <= i < 80 ==> k != #[trigger] slot_index(f, l[i]))
            implies #[trigger] and_term_crbit_encoded(&a, t@, offset, mirror, gap)[k] == s[k] by {
        lemma_write_leaves_others(s, f, l, and_term_bits(t@), k);
    }
    lemma_fragment_writes_len(s, f, l, and_term_bits(t@));
}

} // verus!
