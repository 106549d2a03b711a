//! Bit fragments: values laid out bit by bit at chosen positions of a fuse
//! array, which may be one-dimensional (a `[bool]`) or two-dimensional (a
//! grid stored row by row in a `[bool]`).
//!
//! A layout gives, for each bit of a value, either a position (relative to
//! the fragment's origin, possibly inverted) or a fixed value that is not
//! stored at all. A frame places the fragment: an offset and, per axis, a
//! mirror flag that makes positions count backwards from the offset.
use vstd::prelude::*;

verus! {

/// What kind of field a fragment field is.
#[derive(Copy, Clone, Eq, PartialEq, Debug, Structural)]
pub enum BitFragmentFieldType {
    Pattern,
    Fragment,
    PatternArray(usize),
    FragmentArray(usize),
}

/// Where one bit of a value lives.
#[derive(Copy, Clone, Eq, PartialEq, Debug, Structural)]
pub enum BitSlot {
    /// At position (`x`, `y`) relative to the fragment origin; when
    /// `invert` holds the fuse stores the complement of the bit.
    At { x: isize, y: isize, invert: bool },
    /// Not stored: decoding always gives this value and encoding writes nothing.
    Fixed(bool),
}

/// How fragment-relative positions map onto the fuse storage.
#[derive(Copy, Clone, Eq, PartialEq, Debug, Structural)]
pub enum Frame {
    /// A one-dimensional array; only the `x` position is used.
    Line { offset: isize, mirror: bool },
    /// A grid of `width` columns stored row by row; position (`x`, `y`) is
    /// stored at index `y * width + x`.
    Grid { offset_x: isize, offset_y: isize, mirror_x: bool, mirror_y: bool, width: usize },
}

/// Position `p` counted from origin `o`, backwards when `m` holds.
pub open spec fn place(o: int, m: bool, p: int) -> int {
    if m {
        o - p
    } else {
        o + p
    }
}

/// The index in the fuse storage of fragment position (`x`, `y`), if the
/// position lands on the storage's grid.
pub open spec fn frame_index(f: Frame, x: int, y: int) -> Option<int> {
    match f {
        Frame::Line { offset, mirror } => Some(place(offset as int, mirror, x)),
        Frame::Grid { offset_x, offset_y, mirror_x, mirror_y, width } => {
            let gx = place(offset_x as int, mirror_x, x);
            let gy = place(offset_y as int, mirror_y, y);
            if 0 <= gx && 0 <= gy {
                Some(gy * width + gx)
            } else {
                None
            }
        },
    }
}

/// Whether a slot lands inside a storage of `len` fuses.
pub open spec fn slot_fits(f: Frame, s: BitSlot, len: nat) -> bool {
    match s {
        BitSlot::At { x, y, invert } => match frame_index(f, x as int, y as int) {
            Some(k) => 0 <= k < len,
            None => false,
        },
        BitSlot::Fixed(_) => true,
    }
}

/// Whether every slot of a layout lands inside a storage of `len` fuses.
pub open spec fn layout_fits(f: Frame, layout: Seq<BitSlot>, len: nat) -> bool {
    forall|i: int| 0 <= i < layout.len() ==> slot_fits(f, #[trigger] layout[i], len)
}

/// The storage index of a stored slot.
pub open spec fn slot_index(f: Frame, s: BitSlot) -> int {
    match s {
        BitSlot::At { x, y, invert } => frame_index(f, x as int, y as int).unwrap(),
        BitSlot::Fixed(_) => -1,
    }
}

/// No two stored slots of a layout share a storage index.
pub open spec fn layout_distinct(f: Frame, layout: Seq<BitSlot>) -> bool {
    forall|i: int, j: int|
        0 <= i < layout.len() && 0 <= j < layout.len() && i != j && layout[i] is At && layout[j] is At
            ==> slot_index(f, #[trigger] layout[i]) != slot_index(f, #[trigger] layout[j])
}

/// The bits agree with the fixed slots of the layout.
pub open spec fn fixed_agree(layout: Seq<BitSlot>, bits: Seq<bool>) -> bool {
    forall|i: int|
        0 <= i < layout.len() ==> match #[trigger] layout[i] {
            BitSlot::Fixed(v) => bits[i] == v,
            BitSlot::At { .. } => true,
        }
}

/// The write that storing bit `b` in slot `s` performs.
pub open spec fn slot_write(f: Frame, s: BitSlot, b: bool) -> Option<(int, bool)> {
    match s {
        BitSlot::At { x, y, invert } => Some((slot_index(f, s), b != invert)),
        BitSlot::Fixed(_) => None,
    }
}

/// The writes, in order, that storing `bits` with `layout` performs.
pub open spec fn slot_writes(f: Frame, layout: Seq<BitSlot>, bits: Seq<bool>) -> Seq<
    Option<(int, bool)>,
> {
    Seq::new(layout.len(), |i: int| slot_write(f, layout[i], bits[i]))
}

/// The fuses after performing the writes `w` in order.
pub open spec fn apply_writes(s: Seq<bool>, w: Seq<Option<(int, bool)>>) -> Seq<bool>
    decreases w.len(),
{
    if w.len() == 0 {
        s
    } else {
        let s2 = apply_writes(s, w.drop_last());
        match w.last() {
            Some((k, b)) => s2.update(k, b),
            None => s2,
        }
    }
}

/// The bit that slot `sl` holds in fuses `s`.
pub open spec fn slot_read(s: Seq<bool>, f: Frame, sl: BitSlot) -> bool {
    match sl {
        BitSlot::At { x, y, invert } => s[slot_index(f, sl)] != invert,
        BitSlot::Fixed(v) => v,
    }
}

/// The bits that `layout` holds in fuses `s`.
pub open spec fn read_slots(s: Seq<bool>, f: Frame, layout: Seq<BitSlot>) -> Seq<bool> {
    Seq::new(layout.len(), |i: int| slot_read(s, f, layout[i]))
}

/// Whether write `w` targets index `k`.
pub open spec fn write_targets(w: Option<(int, bool)>, k: int) -> bool {
    match w {
        Some((j, _)) => j == k,
        None => false,
    }
}

/// Every write targets an index below `len`.
pub open spec fn writes_in_bounds(w: Seq<Option<(int, bool)>>, len: nat) -> bool {
    forall|j: int|
        0 <= j < w.len() ==> match #[trigger] w[j] {
            Some((k, _)) => 0 <= k < len,
            None => true,
        }
}

/// Writes inside the storage keep its length.
pub proof fn lemma_apply_writes_len(s: Seq<bool>, w: Seq<Option<(int, bool)>>)
    requires
        writes_in_bounds(w, s.len()),
    ensures
        apply_writes(s, w).len() == s.len(),
    decreases w.len(),
{
    if w.len() > 0 {
        assert(writes_in_bounds(w.drop_last(), s.len())) by {
            assert forall|j: int| 0 <= j < w.len() - 1 implies w.drop_last()[j] == w[j] by {}
        }
        lemma_apply_writes_len(s, w.drop_last());
    }
}

/// An index that no write targets keeps its value.
pub proof fn lemma_apply_writes_untouched(s: Seq<bool>, w: Seq<Option<(int, bool)>>, k: int)
    requires
        writes_in_bounds(w, s.len()),
        0 <= k < s.len(),
        forall|j: int| 0 <= j < w.len() ==> !write_targets(#[trigger] w[j], k),
    ensures
        apply_writes(s, w)[k] == s[k],
    decreases w.len(),
{
    if w.len() > 0 {
        assert(writes_in_bounds(w.drop_last(), s.len())) by {
            assert forall|j: int| 0 <= j < w.len() - 1 implies w.drop_last()[j] == w[j] by {}
        }
        lemma_apply_writes_len(s, w.drop_last());
        assert forall|j: int| 0 <= j < w.len() - 1 implies !write_targets(
            #[trigger] w.drop_last()[j],
            k,
        ) by {
            assert(w.drop_last()[j] == w[j]);
        }
        lemma_apply_writes_untouched(s, w.drop_last(), k);
        assert(!write_targets(w[w.len() - 1], k));
    }
}

/// An index that exactly one write targets holds that write's value.
pub proof fn lemma_apply_writes_unique(s: Seq<bool>, w: Seq<Option<(int, bool)>>, j: int)
    requires
        writes_in_bounds(w, s.len()),
        0 <= j < w.len(),
        w[j] is Some,
        forall|i: int|
            0 <= i < w.len() && i != j ==> !write_targets(#[trigger] w[i], w[j].unwrap().0),
    ensures
        apply_writes(s, w)[w[j].unwrap().0] == w[j].unwrap().1,
    decreases w.len(),
{
    let k = w[j].unwrap().0;
    let prefix = w.drop_last();
    assert(writes_in_bounds(prefix, s.len())) by {
        assert forall|i: int| 0 <= i < prefix.len() implies prefix[i] == w[i] by {}
    }
    assert(w[j] == Some((k, w[j].unwrap().1)));
    assert(0 <= k < s.len());
    lemma_apply_writes_len(s, prefix);
    if j == w.len() - 1 {
        assert forall|i: int| 0 <= i < prefix.len() implies !write_targets(#[trigger] prefix[i], k) by {
            assert(prefix[i] == w[i]);
        }
        lemma_apply_writes_untouched(s, prefix, k);
    } else {
        assert(prefix[j] == w[j]);
        assert forall|i: int| 0 <= i < prefix.len() && i != j implies !write_targets(
            #[trigger] prefix[i],
            k,
        ) by {
            assert(prefix[i] == w[i]);
        }
        lemma_apply_writes_unique(s, prefix, j);
        assert(!write_targets(w[w.len() - 1], k));
    }
}

/// Reading back what was just written gives the written bits: the
/// round-trip law of bit fragments, when no two stored slots share a fuse.
pub proof fn lemma_read_after_write(s: Seq<bool>, f: Frame, layout: Seq<BitSlot>, bits: Seq<bool>)
    requires
        layout_fits(f, layout, s.len()),
        layout_distinct(f, layout),
        fixed_agree(layout, bits),
        bits.len() == layout.len(),
    ensures
        read_slots(apply_writes(s, slot_writes(f, layout, bits)), f, layout) == bits,
{
    let w = slot_writes(f, layout, bits);
    let t = apply_writes(s, w);
    assert(writes_in_bounds(w, s.len())) by {
        assert forall|j: int| 0 <= j < w.len() implies match #[trigger] w[j] {
            Some((k, _)) => 0 <= k < s.len(),
            None => true,
        } by {
            assert(slot_fits(f, layout[j], s.len()));
        }
    }
    lemma_apply_writes_len(s, w);
    assert forall|i: int| 0 <= i < layout.len() implies #[trigger] read_slots(t, f, layout)[i]
        == bits[i] by {
        match layout[i] {
            BitSlot::At { x, y, invert } => {
                assert(slot_fits(f, layout[i], s.len()));
                assert forall|j: int| 0 <= j < w.len() && j != i implies !write_targets(
                    #[trigger] w[j],
                    w[i].unwrap().0,
                ) by {
                    if layout[j] is At {
                        assert(slot_index(f, layout[i]) != slot_index(f, layout[j]));
                    }
                }
                lemma_apply_writes_unique(s, w, i);
            },
            BitSlot::Fixed(v) => {
                assert(fixed_agree(layout, bits));
            },
        }
    }
    assert(read_slots(t, f, layout) =~= bits);
}

/// Writing back the bits just read leaves the fuses as they were.
pub proof fn lemma_write_what_was_read(s: Seq<bool>, f: Frame, layout: Seq<BitSlot>)
    requires
        layout_fits(f, layout, s.len()),
    ensures
        apply_writes(s, slot_writes(f, layout, read_slots(s, f, layout))) == s,
{
    let w = slot_writes(f, layout, read_slots(s, f, layout));
    lemma_write_what_was_read_prefix(s, f, layout, w, w.len() as int);
    assert(w.take(w.len() as int) =~= w);
}

proof fn lemma_write_what_was_read_prefix(
    s: Seq<bool>,
    f: Frame,
    layout: Seq<BitSlot>,
    w: Seq<Option<(int, bool)>>,
    n: int,
)
    requires
        layout_fits(f, layout, s.len()),
        w == slot_writes(f, layout, read_slots(s, f, layout)),
        0 <= n <= w.len(),
    ensures
        apply_writes(s, w.take(n)) == s,
    decreases n,
{
    if n > 0 {
        lemma_write_what_was_read_prefix(s, f, layout, w, n - 1);
        assert(w.take(n).drop_last() =~= w.take(n - 1));
        let i = n - 1;
        assert(slot_fits(f, layout[i], s.len()));
        match layout[i] {
            BitSlot::At { x, y, invert } => {
                let k = slot_index(f, layout[i]);
                assert(w.take(n).last() == Some((k, s[k])));
                assert(s.update(k, s[k]) =~= s);
            },
            BitSlot::Fixed(_) => {},
        }
    } else {
        assert(w.take(0) =~= Seq::<Option<(int, bool)>>::empty());
    }
}

/// Fuses that no stored slot of the layout lands on keep their value.
pub proof fn lemma_write_leaves_others(
    s: Seq<bool>,
    f: Frame,
    layout: Seq<BitSlot>,
    bits: Seq<bool>,
    k: int,
)
    requires
        layout_fits(f, layout, s.len()),
        bits.len() == layout.len(),
        0 <= k < s.len(),
        forall|i: int| 0 <= i < layout.len() && layout[i] is At ==> slot_index(f, #[trigger] layout[i]) != k,
    ensures
        apply_writes(s, slot_writes(f, layout, bits)).len() == s.len(),
        apply_writes(s, slot_writes(f, layout, bits))[k] == s[k],
{
    let w = slot_writes(f, layout, bits);
    assert(writes_in_bounds(w, s.len())) by {
        assert forall|j: int| 0 <= j < w.len() implies match #[trigger] w[j] {
            Some((kk, _)) => 0 <= kk < s.len(),
            None => true,
        } by {
            assert(slot_fits(f, layout[j], s.len()));
        }
    }
    lemma_apply_writes_len(s, w);
    assert forall|j: int| 0 <= j < w.len() implies !write_targets(#[trigger] w[j], k) by {
        if layout[j] is At {
            assert(slot_index(f, layout[j]) != k);
        }
    }
    lemma_apply_writes_untouched(s, w, k);
}

/// Writing the slots of a layout that fits keeps the number of fuses.
pub proof fn lemma_fragment_writes_len(s: Seq<bool>, f: Frame, layout: Seq<BitSlot>, bits: Seq<bool>)
    requires
        layout_fits(f, layout, s.len()),
        bits.len() == layout.len(),
    ensures
        apply_writes(s, slot_writes(f, layout, bits)).len() == s.len(),
{
    let w = slot_writes(f, layout, bits);
    assert(writes_in_bounds(w, s.len())) by {
        assert forall|j: int| 0 <= j < w.len() implies match #[trigger] w[j] {
            Some((kk, _)) => 0 <= kk < s.len(),
            None => true,
        } by {
            assert(slot_fits(f, layout[j], s.len()));
        }
    }
    lemma_apply_writes_len(s, w);
}

/// The bit-fragment law, whole: after storing `bits` with a layout whose
/// stored slots fit and are distinct and whose fixed slots agree with
/// `bits`, reading the layout gives `bits` back, the fuses keep their
/// number, and every fuse that no stored slot lands on keeps its value.
pub proof fn lemma_fragment_roundtrip(s: Seq<bool>, f: Frame, layout: Seq<BitSlot>, bits: Seq<bool>)
    requires
        layout_fits(f, layout, s.len()),
        layout_distinct(f, layout),
        fixed_agree(layout, bits),
        bits.len() == layout.len(),
    ensures
        read_slots(apply_writes(s, slot_writes(f, layout, bits)), f, layout) == bits,
        apply_writes(s, slot_writes(f, layout, bits)).len() == s.len(),
        forall|k: int|
            0 <= k < s.len() && (forall|i: int|
                0 <= i < layout.len() && layout[i] is At ==> slot_index(f, #[trigger] layout[i]) != k)
                ==> #[trigger] apply_writes(s, slot_writes(f, layout, bits))[k] == s[k],
{
    lemma_read_after_write(s, f, layout, bits);
    assert forall|k: int|
        0 <= k < s.len() && (forall|i: int|
            0 <= i < layout.len() && layout[i] is At ==> slot_index(f, #[trigger] layout[i]) != k)
            implies #[trigger] apply_writes(s, slot_writes(f, layout, bits))[k] == s[k] by {
        lemma_write_leaves_others(s, f, layout, bits, k);
    }
    lemma_fragment_writes_len(s, f, layout, bits);
}

/// The storage index of fragment position (`x`, `y`).
pub fn frame_slot_index(f: Frame, x: isize, y: isize) -> (k: usize)
    requires
        frame_index(f, x as int, y as int) is Some,
        0 <= frame_index(f, x as int, y as int).unwrap() <= usize::MAX,
    ensures
        k == frame_index(f, x as int, y as int).unwrap(),
{
    match f {
        Frame::Line { offset, mirror } => {
            let r: i128 = if mirror {
                offset as i128 - x as i128
            } else {
                offset as i128 + x as i128
            };
            r as usize
        },
        Frame::Grid { offset_x, offset_y, mirror_x, mirror_y, width } => {
            let gx: i128 = if mirror_x {
                offset_x as i128 - x as i128
            } else {
                offset_x as i128 + x as i128
            };
            let gy: i128 = if mirror_y {
                offset_y as i128 - y as i128
            } else {
                offset_y as i128 + y as i128
            };
            proof {
                assert(0 <= (gy as int) * (width as int) <= usize::MAX) by (nonlinear_arith)
                    requires
                        0 <= gy,
                        0 <= gx,
                        (gy as int) * (width as int) + gx <= usize::MAX,
                ;
            }
            let row = (gy as usize) * width;
            row + gx as usize
        },
    }
}

/// Stores `bits` in `fuses` at the slots of `layout`, placed by `f`. Fixed
/// slots are not written.
pub fn write_slots(fuses: &mut [bool], layout: &[BitSlot], bits: &[bool], f: Frame)
    requires
        layout_fits(f, layout@, old(fuses)@.len()),
        bits@.len() == layout@.len(),
    ensures
        final(fuses)@ == apply_writes(old(fuses)@, slot_writes(f, layout@, bits@)),
        final(fuses)@.len() == old(fuses)@.len(),
{
    let ghost w = slot_writes(f, layout@, bits@);
    let n = fuses.len();
    let mut i: usize = 0;
    while i < layout.len()
        invariant
            n == old(fuses)@.len(),
            layout_fits(f, layout@, old(fuses)@.len()),
            bits@.len() == layout@.len(),
            w == slot_writes(f, layout@, bits@),
            i <= layout@.len(),
            fuses@ == apply_writes(old(fuses)@, w.take(i as int)),
            fuses@.len() == old(fuses)@.len(),
        decreases layout@.len() - i,
    {
        assert(w.take(i + 1).drop_last() =~= w.take(i as int));
        assert(slot_fits(f, layout@[i as int], old(fuses)@.len()));
        match layout[i] {
            BitSlot::At { x, y, invert } => {
                let k = frame_slot_index(f, x, y);
                fuses[k] = bits[i] != invert;
            },
            BitSlot::Fixed(_) => {},
        }
        i = i + 1;
    }
    assert(w.take(layout@.len() as int) =~= w);
}

/// Reads the bits that `layout`, placed by `f`, holds in `fuses`.
pub fn read_slots_from(fuses: &[bool], layout: &[BitSlot], f: Frame) -> (bits: Vec<bool>)
    requires
        layout_fits(f, layout@, fuses@.len()),
    ensures
        bits@ == read_slots(fuses@, f, layout@),
{
    let mut bits: Vec<bool> = Vec::new();
    let n = fuses.len();
    let mut i: usize = 0;
    while i < layout.len()
        invariant
            n == fuses@.len(),
            layout_fits(f, layout@, fuses@.len()),
            i <= layout@.len(),
            bits@.len() == i,
            forall|k: int| 0 <= k < i ==> bits@[k] == slot_read(fuses@, f, #[trigger] layout@[k]),
        decreases layout@.len() - i,
    {
        assert(slot_fits(f, layout@[i as int], fuses@.len()));
        match layout[i] {
            BitSlot::At { x, y, invert } => {
                let k = frame_slot_index(f, x, y);
                bits.push(fuses[k] != invert);
            },
            BitSlot::Fixed(v) => {
                bits.push(v);
            },
        }
        i = i + 1;
    }
    assert(bits@ =~= read_slots(fuses@, f, layout@));
    bits
}

/// The layout whose slot `k` is stored at (`xs[k]`, `ys[k]`), inverted when
/// `inv[k]` holds.
pub open spec fn table_layout(xs: Seq<isize>, ys: Seq<isize>, inv: Seq<bool>) -> Seq<BitSlot> {
    Seq::new(xs.len(), |k: int| BitSlot::At { x: xs[k], y: ys[k], invert: inv[k] })
}

/// Builds the layout whose slot `k` is stored at (`xs[k]`, `ys[k]`),
/// inverted when `inv[k]` holds.
pub fn table_layout_vec(xs: &[isize], ys: &[isize], inv: &[bool]) -> (v: Vec<BitSlot>)
    requires
        ys@.len() == xs@.len(),
        inv@.len() == xs@.len(),
    ensures
        v@ == table_layout(xs@, ys@, inv@),
{
    let mut v: Vec<BitSlot> = Vec::new();
    let mut k: usize = 0;
    while k < xs.len()
        invariant
            ys@.len() == xs@.len(),
            inv@.len() == xs@.len(),
            k <= xs@.len(),
            v@ == table_layout(xs@, ys@, inv@).take(k as int),
        decreases xs@.len() - k,
    {
        v.push(BitSlot::At { x: xs[k], y: ys[k], invert: inv[k] });
        k = k + 1;
        assert(v@ =~= table_layout(xs@, ys@, inv@).take(k as int));
    }
    assert(table_layout(xs@, ys@, inv@).take(xs@.len() as int) =~= table_layout(xs@, ys@, inv@));
    v
}

/// No two slots of a table layout share a position.
pub open spec fn positions_distinct(xs: Seq<isize>, ys: Seq<isize>) -> bool {
    forall|i: int, j: int|
        0 <= i < xs.len() && 0 <= j < xs.len() && i != j ==> #[trigger] xs[i] != #[trigger] xs[j] || ys[i] != ys[j]
}

/// Every column of a table layout, placed by the grid frame `f`, lies
/// inside the grid's width.
pub open spec fn columns_inside(f: Frame, xs: Seq<isize>) -> bool {
    match f {
        Frame::Grid { offset_x, offset_y, mirror_x, mirror_y, width } => forall|i: int|
            0 <= i < xs.len() ==> 0 <= #[trigger] place(offset_x as int, mirror_x, xs[i] as int) < width,
        Frame::Line { .. } => true,
    }
}

/// A table layout whose positions are distinct stores no two bits in one
/// fuse: in a line frame always, in a grid frame when every column lies
/// inside the grid.
pub proof fn lemma_table_layout_distinct(f: Frame, xs: Seq<isize>, ys: Seq<isize>, inv: Seq<bool>, len: nat)
    requires
        ys.len() == xs.len(),
        inv.len() == xs.len(),
        positions_distinct(xs, ys),
        f is Line ==> (forall|i: int| 0 <= i < ys.len() ==> ys[i] == 0),
        columns_inside(f, xs),
        layout_fits(f, table_layout(xs, ys, inv), len),
    ensures
        layout_distinct(f, table_layout(xs, ys, inv)),
{
    let l = table_layout(xs, ys, inv);
    assert forall|i: int, j: int|
        0 <= i < l.len() && 0 <= j < l.len() && i != j && l[i] is At && l[j] is At
            implies slot_index(f, #[trigger] l[i]) != slot_index(f, #[trigger] l[j]) by {
        assert(slot_fits(f, l[i], len));
        assert(slot_fits(f, l[j], len));
        assert(xs[i] != xs[j] || ys[i] != ys[j]);
        match f {
            Frame::Line { offset, mirror } => {
                assert(ys[i] == 0 && ys[j] == 0);
            },
            Frame::Grid { offset_x, offset_y, mirror_x, mirror_y, width } => {
                let gxi = place(offset_x as int, mirror_x, xs[i] as int);
                let gxj = place(offset_x as int, mirror_x, xs[j] as int);
                let gyi = place(offset_y as int, mirror_y, ys[i] as int);
                let gyj = place(offset_y as int, mirror_y, ys[j] as int);
                assert(0 <= gxi < width && 0 <= gxj < width);
                lemma_grid_cells_distinct(gyi, gxi, gyj, gxj, width as int);
            },
        }
    }
}

/// After storing `bits` with a table layout of distinct positions, the fuse
/// at each position holds that position's bit, complemented where the slot
/// is inverted.
pub proof fn lemma_table_writes(s: Seq<bool>, f: Frame, xs: Seq<isize>, ys: Seq<isize>, inv: Seq<bool>, bits: Seq<bool>)
    requires
        ys.len() == xs.len(),
        inv.len() == xs.len(),
        bits.len() == xs.len(),
        positions_distinct(xs, ys),
        f is Line ==> (forall|i: int| 0 <= i < ys.len() ==> ys[i] == 0),
        columns_inside(f, xs),
        layout_fits(f, table_layout(xs, ys, inv), s.len()),
    ensures
        forall|k: int|
            #![trigger xs[k]]
            0 <= k < xs.len() ==> {
                &&& frame_index(f, xs[k] as int, ys[k] as int) is Some
                &&& apply_writes(s, slot_writes(f, table_layout(xs, ys, inv), bits))[frame_index(
                    f,
                    xs[k] as int,
                    ys[k] as int,
                ).unwrap()] == (bits[k] != inv[k])
            },
{
    let l = table_layout(xs, ys, inv);
    let t = apply_writes(s, slot_writes(f, l, bits));
    lemma_table_layout_distinct(f, xs, ys, inv, s.len());
    assert(fixed_agree(l, bits));
    lemma_read_after_write(s, f, l, bits);
    assert forall|k: int| #![trigger xs[k]] 0 <= k < xs.len() implies {
        &&& frame_index(f, xs[k] as int, ys[k] as int) is Some
        &&& t[frame_index(f, xs[k] as int, ys[k] as int).unwrap()] == (bits[k] != inv[k])
    } by {
        let sl = l[k];
        assert(sl == BitSlot::At { x: xs[k], y: ys[k], invert: inv[k] });
        assert(slot_fits(f, sl, s.len()));
        assert(read_slots(t, f, l)[k] == slot_read(t, f, sl));
        assert(slot_read(t, f, sl) == bits[k]);
        assert(slot_index(f, sl) == frame_index(f, xs[k] as int, ys[k] as int).unwrap());
    }
}

/// In a grid frame, every column between `lo` and `hi` lies inside the
/// grid's width when those two columns do.
pub proof fn lemma_columns_between(f: Frame, xs: Seq<isize>, lo: int, hi: int)
    requires
        forall|i: int| 0 <= i < xs.len() ==> lo <= #[trigger] xs[i] <= hi,
        match f {
            Frame::Grid { offset_x, offset_y, mirror_x, mirror_y, width } => {
                &&& 0 <= place(offset_x as int, mirror_x, lo) < width
                &&& 0 <= place(offset_x as int, mirror_x, hi) < width
            },
            Frame::Line { .. } => true,
        },
    ensures
        columns_inside(f, xs),
{
}

/// Distinct cells of a grid of width `w` have distinct row-major indices.
pub proof fn lemma_grid_cells_distinct(gy1: int, gx1: int, gy2: int, gx2: int, w: int)
    requires
        0 <= gx1 < w,
        0 <= gx2 < w,
        gy1 != gy2 || gx1 != gx2,
    ensures
        gy1 * w + gx1 != gy2 * w + gx2,
{
    if gy1 > gy2 {
        assert(gy1 * w - gy2 * w >= w) by (nonlinear_arith)
            requires
                gy1 - gy2 >= 1,
                w >= 0,
        ;
    } else if gy1 < gy2 {
        assert(gy2 * w - gy1 * w >= w) by (nonlinear_arith)
            requires
                gy2 - gy1 >= 1,
                w >= 0,
        ;
    }
}

/// The placement obtained by placing a fragment at (`inner_offset`,
/// `inner_mirror`) inside a frame at (`outer_offset`, `outer_mirror`).
pub open spec fn spec_compose(outer_offset: int, outer_mirror: bool, inner_offset: int, inner_mirror: bool) -> (int, bool) {
    (place(outer_offset, outer_mirror, inner_offset), outer_mirror != inner_mirror)
}

/// Composing placements is placing twice.
pub proof fn lemma_compose_place(oo: int, om: bool, io: int, im: bool, p: int)
    ensures
        place(spec_compose(oo, om, io, im).0, spec_compose(oo, om, io, im).1, p) == place(
            oo,
            om,
            place(io, im, p),
        ),
{
}

/// Composes two placements along one axis: the result places `p` where the
/// outer placement puts the inner placement of `p`.
pub fn compose_offset(outer_offset: isize, outer_mirror: bool, inner_offset: isize, inner_mirror: bool) -> (r: (isize, bool))
    requires
        isize::MIN <= place(outer_offset as int, outer_mirror, inner_offset as int) <= isize::MAX,
    ensures
        (r.0 as int, r.1) == spec_compose(outer_offset as int, outer_mirror, inner_offset as int, inner_mirror),
{
    let o = if outer_mirror {
        outer_offset - inner_offset
    } else {
        outer_offset + inner_offset
    };
    (o, outer_mirror != inner_mirror)
}

/// A value that is stored bit by bit in a fuse array. The type parameter
/// `V` selects one of several layouts of the same type.
///
/// The spec functions have placeholder bodies because the trait is also
/// implemented by code built without Verus, which cannot define them; every
/// impl in this crate defines all of them.
pub trait BitFragment<V>: Sized {
    const IDX_DIMS: usize;
    const FIELD_COUNT: usize;

    /// The fuse storage this layout is written to.
    type Fuses: ?Sized;
    /// The origin of the fragment in the storage.
    type OffsettingType;
    /// Per axis, whether positions count backwards from the origin.
    type MirroringType;
    type ErrType;
    type EncodeExtraType;
    type DecodeExtraType;

    /// Whether encoding at this placement stays inside `fuses`.
    open spec fn spec_encode_fits(
        fuses: &Self::Fuses,
        offset: Self::OffsettingType,
        mirror: Self::MirroringType,
        extra: Self::EncodeExtraType,
    ) -> bool {
        arbitrary()
    }

    /// Whether decoding at this placement stays inside `fuses`.
    open spec fn spec_decode_fits(
        fuses: &Self::Fuses,
        offset: Self::OffsettingType,
        mirror: Self::MirroringType,
        extra: Self::DecodeExtraType,
    ) -> bool {
        arbitrary()
    }

    /// Whether `after` is what encoding `self` into `before` at this
    /// placement gives.
    open spec fn spec_encode_result(
        &self,
        before: &Self::Fuses,
        after: &Self::Fuses,
        offset: Self::OffsettingType,
        mirror: Self::MirroringType,
        extra: Self::EncodeExtraType,
    ) -> bool {
        arbitrary()
    }

    fn encode(
        &self,
        fuses: &mut Self::Fuses,
        offset: Self::OffsettingType,
        mirror: Self::MirroringType,
        extra_data: Self::EncodeExtraType,
    )
        requires
            <Self as BitFragment<V>>::spec_encode_fits(old(fuses), offset, mirror, extra_data),
        ensures
            <Self as BitFragment<V>>::spec_encode_result(self, old(fuses), final(fuses), offset, mirror, extra_data),
    ;

    fn decode(
        fuses: &Self::Fuses,
        offset: Self::OffsettingType,
        mirror: Self::MirroringType,
        extra_data: Self::DecodeExtraType,
    ) -> (r: Result<Self, Self::ErrType>)
        requires
            <Self as BitFragment<V>>::spec_decode_fits(fuses, offset, mirror, extra_data),
        ensures
            r == <Self as BitFragment<V>>::spec_decode(fuses, offset, mirror, extra_data),
    ;

    /// What decoding at this placement gives.
    open spec fn spec_decode(
        fuses: &Self::Fuses,
        offset: Self::OffsettingType,
        mirror: Self::MirroringType,
        extra: Self::DecodeExtraType,
    ) -> Result<Self, Self::ErrType> {
        arbitrary()
    }

    /// The number of fields.
    open spec fn spec_field_count() -> nat {
        arbitrary()
    }

    /// The name of field `i`.
    open spec fn spec_field_name(i: int) -> Seq<char> {
        arbitrary()
    }

    /// The documentation of field `i`.
    open spec fn spec_field_desc(i: int) -> Seq<char> {
        arbitrary()
    }

    /// The kind of field `i`.
    open spec fn spec_field_type(i: int) -> BitFragmentFieldType {
        arbitrary()
    }

    /// The number of elements of field `field_i`: its length if it is an
    /// array, else one.
    open spec fn spec_field_elems(field_i: int) -> nat {
        arbitrary()
    }

    /// The offset of element `arr_i` of field `field_i` from the fragment origin.
    open spec fn spec_field_offset(field_i: int, arr_i: int) -> Self::OffsettingType {
        arbitrary()
    }

    /// The mirroring of element `arr_i` of field `field_i`.
    open spec fn spec_field_mirror(field_i: int, arr_i: int) -> Self::MirroringType {
        arbitrary()
    }

    /// The number of bits given positions directly in field `field_i`.
    open spec fn spec_field_bits(field_i: int) -> nat {
        arbitrary()
    }

    /// The position of bit `bit_i` of field `field_i`.
    open spec fn spec_field_bit_base_pos(field_i: int, bit_i: int) -> Self::OffsettingType {
        arbitrary()
    }

    fn fieldname(i: usize) -> (name: &'static str)
        requires
            i < <Self as BitFragment<V>>::spec_field_count(),
        ensures
            name@ == <Self as BitFragment<V>>::spec_field_name(i as int),
    ;

    fn fielddesc(i: usize) -> (desc: &'static str)
        requires
            i < <Self as BitFragment<V>>::spec_field_count(),
        ensures
            desc@ == <Self as BitFragment<V>>::spec_field_desc(i as int),
    ;

    fn fieldtype(i: usize) -> (t: BitFragmentFieldType)
        requires
            i < <Self as BitFragment<V>>::spec_field_count(),
        ensures
            t == <Self as BitFragment<V>>::spec_field_type(i as int),
    ;

    fn field_offset(field_i: usize, arr_i: usize) -> (o: Self::OffsettingType)
        requires
            field_i < <Self as BitFragment<V>>::spec_field_count(),
            arr_i < <Self as BitFragment<V>>::spec_field_elems(field_i as int),
        ensures
            o == <Self as BitFragment<V>>::spec_field_offset(field_i as int, arr_i as int),
    ;

    fn field_mirror(field_i: usize, arr_i: usize) -> (m: Self::MirroringType)
        requires
            field_i < <Self as BitFragment<V>>::spec_field_count(),
            arr_i < <Self as BitFragment<V>>::spec_field_elems(field_i as int),
        ensures
            m == <Self as BitFragment<V>>::spec_field_mirror(field_i as int, arr_i as int),
    ;

    fn field_bits(field_i: usize) -> (n: usize)
        requires
            field_i < <Self as BitFragment<V>>::spec_field_count(),
        ensures
            n == <Self as BitFragment<V>>::spec_field_bits(field_i as int),
    ;

    fn field_bit_base_pos(field_i: usize, bit_i: usize) -> (p: Self::OffsettingType)
        requires
            field_i < <Self as BitFragment<V>>::spec_field_count(),
        ensures
            p == <Self as BitFragment<V>>::spec_field_bit_base_pos(field_i as int, bit_i as int),
    ;
}

} // verus!
