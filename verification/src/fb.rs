//! Function blocks: the special product terms of each function block and the
//! placement of the AND terms of the second kind of AND block.
use vstd::prelude::*;

use crate::crbit;
use crate::crbit::{linear_index, FuseArray};
use crate::ANDTERMS_PER_FB;

verus! {

/// The index of the special CTC product term
pub const CTC: u32 = 4;

/// The index of the special CTR product term
pub const CTR: u32 = 5;

/// The index of the special CTS product term
pub const CTS: u32 = 6;

/// The index of the special CTE product term
pub const CTE: u32 = 7;

/// Returns the special PTA product term given a macrocell index
pub fn get_pta(mc: u32) -> (pt: u32)
    requires
        3 * mc + 8 <= u32::MAX,
    ensures
        pt == 3 * mc + 8,
{
    3 * mc + 8
}

/// Returns the special PTB product term given a macrocell index
pub fn get_ptb(mc: u32) -> (pt: u32)
    requires
        3 * mc + 9 <= u32::MAX,
    ensures
        pt == 3 * mc + 9,
{
    3 * mc + 9
}

/// Returns the special PTC product term given a macrocell index
pub fn get_ptc(mc: u32) -> (pt: u32)
    requires
        3 * mc + 10 <= u32::MAX,
    ensures
        pt == 3 * mc + 10,
{
    3 * mc + 10
}

/// For the second kind of AND block, the logical AND term stored at each
/// physical position (mostly in groups of three, alternating direction).
pub const AND_BLOCK_TYPE2_P2L_MAP: [usize; ANDTERMS_PER_FB] = [
    0, 1, 2, 3, 4, 5, 6, 7, 8, 9, 10,
    55, 54, 53,
    11, 12, 13,
    52, 51, 50,
    14, 15, 16,
    49, 48, 47,
    17, 18, 19,
    46, 45, 44,
    20, 21, 22,
    43, 42, 41,
    23, 24, 25,
    40, 39, 38,
    26, 27, 28,
    37, 36, 35,
    29, 30, 31,
    34, 33, 32,
];

/// For the second kind of AND block, the physical position of each logical
/// AND term.
pub const AND_BLOCK_TYPE2_L2P_MAP: [usize; ANDTERMS_PER_FB] = [
    0, 1, 2, 3, 4, 5, 6, 7, 8, 9, 10,
    14, 15, 16,
    20, 21, 22,
    26, 27, 28,
    32, 33, 34,
    38, 39, 40,
    44, 45, 46,
    50, 51, 52,
    55, 54, 53,
    49, 48, 47,
    43, 42, 41,
    37, 36, 35,
    31, 30, 29,
    25, 24, 23,
    19, 18, 17,
    13, 12, 11,
];

/// The two AND block maps are inverse permutations of the 56 AND terms: the
/// logical term stored at the physical position of term `i` is `i`, and the
/// physical position of the term stored at position `p` is `p`.
pub proof fn lemma_and_block_maps_inverse()
    ensures
        forall|i: int|
            0 <= i < ANDTERMS_PER_FB ==> AND_BLOCK_TYPE2_L2P_MAP@[i] < ANDTERMS_PER_FB
                && AND_BLOCK_TYPE2_P2L_MAP@[AND_BLOCK_TYPE2_L2P_MAP@[i] as int] == i,
        forall|p: int|
            0 <= p < ANDTERMS_PER_FB ==> AND_BLOCK_TYPE2_P2L_MAP@[p] < ANDTERMS_PER_FB
                && AND_BLOCK_TYPE2_L2P_MAP@[AND_BLOCK_TYPE2_P2L_MAP@[p] as int] == p,
{
}

/// The second kind of AND block stores the first 11 AND terms in order and
/// the rest in groups of three positions that alternate between counting
/// down from the last term and counting up from term 11: the group starting
/// at position `11 + 3 g` holds terms `55 - 3 (g / 2)` downwards when `g` is
/// even and terms `11 + 3 (g / 2)` upwards when `g` is odd.
pub proof fn lemma_and_block_type2_groups()
    ensures
        forall|p: int|
            0 <= p < ANDTERMS_PER_FB ==> #[trigger] AND_BLOCK_TYPE2_P2L_MAP@[p] == if p < 11 {
                p
            } else if ((p - 11) / 3) % 2 == 0 {
                55 - 3 * (((p - 11) / 3) / 2) - (p - 11) % 3
            } else {
                11 + 3 * (((p - 11) / 3) / 2) + (p - 11) % 3
            },
{
    assert forall|p: int| 0 <= p < ANDTERMS_PER_FB implies #[trigger] AND_BLOCK_TYPE2_P2L_MAP@[p] == if p < 11 {
        p
    } else if ((p - 11) / 3) % 2 == 0 {
        55 - 3 * (((p - 11) / 3) / 2) - (p - 11) % 3
    } else {
        11 + 3 * (((p - 11) / 3) / 2) + (p - 11) % 3
    } by {
        if p >= 11 {
            let g = (p - 11) / 3;
            let r = (p - 11) % 3;
            assert(p == 11 + 3 * g + r);
            assert(0 <= g < 15);
            assert(0 <= r < 3);
        }
    }
}

/// The row of a crbit array that holds ZIA row `zia_row` of a block whose
/// first row is `y`; with `has_gap`, rows from 20 on are below an OR array
/// eight rows high.
pub open spec fn zia_out_row(y: int, zia_row: int, has_gap: bool) -> int {
    if has_gap && zia_row >= 20 {
        y + zia_row + 8
    } else {
        y + zia_row
    }
}

/// The fuses of `a` after writing the ZIA row `bits` at column `x` of row
/// `out_y`: the last bit first, one bit in every other column.
pub open spec fn zia_row_written(a: Seq<bool>, w: nat, x: int, out_y: int, bits: Seq<bool>) -> Seq<bool> {
    Seq::new(
        a.len(),
        |i: int|
            {
                let d = i - linear_index(w, x, out_y);
                if 0 <= d < 2 * bits.len() && d % 2 == 0 {
                    bits[bits.len() - 1 - d / 2]
                } else {
                    a[i]
                }
            },
    )
}

/// The ZIA row of `n` bits stored at column `x` of row `out_y` of `a`.
pub open spec fn zia_row_read(a: Seq<bool>, w: nat, x: int, out_y: int, n: nat) -> Seq<bool> {
    Seq::new(n, |j: int| a[linear_index(w, x + 2 * (n - 1 - j), out_y)])
}

/// Writes a ZIA row into a crbit array
pub fn zia_row_crbit_write_helper(
    x: usize,
    y: usize,
    zia_row: usize,
    zia_bits: &[bool],
    has_gap: bool,
    fuse_array: &mut FuseArray,
)
    requires
        linear_index(
            crbit::width(old(fuse_array)),
            x + 2 * zia_bits@.len(),
            zia_out_row(y as int, zia_row as int, has_gap),
        ) <= crbit::fuses(old(fuse_array)).len(),
        zia_out_row(y as int, zia_row as int, has_gap) <= usize::MAX,
    ensures
        crbit::fuses(final(fuse_array)) == zia_row_written(
            crbit::fuses(old(fuse_array)),
            crbit::width(old(fuse_array)),
            x as int,
            zia_out_row(y as int, zia_row as int, has_gap),
            zia_bits@,
        ),
        crbit::width(final(fuse_array)) == crbit::width(old(fuse_array)),
        crbit::dev_name(final(fuse_array)) == crbit::dev_name(old(fuse_array)),
{
    let ghost w = crbit::width(fuse_array);
    let ghost out_y0 = zia_out_row(y as int, zia_row as int, has_gap);
    let ghost base = linear_index(w, x as int, out_y0);
    let l = zia_bits.len();
    let n = fuse_array.len();
    proof {
        assert(out_y0 * w >= 0) by (nonlinear_arith)
            requires
                out_y0 >= 0,
        ;
    }
    let mut zia_bit: usize = 0;
    while zia_bit < l
        invariant
            l == zia_bits@.len(),
            n == crbit::fuses(fuse_array).len(),
            n == crbit::fuses(old(fuse_array)).len(),
            w == crbit::width(fuse_array),
            w == crbit::width(old(fuse_array)),
            crbit::dev_name(fuse_array) == crbit::dev_name(old(fuse_array)),
            out_y0 == zia_out_row(y as int, zia_row as int, has_gap),
            out_y0 <= usize::MAX,
            base == linear_index(w, x as int, out_y0),
            base >= x,
            base + 2 * l <= n,
            zia_bit <= l,
            forall|i: int|
                0 <= i < n ==> #[trigger] crbit::fuses(fuse_array)[i] == {
                    let d = i - base;
                    if 0 <= d < 2 * zia_bit && d % 2 == 0 {
                        zia_bits@[l - 1 - d / 2]
                    } else {
                        crbit::fuses(old(fuse_array))[i]
                    }
                },
        decreases l - zia_bit,
    {
        let mut out_y = y + zia_row;
        if has_gap && zia_row >= 20 {
            out_y = out_y + 8;
        }
        let out_x = x + zia_bit * 2;
        assert(linear_index(w, out_x as int, out_y as int) == base + 2 * zia_bit);
        fuse_array.set(out_x, out_y, zia_bits[l - 1 - zia_bit]);
        zia_bit = zia_bit + 1;
    }
    assert(crbit::fuses(fuse_array) =~= zia_row_written(
        crbit::fuses(old(fuse_array)),
        w,
        x as int,
        out_y0,
        zia_bits@,
    ));
}

/// Reads a ZIA row from a crbit array
pub fn zia_row_crbit_read_helper(
    x: usize,
    y: usize,
    zia_row: usize,
    zia_bits: &mut [bool],
    has_gap: bool,
    fuse_array: &FuseArray,
)
    requires
        linear_index(
            crbit::width(fuse_array),
            x + 2 * old(zia_bits)@.len(),
            zia_out_row(y as int, zia_row as int, has_gap),
        ) <= crbit::fuses(fuse_array).len(),
        zia_out_row(y as int, zia_row as int, has_gap) <= usize::MAX,
    ensures
        final(zia_bits)@ == zia_row_read(
            crbit::fuses(fuse_array),
            crbit::width(fuse_array),
            x as int,
            zia_out_row(y as int, zia_row as int, has_gap),
            old(zia_bits)@.len(),
        ),
{
    let ghost w = crbit::width(fuse_array);
    let ghost out_y0 = zia_out_row(y as int, zia_row as int, has_gap);
    let ghost base = linear_index(w, x as int, out_y0);
    let l = zia_bits.len();
    let n = fuse_array.len();
    proof {
        assert(out_y0 * w >= 0) by (nonlinear_arith)
            requires
                out_y0 >= 0,
        ;
    }
    let mut zia_bit: usize = 0;
    while zia_bit < l
        invariant
            l == zia_bits@.len(),
            l == old(zia_bits)@.len(),
            n == crbit::fuses(fuse_array).len(),
            w == crbit::width(fuse_array),
            out_y0 == zia_out_row(y as int, zia_row as int, has_gap),
            out_y0 <= usize::MAX,
            base == linear_index(w, x as int, out_y0),
            base >= x,
            base + 2 * l <= n,
            zia_bit <= l,
            forall|j: int|
                l - zia_bit <= j < l ==> #[trigger] zia_bits@[j] == crbit::fuses(fuse_array)[base + 2 * (l - 1 - j)],
        decreases l - zia_bit,
    {
        let mut out_y = y + zia_row;
        if has_gap && zia_row >= 20 {
            out_y = out_y + 8;
        }
        let out_x = x + zia_bit * 2;
        assert(linear_index(w, out_x as int, out_y as int) == base + 2 * zia_bit);
        let b = fuse_array.get(out_x, out_y);
        zia_bits[l - 1 - zia_bit] = b;
        zia_bit = zia_bit + 1;
    }
    assert(zia_bits@ =~= zia_row_read(crbit::fuses(fuse_array), w, x as int, out_y0, l as nat));
}

/// Reading a ZIA row back from where it was just written gives the row.
pub proof fn lemma_zia_row_roundtrip(a: Seq<bool>, w: nat, x: int, out_y: int, bits: Seq<bool>)
    requires
        0 <= x,
        0 <= out_y,
        linear_index(w, x + 2 * bits.len(), out_y) <= a.len(),
    ensures
        zia_row_read(zia_row_written(a, w, x, out_y, bits), w, x, out_y, bits.len()) == bits,
{
    let r = zia_row_read(zia_row_written(a, w, x, out_y, bits), w, x, out_y, bits.len());
    assert(out_y * w >= 0) by (nonlinear_arith)
        requires
            out_y >= 0,
    ;
    assert forall|j: int| 0 <= j < bits.len() implies r[j] == bits[j] by {
        let k = bits.len() - 1 - j;
        assert(linear_index(w, x + 2 * k, out_y) - linear_index(w, x, out_y) == 2 * k);
        assert((2 * k) % 2 == 0 && (2 * k) / 2 == k);
    }
    assert(r =~= bits);
}

} // verus!
