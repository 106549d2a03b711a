//! Packed bit sets: bit `i` of a set is bit `i % 8` of byte `i / 8`.
use vstd::prelude::*;

verus! {

/// Whether bit `k` (counted from the least significant) of `b` is set.
pub open spec fn byte_bit(b: u8, k: int) -> bool {
    b & (1u8 << (k as u8)) != 0
}

/// Bit `i` of a packed set held in `bytes`.
pub open spec fn packed_bit(bytes: Seq<u8>, i: int) -> bool {
    byte_bit(bytes[i / 8], i % 8)
}

/// The first `n` bits of a packed set held in `bytes`.
pub open spec fn packed_bits(bytes: Seq<u8>, n: nat) -> Seq<bool> {
    Seq::new(n, |i: int| packed_bit(bytes, i))
}

/// Setting and clearing one bit of a byte leaves the other bits as they were.
pub proof fn lemma_byte_bit_update(b: u8, k: u8, j: u8)
    by (bit_vector)
    requires
        k < 8,
        j < 8,
    ensures
        ((b | (1u8 << k)) & (1u8 << j) != 0) == (j == k || b & (1u8 << j) != 0),
        ((b & !(1u8 << k)) & (1u8 << j) != 0) == (j != k && b & (1u8 << j) != 0),
        (0u8 & (1u8 << j)) == 0,
{
}

/// A byte is determined by its eight bits.
pub proof fn lemma_byte_ext(a: u8, b: u8)
    by (bit_vector)
    requires
        (a & 1u8 != 0) == (b & 1u8 != 0),
        (a & 2u8 != 0) == (b & 2u8 != 0),
        (a & 4u8 != 0) == (b & 4u8 != 0),
        (a & 8u8 != 0) == (b & 8u8 != 0),
        (a & 16u8 != 0) == (b & 16u8 != 0),
        (a & 32u8 != 0) == (b & 32u8 != 0),
        (a & 64u8 != 0) == (b & 64u8 != 0),
        (a & 128u8 != 0) == (b & 128u8 != 0),
    ensures
        a == b,
{
}

/// Two bytes with the same bits are equal.
pub proof fn lemma_byte_bits_ext(a: u8, b: u8)
    requires
        forall|k: int| 0 <= k < 8 ==> byte_bit(a, k) == byte_bit(b, k),
    ensures
        a == b,
{
    assert(byte_bit(a, 0) == byte_bit(b, 0));
    assert(byte_bit(a, 1) == byte_bit(b, 1));
    assert(byte_bit(a, 2) == byte_bit(b, 2));
    assert(byte_bit(a, 3) == byte_bit(b, 3));
    assert(byte_bit(a, 4) == byte_bit(b, 4));
    assert(byte_bit(a, 5) == byte_bit(b, 5));
    assert(byte_bit(a, 6) == byte_bit(b, 6));
    assert(byte_bit(a, 7) == byte_bit(b, 7));
    assert(1u8 << 0u8 == 1u8 && 1u8 << 1u8 == 2u8 && 1u8 << 2u8 == 4u8 && 1u8 << 3u8 == 8u8)
        by (bit_vector);
    assert(1u8 << 4u8 == 16u8 && 1u8 << 5u8 == 32u8 && 1u8 << 6u8 == 64u8 && 1u8 << 7u8 == 128u8)
        by (bit_vector);
    lemma_byte_ext(a, b);
}

/// The byte whose bits, from the least significant, are `b0` to `b7`.
pub open spec fn pack8(b0: bool, b1: bool, b2: bool, b3: bool, b4: bool, b5: bool, b6: bool, b7: bool) -> u8 {
    (if b0 { 1u8 } else { 0u8 }) | (if b1 { 2u8 } else { 0u8 }) | (if b2 { 4u8 } else { 0u8 }) | (if b3 {
        8u8
    } else {
        0u8
    }) | (if b4 { 16u8 } else { 0u8 }) | (if b5 { 32u8 } else { 0u8 }) | (if b6 { 64u8 } else { 0u8 }) | (if b7 {
        128u8
    } else {
        0u8
    })
}

/// The byte holding bits `8 q` to `8 q + 7` of `v`.
pub open spec fn pack_at(v: Seq<bool>, q: int) -> u8 {
    pack8(v[8 * q], v[8 * q + 1], v[8 * q + 2], v[8 * q + 3], v[8 * q + 4], v[8 * q + 5], v[8 * q + 6], v[8 * q + 7])
}

/// Each bit of `pack8` is the flag given for it.
pub proof fn lemma_pack8(b0: bool, b1: bool, b2: bool, b3: bool, b4: bool, b5: bool, b6: bool, b7: bool)
    by (bit_vector)
    ensures
        (pack8(b0, b1, b2, b3, b4, b5, b6, b7) & (1u8 << 0u8) != 0) == b0,
        (pack8(b0, b1, b2, b3, b4, b5, b6, b7) & (1u8 << 1u8) != 0) == b1,
        (pack8(b0, b1, b2, b3, b4, b5, b6, b7) & (1u8 << 2u8) != 0) == b2,
        (pack8(b0, b1, b2, b3, b4, b5, b6, b7) & (1u8 << 3u8) != 0) == b3,
        (pack8(b0, b1, b2, b3, b4, b5, b6, b7) & (1u8 << 4u8) != 0) == b4,
        (pack8(b0, b1, b2, b3, b4, b5, b6, b7) & (1u8 << 5u8) != 0) == b5,
        (pack8(b0, b1, b2, b3, b4, b5, b6, b7) & (1u8 << 6u8) != 0) == b6,
        (pack8(b0, b1, b2, b3, b4, b5, b6, b7) & (1u8 << 7u8) != 0) == b7,
{
}

/// Bit `k` of the byte packed from bits `8 q` to `8 q + 7` of `v` is
/// bit `8 q + k` of `v`.
pub proof fn lemma_pack_at(v: Seq<bool>, q: int, k: int)
    requires
        0 <= k < 8,
    ensures
        byte_bit(pack_at(v, q), k) == v[8 * q + k],
{
    lemma_pack8(v[8 * q], v[8 * q + 1], v[8 * q + 2], v[8 * q + 3], v[8 * q + 4], v[8 * q + 5], v[8 * q + 6], v[8 * q + 7]);
}

/// Whether bit `i` of the packed set in `bytes` is set.
pub fn get_packed(bytes: &[u8], i: usize) -> (r: bool)
    requires
        i / 8 < bytes@.len(),
    ensures
        r == packed_bit(bytes@, i as int),
{
    let k: u8 = (i % 8) as u8;
    bytes[i / 8] & (1u8 << k) != 0
}

/// Sets bit `i` of the packed set in `bytes` to `val`, leaving the others.
pub fn set_packed(bytes: &mut [u8], i: usize, val: bool)
    requires
        i / 8 < old(bytes)@.len(),
    ensures
        final(bytes)@.len() == old(bytes)@.len(),
        forall|j: int|
            0 <= j < 8 * old(bytes)@.len() ==> #[trigger] packed_bit(final(bytes)@, j) == if j == i {
                val
            } else {
                packed_bit(old(bytes)@, j)
            },
{
    let k: u8 = (i % 8) as u8;
    let byte = bytes[i / 8];
    let nb: u8 = if val {
        byte | (1u8 << k)
    } else {
        byte & !(1u8 << k)
    };
    bytes[i / 8] = nb;
    proof {
        assert forall|j: int| 0 <= j < 8 * old(bytes)@.len() implies #[trigger] packed_bit(bytes@, j) == if j == i {
            val
        } else {
            packed_bit(old(bytes)@, j)
        } by {
            if j / 8 == i / 8 {
                lemma_byte_bit_update(byte, k, (j % 8) as u8);
            }
        }
    }
}

} // verus!
