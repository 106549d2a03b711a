//! Picture layouts: a layout written as a picture of the fuse array.
//!
//! Each line of the picture is a row (`y`), and each whitespace-separated
//! token of a line is a column (`x`). A token `.` marks a fuse that the value
//! does not use, `N` marks the fuse that holds bit `N`, and `!N` a fuse that
//! holds the complement of bit `N`. A token `N=true` or `N=false` says that
//! bit `N` is not stored and always has that value. Every bit must be given
//! exactly once.
use vstd::prelude::*;

use crate::bitfragment::BitSlot;
use crate::text::{is_unicode_whitespace, is_whitespace_char, str_chars};

verus! {

/// Why a picture does not describe a layout.
#[derive(Copy, Clone, Debug, PartialEq, Eq, Structural)]
pub enum PictError {
    /// The token at this line and column is not `.`, `N`, `!N`, `N=true` or `N=false`.
    BadToken { line: usize, col: usize },
    /// The token at this line and column names a bit beyond the value's width.
    BitOutOfRange { line: usize, col: usize },
    /// This bit is given twice.
    DuplicateBit(usize),
    /// This bit is not given.
    MissingBit(usize),
}

/// What a token of a picture says.
#[derive(Copy, Clone, Debug, PartialEq, Eq, Structural)]
pub enum PictToken {
    /// `.`: an unused fuse.
    Skip,
    /// `N` or `!N`: bit `index` is stored here.
    Bit { index: usize, invert: bool },
    /// `N=true` or `N=false`: bit `index` is not stored and has this value.
    FixedBit { index: usize, value: bool },
    /// A bit number that is not below the width.
    OutOfRange,
    /// Anything else.
    Bad,
}

/// Whether `c` is an ASCII decimal digit.
pub open spec fn is_digit(c: char) -> bool {
    '0' <= c <= '9'
}

/// Whether `t` is a non-empty run of decimal digits.
pub open spec fn is_digits(t: Seq<char>) -> bool {
    t.len() > 0 && forall|i: int| 0 <= i < t.len() ==> is_digit(#[trigger] t[i])
}

/// The value of a run of decimal digits.
pub open spec fn digits_value(t: Seq<char>) -> nat
    decreases t.len(),
{
    if t.len() == 0 {
        0
    } else {
        digits_value(t.drop_last()) * 10 + ((t.last() as u32) - ('0' as u32)) as nat
    }
}

/// The characters `true`.
pub open spec fn true_chars() -> Seq<char> {
    seq!['t', 'r', 'u', 'e']
}

/// The characters `false`.
pub open spec fn false_chars() -> Seq<char> {
    seq!['f', 'a', 'l', 's', 'e']
}

/// A token naming bit `digits`, checked against the width `nbits`.
pub open spec fn bit_token(digits: Seq<char>, nbits: nat, invert: bool) -> PictToken {
    if digits_value(digits) < nbits {
        PictToken::Bit { index: digits_value(digits) as usize, invert }
    } else {
        PictToken::OutOfRange
    }
}

/// The meaning of token `t` in a picture of a value of `nbits` bits.
pub open spec fn spec_classify(t: Seq<char>, nbits: nat) -> PictToken {
    if t == seq!['.'] {
        PictToken::Skip
    } else if is_digits(t) {
        bit_token(t, nbits, false)
    } else if t.len() > 0 && t[0] == '!' && is_digits(t.drop_first()) {
        bit_token(t.drop_first(), nbits, true)
    } else if t.len() > 5 && t[t.len() - 5] == '=' && is_digits(t.take(t.len() - 5)) && t.skip(
        t.len() - 4,
    ) == true_chars() {
        if digits_value(t.take(t.len() - 5)) < nbits {
            PictToken::FixedBit { index: digits_value(t.take(t.len() - 5)) as usize, value: true }
        } else {
            PictToken::OutOfRange
        }
    } else if t.len() > 6 && t[t.len() - 6] == '=' && is_digits(t.take(t.len() - 6)) && t.skip(
        t.len() - 5,
    ) == false_chars() {
        if digits_value(t.take(t.len() - 6)) < nbits {
            PictToken::FixedBit { index: digits_value(t.take(t.len() - 6)) as usize, value: false }
        } else {
            PictToken::OutOfRange
        }
    } else {
        PictToken::Bad
    }
}

/// The state of reading a picture: the slots found so far for each bit,
/// the first error, the current column and line, and the token being read.
pub struct PictState {
    pub slots: Seq<Option<BitSlot>>,
    pub err: Option<PictError>,
    pub x: nat,
    pub y: nat,
    pub tok: Seq<char>,
}

/// Records token `tok` found at column `x` of line `y`.
pub open spec fn apply_token(slots: Seq<Option<BitSlot>>, x: nat, y: nat, tok: Seq<char>, nbits: nat) -> Result<
    Seq<Option<BitSlot>>,
    PictError,
> {
    match spec_classify(tok, nbits) {
        PictToken::Skip => Ok(slots),
        PictToken::Bit { index, invert } => if slots[index as int] is Some {
            Err(PictError::DuplicateBit(index))
        } else {
            Ok(slots.update(index as int, Some(BitSlot::At { x: x as isize, y: y as isize, invert })))
        },
        PictToken::FixedBit { index, value } => if slots[index as int] is Some {
            Err(PictError::DuplicateBit(index))
        } else {
            Ok(slots.update(index as int, Some(BitSlot::Fixed(value))))
        },
        PictToken::OutOfRange => Err(PictError::BitOutOfRange { line: y as usize, col: x as usize }),
        PictToken::Bad => Err(PictError::BadToken { line: y as usize, col: x as usize }),
    }
}

/// Ends the token being read, if there is one.
pub open spec fn finish_token(st: PictState, nbits: nat) -> PictState {
    if st.tok.len() == 0 || st.err is Some {
        PictState { tok: seq![], ..st }
    } else {
        match apply_token(st.slots, st.x, st.y, st.tok, nbits) {
            Ok(slots) => PictState { slots, x: st.x + 1, tok: seq![], ..st },
            Err(e) => PictState { err: Some(e), x: st.x + 1, tok: seq![], ..st },
        }
    }
}

/// Reads one more character of a picture.
pub open spec fn pict_step(st: PictState, c: char, nbits: nat) -> PictState {
    if c == '\n' {
        let f = finish_token(st, nbits);
        PictState { x: 0, y: f.y + 1, ..f }
    } else if is_unicode_whitespace(c) {
        finish_token(st, nbits)
    } else {
        PictState { tok: st.tok.push(c), ..st }
    }
}

/// The state after reading the characters `s`.
pub open spec fn pict_fold(s: Seq<char>, nbits: nat) -> PictState
    decreases s.len(),
{
    if s.len() == 0 {
        PictState { slots: Seq::new(nbits, |_i: int| None), err: None, x: 0, y: 0, tok: seq![] }
    } else {
        pict_step(pict_fold(s.drop_last(), nbits), s.last(), nbits)
    }
}

/// The first bit that has no slot, if any.
pub open spec fn first_missing(slots: Seq<Option<BitSlot>>) -> Option<nat>
    decreases slots.len(),
{
    if slots.len() == 0 {
        None
    } else {
        match first_missing(slots.drop_last()) {
            Some(i) => Some(i),
            None => if slots.last() is None {
                Some((slots.len() - 1) as nat)
            } else {
                None
            },
        }
    }
}

/// The layout that picture `s` describes for a value of `nbits` bits.
pub open spec fn spec_parse_pict(s: Seq<char>, nbits: nat) -> Result<Seq<BitSlot>, PictError> {
    let st = finish_token(pict_fold(s, nbits), nbits);
    match st.err {
        Some(e) => Err(e),
        None => match first_missing(st.slots) {
            Some(i) => Err(PictError::MissingBit(i as usize)),
            None => Ok(Seq::new(st.slots.len(), |i: int| st.slots[i].unwrap())),
        },
    }
}

/// The value of a run of digits, or `cap` when that value is at least `cap`.
fn digits_value_capped(t: &[char], cap: usize) -> (v: usize)
    requires
        is_digits(t@),
    ensures
        v == if digits_value(t@) < cap {
            digits_value(t@)
        } else {
            cap as nat
        },
{
    let mut v: usize = 0;
    let mut i: usize = 0;
    while i < t.len()
        invariant
            is_digits(t@),
            i <= t@.len(),
            v == if digits_value(t@.take(i as int)) < cap {
                digits_value(t@.take(i as int))
            } else {
                cap as nat
            },
        decreases t@.len() - i,
    {
        let d = t[i];
        assert(t@.take(i + 1).drop_last() =~= t@.take(i as int));
        assert(is_digit(t@[i as int]));
        let dv: u32 = (d as u32) - ('0' as u32);
        proof {
            assert(digits_value(t@.take(i + 1)) == digits_value(t@.take(i as int)) * 10 + dv);
        }
        if v < cap {
            let next: u128 = (v as u128) * 10 + (dv as u128);
            if next >= cap as u128 {
                v = cap;
            } else {
                v = next as usize;
            }
        }
        i = i + 1;
    }
    assert(t@.take(t@.len() as int) =~= t@);
    v
}

/// Whether a run of characters is a non-empty run of digits.
fn all_digits(t: &[char]) -> (b: bool)
    ensures
        b == is_digits(t@),
{
    if t.len() == 0 {
        return false;
    }
    let mut i: usize = 0;
    while i < t.len()
        invariant
            i <= t@.len(),
            forall|k: int| 0 <= k < i ==> is_digit(#[trigger] t@[k]),
        decreases t@.len() - i,
    {
        let c = t[i];
        if !('0' <= c && c <= '9') {
            assert(!is_digit(t@[i as int]));
            return false;
        }
        i = i + 1;
    }
    true
}

/// Classifies a picture token for a value of `nbits` bits.
pub fn classify_token(t: &[char], nbits: usize) -> (r: PictToken)
    ensures
        r == spec_classify(t@, nbits as nat),
{
    let n = t.len();
    if n == 1 && t[0] == '.' {
        assert(t@ =~= seq!['.']);
        return PictToken::Skip;
    }
    proof {
        if t@ == seq!['.'] {
            assert(t@.len() == 1 && t@[0] == '.');
        }
    }
    if all_digits(t) {
        let v = digits_value_capped(t, nbits);
        if v < nbits {
            return PictToken::Bit { index: v, invert: false };
        } else {
            return PictToken::OutOfRange;
        }
    }
    if n > 0 && t[0] == '!' {
        let rest = slice_from(t, 1);
        assert(rest@ =~= t@.drop_first());
        if all_digits(rest.as_slice()) {
            let v = digits_value_capped(rest.as_slice(), nbits);
            if v < nbits {
                return PictToken::Bit { index: v, invert: true };
            } else {
                return PictToken::OutOfRange;
            }
        }
    }
    if n > 5 && t[n - 5] == '=' && t[n - 4] == 't' && t[n - 3] == 'r' && t[n - 2] == 'u' && t[n - 1]
        == 'e' {
        let head = slice_to(t, n - 5);
        assert(head@ =~= t@.take(n - 5));
        assert(t@.skip(n - 4) =~= true_chars());
        if all_digits(head.as_slice()) {
            let v = digits_value_capped(head.as_slice(), nbits);
            if v < nbits {
                return PictToken::FixedBit { index: v, value: true };
            } else {
                return PictToken::OutOfRange;
            }
        }
    }
    proof {
        if n > 5 && t@.skip(n - 4) == true_chars() {
            assert(t@.skip(n - 4)[0] == 't' && t@.skip(n - 4)[1] == 'r' && t@.skip(n - 4)[2] == 'u'
                && t@.skip(n - 4)[3] == 'e');
        }
    }
    if n > 6 && t[n - 6] == '=' && t[n - 5] == 'f' && t[n - 4] == 'a' && t[n - 3] == 'l' && t[n - 2]
        == 's' && t[n - 1] == 'e' {
        let head = slice_to(t, n - 6);
        assert(head@ =~= t@.take(n - 6));
        assert(t@.skip(n - 5) =~= false_chars());
        if all_digits(head.as_slice()) {
            let v = digits_value_capped(head.as_slice(), nbits);
            if v < nbits {
                return PictToken::FixedBit { index: v, value: false };
            } else {
                return PictToken::OutOfRange;
            }
        }
    }
    proof {
        if n > 6 && t@.skip(n - 5) == false_chars() {
            assert(t@.skip(n - 5)[0] == 'f' && t@.skip(n - 5)[1] == 'a' && t@.skip(n - 5)[2] == 'l'
                && t@.skip(n - 5)[3] == 's' && t@.skip(n - 5)[4] == 'e');
        }
    }
    PictToken::Bad
}

/// The characters of `t` from index `start` on.
fn slice_from(t: &[char], start: usize) -> (r: Vec<char>)
    requires
        start <= t@.len(),
    ensures
        r@ == t@.skip(start as int),
{
    let mut r: Vec<char> = Vec::new();
    let mut i = start;
    while i < t.len()
        invariant
            start <= i <= t@.len(),
            r@ == t@.subrange(start as int, i as int),
        decreases t@.len() - i,
    {
        r.push(t[i]);
        assert(t@.subrange(start as int, i + 1) =~= t@.subrange(start as int, i as int).push(t@[i as int]));
        i = i + 1;
    }
    assert(t@.subrange(start as int, t@.len() as int) =~= t@.skip(start as int));
    r
}

/// The first `end` characters of `t`.
fn slice_to(t: &[char], end: usize) -> (r: Vec<char>)
    requires
        end <= t@.len(),
    ensures
        r@ == t@.take(end as int),
{
    let mut r: Vec<char> = Vec::new();
    let mut i: usize = 0;
    while i < end
        invariant
            end <= t@.len(),
            i <= end,
            r@ == t@.take(i as int),
        decreases end - i,
    {
        r.push(t[i]);
        assert(t@.take(i + 1) =~= t@.take(i as int).push(t@[i as int]));
        i = i + 1;
    }
    r
}

/// The state of reading a picture, as held by the reader.
pub open spec fn state_view(
    slots: Seq<Option<BitSlot>>,
    err: Option<PictError>,
    x: usize,
    y: usize,
    tok: Seq<char>,
) -> PictState {
    PictState { slots, err, x: x as nat, y: y as nat, tok }
}

/// Ends the token being read, as `finish_token` describes.
fn finish_exec(
    slots: &mut Vec<Option<BitSlot>>,
    err: &mut Option<PictError>,
    x: &mut usize,
    y: usize,
    tok: &mut Vec<char>,
    nbits: usize,
)
    requires
        old(slots)@.len() == nbits,
        old(tok)@.len() > 0 ==> *old(x) < usize::MAX,
    ensures
        final(slots)@.len() == nbits,
        state_view(final(slots)@, *final(err), *final(x), y, final(tok)@) == finish_token(
            state_view(old(slots)@, *old(err), *old(x), y, old(tok)@),
            nbits as nat,
        ),
        *final(x) <= *old(x) + 1,
        old(tok)@.len() == 0 ==> *final(x) == *old(x),
{
    if tok.len() == 0 || err.is_some() {
        *tok = Vec::new();
        return;
    }
    let kind = classify_token(tok.as_slice(), nbits);
    match kind {
        PictToken::Skip => {},
        PictToken::Bit { index, invert } => {
            if slots[index].is_some() {
                *err = Some(PictError::DuplicateBit(index));
            } else {
                slots.set(index, Some(BitSlot::At { x: *x as isize, y: y as isize, invert }));
            }
        },
        PictToken::FixedBit { index, value } => {
            if slots[index].is_some() {
                *err = Some(PictError::DuplicateBit(index));
            } else {
                slots.set(index, Some(BitSlot::Fixed(value)));
            }
        },
        PictToken::OutOfRange => {
            *err = Some(PictError::BitOutOfRange { line: y, col: *x });
        },
        PictToken::Bad => {
            *err = Some(PictError::BadToken { line: y, col: *x });
        },
    }
    *x = *x + 1;
    *tok = Vec::new();
}

/// Reads a picture layout for a value of `nbits` bits, as `spec_parse_pict`
/// describes it.
pub fn parse_pict(pict: &str, nbits: usize) -> (r: Result<Vec<BitSlot>, PictError>)
    ensures
        match r {
            Ok(v) => spec_parse_pict(pict@, nbits as nat) == Ok::<Seq<BitSlot>, PictError>(v@),
            Err(e) => spec_parse_pict(pict@, nbits as nat) == Err::<Seq<BitSlot>, PictError>(e),
        },
{
    let cs = str_chars(pict);
    let mut slots: Vec<Option<BitSlot>> = Vec::new();
    let mut k: usize = 0;
    while k < nbits
        invariant
            k <= nbits,
            slots@ == Seq::new(k as nat, |_i: int| None::<BitSlot>),
        decreases nbits - k,
    {
        slots.push(None);
        assert(slots@ =~= Seq::new((k + 1) as nat, |_i: int| None::<BitSlot>));
        k = k + 1;
    }
    let mut err: Option<PictError> = None;
    let mut x: usize = 0;
    let mut y: usize = 0;
    let mut tok: Vec<char> = Vec::new();
    assert(cs@.take(0) =~= Seq::<char>::empty());
    assert(state_view(slots@, err, x, y, tok@) == pict_fold(cs@.take(0), nbits as nat)) by {
        assert(tok@ =~= Seq::<char>::empty());
    }
    let mut i: usize = 0;
    while i < cs.len()
        invariant
            cs@ == pict@,
            i <= cs@.len(),
            slots@.len() == nbits,
            x + tok@.len() <= i,
            y <= i,
            state_view(slots@, err, x, y, tok@) == pict_fold(cs@.take(i as int), nbits as nat),
        decreases cs@.len() - i,
    {
        let c = cs[i];
        assert(cs@.take(i + 1).drop_last() =~= cs@.take(i as int));
        assert(cs@.take(i + 1).last() == c);
        if c == '\n' {
            finish_exec(&mut slots, &mut err, &mut x, y, &mut tok, nbits);
            x = 0;
            y = y + 1;
        } else if is_whitespace_char(c) {
            finish_exec(&mut slots, &mut err, &mut x, y, &mut tok, nbits);
        } else {
            tok.push(c);
        }
        i = i + 1;
    }
    assert(cs@.take(cs@.len() as int) =~= cs@);
    finish_exec(&mut slots, &mut err, &mut x, y, &mut tok, nbits);
    if let Some(e) = err {
        return Err(e);
    }
    let ghost st = finish_token(pict_fold(pict@, nbits as nat), nbits as nat);
    let mut out: Vec<BitSlot> = Vec::new();
    let mut j: usize = 0;
    while j < slots.len()
        invariant
            st == finish_token(pict_fold(pict@, nbits as nat), nbits as nat),
            slots@ == st.slots,
            st.err is None,
            j <= slots@.len(),
            first_missing(slots@.take(j as int)) is None,
            out@ == Seq::new(j as nat, |m: int| slots@[m].unwrap()),
        decreases slots@.len() - j,
    {
        assert(slots@.take(j + 1).drop_last() =~= slots@.take(j as int));
        match slots[j] {
            Some(sl) => {
                out.push(sl);
                assert(out@ =~= Seq::new((j + 1) as nat, |m: int| slots@[m].unwrap()));
            },
            None => {
                proof {
                    lemma_first_missing_extend(slots@, j as int);
                    lemma_parse_missing(pict@, nbits as nat, j as nat);
                }
                return Err(PictError::MissingBit(j));
            },
        }
        j = j + 1;
    }
    assert(slots@.take(slots@.len() as int) =~= slots@);
    Ok(out)
}

proof fn lemma_parse_missing(s: Seq<char>, nbits: nat, j: nat)
    requires
        finish_token(pict_fold(s, nbits), nbits).err is None,
        first_missing(finish_token(pict_fold(s, nbits), nbits).slots) == Some(j),
    ensures
        spec_parse_pict(s, nbits) == Err::<Seq<BitSlot>, PictError>(PictError::MissingBit(j as usize)),
{
}

/// When the first `j` slots are all present and slot `j` is not, the first
/// missing slot is `j`.
proof fn lemma_first_missing_extend(slots: Seq<Option<BitSlot>>, j: int)
    requires
        0 <= j < slots.len(),
        first_missing(slots.take(j)) is None,
        slots[j] is None,
    ensures
        first_missing(slots) == Some(j as nat),
{
    assert(slots.take(j + 1).drop_last() =~= slots.take(j));
    assert(first_missing(slots.take(j + 1)) == Some(j as nat));
    lemma_first_missing_prefix(slots, j + 1);
}

/// A missing slot found in a prefix is the first missing slot of the whole.
proof fn lemma_first_missing_prefix(slots: Seq<Option<BitSlot>>, n: int)
    requires
        0 <= n <= slots.len(),
        first_missing(slots.take(n)) is Some,
    ensures
        first_missing(slots) == first_missing(slots.take(n)),
    decreases slots.len() - n,
{
    if n < slots.len() {
        assert(slots.take(n + 1).drop_last() =~= slots.take(n));
        lemma_first_missing_prefix(slots, n + 1);
    } else {
        assert(slots.take(n) =~= slots);
    }
}

} // verus!
