//! Bit patterns: the encoding of an enum (or a `bool`) as a fixed-width group
//! of bits, described per variant by a pattern string such as `"x01"`.
//!
//! In a pattern string `'0'` and `'1'` are fixed bits, `'x'` is a bit that is
//! ignored when decoding and written as 0 when encoding, and `'X'` is ignored
//! when decoding and written as 1 when encoding.
use vstd::prelude::*;
use vstd::string::*;

use crate::text::{decimal, repeat_char, string_push, decimal_string, is_unicode_whitespace, is_whitespace_char, str_chars, string_from_chars};

verus! {

/// Whether `c` may appear in a pattern string.
pub open spec fn is_pattern_char(c: char) -> bool {
    c == '0' || c == '1' || c == 'x' || c == 'X'
}

/// Whether every character of `p` may appear in a pattern string.
pub open spec fn is_pattern(p: Seq<char>) -> bool {
    forall|i: int| 0 <= i < p.len() ==> is_pattern_char(#[trigger] p[i])
}

/// The bit that encoding writes for pattern character `c`.
pub open spec fn pattern_char_value(c: char) -> bool {
    c == '1' || c == 'X'
}

/// The bits that encoding writes for pattern `p`.
pub open spec fn spec_pattern_encode(p: Seq<char>) -> Seq<bool> {
    Seq::new(p.len(), |i: int| pattern_char_value(p[i]))
}

/// Whether pattern character `c` accepts bit `b` when decoding.
pub open spec fn char_accepts(c: char, b: bool) -> bool {
    (c == '0' ==> !b) && (c == '1' ==> b)
}

/// Whether pattern `p` accepts the bits `bits` when decoding.
pub open spec fn spec_pattern_matches(p: Seq<char>, bits: Seq<bool>) -> bool {
    p.len() == bits.len() && forall|i: int| 0 <= i < p.len() ==> char_accepts(#[trigger] p[i], bits[i])
}

/// The index of the first pattern in `pats` that accepts `bits`.
pub open spec fn spec_first_match(pats: Seq<Seq<char>>, bits: Seq<bool>) -> Option<nat>
    decreases pats.len(),
{
    if pats.len() == 0 {
        None
    } else {
        match spec_first_match(pats.drop_last(), bits) {
            Some(i) => Some(i),
            None => if spec_pattern_matches(pats.last(), bits) {
                Some((pats.len() - 1) as nat)
            } else {
                None
            },
        }
    }
}

/// Two patterns are disjoint when no group of bits is accepted by both.
pub open spec fn patterns_disjoint(p: Seq<char>, q: Seq<char>) -> bool {
    p.len() != q.len() || exists|i: int|
        0 <= i < p.len() && ((p[i] == '0' && q[i] == '1') || (p[i] == '1' && q[i] == '0'))
}

/// The character sequences of a list of strings.
pub open spec fn str_views(s: Seq<&str>) -> Seq<Seq<char>> {
    Seq::new(s.len(), |i: int| s[i]@)
}

/// `spec_first_match` gives the smallest index whose pattern accepts the bits.
pub proof fn lemma_first_match_iff(pats: Seq<Seq<char>>, bits: Seq<bool>)
    ensures
        match spec_first_match(pats, bits) {
            Some(i) => i < pats.len() && spec_pattern_matches(pats[i as int], bits) && forall|j: int|
                0 <= j < i ==> !spec_pattern_matches(#[trigger] pats[j], bits),
            None => forall|j: int| 0 <= j < pats.len() ==> !spec_pattern_matches(#[trigger] pats[j], bits),
        },
    decreases pats.len(),
{
    if pats.len() > 0 {
        lemma_first_match_iff(pats.drop_last(), bits);
        assert forall|j: int| 0 <= j < pats.len() - 1 implies pats.drop_last()[j] == pats[j] by {}
    }
}

/// The encoding of a pattern is accepted by that pattern.
pub proof fn lemma_pattern_accepts_own_encoding(p: Seq<char>)
    requires
        is_pattern(p),
    ensures
        spec_pattern_matches(p, spec_pattern_encode(p)),
{
}

/// Decoding the encoding of variant `i` gives back `i`, provided that every
/// earlier pattern is disjoint from the pattern of `i`.
pub proof fn lemma_decode_encode(pats: Seq<Seq<char>>, i: int)
    requires
        0 <= i < pats.len(),
        is_pattern(pats[i]),
        forall|j: int| 0 <= j < i ==> patterns_disjoint(#[trigger] pats[j], pats[i]),
    ensures
        spec_first_match(pats, spec_pattern_encode(pats[i])) == Some(i as nat),
{
    let bits = spec_pattern_encode(pats[i]);
    lemma_first_match_iff(pats, bits);
    assert forall|j: int| 0 <= j < i implies !spec_pattern_matches(#[trigger] pats[j], bits) by {
        assert(patterns_disjoint(pats[j], pats[i]));
        if pats[j].len() == pats[i].len() {
            let k = choose|k: int|
                0 <= k < pats[j].len() && ((pats[j][k] == '0' && pats[i][k] == '1') || (
                pats[j][k] == '1' && pats[i][k] == '0'));
            assert(!char_accepts(pats[j][k], bits[k]));
        }
    }
    match spec_first_match(pats, bits) {
        Some(m) => {
            if m < i {
                assert(!spec_pattern_matches(pats[m as int], bits));
            }
            if m > i {
                assert(spec_pattern_matches(pats[i], bits));
            }
        },
        None => {
            assert(spec_pattern_matches(pats[i], bits));
        },
    }
}

/// Why a list of pattern strings cannot describe a bit pattern.
#[derive(Copy, Clone, Debug, PartialEq, Eq, Structural)]
pub enum PatternError {
    /// The pattern of this variant does not have as many bits as the first one.
    LengthMismatch(usize),
    /// The pattern of this variant has a character other than `0`, `1`, `x`, `X`.
    IllegalChar(usize),
    /// The bit names do not name every bit exactly once.
    WrongNameCount,
}

/// Whether `p` is a pattern of `n` bits.
pub open spec fn pattern_ok(p: Seq<char>, n: nat) -> bool {
    p.len() == n && is_pattern(p)
}

/// Encodes a variant: the bits that its pattern string `pat` prescribes.
pub fn pattern_encode(pat: &str) -> (bits: Vec<bool>)
    ensures
        bits@ == spec_pattern_encode(pat@),
{
    let cs = str_chars(pat);
    let mut bits: Vec<bool> = Vec::new();
    let mut i: usize = 0;
    while i < cs.len()
        invariant
            cs@ == pat@,
            i <= cs@.len(),
            bits@.len() == i,
            forall|k: int| 0 <= k < i ==> bits@[k] == pattern_char_value(#[trigger] pat@[k]),
        decreases cs@.len() - i,
    {
        let c = cs[i];
        bits.push(c == '1' || c == 'X');
        i = i + 1;
    }
    proof {
        assert(bits@ =~= spec_pattern_encode(pat@));
    }
    bits
}

/// Whether the pattern string `pat` accepts `bits`.
pub fn pattern_matches(pat: &str, bits: &[bool]) -> (b: bool)
    ensures
        b == spec_pattern_matches(pat@, bits@),
{
    let cs = str_chars(pat);
    if cs.len() != bits.len() {
        return false;
    }
    let mut i: usize = 0;
    while i < cs.len()
        invariant
            cs@ == pat@,
            cs@.len() == bits@.len(),
            i <= cs@.len(),
            forall|k: int| 0 <= k < i ==> char_accepts(#[trigger] pat@[k], bits@[k]),
        decreases cs@.len() - i,
    {
        let c = cs[i];
        let b = bits[i];
        if (c == '0' && b) || (c == '1' && !b) {
            return false;
        }
        i = i + 1;
    }
    true
}

/// Decodes bits against the variants' pattern strings: the index of the first
/// pattern that accepts `bits`, if any does.
pub fn pattern_decode(pats: &[&str], bits: &[bool]) -> (r: Option<usize>)
    ensures
        match r {
            Some(i) => spec_first_match(str_views(pats@), bits@) == Some(i as nat),
            None => spec_first_match(str_views(pats@), bits@) is None,
        },
{
    let ghost all = str_views(pats@);
    let mut i: usize = 0;
    while i < pats.len()
        invariant
            i <= pats@.len(),
            all == str_views(pats@),
            forall|j: int| 0 <= j < i ==> !spec_pattern_matches(#[trigger] all[j], bits@),
        decreases pats@.len() - i,
    {
        if pattern_matches(pats[i], bits) {
            proof {
                lemma_first_match_iff(all, bits@);
                match spec_first_match(all, bits@) {
                    Some(m) => {
                        if m > i {
                            assert(spec_pattern_matches(all[i as int], bits@));
                        }
                    },
                    None => {
                        assert(spec_pattern_matches(all[i as int], bits@));
                    },
                }
            }
            return Some(i);
        }
        i = i + 1;
    }
    proof {
        lemma_first_match_iff(all, bits@);
    }
    None
}

/// Decodes bits against the variants' pattern strings, falling back to the
/// variant `default` when no pattern accepts `bits`: the decoding of a bit
/// pattern that declares a default variant.
pub fn pattern_decode_or_default(pats: &[&str], bits: &[bool], default: usize) -> (r: usize)
    ensures
        r == match spec_first_match(str_views(pats@), bits@) {
            Some(i) => i as usize,
            None => default,
        },
{
    match pattern_decode(pats, bits) {
        Some(i) => i,
        None => default,
    }
}

/// Checks a list of variant pattern strings: all must have as many bits as
/// the first, and all may hold only `0`, `1`, `x` and `X`. The first
/// offending variant is reported. An empty list is no error: there is then
/// nothing to encode, and `Ok(None)` says so. Otherwise the number of bits
/// is returned.
pub fn check_patterns(pats: &[&str]) -> (r: Result<Option<usize>, PatternError>)
    ensures
        match r {
            Ok(None) => pats@.len() == 0,
            Ok(Some(n)) => pats@.len() > 0 && n == pats@[0]@.len() && forall|i: int|
                0 <= i < pats@.len() ==> pattern_ok(#[trigger] pats@[i]@, n as nat),
            Err(PatternError::LengthMismatch(i)) => pats@.len() > 0 && i < pats@.len()
                && pats@[i as int]@.len() != pats@[0]@.len() && forall|j: int|
                0 <= j < i ==> pattern_ok(#[trigger] pats@[j]@, pats@[0]@.len()),
            Err(PatternError::IllegalChar(i)) => pats@.len() > 0 && i < pats@.len()
                && pats@[i as int]@.len() == pats@[0]@.len() && !is_pattern(pats@[i as int]@)
                && forall|j: int| 0 <= j < i ==> pattern_ok(#[trigger] pats@[j]@, pats@[0]@.len()),
            Err(PatternError::WrongNameCount) => false,
        },
{
    if pats.len() == 0 {
        return Ok(None);
    }
    let first = str_chars(pats[0]);
    let n = first.len();
    let mut i: usize = 0;
    while i < pats.len()
        invariant
            pats@.len() > 0,
            n == pats@[0]@.len(),
            i <= pats@.len(),
            forall|j: int| 0 <= j < i ==> pattern_ok(#[trigger] pats@[j]@, n as nat),
        decreases pats@.len() - i,
    {
        let cs = str_chars(pats[i]);
        if cs.len() != n {
            return Err(PatternError::LengthMismatch(i));
        }
        let mut k: usize = 0;
        while k < cs.len()
            invariant
                pats@.len() > 0,
                n == pats@[0]@.len(),
                i < pats@.len(),
                cs@.len() == n,
                forall|j: int| 0 <= j < i ==> pattern_ok(#[trigger] pats@[j]@, n as nat),
                cs@ == pats@[i as int]@,
                k <= cs@.len(),
                forall|m: int| 0 <= m < k ==> is_pattern_char(#[trigger] cs@[m]),
            decreases cs@.len() - k,
        {
            let c = cs[k];
            if !(c == '0' || c == '1' || c == 'x' || c == 'X') {
                proof {
                    assert(!is_pattern_char(cs@[k as int]));
                }
                return Err(PatternError::IllegalChar(i));
            }
            k = k + 1;
        }
        i = i + 1;
    }
    Ok(Some(n))
}

/// The words of `s`: its maximal runs of non-whitespace characters, as
/// `str::split_whitespace` gives them. The second component is the word
/// that is still being read at the end of `s`.
pub open spec fn words_state(s: Seq<char>) -> (Seq<Seq<char>>, Seq<char>)
    decreases s.len(),
{
    if s.len() == 0 {
        (seq![], seq![])
    } else {
        let (done, cur) = words_state(s.drop_last());
        let c = s.last();
        if is_unicode_whitespace(c) {
            if cur.len() > 0 {
                (done.push(cur), seq![])
            } else {
                (done, cur)
            }
        } else {
            (done, cur.push(c))
        }
    }
}

/// The whitespace-separated words of `s`.
pub open spec fn words(s: Seq<char>) -> Seq<Seq<char>> {
    let (done, cur) = words_state(s);
    if cur.len() > 0 {
        done.push(cur)
    } else {
        done
    }
}

/// The names of the `n` bits of a pattern. Without a `bitnames` string the
/// bits are named by their index. A `bitnames` string that is a single word
/// names one bit per character; otherwise each word names one bit. Either
/// way there must be exactly `n` names.
pub open spec fn spec_bit_names(bitnames: Option<Seq<char>>, n: nat) -> Option<Seq<Seq<char>>> {
    match bitnames {
        None => Some(Seq::new(n, |i: int| decimal(i as nat))),
        Some(s) => {
            let w = words(s);
            let names = if w.len() == 1 {
                Seq::new(w[0].len(), |i: int| seq![w[0][i]])
            } else {
                w
            };
            if names.len() == n {
                Some(names)
            } else {
                None
            }
        },
    }
}

/// Splits `s` into its whitespace-separated words.
pub fn split_words(s: &str) -> (r: Vec<Vec<char>>)
    ensures
        r@.len() == words(s@).len(),
        forall|i: int| 0 <= i < r@.len() ==> #[trigger] r@[i]@ == words(s@)[i],
{
    let cs = str_chars(s);
    let mut done: Vec<Vec<char>> = Vec::new();
    let mut cur: Vec<char> = Vec::new();
    let mut i: usize = 0;
    while i < cs.len()
        invariant
            cs@ == s@,
            i <= cs@.len(),
            done@.len() == words_state(cs@.take(i as int)).0.len(),
            forall|k: int|
                0 <= k < done@.len() ==> #[trigger] done@[k]@ == words_state(cs@.take(i as int)).0[k],
            cur@ == words_state(cs@.take(i as int)).1,
        decreases cs@.len() - i,
    {
        let c = cs[i];
        proof {
            assert(cs@.take(i + 1).drop_last() =~= cs@.take(i as int));
        }
        if is_whitespace_char(c) {
            if cur.len() > 0 {
                let w = cur;
                done.push(w);
                cur = Vec::new();
            }
        } else {
            cur.push(c);
        }
        i = i + 1;
    }
    proof {
        assert(cs@.take(cs@.len() as int) =~= cs@);
    }
    if cur.len() > 0 {
        done.push(cur);
    }
    done
}

/// Computes the bit names of a pattern of `n` bits, as `spec_bit_names`
/// describes them; `WrongNameCount` when the `bitnames` string does not name
/// exactly `n` bits.
pub fn bit_names(bitnames: Option<&str>, n: usize) -> (r: Result<Vec<String>, PatternError>)
    ensures
        match r {
            Ok(v) => {
                &&& spec_bit_names(
                    match bitnames {
                        Some(s) => Some(s@),
                        None => None,
                    },
                    n as nat,
                ) is Some
                &&& v@.len() == n
                &&& forall|i: int|
                    0 <= i < n ==> #[trigger] v@[i]@ == spec_bit_names(
                        match bitnames {
                            Some(s) => Some(s@),
                            None => None,
                        },
                        n as nat,
                    ).unwrap()[i]
            },
            Err(e) => e == PatternError::WrongNameCount && spec_bit_names(
                match bitnames {
                    Some(s) => Some(s@),
                    None => None,
                },
                n as nat,
            ) is None,
        },
{
    match bitnames {
        None => {
            let mut v: Vec<String> = Vec::new();
            let mut i: usize = 0;
            while i < n
                invariant
                    i <= n,
                    v@.len() == i,
                    forall|k: int| 0 <= k < i ==> #[trigger] v@[k]@ == decimal(k as nat),
                decreases n - i,
            {
                v.push(decimal_string(i));
                i = i + 1;
            }
            Ok(v)
        },
        Some(s) => {
            let w = split_words(s);
            let ghost ws = words(s@);
            if w.len() == 1 {
                let word = &w[0];
                if word.len() != n {
                    return Err(PatternError::WrongNameCount);
                }
                let mut v: Vec<String> = Vec::new();
                let mut i: usize = 0;
                while i < word.len()
                    invariant
                        word@ == ws[0],
                        i <= word@.len(),
                        v@.len() == i,
                        forall|k: int| 0 <= k < i ==> #[trigger] v@[k]@ == seq![ws[0][k]],
                    decreases word@.len() - i,
                {
                    let one = [word[i]];
                    let name = string_from_chars(&one);
                    proof {
                        assert(one@ =~= seq![ws[0][i as int]]);
                    }
                    v.push(name);
                    i = i + 1;
                }
                Ok(v)
            } else {
                if w.len() != n {
                    return Err(PatternError::WrongNameCount);
                }
                let mut v: Vec<String> = Vec::new();
                let mut i: usize = 0;
                while i < w.len()
                    invariant
                        w@.len() == ws.len(),
                        forall|k: int| 0 <= k < w@.len() ==> #[trigger] w@[k]@ == ws[k],
                        i <= w@.len(),
                        v@.len() == i,
                        forall|k: int| 0 <= k < i ==> #[trigger] v@[k]@ == ws[k],
                    decreases w@.len() - i,
                {
                    let name = string_from_chars(w[i].as_slice());
                    v.push(name);
                    i = i + 1;
                }
                Ok(v)
            }
        },
    }
}

/// A type whose values are encoded as a fixed-width group of bits. The type
/// parameter `V` selects one of several encodings of the same type.
///
/// The spec functions have placeholder bodies because the trait is also
/// implemented by code built without Verus, which cannot define them; every
/// impl in this crate defines all of them.
pub trait BitPattern<V>: Sized {
    type ErrType;

    /// The number of bits in the encoding.
    open spec fn spec_bits_count() -> nat {
        arbitrary()
    }

    /// The number of variants.
    open spec fn spec_variant_count() -> nat {
        arbitrary()
    }

    /// The bits that encode `self`.
    open spec fn spec_encode(&self) -> Seq<bool> {
        arbitrary()
    }

    /// The result of decoding `bits`.
    open spec fn spec_decode(bits: Seq<bool>) -> Result<Self, Self::ErrType> {
        arbitrary()
    }

    /// The name of bit `pos`.
    open spec fn spec_bit_name(pos: int) -> Seq<char> {
        arbitrary()
    }

    /// The name of variant `var`.
    open spec fn spec_variant_name(var: int) -> Seq<char> {
        arbitrary()
    }

    /// The documentation of variant `var`.
    open spec fn spec_variant_desc(var: int) -> Seq<char> {
        arbitrary()
    }

    /// The pattern string of variant `var`.
    open spec fn spec_variant_bits(var: int) -> Seq<char> {
        arbitrary()
    }

    fn bits_count() -> (n: usize)
        ensures
            n == Self::spec_bits_count(),
    ;

    fn variant_count() -> (n: usize)
        ensures
            n == Self::spec_variant_count(),
    ;

    fn encode(&self) -> (bits: Vec<bool>)
        ensures
            bits@ == self.spec_encode(),
    ;

    fn decode(bits: &[bool]) -> (r: Result<Self, Self::ErrType>)
        requires
            bits@.len() == Self::spec_bits_count(),
        ensures
            r == Self::spec_decode(bits@),
    ;

    fn _pos_to_name(pos: usize) -> (name: &'static str)
        requires
            pos < Self::spec_bits_count(),
        ensures
            name@ == Self::spec_bit_name(pos as int),
    ;

    fn _name_to_pos(name: &str) -> (pos: usize)
        requires
            exists|p: int| 0 <= p < Self::spec_bits_count() && Self::spec_bit_name(p) == name@,
        ensures
            pos < Self::spec_bits_count(),
            Self::spec_bit_name(pos as int) == name@,
    ;

    fn variantname(var: usize) -> (name: &'static str)
        requires
            var < Self::spec_variant_count(),
        ensures
            name@ == Self::spec_variant_name(var as int),
    ;

    fn variantdesc(var: usize) -> (desc: &'static str)
        requires
            var < Self::spec_variant_count(),
        ensures
            desc@ == Self::spec_variant_desc(var as int),
    ;

    fn variantbits(var: usize) -> (bits: &'static str)
        requires
            var < Self::spec_variant_count(),
        ensures
            bits@ == Self::spec_variant_bits(var as int),
    ;
}

impl BitPattern<()> for bool {
    type ErrType = ();

    open spec fn spec_bits_count() -> nat {
        1
    }

    open spec fn spec_variant_count() -> nat {
        2
    }

    open spec fn spec_encode(&self) -> Seq<bool> {
        seq![*self]
    }

    open spec fn spec_decode(bits: Seq<bool>) -> Result<bool, ()> {
        Ok(bits[0])
    }

    open spec fn spec_bit_name(pos: int) -> Seq<char> {
        "x"@
    }

    open spec fn spec_variant_name(var: int) -> Seq<char> {
        if var == 0 {
            "false"@
        } else {
            "true"@
        }
    }

    open spec fn spec_variant_desc(var: int) -> Seq<char> {
        if var == 0 {
            "false"@
        } else {
            "true"@
        }
    }

    open spec fn spec_variant_bits(var: int) -> Seq<char> {
        if var == 0 {
            "0"@
        } else {
            "1"@
        }
    }

    fn bits_count() -> (n: usize) {
        1
    }

    fn variant_count() -> (n: usize) {
        2
    }

    fn encode(&self) -> (bits: Vec<bool>) {
        let bits = vec![*self];
        proof {
            assert(bits@ =~= seq![*self]);
        }
        bits
    }

    fn decode(bits: &[bool]) -> (r: Result<bool, ()>) {
        Ok(bits[0])
    }

    fn _pos_to_name(pos: usize) -> (name: &'static str) {
        "x"
    }

    fn _name_to_pos(name: &str) -> (pos: usize) {
        0
    }

    fn variantname(var: usize) -> (name: &'static str) {
        if var == 0 {
            "false"
        } else {
            "true"
        }
    }

    fn variantdesc(var: usize) -> (desc: &'static str) {
        if var == 0 {
            "false"
        } else {
            "true"
        }
    }

    fn variantbits(var: usize) -> (bits: &'static str) {
        if var == 0 {
            "0"
        } else {
            "1"
        }
    }
}

/// A `bool` encodes as itself and decodes back unchanged.
pub proof fn lemma_bool_roundtrip(b: bool)
    ensures
        <bool as BitPattern<()>>::spec_decode(<bool as BitPattern<()>>::spec_encode(&b)) == Ok::<
            bool,
            (),
        >(b),
{
}

/// The concatenation of a list of character sequences.
pub open spec fn concat_all(ss: Seq<Seq<char>>) -> Seq<char>
    decreases ss.len(),
{
    if ss.len() == 0 {
        seq![]
    } else {
        concat_all(ss.drop_last()) + ss.last()
    }
}

/// The largest number in `ns`, or 0 when it is empty.
pub open spec fn max_of(ns: Seq<nat>) -> nat
    decreases ns.len(),
{
    if ns.len() == 0 {
        0
    } else {
        let m = max_of(ns.drop_last());
        if ns.last() > m {
            ns.last()
        } else {
            m
        }
    }
}

/// The length in bytes of the UTF-8 encoding of `s`.
pub open spec fn utf8_len(s: Seq<char>) -> nat {
    vstd::utf8::encode_utf8(s).len()
}

/// The UTF-8 lengths of a list of strings.
pub open spec fn utf8_lens(ss: Seq<Seq<char>>) -> Seq<nat> {
    Seq::new(ss.len(), |i: int| utf8_len(ss[i]))
}

/// One data row of the documentation table.
pub open spec fn table_row(bits: Seq<char>, name: Seq<char>, desc: Seq<char>, name_width: nat) -> Seq<
    char,
> {
    bits + " | "@ + name + repeat_char(' ', (name_width - utf8_len(name)) as nat) + " | "@ + desc
        + "\n"@
}

/// The ASCII documentation table of a bit pattern: a header with the bit
/// names, a separator, and one row per variant with its pattern, name and
/// documentation. Columns are padded to the longest name (in bytes).
pub open spec fn spec_ascii_table(
    bit_names: Seq<Seq<char>>,
    names: Seq<Seq<char>>,
    descs: Seq<Seq<char>>,
    bits: Seq<Seq<char>>,
) -> Seq<char> {
    let name_width = max_of(utf8_lens(names));
    let desc_width = max_of(utf8_lens(descs));
    let header = concat_all(bit_names) + " | "@ + repeat_char(' ', name_width) + " |\n"@;
    let sep = repeat_char('-', bit_names.len()) + "-+-"@ + repeat_char('-', name_width) + "-+-"@
        + repeat_char('-', desc_width) + "\n"@;
    let rows = concat_all(
        Seq::new(names.len(), |i: int| table_row(bits[i], names[i], descs[i], name_width)),
    );
    header + sep + rows
}

/// Appends `n` copies of `c` to `s`.
pub fn push_repeated(s: &mut String, c: char, n: usize)
    ensures
        final(s)@ == old(s)@ + repeat_char(c, n as nat),
{
    let mut i: usize = 0;
    while i < n
        invariant
            i <= n,
            s@ == old(s)@ + repeat_char(c, i as nat),
        decreases n - i,
    {
        string_push(s, c);
        proof {
            assert(old(s)@ + repeat_char(c, i as nat) + seq![c] =~= old(s)@ + repeat_char(
                c,
                (i + 1) as nat,
            ));
        }
        i = i + 1;
    }
}

/// The largest UTF-8 length among `ss`, or 0 when it is empty.
pub fn max_byte_len(ss: &[&str]) -> (m: usize)
    ensures
        m == max_of(utf8_lens(str_views(ss@))),
{
    let ghost lens = utf8_lens(str_views(ss@));
    let mut m: usize = 0;
    let mut i: usize = 0;
    while i < ss.len()
        invariant
            i <= ss@.len(),
            lens == utf8_lens(str_views(ss@)),
            m == max_of(lens.take(i as int)),
        decreases ss@.len() - i,
    {
        let l = ss[i].as_bytes().len();
        proof {
            assert(lens.take(i + 1).drop_last() =~= lens.take(i as int));
            assert(str_views(ss@)[i as int] == ss@[i as int]@);
            assert(lens[i as int] == l as nat);
        }
        if l > m {
            m = l;
        }
        i = i + 1;
    }
    proof {
        assert(lens.take(ss@.len() as int) =~= lens);
    }
    m
}

/// Builds the ASCII documentation table described by `spec_ascii_table`.
pub fn ascii_table(bit_names: &[&str], names: &[&str], descs: &[&str], bits: &[&str]) -> (s: String)
    requires
        names@.len() == descs@.len(),
        names@.len() == bits@.len(),
    ensures
        s@ == spec_ascii_table(
            str_views(bit_names@),
            str_views(names@),
            str_views(descs@),
            str_views(bits@),
        ),
{
    let ghost bn = str_views(bit_names@);
    let ghost nv = str_views(names@);
    let ghost dv = str_views(descs@);
    let ghost bv = str_views(bits@);
    let name_width = max_byte_len(names);
    let desc_width = max_byte_len(descs);
    let mut s = String::new();
    let mut i: usize = 0;
    while i < bit_names.len()
        invariant
            i <= bit_names@.len(),
            bn == str_views(bit_names@),
            s@ == concat_all(bn.take(i as int)),
        decreases bit_names@.len() - i,
    {
        s.append(bit_names[i]);
        proof {
            assert(bn.take(i + 1).drop_last() =~= bn.take(i as int));
        }
        i = i + 1;
    }
    proof {
        assert(bn.take(bit_names@.len() as int) =~= bn);
    }
    s.append(" | ");
    push_repeated(&mut s, ' ', name_width);
    s.append(" |\n");
    let ghost header = s@;
    push_repeated(&mut s, '-', bit_names.len());
    s.append("-+-");
    push_repeated(&mut s, '-', name_width);
    s.append("-+-");
    push_repeated(&mut s, '-', desc_width);
    s.append("\n");
    let ghost head = s@;
    let ghost rows = Seq::new(
        nv.len(),
        |k: int| table_row(bv[k], nv[k], dv[k], name_width as nat),
    );
    let mut i: usize = 0;
    while i < names.len()
        invariant
            i <= names@.len(),
            names@.len() == descs@.len(),
            names@.len() == bits@.len(),
            nv == str_views(names@),
            dv == str_views(descs@),
            bv == str_views(bits@),
            name_width == max_of(utf8_lens(nv)),
            rows == Seq::new(nv.len(), |k: int| table_row(bv[k], nv[k], dv[k], name_width as nat)),
            s@ == head + concat_all(rows.take(i as int)),
        decreases names@.len() - i,
    {
        let ghost before = s@;
        s.append(bits[i]);
        s.append(" | ");
        s.append(names[i]);
        let l = names[i].as_bytes().len();
        proof {
            lemma_max_of_bound(utf8_lens(nv), i as int);
        }
        push_repeated(&mut s, ' ', name_width - l);
        s.append(" | ");
        s.append(descs[i]);
        s.append("\n");
        proof {
            assert(rows.take(i + 1).drop_last() =~= rows.take(i as int));
            assert(s@ =~= before + rows[i as int]);
        }
        i = i + 1;
    }
    proof {
        assert(rows.take(names@.len() as int) =~= rows);
    }
    s
}

/// Every element of `ns` is at most `max_of(ns)`.
pub proof fn lemma_max_of_bound(ns: Seq<nat>, i: int)
    requires
        0 <= i < ns.len(),
    ensures
        ns[i] <= max_of(ns),
    decreases ns.len(),
{
    if i < ns.len() - 1 {
        lemma_max_of_bound(ns.drop_last(), i);
    }
}

/// The documentation table of the encoding `V` of `T`: its bit names,
/// and for each variant its pattern string, name and documentation.
pub fn docs_as_ascii_table<V, T: BitPattern<V>>() -> (s: String)
    ensures
        s@ == spec_ascii_table(
            Seq::new(T::spec_bits_count(), |i: int| T::spec_bit_name(i)),
            Seq::new(T::spec_variant_count(), |i: int| T::spec_variant_name(i)),
            Seq::new(T::spec_variant_count(), |i: int| T::spec_variant_desc(i)),
            Seq::new(T::spec_variant_count(), |i: int| T::spec_variant_bits(i)),
        ),
{
    let nb = T::bits_count();
    let nv = T::variant_count();
    let mut bit_names: Vec<&'static str> = Vec::new();
    let mut i: usize = 0;
    while i < nb
        invariant
            nb == T::spec_bits_count(),
            i <= nb,
            bit_names@.len() == i,
            forall|k: int| 0 <= k < i ==> #[trigger] bit_names@[k]@ == T::spec_bit_name(k),
        decreases nb - i,
    {
        bit_names.push(T::_pos_to_name(i));
        i = i + 1;
    }
    let mut names: Vec<&'static str> = Vec::new();
    let mut descs: Vec<&'static str> = Vec::new();
    let mut bits: Vec<&'static str> = Vec::new();
    let mut i: usize = 0;
    while i < nv
        invariant
            nv == T::spec_variant_count(),
            i <= nv,
            names@.len() == i,
            descs@.len() == i,
            bits@.len() == i,
            forall|k: int| 0 <= k < i ==> #[trigger] names@[k]@ == T::spec_variant_name(k),
            forall|k: int| 0 <= k < i ==> #[trigger] descs@[k]@ == T::spec_variant_desc(k),
            forall|k: int| 0 <= k < i ==> #[trigger] bits@[k]@ == T::spec_variant_bits(k),
        decreases nv - i,
    {
        names.push(T::variantname(i));
        descs.push(T::variantdesc(i));
        bits.push(T::variantbits(i));
        i = i + 1;
    }
    let s = ascii_table(bit_names.as_slice(), names.as_slice(), descs.as_slice(), bits.as_slice());
    proof {
        assert(str_views(bit_names@) =~= Seq::new(T::spec_bits_count(), |i: int| T::spec_bit_name(i)));
        assert(str_views(names@) =~= Seq::new(T::spec_variant_count(), |i: int| T::spec_variant_name(i)));
        assert(str_views(descs@) =~= Seq::new(T::spec_variant_count(), |i: int| T::spec_variant_desc(i)));
        assert(str_views(bits@) =~= Seq::new(T::spec_variant_count(), |i: int| T::spec_variant_bits(i)));
    }
    s
}

} // verus!
