//! Routines for xc2bit's "native" crbit format: a two-dimensional fuse array
//! written as ASCII lines of `0` and `1`, one line per row, with `//`
//! comment lines and an optional `// DEVICE <name>` line.
use vstd::prelude::*;
use vstd::string::*;
use vstd::utf8::{decode_utf8, encode_utf8, valid_utf8};

use crate::bitfragment::{apply_writes, layout_fits, place, read_slots, read_slots_from, slot_writes, write_slots, BitSlot, Frame};
use crate::text::{str_chars, string_from_chars, string_push};

verus! {

/// Struct representing a 2-dimensional fuse array and handles converting xy-coordinates into a
/// single linear index.
/// The x-axis is horizontal and the y-axis is vertical. The origin is at the top-left corner. (This
/// is the standard
/// "computer graphics" coordinate scheme.)
pub struct FuseArray {
    /// Internal 1-dimensional storage
    v: Vec<bool>,
    /// Width of the array
    w: usize,
    /// Possibly contains a device name
    pub dev_name_str: Option<String>,
}

/// The fuses of an array, row by row.
pub closed spec fn fuses(a: &FuseArray) -> Seq<bool> {
    a.v@
}

/// The width of an array.
pub closed spec fn width(a: &FuseArray) -> nat {
    a.w as nat
}

/// The device name of an array, if any.
pub closed spec fn dev_name(a: &FuseArray) -> Option<Seq<char>> {
    match a.dev_name_str {
        Some(s) => Some(s@),
        None => None,
    }
}

/// The width of an array is a machine-sized integer.
pub proof fn lemma_width_bound(a: &FuseArray)
    ensures
        width(a) <= usize::MAX,
{
}

/// The linear index of coordinate (`x`, `y`) in an array of width `w`.
pub open spec fn linear_index(w: nat, x: int, y: int) -> int {
    y * w + x
}

/// The frame that places a fragment at `offset`, mirrored per `mirror`,
/// in an array of width `w`.
pub open spec fn grid_frame(w: usize, offset: [isize; 2], mirror: [bool; 2]) -> Frame {
    Frame::Grid { offset_x: offset[0], offset_y: offset[1], mirror_x: mirror[0], mirror_y: mirror[1], width: w }
}

/// Calls `std::str::from_utf8`. Trusted, as std documents it: it succeeds
/// exactly when `bytes` is valid UTF-8, and then the string's characters are
/// the ones those bytes encode (vstd's `decode_utf8`).
#[verifier::external_body]
fn utf8_decode(bytes: &[u8]) -> (r: Option<&str>)
    ensures
        r is Some <==> valid_utf8(bytes@),
        r matches Some(s) ==> s@ == decode_utf8(bytes@),
{
    match std::str::from_utf8(bytes) {
        Ok(s) => Some(s),
        Err(_) => None,
    }
}

/// The index, in an array of width `w`, of fragment position (`x`, `y`) when
/// the fragment is placed at `offset`, mirrored per `mirror`.
pub open spec fn grid_cell(w: nat, offset: [isize; 2], mirror: [bool; 2], x: int, y: int) -> int {
    place(offset[1] as int, mirror[1], y) * w + place(offset[0] as int, mirror[0], x)
}

/// Fragment columns `lo` and `hi`, placed at `offset` and mirrored per
/// `mirror`, both lie inside an array of width `w`.
pub open spec fn grid_columns_inside(w: nat, offset: [isize; 2], mirror: [bool; 2], lo: int, hi: int) -> bool {
    &&& 0 <= place(offset[0] as int, mirror[0], lo) < w
    &&& 0 <= place(offset[0] as int, mirror[0], hi) < w
}

/// The character sequence of an optional string.
pub open spec fn opt_str_view(s: Option<String>) -> Option<Seq<char>> {
    match s {
        Some(s) => Some(s@),
        None => None,
    }
}

impl FuseArray {
    /// Replaces the device name.
    pub fn set_dev_name(&mut self, name: Option<String>)
        ensures
            dev_name(final(self)) == opt_str_view(name),
            fuses(final(self)) == fuses(old(self)),
            width(final(self)) == width(old(self)),
    {
        self.dev_name_str = name;
    }

    /// The number of fuses held.
    pub fn len(&self) -> (n: usize)
        ensures
            n == fuses(self).len(),
    {
        self.v.len()
    }

    /// The width of the array.
    pub fn width(&self) -> (w: usize)
        ensures
            w == width(self),
    {
        self.w
    }

    /// Get a fuse value at the particular xy coordinate
    pub fn get(&self, x: usize, y: usize) -> (b: bool)
        requires
            linear_index(width(self), x as int, y as int) < fuses(self).len(),
        ensures
            b == fuses(self)[linear_index(width(self), x as int, y as int)],
    {
        let i = self.index_of(x, y);
        self.v[i]
    }

    fn index_of(&self, x: usize, y: usize) -> (i: usize)
        requires
            linear_index(width(self), x as int, y as int) < fuses(self).len(),
        ensures
            i == linear_index(width(self), x as int, y as int),
    {
        let n = self.v.len();
        proof {
            assert((y as int) * (self.w as int) <= usize::MAX) by (nonlinear_arith)
                requires
                    (y as int) * (self.w as int) + x < n,
                    n <= usize::MAX,
            ;
        }
        y * self.w + x
    }

    /// Set the fuse value at the particular xy coordinate
    pub fn set(&mut self, x: usize, y: usize, val: bool)
        requires
            linear_index(width(old(self)), x as int, y as int) < fuses(old(self)).len(),
        ensures
            fuses(final(self)) == fuses(old(self)).update(
                linear_index(width(old(self)), x as int, y as int),
                val,
            ),
            width(final(self)) == width(old(self)),
            dev_name(final(self)) == dev_name(old(self)),
    {
        let i = self.index_of(x, y);
        self.v.set(i, val);
    }

    /// Returns the dimensions of this array as (width, height)
    pub fn dim(&self) -> (d: (usize, usize))
        requires
            width(self) > 0,
        ensures
            d.0 == width(self),
            d.1 == fuses(self).len() / width(self),
    {
        (self.w, self.v.len() / self.w)
    }

    /// Constructs a new `FuseArray` object with the given dimensions and filled with 0s
    pub fn from_dim(w: usize, h: usize) -> (a: Self)
        requires
            w * h <= usize::MAX,
        ensures
            fuses(&a) == Seq::new((w * h) as nat, |_i: int| false),
            width(&a) == w,
            dev_name(&a) is None,
    {
        let n = w * h;
        let mut v: Vec<bool> = Vec::new();
        let mut i: usize = 0;
        while i < n
            invariant
                i <= n,
                v@ == Seq::new(i as nat, |_i: int| false),
            decreases n - i,
        {
            v.push(false);
            assert(v@ =~= Seq::new((i + 1) as nat, |_i: int| false));
            i = i + 1;
        }
        FuseArray { w, v, dev_name_str: None }
    }

    /// Stores `bits` at the slots of `layout`, placed at `offset` and
    /// mirrored per `mirror`.
    pub fn write_slots(&mut self, layout: &[BitSlot], bits: &[bool], offset: [isize; 2], mirror: [bool; 2])
        requires
            layout_fits(grid_frame(width(old(self)) as usize, offset, mirror), layout@, fuses(old(self)).len()),
            bits@.len() == layout@.len(),
        ensures
            fuses(final(self)) == apply_writes(
                fuses(old(self)),
                slot_writes(grid_frame(width(old(self)) as usize, offset, mirror), layout@, bits@),
            ),
            fuses(final(self)).len() == fuses(old(self)).len(),
            width(final(self)) == width(old(self)),
            dev_name(final(self)) == dev_name(old(self)),
    {
        let f = Frame::Grid {
            offset_x: offset[0],
            offset_y: offset[1],
            mirror_x: mirror[0],
            mirror_y: mirror[1],
            width: self.w,
        };
        write_slots(self.v.as_mut_slice(), layout, bits, f);
    }

    /// Reads the bits at the slots of `layout`, placed at `offset` and
    /// mirrored per `mirror`.
    pub fn read_slots(&self, layout: &[BitSlot], offset: [isize; 2], mirror: [bool; 2]) -> (bits: Vec<bool>)
        requires
            layout_fits(grid_frame(width(self) as usize, offset, mirror), layout@, fuses(self).len()),
        ensures
            bits@ == read_slots(fuses(self), grid_frame(width(self) as usize, offset, mirror), layout@),
    {
        let f = Frame::Grid {
            offset_x: offset[0],
            offset_y: offset[1],
            mirror_x: mirror[0],
            mirror_y: mirror[1],
            width: self.w,
        };
        read_slots_from(self.v.as_slice(), layout, f)
    }
}

/// Whether `c` is removed from the ends of crbit lines.
pub open spec fn is_trim_char(c: char) -> bool {
    c == ' ' || c == '\r' || c == '\n'
}

/// `l` without its leading trim characters.
pub open spec fn trim_start(l: Seq<char>) -> Seq<char>
    decreases l.len(),
{
    if l.len() > 0 && is_trim_char(l[0]) {
        trim_start(l.drop_first())
    } else {
        l
    }
}

/// `l` without its trailing trim characters.
pub open spec fn trim_end(l: Seq<char>) -> Seq<char>
    decreases l.len(),
{
    if l.len() > 0 && is_trim_char(l.last()) {
        trim_end(l.drop_last())
    } else {
        l
    }
}

/// `l` without trim characters at either end.
pub open spec fn trim(l: Seq<char>) -> Seq<char> {
    trim_end(trim_start(l))
}

/// The characters `// DEVICE `.
pub open spec fn device_prefix() -> Seq<char> {
    seq!['/', '/', ' ', 'D', 'E', 'V', 'I', 'C', 'E', ' ']
}

/// The characters `//`.
pub open spec fn comment_prefix() -> Seq<char> {
    seq!['/', '/']
}

/// Whether `s` begins with `p`.
pub open spec fn starts_with(s: Seq<char>, p: Seq<char>) -> bool {
    p.len() <= s.len() && s.take(p.len() as int) == p
}

/// Whether `t` holds only `0` and `1`.
pub open spec fn is_bit_line(t: Seq<char>) -> bool {
    forall|i: int| 0 <= i < t.len() ==> (#[trigger] t[i] == '0' || t[i] == '1')
}

/// The fuses a line of `0` and `1` gives.
pub open spec fn line_bits(t: Seq<char>) -> Seq<bool> {
    Seq::new(t.len(), |i: int| t[i] == '1')
}

/// What reading a crbit file has found so far: the fuses, the width (the
/// length of the first data line), the device name, and whether a data
/// line held a character other than `0` and `1`.
pub struct CrbitState {
    pub v: Seq<bool>,
    pub w: Option<nat>,
    pub dev: Option<Seq<char>>,
    pub bad: bool,
}

/// The state before the first line.
pub open spec fn crbit_init() -> CrbitState {
    CrbitState { v: seq![], w: None, dev: None, bad: false }
}

/// Reads one line of a crbit file. Once a bad line was seen nothing changes.
/// Empty lines are skipped, a `// DEVICE ` line gives the device name, other
/// `//` lines are comments, and any other line is a row of fuses.
pub open spec fn read_line(st: CrbitState, line: Seq<char>) -> CrbitState {
    let t = trim(line);
    if st.bad || t.len() == 0 {
        st
    } else if starts_with(t, device_prefix()) {
        CrbitState { dev: Some(t.skip(10)), ..st }
    } else if starts_with(t, comment_prefix()) {
        st
    } else if !is_bit_line(t) {
        CrbitState { bad: true, ..st }
    } else {
        CrbitState {
            v: st.v + line_bits(t),
            w: if st.w is None {
                Some(t.len())
            } else {
                st.w
            },
            ..st
        }
    }
}

/// The state after the complete lines of `cs`, and the line still being read.
pub open spec fn crbit_fold(cs: Seq<char>) -> (CrbitState, Seq<char>)
    decreases cs.len(),
{
    if cs.len() == 0 {
        (crbit_init(), seq![])
    } else {
        let (st, cur) = crbit_fold(cs.drop_last());
        if cs.last() == '\n' {
            (read_line(st, cur), seq![])
        } else {
            (st, cur.push(cs.last()))
        }
    }
}

/// The state after reading all of `cs`.
pub open spec fn crbit_read(cs: Seq<char>) -> CrbitState {
    read_line(crbit_fold(cs).0, crbit_fold(cs).1)
}

/// Why a crbit file cannot be read.
#[derive(Copy, Clone, Debug, PartialEq, Eq, Structural)]
pub enum CrbitError {
    /// The file is not valid UTF-8.
    InvalidUtf8,
    /// A data line holds a character other than `0` and `1`.
    InvalidChar,
    /// There is no data line.
    NoData,
}

/// The fuses, width and device name that a crbit file holds.
pub open spec fn spec_from_crbit(bytes: Seq<u8>) -> Result<(Seq<bool>, nat, Option<Seq<char>>), CrbitError> {
    if !valid_utf8(bytes) {
        Err(CrbitError::InvalidUtf8)
    } else {
        let st = crbit_read(decode_utf8(bytes));
        if st.bad {
            Err(CrbitError::InvalidChar)
        } else if st.w is None {
            Err(CrbitError::NoData)
        } else {
            Ok((st.v, st.w.unwrap(), st.dev))
        }
    }
}

/// The message that reading reports for each error.
pub open spec fn crbit_error_message(e: CrbitError) -> Seq<char> {
    match e {
        CrbitError::InvalidUtf8 => "invalid characters in crbit"@,
        CrbitError::InvalidChar => "invalid character in crbit"@,
        CrbitError::NoData => "crbit contained no data"@,
    }
}

/// Removing leading trim characters up to the first other character.
proof fn lemma_trim_start(l: Seq<char>, s: int)
    requires
        0 <= s <= l.len(),
        forall|i: int| 0 <= i < s ==> is_trim_char(#[trigger] l[i]),
        s == l.len() || !is_trim_char(l[s]),
    ensures
        trim_start(l) == l.skip(s),
    decreases s,
{
    if s == 0 {
        assert(l.skip(0) =~= l);
    } else {
        assert(is_trim_char(l[0]));
        let d = l.drop_first();
        assert forall|i: int| 0 <= i < s - 1 implies is_trim_char(#[trigger] d[i]) by {
            assert(d[i] == l[i + 1]);
        }
        if s < l.len() {
            assert(d[s - 1] == l[s]);
        }
        lemma_trim_start(d, s - 1);
        assert(d.skip(s - 1) =~= l.skip(s));
    }
}

/// Removing trailing trim characters back to the last other character.
proof fn lemma_trim_end(l: Seq<char>, e: int)
    requires
        0 <= e <= l.len(),
        forall|i: int| e <= i < l.len() ==> is_trim_char(#[trigger] l[i]),
        e == 0 || !is_trim_char(l[e - 1]),
    ensures
        trim_end(l) == l.take(e),
    decreases l.len() - e,
{
    if e == l.len() {
        assert(l.take(e) =~= l);
        if l.len() > 0 {
            assert(l.last() == l[e - 1]);
        }
    } else {
        assert(is_trim_char(l.last()));
        let d = l.drop_last();
        assert forall|i: int| e <= i < d.len() implies is_trim_char(#[trigger] d[i]) by {
            assert(d[i] == l[i]);
        }
        if e > 0 {
            assert(d[e - 1] == l[e - 1]);
        }
        lemma_trim_end(d, e);
        assert(d.take(e) =~= l.take(e));
    }
}

/// The bounds of `l` without trim characters at either end.
fn trim_bounds(l: &[char]) -> (r: (usize, usize))
    ensures
        r.0 <= r.1 <= l@.len(),
        trim(l@) == l@.subrange(r.0 as int, r.1 as int),
{
    let n = l.len();
    let mut s: usize = 0;
    while s < n && (l[s] == ' ' || l[s] == '\r' || l[s] == '\n')
        invariant
            n == l@.len(),
            s <= n,
            forall|i: int| 0 <= i < s ==> is_trim_char(#[trigger] l@[i]),
        decreases n - s,
    {
        s = s + 1;
    }
    proof {
        lemma_trim_start(l@, s as int);
    }
    let mut e: usize = n;
    while e > s && (l[e - 1] == ' ' || l[e - 1] == '\r' || l[e - 1] == '\n')
        invariant
            n == l@.len(),
            s <= e <= n,
            forall|i: int| e <= i < n ==> is_trim_char(#[trigger] l@[i]),
        decreases e,
    {
        e = e - 1;
    }
    proof {
        let d = l@.skip(s as int);
        assert forall|i: int| (e - s) <= i < d.len() implies is_trim_char(#[trigger] d[i]) by {
            assert(d[i] == l@[i + s]);
        }
        if e > s {
            assert(d[e - s - 1] == l@[e - 1]);
        }
        lemma_trim_end(d, e - s);
        assert(d.take(e - s) =~= l@.subrange(s as int, e as int));
    }
    (s, e)
}

/// Reads one line, as `read_line` describes it.
#[verifier::loop_isolation(false)]
fn read_line_exec(
    line: &[char],
    v: &mut Vec<bool>,
    w: &mut Option<usize>,
    dev: &mut Option<Vec<char>>,
    bad: &mut bool,
)
    ensures
        crbit_state_view(final(v)@, *final(w), *final(dev), *final(bad)) == read_line(
            crbit_state_view(old(v)@, *old(w), *old(dev), *old(bad)),
            line@,
        ),
{
    let (s, e) = trim_bounds(line);
    let ghost t = line@.subrange(s as int, e as int);
    if *bad || s == e {
        return;
    }
    let len = e - s;
    if len >= 10 && line[s] == '/' && line[s + 1] == '/' && line[s + 2] == ' ' && line[s + 3] == 'D'
        && line[s + 4] == 'E' && line[s + 5] == 'V' && line[s + 6] == 'I' && line[s + 7] == 'C'
        && line[s + 8] == 'E' && line[s + 9] == ' ' {
        proof {
            assert(t.take(10) =~= device_prefix());
        }
        let mut name: Vec<char> = Vec::new();
        let mut i = s + 10;
        while i < e
            invariant
                s + 10 <= i <= e <= line@.len(),
                name@ == line@.subrange(s + 10, i as int),
            decreases e - i,
        {
            name.push(line[i]);
            assert(line@.subrange(s + 10, i + 1) =~= line@.subrange(s + 10, i as int).push(
                line@[i as int],
            ));
            i = i + 1;
        }
        proof {
            assert(name@ =~= t.skip(10));
        }
        *dev = Some(name);
        return;
    }
    proof {
        if starts_with(t, device_prefix()) {
            assert(t.take(10)[0] == '/' && t.take(10)[1] == '/' && t.take(10)[2] == ' ' && t.take(
                10,
            )[3] == 'D' && t.take(10)[4] == 'E' && t.take(10)[5] == 'V' && t.take(10)[6] == 'I'
                && t.take(10)[7] == 'C' && t.take(10)[8] == 'E' && t.take(10)[9] == ' ');
        }
    }
    if len >= 2 && line[s] == '/' && line[s + 1] == '/' {
        proof {
            assert(t.take(2) =~= comment_prefix());
        }
        return;
    }
    proof {
        if starts_with(t, comment_prefix()) {
            assert(t.take(2)[0] == '/' && t.take(2)[1] == '/');
        }
    }
    let mut k = s;
    while k < e
        invariant
            s <= k <= e <= line@.len(),
            t == line@.subrange(s as int, e as int),
            forall|j: int| s <= j < k ==> (#[trigger] line@[j] == '0' || line@[j] == '1'),
            *bad == *old(bad),
        decreases e - k,
    {
        if line[k] != '0' && line[k] != '1' {
            proof {
                assert(t[k - s] == line@[k as int]);
            }
            *bad = true;
            return;
        }
        k = k + 1;
    }
    proof {
        assert forall|j: int| 0 <= j < t.len() implies (#[trigger] t[j] == '0' || t[j] == '1') by {
            assert(t[j] == line@[j + s]);
        }
    }
    if w.is_none() {
        *w = Some(len);
    }
    let ghost v0 = v@;
    let mut k = s;
    while k < e
        invariant
            s <= k <= e <= line@.len(),
            t == line@.subrange(s as int, e as int),
            v@ == v0 + line_bits(t.take(k - s)),
        decreases e - k,
    {
        let bit = line[k] == '1';
        v.push(bit);
        proof {
            assert(t.take(k + 1 - s) =~= t.take(k - s).push(line@[k as int]));
            assert(line_bits(t.take(k + 1 - s)) =~= line_bits(t.take(k - s)).push(bit));
        }
        k = k + 1;
    }
    proof {
        assert(t.take(e - s) =~= t);
    }
}

/// The reading state held by the reader.
pub open spec fn crbit_state_view(v: Seq<bool>, w: Option<usize>, dev: Option<Vec<char>>, bad: bool) -> CrbitState {
    CrbitState {
        v,
        w: match w {
            Some(n) => Some(n as nat),
            None => None,
        },
        dev: match dev {
            Some(d) => Some(d@),
            None => None,
        },
        bad,
    }
}

impl FuseArray {
    /// Processes the given data and converts it into a `FuseArray` struct.
    pub fn from_file_contents(in_bytes: &[u8]) -> (r: Result<Self, &'static str>)
        ensures
            match r {
                Ok(a) => spec_from_crbit(in_bytes@) == Ok::<
                    (Seq<bool>, nat, Option<Seq<char>>),
                    CrbitError,
                >((fuses(&a), width(&a), dev_name(&a))),
                Err(msg) => exists|e: CrbitError|
                    spec_from_crbit(in_bytes@) == Err::<(Seq<bool>, nat, Option<Seq<char>>), CrbitError>(e)
                        && msg@ == crbit_error_message(e),
            },
    {
        let cs = match utf8_decode(in_bytes) {
            Some(text) => str_chars(text),
            None => {
                proof {
                    assert(spec_from_crbit(in_bytes@) == Err::<
                        (Seq<bool>, nat, Option<Seq<char>>),
                        CrbitError,
                    >(CrbitError::InvalidUtf8));
                    assert(crbit_error_message(CrbitError::InvalidUtf8) == "invalid characters in crbit"@);
                }
                return Err("invalid characters in crbit");
            },
        };
        let mut v: Vec<bool> = Vec::new();
        let mut w: Option<usize> = None;
        let mut dev: Option<Vec<char>> = None;
        let mut bad = false;
        let mut cur: Vec<char> = Vec::new();
        let mut i: usize = 0;
        assert(cs@.take(0) =~= Seq::<char>::empty());
        assert(v@ =~= Seq::<bool>::empty());
        assert(cur@ =~= Seq::<char>::empty());
        while i < cs.len()
            invariant
                i <= cs@.len(),
                crbit_state_view(v@, w, dev, bad) == crbit_fold(cs@.take(i as int)).0,
                cur@ == crbit_fold(cs@.take(i as int)).1,
            decreases cs@.len() - i,
        {
            let c = cs[i];
            assert(cs@.take(i + 1).drop_last() =~= cs@.take(i as int));
            if c == '\n' {
                read_line_exec(cur.as_slice(), &mut v, &mut w, &mut dev, &mut bad);
                cur = Vec::new();
                assert(cur@ =~= Seq::<char>::empty());
            } else {
                cur.push(c);
            }
            i = i + 1;
        }
        assert(cs@.take(cs@.len() as int) =~= cs@);
        read_line_exec(cur.as_slice(), &mut v, &mut w, &mut dev, &mut bad);
        if bad {
            proof {
                assert(crbit_error_message(CrbitError::InvalidChar) == "invalid character in crbit"@);
            }
            return Err("invalid character in crbit");
        }
        match w {
            None => {
                proof {
                    assert(crbit_error_message(CrbitError::NoData) == "crbit contained no data"@);
                }
                Err("crbit contained no data")
            },
            Some(width) => {
                let dev_name_str = match dev {
                    Some(d) => Some(string_from_chars(d.as_slice())),
                    None => None,
                };
                Ok(FuseArray { v, w: width, dev_name_str })
            },
        }
    }
}

/// The first comment line of a crbit file that xc2bit writes.
pub open spec fn comment_line1() -> Seq<char> {
    seq!['/', '/', ' ', 'c', 'r', 'b', 'i', 't', ' ', 'n', 'a', 't', 'i', 'v', 'e', ' ', 'b', 'i', 't', 's', 't', 'r', 'e', 'a', 'm', ' ', 'f', 'i', 'l', 'e', ' ', 'w', 'r', 'i', 't', 't', 'e', 'n', ' ', 'b', 'y', ' ', 'x', 'c', '2', 'b', 'i', 't']
}

/// The second comment line of a crbit file that xc2bit writes.
pub open spec fn comment_line2() -> Seq<char> {
    seq!['/', '/', ' ', 'h', 't', 't', 'p', 's', ':', '/', '/', 'g', 'i', 't', 'h', 'u', 'b', '.', 'c', 'o', 'm', '/', 'a', 'z', 'o', 'n', 'e', 'n', 'b', 'e', 'r', 'g', '/', 'o', 'p', 'e', 'n', 'f', 'p', 'g', 'a']
}

/// The characters of row `y` of an array of width `w`.
pub open spec fn row_chars(v: Seq<bool>, w: nat, y: int) -> Seq<char> {
    Seq::new(w, |x: int| if v[y * w + x] { '1' } else { '0' })
}

/// The first `h` rows of an array of width `w`, one line each.
pub open spec fn rows_text(v: Seq<bool>, w: nat, h: nat) -> Seq<char>
    decreases h,
{
    if h == 0 {
        seq![]
    } else {
        rows_text(v, w, (h - 1) as nat) + row_chars(v, w, h - 1).push('\n')
    }
}

/// The device line of a crbit file, with an empty line after it.
pub open spec fn device_text(dev: Option<Seq<char>>) -> Seq<char> {
    match dev {
        Some(d) => device_prefix() + d + seq!['\n', '\n'],
        None => seq![],
    }
}

/// The text of the crbit file that xc2bit writes for an array: two comment
/// lines and an empty line, the device line if there is a device name, one
/// line per complete row, and an empty line.
pub open spec fn crbit_text(v: Seq<bool>, w: nat, dev: Option<Seq<char>>) -> Seq<char> {
    comment_line1().push('\n') + comment_line2().push('\n').push('\n') + device_text(dev) + rows_text(
        v,
        w,
        v.len() / w,
    ) + seq!['\n']
}

/// The crbit text written for an array begins with the comment lines
/// `// crbit native bitstream file written by xc2bit` and
/// `// https://github.com/azonenberg/openfpga` and an empty line; with a
/// device name, the line `// DEVICE ` followed by the name, and an empty
/// line, come next.
pub proof fn lemma_crbit_text_header(v: Seq<bool>, w: nat, dev: Option<Seq<char>>)
    ensures
        starts_with(
            crbit_text(v, w, dev),
            "// crbit native bitstream file written by xc2bit\n// https://github.com/azonenberg/openfpga\n\n"@,
        ),
        dev matches Some(d) ==> starts_with(
            crbit_text(v, w, dev),
            "// crbit native bitstream file written by xc2bit\n// https://github.com/azonenberg/openfpga\n\n// DEVICE "@
                + d + "\n\n"@,
        ),
{
    reveal_strlit("// crbit native bitstream file written by xc2bit\n// https://github.com/azonenberg/openfpga\n\n");
    reveal_strlit("// crbit native bitstream file written by xc2bit\n// https://github.com/azonenberg/openfpga\n\n// DEVICE ");
    reveal_strlit("\n\n");
    let h = comment_line1().push('\n') + comment_line2().push('\n').push('\n');
    let t = crbit_text(v, w, dev);
    assert(h =~= "// crbit native bitstream file written by xc2bit\n// https://github.com/azonenberg/openfpga\n\n"@);
    assert(t.take(h.len() as int) =~= h);
    if let Some(d) = dev {
        let hd = h + device_text(dev);
        assert(hd =~= "// crbit native bitstream file written by xc2bit\n// https://github.com/azonenberg/openfpga\n\n// DEVICE "@
            + d + "\n\n"@);
        assert(t.take(hd.len() as int) =~= hd);
    }
}

impl FuseArray {
    /// The text of the crbit file for this array.
    pub fn to_crbit_string(&self) -> (s: String)
        requires
            width(self) > 0,
        ensures
            s@ == crbit_text(fuses(self), width(self), dev_name(self)),
    {
        let mut s = String::new();
        s.append("// crbit native bitstream file written by xc2bit\n");
        s.append("// https://github.com/azonenberg/openfpga\n\n");
        proof {
            reveal_strlit("// crbit native bitstream file written by xc2bit\n");
            reveal_strlit("// https://github.com/azonenberg/openfpga\n\n");
            assert("// crbit native bitstream file written by xc2bit\n"@ =~= comment_line1().push('\n'));
            assert("// https://github.com/azonenberg/openfpga\n\n"@ =~= comment_line2().push('\n').push(
                '\n',
            ));
        }
        match &self.dev_name_str {
            Some(name) => {
                s.append("// DEVICE ");
                s.append(name.as_str());
                s.append("\n\n");
                proof {
                    reveal_strlit("// DEVICE ");
                    reveal_strlit("\n\n");
                    assert("// DEVICE "@ =~= device_prefix());
                    assert("\n\n"@ =~= seq!['\n', '\n']);
                }
            },
            None => {},
        }
        let ghost head = s@;
        let (w, h) = self.dim();
        let n = self.v.len();
        proof {
            assert(h * w <= n) by (nonlinear_arith)
                requires
                    w > 0,
                    h == n / w,
            ;
        }
        let mut y: usize = 0;
        while y < h
            invariant
                w == self.w,
                w > 0,
                n == self.v@.len(),
                h == n / w,
                h * w <= n,
                y <= h,
                s@ == head + rows_text(self.v@, w as nat, y as nat),
            decreases h - y,
        {
            let ghost before = s@;
            let mut x: usize = 0;
            while x < w
                invariant
                    w == self.w,
                    w > 0,
                    n == self.v@.len(),
                    h * w <= n,
                    y < h,
                    x <= w,
                    s@ == before + row_chars(self.v@, w as nat, y as int).take(x as int),
                decreases w - x,
            {
                proof {
                    assert((y as int) * (w as int) + (x as int) < n) by (nonlinear_arith)
                        requires
                            y < h,
                            x < w,
                            h * w <= n,
                    ;
                }
                let b = self.v[y * w + x];
                string_push(&mut s, if b { '1' } else { '0' });
                proof {
                    assert(row_chars(self.v@, w as nat, y as int).take(x + 1) =~= row_chars(
                        self.v@,
                        w as nat,
                        y as int,
                    ).take(x as int).push(if b { '1' } else { '0' }));
                }
                x = x + 1;
            }
            string_push(&mut s, '\n');
            proof {
                assert(row_chars(self.v@, w as nat, y as int).take(w as int) =~= row_chars(
                    self.v@,
                    w as nat,
                    y as int,
                ));
                assert(s@ =~= head + rows_text(self.v@, w as nat, (y + 1) as nat));
            }
            y = y + 1;
        }
        string_push(&mut s, '\n');
        s
    }

    /// The bytes of the crbit file for this array.
    pub fn crbit_bytes(&self) -> (bytes: Vec<u8>)
        requires
            width(self) > 0,
        ensures
            bytes@ == encode_utf8(crbit_text(fuses(self), width(self), dev_name(self))),
    {
        let s = self.to_crbit_string();
        let b = s.as_str().as_bytes();
        let mut out: Vec<u8> = Vec::new();
        let mut i: usize = 0;
        while i < b.len()
            invariant
                i <= b@.len(),
                out@ == b@.take(i as int),
            decreases b@.len() - i,
        {
            out.push(b[i]);
            assert(b@.take(i + 1) =~= b@.take(i as int).push(b@[i as int]));
            i = i + 1;
        }
        assert(b@.take(b@.len() as int) =~= b@);
        out
    }

    /// Writes the fuse array to the internal "crbit" file format, which is an ASCII file containing
    /// '1' and '0'.
    /// (This format is intended to be compatible with `$readmemb`.)
    pub fn write_to_writer(&self, writer: &mut Vec<u8>)
        requires
            width(self) > 0,
        ensures
            final(writer)@ == old(writer)@ + encode_utf8(
                crbit_text(fuses(self), width(self), dev_name(self)),
            ),
    {
        let bytes = self.crbit_bytes();
        let mut i: usize = 0;
        while i < bytes.len()
            invariant
                i <= bytes@.len(),
                writer@ == old(writer)@ + bytes@.take(i as int),
            decreases bytes@.len() - i,
        {
            writer.push(bytes[i]);
            assert(bytes@.take(i + 1) =~= bytes@.take(i as int).push(bytes@[i as int]));
            i = i + 1;
        }
        assert(bytes@.take(bytes@.len() as int) =~= bytes@);
    }
}

/// Continues reading from state `sc` with the characters `q`.
pub open spec fn fold_from(sc: (CrbitState, Seq<char>), q: Seq<char>) -> (CrbitState, Seq<char>)
    decreases q.len(),
{
    if q.len() == 0 {
        sc
    } else {
        let (st, cur) = fold_from(sc, q.drop_last());
        if q.last() == '\n' {
            (read_line(st, cur), seq![])
        } else {
            (st, cur.push(q.last()))
        }
    }
}

/// Whether `s` holds no line break.
pub open spec fn no_newline(s: Seq<char>) -> bool {
    forall|i: int| 0 <= i < s.len() ==> #[trigger] s[i] != '\n'
}

proof fn lemma_fold_concat(p: Seq<char>, q: Seq<char>)
    ensures
        crbit_fold(p + q) == fold_from(crbit_fold(p), q),
    decreases q.len(),
{
    if q.len() == 0 {
        assert(p + q =~= p);
    } else {
        assert((p + q).drop_last() =~= p + q.drop_last());
        assert((p + q).last() == q.last());
        lemma_fold_concat(p, q.drop_last());
    }
}

proof fn lemma_fold_from_concat(sc: (CrbitState, Seq<char>), a: Seq<char>, b: Seq<char>)
    ensures
        fold_from(sc, a + b) == fold_from(fold_from(sc, a), b),
    decreases b.len(),
{
    if b.len() == 0 {
        assert(a + b =~= a);
    } else {
        assert((a + b).drop_last() =~= a + b.drop_last());
        assert((a + b).last() == b.last());
        lemma_fold_from_concat(sc, a, b.drop_last());
    }
}

proof fn lemma_fold_from_no_newline(sc: (CrbitState, Seq<char>), seg: Seq<char>)
    requires
        no_newline(seg),
    ensures
        fold_from(sc, seg) == (sc.0, sc.1 + seg),
    decreases seg.len(),
{
    if seg.len() == 0 {
        assert(sc.1 + seg =~= sc.1);
    } else {
        assert(seg.last() == seg[seg.len() - 1]);
        lemma_fold_from_no_newline(sc, seg.drop_last());
        assert(sc.1 + seg.drop_last() + seq![seg.last()] =~= sc.1 + seg);
        assert((sc.1 + seg.drop_last()).push(seg.last()) =~= sc.1 + seg);
    }
}

/// Reading a line and its line break from the start of a line.
proof fn lemma_fold_line(st: CrbitState, seg: Seq<char>)
    requires
        no_newline(seg),
    ensures
        fold_from((st, seq![]), seg.push('\n')) == (read_line(st, seg), Seq::<char>::empty()),
{
    assert(seg.push('\n').drop_last() =~= seg);
    lemma_fold_from_no_newline((st, seq![]), seg);
    assert(Seq::<char>::empty() + seg =~= seg);
}

/// A line that is not changed by trimming.
proof fn lemma_trim_fixed(t: Seq<char>)
    requires
        t.len() > 0,
        !is_trim_char(t[0]),
        !is_trim_char(t.last()),
    ensures
        trim(t) == t,
{
}

/// The state after the first `k` rows of an array of width `w`.
pub open spec fn rows_state(v: Seq<bool>, w: nat, k: nat, dev: Option<Seq<char>>) -> CrbitState {
    CrbitState {
        v: v.take((k * w) as int),
        w: if k > 0 {
            Some(w)
        } else {
            None
        },
        dev,
        bad: false,
    }
}

proof fn lemma_read_rows(v: Seq<bool>, w: nat, k: nat, dev: Option<Seq<char>>)
    requires
        w > 0,
        k * w <= v.len(),
    ensures
        fold_from((rows_state(v, w, 0, dev), seq![]), rows_text(v, w, k)) == (
            rows_state(v, w, k, dev),
            Seq::<char>::empty(),
        ),
    decreases k,
{
    if k == 0 {
        assert(v.take(0) =~= Seq::<bool>::empty());
    } else {
        let k1 = (k - 1) as nat;
        assert(k1 * w + w == k * w) by (nonlinear_arith)
            requires
                k1 == k - 1,
        ;
        assert(k1 * w <= v.len()) by (nonlinear_arith)
            requires
                k1 * w + w == k * w,
                k * w <= v.len(),
                w > 0,
        ;
        lemma_read_rows(v, w, k1, dev);
        let row = row_chars(v, w, k1 as int);
        lemma_fold_from_concat((rows_state(v, w, 0, dev), seq![]), rows_text(v, w, k1), row.push('\n'));
        assert(no_newline(row));
        lemma_fold_line(rows_state(v, w, k1, dev), row);
        lemma_trim_fixed(row);
        assert(!starts_with(row, device_prefix())) by {
            if starts_with(row, device_prefix()) {
                assert(row.take(10)[0] == row[0]);
            }
        }
        assert(!starts_with(row, comment_prefix())) by {
            if starts_with(row, comment_prefix()) {
                assert(row.take(2)[0] == row[0]);
            }
        }
        assert(is_bit_line(row));
        assert(v.take((k1 * w) as int) + line_bits(row) =~= v.take((k * w) as int)) by {
            assert forall|i: int| 0 <= i < (k * w) as int implies #[trigger] v.take((k * w) as int)[i]
                == (v.take((k1 * w) as int) + line_bits(row))[i] by {
                if i >= k1 * w {
                    assert(line_bits(row)[i - k1 * w] == (row[i - k1 * w] == '1'));
                    assert(k1 * w + (i - k1 * w) == i);
                }
            }
        }
    }
}

/// Writing an array as crbit text and reading the text back gives its
/// complete rows, its width and its device name: the round-trip law of the
/// crbit format. It needs at least one row, and a device name that is not
/// empty, holds no line break and does not end in a space or carriage return.
pub proof fn lemma_crbit_roundtrip(v: Seq<bool>, w: nat, dev: Option<Seq<char>>)
    requires
        w > 0,
        v.len() >= w,
        dev matches Some(d) ==> d.len() > 0 && no_newline(d) && !is_trim_char(d.last()),
    ensures
        spec_from_crbit(encode_utf8(crbit_text(v, w, dev))) == Ok::<
            (Seq<bool>, nat, Option<Seq<char>>),
            CrbitError,
        >((v.take(((v.len() / w) * w) as int), w, dev)),
{
    let text = crbit_text(v, w, dev);
    vstd::utf8::encode_utf8_valid_utf8(text);
    vstd::utf8::encode_utf8_decode_utf8(text);
    let h = v.len() / w;
    assert(h * w <= v.len() && h >= 1) by (nonlinear_arith)
        requires
            w > 0,
            h == v.len() / w,
            v.len() >= w,
    ;
    let l1 = comment_line1();
    let l2 = comment_line2();
    let init = crbit_init();
    let st0 = rows_state(v, w, 0, dev);
    assert(v.take(0) =~= Seq::<bool>::empty());
    // the two comment lines and the empty line after them
    let p1 = l1.push('\n');
    let p2 = l2.push('\n');
    let p3 = seq!['\n'];
    assert(no_newline(l1));
    assert(no_newline(l2));
    lemma_trim_fixed(l1);
    lemma_trim_fixed(l2);
    assert(l1.take(2) =~= comment_prefix());
    assert(l2.take(2) =~= comment_prefix());
    assert(!starts_with(l1, device_prefix())) by {
        assert(l1.take(10)[3] != device_prefix()[3]);
    }
    assert(!starts_with(l2, device_prefix())) by {
        assert(l2.take(10)[3] != device_prefix()[3]);
    }
    lemma_fold_line(init, l1);
    lemma_fold_line(init, l2);
    assert(seq![] + p3 =~= Seq::<char>::empty().push('\n'));
    assert(no_newline(Seq::<char>::empty()));
    lemma_fold_line(init, Seq::<char>::empty());
    assert(trim(Seq::<char>::empty()) =~= Seq::<char>::empty());
    let head = p1 + p2 + p3;
    assert(comment_line1().push('\n') + comment_line2().push('\n').push('\n') =~= head);
    lemma_fold_from_concat((init, seq![]), p1 + p2, p3);
    lemma_fold_from_concat((init, seq![]), p1, p2);
    assert(fold_from((init, seq![]), head) == (init, Seq::<char>::empty()));
    // the device line and the empty line after it
    let dt = device_text(dev);
    match dev {
        Some(d) => {
            let dl = device_prefix() + d;
            assert(no_newline(dl)) by {
                assert forall|i: int| 0 <= i < dl.len() implies #[trigger] dl[i] != '\n' by {
                    if i >= 10 {
                        assert(dl[i] == d[i - 10]);
                    }
                }
            }
            assert(dl.last() == d.last());
            lemma_trim_fixed(dl);
            assert(dl.take(10) =~= device_prefix());
            assert(dl.skip(10) =~= d);
            lemma_fold_line(init, dl);
            let after = CrbitState { dev: Some(d), ..init };
            assert(read_line(init, dl) == after);
            lemma_fold_line(after, Seq::<char>::empty());
            assert(dt =~= dl.push('\n') + p3);
            lemma_fold_from_concat((init, seq![]), dl.push('\n'), p3);
            assert(fold_from((init, seq![]), dt) == (st0, Seq::<char>::empty()));
        },
        None => {
            assert(dt =~= Seq::<char>::empty());
            assert(fold_from((init, seq![]), dt) == (st0, Seq::<char>::empty()));
        },
    }
    lemma_fold_from_concat((init, seq![]), head, dt);
    // the rows
    lemma_read_rows(v, w, h, dev);
    let rt = rows_text(v, w, h);
    lemma_fold_from_concat((init, seq![]), head + dt, rt);
    let st_rows = rows_state(v, w, h, dev);
    // the final empty line
    lemma_fold_line(st_rows, Seq::<char>::empty());
    lemma_fold_from_concat((init, seq![]), head + dt + rt, p3);
    assert(text =~= head + dt + rt + p3);
    lemma_fold_concat(Seq::<char>::empty(), text);
    assert(Seq::<char>::empty() + text =~= text);
    assert(crbit_fold(text) == (st_rows, Seq::<char>::empty()));
    assert(crbit_read(text) == st_rows);
}

} // verus!
