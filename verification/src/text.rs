//! Small text helpers shared by the pattern tables, the documentation tables
//! and the crbit reader and writer.
use vstd::prelude::*;

verus! {

/// The decimal digit character for `d < 10`.
pub open spec fn digit_char(d: nat) -> char {
    if d == 0 {
        '0'
    } else if d == 1 {
        '1'
    } else if d == 2 {
        '2'
    } else if d == 3 {
        '3'
    } else if d == 4 {
        '4'
    } else if d == 5 {
        '5'
    } else if d == 6 {
        '6'
    } else if d == 7 {
        '7'
    } else if d == 8 {
        '8'
    } else {
        '9'
    }
}

/// The decimal representation of `n`, without leading zeros.
pub open spec fn decimal(n: nat) -> Seq<char>
    decreases n,
{
    if n < 10 {
        seq![digit_char(n)]
    } else {
        decimal(n / 10).push(digit_char(n % 10))
    }
}

/// `n` copies of `c`.
pub open spec fn repeat_char(c: char, n: nat) -> Seq<char> {
    Seq::new(n, |_i: int| c)
}

/// Whether `c` has the Unicode `White_Space` property, which is what
/// `char::is_whitespace` tests.
pub open spec fn is_unicode_whitespace(c: char) -> bool {
    let u = c as u32;
    ||| 0x09 <= u <= 0x0d
    ||| u == 0x20
    ||| u == 0x85
    ||| u == 0xa0
    ||| u == 0x1680
    ||| 0x2000 <= u <= 0x200a
    ||| u == 0x2028
    ||| u == 0x2029
    ||| u == 0x202f
    ||| u == 0x205f
    ||| u == 0x3000
}

/// Decides `is_unicode_whitespace`.
pub fn is_whitespace_char(c: char) -> (b: bool)
    ensures
        b == is_unicode_whitespace(c),
{
    let u = c as u32;
    (0x09 <= u && u <= 0x0d) || u == 0x20 || u == 0x85 || u == 0xa0 || u == 0x1680 || (0x2000 <= u
        && u <= 0x200a) || u == 0x2028 || u == 0x2029 || u == 0x202f || u == 0x205f || u == 0x3000
}

/// Calls `String::push`. Trusted, as std documents it: the character is
/// appended to the string's characters.
#[verifier::external_body]
pub(crate) fn string_push(s: &mut String, c: char)
    ensures
        final(s)@ == old(s)@.push(c),
{
    s.push(c)
}

/// The characters of a string, in order.
pub(crate) fn str_chars(s: &str) -> (v: Vec<char>)
    ensures
        v@ == s@,
{
    broadcast use vstd::string::axiom_spec_iter;

    let mut v: Vec<char> = Vec::new();
    for c in it: s.chars()
        invariant
            v@.len() == it.index(),
            forall|i: int| 0 <= i < v@.len() ==> v@[i] == it.seq()[i],
    {
        v.push(c);
    }
    assert(v@ =~= s@);
    v
}

/// Builds a `String` holding the given characters.
pub fn string_from_chars(cs: &[char]) -> (s: String)
    ensures
        s@ == cs@,
{
    let mut s = String::new();
    let mut i: usize = 0;
    while i < cs.len()
        invariant
            i <= cs@.len(),
            s@ == cs@.take(i as int),
        decreases cs@.len() - i,
    {
        string_push(&mut s, cs[i]);
        proof {
            assert(cs@.take(i as int).push(cs@[i as int]) =~= cs@.take(i + 1));
        }
        i = i + 1;
    }
    proof {
        assert(cs@.take(cs@.len() as int) =~= cs@);
    }
    s
}

/// The decimal digit character for `d < 10`.
pub fn digit_to_char(d: usize) -> (c: char)
    requires
        d < 10,
    ensures
        c == digit_char(d as nat),
{
    match d {
        0 => '0',
        1 => '1',
        2 => '2',
        3 => '3',
        4 => '4',
        5 => '5',
        6 => '6',
        7 => '7',
        8 => '8',
        _ => '9',
    }
}

/// The one-character name of bit `d < 10`: its decimal digit.
pub fn digit_str(d: usize) -> (s: &'static str)
    requires
        d < 10,
    ensures
        s@ == seq![digit_char(d as nat)],
{
    proof {
        reveal_strlit("0");
        reveal_strlit("1");
        reveal_strlit("2");
        reveal_strlit("3");
        reveal_strlit("4");
        reveal_strlit("5");
        reveal_strlit("6");
        reveal_strlit("7");
        reveal_strlit("8");
        reveal_strlit("9");
    }
    match d {
        0 => "0",
        1 => "1",
        2 => "2",
        3 => "3",
        4 => "4",
        5 => "5",
        6 => "6",
        7 => "7",
        8 => "8",
        _ => "9",
    }
}

/// The position named by `name` among the bit names `"0"`, `"1"`, ... of a
/// pattern of `width` bits.
pub fn digit_name_pos(name: &str, width: usize) -> (pos: usize)
    requires
        width <= 10,
        exists|p: int| 0 <= p < width && seq![#[trigger] digit_char(p as nat)] == name@,
    ensures
        pos < width,
        seq![digit_char(pos as nat)] == name@,
{
    let cs = str_chars(name);
    let ghost p = choose|p: int| 0 <= p < width && seq![#[trigger] digit_char(p as nat)] == name@;
    assert(cs@.len() == 1);
    let c = cs[0];
    let mut d: usize = 0;
    while d < width
        invariant
            d <= width,
            width <= 10,
            cs@ == name@,
            cs@.len() == 1,
            c == cs@[0],
            0 <= p < width,
            seq![digit_char(p as nat)] == name@,
            forall|e: int| 0 <= e < d ==> #[trigger] digit_char(e as nat) != c,
        decreases width - d,
    {
        if digit_to_char(d) == c {
            assert(seq![digit_char(d as nat)] =~= name@);
            return d;
        }
        d = d + 1;
    }
    assert(digit_char(p as nat) == c);
    0
}

/// Appends the decimal representation of `n` to `out`.
pub fn push_decimal(out: &mut Vec<char>, n: usize)
    ensures
        final(out)@ == old(out)@ + decimal(n as nat),
    decreases n,
{
    if n >= 10 {
        push_decimal(out, n / 10);
    }
    let d = digit_to_char(n % 10);
    out.push(d);
    proof {
        if n >= 10 {
            assert(old(out)@ + decimal(n as nat) =~= old(out)@ + decimal((n / 10) as nat) + seq![d]);
        } else {
            assert(old(out)@ + decimal(n as nat) =~= old(out)@ + seq![d]);
        }
    }
}

/// The decimal representation of `n` as a `String`.
pub fn decimal_string(n: usize) -> (s: String)
    ensures
        s@ == decimal(n as nat),
{
    let mut cs: Vec<char> = Vec::new();
    push_decimal(&mut cs, n);
    proof {
        assert(Seq::<char>::empty() + decimal(n as nat) =~= decimal(n as nat));
    }
    string_from_chars(cs.as_slice())
}

/// The texts `ls` one after another.
pub open spec fn join(ls: Seq<Seq<char>>) -> Seq<char>
    decreases ls.len(),
{
    if ls.len() == 0 {
        Seq::empty()
    } else {
        join(ls.drop_last()) + ls.last()
    }
}

/// Whether text `t` occurs in text `s`.
pub open spec fn has_text(s: Seq<char>, t: Seq<char>) -> bool {
    exists|i: int| 0 <= i && i + t.len() <= s.len() && #[trigger] s.subrange(i, i + t.len()) == t
}

/// Joining one more text appends it.
pub proof fn lemma_join_step(ls: Seq<Seq<char>>, j: int)
    requires
        0 <= j < ls.len(),
    ensures
        join(ls.take(j + 1)) == join(ls.take(j)) + ls[j],
        join(ls.take(0)) == Seq::<char>::empty(),
{
    assert(ls.take(j + 1).drop_last() =~= ls.take(j));
}

/// Each of the texts joined occurs in the result.
pub proof fn lemma_join_has(ls: Seq<Seq<char>>, k: int)
    requires
        0 <= k < ls.len(),
    ensures
        has_text(join(ls), ls[k]),
    decreases ls.len(),
{
    let p = join(ls.drop_last());
    let t = ls[k];
    if k == ls.len() - 1 {
        assert(join(ls).subrange(p.len() as int, (p.len() + t.len()) as int) =~= t);
    } else {
        assert(ls.drop_last()[k] == t);
        lemma_join_has(ls.drop_last(), k);
        let i = choose|i: int| 0 <= i && i + t.len() <= p.len() && #[trigger] p.subrange(i, i + t.len()) == t;
        assert(join(ls).subrange(i, i + t.len()) =~= p.subrange(i, i + t.len()));
    }
}

} // verus!
