//! Verified text composition: character conversions, decimal digits, padding,
//! truncation, and the comma-grouped cardinality text.

use vstd::prelude::*;

verus! {

/// Relies on str::chars: the characters of the string, in order.
#[verifier::external_body]
pub(crate) fn chars_of(s: &str) -> (r: Vec<char>)
    ensures
        r@ == s@,
{
    s.chars().collect()
}

/// Relies on String's FromIterator over char: the string made of exactly
/// these characters, in order.
#[verifier::external_body]
pub(crate) fn string_from_chars(v: &Vec<char>) -> (r: String)
    ensures
        r@ == v@,
{
    v.iter().collect()
}

/// Number of characters in the string.
pub fn char_count(s: &str) -> (r: usize)
    ensures
        r == s@.len(),
{
    chars_of(s).len()
}

/// The decimal digits of `n`, most significant first; "0" for zero.
pub open spec fn dec_digits(n: nat) -> Seq<char>
    decreases n,
{
    if n < 10 {
        seq![digit_char(n)]
    } else {
        dec_digits(n / 10) + seq![digit_char(n % 10)]
    }
}

/// The character for one decimal digit.
pub open spec fn digit_char(d: nat) -> char {
    if d == 0 {
        '0'
    } else if d == 1 {
        '1'
    } else if d == 2 {
        '2'
    } else if d == 3 {
        '3'
    } else if d == 4 {
        '4'
    } else if d == 5 {
        '5'
    } else if d == 6 {
        '6'
    } else if d == 7 {
        '7'
    } else if d == 8 {
        '8'
    } else {
        '9'
    }
}

/// `s` with a comma inserted every three characters counted from the right.
pub open spec fn comma_grouped(s: Seq<char>) -> Seq<char>
    decreases s.len(),
{
    if s.len() <= 3 {
        s
    } else {
        comma_grouped(s.take(s.len() - 3)) + seq![','] + s.skip(s.len() - 3)
    }
}

/// Relies on thousands::Separable::separate_with_commas for usize, with its
/// comma policy: the decimal digits of `n` in groups of three from the right,
/// separated by commas.
#[verifier::external_body]
fn commas_raw(n: usize) -> (r: String)
    ensures
        r@ == comma_grouped(dec_digits(n as nat)),
{
    thousands::Separable::separate_with_commas(&n)
}

/// The comma-grouped decimal text of `n`, as characters.
pub fn comma_chars(n: usize) -> (r: Vec<char>)
    ensures
        r@ == comma_grouped(dec_digits(n as nat)),
{
    let s = commas_raw(n);
    chars_of(s.as_str())
}

/// Pushes `count` copies of `c` onto `out`.
pub fn push_repeated(out: &mut Vec<char>, c: char, count: usize)
    ensures
        final(out)@ == old(out)@ + Seq::new(count as nat, |i: int| c),
{
    let mut i: usize = 0;
    while i < count
        invariant
            i <= count,
            out@ == old(out)@ + Seq::new(i as nat, |j: int| c),
        decreases count - i,
    {
        out.push(c);
        proof {
            assert(old(out)@ + Seq::new((i + 1) as nat, |j: int| c) =~= (old(out)@ + Seq::new(
                i as nat,
                |j: int| c,
            )).push(c));
        }
        i = i + 1;
    }
}

/// Pushes the characters of `s` onto `out`.
pub fn push_all(out: &mut Vec<char>, s: &Vec<char>)
    ensures
        final(out)@ == old(out)@ + s@,
{
    let mut i: usize = 0;
    while i < s.len()
        invariant
            i <= s.len(),
            out@ == old(out)@ + s@.take(i as int),
        decreases s.len() - i,
    {
        out.push(s[i]);
        proof {
            assert(old(out)@ + s@.take(i + 1) =~= (old(out)@ + s@.take(i as int)).push(s@[i as int]));
        }
        i = i + 1;
    }
    proof {
        assert(s@.take(s@.len() as int) =~= s@);
    }
}

/// The decimal digit characters of `n`, most significant first.
pub fn dec_chars(n: usize) -> (r: Vec<char>)
    ensures
        r@ == dec_digits(n as nat),
    decreases n,
{
    if n < 10 {
        let mut v: Vec<char> = Vec::new();
        v.push(digit_to_char(n));
        proof {
            assert(v@ =~= seq![digit_char(n as nat)]);
        }
        v
    } else {
        let mut v = dec_chars(n / 10);
        v.push(digit_to_char(n % 10));
        proof {
            assert(v@ =~= dec_digits((n / 10) as nat) + seq![digit_char((n % 10) as nat)]);
        }
        v
    }
}

/// The character for a digit below ten.
pub fn digit_to_char(d: usize) -> (r: char)
    requires
        d < 10,
    ensures
        r == digit_char(d as nat),
{
    match d {
        0 => '0',
        1 => '1',
        2 => '2',
        3 => '3',
        4 => '4',
        5 => '5',
        6 => '6',
        7 => '7',
        8 => '8',
        _ => '9',
    }
}

/// `s` left-justified in a field of `width` spaces: the text itself when it
/// is already `width` or longer, else the text followed by spaces.
pub open spec fn left_justified(s: Seq<char>, width: nat) -> Seq<char> {
    if s.len() >= width {
        s
    } else {
        s + Seq::new((width - s.len()) as nat, |i: int| ' ')
    }
}

/// `s` right-justified in a field of `width` spaces.
pub open spec fn right_justified(s: Seq<char>, width: nat) -> Seq<char> {
    if s.len() >= width {
        s
    } else {
        Seq::new((width - s.len()) as nat, |i: int| ' ') + s
    }
}

/// Appends `s` to `out`, left-justified in a field of `width` spaces.
pub fn push_left_justified(out: &mut Vec<char>, s: &Vec<char>, width: usize)
    ensures
        final(out)@ == old(out)@ + left_justified(s@, width as nat),
{
    push_all(out, s);
    if s.len() < width {
        push_repeated(out, ' ', width - s.len());
        proof {
            assert(old(out)@ + s@ + Seq::new((width - s@.len()) as nat, |i: int| ' ') =~= old(
                out,
            )@ + left_justified(s@, width as nat));
        }
    }
}

/// Appends `s` to `out`, right-justified in a field of `width` spaces.
pub fn push_right_justified(out: &mut Vec<char>, s: &Vec<char>, width: usize)
    ensures
        final(out)@ == old(out)@ + right_justified(s@, width as nat),
{
    if s.len() < width {
        push_repeated(out, ' ', width - s.len());
    }
    push_all(out, s);
    proof {
        if s@.len() < width {
            assert(old(out)@ + Seq::new((width - s@.len()) as nat, |i: int| ' ') + s@ =~= old(
                out,
            )@ + right_justified(s@, width as nat));
        }
    }
}

} // verus!
