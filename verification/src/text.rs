//! Character and string helpers shared by the comparator, the classifier and
//! the renderers: lexicographic comparison of character sequences, decimal
//! rendering of integers, and padding.
use vstd::prelude::*;
use core::cmp::Ordering;

use crate::foreign::chars_to_string;

verus! {

/// ASCII lower case of one character: letters `A` to `Z` map to `a` to `z`,
/// every other character is unchanged.
pub open spec fn spec_lower_char(c: char) -> char {
    if 0x41 <= c as u32 && c as u32 <= 0x5a {
        ((c as u32 + 32) as u32) as char
    } else {
        c
    }
}

/// Whether a character is an ASCII decimal digit.
pub open spec fn spec_is_digit(c: char) -> bool {
    0x30 <= c as u32 && c as u32 <= 0x39
}

pub fn is_digit(c: char) -> (r: bool)
    ensures
        r == spec_is_digit(c),
{
    let u = c as u32;
    0x30 <= u && u <= 0x39
}

/// Lexicographic comparison of character sequences by code point; a strict
/// prefix sorts before the longer sequence.
pub open spec fn spec_lex_cmp(a: Seq<char>, b: Seq<char>) -> Ordering
    decreases a.len(),
{
    if a.len() == 0 && b.len() == 0 {
        Ordering::Equal
    } else if a.len() == 0 {
        Ordering::Less
    } else if b.len() == 0 {
        Ordering::Greater
    } else if (a[0] as u32) < (b[0] as u32) {
        Ordering::Less
    } else if (a[0] as u32) > (b[0] as u32) {
        Ordering::Greater
    } else {
        spec_lex_cmp(a.skip(1), b.skip(1))
    }
}

pub fn lex_cmp(a: &Vec<char>, b: &Vec<char>) -> (r: Ordering)
    ensures
        r == spec_lex_cmp(a@, b@),
{
    let mut i: usize = 0;
    proof {
        assert(a@.skip(0) == a@);
        assert(b@.skip(0) == b@);
    }
    loop
        invariant
            i <= a.len(),
            i <= b.len(),
            spec_lex_cmp(a@, b@) == spec_lex_cmp(a@.skip(i as int), b@.skip(i as int)),
        decreases a.len() - i,
    {
        if i >= a.len() {
            if i >= b.len() {
                return Ordering::Equal;
            }
            return Ordering::Less;
        }
        if i >= b.len() {
            return Ordering::Greater;
        }
        let ca = a[i] as u32;
        let cb = b[i] as u32;
        if ca < cb {
            return Ordering::Less;
        }
        if ca > cb {
            return Ordering::Greater;
        }
        proof {
            assert(a@.skip(i as int).skip(1) == a@.skip(i + 1 as int));
            assert(b@.skip(i as int).skip(1) == b@.skip(i + 1 as int));
        }
        i = i + 1;
    }
}

/// Whether two character vectors hold the same characters.
pub fn chars_eq(a: &Vec<char>, b: &Vec<char>) -> (r: bool)
    ensures
        r == (a@ == b@),
{
    if a.len() != b.len() {
        proof {
            assert(a@.len() != b@.len());
        }
        return false;
    }
    let mut i: usize = 0;
    while i < a.len()
        invariant
            i <= a.len(),
            a@.len() == b@.len(),
            forall|j: int| 0 <= j < i ==> a@[j] == b@[j],
        decreases a.len() - i,
    {
        if a[i] != b[i] {
            return false;
        }
        i = i + 1;
    }
    proof {
        assert(a@ =~= b@);
    }
    true
}

/// Whether two character vectors hold the same characters as a string slice.
pub fn chars_eq_str(v: &Vec<char>, s: &str) -> (r: bool)
    ensures
        r == (v@ == s@),
{
    let w = crate::foreign::str_to_chars(s);
    if v.len() != w.len() {
        proof {
            assert(v@.len() != s@.len());
        }
        return false;
    }
    let mut i: usize = 0;
    while i < v.len()
        invariant
            i <= v.len(),
            v@.len() == w@.len(),
            w@ == s@,
            forall|j: int| 0 <= j < i ==> v@[j] == w@[j],
        decreases v.len() - i,
    {
        if v[i] != w[i] {
            return false;
        }
        i = i + 1;
    }
    proof {
        assert(v@ =~= s@);
    }
    true
}

/// The decimal digit character for a value below ten.
pub open spec fn spec_digit_char(d: nat) -> char {
    if d == 0 {
        '0'
    } else if d == 1 {
        '1'
    } else if d == 2 {
        '2'
    } else if d == 3 {
        '3'
    } else if d == 4 {
        '4'
    } else if d == 5 {
        '5'
    } else if d == 6 {
        '6'
    } else if d == 7 {
        '7'
    } else if d == 8 {
        '8'
    } else {
        '9'
    }
}

/// The decimal rendering of a natural number, most significant digit first,
/// without leading zeros (zero itself is the single digit `0`).
pub open spec fn spec_dec(n: nat) -> Seq<char>
    decreases n,
{
    if n < 10 {
        seq![spec_digit_char(n)]
    } else {
        spec_dec(n / 10).push(spec_digit_char(n % 10))
    }
}

/// A decimal rendering holds digit characters only.
pub proof fn lemma_dec_digits(n: nat)
    ensures
        forall|k: int| 0 <= k < spec_dec(n).len() ==> spec_is_digit(#[trigger] spec_dec(n)[k]),
    decreases n,
{
    if n < 10 {
    } else {
        lemma_dec_digits(n / 10);
        assert forall|k: int| 0 <= k < spec_dec(n).len() implies spec_is_digit(
            #[trigger] spec_dec(n)[k],
        ) by {
            if k < spec_dec(n).len() - 1 {
                assert(spec_dec(n)[k] == spec_dec(n / 10)[k]);
            }
        }
    }
}

fn digit_char(d: u64) -> (r: char)
    requires
        d < 10,
    ensures
        r == spec_digit_char(d as nat),
{
    match d {
        0 => '0',
        1 => '1',
        2 => '2',
        3 => '3',
        4 => '4',
        5 => '5',
        6 => '6',
        7 => '7',
        8 => '8',
        _ => '9',
    }
}

fn push_dec(n: u64, out: &mut Vec<char>)
    ensures
        final(out)@ == old(out)@ + spec_dec(n as nat),
    decreases n,
{
    if n >= 10 {
        push_dec(n / 10, out);
    }
    out.push(digit_char(n % 10));
    proof {
        assert(out@ =~= old(out)@ + spec_dec(n as nat));
    }
}

/// The decimal string of an unsigned integer.
pub fn u64_to_string(n: u64) -> (r: String)
    ensures
        r@ == spec_dec(n as nat),
{
    let mut v: Vec<char> = Vec::new();
    push_dec(n, &mut v);
    proof {
        assert(v@ =~= spec_dec(n as nat));
    }
    chars_to_string(&v)
}

/// A run of `n` spaces.
pub open spec fn spec_spaces(n: nat) -> Seq<char>
    decreases n,
{
    if n == 0 {
        Seq::empty()
    } else {
        spec_spaces((n - 1) as nat).push(' ')
    }
}

pub fn push_spaces(out: &mut Vec<char>, n: usize)
    ensures
        final(out)@ == old(out)@ + spec_spaces(n as nat),
    decreases n,
{
    let mut i: usize = 0;
    while i < n
        invariant
            i <= n,
            out@ == old(out)@ + spec_spaces(i as nat),
        decreases n - i,
    {
        out.push(' ');
        i = i + 1;
    }
}

} // verus!

verus! {

/// Append every character of `s`.
pub fn push_chars(out: &mut Vec<char>, s: &Vec<char>)
    ensures
        final(out)@ == old(out)@ + s@,
{
    let mut j: usize = 0;
    while j < s.len()
        invariant
            j <= s.len(),
            out@ == old(out)@ + s@.take(j as int),
        decreases s.len() - j,
    {
        out.push(s[j]);
        proof {
            assert(s@.take(j + 1 as int) =~= s@.take(j as int).push(s@[j as int]));
        }
        j = j + 1;
    }
    proof {
        assert(s@.take(s@.len() as int) == s@);
        assert(out@ =~= old(out)@ + s@);
    }
}

/// Append every character of a string slice.
pub fn push_str_chars(out: &mut Vec<char>, s: &str)
    ensures
        final(out)@ == old(out)@ + s@,
{
    let v = crate::foreign::str_to_chars(s);
    push_chars(out, &v);
}

/// Text padded on the left with spaces up to a field width; text at least as
/// wide as the field is kept whole.
pub open spec fn spec_pad_left(s: Seq<char>, w: nat) -> Seq<char> {
    if s.len() >= w {
        s
    } else {
        spec_spaces((w - s.len()) as nat) + s
    }
}

/// Text padded on the right with spaces up to a field width.
pub open spec fn spec_pad_right(s: Seq<char>, w: nat) -> Seq<char> {
    if s.len() >= w {
        s
    } else {
        s + spec_spaces((w - s.len()) as nat)
    }
}

pub fn push_pad_left(out: &mut Vec<char>, s: &Vec<char>, w: usize)
    ensures
        final(out)@ == old(out)@ + spec_pad_left(s@, w as nat),
{
    if s.len() < w {
        push_spaces(out, w - s.len());
    }
    push_chars(out, s);
    proof {
        assert(out@ =~= old(out)@ + spec_pad_left(s@, w as nat));
    }
}

pub fn push_pad_right(out: &mut Vec<char>, s: &Vec<char>, w: usize)
    ensures
        final(out)@ == old(out)@ + spec_pad_right(s@, w as nat),
{
    let n = s.len();
    push_chars(out, s);
    if n < w {
        push_spaces(out, w - n);
    }
    proof {
        assert(out@ =~= old(out)@ + spec_pad_right(s@, w as nat));
    }
}

} // verus!

verus! {

/// Sequences that compare Equal lexicographically are the same sequence.
pub proof fn lemma_lex_cmp_equal_is_eq(a: Seq<char>, b: Seq<char>)
    requires
        spec_lex_cmp(a, b) == core::cmp::Ordering::Equal,
    ensures
        a == b,
    decreases a.len(),
{
    if a.len() == 0 && b.len() == 0 {
        assert(a =~= b);
    } else {
        lemma_lex_cmp_equal_is_eq(a.skip(1), b.skip(1));
        vstd::utf8::char_u32_cast(a[0], a[0] as u32);
        vstd::utf8::char_u32_cast(b[0], b[0] as u32);
        assert(a[0] == b[0]);
        assert(a.skip(1).len() == b.skip(1).len());
        assert forall|i: int| 0 <= i < a.len() implies a[i] == b[i] by {
            if i > 0 {
                assert(a.skip(1)[i - 1] == a[i]);
                assert(b.skip(1)[i - 1] == b[i]);
            }
        }
        assert(a =~= b);
    }
}

/// Every sequence compares Equal to itself.
pub proof fn lemma_lex_cmp_reflexive(a: Seq<char>)
    ensures
        spec_lex_cmp(a, a) == core::cmp::Ordering::Equal,
    decreases a.len(),
{
    if a.len() > 0 {
        lemma_lex_cmp_reflexive(a.skip(1));
    }
}

/// Exchanging the sequences exchanges Less and Greater.
pub proof fn lemma_lex_cmp_antisymmetric(a: Seq<char>, b: Seq<char>)
    ensures
        spec_lex_cmp(a, b) == crate::compare::flip(spec_lex_cmp(b, a)),
    decreases a.len(),
{
    if a.len() > 0 && b.len() > 0 {
        lemma_lex_cmp_antisymmetric(a.skip(1), b.skip(1));
    }
}

/// Lexicographic comparison is transitive on strict comparisons.
pub proof fn lemma_lex_cmp_transitive(a: Seq<char>, b: Seq<char>, c: Seq<char>)
    requires
        spec_lex_cmp(a, b) == core::cmp::Ordering::Less,
        spec_lex_cmp(b, c) == core::cmp::Ordering::Less,
    ensures
        spec_lex_cmp(a, c) == core::cmp::Ordering::Less,
    decreases a.len() + b.len() + c.len(),
{
    if a.len() == 0 {
    } else {
        assert(b.len() > 0 && c.len() > 0);
        if (a[0] as u32) == (b[0] as u32) && (b[0] as u32) == (c[0] as u32) {
            lemma_lex_cmp_transitive(a.skip(1), b.skip(1), c.skip(1));
        }
    }
}

} // verus!
