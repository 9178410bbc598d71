//! The natural/version comparator: names are compared character by character,
//! except that maximal runs of ASCII digits are compared by numeric value
//! (saturating at the width of `u64`), and characters compare first by
//! Unicode lower case, then by raw code point to break case ties.
use vstd::prelude::*;
use core::cmp::Ordering;

use crate::foreign::{char_fold_lower, lower_char_of, str_to_chars};
use crate::text::{is_digit, spec_is_digit};

verus! {

/// The character folding the natural order uses: the Unicode lower case of
/// the character, under two guards that restate what is true of the real
/// folding — an ASCII digit folds to itself, and no other character folds
/// into the digit range — in a form the order proofs can use. On every
/// character the guards change nothing, because the folding already behaves
/// so.
pub open spec fn spec_fold_char(c: char) -> char {
    if spec_is_digit(c) {
        c
    } else if spec_is_digit(lower_char_of(c)) {
        c
    } else {
        lower_char_of(c)
    }
}

/// Length of the leading run of ASCII digits.
pub open spec fn run_len(s: Seq<char>) -> nat
    decreases s.len(),
{
    if s.len() == 0 || !spec_is_digit(s[0]) {
        0
    } else {
        1 + run_len(s.skip(1))
    }
}

/// Numeric value of one digit character.
pub open spec fn digit_val(c: char) -> nat {
    (c as u32 - 0x30) as nat
}

/// Numeric value of a sequence of digit characters, most significant first.
pub open spec fn digits_val(s: Seq<char>) -> nat
    decreases s.len(),
{
    if s.len() == 0 {
        0
    } else {
        digits_val(s.drop_last()) * 10 + digit_val(s.last())
    }
}

/// A value capped at the largest `u64`, the saturation the comparator uses
/// for overlong digit runs.
pub open spec fn sat64(n: nat) -> nat {
    if n > u64::MAX {
        u64::MAX as nat
    } else {
        n
    }
}

pub proof fn lemma_run_len_le(s: Seq<char>)
    ensures
        run_len(s) <= s.len(),
        s.len() > 0 && spec_is_digit(s[0]) ==> run_len(s) >= 1,
        forall|j: int| 0 <= j < run_len(s) ==> spec_is_digit(s[j]),
        run_len(s) < s.len() ==> !spec_is_digit(s[run_len(s) as int]),
    decreases s.len(),
{
    if s.len() > 0 && spec_is_digit(s[0]) {
        lemma_run_len_le(s.skip(1));
        assert forall|j: int| 0 <= j < run_len(s) implies spec_is_digit(s[j]) by {
            if j > 0 {
                assert(s.skip(1)[j - 1] == s[j]);
            }
        }
        if run_len(s) < s.len() {
            assert(s.skip(1)[run_len(s) - 1] == s[run_len(s) as int]);
        }
    }
}

/// The natural/version ordering on names. Equal-valued digit runs (such as
/// `09` and `9`) compare equal and the scan continues past both; characters
/// compare by Unicode lower case first, raw code point second, and a difference
/// ends the comparison at once. A strict prefix sorts before the longer name.
pub open spec fn spec_version_cmp(a: Seq<char>, b: Seq<char>) -> Ordering
    decreases a.len() + b.len(),
    via spec_version_cmp_decreases
{
    if a.len() == 0 && b.len() == 0 {
        Ordering::Equal
    } else if a.len() == 0 {
        Ordering::Less
    } else if b.len() == 0 {
        Ordering::Greater
    } else if spec_is_digit(a[0]) && spec_is_digit(b[0]) {
        let na = sat64(digits_val(a.take(run_len(a) as int)));
        let nb = sat64(digits_val(b.take(run_len(b) as int)));
        if na < nb {
            Ordering::Less
        } else if na > nb {
            Ordering::Greater
        } else {
            spec_version_cmp(a.skip(run_len(a) as int), b.skip(run_len(b) as int))
        }
    } else {
        let la = spec_fold_char(a[0]) as u32;
        let lb = spec_fold_char(b[0]) as u32;
        if la < lb {
            Ordering::Less
        } else if la > lb {
            Ordering::Greater
        } else if (a[0] as u32) < (b[0] as u32) {
            Ordering::Less
        } else if (a[0] as u32) > (b[0] as u32) {
            Ordering::Greater
        } else {
            spec_version_cmp(a.skip(1), b.skip(1))
        }
    }
}

#[via_fn]
proof fn spec_version_cmp_decreases(a: Seq<char>, b: Seq<char>) {
    if a.len() > 0 && b.len() > 0 && spec_is_digit(a[0]) && spec_is_digit(b[0]) {
        lemma_run_len_le(a);
        lemma_run_len_le(b);
    }
}

/// End of the digit run that starts at `i`.
fn run_end(v: &Vec<char>, i: usize) -> (r: usize)
    requires
        i <= v.len(),
    ensures
        i <= r <= v.len(),
        r - i == run_len(v@.skip(i as int)),
    decreases v.len() - i,
{
    proof {
        lemma_run_len_le(v@.skip(i as int));
    }
    if i < v.len() && is_digit(v[i]) {
        let r = run_end(v, i + 1);
        proof {
            assert(v@.skip(i as int).skip(1) == v@.skip(i + 1 as int));
        }
        r
    } else {
        i
    }
}

/// Parse the digit characters in `v[i..r]` as a number, saturating at the
/// largest `u64`.
fn parse_sat(v: &Vec<char>, i: usize, r: usize) -> (n: u64)
    requires
        i <= r <= v.len(),
        forall|j: int| i <= j < r ==> spec_is_digit(v@[j]),
    ensures
        n as nat == sat64(digits_val(v@.subrange(i as int, r as int))),
{
    let mut n: u64 = 0;
    let mut j: usize = i;
    proof {
        assert(v@.subrange(i as int, i as int) =~= Seq::<char>::empty());
    }
    while j < r
        invariant
            i <= j <= r <= v.len(),
            forall|k: int| i <= k < r ==> spec_is_digit(v@[k]),
            n as nat == sat64(digits_val(v@.subrange(i as int, j as int))),
        decreases r - j,
    {
        let c = v[j];
        let d: u64 = (c as u32 - 0x30) as u64;
        proof {
            assert(spec_is_digit(v@[j as int]));
            assert(d < 10);
            let pre = v@.subrange(i as int, j as int);
            let cur = v@.subrange(i as int, j + 1 as int);
            assert(cur.drop_last() =~= pre);
            assert(cur.last() == v@[j as int]);
            assert(digits_val(cur) == digits_val(pre) * 10 + digit_val(v@[j as int]));
        }
        let ghost pv = digits_val(v@.subrange(i as int, j as int));
        let ghost cv = digits_val(v@.subrange(i as int, j + 1 as int));
        if n > (u64::MAX - d) / 10 {
            proof {
                assert(n as nat * 10 + d > u64::MAX) by (nonlinear_arith)
                    requires
                        d < 10,
                        n > (u64::MAX - d) / 10,
                ;
                if pv > u64::MAX {
                    assert(cv == pv * 10 + digit_val(v@[j as int]));
                    assert(cv >= pv) by (nonlinear_arith)
                        requires
                            cv == pv * 10 + digit_val(v@[j as int]),
                    ;
                } else {
                    assert(cv == n as nat * 10 + d);
                }
                assert(sat64(cv) == u64::MAX as nat);
            }
            n = u64::MAX;
        } else {
            proof {
                assert(n as nat * 10 + d <= u64::MAX) by (nonlinear_arith)
                    requires
                        d < 10,
                        n <= (u64::MAX - d) / 10,
                ;
                if pv > u64::MAX {
                    assert(n == u64::MAX as nat);
                    assert(false) by (nonlinear_arith)
                        requires
                            n == u64::MAX as nat,
                            d < 10,
                            n as nat * 10 + d <= u64::MAX,
                    ;
                }
                assert(sat64(cv) == n as nat * 10 + d);
            }
            n = n * 10 + d;
        }
        j = j + 1;
    }
    n
}

fn version_cmp_at(a: &Vec<char>, b: &Vec<char>, ai: usize, bi: usize) -> (r: Ordering)
    requires
        ai <= a.len(),
        bi <= b.len(),
    ensures
        r == spec_version_cmp(a@.skip(ai as int), b@.skip(bi as int)),
    decreases a.len() - ai + b.len() - bi,
{
    let ghost sa = a@.skip(ai as int);
    let ghost sb = b@.skip(bi as int);
    if ai == a.len() && bi == b.len() {
        Ordering::Equal
    } else if ai == a.len() {
        Ordering::Less
    } else if bi == b.len() {
        Ordering::Greater
    } else if is_digit(a[ai]) && is_digit(b[bi]) {
        let ar = run_end(a, ai);
        let br = run_end(b, bi);
        proof {
            lemma_run_len_le(sa);
            lemma_run_len_le(sb);
            assert(sa.take(run_len(sa) as int) =~= a@.subrange(ai as int, ar as int));
            assert(sb.take(run_len(sb) as int) =~= b@.subrange(bi as int, br as int));
            assert forall|j: int| ai <= j < ar implies spec_is_digit(a@[j]) by {
                assert(sa[j - ai] == a@[j]);
            }
            assert forall|j: int| bi <= j < br implies spec_is_digit(b@[j]) by {
                assert(sb[j - bi] == b@[j]);
            }
        }
        let na = parse_sat(a, ai, ar);
        let nb = parse_sat(b, bi, br);
        if na < nb {
            Ordering::Less
        } else if na > nb {
            Ordering::Greater
        } else {
            proof {
                assert(sa.skip(run_len(sa) as int) == a@.skip(ar as int));
                assert(sb.skip(run_len(sb) as int) == b@.skip(br as int));
            }
            version_cmp_at(a, b, ar, br)
        }
    } else {
        let ca = a[ai];
        let cb = b[bi];
        let fa = char_fold_lower(ca);
        let fb = char_fold_lower(cb);
        proof {
            assert(fa == spec_fold_char(ca));
            assert(fb == spec_fold_char(cb));
        }
        let la = fa as u32;
        let lb = fb as u32;
        if la < lb {
            Ordering::Less
        } else if la > lb {
            Ordering::Greater
        } else if (ca as u32) < (cb as u32) {
            Ordering::Less
        } else if (ca as u32) > (cb as u32) {
            Ordering::Greater
        } else {
            proof {
                assert(sa.skip(1) == a@.skip(ai + 1 as int));
                assert(sb.skip(1) == b@.skip(bi + 1 as int));
            }
            version_cmp_at(a, b, ai + 1, bi + 1)
        }
    }
}

/// Compare two character vectors in natural/version order.
pub fn version_cmp_chars(a: &Vec<char>, b: &Vec<char>) -> (r: Ordering)
    ensures
        r == spec_version_cmp(a@, b@),
{
    proof {
        assert(a@.skip(0) == a@);
        assert(b@.skip(0) == b@);
    }
    version_cmp_at(a, b, 0, 0)
}

/// Compare two names in natural/version order.
pub fn version_compare(a: &str, b: &str) -> (r: Ordering)
    ensures
        r == spec_version_cmp(a@, b@),
{
    let av = str_to_chars(a);
    let bv = str_to_chars(b);
    version_cmp_chars(&av, &bv)
}

} // verus!

verus! {

/// The ordering with Less and Greater exchanged.
pub open spec fn flip(o: Ordering) -> Ordering {
    match o {
        Ordering::Less => Ordering::Greater,
        Ordering::Equal => Ordering::Equal,
        Ordering::Greater => Ordering::Less,
    }
}

/// The folding keeps digits fixed and never turns another character into a
/// digit; these two facts make the mixed digit-and-letter cases of the
/// ordering line up.
proof fn lemma_fold_char_facts(c: char)
    ensures
        spec_is_digit(c) ==> spec_fold_char(c) == c,
        !spec_is_digit(c) ==> !spec_is_digit(spec_fold_char(c)),
{
}

/// Every name compares equal to itself.
pub proof fn lemma_version_cmp_reflexive(a: Seq<char>)
    ensures
        spec_version_cmp(a, a) == Ordering::Equal,
    decreases a.len(),
{
    if a.len() == 0 {
    } else if spec_is_digit(a[0]) {
        lemma_run_len_le(a);
        lemma_version_cmp_reflexive(a.skip(run_len(a) as int));
    } else {
        lemma_version_cmp_reflexive(a.skip(1));
    }
}

/// Exchanging the two names exchanges Less and Greater: the ordering is
/// antisymmetric.
pub proof fn lemma_version_cmp_antisymmetric(a: Seq<char>, b: Seq<char>)
    ensures
        spec_version_cmp(a, b) == flip(spec_version_cmp(b, a)),
    decreases a.len() + b.len(),
{
    if a.len() == 0 || b.len() == 0 {
    } else if spec_is_digit(a[0]) && spec_is_digit(b[0]) {
        lemma_run_len_le(a);
        lemma_run_len_le(b);
        let na = sat64(digits_val(a.take(run_len(a) as int)));
        let nb = sat64(digits_val(b.take(run_len(b) as int)));
        if na == nb {
            lemma_version_cmp_antisymmetric(
                a.skip(run_len(a) as int),
                b.skip(run_len(b) as int),
            );
        }
    } else {
        let la = spec_fold_char(a[0]) as u32;
        let lb = spec_fold_char(b[0]) as u32;
        if la == lb && a[0] as u32 == b[0] as u32 {
            lemma_version_cmp_antisymmetric(a.skip(1), b.skip(1));
        }
    }
}

/// The ordering is transitive on strict comparisons.
pub proof fn lemma_version_cmp_transitive(a: Seq<char>, b: Seq<char>, c: Seq<char>)
    requires
        spec_version_cmp(a, b) == Ordering::Less,
        spec_version_cmp(b, c) == Ordering::Less,
    ensures
        spec_version_cmp(a, c) == Ordering::Less,
    decreases a.len() + b.len() + c.len(),
{
    assert(b.len() > 0);
    assert(c.len() > 0);
    if a.len() == 0 {
    } else {
        lemma_run_len_le(a);
        lemma_run_len_le(b);
        lemma_run_len_le(c);
        lemma_fold_char_facts(a[0]);
        lemma_fold_char_facts(b[0]);
        lemma_fold_char_facts(c[0]);
        let da = spec_is_digit(a[0]);
        let db = spec_is_digit(b[0]);
        let dc = spec_is_digit(c[0]);
        let na = sat64(digits_val(a.take(run_len(a) as int)));
        let nb = sat64(digits_val(b.take(run_len(b) as int)));
        let nc = sat64(digits_val(c.take(run_len(c) as int)));
        let la = spec_fold_char(a[0]) as u32;
        let lb = spec_fold_char(b[0]) as u32;
        let lc = spec_fold_char(c[0]) as u32;
        let ra = a[0] as u32;
        let rb = b[0] as u32;
        let rc = c[0] as u32;
        if da && db && dc {
            if na == nb && nb == nc {
                lemma_version_cmp_transitive(
                    a.skip(run_len(a) as int),
                    b.skip(run_len(b) as int),
                    c.skip(run_len(c) as int),
                );
            }
        } else if da && db && !dc {
            // b against c compared characters, so the folded head of c lies
            // above the digit range, and a's digit head lies below it too.
            assert(lb == rb);
            assert(lc > 0x39);
            assert(ra <= 0x39);
        } else if da && !db && dc {
            // a lost to b on characters, so the folded head of b lies above
            // the digit range; but then b could not lose to the digit head
            // of c.
            assert(la == ra);
            assert(lb > 0x39);
            assert(false);
        } else if da && !db && !dc {
            assert(la == ra && la <= 0x39);
            assert(lb > 0x39);
            assert(lb <= lc);
        } else if !da && db && dc {
            assert(la < 0x30);
            assert(lc == rc && lc >= 0x30);
        } else if !da && db && !dc {
            assert(la < 0x30);
            assert(lb == rb && lb >= 0x30);
            assert(lb <= lc);
        } else if !da && !db && dc {
            assert(lb < 0x30);
            assert(la <= lb);
            assert(lc == rc && lc >= 0x30);
        } else {
            if la == lb && ra == rb && lb == lc && rb == rc {
                lemma_version_cmp_transitive(a.skip(1), b.skip(1), c.skip(1));
            }
        }
    }
}

/// A comparison that came out Equal composes with a later comparison: names
/// that compare equal order the same way against every third name.
pub proof fn lemma_version_cmp_equal_composes(a: Seq<char>, b: Seq<char>, c: Seq<char>)
    requires
        spec_version_cmp(a, b) == Ordering::Equal,
    ensures
        spec_version_cmp(a, c) == spec_version_cmp(b, c),
    decreases a.len() + b.len() + c.len(),
{
    if a.len() == 0 && b.len() == 0 {
    } else {
        assert(a.len() > 0 && b.len() > 0);
        lemma_run_len_le(a);
        lemma_run_len_le(b);
        lemma_run_len_le(c);
        lemma_fold_char_facts(a[0]);
        lemma_fold_char_facts(b[0]);
        let da = spec_is_digit(a[0]);
        let db = spec_is_digit(b[0]);
        if da && db {
            let na = sat64(digits_val(a.take(run_len(a) as int)));
            let nb = sat64(digits_val(b.take(run_len(b) as int)));
            assert(na == nb);
            if c.len() > 0 && spec_is_digit(c[0]) {
                let nc = sat64(digits_val(c.take(run_len(c) as int)));
                if na == nc {
                    lemma_version_cmp_equal_composes(
                        a.skip(run_len(a) as int),
                        b.skip(run_len(b) as int),
                        c.skip(run_len(c) as int),
                    );
                }
            } else if c.len() > 0 {
                // Both a and b compare their digit heads against the same
                // non-digit head of c, and all digits fall on the same side
                // of it.
                lemma_fold_char_facts(c[0]);
                assert((spec_fold_char(c[0]) as u32) < 0x30 || (spec_fold_char(c[0]) as u32)
                    > 0x39);
            }
        } else {
            // Character heads that compare Equal are identical.
            assert(!da && !db);
            assert(a[0] as u32 == b[0] as u32);
            if c.len() > 0 {
                lemma_version_cmp_equal_composes(a.skip(1), b.skip(1), c);
                if !spec_is_digit(c[0]) {
                    if spec_fold_char(a[0]) == spec_fold_char(c[0]) && a[0] as u32 == c[0]
                        as u32 {
                        lemma_version_cmp_equal_composes(a.skip(1), b.skip(1), c.skip(1));
                    }
                }
            }
        }
    }
}

/// Names made of digits alone order by their numeric value, the saturated
/// value for runs too long for a machine word; equal values compare Equal
/// even when written with different leading zeros.
pub proof fn lemma_version_cmp_digit_names(a: Seq<char>, b: Seq<char>)
    requires
        a.len() > 0,
        b.len() > 0,
        forall|j: int| 0 <= j < a.len() ==> spec_is_digit(a[j]),
        forall|j: int| 0 <= j < b.len() ==> spec_is_digit(b[j]),
    ensures
        sat64(digits_val(a)) < sat64(digits_val(b)) ==> spec_version_cmp(a, b)
            == Ordering::Less,
        sat64(digits_val(a)) > sat64(digits_val(b)) ==> spec_version_cmp(a, b)
            == Ordering::Greater,
        sat64(digits_val(a)) == sat64(digits_val(b)) ==> spec_version_cmp(a, b)
            == Ordering::Equal,
{
    lemma_run_len_all_digits(a);
    lemma_run_len_all_digits(b);
    assert(a.take(run_len(a) as int) == a);
    assert(b.take(run_len(b) as int) == b);
    assert(a.skip(run_len(a) as int) =~= Seq::<char>::empty());
    assert(b.skip(run_len(b) as int) =~= Seq::<char>::empty());
    assert(spec_version_cmp(Seq::<char>::empty(), Seq::<char>::empty()) == Ordering::Equal);
}

proof fn lemma_run_len_all_digits(s: Seq<char>)
    requires
        forall|j: int| 0 <= j < s.len() ==> spec_is_digit(s[j]),
    ensures
        run_len(s) == s.len(),
    decreases s.len(),
{
    if s.len() > 0 {
        assert forall|j: int| 0 <= j < s.skip(1).len() implies spec_is_digit(s.skip(1)[j]) by {
            assert(s.skip(1)[j] == s[j + 1]);
        }
        lemma_run_len_all_digits(s.skip(1));
    }
}

} // verus!
