//! Minimal shell-style pattern matching for the ignore and hide filters:
//! `?` matches exactly one character, `*` matches any run of characters, and
//! the whole name must match, not a substring.
use vstd::prelude::*;

use crate::foreign::str_to_chars;

verus! {

/// Whether the pattern matches the whole name. A `*` matches the shortest
/// possible run first and grows one character at a time, as the backtracking
/// matcher does.
pub open spec fn spec_glob_match(p: Seq<char>, n: Seq<char>) -> bool
    decreases p.len() + n.len(),
{
    if p.len() == 0 {
        n.len() == 0
    } else if p[0] == '*' {
        spec_glob_match(p.skip(1), n) || (n.len() > 0 && spec_glob_match(p, n.skip(1)))
    } else if n.len() == 0 {
        false
    } else if p[0] == '?' || p[0] == n[0] {
        spec_glob_match(p.skip(1), n.skip(1))
    } else {
        false
    }
}

fn glob_match_at(p: &Vec<char>, n: &Vec<char>, pi: usize, ni: usize) -> (r: bool)
    requires
        pi <= p.len(),
        ni <= n.len(),
    ensures
        r == spec_glob_match(p@.skip(pi as int), n@.skip(ni as int)),
    decreases p.len() - pi + n.len() - ni,
{
    let ghost sp = p@.skip(pi as int);
    let ghost sn = n@.skip(ni as int);
    if pi == p.len() {
        ni == n.len()
    } else if p[pi] == '*' {
        proof {
            assert(sp.skip(1) == p@.skip(pi + 1 as int));
        }
        if glob_match_at(p, n, pi + 1, ni) {
            true
        } else if ni < n.len() {
            proof {
                assert(sn.skip(1) == n@.skip(ni + 1 as int));
            }
            glob_match_at(p, n, pi, ni + 1)
        } else {
            false
        }
    } else if ni == n.len() {
        false
    } else if p[pi] == '?' || p[pi] == n[ni] {
        proof {
            assert(sp.skip(1) == p@.skip(pi + 1 as int));
            assert(sn.skip(1) == n@.skip(ni + 1 as int));
        }
        glob_match_at(p, n, pi + 1, ni + 1)
    } else {
        false
    }
}

/// Whether `name` matches the shell-style `pattern`, anchored at both ends.
pub fn matches_glob_simple(name: &str, pattern: &str) -> (r: bool)
    ensures
        r == spec_glob_match(pattern@, name@),
{
    let pv = str_to_chars(pattern);
    let nv = str_to_chars(name);
    proof {
        assert(pv@.skip(0) == pv@);
        assert(nv@.skip(0) == nv@);
    }
    glob_match_at(&pv, &nv, 0, 0)
}

/// A character-vector form of the matcher, for callers that already hold the
/// name's characters.
pub fn glob_match_chars(pattern: &Vec<char>, name: &Vec<char>) -> (r: bool)
    ensures
        r == spec_glob_match(pattern@, name@),
{
    proof {
        assert(pattern@.skip(0) == pattern@);
        assert(name@.skip(0) == name@);
    }
    glob_match_at(pattern, name, 0, 0)
}

} // verus!
