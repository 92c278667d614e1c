//! Suffix and substring tests on text, character by character.

use vstd::prelude::*;
use vstd::std_specs::iter::IteratorSpec;

verus! {

broadcast use vstd::string::group_string_axioms;

/// `pat` is a suffix of `s`.
pub open spec fn is_suffix(pat: Seq<char>, s: Seq<char>) -> bool {
    pat.len() <= s.len() && s.subrange(s.len() - pat.len(), s.len() as int) == pat
}

/// `pat` occurs in `s` starting at position `at`.
pub open spec fn occurs_at(pat: Seq<char>, s: Seq<char>, at: int) -> bool {
    0 <= at && at + pat.len() <= s.len() && s.subrange(at, at + pat.len()) == pat
}

/// `pat` occurs somewhere in `s`.
pub open spec fn is_substring(pat: Seq<char>, s: Seq<char>) -> bool {
    exists|at: int| occurs_at(pat, s, at)
}

/// The characters of `s`, in order.
pub fn to_chars(s: &str) -> (chars: Vec<char>)
    ensures
        chars@ == s@,
{
    let mut rest = s.chars();
    let mut chars: Vec<char> = Vec::new();
    loop
        invariant
            chars@ + rest.remaining() == s@,
            rest.decrease() is Some,
        decreases rest.decrease()->0,
    {
        match rest.next() {
            Some(c) => {
                chars.push(c);
                assert(chars@ + rest.remaining() =~= s@);
            },
            None => {
                assert(chars@ =~= s@);
                return chars;
            },
        }
    }
}

/// Whether `pat` is found in `s` at position `at`.
pub fn matches_at(s: &Vec<char>, pat: &Vec<char>, at: usize) -> (found: bool)
    ensures
        found == occurs_at(pat@, s@, at as int),
{
    if pat.len() > s.len() || at > s.len() - pat.len() {
        return false;
    }
    let mut j: usize = 0;
    while j < pat.len()
        invariant
            at + pat.len() <= s.len(),
            j <= pat.len(),
            forall|k: int| 0 <= k < j ==> s@[at + k] == pat@[k],
        decreases pat.len() - j,
    {
        if s[at + j] != pat[j] {
            proof {
                let window = s@.subrange(at as int, at + pat.len());
                assert(window[j as int] == s@[at + j]);
            }
            return false;
        }
        j = j + 1;
    }
    assert(s@.subrange(at as int, at + pat.len()) =~= pat@);
    true
}

/// Whether the characters `s` end with the characters `pat`.
pub fn chars_end_with(s: &Vec<char>, pat: &Vec<char>) -> (found: bool)
    ensures
        found == is_suffix(pat@, s@),
{
    if pat.len() > s.len() {
        return false;
    }
    matches_at(s, pat, s.len() - pat.len())
}

/// Whether the characters `pat` occur anywhere in the characters `s`.
pub fn chars_contain(s: &Vec<char>, pat: &Vec<char>) -> (found: bool)
    ensures
        found == is_substring(pat@, s@),
{
    if pat.len() > s.len() {
        return false;
    }
    let last: usize = s.len() - pat.len();
    let mut at: usize = 0;
    loop
        invariant
            last == s.len() - pat.len(),
            at <= last,
            forall|k: int| 0 <= k < at ==> !occurs_at(pat@, s@, k),
        decreases last - at,
    {
        if matches_at(s, pat, at) {
            return true;
        }
        if at == last {
            return false;
        }
        at = at + 1;
    }
}

/// Whether `s` ends with `pat`. Case-sensitive.
pub fn ends_with(s: &str, pat: &str) -> (found: bool)
    ensures
        found == is_suffix(pat@, s@),
{
    let s_chars = to_chars(s);
    let pat_chars = to_chars(pat);
    chars_end_with(&s_chars, &pat_chars)
}

/// Whether `pat` occurs anywhere in `s`. Case-sensitive.
pub fn contains(s: &str, pat: &str) -> (found: bool)
    ensures
        found == is_substring(pat@, s@),
{
    let s_chars = to_chars(s);
    let pat_chars = to_chars(pat);
    chars_contain(&s_chars, &pat_chars)
}

} // verus!
