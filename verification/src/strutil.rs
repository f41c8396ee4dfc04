//! Character-level helpers over `&str`: equality, prefix and suffix tests,
//! each specified against the string views.

use vstd::prelude::*;
use vstd::string::StrSliceExecFns;

verus! {

/// A prefix is found again, character by character, at the front of the
/// longer sequence.
pub proof fn lemma_prefix_index(p: Seq<char>, s: Seq<char>, i: int)
    requires
        p.is_prefix_of(s),
        0 <= i < p.len(),
    ensures
        s[i] == p[i],
{
    assert(s.subrange(0, p.len() as int)[i] == s[i]);
}

/// A suffix is found again, character by character, at the back of the
/// longer sequence.
pub proof fn lemma_suffix_index(p: Seq<char>, s: Seq<char>, i: int)
    requires
        p.is_suffix_of(s),
        0 <= i < p.len(),
    ensures
        s[s.len() - p.len() + i] == p[i],
{
    assert(s.subrange(s.len() - p.len(), s.len() as int)[i] == s[s.len() - p.len() + i]);
}

/// Compares two string slices character by character.
pub fn str_eq_chars(a: &str, b: &str) -> (r: bool)
    ensures
        r == (a@ == b@),
{
    let an: usize = a.unicode_len();
    let bn: usize = b.unicode_len();
    if an != bn {
        return false;
    }
    let mut j: usize = 0;
    while j < an
        invariant
            an == a@.len() == b@.len(),
            j <= an,
            forall|t: int| 0 <= t < j ==> a@[t] == b@[t],
        decreases an - j,
    {
        if a.get_char(j) != b.get_char(j) {
            return false;
        }
        j = j + 1;
    }
    assert(a@ =~= b@);
    true
}

/// True when `p`'s characters open `s`.
pub fn str_has_prefix(s: &str, p: &str) -> (r: bool)
    ensures
        r == p@.is_prefix_of(s@),
{
    let sn: usize = s.unicode_len();
    let pn: usize = p.unicode_len();
    if pn > sn {
        return false;
    }
    let mut j: usize = 0;
    while j < pn
        invariant
            sn == s@.len(),
            pn == p@.len() <= sn,
            j <= pn,
            forall|t: int| 0 <= t < j ==> s@[t] == p@[t],
        decreases pn - j,
    {
        if s.get_char(j) != p.get_char(j) {
            assert(!p@.is_prefix_of(s@)) by {
                assert(s@.subrange(0, p@.len() as int)[j as int] == s@[j as int]);
            }
            return false;
        }
        j = j + 1;
    }
    assert(s@.subrange(0, p@.len() as int) =~= p@);
    true
}

/// True when `p`'s characters close `s`.
pub fn str_has_suffix(s: &str, p: &str) -> (r: bool)
    ensures
        r == p@.is_suffix_of(s@),
{
    let sn: usize = s.unicode_len();
    let pn: usize = p.unicode_len();
    if pn > sn {
        return false;
    }
    let off: usize = sn - pn;
    let mut j: usize = 0;
    while j < pn
        invariant
            sn == s@.len(),
            pn == p@.len() <= sn,
            off == sn - pn,
            j <= pn,
            forall|t: int| 0 <= t < j ==> s@[off + t] == p@[t],
        decreases pn - j,
    {
        if s.get_char(off + j) != p.get_char(j) {
            assert(!p@.is_suffix_of(s@)) by {
                assert(s@.subrange(s@.len() - p@.len(), s@.len() as int)[j as int] == s@[off + j]);
            }
            return false;
        }
        j = j + 1;
    }
    assert(s@.subrange(s@.len() - p@.len(), s@.len() as int) =~= p@);
    true
}

} // verus!
