//! Small string helpers shared by the release transformer: suffix tests,
//! suffix removal and trailing-whitespace trimming, each specified over the
//! character sequence of the string.

use vstd::prelude::*;

verus! {

/// The views of a sequence of strings.
pub open spec fn views_of(v: Seq<String>) -> Seq<Seq<char>> {
    v.map_values(|t: String| t@)
}

/// True when `suffix` is a suffix of `s`.
pub open spec fn seq_ends_with(s: Seq<char>, suffix: Seq<char>) -> bool {
    suffix.len() <= s.len() && s.subrange(s.len() - suffix.len(), s.len() as int) == suffix
}

/// `s` with `suffix` removed from its end when present, `s` unchanged otherwise.
pub open spec fn spec_remove_suffix(s: Seq<char>, suffix: Seq<char>) -> Seq<char> {
    if seq_ends_with(s, suffix) {
        s.take(s.len() - suffix.len())
    } else {
        s
    }
}

/// The characters stripped from the end of release notes.
pub open spec fn is_trailing_char(c: char) -> bool {
    c == '\r' || c == '\n' || c == ' '
}

/// `s` with every trailing carriage return, newline and space removed.
pub open spec fn spec_trim_end(s: Seq<char>) -> Seq<char>
    decreases s.len(),
{
    if s.len() > 0 && is_trailing_char(s.last()) {
        spec_trim_end(s.drop_last())
    } else {
        s
    }
}

/// Whether `suffix` ends `s`, decided character by character.
pub fn str_ends_with(s: &str, suffix: &str) -> (r: bool)
    ensures
        r == seq_ends_with(s@, suffix@),
{
    let n = s.unicode_len();
    let m = suffix.unicode_len();
    if m > n {
        return false;
    }
    let mut i: usize = 0;
    while i < m
        invariant
            m <= n,
            n == s@.len(),
            m == suffix@.len(),
            i <= m,
            forall|j: int| 0 <= j < i ==> s@[n - m + j] == suffix@[j],
        decreases m - i,
    {
        if s.get_char(n - m + i) != suffix.get_char(i) {
            assert(s@.subrange(n - m, n as int)[i as int] != suffix@[i as int]);
            return false;
        }
        i += 1;
    }
    proof {
        assert(s@.subrange(n - m, n as int) =~= suffix@);
    }
    true
}

/// `s` without `suffix` when `s` ends with it, `s` itself otherwise.
pub fn remove_suffix<'a>(s: &'a str, suffix: &str) -> (r: &'a str)
    ensures
        r@ == spec_remove_suffix(s@, suffix@),
{
    let n = s.unicode_len();
    let m = suffix.unicode_len();
    if str_ends_with(s, suffix) {
        let r = s.substring_char(0, n - m);
        proof {
            assert(r@ =~= s@.take(s@.len() - suffix@.len()));
        }
        r
    } else {
        s
    }
}

/// Whether the character of `s` at position `i` is a trailing character.
fn is_trailing_at(s: &str, i: usize) -> (r: bool)
    requires
        i < s@.len(),
    ensures
        r == is_trailing_char(s@[i as int]),
{
    let c = s.get_char(i);
    c == '\r' || c == '\n' || c == ' '
}

/// `s` with every trailing carriage return, newline and space removed.
pub fn trim_release_notes_end<'a>(s: &'a str) -> (r: &'a str)
    ensures
        r@ == spec_trim_end(s@),
{
    let n = s.unicode_len();
    let mut k: usize = n;
    proof {
        assert(s@.take(n as int) =~= s@);
    }
    while k > 0 && is_trailing_at(s, k - 1)
        invariant
            k <= n,
            n == s@.len(),
            spec_trim_end(s@) == spec_trim_end(s@.take(k as int)),
        decreases k,
    {
        proof {
            assert(s@.take(k as int).last() == s@[k - 1]);
            assert(s@.take(k as int).drop_last() =~= s@.take(k - 1));
        }
        k -= 1;
    }
    proof {
        if k > 0 {
            assert(s@.take(k as int).last() == s@[k - 1]);
        }
        assert(spec_trim_end(s@.take(k as int)) == s@.take(k as int));
    }
    let r = s.substring_char(0, k);
    proof {
        assert(r@ =~= s@.take(k as int));
    }
    r
}

/// Character-wise string equality.
pub fn str_eq(a: &str, b: &str) -> (r: bool)
    ensures
        r == (a@ == b@),
{
    let na = a.unicode_len();
    let nb = b.unicode_len();
    if na != nb {
        return false;
    }
    let mut i: usize = 0;
    while i < na
        invariant
            na == a@.len(),
            nb == b@.len(),
            na == nb,
            i <= na,
            forall|j: int| 0 <= j < i ==> a@[j] == b@[j],
        decreases na - i,
    {
        if a.get_char(i) != b.get_char(i) {
            return false;
        }
        i += 1;
    }
    proof {
        assert(a@ =~= b@);
    }
    true
}

} // verus!
