//! Dotted version comparison.
//!
//! A version string has the form `[v]MAJOR.MINOR.PATCH`; further dot-separated
//! components are ignored, and fewer than three components makes the
//! comparison indeterminate, which is reported as "no update" (fail closed).
//! Components are compared as their literal character sequences, not as
//! numbers, so `"9" >= "10"` holds; this lexicographic behaviour is kept on
//! purpose, caveat included.

use vstd::prelude::*;

use crate::utils::views_of;

verus! {

/// Index of the first `'.'` in `s`, or `-1` when there is none.
pub open spec fn first_dot(s: Seq<char>) -> int
    decreases s.len(),
{
    if s.len() == 0 {
        -1
    } else if s[0] == '.' {
        0
    } else if first_dot(s.skip(1)) == -1 {
        -1
    } else {
        first_dot(s.skip(1)) + 1
    }
}

/// `first_dot` returns `-1` or the position of a dot that no dot precedes.
pub proof fn lemma_first_dot(s: Seq<char>)
    ensures
        first_dot(s) == -1 ==> forall|j: int| 0 <= j < s.len() ==> s[j] != '.',
        first_dot(s) != -1 ==> 0 <= first_dot(s) < s.len() && s[first_dot(s)] == '.' && (forall|
            j: int,
        | 0 <= j < first_dot(s) ==> s[j] != '.'),
    decreases s.len(),
{
    if s.len() == 0 {
    } else if s[0] == '.' {
    } else {
        lemma_first_dot(s.skip(1));
        if first_dot(s) != -1 {
            assert forall|j: int| 0 <= j < first_dot(s) implies s[j] != '.' by {
                if j > 0 {
                    assert(s.skip(1)[j - 1] != '.');
                }
            }
        } else {
            assert forall|j: int| 0 <= j < s.len() implies s[j] != '.' by {
                if j > 0 {
                    assert(s.skip(1)[j - 1] != '.');
                }
            }
        }
    }
}

/// The position of the first dot, when the dot and the dot-free prefix are known.
pub proof fn lemma_first_dot_at(s: Seq<char>, i: int)
    requires
        0 <= i < s.len(),
        s[i] == '.',
        forall|j: int| 0 <= j < i ==> s[j] != '.',
    ensures
        first_dot(s) == i,
    decreases i,
{
    if i > 0 {
        assert forall|j: int| 0 <= j < i - 1 implies s.skip(1)[j] != '.' by {
            assert(s[j + 1] != '.');
        }
        assert(s.skip(1)[i - 1] == '.');
        lemma_first_dot_at(s.skip(1), i - 1);
    }
}

/// The dot-separated components of `s`; splitting the empty string gives one
/// empty component.
pub open spec fn spec_split_dots(s: Seq<char>) -> Seq<Seq<char>>
    decreases s.len(),
    via split_dots_decreases
{
    if first_dot(s) == -1 {
        seq![s]
    } else {
        seq![s.take(first_dot(s))] + spec_split_dots(s.skip(first_dot(s) + 1))
    }
}

#[via_fn]
proof fn split_dots_decreases(s: Seq<char>) {
    lemma_first_dot(s);
}

/// Whether the character of `s` at position `i` is a dot.
fn is_dot_at(s: &str, i: usize) -> (r: bool)
    requires
        i < s@.len(),
    ensures
        r == (s@[i as int] == '.'),
{
    s.get_char(i) == '.'
}

/// Splits `s` at every dot.
pub fn split_dots(s: &str) -> (r: Vec<String>)
    ensures
        views_of(r@) == spec_split_dots(s@),
{
    let n = s.unicode_len();
    let mut r: Vec<String> = Vec::new();
    let mut start: usize = 0;
    let mut j: usize = 0;
    proof {
        assert(s@.skip(0) =~= s@);
        assert(views_of(r@) + spec_split_dots(s@) =~= spec_split_dots(s@));
    }
    while j < n
        invariant
            n == s@.len(),
            start <= j <= n,
            forall|k: int| start <= k < j ==> s@[k] != '.',
            spec_split_dots(s@) == views_of(r@) + spec_split_dots(s@.skip(start as int)),
        decreases n - j,
    {
        if is_dot_at(s, j) {
            let piece = s.substring_char(start, j).to_owned();
            proof {
                let rest = s@.skip(start as int);
                assert forall|k: int| 0 <= k < j - start implies rest[k] != '.' by {
                    assert(s@[start + k] != '.');
                }
                assert(rest[j - start] == '.');
                lemma_first_dot_at(rest, j - start);
                assert(rest.take(j - start) =~= s@.subrange(start as int, j as int));
                assert(rest.skip(j - start + 1) =~= s@.skip(j + 1));
                assert(piece@ == rest.take(j - start));
                assert(spec_split_dots(rest) == seq![piece@] + spec_split_dots(s@.skip(j + 1)));
                assert(views_of(r@.push(piece)) =~= views_of(r@) + seq![piece@]);
                assert(views_of(r@) + (seq![piece@] + spec_split_dots(s@.skip(j + 1))) =~= (
                views_of(r@) + seq![piece@]) + spec_split_dots(s@.skip(j + 1)));
            }
            r.push(piece);
            start = j + 1;
        }
        j += 1;
    }
    let last_piece = s.substring_char(start, n).to_owned();
    proof {
        let rest = s@.skip(start as int);
        assert forall|k: int| 0 <= k < rest.len() implies rest[k] != '.' by {
            assert(s@[start + k] != '.');
        }
        lemma_first_dot(rest);
        assert(spec_split_dots(rest) == seq![rest]);
        assert(last_piece@ == s@.subrange(start as int, n as int));
        assert(last_piece@ =~= rest);
        assert(views_of(r@.push(last_piece)) =~= views_of(r@) + seq![rest]);
    }
    r.push(last_piece);
    r
}

/// Lexicographic order on character sequences: true when `a >= b`.
pub open spec fn lex_ge(a: Seq<char>, b: Seq<char>) -> bool
    decreases a.len() + b.len(),
{
    if b.len() == 0 {
        true
    } else if a.len() == 0 {
        false
    } else if a[0] != b[0] {
        a[0] > b[0]
    } else {
        lex_ge(a.skip(1), b.skip(1))
    }
}

/// Lexicographic comparison of two strings, decided character by character.
pub fn str_lex_ge(a: &str, b: &str) -> (r: bool)
    ensures
        r == lex_ge(a@, b@),
{
    let na = a.unicode_len();
    let nb = b.unicode_len();
    let mut i: usize = 0;
    proof {
        assert(a@.skip(0) =~= a@);
        assert(b@.skip(0) =~= b@);
    }
    while i < na && i < nb
        invariant
            na == a@.len(),
            nb == b@.len(),
            i <= na,
            i <= nb,
            lex_ge(a@, b@) == lex_ge(a@.skip(i as int), b@.skip(i as int)),
        decreases na - i,
    {
        let ca = a.get_char(i);
        let cb = b.get_char(i);
        if ca != cb {
            return ca > cb;
        }
        proof {
            assert(a@.skip(i as int).skip(1) =~= a@.skip(i + 1));
            assert(b@.skip(i as int).skip(1) =~= b@.skip(i + 1));
        }
        i += 1;
    }
    // one of the strings is exhausted: `a >= b` exactly when `b` is
    i >= nb
}

/// The version comparator: whether `latest` is strictly ahead of `current`.
///
/// A single leading `'v'` is stripped from `latest`. Both strings must carry
/// at least three dot-separated components; otherwise the comparison is
/// indeterminate and no update is reported. There is an update unless every
/// one of the first three components of `current` is lexicographically at
/// least its counterpart in `latest`.
pub open spec fn spec_has_update(current: Seq<char>, latest_tagged: Seq<char>) -> bool {
    let latest = if latest_tagged.len() > 0 && latest_tagged[0] == 'v' {
        latest_tagged.skip(1)
    } else {
        latest_tagged
    };
    let c = spec_split_dots(current);
    let l = spec_split_dots(latest);
    if c.len() < 3 || l.len() < 3 {
        false
    } else {
        !(lex_ge(c[0], l[0]) && lex_ge(c[1], l[1]) && lex_ge(c[2], l[2]))
    }
}

/// Decides whether an update from `current` to `latest` should be reported.
pub fn has_update(current: &str, latest: &str) -> (r: bool)
    ensures
        r == spec_has_update(current@, latest@),
{
    let n = latest.unicode_len();
    let stripped: &str = if n > 0 && latest.get_char(0) == 'v' {
        let t = latest.substring_char(1, n);
        proof {
            assert(t@ =~= latest@.skip(1));
        }
        t
    } else {
        latest
    };
    let c = split_dots(current);
    let l = split_dots(stripped);
    if c.len() < 3 || l.len() < 3 {
        return false;
    }
    proof {
        let cs = spec_split_dots(current@);
        let ls = spec_split_dots(stripped@);
        assert(c@[0]@ == cs[0] && c@[1]@ == cs[1] && c@[2]@ == cs[2]);
        assert(l@[0]@ == ls[0] && l@[1]@ == ls[1] && l@[2]@ == ls[2]);
    }
    let ge_major = str_lex_ge(c[0].as_str(), l[0].as_str());
    let ge_minor = str_lex_ge(c[1].as_str(), l[1].as_str());
    let ge_patch = str_lex_ge(c[2].as_str(), l[2].as_str());
    !(ge_major && ge_minor && ge_patch)
}

} // verus!
