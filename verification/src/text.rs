//! Small string helpers shared by the cascade renderer and the property
//! compiler: character-level equality, prefix tests, and the attribute-key
//! normalization rules (reserved-word prefix strip, underscore to hyphen).

use vstd::prelude::*;
use vstd::string::StrSliceExecFns;
use vstd::string::StringExecFns;

verus! {

/// Relies on `String::push`: appends the given character to the end of
/// the string.
#[verifier::external_body]
pub fn push_char(s: &mut String, c: char)
    ensures
        final(s)@ == old(s)@.push(c),
{
    s.push(c);
}

/// Character-wise equality of two string slices.
pub fn str_eq(a: &str, b: &str) -> (r: bool)
    ensures
        r == (a@ == b@),
{
    let sa: String = String::from_str(a);
    let sb: String = String::from_str(b);
    sa == sb
}

/// Whether `p@` is a prefix of `s@`.
pub open spec fn is_prefix_of(p: Seq<char>, s: Seq<char>) -> bool {
    p.len() <= s.len() && s.subrange(0, p.len() as int) == p
}

/// Character-wise prefix test.
pub fn has_prefix(s: &str, p: &str) -> (r: bool)
    ensures
        r == is_prefix_of(p@, s@),
{
    let n = s.unicode_len();
    let m = p.unicode_len();
    if m > n {
        assert(!is_prefix_of(p@, s@));
        return false;
    }
    let mut i: usize = 0;
    while i < m
        invariant
            i <= m,
            m <= n,
            m == p@.len(),
            n == s@.len(),
            forall|j: int| 0 <= j < i ==> s@[j] == p@[j],
        decreases m - i,
    {
        if s.get_char(i) != p.get_char(i) {
            assert(s@.subrange(0, m as int)[i as int] != p@[i as int]);
            return false;
        }
        i += 1;
    }
    assert(s@.subrange(0, m as int) =~= p@);
    true
}

/// Underscores become hyphens; every other character stays.
pub open spec fn dehyphen(c: char) -> char {
    if c == '_' {
        '-'
    } else {
        c
    }
}

/// A name written with the reserved-word escape keeps only the part after it.
pub open spec fn strip_raw_prefix(s: Seq<char>) -> Seq<char> {
    if s.len() >= 2 && s[0] == 'r' && s[1] == '#' {
        s.subrange(2, s.len() as int)
    } else {
        s
    }
}

/// The externally visible attribute key for a field name: the reserved-word
/// prefix is stripped and underscores become hyphens.
pub open spec fn normalized_key(s: Seq<char>) -> Seq<char> {
    strip_raw_prefix(s).map_values(|c: char| dehyphen(c))
}

/// Computes the attribute key for a field name.
pub fn normalize_key(name: &str) -> (r: String)
    ensures
        r@ == normalized_key(name@),
{
    let n = name.unicode_len();
    let base: &str = if n >= 2 && name.get_char(0) == 'r' && name.get_char(1) == '#' {
        name.substring_char(2, n)
    } else {
        name
    };
    assert(base@ == strip_raw_prefix(name@));
    let m = base.unicode_len();
    let mut out = String::new();
    let mut i: usize = 0;
    while i < m
        invariant
            i <= m,
            m == base@.len(),
            out@ == base@.take(i as int).map_values(|c: char| dehyphen(c)),
        decreases m - i,
    {
        let c = base.get_char(i);
        let c2 = if c == '_' {
            '-'
        } else {
            c
        };
        push_char(&mut out, c2);
        assert(out@ =~= base@.take(i + 1).map_values(|c: char| dehyphen(c)));
        i += 1;
    }
    assert(base@.take(m as int) =~= base@);
    out
}

} // verus!
