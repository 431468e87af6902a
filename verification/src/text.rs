//! Character and string helpers shared by the whole library.
//!
//! Column and table identifiers are compared case-insensitively over ASCII,
//! exactly as a database folds unquoted identifiers, so everything here is
//! built from one primitive: ASCII lower-casing of a single character.

use vstd::prelude::*;
use vstd::string::StrSliceExecFns;

verus! {

/// ASCII lower-casing of one character; every other character is unchanged.
pub open spec fn lower_char(c: char) -> char {
    if 'A' <= c <= 'Z' {
        ((c as u8) + 0x20) as char
    } else {
        c
    }
}

/// A character sequence folded to ASCII lower case.
pub open spec fn lower(s: Seq<char>) -> Seq<char> {
    s.map_values(|c: char| lower_char(c))
}

/// Two character sequences that are equal up to ASCII case.
pub open spec fn eq_ci(a: Seq<char>, b: Seq<char>) -> bool {
    lower(a) == lower(b)
}

/// The views of a sequence of strings.
pub open spec fn views_of(ss: Seq<String>) -> Seq<Seq<char>> {
    ss.map_values(|s: String| s@)
}

/// The view of an optional string.
pub open spec fn view_opt(o: Option<String>) -> Option<Seq<char>> {
    match o {
        Some(s) => Some(s@),
        None => None,
    }
}

/// Whether a list of names contains one equal to `x` up to ASCII case.
pub open spec fn contains_ci(xs: Seq<Seq<char>>, x: Seq<char>) -> bool {
    exists|i: int| 0 <= i < xs.len() && eq_ci(xs[i], x)
}

/// Whether a list of names holds no two entries that are equal up to ASCII
/// case.
pub open spec fn distinct_ci(xs: Seq<Seq<char>>) -> bool {
    forall|i: int, j: int| 0 <= i < j < xs.len() ==> !eq_ci(#[trigger] xs[i], #[trigger] xs[j])
}

/// Appends `x` to a list of names unless an ASCII-case-insensitive equal is
/// already present.
pub open spec fn push_unique_ci(xs: Seq<Seq<char>>, x: Seq<char>) -> Seq<Seq<char>> {
    if contains_ci(xs, x) {
        xs
    } else {
        xs.push(x)
    }
}

/// ASCII lower-casing of one character.
pub fn char_to_lower(c: char) -> (r: char)
    ensures
        r == lower_char(c),
{
    if 'A' <= c && c <= 'Z' {
        (c as u8 + 0x20) as char
    } else {
        c
    }
}

/// Exact equality of two string slices.
pub fn str_eq(a: &str, b: &str) -> (r: bool)
    ensures
        r == (a@ == b@),
{
    let a_len = a.unicode_len();
    let b_len = b.unicode_len();
    if a_len != b_len {
        return false;
    }
    let mut i: usize = 0;
    while i < a_len
        invariant
            i <= a_len,
            a_len == a@.len(),
            a_len == b@.len(),
            forall|j: int| 0 <= j < i ==> a@[j] == b@[j],
        decreases a_len - i,
    {
        if a.get_char(i) != b.get_char(i) {
            return false;
        }
        i += 1;
    }
    proof {
        assert(a@ =~= b@);
    }
    true
}

/// Equality of two string slices up to ASCII case.
pub fn str_eq_ci(a: &str, b: &str) -> (r: bool)
    ensures
        r == eq_ci(a@, b@),
{
    let a_len = a.unicode_len();
    let b_len = b.unicode_len();
    if a_len != b_len {
        return false;
    }
    let mut i: usize = 0;
    while i < a_len
        invariant
            i <= a_len,
            a_len == a@.len(),
            a_len == b@.len(),
            forall|j: int| 0 <= j < i ==> lower_char(a@[j]) == lower_char(b@[j]),
        decreases a_len - i,
    {
        if char_to_lower(a.get_char(i)) != char_to_lower(b.get_char(i)) {
            proof {
                assert(lower(a@)[i as int] == lower_char(a@[i as int]));
                assert(lower(b@)[i as int] == lower_char(b@[i as int]));
            }
            return false;
        }
        i += 1;
    }
    proof {
        assert(lower(a@) =~= lower(b@));
    }
    true
}

} // verus!
