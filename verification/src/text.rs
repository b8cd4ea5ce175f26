//! Small text helpers shared by the tokenizer and the argv splitter:
//! the whitespace predicate, character-sequence equality on `&str`,
//! and the one conversion from a character buffer back to a `String`.

use vstd::prelude::*;

verus! {

/// The characters with the Unicode `White_Space` property, i.e. exactly
/// those for which `char::is_whitespace` returns true.
pub open spec fn is_space_char(c: char) -> bool {
    c == '\u{0009}' || c == '\u{000A}' || c == '\u{000B}' || c == '\u{000C}'
        || c == '\u{000D}' || c == '\u{0020}' || c == '\u{0085}' || c == '\u{00A0}'
        || c == '\u{1680}' || c == '\u{2000}' || c == '\u{2001}' || c == '\u{2002}'
        || c == '\u{2003}' || c == '\u{2004}' || c == '\u{2005}' || c == '\u{2006}'
        || c == '\u{2007}' || c == '\u{2008}' || c == '\u{2009}' || c == '\u{200A}'
        || c == '\u{2028}' || c == '\u{2029}' || c == '\u{202F}' || c == '\u{205F}'
        || c == '\u{3000}'
}

/// Executable form of `is_space_char`.
pub fn is_space(c: char) -> (r: bool)
    ensures
        r == is_space_char(c),
{
    c == '\u{0009}' || c == '\u{000A}' || c == '\u{000B}' || c == '\u{000C}'
        || c == '\u{000D}' || c == '\u{0020}' || c == '\u{0085}' || c == '\u{00A0}'
        || c == '\u{1680}' || c == '\u{2000}' || c == '\u{2001}' || c == '\u{2002}'
        || c == '\u{2003}' || c == '\u{2004}' || c == '\u{2005}' || c == '\u{2006}'
        || c == '\u{2007}' || c == '\u{2008}' || c == '\u{2009}' || c == '\u{200A}'
        || c == '\u{2028}' || c == '\u{2029}' || c == '\u{202F}' || c == '\u{205F}'
        || c == '\u{3000}'
}

/// Character-by-character equality of two string slices.
pub fn str_eq(a: &str, b: &str) -> (r: bool)
    ensures
        r == (a@ == b@),
{
    let n = a.unicode_len();
    let m = b.unicode_len();
    if n != m {
        return false;
    }
    let mut i: usize = 0;
    while i < n
        invariant
            n == a@.len(),
            n == b@.len(),
            0 <= i <= n,
            forall|j: int| 0 <= j < i ==> a@[j] == b@[j],
        decreases n - i,
    {
        if a.get_char(i) != b.get_char(i) {
            return false;
        }
        i = i + 1;
    }
    proof {
        assert(a@ =~= b@);
    }
    true
}

/// Relies on `FromIterator for String` (`collect` over `char`s): the
/// resulting string consists of exactly the given characters in order.
#[verifier::external_body]
pub fn chars_to_string(v: &[char]) -> (s: String)
    ensures
        s@ == v@,
{
    v.iter().collect()
}

} // verus!
