//! The character classes of the regular-expression language: which
//! characters beyond ASCII count as decimal digits and as characters of a
//! word is taken from there.

use regex::Regex;
use vstd::prelude::*;

verus! {

/// Whether the pattern, read as a regular expression, matches the text that
/// is made of the one character `c`; a pattern that is no regular expression
/// matches nothing. Nothing more is known of it.
pub uninterp spec fn pattern_takes(pattern: Seq<char>, c: char) -> bool;

/// Tests one character against a pattern: `Regex::new` compiles the pattern
/// and `Regex::is_match` looks for a match in the text made of the one
/// character. The claim: the answer depends on the pattern and the character
/// alone, and is what `pattern_takes` names. The pattern is compiled at each
/// call, which is why the library asks only of characters beyond ASCII.
#[verifier::external_body]
pub(crate) fn takes(pattern: &str, c: char) -> (taken: bool)
    ensures
        taken == pattern_takes(pattern@, c),
{
    let mut buffer = [0u8; 4];
    match Regex::new(pattern) {
        Ok(re) => re.is_match(c.encode_utf8(&mut buffer)),
        Err(_) => false,
    }
}

} // verus!
