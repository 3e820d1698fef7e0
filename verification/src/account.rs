use vstd::prelude::*;

verus! {

/// A character the account grammar accepts: lower-case ASCII letters,
/// digits, and the three separators.
pub open spec fn account_char(c: char) -> bool {
    ('a' <= c && c <= 'z') || ('0' <= c && c <= '9') || account_separator(c)
}

/// A separator character of the account grammar.
pub open spec fn account_separator(c: char) -> bool {
    c == '-' || c == '_' || c == '.'
}

/// The NEAR account grammar: 2 to 64 characters, all of them lower-case
/// ASCII letters, digits or the separators `-`, `_`, `.`, with a separator
/// neither first, nor last, nor next to another separator.
pub open spec fn valid_account_id(s: Seq<char>) -> bool {
    &&& 2 <= s.len() <= 64
    &&& forall|i: int| 0 <= i < s.len() ==> account_char(#[trigger] s[i])
    &&& !account_separator(s[0])
    &&& !account_separator(s[s.len() - 1])
    &&& forall|i: int|
        1 <= i < s.len() ==> !(account_separator(s[i - 1]) && account_separator(#[trigger] s[i]))
}

/// Relies on `near_sdk::AccountId::validate`, which accepts exactly the
/// NEAR account grammar stated by `valid_account_id`: a byte length of 2 to
/// 64, only the characters `a`-`z`, `0`-`9`, `-`, `_`, `.`, and no
/// separator first, last, or directly after another separator.  (The byte
/// length check and the character-count check agree, because a string with
/// a multi-byte character is rejected by both.)
#[verifier::external_body]
pub fn account_id_is_valid(s: &str) -> (r: bool)
    ensures
        r == valid_account_id(s@),
{
    near_sdk::AccountId::validate(s).is_ok()
}

} // verus!
