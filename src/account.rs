use vstd::prelude::*;

verus! {

/// The separators of an account id: `-`, `_` and `.`.
pub open spec fn is_separator(c: char) -> bool {
    c == '-' || c == '_' || c == '.'
}

/// The characters an account id is made of: lower-case letters, digits and separators.
pub open spec fn is_id_char(c: char) -> bool {
    ('a' <= c && c <= 'z') || ('0' <= c && c <= '9') || is_separator(c)
}

/// A well-formed account id: 2 to 64 characters of `is_id_char`, where no
/// separator stands first, last, or next to another separator.
pub open spec fn valid_account_id(s: Seq<char>) -> bool {
    &&& 2 <= s.len() <= 64
    &&& forall|i: int| 0 <= i < s.len() ==> is_id_char(#[trigger] s[i])
    &&& !is_separator(s[0])
    &&& !is_separator(s[s.len() - 1])
    &&& forall|i: int|
        0 <= i < s.len() - 1 ==> !(is_separator(#[trigger] s[i]) && is_separator(s[i + 1]))
}

/// Relies on near_sdk::env::is_valid_account_id, the check behind
/// `ValidAccountId`. It works on bytes; a non-ASCII character fails it both as
/// bytes and as a character, so the statement over characters is the same.
#[verifier::external_body]
pub(crate) fn account_id_is_valid(account: &String) -> (r: bool)
    ensures
        r == valid_account_id(account@),
{
    near_sdk::env::is_valid_account_id(account.as_bytes())
}

} // verus!
