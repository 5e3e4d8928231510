//! Author identifiers: 128-bit keys inside the tables, opaque text tokens at
//! the boundary.

use vstd::prelude::*;

verus! {

/// What `Uuid::parse_str` makes of a token: the key's 128 bits, or the
/// message of the parser's error.
pub uninterp spec fn parsed_key(token: Seq<char>) -> Result<u128, Seq<char>>;

/// The token that `async_graphql::ID` holds for a key.
pub uninterp spec fn key_token(key: u128) -> Seq<char>;

/// Reads a token as a key.
///
/// Calls `str::parse::<uuid::Uuid>`, which is `Uuid::parse_str`, and hands
/// back the key as `Uuid::as_u128` packs it, or the text that the parser's
/// error displays. Both depend on the token alone.
#[verifier::external_body]
pub(crate) fn parse_key(token: &str) -> (r: Result<u128, String>)
    ensures
        match r {
            Ok(key) => parsed_key(token@) matches Ok(k) && k == key,
            Err(message) => parsed_key(token@) matches Err(m) && m == message@,
        },
{
    match token.parse::<uuid::Uuid>() {
        Ok(id) => Ok(id.as_u128()),
        Err(e) => Err(e.to_string()),
    }
}

/// Writes a key as a token.
///
/// Calls `async_graphql::ID::from` on the `Uuid` of the key, which displays
/// it: lower-case hexadecimal digits in hyphenated groups. The parser reads
/// every text that the display writes, and reads it as the same key.
#[verifier::external_body]
pub(crate) fn token_of(key: u128) -> (text: String)
    ensures
        text@ == key_token(key),
        (parsed_key(text@) == Ok::<u128, Seq<char>>(key)),
{
    async_graphql::ID::from(uuid::Uuid::from_u128(key)).0
}

/// Draws a key at random.
///
/// Calls `Uuid::new_v4`, which asks the operating system for random bytes
/// and panics if it gives none. Nothing is promised of the key: it may be
/// one that is already in use.
#[verifier::external_body]
pub(crate) fn random_key() -> u128 {
    uuid::Uuid::new_v4().as_u128()
}

/// Whether a token is the text of this key, in the form in which tokens are
/// written.
pub open spec fn names(token: Seq<char>, key: u128) -> bool {
    parsed_key(token) == Ok::<u128, Seq<char>>(key) && key_token(key) == token
}

/// Whether a token is the text of a key, in the form in which tokens are
/// written. The parser reads other forms too: upper-case digits, braces,
/// no hyphens.
pub open spec fn is_canonical(token: Seq<char>) -> bool {
    parsed_key(token) matches Ok(key) && key_token(key) == token
}

} // verus!
