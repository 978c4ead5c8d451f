//! Deletion tokens: 128 random bits in their canonical 36-character text.

use vstd::prelude::*;

verus! {

/// The width of every token, in characters.
pub const TOKEN_WIDTH: usize = 36;

/// A lower-case hexadecimal digit.
pub open spec fn is_lower_hex(c: char) -> bool {
    '0' <= c <= '9' || 'a' <= c <= 'f'
}

/// The places of the four hyphens in a canonical token.
pub open spec fn is_hyphen_place(i: int) -> bool {
    i == 8 || i == 13 || i == 18 || i == 23
}

/// The canonical text of 128 bits: 32 lower-case hexadecimal digits in groups
/// of 8, 4, 4, 4 and 12, with a hyphen between the groups.
pub open spec fn is_canonical_token(t: Seq<char>) -> bool {
    &&& t.len() == 36
    &&& forall|i: int|
        0 <= i < 36 ==> if is_hyphen_place(i) {
            #[trigger] t[i] == '-'
        } else {
            is_lower_hex(t[i])
        }
}

/// A canonical token of the random kind: its version digit is `4` and its
/// variant digit is one of `8`, `9`, `a` and `b`.
pub open spec fn is_random_token(t: Seq<char>) -> bool {
    &&& is_canonical_token(t)
    &&& t[14] == '4'
    &&& (t[19] == '8' || t[19] == '9' || t[19] == 'a' || t[19] == 'b')
}

/// What reading `text` as a UUID and writing it out again gives: the canonical
/// text of the same 128 bits, or nothing where `text` is no UUID.
pub uninterp spec fn uuid_canonical(text: Seq<char>) -> Option<Seq<char>>;

/// Draws a fresh random token.
///
/// Trusted: this is `uuid::Uuid::new_v4`, with the UUID turned into its text.
/// The bits come from the operating system's random source, so the contract
/// claims only what holds of every outcome: the text has the canonical shape,
/// with the version and variant digits that the crate sets on every random
/// UUID. The call panics if the system cannot supply random bits.
#[verifier::external_body]
pub(crate) fn fresh_token() -> (t: String)
    ensures
        is_random_token(t@),
{
    String::from(uuid::Uuid::new_v4())
}

/// Reads `text` as a UUID in any of the forms the `uuid` crate accepts and
/// returns its canonical text.
///
/// Trusted: this is `uuid::Uuid::parse_str`, with the UUID turned into its
/// text. The contract names the outcome as a function of the text and adds two
/// facts from the crate's source: what comes out has the canonical shape, and
/// a text that already has the canonical shape comes out unchanged.
#[verifier::external_body]
pub(crate) fn canonical_token(text: &str) -> (r: Option<String>)
    ensures
        r is None <==> uuid_canonical(text@) is None,
        r matches Some(t) ==> uuid_canonical(text@) == Some(t@) && is_canonical_token(t@),
        is_canonical_token(text@) ==> r.deep_view() == Some(text@),
{
    match uuid::Uuid::parse_str(text) {
        Ok(u) => Some(String::from(u)),
        Err(_) => None,
    }
}

} // verus!
