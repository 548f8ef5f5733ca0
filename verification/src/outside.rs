//! Trusted boundary: the two outside computations the session manager leans on,
//! lossy text decoding of raw PTY bytes and fresh identifier generation.

use vstd::prelude::*;

verus! {

/// The text that lossy UTF-8 decoding yields for a given byte sequence.
pub uninterp spec fn lossy_of(bytes: Seq<u8>) -> Seq<char>;

/// Relies on String::from_utf8_lossy: the decoding is a function of the bytes
/// alone (invalid sequences become replacement characters, never an error),
/// and a chunk of ASCII bytes decodes to exactly those characters.
#[verifier::external_body]
pub(crate) fn decode_lossy(bytes: &[u8]) -> (r: String)
    ensures
        r@ == lossy_of(bytes@),
        (forall|i: int| 0 <= i < bytes@.len() ==> bytes@[i] < 128) ==> r@ == bytes@.map(
            |_i: int, b: u8| b as char,
        ),
{
    String::from_utf8_lossy(bytes).into_owned()
}

/// Relies on uuid::Uuid::new_v4 and its Display form: a fresh random 128-bit
/// identifier rendered as 36 hyphenated hexadecimal characters. Randomness
/// promises nothing further, in particular not uniqueness.
#[verifier::external_body]
pub(crate) fn generate_session_id() -> (r: String)
    ensures
        r@.len() == 36,
{
    uuid::Uuid::new_v4().to_string()
}

} // verus!
